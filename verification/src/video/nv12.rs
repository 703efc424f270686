//! BGRA -> NV12 conversion (BT.601 limited range, integer arithmetic).
//!
//! Hardware encoders take NV12 system memory directly, so sending NV12
//! through the pipe skips ffmpeg's BGRA->YUV420p conversion and cuts the pipe
//! bandwidth to 3/8. Width and height must be even.

use crate::video::scale::{scale_bgra, scale_fits, scaled_frame, src_ok};
use vstd::prelude::*;

verus! {

/// NV12 byte size for `w`x`h` (Y plane + interleaved UV).
pub open spec fn nv12_size(w: u32, h: u32) -> int {
    w * h * 3 / 2
}

/// NV12 byte size for `w`x`h` (Y plane + interleaved UV).
pub fn nv12_frame_size(w: u32, h: u32) -> (r: usize)
    requires
        w * h * 3 <= usize::MAX,
    ensures
        r == nv12_size(w, h),
{
    assert((w as usize) * (h as usize) == w * h);
    (w as usize) * (h as usize) * 3 / 2
}

/// `v` clamped to the byte range.
pub open spec fn clamp_byte(v: int) -> u8 {
    if v < 0 {
        0
    } else if v > 255 {
        255
    } else {
        v as u8
    }
}

fn clamp8(v: i32) -> (r: u8)
    ensures
        r == clamp_byte(v as int),
{
    if v < 0 {
        0
    } else if v > 255 {
        255
    } else {
        v as u8
    }
}

/// BT.601 limited-range luma of a BGR pixel.
pub open spec fn luma(b: u8, g: u8, r: u8) -> u8 {
    clamp_byte((66 * r + 129 * g + 25 * b + 128) / 256 + 16)
}

/// Unscaled, unoffset U of a BGR pixel.
pub open spec fn chroma_u(b: u8, g: u8, r: u8) -> int {
    -38 * r - 74 * g + 112 * b
}

/// Unscaled, unoffset V of a BGR pixel.
pub open spec fn chroma_v(b: u8, g: u8, r: u8) -> int {
    112 * r - 94 * g - 18 * b
}

/// One BGRA pixel -> (Y, U, V); U and V stay unscaled and unoffset so the
/// caller can average them first.
fn bgra_to_yuv_pixel(b: u8, g: u8, r: u8) -> (res: (u8, i32, i32))
    ensures
        res.0 == luma(b, g, r),
        res.1 == chroma_u(b, g, r),
        res.2 == chroma_v(b, g, r),
{
    let bi: i32 = b as i32;
    let gi: i32 = g as i32;
    let ri: i32 = r as i32;
    assert(0 <= bi <= 255 && 0 <= gi <= 255 && 0 <= ri <= 255);
    let (b, g, r) = (bi, gi, ri);
    let t: i32 = 66 * r + 129 * g + 25 * b + 128;
    assert(t >= 0 ==> t >> 8 == t / 256) by (bit_vector);
    let y = (t >> 8) + 16;
    let u = 112 * b - 38 * r - 74 * g;
    let v = 112 * r - 94 * g - 18 * b;
    (clamp8(y), u, v)
}

/// Rust's integer division (rounds toward zero) by a positive divisor.
pub open spec fn trunc_div(x: int, d: int) -> int {
    if x >= 0 {
        x / d
    } else {
        -((-x) / d)
    }
}

/// A chroma byte from the sum of four unscaled values: their average, then
/// the BT.601 scale and the +128 offset.
pub open spec fn chroma_byte(sum: int) -> u8 {
    clamp_byte((trunc_div(sum, 4) + 128) / 256 + 128)
}

/// Byte `c` of pixel `p` of a BGRA buffer.
pub open spec fn px(src: Seq<u8>, p: int, c: int) -> u8 {
    src[4 * p + c]
}

/// Luma of pixel `p` of a BGRA buffer.
pub open spec fn luma_at(src: Seq<u8>, p: int) -> u8 {
    luma(px(src, p, 0), px(src, p, 1), px(src, p, 2))
}

/// Pixel index of `(2*bx + dx, 2*by + dy)` in a `w`-wide frame.
pub open spec fn block_px(w: int, bx: int, by: int, dx: int, dy: int) -> int {
    (2 * by + dy) * w + 2 * bx + dx
}

/// Sum of the unscaled U values over the 2x2 block `(bx, by)`.
pub open spec fn block_u(src: Seq<u8>, w: int, bx: int, by: int) -> int {
    let u = |p: int| chroma_u(px(src, p, 0), px(src, p, 1), px(src, p, 2));
    u(block_px(w, bx, by, 0, 0)) + u(block_px(w, bx, by, 1, 0)) + u(block_px(w, bx, by, 0, 1)) + u(
        block_px(w, bx, by, 1, 1),
    )
}

/// Sum of the unscaled V values over the 2x2 block `(bx, by)`.
pub open spec fn block_v(src: Seq<u8>, w: int, bx: int, by: int) -> int {
    let v = |p: int| chroma_v(px(src, p, 0), px(src, p, 1), px(src, p, 2));
    v(block_px(w, bx, by, 0, 0)) + v(block_px(w, bx, by, 1, 0)) + v(block_px(w, bx, by, 0, 1)) + v(
        block_px(w, bx, by, 1, 1),
    )
}

/// Whether a conversion of `w`x`h` can run on these buffer lengths: even,
/// non-zero sizes and large enough buffers.
pub open spec fn convertible(w: u32, h: u32, src_len: int, dst_len: int) -> bool {
    &&& w % 2 == 0 && h % 2 == 0 && w > 0 && h > 0
    &&& src_len >= w * h * 4
    &&& dst_len >= nv12_size(w, h)
}

/// `dst` holds the NV12 image of the BGRA image `src` in its first
/// `nv12_size(w, h)` bytes: luma per pixel, then U,V per 2x2 block.
pub open spec fn is_nv12_of(dst: Seq<u8>, src: Seq<u8>, w: u32, h: u32) -> bool {
    let n = (w * h) as int;
    let bw = (w / 2) as int;
    &&& forall|p: int| 0 <= p < n ==> #[trigger] dst[p] == luma_at(src, p)
    &&& forall|k: int| 0 <= k < bw * (h / 2) ==> #[trigger] uv_ok(dst, src, w as int, n, bw, k)
}

/// Byte `c` of the UV pair of block `k` in an NV12 buffer whose Y plane has
/// `n` bytes.
pub open spec fn uv_byte(dst: Seq<u8>, n: int, k: int, c: int) -> u8 {
    dst[n + 2 * k + c]
}

/// The UV pair of block `k` (of `bw` blocks per row) is the averaged chroma of
/// that 2x2 block of `src`.
pub open spec fn uv_ok(dst: Seq<u8>, src: Seq<u8>, w: int, n: int, bw: int, k: int) -> bool {
    &&& uv_byte(dst, n, k, 0) == chroma_byte(block_u(src, w, k % bw, k / bw))
    &&& uv_byte(dst, n, k, 1) == chroma_byte(block_v(src, w, k % bw, k / bw))
}

/// `dst` holds an NV12 black frame (Y 16, UV 128) in its first
/// `nv12_size(w, h)` bytes.
pub open spec fn is_nv12_black(dst: Seq<u8>, w: u32, h: u32) -> bool {
    &&& forall|i: int| 0 <= i < w * h ==> #[trigger] dst[i] == 16
    &&& forall|i: int| w * h <= i < nv12_size(w, h) ==> #[trigger] dst[i] == 128
}

/// Bytes of `dst` from `from` on are those of `old`.
pub open spec fn same_from(dst: Seq<u8>, old: Seq<u8>, from: int) -> bool {
    &&& dst.len() == old.len()
    &&& forall|i: int| from <= i < dst.len() ==> #[trigger] dst[i] == old[i]
}

/// Fills the first `nv12_size(w, h)` bytes of `dst` with NV12 black; a
/// buffer that is too short is left alone.
fn fill_nv12_black(dst: &mut [u8], w: u32, h: u32)
    requires
        w * h * 3 <= usize::MAX,
    ensures
        old(dst)@.len() >= nv12_size(w, h) ==> is_nv12_black(final(dst)@, w, h) && same_from(
            final(dst)@,
            old(dst)@,
            nv12_size(w, h),
        ),
        old(dst)@.len() < nv12_size(w, h) ==> final(dst)@ == old(dst)@,
{
    let n: usize = (w as usize) * (h as usize);
    assert(n == w * h);
    let need: usize = n * 3 / 2;
    if dst.len() < need {
        return;
    }
    let mut i: usize = 0;
    while i < need
        invariant
            n == w * h,
            need == nv12_size(w, h),
            need <= dst@.len(),
            n <= need,
            i <= need,
            same_from(dst@, old(dst)@, i as int),
            forall|j: int| 0 <= j < i && j < n ==> #[trigger] dst@[j] == 16,
            forall|j: int| n <= j < i ==> #[trigger] dst@[j] == 128,
        decreases need - i,
    {
        if i < n {
            dst[i] = 16;
        } else {
            dst[i] = 128;
        }
        i = i + 1;
    }
}


/// The chroma byte of a sum of four unscaled values, as the conversion
/// computes it: truncating average, arithmetic shift, offset, clamp.
fn chroma_of_sum(sum: i32) -> (r: u8)
    requires
        -200_000 <= sum <= 200_000,
    ensures
        r == chroma_byte(sum as int),
{
    let avg: i32 = sum / 4;
    assert(avg == trunc_div(sum as int, 4));
    let t: i32 = avg + 128;
    assert(t >> 8 == t / 256) by (bit_vector);
    clamp8((t >> 8) + 128)
}

/// Sum of the unscaled U values of pixels `a`, `b`, `c`, `d`.
pub open spec fn quad_u(src: Seq<u8>, a: int, b: int, c: int, d: int) -> int {
    let u = |p: int| chroma_u(px(src, p, 0), px(src, p, 1), px(src, p, 2));
    u(a) + u(b) + u(c) + u(d)
}

/// Sum of the unscaled V values of pixels `a`, `b`, `c`, `d`.
pub open spec fn quad_v(src: Seq<u8>, a: int, b: int, c: int, d: int) -> int {
    let v = |p: int| chroma_v(px(src, p, 0), px(src, p, 1), px(src, p, 2));
    v(a) + v(b) + v(c) + v(d)
}

fn pixel_uv(src: &[u8], p: usize) -> (r: (i32, i32))
    requires
        4 * p + 2 < src@.len(),
    ensures
        r.0 == chroma_u(px(src@, p as int, 0), px(src@, p as int, 1), px(src@, p as int, 2)),
        r.1 == chroma_v(px(src@, p as int, 0), px(src@, p as int, 1), px(src@, p as int, 2)),
{
    let _len = src.len();
    let s = p * 4;
    let (_, u, v) = bgra_to_yuv_pixel(src[s], src[s + 1], src[s + 2]);
    (u, v)
}

/// Writes the averaged chroma of pixels `p00`, `p00+1`, `p00+w`, `p00+w+1`
/// at `o`, `o+1`.
fn write_uv(dst: &mut [u8], src: &[u8], p00: usize, w: usize, o: usize)
    requires
        4 * (p00 + w + 1) + 2 < src@.len(),
        o + 1 < old(dst)@.len(),
    ensures
        final(dst)@ == old(dst)@.update(
            o as int,
            chroma_byte(quad_u(src@, p00 as int, p00 + 1, p00 + w, p00 + w + 1)),
        ).update(o + 1, chroma_byte(quad_v(src@, p00 as int, p00 + 1, p00 + w, p00 + w + 1))),
{
    let _len = src.len();
    let (u0, v0) = pixel_uv(src, p00);
    let (u1, v1) = pixel_uv(src, p00 + 1);
    let (u2, v2) = pixel_uv(src, p00 + w);
    let (u3, v3) = pixel_uv(src, p00 + w + 1);
    let su: i32 = u0 + u1 + u2 + u3;
    let sv: i32 = v0 + v1 + v2 + v3;
    dst[o] = chroma_of_sum(su);
    dst[o + 1] = chroma_of_sum(sv);
}

proof fn lemma_block_layout(w: int, h: int, by: int, bx: int, row: int, n: int)
    requires
        w > 0,
        h > 0,
        w % 2 == 0,
        h % 2 == 0,
        0 <= by < h / 2,
        0 <= bx < w / 2,
        row == 2 * by * w,
        n == w * h,
    ensures
        row + 2 * w <= n,
        block_px(w, bx, by, 0, 0) == row + 2 * bx,
        block_px(w, bx, by, 1, 0) == row + 2 * bx + 1,
        block_px(w, bx, by, 0, 1) == row + w + 2 * bx,
        block_px(w, bx, by, 1, 1) == row + w + 2 * bx + 1,
        row + w + 2 * bx + 1 < n,
{
    assert(row + 2 * w <= n) by (nonlinear_arith)
        requires
            row == 2 * by * w,
            by + 1 <= h / 2,
            h % 2 == 0,
            n == w * h,
            w > 0,
    ;
    assert((2 * by + 1) * w == 2 * by * w + w) by (nonlinear_arith);
}

proof fn lemma_blocks_fit(w: int, h: int, n: int, bw: int, bh: int, by: int, bx: int)
    requires
        w > 0,
        h > 0,
        w % 2 == 0,
        h % 2 == 0,
        n == w * h,
        bw == w / 2,
        bh == h / 2,
        0 <= by < bh,
        0 <= bx < bw,
    ensures
        by * bw + bx < bw * bh,
        2 * (bw * bh) == n / 2,
        n % 2 == 0,
{
    assert(by * bw + bx < bw * bh) by (nonlinear_arith)
        requires
            0 <= by < bh,
            0 <= bx < bw,
    ;
    assert(4 * (bw * bh) == n) by (nonlinear_arith)
        requires
            n == w * h,
            w == 2 * bw,
            h == 2 * bh,
    ;
}

/// BGRA `w`x`h` -> NV12 into the front of `dst`. Sizes that are odd or zero,
/// or buffers that are too short, yield an NV12 black frame instead (never a
/// panic on the capture path); bytes past the frame are left alone.
pub fn bgra_to_nv12_into(dst: &mut [u8], src: &[u8], w: u32, h: u32)
    requires
        w * h * 3 <= usize::MAX,
        w % 2 == 0 && h % 2 == 0 && w > 0 && h > 0 ==> w * h * 4 <= usize::MAX,
    ensures
        final(dst)@.len() == old(dst)@.len(),
        convertible(w, h, src@.len() as int, old(dst)@.len() as int) ==> is_nv12_of(
            final(dst)@,
            src@,
            w,
            h,
        ) && same_from(final(dst)@, old(dst)@, nv12_size(w, h)),
        !convertible(w, h, src@.len() as int, old(dst)@.len() as int) && old(dst)@.len()
            >= nv12_size(w, h) ==> is_nv12_black(final(dst)@, w, h) && same_from(
            final(dst)@,
            old(dst)@,
            nv12_size(w, h),
        ),
        !convertible(w, h, src@.len() as int, old(dst)@.len() as int) && old(dst)@.len()
            < nv12_size(w, h) ==> final(dst)@ == old(dst)@,
{
    if w % 2 == 1 || h % 2 == 1 || w == 0 || h == 0 {
        fill_nv12_black(dst, w, h);
        return;
    }
    let wu = w as usize;
    let hu = h as usize;
    let n: usize = wu * hu;
    assert(n == w * h);
    let need_src: usize = n * 4;
    let need_dst: usize = n * 3 / 2;
    if src.len() < need_src || dst.len() < need_dst {
        fill_nv12_black(dst, w, h);
        return;
    }
    // Y per pixel.
    let mut p: usize = 0;
    while p < n
        invariant
            n * 4 <= usize::MAX,
            n == w * h,
            n * 4 <= src@.len(),
            need_dst == nv12_size(w, h) <= dst@.len(),
            n <= need_dst,
            p <= n,
            same_from(dst@, old(dst)@, p as int),
            forall|q: int| 0 <= q < p ==> #[trigger] dst@[q] == luma_at(src@, q),
        decreases n - p,
    {
        let s = p * 4;
        let (yy, _, _) = bgra_to_yuv_pixel(src[s], src[s + 1], src[s + 2]);
        dst[p] = yy;
        p = p + 1;
    }
    // UV averaged over each 2x2 block.
    let bw: usize = wu / 2;
    let bh: usize = hu / 2;
    let mut by: usize = 0;
    let mut k: usize = 0;
    let mut row: usize = 0;
    assert(row == 2 * by * w) by (nonlinear_arith)
        requires
            row == 0,
            by == 0,
    ;
    while by < bh
        invariant
            n * 4 <= usize::MAX,
            w > 0 && h > 0 && w % 2 == 0 && h % 2 == 0,
            wu == w,
            n == w * h,
            n * 4 <= src@.len(),
            need_dst == nv12_size(w, h) <= dst@.len(),
            bw == w / 2,
            bh == h / 2,
            by <= bh,
            k == by * bw,
            row == 2 * by * w,
            same_from(dst@, old(dst)@, n + 2 * k),
            forall|q: int| 0 <= q < n ==> #[trigger] dst@[q] == luma_at(src@, q),
            forall|j: int| 0 <= j < k ==> #[trigger] uv_ok(dst@, src@, w as int, n as int, bw as int, j),
        decreases bh - by,
    {
        let mut bx: usize = 0;
        proof {
            lemma_block_layout(w as int, h as int, by as int, 0, row as int, n as int);
        }
        while bx < bw
            invariant
                n * 4 <= usize::MAX,
                row + 2 * w <= n,
                w > 0 && h > 0 && w % 2 == 0 && h % 2 == 0,
                wu == w,
                n == w * h,
                n * 4 <= src@.len(),
                need_dst == nv12_size(w, h) <= dst@.len(),
                bw == w / 2,
                bh == h / 2,
                by < bh,
                bx <= bw,
                k == by * bw + bx,
                row == 2 * by * w,
                same_from(dst@, old(dst)@, n + 2 * k),
                forall|q: int| 0 <= q < n ==> #[trigger] dst@[q] == luma_at(src@, q),
                forall|j: int|
                    0 <= j < k ==> #[trigger] uv_ok(dst@, src@, w as int, n as int, bw as int, j),
            decreases bw - bx,
        {
            proof {
                lemma_block_layout(w as int, h as int, by as int, bx as int, row as int, n as int);
                lemma_blocks_fit(w as int, h as int, n as int, bw as int, bh as int, by as int, bx as int);
                vstd::arithmetic::div_mod::lemma_fundamental_div_mod_converse(
                    k as int,
                    bw as int,
                    by as int,
                    bx as int,
                );
            }
            let p00 = row + 2 * bx;
            let o = n + 2 * k;
            let ghost before = dst@;
            write_uv(dst, src, p00, wu, o);
            assert(uv_ok(dst@, src@, w as int, n as int, bw as int, k as int));
            assert forall|j: int| 0 <= j < k + 1 implies #[trigger] uv_ok(
                dst@,
                src@,
                w as int,
                n as int,
                bw as int,
                j,
            ) by {
                if j < k {
                    assert(uv_ok(before, src@, w as int, n as int, bw as int, j));
                }
            }
            bx = bx + 1;
            k = k + 1;
        }
        proof {
            assert((by + 1) * bw == by * bw + bw) by (nonlinear_arith);
            assert(2 * (by + 1) * w == 2 * by * w + 2 * w) by (nonlinear_arith);
        }
        by = by + 1;
        row = row + 2 * wu;
    }
    proof {
        assert(bh * bw == bw * bh) by (nonlinear_arith);
        assert(4 * (bw * bh) == n) by (nonlinear_arith)
            requires
                n == w * h,
                w == 2 * bw,
                h == 2 * bh,
        ;
    }
}

/// BGRA `w`x`h` -> a new NV12 frame of `nv12_size(w, h)` bytes; wrong sizes
/// yield a black frame.
pub fn bgra_to_nv12(src: &[u8], w: u32, h: u32) -> (r: Vec<u8>)
    requires
        w * h * 3 <= usize::MAX,
        w % 2 == 0 && h % 2 == 0 && w > 0 && h > 0 ==> w * h * 4 <= usize::MAX,
    ensures
        r@.len() == nv12_size(w, h),
        convertible(w, h, src@.len() as int, nv12_size(w, h)) ==> is_nv12_of(r@, src@, w, h),
        !convertible(w, h, src@.len() as int, nv12_size(w, h)) ==> is_nv12_black(r@, w, h),
{
    let n: usize = (w as usize) * (h as usize);
    assert(n == w * h);
    let mut dst: Vec<u8> = vec![0u8; n * 3 / 2];
    bgra_to_nv12_into(dst.as_mut_slice(), src, w, h);
    dst
}

/// Scales BGRA `src_w`x`src_h` to `dst_w`x`dst_h` with aspect-fit letterbox,
/// then converts to NV12. The bars are NV12 black (Y 16, UV 128).
pub fn scale_bgra_to_nv12(src: &[u8], src_w: u32, src_h: u32, dst_w: u32, dst_h: u32) -> (r: Vec<
    u8,
>)
    requires
        dst_w * dst_h * 4 <= usize::MAX,
        src_w * src_h * 4 <= usize::MAX,
        src_ok(src@.len() as int, src_w as int, src_h as int) && !(src_w == dst_w && src_h
            == dst_h) ==> scale_fits(src_w as int, src_h as int, dst_w as int, dst_h as int),
    ensures
        r@.len() == nv12_size(dst_w, dst_h),
        dst_w % 2 == 0 && dst_h % 2 == 0 && dst_w > 0 && dst_h > 0 ==> is_nv12_of(
            r@,
            scaled_frame(src@, src_w as int, src_h as int, dst_w as int, dst_h as int),
            dst_w,
            dst_h,
        ),
        !(dst_w % 2 == 0 && dst_h % 2 == 0 && dst_w > 0 && dst_h > 0) ==> is_nv12_black(
            r@,
            dst_w,
            dst_h,
        ),
{
    let bgra = scale_bgra(src, src_w, src_h, dst_w, dst_h);
    bgra_to_nv12(bgra.as_slice(), dst_w, dst_h)
}
/// The chroma of NV12 follows BT.601 (limited range) with Cb first: for a
/// 2x2 block of one colour `(b, g, r)`, the first UV byte is
/// `(-38r - 74g + 112b + 128) / 256 + 128` (Cb) and the second
/// `(112r - 94g - 18b + 128) / 256 + 128` (Cr), with floor division. So a
/// grey block is neutral (128, 128), a red block has Cb below 128 and Cr
/// above it, and a blue block the reverse.
pub proof fn lemma_nv12_chroma_bt601(
    dst: Seq<u8>,
    src: Seq<u8>,
    w: u32,
    h: u32,
    k: int,
    b: u8,
    g: u8,
    r: u8,
)
    requires
        is_nv12_of(dst, src, w, h),
        w / 2 > 0,
        0 <= k < (w / 2) * (h / 2),
        forall|dx: int, dy: int|
            #![trigger src[4 * ((2 * (k / (w / 2) as int) + dy) * w + 2 * (k % (w / 2) as int) + dx)]]
            0 <= dx < 2 && 0 <= dy < 2 ==> {
                let q = 4 * ((2 * (k / (w / 2) as int) + dy) * w + 2 * (k % (w / 2) as int) + dx);
                src[q] == b && src[q + 1] == g && src[q + 2] == r
            },
    ensures
        dst[w * h + 2 * k] as int == (-38 * r - 74 * g + 112 * b + 128) / 256 + 128,
        dst[w * h + 2 * k + 1] as int == (112 * r - 94 * g - 18 * b + 128) / 256 + 128,
        r == g && g == b ==> dst[w * h + 2 * k] == 128 && dst[w * h + 2 * k + 1] == 128,
        g == 0 && b == 0 && r >= 4 ==> dst[w * h + 2 * k] < 128 && 128 < dst[w * h + 2 * k + 1],
        r == 0 && g == 0 && b >= 8 ==> dst[w * h + 2 * k + 1] < 128 && 128 < dst[w * h + 2 * k],
{
    let n = (w * h) as int;
    let bw = (w / 2) as int;
    assert(uv_ok(dst, src, w as int, n, bw, k));
    let bx = k % bw;
    let by = k / bw;
    let q00 = 4 * ((2 * by + 0) * w + 2 * bx + 0);
    let q10 = 4 * ((2 * by + 0) * w + 2 * bx + 1);
    let q01 = 4 * ((2 * by + 1) * w + 2 * bx + 0);
    let q11 = 4 * ((2 * by + 1) * w + 2 * bx + 1);
    assert(src[q00] == b && src[q00 + 1] == g && src[q00 + 2] == r);
    assert(src[q10] == b && src[q10 + 1] == g && src[q10 + 2] == r);
    assert(src[q01] == b && src[q01 + 1] == g && src[q01 + 2] == r);
    assert(src[q11] == b && src[q11 + 1] == g && src[q11 + 2] == r);
    let cu = -38 * r - 74 * g + 112 * b;
    let cv = 112 * r - 94 * g - 18 * b;
    assert(block_u(src, w as int, bx, by) == 4 * cu);
    assert(block_v(src, w as int, bx, by) == 4 * cv);
    assert(trunc_div(4 * cu, 4) == cu);
    assert(trunc_div(4 * cv, 4) == cv);
    assert(-28560 <= cu <= 28560 && -28560 <= cv <= 28560);
    assert(16 <= (cu + 128) / 256 + 128 <= 240);
    assert(16 <= (cv + 128) / 256 + 128 <= 240);
}

} // verus!
