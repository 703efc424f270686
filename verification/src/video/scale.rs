//! Nearest-neighbour BGRA scaling with letterbox, and BGRA -> RGBA.
//!
//! Every frame is normalized to the profile size before the pipe: the source
//! is fitted inside the destination keeping its aspect ratio, centred, with
//! opaque black bars around it. Integer fixed-point arithmetic throughout.

use vstd::prelude::*;

verus! {

/// Opaque black letterbox byte: alpha 255, colour 0.
pub open spec fn letterbox_byte(j: int) -> u8 {
    if j % 4 == 3 {
        255
    } else {
        0
    }
}

/// Fills the first `n` bytes of `dst` with opaque black BGRA pixels.
fn fill_letterbox_black(dst: &mut [u8], n: usize)
    requires
        n <= old(dst)@.len(),
    ensures
        same_tail(final(dst)@, old(dst)@, n as int),
        forall|j: int| 0 <= j < n ==> #[trigger] final(dst)@[j] == letterbox_byte(j),
{
    let mut i: usize = 0;
    while i < n
        invariant
            n <= dst@.len(),
            i <= n,
            same_tail(dst@, old(dst)@, n as int),
            forall|j: int| 0 <= j < i ==> #[trigger] dst@[j] == letterbox_byte(j),
        decreases n - i,
    {
        if i % 4 == 3 {
            dst[i] = 255;
        } else {
            dst[i] = 0;
        }
        i = i + 1;
    }
}

/// Bytes of `a` from `from` on are those of `b`.
pub open spec fn same_tail(a: Seq<u8>, b: Seq<u8>, from: int) -> bool {
    &&& a.len() == b.len()
    &&& forall|i: int| from <= i < a.len() ==> #[trigger] a[i] == b[i]
}

/// The size of the fitted image inside a `dw`x`dh` frame: the largest
/// aspect-preserving size, at least one pixel along the constrained axis.
pub open spec fn fit(sw: int, sh: int, dw: int, dh: int) -> (int, int) {
    if dw * sh <= dh * sw {
        let t = sh * dw / sw;
        let t1 = if t < 1 {
            1
        } else {
            t
        };
        (dw, if t1 < dh {
            t1
        } else {
            dh
        })
    } else {
        let t = sw * dh / sh;
        let t1 = if t < 1 {
            1
        } else {
            t
        };
        (if t1 < dw {
            t1
        } else {
            dw
        }, dh)
    }
}

proof fn lemma_div_le(a: int, b: int, c: int)
    requires
        0 <= a <= b * c,
        c > 0,
        b >= 0,
    ensures
        a / c <= b,
{
    assert(a / c <= b) by (nonlinear_arith)
        requires
            0 <= a <= b * c,
            c > 0,
            b >= 0,
    ;
}

fn fit_output(src_w: u32, src_h: u32, dst_w: u32, dst_h: u32) -> (r: (u32, u32))
    requires
        src_w > 0,
        src_h > 0,
    ensures
        r.0 == fit(src_w as int, src_h as int, dst_w as int, dst_h as int).0,
        r.1 == fit(src_w as int, src_h as int, dst_w as int, dst_h as int).1,
{
    let sw = src_w as u64;
    let sh = src_h as u64;
    let dw = dst_w as u64;
    let dh = dst_h as u64;
    assert(dw * sh <= u32::MAX * u32::MAX) by (nonlinear_arith)
        requires
            dw <= u32::MAX,
            sh <= u32::MAX,
    ;
    assert(dh * sw <= u32::MAX * u32::MAX) by (nonlinear_arith)
        requires
            dh <= u32::MAX,
            sw <= u32::MAX,
    ;
    if dw * sh <= dh * sw {
        proof {
            lemma_div_le((sh * dw) as int, dh as int, sw as int);
        }
        let t = sh * dw / sw;
        let t1: u32 = if t < 1 { 1 } else { t as u32 };
        let out_h = if t1 < dst_h { t1 } else { dst_h };
        (dst_w, out_h)
    } else {
        proof {
            lemma_div_le((sw * dh) as int, dw as int, sh as int);
        }
        let t = sw * dh / sh;
        let t1: u32 = if t < 1 { 1 } else { t as u32 };
        let out_w = if t1 < dst_w { t1 } else { dst_w };
        (out_w, dst_h)
    }
}


/// Whether the source is usable: non-empty and long enough.
pub open spec fn src_ok(src_len: int, sw: int, sh: int) -> bool {
    sw > 0 && sh > 0 && src_len >= sw * sh * 4
}

/// Nearest source coordinate for output coordinate `d` when `s` source
/// pixels map onto `o` output pixels (pixel centres, integer arithmetic).
pub open spec fn nearest(d: int, s: int, o: int) -> int {
    let v = ((2 * d + 1) * s) / (2 * o);
    if v < s - 1 {
        v
    } else {
        s - 1
    }
}

/// Byte `c` of the source pixel shown at `(x, y)` of the fitted image placed
/// at `(ox, oy)` with size `ow`x`oh`.
pub open spec fn box_byte(
    src: Seq<u8>,
    sw: int,
    sh: int,
    ow: int,
    oh: int,
    ox: int,
    oy: int,
    x: int,
    y: int,
    c: int,
) -> u8 {
    src[(nearest(y - oy, sh, oh) * sw + nearest(x - ox, sw, ow)) * 4 + c]
}

/// Byte `j` of the `dw`x`dh` BGRA frame showing `src` (`sw`x`sh`) fitted,
/// centred and letterboxed: alpha is always opaque, bars are black, an
/// unusable source gives an all-black frame.
pub open spec fn scaled_byte(src: Seq<u8>, sw: int, sh: int, dw: int, dh: int, j: int) -> u8 {
    let p = j / 4;
    let c = j % 4;
    let x = p % dw;
    let y = p / dw;
    if c == 3 {
        255
    } else if !src_ok(src.len() as int, sw, sh) {
        0
    } else {
        let ow = fit(sw, sh, dw, dh).0;
        let oh = fit(sw, sh, dw, dh).1;
        let ox = (dw - ow) / 2;
        let oy = (dh - oh) / 2;
        if ox <= x < ox + ow && oy <= y < oy + oh {
            box_byte(src, sw, sh, ow, oh, ox, oy, x, y, c)
        } else {
            0
        }
    }
}

/// Byte `j` during the blit: the rows before `r`, and row `r` up to column
/// `dx`, of the image box are drawn over the letterbox.
pub open spec fn staged_byte(
    src: Seq<u8>,
    sw: int,
    sh: int,
    dw: int,
    ow: int,
    oh: int,
    ox: int,
    oy: int,
    r: int,
    dx: int,
    j: int,
) -> u8 {
    let p = j / 4;
    let c = j % 4;
    let x = p % dw;
    let y = p / dw;
    if c != 3 && ox <= x < ox + ow && oy <= y < oy + oh && (y - oy < r || (y - oy == r && x - ox
        < dx)) {
        box_byte(src, sw, sh, ow, oh, ox, oy, x, y, c)
    } else {
        letterbox_byte(j)
    }
}

proof fn lemma_pixel_pos(j: int, dw: int, x: int, y: int, c: int)
    requires
        dw > 0,
        0 <= x < dw,
        0 <= y,
        0 <= c < 4,
        j == (y * dw + x) * 4 + c,
    ensures
        j / 4 == y * dw + x,
        j % 4 == c,
        (j / 4) % dw == x,
        (j / 4) / dw == y,
{
    assert(y * dw + x >= 0) by (nonlinear_arith)
        requires
            0 <= x,
            0 <= y,
            dw > 0,
    ;
    vstd::arithmetic::div_mod::lemma_fundamental_div_mod_converse(j, 4, y * dw + x, c);
    vstd::arithmetic::div_mod::lemma_fundamental_div_mod_converse(y * dw + x, dw, y, x);
}

proof fn lemma_pixel_decompose(j: int, dw: int)
    requires
        dw > 0,
        j >= 0,
    ensures
        j == ((j / 4) / dw * dw + (j / 4) % dw) * 4 + j % 4,
        0 <= (j / 4) % dw < dw,
        0 <= j % 4 < 4,
        (j / 4) / dw >= 0,
{
    vstd::arithmetic::div_mod::lemma_fundamental_div_mod(j, 4);
    vstd::arithmetic::div_mod::lemma_fundamental_div_mod(j / 4, dw);
    assert(j / 4 == (j / 4) / dw * dw + (j / 4) % dw) by (nonlinear_arith)
        requires
            j / 4 == dw * ((j / 4) / dw) + (j / 4) % dw,
    ;
}

/// Copies the colour bytes of one pixel.
fn copy_pixel(dst: &mut [u8], src: &[u8], d: usize, s: usize)
    requires
        d + 2 < old(dst)@.len(),
        s + 2 < src@.len(),
    ensures
        final(dst)@ == old(dst)@.update(d as int, src@[s as int]).update(d + 1, src@[s + 1]).update(
            d + 2,
            src@[s + 2],
        ),
{
    dst[d] = src[s];
    dst[d + 1] = src[s + 1];
    dst[d + 2] = src[s + 2];
}

proof fn lemma_nearest_bound(d: int, s: int, o: int)
    requires
        0 <= d < o,
        s > 0,
    ensures
        0 <= nearest(d, s, o) < s,
{
    assert(((2 * d + 1) * s) / (2 * o) >= 0) by (nonlinear_arith)
        requires
            0 <= d,
            s > 0,
            o > 0,
    ;
}

proof fn lemma_src_index(sy: int, sx: int, sw: int, sh: int, c: int)
    requires
        0 <= sy < sh,
        0 <= sx < sw,
        0 <= c < 4,
    ensures
        0 <= (sy * sw + sx) * 4 + c < sw * sh * 4,
        (sy * sw + sx) * 4 + c == sy * sw * 4 + sx * 4 + c,
{
    assert(0 <= (sy * sw + sx) * 4 + c < sw * sh * 4) by (nonlinear_arith)
        requires
            0 <= sy < sh,
            0 <= sx < sw,
            0 <= c < 4,
    ;
    assert((sy * sw + sx) * 4 + c == sy * sw * 4 + sx * 4 + c) by (nonlinear_arith);
}

proof fn lemma_dst_index(y: int, x: int, dw: int, dh: int)
    requires
        0 <= y < dh,
        0 <= x < dw,
    ensures
        0 <= (y * dw + x) * 4 + 3 < dw * dh * 4,
        (y * dw + x) * 4 == y * dw * 4 + x * 4,
{
    assert(0 <= (y * dw + x) * 4 + 3 < dw * dh * 4) by (nonlinear_arith)
        requires
            0 <= y < dh,
            0 <= x < dw,
    ;
    assert((y * dw + x) * 4 == y * dw * 4 + x * 4) by (nonlinear_arith);
}

proof fn lemma_blit_step(
    before: Seq<u8>,
    after: Seq<u8>,
    src: Seq<u8>,
    sw: int,
    sh: int,
    dw: int,
    dh: int,
    ow: int,
    oh: int,
    ox: int,
    oy: int,
    r: int,
    dx: int,
    s: int,
)
    requires
        dw > 0,
        0 <= r < oh,
        0 <= dx < ow,
        ox + ow <= dw,
        oy + oh <= dh,
        ox >= 0,
        oy >= 0,
        before.len() >= dw * dh * 4,
        s == (nearest(r, sh, oh) * sw + nearest(dx, sw, ow)) * 4,
        s + 2 < src.len(),
        ((oy + r) * dw + ox + dx) * 4 + 3 < dw * dh * 4,
        after == before.update(((oy + r) * dw + ox + dx) * 4, src[s]).update(
            ((oy + r) * dw + ox + dx) * 4 + 1,
            src[s + 1],
        ).update(((oy + r) * dw + ox + dx) * 4 + 2, src[s + 2]),
        forall|j: int|
            0 <= j < dw * dh * 4 ==> #[trigger] before[j] == staged_byte(
                src,
                sw,
                sh,
                dw,
                ow,
                oh,
                ox,
                oy,
                r,
                dx,
                j,
            ),
    ensures
        forall|j: int|
            0 <= j < dw * dh * 4 ==> #[trigger] after[j] == staged_byte(
                src,
                sw,
                sh,
                dw,
                ow,
                oh,
                ox,
                oy,
                r,
                dx + 1,
                j,
            ),
{
    let d = ((oy + r) * dw + ox + dx) * 4;
    assert forall|j: int| 0 <= j < dw * dh * 4 implies #[trigger] after[j] == staged_byte(
        src,
        sw,
        sh,
        dw,
        ow,
        oh,
        ox,
        oy,
        r,
        dx + 1,
        j,
    ) by {
        lemma_pixel_decompose(j, dw);
        if d <= j < d + 3 {
            lemma_pixel_pos(j, dw, ox + dx, oy + r, j - d);
        } else {
            assert(before[j] == staged_byte(src, sw, sh, dw, ow, oh, ox, oy, r, dx, j));
            if (j / 4) / dw == oy + r && (j / 4) % dw == ox + dx && j % 4 != 3 {
                assert(j == ((oy + r) * dw + ox + dx) * 4 + j % 4);
            }
        }
    }
}

/// Draws the rows of the fitted image box over a letterboxed frame.
fn blit_rows(
    dst: &mut [u8],
    src: &[u8],
    map_x: &[usize],
    sw: usize,
    sh: usize,
    dw: usize,
    dh: usize,
    ow: usize,
    oh: usize,
    ox: usize,
    oy: usize,
)
    requires
        sw > 0,
        sh > 0,
        src@.len() >= sw * sh * 4,
        sw * sh * 4 <= usize::MAX,
        dw * dh * 4 <= usize::MAX,
        old(dst)@.len() >= dw * dh * 4,
        ox + ow <= dw,
        oy + oh <= dh,
        oh > 0 ==> (2 * oh - 1) * sh <= u64::MAX,
        dh <= u32::MAX,
        map_x@.len() == ow,
        forall|i: int| 0 <= i < ow ==> #[trigger] map_x@[i] == nearest(i, sw as int, ow as int),
        forall|j: int|
            0 <= j < dw * dh * 4 ==> #[trigger] old(dst)@[j] == staged_byte(
                src@,
                sw as int,
                sh as int,
                dw as int,
                ow as int,
                oh as int,
                ox as int,
                oy as int,
                0,
                0,
                j,
            ),
    ensures
        same_tail(final(dst)@, old(dst)@, dw * dh * 4),
        forall|j: int|
            0 <= j < dw * dh * 4 ==> #[trigger] final(dst)@[j] == staged_byte(
                src@,
                sw as int,
                sh as int,
                dw as int,
                ow as int,
                oh as int,
                ox as int,
                oy as int,
                oh as int,
                0,
                j,
            ),
{
    let sh64 = sh as u64;
    let oh64 = oh as u64;
    let mut r: usize = 0;
    while r < oh
        invariant
            sw > 0,
            sh > 0,
            src@.len() >= sw * sh * 4,
            sw * sh * 4 <= usize::MAX,
            dw * dh * 4 <= usize::MAX,
            dst@.len() >= dw * dh * 4,
            ox + ow <= dw,
            oy + oh <= dh,
            oh > 0 ==> (2 * oh - 1) * sh <= u64::MAX,
            dh <= u32::MAX,
            sh64 == sh,
            oh64 == oh,
            r <= oh,
            map_x@.len() == ow,
            forall|i: int| 0 <= i < ow ==> #[trigger] map_x@[i] == nearest(i, sw as int, ow as int),
            same_tail(dst@, old(dst)@, dw * dh * 4),
            forall|j: int|
                0 <= j < dw * dh * 4 ==> #[trigger] dst@[j] == staged_byte(
                    src@,
                    sw as int,
                    sh as int,
                    dw as int,
                    ow as int,
                    oh as int,
                    ox as int,
                    oy as int,
                    r as int,
                    0,
                    j,
                ),
        decreases oh - r,
    {
        assert((2 * r + 1) * sh <= (2 * oh - 1) * sh) by (nonlinear_arith)
            requires
                r < oh,
                sh > 0,
        ;
        let v = ((2 * r as u64 + 1) * sh64) / (2 * oh64);
        let sy: usize = if v < sh64 - 1 {
            v as usize
        } else {
            sh - 1
        };
        assert(sy == nearest(r as int, sh as int, oh as int));
        proof {
            lemma_nearest_bound(r as int, sh as int, oh as int);
        }
        let mut dx: usize = 0;
        while dx < ow
            invariant
                sw > 0,
                sh > 0,
                src@.len() >= sw * sh * 4,
                sw * sh * 4 <= usize::MAX,
                dw * dh * 4 <= usize::MAX,
                dst@.len() >= dw * dh * 4,
                ox + ow <= dw,
                oy + oh <= dh,
                r < oh,
                dx <= ow,
                0 <= sy < sh,
                sy == nearest(r as int, sh as int, oh as int),
                map_x@.len() == ow,
                forall|i: int| 0 <= i < ow ==> #[trigger] map_x@[i] == nearest(i, sw as int, ow as int),
                same_tail(dst@, old(dst)@, dw * dh * 4),
                forall|j: int|
                    0 <= j < dw * dh * 4 ==> #[trigger] dst@[j] == staged_byte(
                        src@,
                        sw as int,
                        sh as int,
                        dw as int,
                        ow as int,
                        oh as int,
                        ox as int,
                        oy as int,
                        r as int,
                        dx as int,
                        j,
                    ),
            decreases ow - dx,
        {
            let sx = map_x[dx];
            proof {
                lemma_nearest_bound(dx as int, sw as int, ow as int);
                lemma_src_index(sy as int, sx as int, sw as int, sh as int, 2);
                lemma_dst_index((oy + r) as int, (ox + dx) as int, dw as int, dh as int);
            }
            let s = sy * sw * 4 + sx * 4;
            let d = (oy + r) * dw * 4 + (ox + dx) * 4;
            let ghost before = dst@;
            copy_pixel(dst, src, d, s);
            proof {
                lemma_blit_step(
                    before,
                    dst@,
                    src@,
                    sw as int,
                    sh as int,
                    dw as int,
                    dh as int,
                    ow as int,
                    oh as int,
                    ox as int,
                    oy as int,
                    r as int,
                    dx as int,
                    s as int,
                );
            }
            dx = dx + 1;
        }
        assert forall|j: int| 0 <= j < dw * dh * 4 implies #[trigger] dst@[j] == staged_byte(
            src@,
            sw as int,
            sh as int,
            dw as int,
            ow as int,
            oh as int,
            ox as int,
            oy as int,
            r + 1,
            0,
            j,
        ) by {
            assert(dst@[j] == staged_byte(
                src@,
                sw as int,
                sh as int,
                dw as int,
                ow as int,
                oh as int,
                ox as int,
                oy as int,
                r as int,
                ow as int,
                j,
            ));
        }
        r = r + 1;
    }
}

/// Precomputes the source column of every output column, then draws the
/// image box row by row.
fn blit_nearest(
    dst: &mut [u8],
    src: &[u8],
    sw: usize,
    sh: usize,
    dw: usize,
    dh: usize,
    ow: usize,
    oh: usize,
    ox: usize,
    oy: usize,
)
    requires
        sw > 0,
        sh > 0,
        src@.len() >= sw * sh * 4,
        sw * sh * 4 <= usize::MAX,
        dw * dh * 4 <= usize::MAX,
        old(dst)@.len() >= dw * dh * 4,
        ox + ow <= dw,
        oy + oh <= dh,
        dw <= u32::MAX,
        dh <= u32::MAX,
        ow > 0 ==> (2 * ow - 1) * sw <= u64::MAX,
        oh > 0 ==> (2 * oh - 1) * sh <= u64::MAX,
        forall|j: int|
            0 <= j < dw * dh * 4 ==> #[trigger] old(dst)@[j] == letterbox_byte(j),
    ensures
        same_tail(final(dst)@, old(dst)@, dw * dh * 4),
        forall|j: int|
            0 <= j < dw * dh * 4 ==> #[trigger] final(dst)@[j] == staged_byte(
                src@,
                sw as int,
                sh as int,
                dw as int,
                ow as int,
                oh as int,
                ox as int,
                oy as int,
                oh as int,
                0,
                j,
            ),
{
    let sw64 = sw as u64;
    let ow64 = ow as u64;
    let mut map_x: Vec<usize> = Vec::new();
    let mut dx: usize = 0;
    while dx < ow
        invariant
            sw > 0,
            sw64 == sw,
            ow64 == ow,
            ow <= dw <= u32::MAX,
            ow > 0 ==> (2 * ow - 1) * sw <= u64::MAX,
            dx <= ow,
            map_x@.len() == dx,
            forall|i: int| 0 <= i < dx ==> #[trigger] map_x@[i] == nearest(i, sw as int, ow as int),
        decreases ow - dx,
    {
        assert((2 * dx + 1) * sw <= (2 * ow - 1) * sw) by (nonlinear_arith)
            requires
                dx < ow,
                sw > 0,
        ;
        let v = ((2 * dx as u64 + 1) * sw64) / (2 * ow64);
        let sx: usize = if v < sw64 - 1 {
            v as usize
        } else {
            sw - 1
        };
        map_x.push(sx);
        dx = dx + 1;
    }
    assert forall|j: int| 0 <= j < dw * dh * 4 implies #[trigger] dst@[j] == staged_byte(
        src@,
        sw as int,
        sh as int,
        dw as int,
        ow as int,
        oh as int,
        ox as int,
        oy as int,
        0,
        0,
        j,
    ) by {
        assert(dst@[j] == letterbox_byte(j));
    }
    blit_rows(dst, src, map_x.as_slice(), sw, sh, dw, dh, ow, oh, ox, oy);
}

/// Copies the colour of the first `n / 4` pixels of `src` into `dst` and
/// makes them opaque (`n` at most both lengths).
fn copy_bgra_opaque(dst: &mut [u8], src: &[u8], n: usize)
    requires
        n <= old(dst)@.len(),
        n <= src@.len(),
    ensures
        same_tail(final(dst)@, old(dst)@, (n / 4 * 4) as int),
        forall|j: int|
            0 <= j < n / 4 * 4 ==> #[trigger] final(dst)@[j] == if j % 4 == 3 {
                255u8
            } else {
                src@[j]
            },
{
    let pixels = n / 4;
    let mut i: usize = 0;
    while i < pixels
        invariant
            pixels == n / 4,
            n <= dst@.len(),
            n <= src@.len(),
            i <= pixels,
            same_tail(dst@, old(dst)@, (i * 4) as int),
            forall|j: int|
                0 <= j < i * 4 ==> #[trigger] dst@[j] == if j % 4 == 3 {
                    255u8
                } else {
                    src@[j]
                },
        decreases pixels - i,
    {
        let b = i * 4;
        dst[b] = src[b];
        dst[b + 1] = src[b + 1];
        dst[b + 2] = src[b + 2];
        dst[b + 3] = 255;
        i = i + 1;
    }
}

/// Whether the scaling arithmetic of `fit`/`nearest` stays in 64 bits for
/// these sizes (always true for frame sizes below 2^31).
pub open spec fn scale_fits(sw: int, sh: int, dw: int, dh: int) -> bool {
    let ow = fit(sw, sh, dw, dh).0;
    let oh = fit(sw, sh, dw, dh).1;
    &&& ow > 0 ==> (2 * ow - 1) * sw <= u64::MAX
    &&& oh > 0 ==> (2 * oh - 1) * sh <= u64::MAX
}

proof fn lemma_identity_byte(src: Seq<u8>, w: int, h: int, j: int)
    requires
        w > 0,
        h > 0,
        src_ok(src.len() as int, w, h),
        0 <= j < w * h * 4,
        j % 4 != 3,
    ensures
        scaled_byte(src, w, h, w, h, j) == src[j],
{
    assert((h * w) / w == h) by (nonlinear_arith)
        requires
            w > 0,
    ;
    assert(w * h == h * w) by (nonlinear_arith);
    lemma_pixel_decompose(j, w);
    let p = j / 4;
    let x = p % w;
    let y = p / w;
    assert(y < h) by (nonlinear_arith)
        requires
            j < w * h * 4,
            j == (y * w + x) * 4 + j % 4,
            0 <= x,
            0 <= j % 4,
            w > 0,
    ;
    assert((2 * x + 1) * w == x * (2 * w) + w) by (nonlinear_arith);
    assert((2 * y + 1) * h == y * (2 * h) + h) by (nonlinear_arith);
    vstd::arithmetic::div_mod::lemma_fundamental_div_mod_converse((2 * x + 1) * w, 2 * w, x, w);
    vstd::arithmetic::div_mod::lemma_fundamental_div_mod_converse((2 * y + 1) * h, 2 * h, y, h);
}

/// What scaling into a buffer does: a buffer shorter than the frame is
/// left alone; otherwise its first `dw*dh*4` bytes become the scaled frame
/// and the rest stays.
pub open spec fn scaled_into(
    new: Seq<u8>,
    old: Seq<u8>,
    src: Seq<u8>,
    sw: int,
    sh: int,
    dw: int,
    dh: int,
) -> bool {
    &&& old.len() < dw * dh * 4 ==> new == old
    &&& old.len() >= dw * dh * 4 ==> same_tail(new, old, dw * dh * 4)
    &&& old.len() >= dw * dh * 4 ==> forall|j: int|
        0 <= j < dw * dh * 4 ==> #[trigger] new[j] == scaled_byte(src, sw, sh, dw, dh, j)
}

/// Nearest-neighbour BGRA scale + letterbox of `src` (`src_w`x`src_h`) into
/// the first `dst_w*dst_h*4` bytes of `dst`: aspect-fit, centred, opaque black
/// bars, opaque alpha everywhere. An unusable source gives an opaque black
/// frame; a `dst` that is too short is left alone.
pub fn scale_bgra_into(dst: &mut [u8], src: &[u8], src_w: u32, src_h: u32, dst_w: u32, dst_h: u32)
    requires
        dst_w * dst_h * 4 <= usize::MAX,
        src_w * src_h * 4 <= usize::MAX,
        src_ok(src@.len() as int, src_w as int, src_h as int) && !(src_w == dst_w && src_h
            == dst_h) ==> scale_fits(src_w as int, src_h as int, dst_w as int, dst_h as int),
    ensures
        scaled_into(final(dst)@, old(dst)@, src@, src_w as int, src_h as int, dst_w as int, dst_h as int),
{
    let dst_len: usize = (dst_w as usize) * (dst_h as usize) * 4;
    assert(dst_len == dst_w * dst_h * 4);
    if dst.len() < dst_len {
        return;
    }
    fill_letterbox_black(dst, dst_len);
    if src_w == 0 || src_h == 0 || src.len() < (src_w as usize) * (src_h as usize) * 4 {
        proof {
            assert forall|j: int| 0 <= j < dst_w * dst_h * 4 implies #[trigger] dst@[j]
                == scaled_byte(
                src@,
                src_w as int,
                src_h as int,
                dst_w as int,
                dst_h as int,
                j,
            ) by {
                assert(dst@[j] == letterbox_byte(j));
            }
        }
        return;
    }
    assert((src_w as usize) * (src_h as usize) * 4 == src_w * src_h * 4);
    // Identity fast path: copy BGR, force opaque alpha.
    if src_w == dst_w && src_h == dst_h {
        copy_bgra_opaque(dst, src, dst_len);
        proof {
            assert(dst_len / 4 * 4 == dst_len);
            assert forall|j: int| 0 <= j < dst_w * dst_h * 4 implies #[trigger] dst@[j]
                == scaled_byte(
                src@,
                src_w as int,
                src_h as int,
                dst_w as int,
                dst_h as int,
                j,
            ) by {
                if j % 4 != 3 {
                    lemma_identity_byte(src@, dst_w as int, dst_h as int, j);
                }
            }
        }
        return;
    }
    let (out_w, out_h) = fit_output(src_w, src_h, dst_w, dst_h);
    let off_x = (dst_w - out_w) / 2;
    let off_y = (dst_h - out_h) / 2;
    blit_nearest(
        dst,
        src,
        src_w as usize,
        src_h as usize,
        dst_w as usize,
        dst_h as usize,
        out_w as usize,
        out_h as usize,
        off_x as usize,
        off_y as usize,
    );
}

/// The `dw`x`dh` BGRA frame showing `src` fitted, centred and letterboxed.
pub open spec fn scaled_frame(src: Seq<u8>, sw: int, sh: int, dw: int, dh: int) -> Seq<u8> {
    Seq::new((dw * dh * 4) as nat, |j: int| scaled_byte(src, sw, sh, dw, dh, j))
}

/// A new `dst_w`x`dst_h` BGRA frame showing `src` scaled and letterboxed.
pub fn scale_bgra(src: &[u8], src_w: u32, src_h: u32, dst_w: u32, dst_h: u32) -> (r: Vec<u8>)
    requires
        dst_w * dst_h * 4 <= usize::MAX,
        src_w * src_h * 4 <= usize::MAX,
        src_ok(src@.len() as int, src_w as int, src_h as int) && !(src_w == dst_w && src_h
            == dst_h) ==> scale_fits(src_w as int, src_h as int, dst_w as int, dst_h as int),
    ensures
        r@ == scaled_frame(src@, src_w as int, src_h as int, dst_w as int, dst_h as int),
{
    let n: usize = (dst_w as usize) * (dst_h as usize) * 4;
    let mut dst: Vec<u8> = vec![0u8; n];
    scale_bgra_into(dst.as_mut_slice(), src, src_w, src_h, dst_w, dst_h);
    assert(dst@ =~= scaled_frame(src@, src_w as int, src_h as int, dst_w as int, dst_h as int));
    dst
}

/// BGRA -> RGBA (for PNG preview encoding); a trailing partial pixel is
/// dropped.
pub fn bgra_to_rgba(bgra: &[u8]) -> (r: Vec<u8>)
    ensures
        r@.len() == bgra@.len() / 4 * 4,
        forall|j: int|
            0 <= j < r@.len() ==> #[trigger] r@[j] == if j % 4 == 0 {
                bgra@[j + 2]
            } else if j % 4 == 2 {
                bgra@[j - 2]
            } else {
                bgra@[j]
            },
{
    let pixels = bgra.len() / 4;
    let mut r: Vec<u8> = Vec::new();
    let mut i: usize = 0;
    while i < pixels
        invariant
            pixels == bgra@.len() / 4,
            pixels * 4 <= bgra@.len() <= usize::MAX,
            i <= pixels,
            r@.len() == i * 4,
            forall|j: int|
                0 <= j < r@.len() ==> #[trigger] r@[j] == if j % 4 == 0 {
                    bgra@[j + 2]
                } else if j % 4 == 2 {
                    bgra@[j - 2]
                } else {
                    bgra@[j]
                },
        decreases pixels - i,
    {
        let b = i * 4;
        r.push(bgra[b + 2]);
        r.push(bgra[b + 1]);
        r.push(bgra[b]);
        r.push(bgra[b + 3]);
        i = i + 1;
    }
    r
}
/// Every pixel of a scaled frame is opaque, bars and image alike.
pub proof fn lemma_scaled_alpha_opaque(src: Seq<u8>, sw: int, sh: int, dw: int, dh: int)
    ensures
        forall|j: int|
            0 <= j < scaled_frame(src, sw, sh, dw, dh).len() && j % 4 == 3 ==> #[trigger] scaled_frame(
                src,
                sw,
                sh,
                dw,
                dh,
            )[j] == 255,
{
}

/// The fitted image never leaves the frame: it is at least one pixel and at
/// most the frame along each axis.
pub proof fn lemma_fit_inside(sw: int, sh: int, dw: int, dh: int)
    requires
        sw > 0 && sh > 0 && dw > 0 && dh > 0,
    ensures
        1 <= fit(sw, sh, dw, dh).0 <= dw,
        1 <= fit(sw, sh, dw, dh).1 <= dh,
{
}

/// Scaling a usable frame to its own size keeps every colour byte (and
/// makes alpha opaque).
pub proof fn lemma_identity_scale(src: Seq<u8>, w: int, h: int)
    requires
        src_ok(src.len() as int, w, h),
    ensures
        forall|j: int|
            0 <= j < w * h * 4 && j % 4 != 3 ==> #[trigger] scaled_frame(src, w, h, w, h)[j]
                == src[j],
{
    assert forall|j: int| 0 <= j < w * h * 4 && j % 4 != 3 implies #[trigger] scaled_frame(
        src,
        w,
        h,
        w,
        h,
    )[j] == src[j] by {
        lemma_identity_byte(src, w, h, j);
    }
}

/// Scaling into a buffer and scaling into a new frame agree: the buffer
/// keeps its length and its bytes past the frame, is left alone when too
/// short, and otherwise starts with exactly the frame `scale_bgra` returns.
pub proof fn lemma_scale_into_matches_scale(
    new: Seq<u8>,
    old: Seq<u8>,
    src: Seq<u8>,
    sw: int,
    sh: int,
    dw: int,
    dh: int,
)
    requires
        dw >= 0 && dh >= 0,
        scaled_into(new, old, src, sw, sh, dw, dh),
    ensures
        new.len() == old.len(),
        forall|i: int| dw * dh * 4 <= i < old.len() ==> new[i] == old[i],
        old.len() < dw * dh * 4 ==> new == old,
        old.len() >= dw * dh * 4 ==> new.take(dw * dh * 4) == scaled_frame(src, sw, sh, dw, dh),
{
    assert(dw * dh >= 0) by (nonlinear_arith)
        requires
            dw >= 0 && dh >= 0,
    ;
    if old.len() >= dw * dh * 4 {
        assert(new.take(dw * dh * 4) =~= scaled_frame(src, sw, sh, dw, dh));
    }
}

} // verus!
