//! Frames as the capture backends handle them: GPU readback rows, the frame
//! scaled to the profile, and the 1 fps PNG preview for the UI.

use crate::ipc_types::PreviewFrame;
use crate::text::{owned, push_str};
use crate::video::scale::{bgra_to_rgba, scale_bgra, scale_fits, scaled_frame, src_ok};
use vstd::prelude::*;

verus! {

/// Width of the UI preview.
pub const PREVIEW_W: u32 = 640;

/// Height of the UI preview.
pub const PREVIEW_H: u32 = 360;

/// Nanoseconds between two preview images.
pub const PREVIEW_PERIOD_NS: u64 = 1_000_000_000;

/// Byte `j` of a tight `width`-pixel-wide BGRA image read from rows that lie
/// `row_pitch` bytes apart in `src`.
pub open spec fn readback_byte(src: Seq<u8>, width: int, row_pitch: int, j: int) -> u8 {
    src[(j / (width * 4)) * row_pitch + j % (width * 4)]
}

proof fn lemma_row_fits(row: int, height: int, row_pitch: int, k: int, w4: int, len: int)
    requires
        0 <= row < height,
        0 <= k < w4,
        0 <= row_pitch,
        (height - 1) * row_pitch + w4 <= len,
    ensures
        row * row_pitch + k < len,
{
    assert(row * row_pitch <= (height - 1) * row_pitch) by (nonlinear_arith)
        requires
            0 <= row <= height - 1,
            0 <= row_pitch,
    ;
}

proof fn lemma_split_index(row: int, k: int, w4: int)
    requires
        0 <= row,
        0 <= k < w4,
    ensures
        (row * w4 + k) / w4 == row,
        (row * w4 + k) % w4 == k,
{
    vstd::arithmetic::div_mod::lemma_fundamental_div_mod_converse(row * w4 + k, w4, row, k);
}

/// Copies `height` rows of `width` BGRA pixels that lie `row_pitch` bytes
/// apart in `src` (a mapped GPU texture) into a tight buffer.
pub fn readback_rows(src: &[u8], width: usize, height: usize, row_pitch: usize) -> (r: Vec<u8>)
    requires
        width * height * 4 <= usize::MAX,
        height > 0 ==> (height - 1) * row_pitch + width * 4 <= src@.len(),
    ensures
        r@.len() == width * height * 4,
        forall|j: int|
            0 <= j < r@.len() ==> #[trigger] r@[j] == readback_byte(
                src@,
                width as int,
                row_pitch as int,
                j,
            ),
{
    if height == 0 {
        let r: Vec<u8> = Vec::new();
        assert(width * height * 4 == 0) by (nonlinear_arith)
            requires
                height == 0,
        ;
        return r;
    }
    assert(width * 4 <= width * height * 4) by (nonlinear_arith)
        requires
            height >= 1,
    ;
    let w4: usize = width * 4;
    assert(w4 * height <= usize::MAX) by (nonlinear_arith)
        requires
            w4 == width * 4,
            width * height * 4 <= usize::MAX,
    ;
    let mut r: Vec<u8> = Vec::new();
    let mut row: usize = 0;
    while row < height
        invariant
            w4 == width * 4,
            w4 * height <= usize::MAX,
            row <= height,
            height > 0 ==> (height - 1) * row_pitch + w4 <= src@.len(),
            r@.len() == row * w4,
            forall|j: int|
                0 <= j < r@.len() ==> #[trigger] r@[j] == readback_byte(
                    src@,
                    width as int,
                    row_pitch as int,
                    j,
                ),
        decreases height - row,
    {
        assert(row * w4 + w4 <= w4 * height) by (nonlinear_arith)
            requires
                row < height,
        ;
        let mut k: usize = 0;
        while k < w4
            invariant
                w4 == width * 4,
                row < height,
                row * w4 + w4 <= w4 * height <= usize::MAX,
                height > 0 ==> (height - 1) * row_pitch + w4 <= src@.len(),
                k <= w4,
                r@.len() == row * w4 + k,
                forall|j: int|
                    0 <= j < r@.len() ==> #[trigger] r@[j] == readback_byte(
                        src@,
                        width as int,
                        row_pitch as int,
                        j,
                    ),
            decreases w4 - k,
        {
            proof {
                lemma_row_fits(
                    row as int,
                    height as int,
                    row_pitch as int,
                    k as int,
                    w4 as int,
                    src@.len() as int,
                );
                lemma_split_index(row as int, k as int, w4 as int);
            }
            assert(row * row_pitch + k < src.len());
            let at: usize = row * row_pitch + k;
            r.push(src[at]);
            k = k + 1;
        }
        row = row + 1;
        assert(r@.len() == row * w4) by (nonlinear_arith)
            requires
                r@.len() == (row - 1) * w4 + w4,
        ;
    }
    assert(r@.len() == width * height * 4) by (nonlinear_arith)
        requires
            r@.len() == height * w4,
            w4 == width * 4,
    ;
    r
}

/// A captured frame of the reported size (a size of 0 counts as 1), scaled
/// and letterboxed to the profile size.
pub fn profile_frame(bytes: &[u8], src_w: u32, src_h: u32, dst_w: u32, dst_h: u32) -> (r: Vec<u8>)
    requires
        dst_w * dst_h * 4 <= usize::MAX,
        (if src_w == 0 { 1 } else { src_w as int }) * (if src_h == 0 { 1 } else { src_h as int })
            * 4 <= usize::MAX,
        src_ok(
            bytes@.len() as int,
            if src_w == 0 { 1 } else { src_w as int },
            if src_h == 0 { 1 } else { src_h as int },
        ) ==> scale_fits(
            if src_w == 0 { 1 } else { src_w as int },
            if src_h == 0 { 1 } else { src_h as int },
            dst_w as int,
            dst_h as int,
        ),
    ensures
        r@ == scaled_frame(
            bytes@,
            if src_w == 0 { 1 } else { src_w as int },
            if src_h == 0 { 1 } else { src_h as int },
            dst_w as int,
            dst_h as int,
        ),
{
    let w: u32 = if src_w == 0 {
        1
    } else {
        src_w
    };
    let h: u32 = if src_h == 0 {
        1
    } else {
        src_h
    };
    scale_bgra(bytes, w, h, dst_w, dst_h)
}

/// Whether a preview image is due: a full period has passed since the last
/// one (times in nanoseconds of a monotonic clock).
pub open spec fn preview_is_due(last_ns: u64, now_ns: u64) -> bool {
    now_ns >= last_ns && now_ns - last_ns >= PREVIEW_PERIOD_NS
}

/// Whether the next preview image is due.
pub fn preview_due(last_ns: u64, now_ns: u64) -> (r: bool)
    ensures
        r == preview_is_due(last_ns, now_ns),
{
    now_ns >= last_ns && now_ns - last_ns >= PREVIEW_PERIOD_NS
}

/// The PNG file that the `image` crate writes for an RGBA image, if it
/// writes one.
pub uninterp spec fn png_of(rgba: Seq<u8>, w: u32, h: u32) -> Option<Seq<u8>>;

/// `image::RgbaImage::from_raw` and `write_to(.., ImageFormat::Png)` into
/// memory. Claimed: the result is `png_of` of the arguments, and there is
/// none when the buffer holds fewer than `w*h*4` bytes (`from_raw` refuses
/// it). The PNG bytes themselves are not described.
#[verifier::external_body]
fn encode_png(rgba: &[u8], w: u32, h: u32) -> (r: Option<Vec<u8>>)
    ensures
        match r {
            Some(b) => png_of(rgba@, w, h) == Some(b@),
            None => png_of(rgba@, w, h) is None,
        },
        rgba@.len() < w * h * 4 ==> r is None,
{
    let mut out = std::io::Cursor::new(Vec::new());
    let img = image::RgbaImage::from_raw(w, h, rgba.to_vec())?;
    img.write_to(&mut out, image::ImageFormat::Png).ok()?;
    Some(out.into_inner())
}

/// The base64 digit for a 6-bit value (RFC 4648 standard alphabet).
pub open spec fn base64_digit(v: int) -> char {
    if v < 26 {
        (65 + v) as char
    } else if v < 52 {
        (97 + v - 26) as char
    } else if v < 62 {
        (48 + v - 52) as char
    } else if v == 62 {
        '+'
    } else {
        '/'
    }
}

/// Standard base64 of `bytes` (RFC 4648 alphabet, padded with `=`): each
/// group of three bytes gives four digits of six bits each; a final group of
/// one or two bytes gives two or three digits and `==` or `=`.
pub open spec fn base64_of(bytes: Seq<u8>) -> Seq<char>
    decreases bytes.len(),
{
    if bytes.len() == 0 {
        seq![]
    } else if bytes.len() == 1 {
        let a = bytes[0] as int;
        seq![base64_digit(a / 4), base64_digit((a % 4) * 16), '=', '=']
    } else if bytes.len() == 2 {
        let a = bytes[0] as int;
        let b = bytes[1] as int;
        seq![base64_digit(a / 4), base64_digit((a % 4) * 16 + b / 16), base64_digit((b % 16) * 4), '=']
    } else {
        let a = bytes[0] as int;
        let b = bytes[1] as int;
        let c = bytes[2] as int;
        seq![
            base64_digit(a / 4),
            base64_digit((a % 4) * 16 + b / 16),
            base64_digit((b % 16) * 4 + c / 64),
            base64_digit(c % 64),
        ] + base64_of(bytes.skip(3))
    }
}

/// `base64::engine::general_purpose::STANDARD.encode`. Claimed: the result
/// is the standard padded base64 of the bytes, as the crate documents its
/// `STANDARD` engine (RFC 4648 alphabet with padding). `encode` panics when
/// the encoded length overflows, which `requires` rules out.
#[verifier::external_body]
fn encode_base64(bytes: &[u8]) -> (r: String)
    requires
        (bytes@.len() + 2) / 3 * 4 <= usize::MAX,
    ensures
        r@ == base64_of(bytes@),
{
    base64::Engine::encode(&base64::engine::general_purpose::STANDARD, bytes)
}

/// The prefix of a PNG data URL.
pub open spec fn png_data_url_prefix() -> Seq<char> {
    "data:image/png;base64,"@
}

/// A PNG data URL from the base64 text of the file.
pub fn png_data_url(b64: &str) -> (r: String)
    ensures
        r@ == png_data_url_prefix() + b64@,
{
    let mut r = owned("data:image/png;base64,");
    push_str(&mut r, b64);
    r
}

/// The preview event for a PNG file of preview size.
pub fn preview_of_png(png: &[u8]) -> (r: PreviewFrame)
    requires
        (png@.len() + 2) / 3 * 4 <= usize::MAX,
    ensures
        r.data_url@ == png_data_url_prefix() + base64_of(png@),
        r.w == PREVIEW_W && r.h == PREVIEW_H,
{
    let b64 = encode_base64(png);
    PreviewFrame { data_url: png_data_url(b64.as_str()), w: PREVIEW_W, h: PREVIEW_H }
}

/// The RGBA pixels of the preview of a `w`x`h` BGRA frame: scaled and
/// letterboxed to the preview size.
pub open spec fn preview_pixels(frame: Seq<u8>, w: u32, h: u32) -> Seq<u8> {
    let small = scaled_frame(frame, w as int, h as int, PREVIEW_W as int, PREVIEW_H as int);
    Seq::new(
        small.len(),
        |j: int|
            if j % 4 == 0 {
                small[j + 2]
            } else if j % 4 == 2 {
                small[j - 2]
            } else {
                small[j]
            },
    )
}

/// Whether base64 text of `len` bytes has a length that fits in `usize`.
pub open spec fn base64_fits(len: nat) -> bool {
    (len + 2) / 3 * 4 <= usize::MAX
}

/// Whether base64 text of `len` bytes has a length that fits in `usize`.
fn base64_len_fits(len: usize) -> (r: bool)
    ensures
        r == base64_fits(len as nat),
{
    let q: usize = len / 3 + if len % 3 > 0 {
        1
    } else {
        0
    };
    assert(q == (len + 2) / 3);
    q <= usize::MAX / 4
}

/// The preview event for a captured `w`x`h` BGRA frame; none when the image
/// cannot be encoded, or its base64 text would not fit in memory.
pub fn preview_frame(frame: &[u8], w: u32, h: u32) -> (r: Option<PreviewFrame>)
    requires
        w * h * 4 <= usize::MAX,
        src_ok(frame@.len() as int, w as int, h as int) && !(w == PREVIEW_W && h == PREVIEW_H)
            ==> scale_fits(w as int, h as int, PREVIEW_W as int, PREVIEW_H as int),
    ensures
        match png_of(preview_pixels(frame@, w, h), PREVIEW_W, PREVIEW_H) {
            Some(png) => if base64_fits(png.len()) {
                r matches Some(p) && p.data_url@ == png_data_url_prefix() + base64_of(png) && p.w
                    == PREVIEW_W && p.h == PREVIEW_H
            } else {
                r is None
            },
            None => r is None,
        },
{
    let small = scale_bgra(frame, w, h, PREVIEW_W, PREVIEW_H);
    let rgba = bgra_to_rgba(&small);
    assert(rgba@ =~= preview_pixels(frame@, w, h));
    match encode_png(&rgba, PREVIEW_W, PREVIEW_H) {
        Some(png) => {
            if !base64_len_fits(png.len()) {
                return None;
            }
            Some(preview_of_png(&png))
        },
        None => None,
    }
}

} // verus!
