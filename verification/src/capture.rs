//! Captured frames: monitor choice, the blank-frame check, and encoding
//! through the `image` crate.

use vstd::prelude::*;

use crate::config::{clamp, ImageFormat};
use crate::error::CoreError;
use crate::text::owned;

verus! {

/// A raw captured frame, before encoding: RGBA8 pixels, row by row.
pub struct Frame {
    pub width: u32,
    pub height: u32,
    pub rgba: Vec<u8>,
    pub monitor: String,
}

impl Frame {
    /// The pixel buffer holds exactly `width * height` RGBA pixels.
    pub open spec fn wf(&self) -> bool {
        self.rgba@.len() == 4 * self.width * self.height
    }
}

/// Pixel (x, y) has red, green and blue all below 3.
pub open spec fn is_black_at(px: Seq<u8>, w: int, x: int, y: int) -> bool {
    let i = 4 * (y * w + x);
    px[i] < 3 && px[i + 1] < 3 && px[i + 2] < 3
}

/// The sampling step along an edge of length `n`: a sixteenth, at least 1.
pub open spec fn sample_step(n: u32) -> int {
    if n / 16 == 0 {
        1
    } else {
        (n / 16) as int
    }
}

/// A frame "looks blank" when it is empty or every pixel on the sparse
/// sampling grid (every sixteenth of each edge, from the origin) is black.
pub open spec fn looks_blank_spec(w: u32, h: u32, px: Seq<u8>) -> bool {
    w == 0 || h == 0 || forall|i: int, j: int|
        0 <= i && 0 <= j && i * sample_step(w) < w && j * sample_step(h) < h ==> #[trigger]
        is_black_at(px, w as int, i * sample_step(w), j * sample_step(h))
}

proof fn lemma_pixel_in_bounds(w: int, h: int, x: int, y: int)
    requires
        0 <= x < w,
        0 <= y < h,
    ensures
        0 <= 4 * (y * w + x),
        4 * (y * w + x) + 3 < 4 * w * h,
{
    assert(y * w + x < (y + 1) * w) by (nonlinear_arith)
        requires
            x < w,
    ;
    assert((y + 1) * w <= h * w) by (nonlinear_arith)
        requires
            y + 1 <= h,
            0 <= w,
    ;
    assert(0 <= y * w) by (nonlinear_arith)
        requires
            0 <= y,
            0 <= w,
    ;
    assert(4 * w * h == 4 * (h * w)) by (nonlinear_arith);
}

proof fn lemma_past_edge(i: int, k: int, s: int, n: int)
    requires
        i <= k,
        0 < s,
        i * s >= n,
    ensures
        k * s >= n,
{
    assert(k * s >= i * s) by (nonlinear_arith)
        requires
            i <= k,
            0 < s,
    ;
}

/// The pixel at (x, y) has red, green and blue all below 3.
pub open spec fn dark_pixel(px: Seq<u8>, w: int, x: int, y: int) -> bool {
    &&& px[4 * (y * w + x)] < 3
    &&& px[4 * (y * w + x) + 1] < 3
    &&& px[4 * (y * w + x) + 2] < 3
}

/// Law: a frame that looks blank is dark at every pixel of the sampling
/// grid (every `max(w / 16, 1)`-th column and every `max(h / 16, 1)`-th row,
/// from the origin): red, green and blue are all below 3 there. So a frame
/// with any channel at 3 or more at a grid pixel (the origin among them) is
/// not blank.
pub proof fn lemma_blank_means_dark(w: u32, h: u32, px: Seq<u8>, x: int, y: int)
    requires
        px.len() == 4 * w * h,
        looks_blank_spec(w, h, px),
        0 <= x < w,
        0 <= y < h,
        x % (if w / 16 == 0 { 1 } else { w / 16 } as int) == 0,
        y % (if h / 16 == 0 { 1 } else { h / 16 } as int) == 0,
    ensures
        dark_pixel(px, w as int, x, y),
{
    let sx = sample_step(w);
    let sy = sample_step(h);
    let i = x / sx;
    let j = y / sy;
    assert(x == i * sx) by {
        vstd::arithmetic::div_mod::lemma_fundamental_div_mod(x, sx);
    }
    assert(y == j * sy) by {
        vstd::arithmetic::div_mod::lemma_fundamental_div_mod(y, sy);
    }
    assert(i >= 0) by {
        vstd::arithmetic::div_mod::lemma_div_pos_is_pos(x, sx);
    }
    assert(j >= 0) by {
        vstd::arithmetic::div_mod::lemma_div_pos_is_pos(y, sy);
    }
    assert(is_black_at(px, w as int, i * sx, j * sy));
}

/// Law: a non-empty frame that is dark at every pixel of the sampling grid
/// looks blank.
pub proof fn lemma_dark_grid_is_blank(w: u32, h: u32, px: Seq<u8>)
    requires
        px.len() == 4 * w * h,
        w > 0,
        h > 0,
        forall|x: int, y: int|
            0 <= x < w && 0 <= y < h && x % (if w / 16 == 0 { 1 } else { w / 16 } as int) == 0
                && y % (if h / 16 == 0 { 1 } else { h / 16 } as int) == 0 ==> #[trigger] dark_pixel(
                px,
                w as int,
                x,
                y,
            ),
    ensures
        looks_blank_spec(w, h, px),
{
    let sx = sample_step(w);
    let sy = sample_step(h);
    assert forall|i: int, j: int|
        0 <= i && 0 <= j && i * sample_step(w) < w && j * sample_step(h) < h implies #[trigger] is_black_at(
        px,
        w as int,
        i * sample_step(w),
        j * sample_step(h),
    ) by {
        vstd::arithmetic::div_mod::lemma_mod_multiples_basic(i, sx);
        vstd::arithmetic::div_mod::lemma_mod_multiples_basic(j, sy);
        assert(i * sx >= 0) by (nonlinear_arith)
            requires
                i >= 0,
                sx > 0,
        ;
        assert(j * sy >= 0) by (nonlinear_arith)
            requires
                j >= 0,
                sy > 0,
        ;
        assert(dark_pixel(px, w as int, i * sx, j * sy));
    }
}

/// Detect the all-black frames macOS produces when Screen Recording
/// permission is missing. Samples a sparse grid instead of every pixel.
pub fn looks_blank(frame: &Frame) -> (b: bool)
    requires
        frame.wf(),
    ensures
        b == looks_blank_spec(frame.width, frame.height, frame.rgba@),
{
    let w = frame.width;
    let h = frame.height;
    if w == 0 || h == 0 {
        return true;
    }
    let step_x: u64 = if w / 16 == 0 {
        1
    } else {
        (w / 16) as u64
    };
    let step_y: u64 = if h / 16 == 0 {
        1
    } else {
        (h / 16) as u64
    };
    let ghost px = frame.rgba@;
    let ghost sx = sample_step(w);
    let ghost sy = sample_step(h);
    let mut y: u64 = 0;
    let ghost mut j: int = 0;
    while y < h as u64
        invariant
            w > 0,
            h > 0,
            w == frame.width,
            h == frame.height,
            px == frame.rgba@,
            frame.wf(),
            step_x as int == sx == sample_step(w),
            step_y as int == sy == sample_step(h),
            1 <= sx <= w,
            1 <= sy <= h,
            0 <= j,
            y as int == j * sy,
            y <= h as u64 + step_y,
            forall|i2: int, j2: int|
                0 <= i2 && 0 <= j2 < j && i2 * sx < w && j2 * sy < h ==> #[trigger] is_black_at(
                    px,
                    w as int,
                    i2 * sx,
                    j2 * sy,
                ),
        decreases h as u64 + step_y - y,
    {
        let mut x: u64 = 0;
        let ghost mut i: int = 0;
        while x < w as u64
            invariant
                w > 0,
                h > 0,
                w == frame.width,
                h == frame.height,
                px == frame.rgba@,
                frame.wf(),
                step_x as int == sx == sample_step(w),
                step_y as int == sy == sample_step(h),
                1 <= sx <= w,
                1 <= sy <= h,
                y < h,
                y as int == j * sy,
                0 <= j,
                0 <= i,
                x as int == i * sx,
                x <= w as u64 + step_x,
                forall|i2: int| 0 <= i2 < i && i2 * sx < w ==> #[trigger] is_black_at(
                    px,
                    w as int,
                    i2 * sx,
                    j * sy,
                ),
            decreases w as u64 + step_x - x,
        {
            let n = frame.rgba.len();
            let xs = x as usize;
            let ys = y as usize;
            let ws = w as usize;
            proof {
                lemma_pixel_in_bounds(ws as int, h as int, xs as int, ys as int);
                assert(4 * (ys * ws + xs) + 3 < n);
            }
            let idx: usize = 4 * (ys * ws + xs);
            if !(frame.rgba[idx] < 3 && frame.rgba[idx + 1] < 3 && frame.rgba[idx + 2] < 3) {
                assert(!is_black_at(px, w as int, i * sample_step(w), j * sample_step(h)));
                assert(i * sample_step(w) < w && j * sample_step(h) < h);
                assert(!looks_blank_spec(w, h, px));
                return false;
            }
            proof {
                assert((i + 1) * sx == i * sx + sx) by (nonlinear_arith);
            }
            x = x + step_x;
            proof {
                i = i + 1;
            }
        }
        proof {
            assert forall|i2: int| 0 <= i2 && i2 * sx < w implies #[trigger] is_black_at(
                px,
                w as int,
                i2 * sx,
                j * sy,
            ) by {
                if i2 >= i {
                    lemma_past_edge(i, i2, sx, w as int);
                }
            }
            assert forall|i2: int, j2: int|
                0 <= i2 && 0 <= j2 < j + 1 && i2 * sx < w && j2 * sy < h implies #[trigger] is_black_at(
                px,
                w as int,
                i2 * sx,
                j2 * sy,
            ) by {
                if j2 == j {
                }
            }
            assert((j + 1) * sy == j * sy + sy) by (nonlinear_arith);
        }
        y = y + step_y;
        proof {
            j = j + 1;
        }
    }
    proof {
        assert forall|i2: int, j2: int|
            0 <= i2 && 0 <= j2 && i2 * sx < w && j2 * sy < h implies #[trigger] is_black_at(
            px,
            w as int,
            i2 * sx,
            j2 * sy,
        ) by {
            if j2 >= j {
                lemma_past_edge(j, j2, sy, h as int);
            }
        }
    }
    true
}

/// Index of the monitor to capture, given whether each listed monitor is the
/// primary one: the first primary monitor, else the first monitor.
pub fn select_monitor(primary: &Vec<bool>) -> (r: Option<usize>)
    ensures
        r is None <==> primary@.len() == 0,
        r matches Some(i) ==> i < primary@.len() && (primary@[i as int] || forall|k: int|
            0 <= k < primary@.len() ==> !primary@[k]) && (primary@[i as int] ==> forall|k: int|
            0 <= k < i ==> !primary@[k]) && (!primary@[i as int] ==> i == 0),
{
    let mut i: usize = 0;
    while i < primary.len()
        invariant
            i <= primary.len(),
            forall|k: int| 0 <= k < i ==> !primary@[k],
        decreases primary.len() - i,
    {
        if primary[i] {
            return Some(i);
        }
        i += 1;
    }
    if primary.len() > 0 {
        Some(0)
    } else {
        None
    }
}

/// The capture outcome for a frame: blank frames (missing screen permission)
/// are refused.
pub fn accept_frame(frame: Frame) -> (r: Result<Frame, CoreError>)
    requires
        frame.wf(),
    ensures
        looks_blank_spec(frame.width, frame.height, frame.rgba@) ==> (r matches Err(
            CoreError::Capture(m),
        ) && m@ == "capture came back blank (missing screen permission?)"@),
        !looks_blank_spec(frame.width, frame.height, frame.rgba@) ==> r == Ok::<Frame, CoreError>(
            frame,
        ),
{
    if looks_blank(&frame) {
        Err(CoreError::Capture(owned("capture came back blank (missing screen permission?)")))
    } else {
        Ok(frame)
    }
}

/// PNG encoding of an RGBA image, as the `image` crate writes it.
pub uninterp spec fn png_encoding(width: u32, height: u32, rgba: Seq<u8>) -> Seq<u8>;

/// JPEG encoding of an RGBA image (alpha dropped) at a quality, as the
/// `image` crate writes it.
pub uninterp spec fn jpeg_encoding(width: u32, height: u32, rgba: Seq<u8>, quality: u8) -> Seq<
    u8,
>;

/// Width and height of an encoded image, when the `image` crate decodes it.
pub uninterp spec fn decoded_size(bytes: Seq<u8>) -> Option<(u32, u32)>;

/// The `image` crate's JPEG re-encoding of an encoded image shrunk with a
/// triangle filter to fit in `max_edge` x `max_edge`, aspect ratio kept.
pub uninterp spec fn shrunk_jpeg(bytes: Seq<u8>, max_edge: u32, quality: u8) -> Seq<u8>;

/// The eight bytes every PNG file starts with.
pub open spec fn png_signature() -> Seq<u8> {
    seq![137u8, 80u8, 78u8, 71u8, 13u8, 10u8, 26u8, 10u8]
}

/// A successful outcome starts with the PNG signature.
pub open spec fn starts_png<E>(r: Result<Vec<u8>, E>) -> bool {
    r matches Ok(b) ==> b@.len() >= 8 && b@.take(8) == png_signature()
}

/// A successful outcome starts with the JPEG start-of-image marker.
pub open spec fn starts_jpeg<E>(r: Result<Vec<u8>, E>) -> bool {
    r matches Ok(b) ==> b@.len() >= 2 && b@[0] == 0xFFu8 && b@[1] == 0xD8u8
}

/// A successful outcome decodes to an image of this size.
pub open spec fn decodes_to_size<E>(r: Result<Vec<u8>, E>, width: u32, height: u32) -> bool {
    r matches Ok(b) ==> decoded_size(b@) == Some((width, height))
}

/// An image of this size (when there is one) is `orig` scaled to fit in
/// `m` x `m`: it fits, one of its edges is exactly `m`, and its aspect ratio
/// is `orig`'s up to rounding each edge to a whole pixel
/// (`|e.0 * orig.1 - e.1 * orig.0|` at most the longer original edge).
pub open spec fn scaled_to_fit(size: Option<(u32, u32)>, orig: (u32, u32), m: u32) -> bool {
    match size {
        Some(e) => {
            &&& e.0 <= m
            &&& e.1 <= m
            &&& (e.0 == m || e.1 == m)
            &&& -(if orig.0 >= orig.1 { orig.0 as int } else { orig.1 as int }) <= e.0 * orig.1
                - e.1 * orig.0 <= (if orig.0 >= orig.1 { orig.0 as int } else { orig.1 as int })
        },
        None => false,
    }
}

/// An outcome that is encoded image bytes which decode to `orig` scaled to
/// fit in `m` x `m`.
pub open spec fn decodes_scaled<E>(r: Result<Vec<u8>, E>, orig: (u32, u32), m: u32) -> bool {
    match r {
        Ok(b) => scaled_to_fit(decoded_size(b@), orig, m),
        Err(_) => false,
    }
}

/// Builds an `image::RgbaImage` with `ImageBuffer::from_raw` and writes it
/// with `DynamicImage::write_to` in PNG. Claims that a success is
/// `png_encoding` of the arguments, and that it succeeds exactly when both
/// edges are non-zero: the buffer length is checked by `requires`, the `png`
/// encoder refuses a zero width or height, and everything else writes to
/// memory. The output begins with the PNG signature (written first by the
/// `png` encoder), and an image of at most 4194304 pixels decodes back to its
/// own size (well within the decoder's default allocation limit).
#[verifier::external_body]
fn rgba_to_png(width: u32, height: u32, rgba: &[u8]) -> (r: Result<Vec<u8>, String>)
    requires
        rgba@.len() == 4 * width * height,
    ensures
        r matches Ok(b) ==> b@ == png_encoding(width, height, rgba@),
        r is Ok <==> (width > 0 && height > 0),
        starts_png(r),
        width * height <= 4194304 ==> decodes_to_size(r, width, height),
{
    let image = image::RgbaImage::from_raw(width, height, rgba.to_vec()).ok_or_else(
        String::new,
    )?;
    let mut out = Vec::new();
    image::DynamicImage::ImageRgba8(image).write_to(
        &mut std::io::Cursor::new(&mut out),
        image::ImageFormat::Png,
    ).map_err(|e| e.to_string())?;
    Ok(out)
}

/// Builds an `image::RgbaImage` with `ImageBuffer::from_raw`, converts it
/// with `DynamicImage::to_rgb8` and writes it with
/// `JpegEncoder::new_with_quality`. Claims that a success is
/// `jpeg_encoding` of the arguments, and that it succeeds exactly when both
/// edges are within 1..=65535: the JPEG encoder refuses other sizes
/// (`InvalidSize`) and otherwise writes to memory. The output begins with the
/// JPEG start-of-image marker `FF D8`, and an image of at most 4194304 pixels
/// decodes back to its own size.
#[verifier::external_body]
fn rgba_to_jpeg(width: u32, height: u32, rgba: &[u8], quality: u8) -> (r: Result<Vec<u8>, String>)
    requires
        rgba@.len() == 4 * width * height,
    ensures
        r matches Ok(b) ==> b@ == jpeg_encoding(width, height, rgba@, quality),
        r is Ok <==> (1 <= width <= 65535 && 1 <= height <= 65535),
        starts_jpeg(r),
        width * height <= 4194304 ==> decodes_to_size(r, width, height),
{
    let image = image::RgbaImage::from_raw(width, height, rgba.to_vec()).ok_or_else(
        String::new,
    )?;
    let rgb = image::DynamicImage::ImageRgba8(image).to_rgb8();
    let mut out = Vec::new();
    let encoder = image::codecs::jpeg::JpegEncoder::new_with_quality(&mut out, quality);
    rgb.write_with_encoder(encoder).map_err(|e| e.to_string())?;
    Ok(out)
}

/// Decodes with `image::load_from_memory` and reads `width()` and
/// `height()`. Succeeds exactly when `decoded_size` has a value.
#[verifier::external_body]
fn image_size(bytes: &[u8]) -> (r: Result<(u32, u32), String>)
    ensures
        r is Ok <==> decoded_size(bytes@) is Some,
        r matches Ok(d) ==> decoded_size(bytes@) == Some(d),
{
    image::load_from_memory(bytes).map(|img| (img.width(), img.height())).map_err(
        |e| e.to_string(),
    )
}

/// Decodes with `image::load_from_memory`, shrinks with
/// `DynamicImage::resize(max_edge, max_edge, FilterType::Triangle)` and
/// writes `to_rgb8()` with `JpegEncoder::new_with_quality`. Claims:
/// - a success is `shrunk_jpeg` of the arguments;
/// - it fails when the bytes do not decode (the same call as `image_size`);
/// - it succeeds when they decode and `max_edge` is at most 65535: `resize`
///   keeps the aspect ratio and gives each edge at least 1 and at most
///   `max_edge` (`resize_dimensions`), which the JPEG encoder accepts;
/// - for `max_edge` in 1..=8192 the result decodes again to the input scaled
///   to fit: `resize_dimensions` scales both edges by `max_edge` over the
///   longer edge and rounds each in `f64` (at least 1), so the longer edge
///   comes back as exactly `max_edge` and the shorter one is off its exact
///   value by at most half a pixel (the `f64` error is far below that for
///   edges of this size); a JPEG of at most 8192 x 8192 RGB pixels is within
///   the decoder's default allocation limit.
#[verifier::external_body]
fn shrink_to_jpeg(bytes: &[u8], max_edge: u32, quality: u8) -> (r: Result<Vec<u8>, String>)
    ensures
        r matches Ok(b) ==> b@ == shrunk_jpeg(bytes@, max_edge, quality),
        decoded_size(bytes@) is None ==> r is Err,
        decoded_size(bytes@) is Some && max_edge <= 65535 ==> r is Ok,
        decoded_size(bytes@) is Some && 1 <= max_edge <= 8192 ==> decodes_scaled(
            r,
            decoded_size(bytes@)->0,
            max_edge,
        ),
{
    let img = image::load_from_memory(bytes).map_err(|e| e.to_string())?;
    let resized = img.resize(max_edge, max_edge, image::imageops::FilterType::Triangle);
    let mut out = Vec::new();
    let encoder = image::codecs::jpeg::JpegEncoder::new_with_quality(&mut out, quality);
    resized.to_rgb8().write_with_encoder(encoder).map_err(|e| e.to_string())?;
    Ok(out)
}

/// Encode a raw RGBA frame to PNG or JPEG bytes. JPEG quality is clamped to
/// 1-100 first.
pub fn encode(frame: &Frame, format: ImageFormat, jpeg_quality: u8) -> (r: Result<
    Vec<u8>,
    CoreError,
>)
    requires
        frame.wf(),
    ensures
        r matches Ok(b) ==> b@ == match format {
            ImageFormat::Png => png_encoding(frame.width, frame.height, frame.rgba@),
            ImageFormat::Jpeg => jpeg_encoding(
                frame.width,
                frame.height,
                frame.rgba@,
                clamp(jpeg_quality as int, 1, 100) as u8,
            ),
        },
        format == ImageFormat::Png ==> starts_png(r),
        format == ImageFormat::Jpeg ==> starts_jpeg(r),
        frame.width * frame.height <= 4194304 ==> decodes_to_size(r, frame.width, frame.height),
        format == ImageFormat::Png ==> (r is Ok <==> (frame.width > 0 && frame.height > 0)),
        format == ImageFormat::Jpeg ==> (r is Ok <==> (1 <= frame.width <= 65535 && 1
            <= frame.height <= 65535)),
        r matches Err(e) ==> e is Encode,
{
    let encoded = match format {
        ImageFormat::Png => rgba_to_png(frame.width, frame.height, frame.rgba.as_slice()),
        ImageFormat::Jpeg => {
            let q = if jpeg_quality < 1 {
                1
            } else if jpeg_quality > 100 {
                100
            } else {
                jpeg_quality
            };
            rgba_to_jpeg(frame.width, frame.height, frame.rgba.as_slice(), q)
        },
    };
    match encoded {
        Ok(bytes) => Ok(bytes),
        Err(e) => Err(CoreError::Encode(e)),
    }
}

/// The JPEG quality used for images sent to a vision model.
pub const LLM_JPEG_QUALITY: u8 = 80;

/// Shrink an encoded image so its longest edge is at most `max_edge` before
/// sending it to a vision model. Returns re-encoded JPEG bytes, or the
/// bytes unchanged if already small.
pub fn downscale_for_llm(bytes: &[u8], max_edge: u32) -> (r: Result<Vec<u8>, CoreError>)
    ensures
        decoded_size(bytes@) is None ==> (r matches Err(e) && e is Encode),
        decoded_size(bytes@) matches Some(d) ==> {
            if d.0 <= max_edge && d.1 <= max_edge {
                (r matches Ok(b) && b@ == bytes@)
            } else {
                &&& (r matches Ok(b) ==> b@ == shrunk_jpeg(bytes@, max_edge, LLM_JPEG_QUALITY))
                &&& (r matches Err(e) ==> e is Encode)
                &&& max_edge <= 65535 ==> r is Ok
                &&& 1 <= max_edge <= 8192 ==> decodes_scaled(r, d, max_edge)
            }
        },
{
    match image_size(bytes) {
        Err(e) => Err(CoreError::Encode(e)),
        Ok((w, h)) => {
            let longest = if w > h {
                w
            } else {
                h
            };
            if longest <= max_edge {
                Ok(vstd::slice::slice_to_vec(bytes))
            } else {
                match shrink_to_jpeg(bytes, max_edge, LLM_JPEG_QUALITY) {
                    Ok(out) => Ok(out),
                    Err(e) => Err(CoreError::Encode(e)),
                }
            }
        },
    }
}

} // verus!
