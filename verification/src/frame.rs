//! Turning a captured screen into the JPEG frame that the agent sends.
use vstd::prelude::*;
use std::io::Cursor;

verus! {

/// The JPEG quality of the frames.
pub const JPEG_QUALITY: u8 = 70;

/// The RGB bytes of the first `pixels` pixels of a BGRA buffer: each pixel's
/// red, green and blue bytes in that order, alpha left out.
pub open spec fn bgra_to_rgb(bgra: Seq<u8>, pixels: nat) -> Seq<u8> {
    Seq::new(3 * pixels, |i: int| bgra[4 * (i / 3) + 2 - i % 3])
}

/// Does a four-byte-per-pixel image of this size fit in `len` bytes, with its size in
/// bytes (computed as `4 * width`, then times `height`) representable?
pub open spec fn pixels_fit(width: u32, height: u32, len: nat) -> bool {
    4 * width <= usize::MAX && 4 * width * height <= usize::MAX && 4 * width * height <= len
}

/// Can a JPEG have these dimensions?
pub open spec fn jpeg_dims_ok(width: u32, height: u32) -> bool {
    1 <= width <= 0xFFFF && 1 <= height <= 0xFFFF
}

/// The baseline JPEG that image's `JpegEncoder` writes for an RGB8 image.
pub uninterp spec fn jpeg_encoding(rgb: Seq<u8>, width: u32, height: u32, quality: u8) -> Seq<u8>;

/// image's `RgbaImage::from_raw_bgra` followed by `DynamicImage::into_rgb8`,
/// as raw bytes. From the crate's source: `from_raw_bgra` is `from_raw`, which
/// accepts a buffer that holds at least `4 * width * height` bytes (a product
/// computed in `usize` with overflow checks), and then reverses the first
/// three channels of each of the `width * height` pixels; the RGBA8 to RGB8
/// cast copies the first three channels of each pixel.
#[verifier::external_body]
fn bgra8_to_rgb8(width: u32, height: u32, bgra: Vec<u8>) -> (r: Option<Vec<u8>>)
    ensures
        r is Some <==> pixels_fit(width, height, bgra@.len()),
        r matches Some(v) ==> v@ == bgra_to_rgb(bgra@, (width * height) as nat),
{
    match image::RgbaImage::from_raw_bgra(width, height, bgra) {
        Some(img) => Some(image::DynamicImage::ImageRgba8(img).into_rgb8().into_raw()),
        None => None,
    }
}

/// image's `JpegEncoder::encode` of an RGB8 buffer into a `Vec`, at the given
/// quality. It panics unless the buffer holds exactly `3 * width * height`
/// bytes (and, through `from_raw`, when `3 * width` overflows `usize`); it fails exactly when a side is 0 or over 65535 (writing into a
/// `Vec` does not fail). The bytes written are named, not stated.
#[verifier::external_body]
fn jpeg_encode_rgb8(rgb: &[u8], width: u32, height: u32, quality: u8) -> (r: Option<Vec<u8>>)
    requires
        rgb@.len() == 3 * width * height,
        3 * width <= usize::MAX,
    ensures
        r is Some <==> jpeg_dims_ok(width, height),
        r matches Some(v) ==> v@ == jpeg_encoding(rgb@, width, height, quality),
{
    let mut buffer = Cursor::new(Vec::new());
    let mut encoder = image::codecs::jpeg::JpegEncoder::new_with_quality(&mut buffer, quality);
    match encoder.encode(rgb, width, height, image::ExtendedColorType::Rgb8) {
        Ok(()) => Some(buffer.into_inner()),
        Err(_) => None,
    }
}

/// The JPEG frame of a captured screen, if there is one.
pub open spec fn frame_jpeg(width: u32, height: u32, bgra: Seq<u8>) -> Option<Seq<u8>> {
    if pixels_fit(width, height, bgra.len()) && jpeg_dims_ok(width, height) {
        Some(jpeg_encoding(bgra_to_rgb(bgra, (width * height) as nat), width, height, JPEG_QUALITY))
    } else {
        None
    }
}

/// Encodes the 32-bit BGRA pixels of a captured screen (alpha ignored) as
/// an RGB JPEG of quality 70.
pub fn encode_frame(width: u32, height: u32, bgra: Vec<u8>) -> (r: Option<Vec<u8>>)
    ensures
        r is Some <==> frame_jpeg(width, height, bgra@) is Some,
        r matches Some(v) ==> v@ == frame_jpeg(width, height, bgra@)->0,
{
    match bgra8_to_rgb8(width, height, bgra) {
        Some(rgb) => {
            assert(3 * ((width * height) as nat) == 3 * width * height) by (nonlinear_arith);
            jpeg_encode_rgb8(rgb.as_slice(), width, height, JPEG_QUALITY)
        },
        None => None,
    }
}

/// Bytes in the 32-bit pixel buffer of a `width` by `height` screen.
pub fn frame_buffer_len(width: i32, height: i32) -> (n: usize)
    requires
        0 <= width * height * 4 <= i32::MAX,
    ensures
        n == width * height * 4,
{
    assert(i32::MIN <= width * height <= i32::MAX) by (nonlinear_arith)
        requires
            0 <= width * height * 4 <= i32::MAX,
    ;
    (width * height * 4) as usize
}

} // verus!
