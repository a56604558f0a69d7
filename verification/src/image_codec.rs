//! Image encoding and decoding, by the `image` crate, on plain bytes.
use vstd::prelude::*;

verus! {

/// The file formats the history reads and writes.
#[derive(Clone, Copy, Debug, PartialEq, Eq, Structural)]
pub enum ImageCodec {
    Png,
    Bmp,
}

/// What decoding `data` in a format gives: the width, the height and the RGBA
/// pixels, or nothing when the data does not decode.
pub uninterp spec fn decoded_image(codec: ImageCodec, data: Seq<u8>) -> Option<(u32, u32, Seq<u8>)>;

/// Decodes an image and converts it to 8-bit RGBA
/// (`image::load_from_memory_with_format`, then `to_rgba8`).
#[verifier::external_body]
pub(crate) fn decode_image(codec: ImageCodec, data: &[u8]) -> (res: Option<(u32, u32, Vec<u8>)>)
    ensures
        match res {
            Some((w, h, rgba)) => decoded_image(codec, data@) == Some((w, h, rgba@)),
            None => decoded_image(codec, data@) is None,
        },
{
    let format = match codec {
        ImageCodec::Png => image::ImageFormat::Png,
        ImageCodec::Bmp => image::ImageFormat::Bmp,
    };
    match image::load_from_memory_with_format(data, format) {
        Ok(image) => {
            let rgba = image.to_rgba8();
            let (w, h) = rgba.dimensions();
            Some((w, h, rgba.into_raw()))
        },
        Err(_) => None,
    }
}

/// What encoding `width` by `height` RGBA pixels as PNG gives, or nothing when the
/// encoder fails.
pub uninterp spec fn png_encoding(width: u32, height: u32, rgba: Seq<u8>) -> Option<Seq<u8>>;

/// Encodes RGBA pixels as PNG (`RgbaImage::from_raw`, then `DynamicImage::write_to`).
/// The buffer must hold exactly the pixels: the encoder panics on any other length.
#[verifier::external_body]
fn png_encode(width: u32, height: u32, rgba: Vec<u8>) -> (res: Option<Vec<u8>>)
    requires
        rgba@.len() == 4 * (width * height),
    ensures
        match res {
            Some(png) => png_encoding(width, height, rgba@) == Some(png@),
            None => png_encoding(width, height, rgba@) is None,
        },
{
    let image = image::RgbaImage::from_raw(width, height, rgba)?;
    let mut output = std::io::Cursor::new(Vec::new());
    match image::DynamicImage::ImageRgba8(image).write_to(&mut output, image::ImageFormat::Png) {
        Ok(()) => Some(output.into_inner()),
        Err(_) => None,
    }
}

/// Why pixels could not be encoded.
#[derive(Clone, Copy, Debug, PartialEq, Eq, Structural)]
pub enum EncodeError {
    /// The buffer is shorter than the pixels it should hold.
    InvalidBuffer,
    /// The PNG encoder failed.
    EncoderFailed,
}

/// What encoding `width` by `height` RGBA pixels as PNG gives: an invalid buffer
/// when it is shorter than the pixels or their count does not fit in a `usize`,
/// otherwise the encoder's output or failure.
pub open spec fn png_of(width: u32, height: u32, rgba: Seq<u8>) -> Result<Seq<u8>, EncodeError> {
    let needed = 4 * (width * height);
    if needed > usize::MAX || rgba.len() < needed {
        Err(EncodeError::InvalidBuffer)
    } else {
        match png_encoding(width, height, rgba) {
            Some(png) => Ok(png),
            None => Err(EncodeError::EncoderFailed),
        }
    }
}

/// The model of an encoding result.
pub open spec fn encoded_view(res: Result<Vec<u8>, EncodeError>) -> Result<Seq<u8>, EncodeError> {
    match res {
        Ok(v) => Ok(v@),
        Err(e) => Err(e),
    }
}

/// Encodes RGBA pixels as PNG. A buffer shorter than `width` by `height` pixels, or
/// a pixel count that does not fit in a `usize`, is an invalid buffer.
pub fn encode_png(width: u32, height: u32, rgba: Vec<u8>) -> (res: Result<Vec<u8>, EncodeError>)
    requires
        4 * (width * height) <= usize::MAX ==> rgba@.len() <= 4 * (width * height),
    ensures
        encoded_view(res) == png_of(width, height, rgba@),
{
    let ww = width as u128;
    let hh = height as u128;
    assert(ww * hh <= 0xffff_ffff * 0xffff_ffff) by (nonlinear_arith)
        requires
            ww <= 0xffff_ffff,
            hh <= 0xffff_ffff,
    ;
    let needed: u128 = 4 * (ww * hh);
    if needed > usize::MAX as u128 || (rgba.len() as u128) < needed {
        return Err(EncodeError::InvalidBuffer);
    }
    match png_encode(width, height, rgba) {
        Some(png) => Ok(png),
        None => Err(EncodeError::EncoderFailed),
    }
}

} // verus!
