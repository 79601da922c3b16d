//! The WebP writer: the texture's pixels, decoded, as a lossless picture.

use vstd::prelude::*;

use crate::file_formats::texture::Texture;
use crate::file_formats::texture::TextureView;
use crate::file_formats::texture_serializers::block_decoder::decode_pixels;
use crate::file_formats::texture_serializers::block_decoder::finish_image;
use crate::file_formats::texture_serializers::block_decoder::pixels_of;
use crate::helpers::byte::ByteCursor;
use crate::helpers::byte::ByteWriterExt;
use crate::helpers::error::CodecError;

verus! {

/// The widest and the highest picture that the format can hold.
pub const MAX_DIMENSION: u16 = 16383;

/// The WebP writer.
pub struct WEBPFile {}

/// Calls `webp::Encoder::new` with the RGBA layout and `encode_lossless`
/// on it. Nothing is said of the bytes that come back: the encoder
/// reckons with floating point, and its choices may differ from one
/// machine to another. It is not called for fewer pixels than the picture
/// has, nor for a picture that is empty or wider or higher than the format
/// allows: it panics on these.
#[verifier::external_body]
fn encode_lossless(pixels: &[u8], width: u32, height: u32) -> (encoded: Vec<u8>)
    requires
        0 < width <= MAX_DIMENSION,
        0 < height <= MAX_DIMENSION,
        pixels@.len() >= 4 * width * height,
{
    let encoder = webp::Encoder::new(pixels, webp::PixelLayout::Rgba, width, height);
    encoder.encode_lossless().to_vec()
}

/// Whether a picture of this size can be a WebP file.
pub open spec fn encodable(width: u16, height: u16) -> bool {
    0 < width <= MAX_DIMENSION && 0 < height <= MAX_DIMENSION
}

/// The pixels that are encoded for `texture`, taken from its first
/// element. There are none for a texture without elements, nor for a
/// picture that is empty or larger than the format allows.
pub open spec fn webp_pixels(texture: TextureView) -> Result<Seq<u8>, CodecError> {
    if texture.elements.len() == 0 {
        Err(CodecError::NoPixelData)
    } else {
        match pixels_of(texture.format, texture.elements[0].contents, texture.width, texture.height) {
            Err(error) => Err(error),
            Ok(pixels) => if encodable(texture.width, texture.height) {
                Ok(pixels)
            } else {
                Err(CodecError::EncodingFailed)
            },
        }
    }
}

impl WEBPFile {
    /// Encodes pixels as a WebP file, where a picture of this size can be
    /// one.
    pub fn encode(pixels: &[u8], width: u16, height: u16) -> (encoded: Option<Vec<u8>>)
        requires
            pixels@.len() >= 4 * width * height,
        ensures
            encoded is Some <==> encodable(width, height),
    {
        if width == 0 || width > MAX_DIMENSION || height == 0 || height > MAX_DIMENSION {
            return None;
        }
        Some(encode_lossless(pixels, width as u32, height as u32))
    }

    /// Writes the WebP file of `texture` at the cursor, or nothing where
    /// there is no such file or it does not fit.
    pub fn serialize(output: &mut ByteCursor, texture: &Texture) -> (r: Result<(), CodecError>)
        ensures
            match webp_pixels(texture@) {
                Ok(_) => exists|bytes: Seq<u8>|
                    #[trigger] final(output).written_from(old(output), bytes, r),
                Err(error) => r == Err::<(), CodecError>(error) && *final(output) == *old(output),
            },
    {
        let bytes = WEBPFile::serialize_to_bytes(texture)?;
        let r = output.write_bytes(bytes.as_slice());
        assert(output.written_from(old(output), bytes@, r));
        r
    }

    /// The WebP file of `texture` as bytes.
    pub fn serialize_to_bytes(texture: &Texture) -> (r: Result<Vec<u8>, CodecError>)
        ensures
            match r {
                Ok(_) => webp_pixels(texture@) is Ok,
                Err(error) => webp_pixels(texture@) == Err::<Seq<u8>, CodecError>(error),
            },
    {
        if texture.elements.len() == 0 {
            return Err(CodecError::NoPixelData);
        }
        let pixels = decode_pixels(
            texture.format,
            texture.elements[0].contents.as_slice(),
            texture.width,
            texture.height,
        )?;
        finish_image(WEBPFile::encode(pixels.as_slice(), texture.width, texture.height))
    }
}

} // verus!
