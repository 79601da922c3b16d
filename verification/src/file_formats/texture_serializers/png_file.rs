//! The PNG writer: the texture's pixels, decoded, as an eight-bit RGBA
//! picture.

use vstd::prelude::*;

use crate::file_formats::texture::TextureView;
use crate::file_formats::texture_file::TextureFile;
use crate::file_formats::texture_serializers::block_decoder::decode_pixels;
use crate::file_formats::texture_serializers::block_decoder::image_of;
use crate::file_formats::texture_serializers::block_decoder::pixels_of;
use crate::file_formats::texture_serializers::block_decoder::finish_image;
use crate::file_formats::texture_serializers::texture_serializer::TextureSerializerExt;
use crate::helpers::byte::ByteCursor;
use crate::helpers::byte::ByteWriterExt;
use crate::helpers::error::CodecError;

verus! {

/// The PNG writer.
pub struct PNGFile {}

/// `png::EncodingError`, with which the encoder refuses a picture. Nothing
/// is known of what it holds.
#[verifier::external_type_specification]
#[verifier::external_body]
pub struct ExEncodingError(png::EncodingError);

/// The PNG file that the `png` crate's encoder makes of an eight-bit RGBA
/// picture, or `None` where it refuses the picture.
pub uninterp spec fn png_encoded(pixels: Seq<u8>, width: u32, height: u32) -> Option<Seq<u8>>;

/// Runs `png::Encoder` with colour type RGBA and bit depth eight:
/// `write_header`, then `Writer::write_image_data` with all the pixels,
/// then `Writer::finish`. The encoder is taken to be a function of the
/// pixels and the size of the picture. It is called with four bytes for
/// each pixel, and for no picture wider or higher than a texture can be:
/// it reckons the size of the picture without a check.
#[verifier::external_body]
fn encode_rgba(pixels: &[u8], width: u32, height: u32) -> (r: Result<Vec<u8>, png::EncodingError>)
    requires
        width <= 0xFFFF,
        height <= 0xFFFF,
        pixels@.len() == 4 * width * height,
    ensures
        match r {
            Ok(encoded) => png_encoded(pixels@, width, height) == Some(encoded@),
            Err(_) => png_encoded(pixels@, width, height) is None,
        },
{
    let mut encoded: Vec<u8> = Vec::new();
    let mut encoder = png::Encoder::new(&mut encoded, width, height);
    encoder.set_color(png::ColorType::Rgba);
    encoder.set_depth(png::BitDepth::Eight);
    let mut writer = encoder.write_header()?;
    writer.write_image_data(pixels)?;
    writer.finish()?;
    Ok(encoded)
}

/// The PNG file of `texture`: its pixels, taken from the first element,
/// encoded. There is none for a texture without elements.
pub open spec fn png_file(texture: TextureView) -> Result<Seq<u8>, CodecError> {
    if texture.elements.len() == 0 {
        Err(CodecError::NoPixelData)
    } else {
        match pixels_of(texture.format, texture.elements[0].contents, texture.width, texture.height) {
            Err(error) => Err(error),
            Ok(pixels) => image_of(png_encoded(pixels, texture.width as u32, texture.height as u32)),
        }
    }
}

impl TextureSerializerExt for PNGFile {
    /// Writes the PNG file of `texture` at the cursor, or nothing where
    /// there is no such file or it does not fit.
    fn serialize(output: &mut ByteCursor, texture: &TextureFile) -> (r: Result<(), CodecError>)
        ensures
            match png_file(texture@) {
                Ok(bytes) => final(output).written_from(old(output), bytes, r),
                Err(error) => r == Err::<(), CodecError>(error) && *final(output) == *old(output),
            },
    {
        let bytes = PNGFile::serialize_to_bytes(texture)?;
        output.write_bytes(bytes.as_slice())
    }

    fn serialize_to_bytes(texture: &TextureFile) -> (r: Result<Vec<u8>, CodecError>)
        ensures
            match r {
                Ok(bytes) => png_file(texture@) == Ok::<Seq<u8>, CodecError>(bytes@),
                Err(error) => png_file(texture@) == Err::<Seq<u8>, CodecError>(error),
            },
    {
        if texture.elements.len() == 0 {
            return Err(CodecError::NoPixelData);
        }
        let pixels = decode_pixels(
            texture.format,
            texture.elements[0].contents.as_slice(),
            texture.width,
            texture.height,
        )?;
        let encoded = match encode_rgba(
            pixels.as_slice(),
            texture.width as u32,
            texture.height as u32,
        ) {
            Ok(encoded) => Some(encoded),
            Err(_) => None,
        };
        finish_image(encoded)
    }
}

} // verus!
