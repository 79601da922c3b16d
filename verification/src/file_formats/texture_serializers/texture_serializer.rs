//! What every image writer offers.

use vstd::prelude::*;

use crate::file_formats::texture_file::TextureFile;
use crate::helpers::byte::ByteCursor;
use crate::helpers::error::CodecError;

verus! {

/// An image format that a texture can be written in. The picture is taken
/// from the first element of the texture.
pub trait TextureSerializerExt {
    /// Writes the image at the cursor.
    fn serialize(output: &mut ByteCursor, texture: &TextureFile) -> Result<(), CodecError>;

    /// The image as bytes.
    fn serialize_to_bytes(texture: &TextureFile) -> Result<Vec<u8>, CodecError>;
}

} // verus!
