//! From the block-compressed payload of a texture to plain pixels, four
//! bytes each, which is what the PNG and WebP writers encode.

use vstd::prelude::*;

use crate::helpers::error::CodecError;

verus! {

/// The block compressions that can be decoded.
#[derive(Debug, Clone, Copy, PartialEq, Eq, Structural)]
pub enum BlockFormat {
    Bc1,
    Bc2,
    Bc3,
    Bc4,
    Bc5,
}

/// The block compression that a texture's format id stands for, if it is
/// one of the five.
pub open spec fn block_format_for(format: u32) -> Option<BlockFormat> {
    if format == 71 {
        Some(BlockFormat::Bc1)
    } else if format == 74 {
        Some(BlockFormat::Bc2)
    } else if format == 77 {
        Some(BlockFormat::Bc3)
    } else if format == 80 {
        Some(BlockFormat::Bc4)
    } else if format == 83 {
        Some(BlockFormat::Bc5)
    } else {
        None
    }
}

/// The bytes of one block of four by four pixels.
pub open spec fn block_size(format: BlockFormat) -> int {
    match format {
        BlockFormat::Bc1 => 8,
        BlockFormat::Bc2 => 16,
        BlockFormat::Bc3 => 16,
        BlockFormat::Bc4 => 8,
        BlockFormat::Bc5 => 16,
    }
}

/// The bytes of a compressed picture: one block for every four by four
/// pixels, the picture padded to whole blocks.
pub open spec fn compressed_size(format: BlockFormat, width: int, height: int) -> int {
    ((width + 3) / 4) * ((height + 3) / 4) * block_size(format)
}

/// The pixels that `texpresso` decodes from `data` for a picture of the
/// given size, row by row, four bytes a pixel.
pub uninterp spec fn block_decoded(format: BlockFormat, data: Seq<u8>, width: nat, height: nat) -> Seq<
    u8,
>;

/// The pixels of a texture: none for a picture without width, the decoded
/// blocks otherwise. There are none to be had where the format is not
/// block-compressed, where the payload is too short for the picture, or
/// where the pixels would not fit in memory.
pub open spec fn pixels_of(format: u32, contents: Seq<u8>, width: u16, height: u16) -> Result<
    Seq<u8>,
    CodecError,
> {
    match block_format_for(format) {
        None => Err(CodecError::UnsupportedFormat),
        Some(block_format) => if 4 * width * height > usize::MAX {
            Err(CodecError::SizeOverflow)
        } else if width == 0 {
            Ok(Seq::empty())
        } else if contents.len() < compressed_size(block_format, width as int, height as int) {
            Err(CodecError::NoPixelData)
        } else {
            Ok(block_decoded(block_format, contents, width as nat, height as nat))
        },
    }
}

/// The image that an encoder's outcome makes: the bytes it gave, or an
/// error where it gave none.
pub open spec fn image_of(encoded: Option<Seq<u8>>) -> Result<Seq<u8>, CodecError> {
    match encoded {
        Some(bytes) => Ok(bytes),
        None => Err(CodecError::EncodingFailed),
    }
}

/// Calls `texpresso::Format::decompress` on a zeroed buffer of four bytes
/// for each pixel. The call is taken to be a function of the format, the
/// data and the size of the picture, and to fill the whole buffer. It is
/// not made for a picture without width or for less data than the blocks of
/// the picture take, on which the decoder panics.
#[verifier::external_body]
fn decompress_into(
    format: BlockFormat,
    data: &[u8],
    width: usize,
    height: usize,
    pixels: &mut Vec<u8>,
)
    requires
        0 < width <= 0xFFFF,
        height <= 0xFFFF,
        data@.len() >= compressed_size(format, width as int, height as int),
        old(pixels)@.len() == 4 * width * height,
        forall|i: int| 0 <= i < old(pixels)@.len() ==> old(pixels)@[i] == 0,
    ensures
        final(pixels)@ == block_decoded(format, data@, width as nat, height as nat),
        final(pixels)@.len() == 4 * width * height,
{
    let decoder = match format {
        BlockFormat::Bc1 => texpresso::Format::Bc1,
        BlockFormat::Bc2 => texpresso::Format::Bc2,
        BlockFormat::Bc3 => texpresso::Format::Bc3,
        BlockFormat::Bc4 => texpresso::Format::Bc4,
        BlockFormat::Bc5 => texpresso::Format::Bc5,
    };
    decoder.decompress(data, width, height, pixels.as_mut_slice());
}

/// The block compression that a texture's format id stands for.
pub fn get_block_format(format: u32) -> (r: Result<BlockFormat, CodecError>)
    ensures
        match r {
            Ok(block_format) => block_format_for(format) == Some(block_format),
            Err(error) => block_format_for(format) is None && error
                == CodecError::UnsupportedFormat,
        },
{
    if format == 71 {
        Ok(BlockFormat::Bc1)
    } else if format == 74 {
        Ok(BlockFormat::Bc2)
    } else if format == 77 {
        Ok(BlockFormat::Bc3)
    } else if format == 80 {
        Ok(BlockFormat::Bc4)
    } else if format == 83 {
        Ok(BlockFormat::Bc5)
    } else {
        Err(CodecError::UnsupportedFormat)
    }
}

/// The bytes that a compressed picture of the given size takes.
pub fn get_compressed_size(format: BlockFormat, width: u16, height: u16) -> (size: u64)
    ensures
        size == compressed_size(format, width as int, height as int),
{
    let blocks_wide: u64 = (width as u64 + 3) / 4;
    let blocks_high: u64 = (height as u64 + 3) / 4;
    let block: u64 = match format {
        BlockFormat::Bc1 => 8,
        BlockFormat::Bc2 => 16,
        BlockFormat::Bc3 => 16,
        BlockFormat::Bc4 => 8,
        BlockFormat::Bc5 => 16,
    };
    assert(blocks_wide * blocks_high <= 0x4000 * 0x4000) by (nonlinear_arith)
        requires
            blocks_wide <= 0x4000,
            blocks_high <= 0x4000,
    ;
    blocks_wide * blocks_high * block
}

/// Decodes the pixels of a texture from the payload of its first element.
pub fn decode_pixels(format: u32, contents: &[u8], width: u16, height: u16) -> (r: Result<
    Vec<u8>,
    CodecError,
>)
    ensures
        match r {
            Ok(pixels) => pixels_of(format, contents@, width, height) == Ok::<Seq<u8>, CodecError>(
                pixels@,
            ) && pixels@.len() == 4 * width * height,
            Err(error) => pixels_of(format, contents@, width, height) == Err::<
                Seq<u8>,
                CodecError,
            >(error),
        },
{
    let block_format = get_block_format(format)?;
    assert(width * height <= 0xFFFF * 0xFFFF && 4 * width * height == 4 * (width * height))
        by (nonlinear_arith)
        requires
            width <= 0xFFFF,
            height <= 0xFFFF,
    ;
    let pixel_count: u64 = width as u64 * height as u64;
    if 4 * pixel_count > usize::MAX as u64 {
        return Err(CodecError::SizeOverflow);
    }
    let mut pixels: Vec<u8> = vec![0u8; (4 * pixel_count) as usize];
    if width == 0 {
        assert(pixels@ =~= Seq::empty());
        return Ok(pixels);
    }
    if (contents.len() as u64) < get_compressed_size(block_format, width, height) {
        return Err(CodecError::NoPixelData);
    }
    decompress_into(block_format, contents, width as usize, height as usize, &mut pixels);
    Ok(pixels)
}

/// Ends an image writer: the bytes that the encoder gave are the image,
/// and there is none where it gave none.
pub fn finish_image(encoded: Option<Vec<u8>>) -> (r: Result<Vec<u8>, CodecError>)
    ensures
        match r {
            Ok(bytes) => encoded matches Some(given) && bytes@ == given@,
            Err(error) => encoded is None && error == CodecError::EncodingFailed,
        },
{
    match encoded {
        Some(bytes) => Ok(bytes),
        None => Err(CodecError::EncodingFailed),
    }
}

} // verus!
