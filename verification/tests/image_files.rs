use avalanche_formats::file_formats::texture::Texture;
use avalanche_formats::file_formats::texture::TextureElement;
use avalanche_formats::file_formats::texture_file::Element;
use avalanche_formats::file_formats::texture_file::TextureFile;
use avalanche_formats::file_formats::texture_serializers::block_decoder::decode_pixels;
use avalanche_formats::file_formats::texture_serializers::block_decoder::finish_image;
use avalanche_formats::file_formats::texture_serializers::block_decoder::get_block_format;
use avalanche_formats::file_formats::texture_serializers::block_decoder::get_compressed_size;
use avalanche_formats::file_formats::texture_serializers::block_decoder::BlockFormat;
use avalanche_formats::file_formats::texture_serializers::png_file::PNGFile;
use avalanche_formats::file_formats::texture_serializers::texture_serializer::TextureSerializerExt;
use avalanche_formats::file_formats::texture_serializers::webp_file::WEBPFile;
use avalanche_formats::helpers::byte::ByteCursor;
use avalanche_formats::helpers::error::CodecError;

// One BC1 block: the colours pure red and pure blue, every pixel the first.
const RED_BLOCK: [u8; 8] = [0x00, 0xF8, 0x1F, 0x00, 0, 0, 0, 0];

fn red_pixels(count: usize) -> Vec<u8> {
    let mut pixels = Vec::new();
    for _ in 0..count {
        pixels.extend_from_slice(&[255, 0, 0, 255]);
    }
    pixels
}

fn texture_file(format: u32, width: u16, height: u16, contents: Vec<u8>) -> TextureFile {
    TextureFile {
        le: true,
        unknown_06: 0,
        dimension: 2,
        format,
        width,
        height,
        depth: 1,
        flags: 0,
        mip_count: 1,
        header_mip_count: 1,
        unknown_1c: 0,
        elements: vec![Element {
            offset: 128,
            size: contents.len() as u32,
            unknown_8: 0,
            unknown_a: 0,
            is_external: false,
            contents,
        }],
    }
}

fn texture(format: u32, width: u16, height: u16, contents: Vec<u8>) -> Texture {
    Texture {
        le: true,
        unknown_06: 0,
        dimension: 2,
        format,
        width,
        height,
        depth: 1,
        flags: 0,
        mip_count: 1,
        header_mip_count: 1,
        unknown_1c: 0,
        elements: vec![TextureElement {
            offset: 128,
            size: contents.len() as u32,
            unknown_8: 0,
            unknown_a: 0,
            is_external: false,
            contents,
        }],
    }
}

fn decode_png(bytes: &[u8]) -> (u32, u32, Vec<u8>) {
    let decoder = png::Decoder::new(std::io::Cursor::new(bytes.to_vec()));
    let mut reader = decoder.read_info().unwrap();
    let (width, height) = reader.info().size();
    assert_eq!(reader.info().color_type, png::ColorType::Rgba);
    assert_eq!(reader.info().bit_depth, png::BitDepth::Eight);
    let mut pixels = vec![0u8; 4 * width as usize * height as usize];
    reader.next_frame(&mut pixels).unwrap();
    (width, height, pixels)
}

#[test]
fn format_ids_stand_for_block_compressions() {
    assert_eq!(get_block_format(71), Ok(BlockFormat::Bc1));
    assert_eq!(get_block_format(74), Ok(BlockFormat::Bc2));
    assert_eq!(get_block_format(77), Ok(BlockFormat::Bc3));
    assert_eq!(get_block_format(80), Ok(BlockFormat::Bc4));
    assert_eq!(get_block_format(83), Ok(BlockFormat::Bc5));
    for id in [0, 61, 70, 72, 87, 98, u32::MAX] {
        assert_eq!(get_block_format(id), Err(CodecError::UnsupportedFormat));
    }
}

#[test]
fn a_compressed_picture_is_padded_to_whole_blocks() {
    assert_eq!(get_compressed_size(BlockFormat::Bc1, 16, 32), 256);
    assert_eq!(get_compressed_size(BlockFormat::Bc1, 15, 32), 256);
    assert_eq!(get_compressed_size(BlockFormat::Bc2, 16, 32), 512);
    assert_eq!(get_compressed_size(BlockFormat::Bc3, 15, 32), 512);
    assert_eq!(get_compressed_size(BlockFormat::Bc4, 16, 32), 256);
    assert_eq!(get_compressed_size(BlockFormat::Bc5, 15, 32), 512);
    assert_eq!(get_compressed_size(BlockFormat::Bc1, 1, 1), 8);
    assert_eq!(get_compressed_size(BlockFormat::Bc1, 0, 7), 0);
    assert_eq!(get_compressed_size(BlockFormat::Bc5, 0xFFFF, 0xFFFF), 16384 * 16384 * 16);
}

#[test]
fn a_block_decodes_to_sixteen_pixels() {
    assert_eq!(decode_pixels(71, &RED_BLOCK, 4, 4), Ok(red_pixels(16)));
}

#[test]
fn a_picture_smaller_than_a_block_takes_its_corner() {
    assert_eq!(decode_pixels(71, &RED_BLOCK, 3, 2), Ok(red_pixels(6)));
    assert_eq!(decode_pixels(71, &RED_BLOCK, 1, 1), Ok(red_pixels(1)));
}

#[test]
fn blocks_are_laid_out_row_by_row() {
    // two blocks side by side: red, then blue
    let mut data = RED_BLOCK.to_vec();
    data.extend_from_slice(&[0x1F, 0x00, 0x00, 0x00, 0, 0, 0, 0]);
    let pixels = decode_pixels(71, &data, 8, 1).unwrap();
    let mut expected = red_pixels(4);
    for _ in 0..4 {
        expected.extend_from_slice(&[0, 0, 255, 255]);
    }
    assert_eq!(pixels, expected);
}

#[test]
fn a_picture_without_width_or_height_has_no_pixels() {
    assert_eq!(decode_pixels(71, &[], 0, 4), Ok(vec![]));
    assert_eq!(decode_pixels(71, &[], 4, 0), Ok(vec![]));
    assert_eq!(decode_pixels(71, &[], 0, 0), Ok(vec![]));
}

#[test]
fn too_little_data_gives_no_pixels() {
    assert_eq!(decode_pixels(71, &RED_BLOCK[..7], 4, 4), Err(CodecError::NoPixelData));
    assert_eq!(decode_pixels(71, &RED_BLOCK, 5, 4), Err(CodecError::NoPixelData));
    assert_eq!(decode_pixels(74, &RED_BLOCK, 4, 4), Err(CodecError::NoPixelData));
}

#[test]
fn a_format_that_is_not_block_compressed_gives_no_pixels() {
    assert_eq!(decode_pixels(87, &[0; 64], 4, 4), Err(CodecError::UnsupportedFormat));
}

#[test]
fn an_image_is_what_the_encoder_gave() {
    assert_eq!(finish_image(Some(vec![1, 2, 3])), Ok(vec![1, 2, 3]));
    assert_eq!(finish_image(Some(vec![])), Ok(vec![]));
    assert_eq!(finish_image(None), Err(CodecError::EncodingFailed));
}

#[test]
fn a_png_file_holds_the_decoded_pixels() {
    let file = PNGFile::serialize_to_bytes(&texture_file(71, 4, 4, RED_BLOCK.to_vec())).unwrap();
    assert_eq!(&file[..8], &[137, 80, 78, 71, 13, 10, 26, 10]);
    assert_eq!(decode_png(&file), (4, 4, red_pixels(16)));
}

#[test]
fn a_png_file_of_a_picture_that_is_no_whole_block() {
    let file = PNGFile::serialize_to_bytes(&texture_file(71, 3, 2, RED_BLOCK.to_vec())).unwrap();
    assert_eq!(decode_png(&file), (3, 2, red_pixels(6)));
}

#[test]
fn a_png_file_is_written_at_the_cursor() {
    let texture = texture_file(71, 4, 4, RED_BLOCK.to_vec());
    let file = PNGFile::serialize_to_bytes(&texture).unwrap();
    let mut output = ByteCursor::new(vec![0xEE; 2]);
    output.seek(2);
    assert_eq!(PNGFile::serialize(&mut output, &texture), Ok(()));
    assert_eq!(output.stream_position(), 2 + file.len() as u64);
    let bytes = output.into_inner();
    assert_eq!(&bytes[..2], &[0xEE, 0xEE]);
    assert_eq!(&bytes[2..], &file[..]);
}

#[test]
fn a_png_file_is_the_same_each_time() {
    let texture = texture_file(71, 4, 4, RED_BLOCK.to_vec());
    assert_eq!(PNGFile::serialize_to_bytes(&texture), PNGFile::serialize_to_bytes(&texture));
}

#[test]
fn an_empty_picture_has_no_png_file() {
    assert_eq!(
        PNGFile::serialize_to_bytes(&texture_file(71, 0, 4, vec![])),
        Err(CodecError::EncodingFailed)
    );
    assert_eq!(
        PNGFile::serialize_to_bytes(&texture_file(71, 4, 0, vec![])),
        Err(CodecError::EncodingFailed)
    );
}

#[test]
fn a_texture_that_cannot_be_decoded_has_no_png_file() {
    let mut output = ByteCursor::new(vec![1, 2, 3]);
    assert_eq!(
        PNGFile::serialize(&mut output, &texture_file(87, 4, 4, vec![0; 64])),
        Err(CodecError::UnsupportedFormat)
    );
    assert_eq!(
        PNGFile::serialize(&mut output, &texture_file(71, 4, 4, vec![0; 7])),
        Err(CodecError::NoPixelData)
    );
    let mut empty = texture_file(71, 4, 4, vec![]);
    empty.elements.clear();
    assert_eq!(PNGFile::serialize(&mut output, &empty), Err(CodecError::NoPixelData));
    assert_eq!(output.stream_position(), 0);
    assert_eq!(output.into_inner(), vec![1, 2, 3]);
}

#[test]
fn a_webp_file_holds_the_decoded_pixels() {
    let file = WEBPFile::serialize_to_bytes(&texture(71, 4, 4, RED_BLOCK.to_vec())).unwrap();
    assert_eq!(&file[..4], b"RIFF");
    assert_eq!(&file[8..12], b"WEBP");
    let image = webp::Decoder::new(&file).decode().unwrap();
    assert_eq!(image.width(), 4);
    assert_eq!(image.height(), 4);
    let step = if image.is_alpha() { 4 } else { 3 };
    assert_eq!(image.len(), 16 * step);
    for pixel in image.chunks(step) {
        assert_eq!(&pixel[..3], &[255, 0, 0]);
    }
}

#[test]
fn pixels_are_encoded_as_a_webp_file() {
    let encoded = WEBPFile::encode(&red_pixels(6), 3, 2).unwrap();
    let image = webp::Decoder::new(&encoded).decode().unwrap();
    assert_eq!(image.width(), 3);
    assert_eq!(image.height(), 2);
}

#[test]
fn a_webp_file_is_written_at_the_cursor() {
    let texture = texture(71, 4, 4, RED_BLOCK.to_vec());
    let file = WEBPFile::serialize_to_bytes(&texture).unwrap();
    let mut output = ByteCursor::new(Vec::new());
    assert_eq!(WEBPFile::serialize(&mut output, &texture), Ok(()));
    assert_eq!(output.stream_position(), file.len() as u64);
    assert_eq!(output.into_inner(), file);
}

#[test]
fn a_picture_of_no_size_or_too_large_has_no_webp_file() {
    assert_eq!(WEBPFile::encode(&[], 0, 4), None);
    assert_eq!(WEBPFile::encode(&[], 4, 0), None);
    assert_eq!(
        WEBPFile::serialize_to_bytes(&texture(71, 0, 4, vec![])),
        Err(CodecError::EncodingFailed)
    );
    assert_eq!(
        WEBPFile::serialize_to_bytes(&texture(71, 4, 0, vec![])),
        Err(CodecError::EncodingFailed)
    );
    assert_eq!(
        WEBPFile::serialize_to_bytes(&texture(71, 16384, 1, vec![0; 4096 * 8])),
        Err(CodecError::EncodingFailed)
    );
}

#[test]
fn a_texture_that_cannot_be_decoded_has_no_webp_file() {
    let mut output = ByteCursor::new(vec![1, 2, 3]);
    assert_eq!(
        WEBPFile::serialize(&mut output, &texture(98, 4, 4, vec![0; 64])),
        Err(CodecError::UnsupportedFormat)
    );
    assert_eq!(
        WEBPFile::serialize(&mut output, &texture(83, 4, 4, vec![0; 15])),
        Err(CodecError::NoPixelData)
    );
    let mut empty = texture(71, 4, 4, vec![]);
    empty.elements.clear();
    assert_eq!(WEBPFile::serialize(&mut output, &empty), Err(CodecError::NoPixelData));
    assert_eq!(output.into_inner(), vec![1, 2, 3]);
}
