use avalanche_formats::helpers::byte::ByteCursor;
use avalanche_formats::helpers::byte::ByteReaderExt;
use avalanche_formats::helpers::byte::ByteWriterExt;
use avalanche_formats::helpers::byte::StreamLengthExt;
use avalanche_formats::helpers::error::to_io_error;
use avalanche_formats::helpers::error::CodecError;

#[test]
fn read_u8_takes_one_byte() {
    let mut input = ByteCursor::new(vec![0xAB, 0xCD]);
    assert_eq!(input.read_u8(), Ok(0xAB));
    assert_eq!(input.stream_position(), 1);
    assert_eq!(input.read_u8(), Ok(0xCD));
    assert_eq!(input.read_u8(), Err(CodecError::ShortRead));
}

#[test]
fn read_u16_in_both_byte_orders() {
    let mut input = ByteCursor::new(vec![0x34, 0x12, 0x34, 0x12]);
    assert_eq!(input.read_u16(true), Ok(0x1234));
    assert_eq!(input.read_u16(false), Ok(0x3412));
    assert_eq!(input.stream_position(), 4);
}

#[test]
fn read_u32_in_both_byte_orders() {
    let mut input = ByteCursor::new(vec![0x78, 0x56, 0x34, 0x12, 0x78, 0x56, 0x34, 0x12]);
    assert_eq!(input.read_u32(true), Ok(0x1234_5678));
    assert_eq!(input.read_u32(false), Ok(0x7856_3412));
    assert_eq!(input.stream_position(), 8);
}

#[test]
fn read_u32_of_all_ones() {
    let mut input = ByteCursor::new(vec![0xFF, 0xFF, 0xFF, 0xFF]);
    assert_eq!(input.read_u32(true), Ok(u32::MAX));
}

#[test]
fn read_b8_is_true_for_any_value_but_zero() {
    let mut input = ByteCursor::new(vec![0, 1, 2, 0xFF]);
    assert_eq!(input.read_b8(), Ok(false));
    assert_eq!(input.read_b8(), Ok(true));
    assert_eq!(input.read_b8(), Ok(true));
    assert_eq!(input.read_b8(), Ok(true));
    assert_eq!(input.read_b8(), Err(CodecError::ShortRead));
}

#[test]
fn signed_reads_are_twos_complement() {
    let mut input = ByteCursor::new(vec![0xFF, 0x7F, 0x80]);
    assert_eq!(input.read_s8(), Ok(-1));
    assert_eq!(input.read_s8(), Ok(127));
    assert_eq!(input.read_s8(), Ok(-128));

    let mut input = ByteCursor::new(vec![0xFE, 0xFF, 0xFF, 0xFE, 0x00, 0x80]);
    assert_eq!(input.read_s16(true), Ok(-2));
    assert_eq!(input.read_s16(false), Ok(-2));
    assert_eq!(input.read_s16(true), Ok(i16::MIN));

    let mut input = ByteCursor::new(vec![0xFD, 0xFF, 0xFF, 0xFF, 0x80, 0, 0, 0, 0x01, 0, 0, 0]);
    assert_eq!(input.read_s32(true), Ok(-3));
    assert_eq!(input.read_s32(false), Ok(i32::MIN));
    assert_eq!(input.read_s32(true), Ok(1));
}

#[test]
fn read_bytes_is_exact_or_fails() {
    let mut input = ByteCursor::new(vec![1, 2, 3, 4, 5]);
    assert_eq!(input.read_bytes(3), Ok(vec![1, 2, 3]));
    assert_eq!(input.stream_position(), 3);
    assert_eq!(input.read_bytes(3), Err(CodecError::ShortRead));
    // the failed read has used up what was left
    assert_eq!(input.stream_position(), 5);
    assert_eq!(input.read_bytes(0), Ok(vec![]));
}

#[test]
fn short_scalar_reads_fail() {
    let mut input = ByteCursor::new(vec![1]);
    assert_eq!(input.read_u16(true), Err(CodecError::ShortRead));
    let mut input = ByteCursor::new(vec![1, 2, 3]);
    assert_eq!(input.read_u32(false), Err(CodecError::ShortRead));
    let mut input = ByteCursor::new(vec![1, 2, 3]);
    assert_eq!(input.read_s32(false), Err(CodecError::ShortRead));
    let mut input = ByteCursor::new(vec![]);
    assert_eq!(input.read_s8(), Err(CodecError::ShortRead));
    assert_eq!(input.read_s16(true), Err(CodecError::ShortRead));
}

#[test]
fn read_gives_what_is_left() {
    let mut input = ByteCursor::new(vec![1, 2, 3, 4, 5]);
    input.seek(3);
    assert_eq!(input.read(10), vec![4, 5]);
    assert_eq!(input.stream_position(), 5);
    assert_eq!(input.read(10), Vec::<u8>::new());
    input.seek(100);
    assert_eq!(input.read(1), Vec::<u8>::new());
    assert_eq!(input.stream_position(), 100);
}

#[test]
fn stream_length_leaves_the_cursor() {
    let mut input = ByteCursor::new(vec![9; 17]);
    input.seek(5);
    assert_eq!(input.stream_length(), Ok(17));
    assert_eq!(input.stream_position(), 5);
}

#[test]
fn signature_in_file_order_is_little_endian() {
    let mut input = ByteCursor::new(b"TAB\0rest".to_vec());
    assert_eq!(input.validate_signature(b"TAB\0"), Ok(true));
    assert_eq!(input.stream_position(), 4);
}

#[test]
fn signature_reversed_is_big_endian() {
    let mut input = ByteCursor::new(b"\0BATrest".to_vec());
    assert_eq!(input.validate_signature(b"TAB\0"), Ok(false));
    assert_eq!(input.stream_position(), 4);
}

#[test]
fn signature_of_other_bytes_is_a_mismatch() {
    let mut input = ByteCursor::new(b"TBA\0rest".to_vec());
    assert_eq!(input.validate_signature(b"TAB\0"), Err(CodecError::SignatureMismatch));
    assert_eq!(input.stream_position(), 4);
}

#[test]
fn signature_cut_short_is_a_short_read() {
    let mut input = ByteCursor::new(b"TA".to_vec());
    assert_eq!(input.validate_signature(b"TAB\0"), Err(CodecError::ShortRead));
}

#[test]
fn palindromic_signature_reads_as_little_endian() {
    let mut input = ByteCursor::new(vec![1, 2, 2, 1]);
    assert_eq!(input.validate_signature(&[1, 2, 2, 1]), Ok(true));
}

#[test]
fn writes_in_both_byte_orders() {
    let mut output = ByteCursor::new(Vec::new());
    assert_eq!(output.write_u8(0xAB), Ok(()));
    assert_eq!(output.write_u16(0x1234, true), Ok(()));
    assert_eq!(output.write_u16(0x1234, false), Ok(()));
    assert_eq!(output.write_u32(0x1234_5678, true), Ok(()));
    assert_eq!(output.write_u32(0x1234_5678, false), Ok(()));
    assert_eq!(output.write_b8(true), Ok(()));
    assert_eq!(output.write_b8(false), Ok(()));
    assert_eq!(output.stream_position(), 15);
    assert_eq!(
        output.into_inner(),
        vec![0xAB, 0x34, 0x12, 0x12, 0x34, 0x78, 0x56, 0x34, 0x12, 0x12, 0x34, 0x56, 0x78, 1, 0]
    );
}

#[test]
fn signed_writes_are_twos_complement() {
    let mut output = ByteCursor::new(Vec::new());
    assert_eq!(output.write_s8(-1), Ok(()));
    assert_eq!(output.write_s16(-2, true), Ok(()));
    assert_eq!(output.write_s16(i16::MIN, false), Ok(()));
    assert_eq!(output.write_s32(-3, true), Ok(()));
    assert_eq!(output.write_s32(i32::MIN, false), Ok(()));
    assert_eq!(
        output.into_inner(),
        vec![0xFF, 0xFE, 0xFF, 0x80, 0x00, 0xFD, 0xFF, 0xFF, 0xFF, 0x80, 0, 0, 0]
    );
}

#[test]
fn what_is_written_reads_back() {
    let mut stream = ByteCursor::new(Vec::new());
    stream.write_u32(0xDEAD_BEEF, false).unwrap();
    stream.write_s16(-12345, true).unwrap();
    stream.write_s32(-7, false).unwrap();
    stream.seek(0);
    assert_eq!(stream.read_u32(false), Ok(0xDEAD_BEEF));
    assert_eq!(stream.read_s16(true), Ok(-12345));
    assert_eq!(stream.read_s32(false), Ok(-7));
}

#[test]
fn write_replaces_and_lengthens() {
    let mut output = ByteCursor::new(vec![1, 2, 3, 4]);
    output.seek(2);
    assert_eq!(output.write_bytes(&[9, 8, 7]), Ok(()));
    assert_eq!(output.stream_position(), 5);
    assert_eq!(output.into_inner(), vec![1, 2, 9, 8, 7]);
}

#[test]
fn write_past_the_end_fills_the_gap_with_zeros() {
    let mut output = ByteCursor::new(vec![1, 2]);
    output.seek(5);
    assert_eq!(output.write(&[7, 7]), Ok(2));
    assert_eq!(output.into_inner(), vec![1, 2, 0, 0, 0, 7, 7]);
}

#[test]
fn write_inside_keeps_the_rest() {
    let mut output = ByteCursor::new(vec![1, 2, 3, 4, 5]);
    output.seek(1);
    assert_eq!(output.write(&[9]), Ok(1));
    assert_eq!(output.stream_position(), 2);
    assert_eq!(output.into_inner(), vec![1, 9, 3, 4, 5]);
}

#[test]
fn write_beyond_what_can_be_addressed_fails() {
    let mut output = ByteCursor::new(vec![1, 2]);
    output.seek(u64::MAX);
    assert_eq!(output.write(&[7]), Err(CodecError::SizeOverflow));
    assert_eq!(output.write_u32(1, true), Err(CodecError::SizeOverflow));
    assert_eq!(output.stream_position(), u64::MAX);
    assert_eq!(output.into_inner(), vec![1, 2]);
}

#[test]
fn a_failed_conversion_is_a_size_overflow() {
    let error = u8::try_from(300u32).unwrap_err();
    assert_eq!(to_io_error(error), CodecError::SizeOverflow);
}

#[test]
fn read_string_takes_utf8_bytes() {
    let mut input = ByteCursor::new("caf\u{e9} au lait".as_bytes().to_vec());
    assert_eq!(input.read_string(5), Ok("caf\u{e9}".to_string()));
    assert_eq!(input.stream_position(), 5);
    assert_eq!(input.read_string(0), Ok(String::new()));
    assert_eq!(input.read_string(8), Ok(" au lait".to_string()));
}

#[test]
fn read_string_refuses_what_is_not_utf8() {
    let mut input = ByteCursor::new(vec![b'a', 0xFF, b'b']);
    assert_eq!(input.read_string(3), Err(CodecError::InvalidText));
    assert_eq!(input.stream_position(), 3);
    // half of a two-byte character
    let mut input = ByteCursor::new(vec![b'a', 0xC3, 0xA9]);
    assert_eq!(input.read_string(2), Err(CodecError::InvalidText));
}

#[test]
fn read_string_cut_short_is_a_short_read() {
    let mut input = ByteCursor::new(b"abc".to_vec());
    assert_eq!(input.read_string(4), Err(CodecError::ShortRead));
    assert_eq!(input.stream_position(), 3);
}
