//! The DDS writer: a fixed header that names the pixel format, then the
//! payload of the texture's first element as it stands.

use vstd::prelude::*;

use crate::file_formats::texture::TextureView;
use crate::file_formats::texture_file::TextureFile;
use crate::file_formats::texture_serializers::texture_serializer::TextureSerializerExt;
use crate::helpers::byte::bytes_left;
use crate::helpers::byte::put_bytes;
use crate::helpers::byte::put_s32;
use crate::helpers::byte::put_u32;
use crate::helpers::byte::signed_32;
use crate::helpers::byte::u32_at;
use crate::helpers::byte::u32_bytes;
use crate::helpers::byte::unsigned_32;
use crate::helpers::byte::ByteCursor;
use crate::helpers::byte::ByteReaderExt;
use crate::helpers::byte::ByteWriterExt;
use crate::helpers::error::CodecError;
use crate::helpers::serializable::parsed;
use crate::helpers::serializable::short_read;
use crate::helpers::serializable::Parsed;
use crate::helpers::serializable::SerializablePartExt;

verus! {

/// The magic word of a DDS file, "DDS " when written little-endian.
pub const DDS_MAGIC: u32 = 0x2053_4444;

/// The bytes of a pixel format.
pub const PIXEL_FORMAT_SIZE: u32 = 32;

/// The bytes of a header, magic word not counted.
pub const HEADER_SIZE: u32 = 124;

/// Header flags of a texture with mip maps: caps, height, width and pixel
/// format, and the mip map count.
pub const HEADER_FLAGS: u32 = 0x0002_1007;

/// Surface flags: a texture.
pub const SURFACE_FLAGS: u32 = 8;

/// Pixel format flags: the format is named by a four-character code.
pub const FLAG_FOUR_CC: u32 = 0x0000_0004;

/// Pixel format flags: colour channels without alpha.
pub const FLAG_RGB: u32 = 0x0000_0040;

/// Pixel format flags: colour channels with alpha.
pub const FLAG_RGBA: u32 = 0x0000_0041;

/// The four-character codes "DXT1", "DXT3", "DXT5" and "DX10".
pub const FOUR_CC_DXT1: u32 = 0x3154_5844;

pub const FOUR_CC_DXT3: u32 = 0x3354_5844;

pub const FOUR_CC_DXT5: u32 = 0x3554_5844;

pub const FOUR_CC_DX10: u32 = 0x3031_5844;

/// The DDS writer.
pub struct DDSFile {}

/// The header of a DDS file.
pub struct DDSHeader {
    pub size: u32,
    pub flags: u32,
    pub height: i32,
    pub width: i32,
    pub pitch_or_linear_size: u32,
    pub depth: u32,
    pub mip_map_count: u32,
    pub reserved_1: [u8; 44],
    pub pixel_format: PixelFormat,
    pub surface_flags: u32,
    pub cubemap_flags: u32,
    pub reserved_2: [u8; 12],
}

/// What a `DDSHeader` holds.
pub struct DDSHeaderView {
    pub size: u32,
    pub flags: u32,
    pub height: i32,
    pub width: i32,
    pub pitch_or_linear_size: u32,
    pub depth: u32,
    pub mip_map_count: u32,
    pub reserved_1: Seq<u8>,
    pub pixel_format: PixelFormat,
    pub surface_flags: u32,
    pub cubemap_flags: u32,
    pub reserved_2: Seq<u8>,
}

/// How the pixels of a DDS file are laid out.
#[derive(Debug, Clone, Copy, PartialEq, Eq, Structural)]
pub struct PixelFormat {
    pub size: u32,
    pub flags: u32,
    pub four_cc: u32,
    pub rgb_bit_count: u32,
    pub red_bit_mask: u32,
    pub green_bit_mask: u32,
    pub blue_bit_mask: u32,
    pub alpha_bit_mask: u32,
}

/// The pixel layouts that have a name.
#[derive(Debug, Clone, Copy, PartialEq, Eq, Structural)]
pub enum FileFormat {
    DXT1,
    DXT3,
    DXT5,
    A8R8G8B8,
    X8R8G8B8,
    A8B8G8R8,
    X8B8G8R8,
    A1R5G5B5,
    A4R4G4B4,
    R8G8B8,
    R5G6B5,
    INVALID,
}

impl View for PixelFormat {
    type V = PixelFormat;

    open spec fn view(&self) -> PixelFormat {
        *self
    }
}

impl View for DDSHeader {
    type V = DDSHeaderView;

    open spec fn view(&self) -> DDSHeaderView {
        DDSHeaderView {
            size: self.size,
            flags: self.flags,
            height: self.height,
            width: self.width,
            pitch_or_linear_size: self.pitch_or_linear_size,
            depth: self.depth,
            mip_map_count: self.mip_map_count,
            reserved_1: self.reserved_1@,
            pixel_format: self.pixel_format,
            surface_flags: self.surface_flags,
            cubemap_flags: self.cubemap_flags,
            reserved_2: self.reserved_2@,
        }
    }
}

/// A block-compressed layout, named by its four-character code.
pub open spec fn coded(four_cc: u32) -> PixelFormat {
    PixelFormat {
        size: PIXEL_FORMAT_SIZE,
        flags: FLAG_FOUR_CC,
        four_cc,
        rgb_bit_count: 0,
        red_bit_mask: 0,
        green_bit_mask: 0,
        blue_bit_mask: 0,
        alpha_bit_mask: 0,
    }
}

/// A layout of plain colour channels, given by the bits of a pixel and the
/// mask of each channel. A layout with an alpha mask has alpha.
pub open spec fn masked(bits: u32, red: u32, green: u32, blue: u32, alpha: u32) -> PixelFormat {
    PixelFormat {
        size: PIXEL_FORMAT_SIZE,
        flags: if alpha == 0 {
            FLAG_RGB
        } else {
            FLAG_RGBA
        },
        four_cc: 0,
        rgb_bit_count: bits,
        red_bit_mask: red,
        green_bit_mask: green,
        blue_bit_mask: blue,
        alpha_bit_mask: alpha,
    }
}

/// The pixel format of each named layout; `INVALID` has none.
pub open spec fn pixel_format_of(file_format: FileFormat) -> Option<PixelFormat> {
    match file_format {
        FileFormat::DXT1 => Some(coded(FOUR_CC_DXT1)),
        FileFormat::DXT3 => Some(coded(FOUR_CC_DXT3)),
        FileFormat::DXT5 => Some(coded(FOUR_CC_DXT5)),
        FileFormat::A8R8G8B8 => Some(masked(32, 0x00FF_0000, 0x0000_FF00, 0x0000_00FF, 0xFF00_0000)),
        FileFormat::X8R8G8B8 => Some(masked(32, 0x00FF_0000, 0x0000_FF00, 0x0000_00FF, 0)),
        FileFormat::A8B8G8R8 => Some(masked(32, 0x0000_00FF, 0x0000_FF00, 0x00FF_0000, 0xFF00_0000)),
        FileFormat::X8B8G8R8 => Some(masked(32, 0x0000_00FF, 0x0000_FF00, 0x00FF_0000, 0)),
        FileFormat::A1R5G5B5 => Some(masked(16, 0x0000_7C00, 0x0000_03E0, 0x0000_001F, 0x0000_8000)),
        FileFormat::A4R4G4B4 => Some(masked(16, 0x0000_0F00, 0x0000_00F0, 0x0000_000F, 0x0000_F000)),
        FileFormat::R8G8B8 => Some(masked(24, 0x00FF_0000, 0x0000_FF00, 0x0000_00FF, 0)),
        FileFormat::R5G6B5 => Some(masked(16, 0x0000_F800, 0x0000_07E0, 0x0000_001F, 0)),
        FileFormat::INVALID => None,
    }
}

/// The pixel format that stands for a texture's format id: the DXT layouts
/// and plain BGRA by their names; single-channel, BC5 and BC7 data under
/// the code "DX10", with no flag set; none for any other id.
pub open spec fn pixel_format_for(format: u32) -> Option<PixelFormat> {
    if format == 71 {
        pixel_format_of(FileFormat::DXT1)
    } else if format == 74 {
        pixel_format_of(FileFormat::DXT3)
    } else if format == 77 {
        pixel_format_of(FileFormat::DXT5)
    } else if format == 87 {
        pixel_format_of(FileFormat::A8R8G8B8)
    } else if format == 61 || format == 83 || format == 98 {
        Some(
            PixelFormat {
                size: PIXEL_FORMAT_SIZE,
                flags: 0,
                four_cc: FOUR_CC_DX10,
                rgb_bit_count: 0,
                red_bit_mask: 0,
                green_bit_mask: 0,
                blue_bit_mask: 0,
                alpha_bit_mask: 0,
            },
        )
    } else {
        None
    }
}

/// The 32 bytes of a pixel format.
pub open spec fn pixel_format_bytes(format: PixelFormat, le: bool) -> Seq<u8> {
    u32_bytes(format.size, le) + u32_bytes(format.flags, le) + u32_bytes(format.four_cc, le)
        + u32_bytes(format.rgb_bit_count, le) + u32_bytes(format.red_bit_mask, le) + u32_bytes(
        format.green_bit_mask,
        le,
    ) + u32_bytes(format.blue_bit_mask, le) + u32_bytes(format.alpha_bit_mask, le)
}

/// The 124 bytes of a header whose reserved fields have their 44 and 12
/// bytes.
pub open spec fn header_bytes(header: DDSHeaderView, le: bool) -> Seq<u8> {
    u32_bytes(header.size, le) + u32_bytes(header.flags, le) + u32_bytes(
        unsigned_32(header.height),
        le,
    ) + u32_bytes(unsigned_32(header.width), le) + u32_bytes(header.pitch_or_linear_size, le)
        + u32_bytes(header.depth, le) + u32_bytes(header.mip_map_count, le) + header.reserved_1
        + pixel_format_bytes(header.pixel_format, le) + u32_bytes(header.surface_flags, le)
        + u32_bytes(header.cubemap_flags, le) + header.reserved_2
}

/// The pixel format that stands at `at`.
pub open spec fn parse_pixel_format(bytes: Seq<u8>, at: int, le: bool) -> Parsed<PixelFormat> {
    if bytes_left(bytes, at) < PIXEL_FORMAT_SIZE {
        short_read(bytes, at)
    } else {
        parsed(
            PixelFormat {
                size: u32_at(bytes, at, le),
                flags: u32_at(bytes, at + 4, le),
                four_cc: u32_at(bytes, at + 8, le),
                rgb_bit_count: u32_at(bytes, at + 12, le),
                red_bit_mask: u32_at(bytes, at + 16, le),
                green_bit_mask: u32_at(bytes, at + 20, le),
                blue_bit_mask: u32_at(bytes, at + 24, le),
                alpha_bit_mask: u32_at(bytes, at + 28, le),
            },
            at + PIXEL_FORMAT_SIZE,
        )
    }
}

/// The header that stands at `at`.
pub open spec fn parse_header(bytes: Seq<u8>, at: int, le: bool) -> Parsed<DDSHeaderView> {
    if bytes_left(bytes, at) < HEADER_SIZE {
        short_read(bytes, at)
    } else {
        parsed(
            DDSHeaderView {
                size: u32_at(bytes, at, le),
                flags: u32_at(bytes, at + 4, le),
                height: signed_32(u32_at(bytes, at + 8, le)),
                width: signed_32(u32_at(bytes, at + 12, le)),
                pitch_or_linear_size: u32_at(bytes, at + 16, le),
                depth: u32_at(bytes, at + 20, le),
                mip_map_count: u32_at(bytes, at + 24, le),
                reserved_1: bytes.subrange(at + 28, at + 72),
                pixel_format: parse_pixel_format(bytes, at + 72, le).result->Ok_0,
                surface_flags: u32_at(bytes, at + 104, le),
                cubemap_flags: u32_at(bytes, at + 108, le),
                reserved_2: bytes.subrange(at + 112, at + 124),
            },
            at + HEADER_SIZE,
        )
    }
}

/// The header that is written for `texture`: its height, width and mip map
/// count; no pitch and no depth; the reserved fields zero.
pub open spec fn header_for(texture: TextureView, pixel_format: PixelFormat) -> DDSHeaderView {
    DDSHeaderView {
        size: HEADER_SIZE,
        flags: HEADER_FLAGS,
        height: texture.height as i32,
        width: texture.width as i32,
        pitch_or_linear_size: 0,
        depth: 0,
        mip_map_count: texture.mip_count as u32,
        reserved_1: Seq::new(44, |i: int| 0u8),
        pixel_format,
        surface_flags: SURFACE_FLAGS,
        cubemap_flags: 0,
        reserved_2: Seq::new(12, |i: int| 0u8),
    }
}

/// The DDS file of `texture`: the magic word, the header, and the payload
/// of the first element. All of it is little-endian, and no extended
/// header follows, whatever the pixel format. There is no file for a
/// texture without elements or of an unknown format.
pub open spec fn dds_file(texture: TextureView) -> Result<Seq<u8>, CodecError> {
    match pixel_format_for(texture.format) {
        None => Err(CodecError::UnsupportedFormat),
        Some(pixel_format) => if texture.elements.len() == 0 {
            Err(CodecError::NoPixelData)
        } else {
            Ok(
                u32_bytes(DDS_MAGIC, true) + header_bytes(header_for(texture, pixel_format), true)
                    + texture.elements[0].contents,
            )
        },
    }
}

fn coded_format(four_cc: u32) -> (format: PixelFormat)
    ensures
        format == coded(four_cc),
{
    PixelFormat {
        size: PIXEL_FORMAT_SIZE,
        flags: FLAG_FOUR_CC,
        four_cc,
        rgb_bit_count: 0,
        red_bit_mask: 0,
        green_bit_mask: 0,
        blue_bit_mask: 0,
        alpha_bit_mask: 0,
    }
}

fn masked_format(bits: u32, red: u32, green: u32, blue: u32, alpha: u32) -> (format: PixelFormat)
    ensures
        format == masked(bits, red, green, blue, alpha),
{
    PixelFormat {
        size: PIXEL_FORMAT_SIZE,
        flags: if alpha == 0 {
            FLAG_RGB
        } else {
            FLAG_RGBA
        },
        four_cc: 0,
        rgb_bit_count: bits,
        red_bit_mask: red,
        green_bit_mask: green,
        blue_bit_mask: blue,
        alpha_bit_mask: alpha,
    }
}

fn copy_44(bytes: &Vec<u8>) -> (array: [u8; 44])
    requires
        bytes@.len() == 44,
    ensures
        array@ == bytes@,
{
    let mut array: [u8; 44] = [0u8; 44];
    let mut i: usize = 0;
    while i < 44
        invariant
            i <= 44,
            bytes@.len() == 44,
            forall|k: int| 0 <= k < i ==> array@[k] == bytes@[k],
        decreases 44 - i,
    {
        array[i] = bytes[i];
        i = i + 1;
    }
    assert(array@ =~= bytes@);
    array
}

fn copy_12(bytes: &Vec<u8>) -> (array: [u8; 12])
    requires
        bytes@.len() == 12,
    ensures
        array@ == bytes@,
{
    let mut array: [u8; 12] = [0u8; 12];
    let mut i: usize = 0;
    while i < 12
        invariant
            i <= 12,
            bytes@.len() == 12,
            forall|k: int| 0 <= k < i ==> array@[k] == bytes@[k],
        decreases 12 - i,
    {
        array[i] = bytes[i];
        i = i + 1;
    }
    assert(array@ =~= bytes@);
    array
}

impl PixelFormat {
    /// The pixel format of a named layout.
    pub fn new(file_format: FileFormat) -> (r: Result<PixelFormat, CodecError>)
        ensures
            match r {
                Ok(format) => pixel_format_of(file_format) == Some(format),
                Err(error) => pixel_format_of(file_format) is None && error
                    == CodecError::InvalidLayout,
            },
    {
        match file_format {
            FileFormat::DXT1 => Ok(coded_format(FOUR_CC_DXT1)),
            FileFormat::DXT3 => Ok(coded_format(FOUR_CC_DXT3)),
            FileFormat::DXT5 => Ok(coded_format(FOUR_CC_DXT5)),
            FileFormat::A8R8G8B8 => Ok(
                masked_format(32, 0x00FF_0000, 0x0000_FF00, 0x0000_00FF, 0xFF00_0000),
            ),
            FileFormat::X8R8G8B8 => Ok(masked_format(32, 0x00FF_0000, 0x0000_FF00, 0x0000_00FF, 0)),
            FileFormat::A8B8G8R8 => Ok(
                masked_format(32, 0x0000_00FF, 0x0000_FF00, 0x00FF_0000, 0xFF00_0000),
            ),
            FileFormat::X8B8G8R8 => Ok(masked_format(32, 0x0000_00FF, 0x0000_FF00, 0x00FF_0000, 0)),
            FileFormat::A1R5G5B5 => Ok(
                masked_format(16, 0x0000_7C00, 0x0000_03E0, 0x0000_001F, 0x0000_8000),
            ),
            FileFormat::A4R4G4B4 => Ok(
                masked_format(16, 0x0000_0F00, 0x0000_00F0, 0x0000_000F, 0x0000_F000),
            ),
            FileFormat::R8G8B8 => Ok(masked_format(24, 0x00FF_0000, 0x0000_FF00, 0x0000_00FF, 0)),
            FileFormat::R5G6B5 => Ok(masked_format(16, 0x0000_F800, 0x0000_07E0, 0x0000_001F, 0)),
            FileFormat::INVALID => Err(CodecError::InvalidLayout),
        }
    }

    /// The 32 bytes of the format.
    pub fn to_bytes(&self, le: bool) -> (bytes: Vec<u8>)
        ensures
            bytes@ == pixel_format_bytes(*self, le),
    {
        let mut bytes: Vec<u8> = Vec::new();
        put_u32(&mut bytes, self.size, le);
        put_u32(&mut bytes, self.flags, le);
        put_u32(&mut bytes, self.four_cc, le);
        put_u32(&mut bytes, self.rgb_bit_count, le);
        put_u32(&mut bytes, self.red_bit_mask, le);
        put_u32(&mut bytes, self.green_bit_mask, le);
        put_u32(&mut bytes, self.blue_bit_mask, le);
        put_u32(&mut bytes, self.alpha_bit_mask, le);
        assert(bytes@ =~= pixel_format_bytes(*self, le));
        bytes
    }
}

impl SerializablePartExt for PixelFormat {
    fn read(input: &mut ByteCursor, le: bool) -> (r: Result<PixelFormat, CodecError>)
        ensures
            final(input).decoded_from(
                old(input),
                r,
                parse_pixel_format(old(input).data@, old(input).position as int, le),
            ),
    {
        let size = input.read_u32(le)?;
        let flags = input.read_u32(le)?;
        let four_cc = input.read_u32(le)?;
        let rgb_bit_count = input.read_u32(le)?;
        let red_bit_mask = input.read_u32(le)?;
        let green_bit_mask = input.read_u32(le)?;
        let blue_bit_mask = input.read_u32(le)?;
        let alpha_bit_mask = input.read_u32(le)?;
        Ok(
            PixelFormat {
                size,
                flags,
                four_cc,
                rgb_bit_count,
                red_bit_mask,
                green_bit_mask,
                blue_bit_mask,
                alpha_bit_mask,
            },
        )
    }

    fn write(&self, output: &mut ByteCursor, le: bool) -> (r: Result<(), CodecError>)
        ensures
            final(output).written_from(old(output), pixel_format_bytes(*self, le), r),
    {
        let bytes = self.to_bytes(le);
        output.write_bytes(bytes.as_slice())
    }
}

impl DDSHeader {
    /// The 124 bytes of the header.
    pub fn to_bytes(&self, le: bool) -> (bytes: Vec<u8>)
        ensures
            bytes@ == header_bytes(self@, le),
    {
        let mut bytes: Vec<u8> = Vec::new();
        put_u32(&mut bytes, self.size, le);
        put_u32(&mut bytes, self.flags, le);
        put_s32(&mut bytes, self.height, le);
        put_s32(&mut bytes, self.width, le);
        put_u32(&mut bytes, self.pitch_or_linear_size, le);
        put_u32(&mut bytes, self.depth, le);
        put_u32(&mut bytes, self.mip_map_count, le);
        put_bytes(&mut bytes, self.reserved_1.as_slice());
        let pixel_format = self.pixel_format.to_bytes(le);
        put_bytes(&mut bytes, pixel_format.as_slice());
        put_u32(&mut bytes, self.surface_flags, le);
        put_u32(&mut bytes, self.cubemap_flags, le);
        put_bytes(&mut bytes, self.reserved_2.as_slice());
        assert(bytes@ =~= header_bytes(self@, le));
        bytes
    }
}

impl SerializablePartExt for DDSHeader {
    fn read(input: &mut ByteCursor, le: bool) -> (r: Result<DDSHeader, CodecError>)
        ensures
            final(input).decoded_from(
                old(input),
                r,
                parse_header(old(input).data@, old(input).position as int, le),
            ),
    {
        let ghost bytes = input.data@;
        let ghost at = input.position as int;
        let size = input.read_u32(le)?;
        let flags = input.read_u32(le)?;
        let height = input.read_s32(le)?;
        let width = input.read_s32(le)?;
        let pitch_or_linear_size = input.read_u32(le)?;
        let depth = input.read_u32(le)?;
        let mip_map_count = input.read_u32(le)?;
        let reserved_1 = copy_44(&input.read_bytes(44)?);
        let pixel_format = PixelFormat::read(input, le)?;
        let surface_flags = input.read_u32(le)?;
        let cubemap_flags = input.read_u32(le)?;
        let reserved_2 = copy_12(&input.read_bytes(12)?);
        let header = DDSHeader {
            size,
            flags,
            height,
            width,
            pitch_or_linear_size,
            depth,
            mip_map_count,
            reserved_1,
            pixel_format,
            surface_flags,
            cubemap_flags,
            reserved_2,
        };
        assert(header@.reserved_1 =~= bytes.subrange(at + 28, at + 72));
        assert(header@.reserved_2 =~= bytes.subrange(at + 112, at + 124));
        Ok(header)
    }

    fn write(&self, output: &mut ByteCursor, le: bool) -> (r: Result<(), CodecError>)
        ensures
            final(output).written_from(old(output), header_bytes(self@, le), r),
    {
        let bytes = self.to_bytes(le);
        output.write_bytes(bytes.as_slice())
    }
}

impl DDSFile {
    /// The pixel format that a texture's format id stands for.
    pub fn get_pixel_format(texture: &TextureFile) -> (r: Result<PixelFormat, CodecError>)
        ensures
            match r {
                Ok(format) => pixel_format_for(texture.format) == Some(format),
                Err(error) => pixel_format_for(texture.format) is None && error
                    == CodecError::UnsupportedFormat,
            },
    {
        let format: u32 = texture.format;
        if format == 71 {
            PixelFormat::new(FileFormat::DXT1)
        } else if format == 74 {
            PixelFormat::new(FileFormat::DXT3)
        } else if format == 77 {
            PixelFormat::new(FileFormat::DXT5)
        } else if format == 87 {
            PixelFormat::new(FileFormat::A8R8G8B8)
        } else if format == 61 || format == 83 || format == 98 {
            Ok(
                PixelFormat {
                    size: PIXEL_FORMAT_SIZE,
                    flags: 0,
                    four_cc: FOUR_CC_DX10,
                    rgb_bit_count: 0,
                    red_bit_mask: 0,
                    green_bit_mask: 0,
                    blue_bit_mask: 0,
                    alpha_bit_mask: 0,
                },
            )
        } else {
            Err(CodecError::UnsupportedFormat)
        }
    }
}

impl TextureSerializerExt for DDSFile {
    /// Writes the DDS file of `texture` at the cursor, or nothing where
    /// there is no such file or it does not fit.
    fn serialize(output: &mut ByteCursor, texture: &TextureFile) -> (r: Result<(), CodecError>)
        ensures
            match dds_file(texture@) {
                Ok(bytes) => final(output).written_from(old(output), bytes, r),
                Err(error) => r == Err::<(), CodecError>(error) && *final(output) == *old(output),
            },
    {
        let bytes = DDSFile::serialize_to_bytes(texture)?;
        output.write_bytes(bytes.as_slice())
    }

    fn serialize_to_bytes(texture: &TextureFile) -> (r: Result<Vec<u8>, CodecError>)
        ensures
            match r {
                Ok(bytes) => dds_file(texture@) == Ok::<Seq<u8>, CodecError>(bytes@),
                Err(error) => dds_file(texture@) == Err::<Seq<u8>, CodecError>(error),
            },
    {
        let le = true;
        let pixel_format = DDSFile::get_pixel_format(texture)?;
        if texture.elements.len() == 0 {
            return Err(CodecError::NoPixelData);
        }
        let header = DDSHeader {
            size: HEADER_SIZE,
            flags: HEADER_FLAGS,
            height: texture.height as i32,
            width: texture.width as i32,
            pitch_or_linear_size: 0,
            depth: 0,
            mip_map_count: texture.mip_count as u32,
            reserved_1: [0u8; 44],
            pixel_format,
            surface_flags: SURFACE_FLAGS,
            cubemap_flags: 0,
            reserved_2: [0u8; 12],
        };
        assert(header@.reserved_1 =~= Seq::new(44, |i: int| 0u8));
        assert(header@.reserved_2 =~= Seq::new(12, |i: int| 0u8));
        let mut bytes: Vec<u8> = Vec::new();
        put_u32(&mut bytes, DDS_MAGIC, le);
        let header_bytes = header.to_bytes(le);
        put_bytes(&mut bytes, header_bytes.as_slice());
        put_bytes(&mut bytes, texture.elements[0].contents.as_slice());
        assert(bytes@ =~= dds_file(texture@)->Ok_0);
        Ok(bytes)
    }
}

} // verus!
