//! The texture container: a header of format fields, then eight element
//! descriptors, each of which says where in the stream its payload lies.

use vstd::prelude::*;
use vstd::slice::slice_subrange;
use vstd::slice::slice_to_vec;

use crate::helpers::byte::bytes_left;
use crate::helpers::byte::exhausted;
use crate::helpers::byte::lemma_consecutive_writes;
use crate::helpers::byte::lemma_reads_see_their_bytes;
use crate::helpers::byte::lemma_u16_reads_back;
use crate::helpers::byte::lemma_u32_reads_back;
use crate::helpers::byte::overwritten;
use crate::helpers::byte::signature_orientation;
use crate::helpers::byte::u16_at;
use crate::helpers::byte::u16_bytes;
use crate::helpers::byte::u32_at;
use crate::helpers::byte::u32_bytes;
use crate::helpers::byte::ByteCursor;
use crate::helpers::byte::ByteReaderExt;
use crate::helpers::byte::ByteWriterExt;
use crate::helpers::error::host_size;
use crate::helpers::error::CodecError;
use crate::helpers::serializable::failed;
use crate::helpers::serializable::lemma_failure_ends_the_run;
use crate::helpers::serializable::parse_run;
use crate::helpers::serializable::parsed;
use crate::helpers::serializable::short_read;
use crate::helpers::serializable::Parsed;
use crate::helpers::serializable::SerializableExt;
use crate::helpers::serializable::SerializablePartExt;
use crate::helpers::serializable::Written;

verus! {

/// The magic bytes of a little-endian container, "AVTX".
pub const SIGNATURE: [u8; 4] = [0x41, 0x56, 0x54, 0x58];

/// A container has this many elements, whatever its header says of mips.
pub const ELEMENT_COUNT: usize = 8;

/// The bits that the flags field may have set.
pub const ALLOWED_FLAGS: u16 = 0x49;

/// The bytes before the first element descriptor.
pub const HEADER_SIZE: u64 = 32;

/// The bytes of one element descriptor.
pub const DESCRIPTOR_SIZE: u64 = 12;

/// A decoded texture container.
pub struct Texture {
    pub le: bool,
    pub unknown_06: u8,
    pub dimension: u8,
    pub format: u32,
    pub width: u16,
    pub height: u16,
    pub depth: u16,
    pub flags: u16,
    pub mip_count: u8,
    pub header_mip_count: u8,
    pub unknown_1c: u32,
    pub elements: Vec<TextureElement>,
}

/// The fields of a container's header, reserved bytes included.
pub struct TextureHeader {
    pub le: bool,
    pub unknown_06: u8,
    pub dimension: u8,
    pub format: u32,
    pub width: u16,
    pub height: u16,
    pub depth: u16,
    pub flags: u16,
    pub mip_count: u8,
    pub header_mip_count: u8,
    pub unknown_16: u8,
    pub unknown_17: u8,
    pub unknown_18: u8,
    pub unknown_19: u8,
    pub unknown_1a: u8,
    pub unknown_1b: u8,
    pub unknown_1c: u32,
}

/// One element: where its payload lies, how long it is, and the payload.
/// `is_external` says that the payload belongs to another container; it is
/// recorded, and nothing follows from it here.
pub struct TextureElement {
    pub offset: u32,
    pub size: u32,
    pub unknown_8: u16,
    pub unknown_a: u8,
    pub is_external: bool,
    pub contents: Vec<u8>,
}

/// What a `TextureElement` holds.
pub struct TextureElementView {
    pub offset: u32,
    pub size: u32,
    pub unknown_8: u16,
    pub unknown_a: u8,
    pub is_external: bool,
    pub contents: Seq<u8>,
}

/// What a `Texture` holds.
pub struct TextureView {
    pub le: bool,
    pub unknown_06: u8,
    pub dimension: u8,
    pub format: u32,
    pub width: u16,
    pub height: u16,
    pub depth: u16,
    pub flags: u16,
    pub mip_count: u8,
    pub header_mip_count: u8,
    pub unknown_1c: u32,
    pub elements: Seq<TextureElementView>,
}

impl View for TextureElement {
    type V = TextureElementView;

    open spec fn view(&self) -> TextureElementView {
        TextureElementView {
            offset: self.offset,
            size: self.size,
            unknown_8: self.unknown_8,
            unknown_a: self.unknown_a,
            is_external: self.is_external,
            contents: self.contents@,
        }
    }
}

impl View for Texture {
    type V = TextureView;

    open spec fn view(&self) -> TextureView {
        TextureView {
            le: self.le,
            unknown_06: self.unknown_06,
            dimension: self.dimension,
            format: self.format,
            width: self.width,
            height: self.height,
            depth: self.depth,
            flags: self.flags,
            mip_count: self.mip_count,
            header_mip_count: self.header_mip_count,
            unknown_1c: self.unknown_1c,
            elements: element_views(self.elements@),
        }
    }
}

/// The views of a run of elements.
pub open spec fn element_views(elements: Seq<TextureElement>) -> Seq<TextureElementView> {
    elements.map_values(|element: TextureElement| element@)
}

impl TextureElementView {
    /// Whether the element holds as many payload bytes as it declares.
    pub open spec fn wf(&self) -> bool {
        self.contents.len() == self.size
    }
}

impl TextureView {
    /// Whether the container has its eight elements, each with its payload.
    pub open spec fn wf(&self) -> bool {
        &&& self.elements.len() == ELEMENT_COUNT
        &&& forall|k: int| 0 <= k < self.elements.len() ==> (#[trigger] self.elements[k]).wf()
    }
}

/// The element whose descriptor stands at `at`. Its payload is read at the
/// element's own offset, and the cursor ends behind the descriptor wherever
/// that offset points. An element of size 0 has no payload and its offset is
/// not looked at.
pub open spec fn parse_element(bytes: Seq<u8>, at: int, le: bool) -> Parsed<TextureElementView> {
    if bytes_left(bytes, at) < DESCRIPTOR_SIZE {
        short_read(bytes, at)
    } else {
        let offset = u32_at(bytes, at, le);
        let size = u32_at(bytes, at + 4, le);
        if size > 0 && bytes_left(bytes, offset as int) < size {
            failed(CodecError::ContentsUnreadable, exhausted(bytes, offset as int))
        } else {
            parsed(
                TextureElementView {
                    offset,
                    size,
                    unknown_8: u16_at(bytes, at + 8, le),
                    unknown_a: bytes[at + 10],
                    is_external: bytes[at + 11] != 0,
                    contents: if size > 0 {
                        bytes.subrange(offset as int, offset + size)
                    } else {
                        Seq::empty()
                    },
                },
                at + DESCRIPTOR_SIZE,
            )
        }
    }
}

/// Decoding one element, as a function of where its descriptor stands.
pub open spec fn element_step(bytes: Seq<u8>, le: bool) -> spec_fn(int) -> Parsed<
    TextureElementView,
> {
    |at: int| parse_element(bytes, at, le)
}

/// The header that stands at `start` in `bytes`: the signature, in either
/// byte order; version 1; the format fields and the reserved bytes, which
/// are not judged here.
pub open spec fn parse_header(bytes: Seq<u8>, start: int) -> Parsed<TextureHeader> {
    if bytes_left(bytes, start) < 4 {
        short_read(bytes, start)
    } else {
        match signature_orientation(bytes.subrange(start, start + 4), SIGNATURE@) {
            None => failed(CodecError::SignatureMismatch, start + 4),
            Some(le) => if bytes_left(bytes, start) < 6 {
                short_read(bytes, start)
            } else if u16_at(bytes, start + 4, le) != 1 {
                failed(CodecError::FormatMismatch, start + 6)
            } else if bytes_left(bytes, start) < HEADER_SIZE {
                short_read(bytes, start)
            } else {
                parsed(
                    TextureHeader {
                        le,
                        unknown_06: bytes[start + 6],
                        dimension: bytes[start + 7],
                        format: u32_at(bytes, start + 8, le),
                        width: u16_at(bytes, start + 12, le),
                        height: u16_at(bytes, start + 14, le),
                        depth: u16_at(bytes, start + 16, le),
                        flags: u16_at(bytes, start + 18, le),
                        mip_count: bytes[start + 20],
                        header_mip_count: bytes[start + 21],
                        unknown_16: bytes[start + 22],
                        unknown_17: bytes[start + 23],
                        unknown_18: bytes[start + 24],
                        unknown_19: bytes[start + 25],
                        unknown_1a: bytes[start + 26],
                        unknown_1b: bytes[start + 27],
                        unknown_1c: u32_at(bytes, start + 28, le),
                    },
                    start + HEADER_SIZE,
                )
            },
        }
    }
}

impl TextureHeader {
    /// Whether the header holds what the format allows: no flag outside the
    /// allowed bits, four of the reserved bytes zero, one at most 2 and one
    /// at most 4.
    pub open spec fn valid(&self) -> bool {
        &&& self.flags & !ALLOWED_FLAGS == 0
        &&& self.unknown_16 <= 2
        &&& self.unknown_17 == 0
        &&& self.unknown_18 <= 4
        &&& self.unknown_19 == 0
        &&& self.unknown_1a == 0
        &&& self.unknown_1b == 0
    }

    /// The texture of this header and of `elements`.
    pub open spec fn with_elements(&self, elements: Seq<TextureElementView>) -> TextureView {
        TextureView {
            le: self.le,
            unknown_06: self.unknown_06,
            dimension: self.dimension,
            format: self.format,
            width: self.width,
            height: self.height,
            depth: self.depth,
            flags: self.flags,
            mip_count: self.mip_count,
            header_mip_count: self.header_mip_count,
            unknown_1c: self.unknown_1c,
            elements,
        }
    }
}

/// The texture container that stands at `start` in `bytes`: the header,
/// then eight elements. The flags and the reserved bytes of the header are
/// judged only when all elements have been read.
pub open spec fn parse_texture(bytes: Seq<u8>, start: int) -> Parsed<TextureView> {
    let header = parse_header(bytes, start);
    match header.result {
        Err(error) => failed(error, header.end),
        Ok(fields) => {
            let elements = parse_run(
                element_step(bytes, fields.le),
                header.end,
                ELEMENT_COUNT as nat,
            );
            match elements.result {
                Err(error) => failed(error, elements.end),
                Ok(elements_read) => if !fields.valid() {
                    failed(CodecError::FormatMismatch, elements.end)
                } else {
                    parsed(fields.with_elements(elements_read), elements.end)
                },
            }
        },
    }
}

/// Elements that decode stand one descriptor after the other: wherever
/// their payloads lie, a run of `count` of them ends `count` descriptors
/// after its start, and each element holds the payload it declares.
pub proof fn lemma_elements_leave_the_cursor_behind_their_descriptors(
    bytes: Seq<u8>,
    first: int,
    le: bool,
    count: nat,
)
    requires
        parse_run(element_step(bytes, le), first, count).result is Ok,
    ensures
        parse_run(element_step(bytes, le), first, count).end == first + count * DESCRIPTOR_SIZE,
        parse_run(element_step(bytes, le), first, count).result->Ok_0.len() == count,
        forall|k: int|
            0 <= k < count ==> (#[trigger] parse_run(
                element_step(bytes, le),
                first,
                count,
            ).result->Ok_0[k]).wf(),
    decreases count,
{
    if count > 0 {
        lemma_elements_leave_the_cursor_behind_their_descriptors(
            bytes,
            first,
            le,
            (count - 1) as nat,
        );
    }
}

/// A texture that decodes has its eight elements and ends 128 bytes after
/// its start.
pub proof fn lemma_texture_is_well_formed(bytes: Seq<u8>, start: int)
    requires
        parse_texture(bytes, start).result is Ok,
    ensures
        parse_texture(bytes, start).result->Ok_0.wf(),
        parse_texture(bytes, start).end == start + 128,
{
    let header = parse_header(bytes, start);
    lemma_elements_leave_the_cursor_behind_their_descriptors(
        bytes,
        header.end,
        header.result->Ok_0.le,
        ELEMENT_COUNT as nat,
    );
}

/// The twelve bytes of an element's descriptor.
pub open spec fn descriptor_bytes(element: TextureElementView, le: bool) -> Seq<u8> {
    u32_bytes(element.offset, le) + u32_bytes(element.size, le) + u16_bytes(
        element.unknown_8,
        le,
    ) + seq![element.unknown_a] + seq![
        if element.is_external {
            1u8
        } else {
            0u8
        },
    ]
}

/// The stream after the descriptor of `element` was written at `at`:
/// untouched, with an error, where the descriptor would end beyond what a
/// buffer can hold.
pub open spec fn write_descriptor(
    data: Seq<u8>,
    at: int,
    element: TextureElementView,
    le: bool,
) -> Written {
    if at + DESCRIPTOR_SIZE > usize::MAX {
        Written { data, position: at, result: Err(CodecError::SizeOverflow) }
    } else {
        Written {
            data: overwritten(data, at, descriptor_bytes(element, le)),
            position: at + DESCRIPTOR_SIZE,
            result: Ok(()),
        }
    }
}

/// The stream after `element` was written at `at`: its descriptor there,
/// and, unless its size is 0, the first `size` bytes of its payload at its
/// own offset, with the cursor back behind the descriptor. Where the
/// payload is shorter than `size`, what there is of it is written and the
/// write fails as short, the cursor left behind the payload.
pub open spec fn write_element(
    data: Seq<u8>,
    at: int,
    element: TextureElementView,
    le: bool,
) -> Written {
    let described = write_descriptor(data, at, element, le);
    if described.result is Err || element.size == 0 {
        described
    } else {
        let count = if element.contents.len() < element.size {
            element.contents.len() as int
        } else {
            element.size as int
        };
        if element.offset + count > usize::MAX {
            Written {
                data: described.data,
                position: element.offset as int,
                result: Err(CodecError::SizeOverflow),
            }
        } else {
            let data_written = overwritten(
                described.data,
                element.offset as int,
                element.contents.subrange(0, count),
            );
            if element.contents.len() < element.size {
                Written {
                    data: data_written,
                    position: element.offset + count,
                    result: Err(CodecError::ShortWrite),
                }
            } else {
                Written { data: data_written, position: described.position, result: Ok(()) }
            }
        }
    }
}

/// An element that is written reads back, where its payload has the size
/// it declares and does not lie across its own descriptor.
pub proof fn lemma_written_element_reads_back(
    data: Seq<u8>,
    at: int,
    element: TextureElementView,
    le: bool,
)
    requires
        0 <= at,
        element.wf(),
        write_element(data, at, element, le).result is Ok,
        element.size == 0 || element.offset + element.size <= at || at + DESCRIPTOR_SIZE
            <= element.offset,
    ensures
        parse_element(write_element(data, at, element, le).data, at, le) == parsed(
            element,
            at + DESCRIPTOR_SIZE,
        ),
{
    let described = write_descriptor(data, at, element, le);
    let written = write_element(data, at, element, le).data;
    let header = descriptor_bytes(element, le);
    let flag = if element.is_external {
        1u8
    } else {
        0u8
    };
    lemma_u32_reads_back(element.offset, le);
    lemma_u32_reads_back(element.size, le);
    lemma_u16_reads_back(element.unknown_8, le);
    assert(header.len() == 12);
    assert(written.subrange(at, at + 12) =~= header);
    assert(header.subrange(0, 4) =~= u32_bytes(element.offset, le));
    assert(header.subrange(4, 8) =~= u32_bytes(element.size, le));
    assert(header.subrange(8, 10) =~= u16_bytes(element.unknown_8, le));
    assert(written.subrange(at, at + 4) =~= u32_bytes(element.offset, le).subrange(0, 4));
    assert(written.subrange(at + 4, at + 8) =~= u32_bytes(element.size, le).subrange(0, 4));
    assert(written.subrange(at + 8, at + 10) =~= u16_bytes(element.unknown_8, le).subrange(0, 2));
    lemma_reads_see_their_bytes(written, at, u32_bytes(element.offset, le), 0, le);
    lemma_reads_see_their_bytes(written, at + 4, u32_bytes(element.size, le), 0, le);
    lemma_reads_see_their_bytes(written, at + 8, u16_bytes(element.unknown_8, le), 0, le);
    assert(written[at + 10] == header[10]);
    assert(written[at + 11] == header[11]);
    assert(header[10] == element.unknown_a);
    assert(header[11] == flag);
    if element.size > 0 {
        assert(written.subrange(element.offset as int, element.offset + element.size)
            =~= element.contents);
    } else {
        assert(element.contents =~= Seq::empty());
    }
}

/// Writes the descriptor of an element at the cursor.
pub(crate) fn put_descriptor(
    output: &mut ByteCursor,
    element: Ghost<TextureElementView>,
    offset: u32,
    size: u32,
    unknown_8: u16,
    unknown_a: u8,
    is_external: bool,
    le: bool,
) -> (r: Result<(), CodecError>)
    requires
        element@.offset == offset,
        element@.size == size,
        element@.unknown_8 == unknown_8,
        element@.unknown_a == unknown_a,
        element@.is_external == is_external,
    ensures
        final(output).encoded_as(
            r,
            write_descriptor(old(output).data@, old(output).position as int, element@, le),
        ),
{
    if output.position > (usize::MAX - 12) as u64 {
        return Err(CodecError::SizeOverflow);
    }
    let ghost data = output.data@;
    let ghost at = output.position as int;
    let ghost b0 = u32_bytes(offset, le);
    let ghost b1 = u32_bytes(size, le);
    let ghost b2 = u16_bytes(unknown_8, le);
    let ghost b3 = seq![unknown_a];
    let ghost b4 = seq![if is_external { 1u8 } else { 0u8 }];
    output.write_u32(offset, le)?;
    output.write_u32(size, le)?;
    output.write_u16(unknown_8, le)?;
    output.write_u8(unknown_a)?;
    output.write_b8(is_external)?;
    proof {
        lemma_consecutive_writes(data, at, b0, b1);
        lemma_consecutive_writes(data, at, b0 + b1, b2);
        lemma_consecutive_writes(data, at, b0 + b1 + b2, b3);
        lemma_consecutive_writes(data, at, b0 + b1 + b2 + b3, b4);
    }
    Ok(())
}

/// Writes an element at the cursor: its descriptor, then its payload at
/// its own offset, with the cursor back behind the descriptor.
pub(crate) fn put_element(
    output: &mut ByteCursor,
    element: Ghost<TextureElementView>,
    offset: u32,
    size: u32,
    unknown_8: u16,
    unknown_a: u8,
    is_external: bool,
    contents: &Vec<u8>,
    le: bool,
) -> (r: Result<(), CodecError>)
    requires
        element@.offset == offset,
        element@.size == size,
        element@.unknown_8 == unknown_8,
        element@.unknown_a == unknown_a,
        element@.is_external == is_external,
        element@.contents == contents@,
    ensures
        final(output).encoded_as(
            r,
            write_element(old(output).data@, old(output).position as int, element@, le),
        ),
{
    put_descriptor(output, element, offset, size, unknown_8, unknown_a, is_external, le)?;
    if size > 0 {
        let starting_position = output.stream_position();
        output.seek(offset as u64);
        let declared = host_size(size)?;
        let count: usize = if contents.len() < declared {
            contents.len()
        } else {
            declared
        };
        output.write_bytes(slice_subrange(contents.as_slice(), 0, count))?;
        if count < declared {
            return Err(CodecError::ShortWrite);
        }
        output.seek(starting_position);
    }
    Ok(())
}

impl TextureElement {
    /// Whether the element holds as many payload bytes as it declares.
    pub open spec fn wf(&self) -> bool {
        self@.wf()
    }
}

impl Texture {
    /// Whether the container has its eight elements, each with its payload.
    pub open spec fn wf(&self) -> bool {
        self@.wf()
    }
}

impl SerializablePartExt for TextureElement {
    fn read(input: &mut ByteCursor, le: bool) -> (r: Result<TextureElement, CodecError>)
        ensures
            final(input).decoded_from(
                old(input),
                r,
                parse_element(old(input).data@, old(input).position as int, le),
            ),
            r matches Ok(element) ==> {
                &&& element.wf()
                &&& final(input).position == old(input).position + 12
                &&& element.size == 0 ==> element.contents@.len() == 0
            },
    {
        let offset = input.read_u32(le)?;
        let size = input.read_u32(le)?;
        let unknown_8 = input.read_u16(le)?;
        let unknown_a = input.read_u8()?;
        let is_external = input.read_b8()?;

        let mut contents: Vec<u8> = Vec::new();
        if size > 0 {
            let safe_size = host_size(size)?;
            let starting_position = input.stream_position();
            input.seek(offset as u64);
            contents = input.read(safe_size);
            if contents.len() < safe_size {
                return Err(CodecError::ContentsUnreadable);
            }
            input.seek(starting_position);
        }
        Ok(TextureElement { offset, size, unknown_8, unknown_a, is_external, contents })
    }

    fn write(&self, output: &mut ByteCursor, le: bool) -> (r: Result<(), CodecError>)
        ensures
            final(output).encoded_as(
                r,
                write_element(old(output).data@, old(output).position as int, self@, le),
            ),
    {
        put_element(
            output,
            Ghost(self@),
            self.offset,
            self.size,
            self.unknown_8,
            self.unknown_a,
            self.is_external,
            &self.contents,
            le,
        )
    }
}

impl View for TextureHeader {
    type V = TextureHeader;

    open spec fn view(&self) -> TextureHeader {
        *self
    }
}

impl TextureHeader {
    /// Decodes the header at the cursor.
    pub fn read(input: &mut ByteCursor) -> (r: Result<TextureHeader, CodecError>)
        ensures
            final(input).decoded_from(
                old(input),
                r,
                parse_header(old(input).data@, old(input).position as int),
            ),
    {
        let le = input.validate_signature(SIGNATURE.as_slice())?;

        let version = input.read_u16(le)?;
        if version != 1 {
            return Err(CodecError::FormatMismatch);
        }
        let unknown_06 = input.read_u8()?;
        let dimension = input.read_u8()?;
        let format = input.read_u32(le)?;
        let width = input.read_u16(le)?;
        let height = input.read_u16(le)?;
        let depth = input.read_u16(le)?;
        let flags = input.read_u16(le)?;
        let mip_count = input.read_u8()?;
        let header_mip_count = input.read_u8()?;

        let unknown_16 = input.read_u8()?;
        let unknown_17 = input.read_u8()?;
        let unknown_18 = input.read_u8()?;
        let unknown_19 = input.read_u8()?;
        let unknown_1a = input.read_u8()?;
        let unknown_1b = input.read_u8()?;
        let unknown_1c = input.read_u32(le)?;
        Ok(
            TextureHeader {
                le,
                unknown_06,
                dimension,
                format,
                width,
                height,
                depth,
                flags,
                mip_count,
                header_mip_count,
                unknown_16,
                unknown_17,
                unknown_18,
                unknown_19,
                unknown_1a,
                unknown_1b,
                unknown_1c,
            },
        )
    }

    /// Whether the header holds what the format allows.
    pub fn is_valid(&self) -> (valid: bool)
        ensures
            valid == self.valid(),
    {
        if (self.flags & !ALLOWED_FLAGS) != 0 {
            return false;
        }
        if self.unknown_17 != 0 || self.unknown_19 != 0 || self.unknown_1a != 0 || self.unknown_1b
            != 0 {
            return false;
        }
        if self.unknown_16 != 0 && self.unknown_16 != 1 && self.unknown_16 != 2 {
            return false;
        }
        if self.unknown_18 != 0 && self.unknown_18 != 2 && self.unknown_18 != 1 && self.unknown_18
            != 3 && self.unknown_18 != 4 {
            return false;
        }
        true
    }
}

/// Decodes the eight elements whose descriptors start at the cursor.
pub(crate) fn read_elements(input: &mut ByteCursor, le: bool) -> (r: Result<
    Vec<TextureElement>,
    CodecError,
>)
    ensures
        final(input).data@ == old(input).data@,
        final(input).position == parse_run(
            element_step(old(input).data@, le),
            old(input).position as int,
            ELEMENT_COUNT as nat,
        ).end,
        match r {
            Ok(elements) => parse_run(
                element_step(old(input).data@, le),
                old(input).position as int,
                ELEMENT_COUNT as nat,
            ).result == Ok::<Seq<TextureElementView>, CodecError>(element_views(elements@)),
            Err(error) => parse_run(
                element_step(old(input).data@, le),
                old(input).position as int,
                ELEMENT_COUNT as nat,
            ).result == Err::<Seq<TextureElementView>, CodecError>(error),
        },
{
    let ghost bytes = input.data@;
    let ghost first = input.position as int;
    let mut elements: Vec<TextureElement> = Vec::new();
    let mut i: usize = 0;
    assert(element_views(elements@) =~= Seq::empty());
    while i < ELEMENT_COUNT
        invariant
            i <= ELEMENT_COUNT,
            bytes == old(input).data@,
            first == old(input).position,
            input.data@ == bytes,
            parse_run(element_step(bytes, le), first, i as nat) == parsed(
                element_views(elements@),
                input.position as int,
            ),
        decreases ELEMENT_COUNT - i,
    {
        let ghost before = element_views(elements@);
        match TextureElement::read(input, le) {
            Ok(element) => {
                elements.push(element);
                assert(element_views(elements@) =~= before.push(element@));
            },
            Err(error) => {
                proof {
                    lemma_failure_ends_the_run(
                        element_step(bytes, le),
                        first,
                        (i + 1) as nat,
                        ELEMENT_COUNT as nat,
                    );
                }
                return Err(error);
            },
        }
        i = i + 1;
    }
    Ok(elements)
}

impl SerializableExt for Texture {
    fn deserialize(input: &mut ByteCursor) -> (r: Result<Texture, CodecError>)
        ensures
            final(input).decoded_from(
                old(input),
                r,
                parse_texture(old(input).data@, old(input).position as int),
            ),
            r matches Ok(texture) ==> texture.wf() && final(input).position == old(input).position
                + 128,
    {
        let ghost bytes = input.data@;
        let ghost start = input.position as int;
        let header = TextureHeader::read(input)?;
        let elements = read_elements(input, header.le)?;
        if !header.is_valid() {
            return Err(CodecError::FormatMismatch);
        }
        proof {
            lemma_texture_is_well_formed(bytes, start);
        }
        Ok(
            Texture {
                le: header.le,
                unknown_06: header.unknown_06,
                dimension: header.dimension,
                format: header.format,
                width: header.width,
                height: header.height,
                depth: header.depth,
                flags: header.flags,
                mip_count: header.mip_count,
                header_mip_count: header.header_mip_count,
                unknown_1c: header.unknown_1c,
                elements,
            },
        )
    }

    fn deserialize_from_bytes(bytes: &[u8]) -> (r: Result<Texture, CodecError>)
        ensures
            match r {
                Ok(texture) => texture.wf() && parse_texture(bytes@, 0).result == Ok::<
                    TextureView,
                    CodecError,
                >(texture@),
                Err(e) => parse_texture(bytes@, 0).result == Err::<TextureView, CodecError>(e),
            },
    {
        let mut input = ByteCursor::new(slice_to_vec(bytes));
        Texture::deserialize(&mut input)
    }
}

} // verus!
