//! The table archive: the index that pairs each name hash with the place of
//! its payload in the blob beside it.

use vstd::prelude::*;
use vstd::slice::slice_to_vec;

use crate::helpers::byte::bytes_left;
use crate::helpers::byte::signature_orientation;
use crate::helpers::byte::u16_at;
use crate::helpers::byte::u32_at;
use crate::helpers::byte::ByteCursor;
use crate::helpers::byte::ByteReaderExt;
use crate::helpers::byte::StreamLengthExt;
use crate::helpers::error::host_size;
use crate::helpers::error::CodecError;
use crate::helpers::serializable::failed;
use crate::helpers::serializable::parsed;
use crate::helpers::serializable::short_read;
use crate::helpers::serializable::Parsed;
use crate::helpers::serializable::SerializableExt;

verus! {

/// The magic bytes of a little-endian table, "TAB" and a zero.
pub const SIGNATURE: [u8; 4] = [0x54, 0x41, 0x42, 0x00];

/// The only alignment the format knows.
pub const ALIGNMENT: u32 = 0x800;

/// The bytes before the first record.
pub const HEADER_SIZE: u64 = 12;

/// The bytes of one record.
pub const RECORD_SIZE: u64 = 12;

/// A decoded table: the byte order it was found in, its alignment, and its
/// records in the order of the file.
pub struct ArchiveTable {
    pub le: bool,
    pub alignment: u32,
    pub entries: Vec<ArchiveTableEntry>,
}

/// One record: where in the blob the payload of `name_hash` lies.
#[derive(Debug, Clone, Copy, PartialEq, Eq, Structural)]
pub struct ArchiveTableEntry {
    pub name_hash: u32,
    pub offset: usize,
    pub size: usize,
}

/// What an `ArchiveTable` holds.
pub struct ArchiveTableView {
    pub le: bool,
    pub alignment: u32,
    pub entries: Seq<ArchiveTableEntry>,
}

impl View for ArchiveTable {
    type V = ArchiveTableView;

    open spec fn view(&self) -> ArchiveTableView {
        ArchiveTableView { le: self.le, alignment: self.alignment, entries: self.entries@ }
    }
}

impl ArchiveTable {
    /// Whether the table has the one alignment that the format knows.
    pub open spec fn wf(&self) -> bool {
        self.alignment == ALIGNMENT
    }
}

/// The record encoded by the twelve bytes at `at`.
pub open spec fn entry_at(bytes: Seq<u8>, at: int, le: bool) -> ArchiveTableEntry {
    ArchiveTableEntry {
        name_hash: u32_at(bytes, at, le),
        offset: u32_at(bytes, at + 4, le) as usize,
        size: u32_at(bytes, at + 8, le) as usize,
    }
}

/// How many whole records follow a header that starts at `start`. What is
/// left over after the last whole record is not counted.
pub open spec fn entry_count(bytes: Seq<u8>, start: int) -> int {
    (bytes.len() - (start + HEADER_SIZE)) / (RECORD_SIZE as int)
}

/// The first `count` records after a header that starts at `start`.
pub open spec fn entries_of(bytes: Seq<u8>, start: int, le: bool, count: int) -> Seq<
    ArchiveTableEntry,
> {
    Seq::new(count as nat, |k: int| entry_at(bytes, start + HEADER_SIZE + k * RECORD_SIZE, le))
}

/// The table that stands at `start` in `bytes`: the signature, in either
/// byte order; the two version words, 2 and 1; the alignment; then records
/// as long as twelve bytes are left.
pub open spec fn parse_table(bytes: Seq<u8>, start: int) -> Parsed<ArchiveTableView> {
    if bytes_left(bytes, start) < 4 {
        short_read(bytes, start)
    } else {
        match signature_orientation(bytes.subrange(start, start + 4), SIGNATURE@) {
            None => failed(CodecError::SignatureMismatch, start + 4),
            Some(le) => if bytes_left(bytes, start) < 8 {
                short_read(bytes, start)
            } else if u16_at(bytes, start + 4, le) != 2 || u16_at(bytes, start + 6, le) != 1 {
                failed(CodecError::FormatMismatch, start + 8)
            } else if bytes_left(bytes, start) < 12 {
                short_read(bytes, start)
            } else if u32_at(bytes, start + 8, le) != ALIGNMENT {
                failed(CodecError::FormatMismatch, start + 12)
            } else {
                let count = entry_count(bytes, start);
                parsed(
                    ArchiveTableView {
                        le,
                        alignment: ALIGNMENT,
                        entries: entries_of(bytes, start, le, count),
                    },
                    start + HEADER_SIZE + count * RECORD_SIZE,
                )
            },
        }
    }
}

/// A table has as many entries as whole records fit between its header and
/// the end of the data.
pub proof fn lemma_entries_fill_the_record_region(bytes: Seq<u8>, start: int)
    requires
        parse_table(bytes, start).result is Ok,
    ensures
        parse_table(bytes, start).result->Ok_0.entries.len() == (bytes.len() - (start + 12)) / 12,
{
}

/// Fewer than twelve bytes after the last whole record change nothing: the
/// table decodes to the same entries with them as without.
pub proof fn lemma_trailing_remainder_is_ignored(bytes: Seq<u8>, start: int, extra: Seq<u8>)
    requires
        parse_table(bytes, start).result is Ok,
        (bytes.len() - (start + 12)) % 12 == 0,
        extra.len() < 12,
    ensures
        parse_table(bytes + extra, start).result == parse_table(bytes, start).result,
{
    let longer = bytes + extra;
    assert(longer.subrange(start, start + 4) =~= bytes.subrange(start, start + 4));
    let le = signature_orientation(bytes.subrange(start, start + 4), SIGNATURE@)->Some_0;
    let count = entry_count(bytes, start);
    assert(entry_count(longer, start) == count);
    assert(entries_of(longer, start, le, count) =~= entries_of(bytes, start, le, count));
}

impl SerializableExt for ArchiveTable {
    fn deserialize(input: &mut ByteCursor) -> (r: Result<ArchiveTable, CodecError>)
        ensures
            final(input).decoded_from(
                old(input),
                r,
                parse_table(old(input).data@, old(input).position as int),
            ),
            r matches Ok(table) ==> table.wf(),
    {
        let ghost bytes = input.data@;
        let ghost start = input.position as int;
        let le = input.validate_signature(SIGNATURE.as_slice())?;

        let unk04 = input.read_u16(le)?;
        let unk06 = input.read_u16(le)?;
        if unk04 != 2 || unk06 != 1 {
            return Err(CodecError::FormatMismatch);
        }
        let alignment = input.read_u32(le)?;
        if alignment != ALIGNMENT {
            return Err(CodecError::FormatMismatch);
        }
        let mut entries: Vec<ArchiveTableEntry> = Vec::new();

        let length = input.stream_length()?;
        while length - input.stream_position() >= RECORD_SIZE
            invariant
                input.data@ == bytes,
                length == bytes.len(),
                0 <= start,
                start + HEADER_SIZE <= bytes.len(),
                0 <= entries@.len() <= entry_count(bytes, start),
                input.position == start + HEADER_SIZE + entries@.len() * RECORD_SIZE,
                entries@ == entries_of(bytes, start, le, entries@.len() as int),
            decreases bytes.len() - input.position,
        {
            let name_hash = input.read_u32(le)?;
            let offset = input.read_u32(le)?;
            let size = input.read_u32(le)?;
            let entry = ArchiveTableEntry {
                name_hash,
                offset: host_size(offset)?,
                size: host_size(size)?,
            };
            entries.push(entry);
            assert(entries@ =~= entries_of(bytes, start, le, entries@.len() as int));
        }
        Ok(ArchiveTable { le, alignment, entries })
    }

    fn deserialize_from_bytes(bytes: &[u8]) -> (r: Result<ArchiveTable, CodecError>)
        ensures
            match r {
                Ok(table) => table.wf() && parse_table(bytes@, 0).result == Ok::<
                    ArchiveTableView,
                    CodecError,
                >(table@),
                Err(e) => parse_table(bytes@, 0).result == Err::<ArchiveTableView, CodecError>(e),
            },
    {
        let mut input = ByteCursor::new(slice_to_vec(bytes));
        ArchiveTable::deserialize(&mut input)
    }
}

} // verus!
