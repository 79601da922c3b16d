//! The blob beside a table archive, and the ways to give its payloads
//! their names.

use std::collections::HashMap;
use vstd::prelude::*;
use vstd::string::StringExecFns;
use vstd::string::StringSliceAdditionalSpecFns;

use crate::file_formats::archive_table::parse_table;
use crate::file_formats::archive_table::ArchiveTable;
use crate::file_formats::archive_table::ArchiveTableEntry;
use crate::file_formats::file_lists::find_name_hash;
use crate::file_formats::file_lists::is_listed;
use crate::file_formats::file_lists::lemma_reordering_keeps_listing;
use crate::file_formats::file_lists::lemma_reordering_keeps_names;
use crate::file_formats::file_lists::names_hash;
use crate::file_formats::file_lists::sort_by_name_hash;
use crate::file_formats::file_lists::sorted_by_hash;
use crate::file_formats::file_lists::FileListEntry;
use crate::helpers::byte::exhausted;
use crate::helpers::byte::span;
use crate::helpers::byte::ByteReaderExt;
use crate::helpers::byte::u32_at;
use crate::helpers::byte::ByteCursor;
use crate::helpers::error::CodecError;
use crate::helpers::serializable::SerializableExt;
use crate::util::jenkins::hash_string;
use crate::util::jenkins::spec_hash_bytes;

verus! {

/// How many bytes of a payload are looked at to guess what it is.
pub const GUESS_SIZE: usize = 32;

/// The resolution layer. It holds nothing: its functions take the blob and
/// the table they work on.
pub struct PackedArchive {}

/// A payload with the name it was resolved to.
pub struct PackedArchiveEntry {
    pub name: String,
    pub contents: Vec<u8>,
}

/// What a `PackedArchiveEntry` holds.
pub struct PackedArchiveEntryView {
    pub name: Seq<char>,
    pub contents: Seq<u8>,
}

impl View for PackedArchiveEntry {
    type V = PackedArchiveEntryView;

    open spec fn view(&self) -> PackedArchiveEntryView {
        PackedArchiveEntryView { name: self.name@, contents: self.contents@ }
    }
}

/// The views of a run of records.
pub open spec fn record_views(records: Seq<PackedArchiveEntry>) -> Seq<PackedArchiveEntryView> {
    records.map_values(|record: PackedArchiveEntry| record@)
}

/// Whether the blob holds all the bytes of `entry`: whether the entry ends
/// within the blob.
pub open spec fn readable(blob: Seq<u8>, entry: ArchiveTableEntry) -> bool {
    entry.offset + entry.size <= blob.len()
}

/// Whether the blob holds all the bytes of every entry.
pub open spec fn all_readable(blob: Seq<u8>, entries: Seq<ArchiveTableEntry>) -> bool {
    forall|k: int| 0 <= k < entries.len() ==> readable(blob, #[trigger] entries[k])
}

/// Whether the entry at `index` is the first that the blob does not hold
/// all the bytes of.
pub open spec fn first_unreadable(blob: Seq<u8>, entries: Seq<ArchiveTableEntry>, index: int) -> bool {
    &&& 0 <= index < entries.len()
    &&& !readable(blob, entries[index])
    &&& forall|j: int| 0 <= j < index ==> readable(blob, #[trigger] entries[j])
}

/// The payload of `size` bytes at `offset`.
pub open spec fn payload(blob: Seq<u8>, offset: int, size: int) -> Seq<u8> {
    blob.subrange(offset, offset + size)
}

/// Where the cursor stands after the payload of `size` bytes at `offset` was
/// read.
pub open spec fn payload_end(blob: Seq<u8>, offset: int, size: int) -> int {
    offset + size
}

/// Where the cursor stands after the payloads of `entries` were read in
/// turn, if it stood at `at` before.
pub open spec fn cursor_after(blob: Seq<u8>, entries: Seq<ArchiveTableEntry>, at: int) -> int {
    if entries.len() == 0 {
        at
    } else {
        payload_end(blob, entries.last().offset as int, entries.last().size as int)
    }
}

/// How reading the payloads of `entries` in turn ends, for a call that
/// returned `r` and left the cursor at `end`: well, behind the last
/// payload, exactly where the blob holds all of every entry; else with a
/// short-read error at the first entry it lacks bytes of, the cursor where
/// the blob ran out.
pub open spec fn payloads_read<T>(
    blob: Seq<u8>,
    entries: Seq<ArchiveTableEntry>,
    at: int,
    r: Result<T, CodecError>,
    end: int,
) -> bool {
    match r {
        Ok(_) => all_readable(blob, entries) && end == cursor_after(blob, entries, at),
        Err(error) => error == CodecError::ShortRead && exists|k: int|
            #[trigger] first_unreadable(blob, entries, k) && end == exhausted(
                blob,
                entries[k].offset as int,
            ),
    }
}

/// The 64-bit big-endian value of the eight bytes at `at`.
pub open spec fn be_u64_at(bytes: Seq<u8>, at: int) -> u64 {
    (u32_at(bytes, at, false) * 0x1_0000_0000 + u32_at(bytes, at + 4, false)) as u64
}

/// The extension that a four-byte big-endian magic stands for.
pub open spec fn extension_of_magic_4(magic: u32) -> Option<Seq<char>> {
    if magic == 0x2053_4444 {
        Some("dds"@)
    } else if magic == 0x4144_4620 {
        Some("adf"@)
    } else if magic == 0x4350_5452 {
        Some("rtpc"@)
    } else if magic == 0x57E0_E057 {
        Some("ban"@)
    } else if magic == 0x3542_5346 {
        Some("fsb5"@)
    } else {
        None
    }
}

/// The extension that an eight-byte big-endian magic stands for.
pub open spec fn extension_of_magic_8(magic: u64) -> Option<Seq<char>> {
    if magic == 0x0000_0030_0000_000E {
        Some("btc"@)
    } else if magic == 0x444E_4252_0000_0005 {
        Some("rbn"@)
    } else if magic == 0x4453_4252_0000_0005 {
        Some("rbs"@)
    } else {
        None
    }
}

/// The extension guessed from the first bytes of a payload: "null" where
/// there are none; else what the first four bytes stand for, else what the
/// first eight stand for; else "bin" for a payload that starts 1, 4, 0;
/// else "unknown".
pub open spec fn extension_of(guess: Seq<u8>) -> Seq<char> {
    if guess.len() == 0 {
        "null"@
    } else if guess.len() >= 4 && extension_of_magic_4(u32_at(guess, 0, false)) is Some {
        extension_of_magic_4(u32_at(guess, 0, false))->Some_0
    } else if guess.len() >= 8 && extension_of_magic_8(be_u64_at(guess, 0)) is Some {
        extension_of_magic_8(be_u64_at(guess, 0))->Some_0
    } else if guess.len() >= 3 && guess[0] == 1 && guess[1] == 4 && guess[2] == 0 {
        "bin"@
    } else {
        "unknown"@
    }
}

/// A payload that starts with the bytes 0x20, 0x53, 0x44, 0x44 is taken for
/// a "dds" file, whatever follows.
pub proof fn lemma_dds_magic_is_recognised(guess: Seq<u8>)
    requires
        guess.len() >= 4,
        guess[0] == 0x20,
        guess[1] == 0x53,
        guess[2] == 0x44,
        guess[3] == 0x44,
    ensures
        extension_of(guess) == "dds"@,
{
}

/// A payload without bytes is taken for "null"; a payload that starts with
/// none of the known magics, nor with 1, 4, 0, is taken for "unknown".
pub proof fn lemma_unrecognised_payloads(guess: Seq<u8>)
    ensures
        guess.len() == 0 ==> extension_of(guess) == "null"@,
        ({
            &&& guess.len() > 0
            &&& guess.len() >= 4 ==> extension_of_magic_4(u32_at(guess, 0, false)) is None
            &&& guess.len() >= 8 ==> extension_of_magic_8(be_u64_at(guess, 0)) is None
            &&& guess.len() >= 3 ==> !(guess[0] == 1 && guess[1] == 4 && guess[2] == 0)
        }) ==> extension_of(guess) == "unknown"@,
{
}

/// One decimal digit as text.
pub open spec fn digit_text(digit: nat) -> Seq<char> {
    if digit == 0 {
        "0"@
    } else if digit == 1 {
        "1"@
    } else if digit == 2 {
        "2"@
    } else if digit == 3 {
        "3"@
    } else if digit == 4 {
        "4"@
    } else if digit == 5 {
        "5"@
    } else if digit == 6 {
        "6"@
    } else if digit == 7 {
        "7"@
    } else if digit == 8 {
        "8"@
    } else {
        "9"@
    }
}

/// A number in decimal, without leading zeros.
pub open spec fn decimal(value: nat) -> Seq<char>
    decreases value,
{
    if value < 10 {
        digit_text(value)
    } else {
        decimal(value / 10) + digit_text(value % 10)
    }
}

/// The name made up for a payload that no name is known for: its hash in
/// decimal with the guessed extension, in a directory of that extension
/// under `__UNKNOWN`.
pub open spec fn unknown_name(hash: u32, extension: Seq<char>) -> Seq<char> {
    "__UNKNOWN/"@ + extension + "/"@ + decimal(hash as nat) + "."@ + extension
}

/// How many bytes are read of an entry to guess what it is.
pub open spec fn guess_size(entry: ArchiveTableEntry) -> int {
    if entry.size < GUESS_SIZE {
        entry.size as int
    } else {
        GUESS_SIZE as int
    }
}

/// The name of `entry` under a map from hashes to names: the name that its
/// hash maps to, or the name made up from its hash and its first bytes.
pub open spec fn name_in_map(names: Map<u32, String>, blob: Seq<u8>, entry: ArchiveTableEntry) -> Seq<
    char,
> {
    if names.contains_key(entry.name_hash) {
        names[entry.name_hash]@
    } else {
        unknown_name(
            entry.name_hash,
            extension_of(span(blob, entry.offset as int, guess_size(entry))),
        )
    }
}

/// An entry whose hash has no name, and whose payload starts with the bytes
/// 0x20, 0x53, 0x44, 0x44, is named by its hash with the extension "dds",
/// in the directory `__UNKNOWN/dds`.
pub proof fn lemma_unnamed_dds_entry(names: Map<u32, String>, blob: Seq<u8>, entry: ArchiveTableEntry)
    requires
        !names.contains_key(entry.name_hash),
        entry.size >= 4,
        entry.offset + 4 <= blob.len(),
        blob[entry.offset as int] == 0x20,
        blob[entry.offset + 1] == 0x53,
        blob[entry.offset + 2] == 0x44,
        blob[entry.offset + 3] == 0x44,
    ensures
        name_in_map(names, blob, entry) == "__UNKNOWN/"@ + "dds"@ + "/"@ + decimal(
            entry.name_hash as nat,
        ) + "."@ + "dds"@,
{
    lemma_dds_magic_is_recognised(span(blob, entry.offset as int, guess_size(entry)));
}

/// The records of all `entries` under a map from hashes to names, in the
/// order of the table.
pub open spec fn records_by_map(
    names: Map<u32, String>,
    blob: Seq<u8>,
    entries: Seq<ArchiveTableEntry>,
) -> Seq<PackedArchiveEntryView> {
    Seq::new(
        entries.len(),
        |k: int|
            PackedArchiveEntryView {
                name: name_in_map(names, blob, entries[k]),
                contents: payload(blob, entries[k].offset as int, entries[k].size as int),
            },
    )
}

/// The test that keeps the entries whose hash is in a list.
pub open spec fn listed_in(names: Seq<FileListEntry>) -> spec_fn(ArchiveTableEntry) -> bool {
    |entry: ArchiveTableEntry| is_listed(names, entry.name_hash)
}

/// Whether `record` is `entry` resolved against a list: it holds the
/// entry's payload under the name of an entry of the list that carries its
/// hash.
pub open spec fn resolves(
    record: PackedArchiveEntryView,
    entry: ArchiveTableEntry,
    blob: Seq<u8>,
    names: Seq<FileListEntry>,
) -> bool {
    &&& record.contents == payload(blob, entry.offset as int, entry.size as int)
    &&& names_hash(names, entry.name_hash, record.name)
}

/// Whether `records` are `entries` resolved against a list, one for one.
pub open spec fn resolve_each(
    records: Seq<PackedArchiveEntryView>,
    entries: Seq<ArchiveTableEntry>,
    blob: Seq<u8>,
    names: Seq<FileListEntry>,
) -> bool {
    &&& records.len() == entries.len()
    &&& forall|k: int|
        0 <= k < records.len() ==> resolves(#[trigger] records[k], entries[k], blob, names)
}

/// Whether the entry at `index` is the first of a table that carries
/// `hash`.
pub open spec fn first_with_hash(entries: Seq<ArchiveTableEntry>, hash: u32, index: int) -> bool {
    &&& 0 <= index < entries.len()
    &&& entries[index].name_hash == hash
    &&& forall|j: int| 0 <= j < index ==> (#[trigger] entries[j]).name_hash != hash
}

/// Whether `record`, with the cursor left at `end`, is the entry at `index`
/// of a table resolved under `name`.
pub open spec fn resolves_entry(
    record: PackedArchiveEntryView,
    end: int,
    blob: Seq<u8>,
    entries: Seq<ArchiveTableEntry>,
    name: Seq<char>,
    index: int,
) -> bool {
    &&& record.name == name
    &&& record.contents == payload(blob, entries[index].offset as int, entries[index].size as int)
    &&& end == payload_end(blob, entries[index].offset as int, entries[index].size as int)
}

/// Whether no entry of a table carries `hash`.
pub open spec fn without_hash(entries: Seq<ArchiveTableEntry>, hash: u32) -> bool {
    forall|j: int| 0 <= j < entries.len() ==> (#[trigger] entries[j]).name_hash != hash
}

/// A table archive, the blob beside it and the names that may occur in it,
/// each as it was read from its file.
pub struct ArchivePair {
    pub table: Vec<u8>,
    pub blob: Vec<u8>,
    pub file_list_entries: Vec<FileListEntry>,
}

/// What an `ArchivePair` holds.
pub struct ArchivePairView {
    pub table: Seq<u8>,
    pub blob: Seq<u8>,
    pub names: Seq<FileListEntry>,
}

impl View for ArchivePair {
    type V = ArchivePairView;

    open spec fn view(&self) -> ArchivePairView {
        ArchivePairView {
            table: self.table@,
            blob: self.blob@,
            names: self.file_list_entries@,
        }
    }
}

/// The views of a run of pairs.
pub open spec fn pair_views(pairs: Seq<ArchivePair>) -> Seq<ArchivePairView> {
    pairs.map_values(|pair: ArchivePair| pair@)
}

/// The entries of a pair's table whose hash is in the pair's list. There
/// are none where the table does not decode.
pub open spec fn listed_entries(pair: ArchivePairView) -> Seq<ArchiveTableEntry> {
    match parse_table(pair.table, 0).result {
        Ok(table) => table.entries.filter(listed_in(pair.names)),
        Err(_) => Seq::empty(),
    }
}

/// Whether `records` are the listed entries of all `pairs` resolved, pair
/// after pair, each against its own blob and its own list.
pub open spec fn resolve_pairs(
    records: Seq<PackedArchiveEntryView>,
    pairs: Seq<ArchivePairView>,
) -> bool
    decreases pairs.len(),
{
    if pairs.len() == 0 {
        records.len() == 0
    } else {
        let last = pairs.last();
        let count = listed_entries(last).len() as int;
        &&& count <= records.len()
        &&& resolve_each(
            records.subrange(records.len() - count, records.len() as int),
            listed_entries(last),
            last.blob,
            last.names,
        )
        &&& resolve_pairs(records.subrange(0, records.len() - count), pairs.drop_last())
    }
}

/// The error that a pair fails with: that of its table where the table
/// does not decode, a short read where its blob lacks bytes of a listed
/// entry.
pub open spec fn pair_error(pair: ArchivePairView) -> Option<CodecError> {
    match parse_table(pair.table, 0).result {
        Err(error) => Some(error),
        Ok(_) => if all_readable(pair.blob, listed_entries(pair)) {
            None
        } else {
            Some(CodecError::ShortRead)
        },
    }
}

/// The error of the first pair that fails, if one does.
pub open spec fn first_pair_error(pairs: Seq<ArchivePairView>) -> Option<CodecError>
    decreases pairs.len(),
{
    if pairs.len() == 0 {
        None
    } else {
        match first_pair_error(pairs.drop_last()) {
            Some(error) => Some(error),
            None => pair_error(pairs.last()),
        }
    }
}

/// A pair that fails among the first pairs fails among all of them.
pub proof fn lemma_first_error_stays(pairs: Seq<ArchivePairView>, count: int)
    requires
        0 <= count <= pairs.len(),
        first_pair_error(pairs.take(count)) is Some,
    ensures
        first_pair_error(pairs) == first_pair_error(pairs.take(count)),
    decreases pairs.len() - count,
{
    if count < pairs.len() {
        assert(pairs.take(count + 1).drop_last() =~= pairs.take(count));
        lemma_first_error_stays(pairs, count + 1);
    } else {
        assert(pairs.take(count) =~= pairs);
    }
}

/// The entries that a test keeps of the first `count` entries of a table
/// are the first that it keeps of the whole table.
pub proof fn lemma_kept_of_a_prefix(
    entries: Seq<ArchiveTableEntry>,
    count: int,
    test: spec_fn(ArchiveTableEntry) -> bool,
)
    requires
        0 <= count <= entries.len(),
    ensures
        entries.filter(test) == entries.take(count).filter(test) + entries.skip(count).filter(
            test,
        ),
{
    assert(entries =~= entries.take(count) + entries.skip(count));
    Seq::filter_distributes_over_add(entries.take(count), entries.skip(count), test);
}

/// Two tests that agree on every entry keep the same entries.
pub proof fn lemma_filter_by_equal_tests(
    entries: Seq<ArchiveTableEntry>,
    first: spec_fn(ArchiveTableEntry) -> bool,
    second: spec_fn(ArchiveTableEntry) -> bool,
)
    requires
        forall|entry: ArchiveTableEntry| #[trigger] first(entry) == second(entry),
    ensures
        entries.filter(first) == entries.filter(second),
    decreases entries.len(),
{
    reveal(Seq::filter);
    if entries.len() > 0 {
        lemma_filter_by_equal_tests(entries.drop_last(), first, second);
    }
}

/// A list in any other order keeps the same entries of a table, and
/// records that resolve against the one resolve against the other.
pub proof fn lemma_resolution_ignores_order(
    records: Seq<PackedArchiveEntryView>,
    entries: Seq<ArchiveTableEntry>,
    blob: Seq<u8>,
    before: Seq<FileListEntry>,
    after: Seq<FileListEntry>,
)
    requires
        before.to_multiset() == after.to_multiset(),
    ensures
        entries.filter(listed_in(before)) == entries.filter(listed_in(after)),
        resolve_each(records, entries.filter(listed_in(after)), blob, after) ==> resolve_each(
            records,
            entries.filter(listed_in(before)),
            blob,
            before,
        ),
{
    assert forall|entry: ArchiveTableEntry| #[trigger]
        listed_in(before)(entry) == listed_in(after)(entry) by {
        lemma_reordering_keeps_listing(before, after, entry.name_hash);
    }
    lemma_filter_by_equal_tests(entries, listed_in(before), listed_in(after));
    let kept = entries.filter(listed_in(after));
    if resolve_each(records, kept, blob, after) {
        assert forall|k: int| 0 <= k < records.len() implies resolves(
            #[trigger] records[k],
            kept[k],
            blob,
            before,
        ) by {
            lemma_reordering_keeps_names(before, after, kept[k].name_hash, records[k].name);
        }
    }
}

fn digit_str(digit: u32) -> (text: &'static str)
    requires
        digit < 10,
    ensures
        text@ == digit_text(digit as nat),
{
    if digit == 0 {
        "0"
    } else if digit == 1 {
        "1"
    } else if digit == 2 {
        "2"
    } else if digit == 3 {
        "3"
    } else if digit == 4 {
        "4"
    } else if digit == 5 {
        "5"
    } else if digit == 6 {
        "6"
    } else if digit == 7 {
        "7"
    } else if digit == 8 {
        "8"
    } else {
        "9"
    }
}

fn decimal_string(value: u32) -> (text: String)
    ensures
        text@ == decimal(value as nat),
    decreases value,
{
    if value < 10 {
        String::from_str(digit_str(value))
    } else {
        let mut text = decimal_string(value / 10);
        text.append(digit_str(value % 10));
        text
    }
}

fn read_payload(input: &mut ByteCursor, entry: &ArchiveTableEntry) -> (r: Result<
    Vec<u8>,
    CodecError,
>)
    ensures
        final(input).data@ == old(input).data@,
        match r {
            Ok(contents) => {
                &&& readable(old(input).data@, *entry)
                &&& contents@ == payload(old(input).data@, entry.offset as int, entry.size as int)
                &&& final(input).position == payload_end(
                    old(input).data@,
                    entry.offset as int,
                    entry.size as int,
                )
            },
            Err(error) => {
                &&& !readable(old(input).data@, *entry)
                &&& error == CodecError::ShortRead
                &&& final(input).position == exhausted(old(input).data@, entry.offset as int)
            },
        },
{
    input.seek(entry.offset as u64);
    if entry.offset > input.data.len() {
        return Err(CodecError::ShortRead);
    }
    let contents = input.read_bytes(entry.size)?;
    assert(contents@ =~= payload(input.data@, entry.offset as int, entry.size as int));
    Ok(contents)
}

impl PackedArchive {
    /// Guesses the extension of a payload from the first `read` bytes of
    /// `guess`.
    pub fn detect_file_extension(guess: &[u8], read: usize) -> (r: Result<
        &'static str,
        CodecError,
    >)
        requires
            read <= guess@.len(),
        ensures
            r matches Ok(extension) && extension@ == extension_of(guess@.take(read as int)),
    {
        let ghost seen = guess@.take(read as int);
        if read == 0 {
            return Ok("null");
        }
        if read >= 4 {
            let magic: u32 = guess[0] as u32 * 0x100_0000 + guess[1] as u32 * 0x1_0000 + guess[2] as u32
                * 0x100 + guess[3] as u32;
            assert(magic == u32_at(seen, 0, false));
            if magic == 0x2053_4444 {
                return Ok("dds");
            }
            if magic == 0x4144_4620 {
                return Ok("adf");
            }
            if magic == 0x4350_5452 {
                return Ok("rtpc");
            }
            if magic == 0x57E0_E057 {
                return Ok("ban");
            }
            if magic == 0x3542_5346 {
                return Ok("fsb5");
            }
        }
        if read >= 8 {
            let high: u32 = guess[0] as u32 * 0x100_0000 + guess[1] as u32 * 0x1_0000 + guess[2] as u32
                * 0x100 + guess[3] as u32;
            let low: u32 = guess[4] as u32 * 0x100_0000 + guess[5] as u32 * 0x1_0000 + guess[6] as u32
                * 0x100 + guess[7] as u32;
            let magic: u64 = high as u64 * 0x1_0000_0000 + low as u64;
            assert(magic == be_u64_at(seen, 0));
            if magic == 0x0000_0030_0000_000E {
                return Ok("btc");
            }
            if magic == 0x444E_4252_0000_0005 {
                return Ok("rbn");
            }
            if magic == 0x4453_4252_0000_0005 {
                return Ok("rbs");
            }
        }
        if read >= 3 {
            if guess[0] == 1 && guess[1] == 4 && guess[2] == 0 {
                return Ok("bin");
            }
        }
        Ok("unknown")
    }

    /// Makes up the name of a payload that no name is known for.
    pub fn synthesize_name(name_hash: u32, extension: &str) -> (name: String)
        ensures
            name@ == unknown_name(name_hash, extension@),
    {
        let mut name = String::from_str("__UNKNOWN/");
        name.append(extension);
        name.append("/");
        let number = decimal_string(name_hash);
        name.append(number.as_str());
        name.append(".");
        name.append(extension);
        name
    }

    /// Resolves a table against a list of names. The list is put in the
    /// order of its hashes first. Each entry of the table whose hash is in
    /// the list gives a record, in the order of the table; the others give
    /// none and are not read. The first listed entry that the blob lacks
    /// bytes of ends the work with a short-read error.
    pub fn deserialize(
        input: &mut ByteCursor,
        archive_table: &ArchiveTable,
        file_list_entries: &mut Vec<FileListEntry>,
    ) -> (r: Result<Vec<PackedArchiveEntry>, CodecError>)
        ensures
            final(input).data@ == old(input).data@,
            final(file_list_entries)@.to_multiset() == old(file_list_entries)@.to_multiset(),
            sorted_by_hash(final(file_list_entries)@),
            payloads_read(
                old(input).data@,
                archive_table.entries@.filter(listed_in(final(file_list_entries)@)),
                old(input).position as int,
                r,
                final(input).position as int,
            ),
            r matches Ok(records) ==> resolve_each(
                record_views(records@),
                archive_table.entries@.filter(listed_in(final(file_list_entries)@)),
                old(input).data@,
                final(file_list_entries)@,
            ),
    {
        let mut entries: Vec<PackedArchiveEntry> = Vec::new();
        sort_by_name_hash(file_list_entries);

        let ghost blob = input.data@;
        let ghost names = file_list_entries@;
        let ghost table = archive_table.entries@;
        let mut i: usize = 0;
        proof {
            reveal(Seq::filter);
            assert(table.take(0) =~= Seq::empty());
        }
        while i < archive_table.entries.len()
            invariant
                i <= table.len(),
                table == archive_table.entries@,
                blob == old(input).data@,
                input.data@ == blob,
                file_list_entries@ == names,
                names.to_multiset() == old(file_list_entries)@.to_multiset(),
                sorted_by_hash(names),
                all_readable(blob, table.take(i as int).filter(listed_in(names))),
                resolve_each(
                    record_views(entries@),
                    table.take(i as int).filter(listed_in(names)),
                    blob,
                    names,
                ),
                input.position == cursor_after(
                    blob,
                    table.take(i as int).filter(listed_in(names)),
                    old(input).position as int,
                ),
            decreases table.len() - i,
        {
            let entry = &archive_table.entries[i];
            let ghost before = record_views(entries@);
            let ghost kept = table.take(i as int).filter(listed_in(names));
            proof {
                reveal(Seq::filter);
                assert(table.take(i + 1).drop_last() =~= table.take(i as int));
            }
            match find_name_hash(file_list_entries, entry.name_hash) {
                Some(index) => {
                    let name = file_list_entries[index].name.clone();
                    let contents = match read_payload(input, entry) {
                        Ok(contents) => contents,
                        Err(error) => {
                            proof {
                                lemma_kept_of_a_prefix(table, i + 1, listed_in(names));
                                let all = table.filter(listed_in(names));
                                assert(table.take(i + 1).filter(listed_in(names)) == kept.push(
                                    *entry,
                                ));
                                assert(all[kept.len() as int] == *entry);
                                assert forall|j: int| 0 <= j < kept.len() implies readable(
                                    blob,
                                    #[trigger] all[j],
                                ) by {
                                    assert(all[j] == kept[j]);
                                }
                                assert(first_unreadable(blob, all, kept.len() as int));
                            }
                            return Err(error);
                        },
                    };
                    let record = PackedArchiveEntry { name, contents };
                    entries.push(record);
                    assert(record_views(entries@) =~= before.push(record@));
                },
                None => {},
            }
            i = i + 1;
        }
        assert(table.take(i as int) =~= table);
        Ok(entries)
    }

    /// Resolves a table against a map from hashes to names. Every entry of
    /// the table gives a record, in the order of the table: under its name
    /// where its hash is in the map, under a name made up from its hash and
    /// its first bytes where it is not. The first entry that the blob lacks
    /// bytes of ends the work with a short-read error.
    pub fn deserialize_with_names(
        input: &mut ByteCursor,
        archive_table: &ArchiveTable,
        names: &HashMap<u32, String>,
    ) -> (r: Result<Vec<PackedArchiveEntry>, CodecError>)
        ensures
            final(input).data@ == old(input).data@,
            payloads_read(
                old(input).data@,
                archive_table.entries@,
                old(input).position as int,
                r,
                final(input).position as int,
            ),
            r matches Ok(records) ==> record_views(records@) == records_by_map(
                names@,
                old(input).data@,
                archive_table.entries@,
            ),
    {
        broadcast use vstd::std_specs::hash::group_hash_axioms;

        let mut entries: Vec<PackedArchiveEntry> = Vec::new();
        let ghost blob = input.data@;
        let ghost table = archive_table.entries@;
        let mut i: usize = 0;
        while i < archive_table.entries.len()
            invariant
                i <= table.len(),
                table == archive_table.entries@,
                blob == old(input).data@,
                input.data@ == blob,
                all_readable(blob, table.take(i as int)),
                record_views(entries@) =~= records_by_map(names@, blob, table.take(i as int)),
                input.position == cursor_after(
                    blob,
                    table.take(i as int),
                    old(input).position as int,
                ),
            decreases table.len() - i,
        {
            let entry = &archive_table.entries[i];
            let ghost before = record_views(entries@);
            let name = match names.get(&entry.name_hash) {
                Some(name) => name.clone(),
                None => {
                    input.seek(entry.offset as u64);
                    let guess = input.read(
                        if entry.size < GUESS_SIZE {
                            entry.size
                        } else {
                            GUESS_SIZE
                        },
                    );
                    assert(guess@.take(guess@.len() as int) =~= guess@);
                    let extension = match PackedArchive::detect_file_extension(
                        guess.as_slice(),
                        guess.len(),
                    ) {
                        Ok(extension) => extension,
                        Err(error) => {
                            return Err(error);
                        },
                    };
                    PackedArchive::synthesize_name(entry.name_hash, extension)
                },
            };
            let contents = match read_payload(input, entry) {
                Ok(contents) => contents,
                Err(error) => {
                    proof {
                        assert forall|j: int| 0 <= j < i implies readable(
                            blob,
                            #[trigger] table[j],
                        ) by {
                            assert(table.take(i as int)[j] == table[j]);
                        }
                        assert(first_unreadable(blob, table, i as int));
                    }
                    return Err(error);
                },
            };
            let record = PackedArchiveEntry { name, contents };
            entries.push(record);
            i = i + 1;
            assert(record_views(entries@) =~= before.push(record@));
            assert(table.take(i as int) =~= table.take(i - 1).push(*entry));
        }
        assert(table.take(i as int) =~= table);
        Ok(entries)
    }

    /// Resolves the one entry that `name` hashes to: the first of the table
    /// that carries the hash of `name`. Only its payload is read. There is
    /// an error where no entry carries the hash, and another where the blob
    /// lacks bytes of the entry that does.
    pub fn deserialize_entry(input: &mut ByteCursor, archive_table: &ArchiveTable, name: &str) -> (r:
        Result<PackedArchiveEntry, CodecError>)
        ensures
            final(input).data@ == old(input).data@,
            match r {
                Ok(record) => exists|k: int|
                    #![trigger first_with_hash(archive_table.entries@, spec_hash_bytes(name.spec_bytes()), k)]
                    {
                        &&& first_with_hash(
                            archive_table.entries@,
                            spec_hash_bytes(name.spec_bytes()),
                            k,
                        )
                        &&& readable(old(input).data@, archive_table.entries@[k])
                        &&& resolves_entry(
                            record@,
                            final(input).position as int,
                            old(input).data@,
                            archive_table.entries@,
                            name@,
                            k,
                        )
                    },
                Err(error) => if without_hash(
                    archive_table.entries@,
                    spec_hash_bytes(name.spec_bytes()),
                ) {
                    &&& error == CodecError::EntryNotFound
                    &&& final(input).position == old(input).position
                } else {
                    &&& error == CodecError::ShortRead
                    &&& exists|k: int|
                        #![trigger first_with_hash(archive_table.entries@, spec_hash_bytes(name.spec_bytes()), k)]
                        {
                            &&& first_with_hash(
                                archive_table.entries@,
                                spec_hash_bytes(name.spec_bytes()),
                                k,
                            )
                            &&& !readable(old(input).data@, archive_table.entries@[k])
                            &&& final(input).position == exhausted(
                                old(input).data@,
                                archive_table.entries@[k].offset as int,
                            )
                        }
                },
            },
    {
        let name_hash = hash_string(name);
        let ghost table = archive_table.entries@;
        let mut i: usize = 0;
        while i < archive_table.entries.len()
            invariant
                i <= table.len(),
                table == archive_table.entries@,
                *input == *old(input),
                name_hash == spec_hash_bytes(name.spec_bytes()),
                forall|j: int| 0 <= j < i ==> (#[trigger] table[j]).name_hash != name_hash,
            decreases table.len() - i,
        {
            let entry = &archive_table.entries[i];
            if entry.name_hash == name_hash {
                assert(first_with_hash(table, name_hash, i as int));
                assert(!without_hash(table, name_hash));
                let contents = read_payload(input, entry)?;
                let record = PackedArchiveEntry { name: String::from_str(name), contents };
                assert(resolves_entry(
                    record@,
                    input.position as int,
                    old(input).data@,
                    table,
                    name@,
                    i as int,
                ));
                return Ok(record);
            }
            i = i + 1;
        }
        Err(CodecError::EntryNotFound)
    }

    /// Resolves several archives, each against its own list of names, and
    /// gives the records of all of them, archive after archive. The first
    /// archive that fails, by its table or by a payload that its blob
    /// lacks bytes of, ends the work with its error.
    pub fn deserialize_from_file_lists(file_lists: Vec<ArchivePair>) -> (r: Result<
        Vec<PackedArchiveEntry>,
        CodecError,
    >)
        ensures
            match r {
                Ok(records) => first_pair_error(pair_views(file_lists@)) is None && resolve_pairs(
                    record_views(records@),
                    pair_views(file_lists@),
                ),
                Err(error) => first_pair_error(pair_views(file_lists@)) == Some(error),
            },
    {
        let ghost all = pair_views(file_lists@);
        let mut remaining = file_lists;
        let mut entries: Vec<PackedArchiveEntry> = Vec::new();
        let ghost mut done: int = 0;
        assert(all.take(0) =~= Seq::empty());
        assert(all.skip(0) =~= all);
        assert(record_views(entries@) =~= Seq::empty());
        while remaining.len() > 0
            invariant
                all == pair_views(file_lists@),
                done + remaining@.len() == all.len(),
                0 <= done,
                pair_views(remaining@) == all.skip(done),
                first_pair_error(all.take(done)) is None,
                resolve_pairs(record_views(entries@), all.take(done)),
            decreases remaining@.len(),
        {
            let ghost before = record_views(entries@);
            let ghost left = pair_views(remaining@);
            let ghost pairs_left = remaining@;
            let pair = remaining.remove(0);
            proof {
                assert(pair@ == left[0]);
                assert forall|k: int| 0 <= k < remaining@.len() implies pair_views(remaining@)[k]
                    == all.skip(done + 1)[k] by {
                    assert(remaining@[k] == pairs_left[k + 1]);
                    assert(left[k + 1] == pairs_left[k + 1]@);
                }
                assert(pair_views(remaining@) =~= all.skip(done + 1));
                assert(all.take(done + 1).drop_last() =~= all.take(done));
                assert(all.take(done + 1).last() == pair@);
            }
            let table = match ArchiveTable::deserialize_from_bytes(pair.table.as_slice()) {
                Ok(table) => table,
                Err(error) => {
                    proof {
                        lemma_first_error_stays(all, done + 1);
                    }
                    return Err(error);
                },
            };
            let mut input = ByteCursor::new(pair.blob);
            let mut names = pair.file_list_entries;
            let resolved = PackedArchive::deserialize(&mut input, &table, &mut names);
            let mut records = match resolved {
                Ok(records) => records,
                Err(error) => {
                    proof {
                        lemma_resolution_ignores_order(
                            Seq::empty(),
                            table.entries@,
                            pair@.blob,
                            pair@.names,
                            names@,
                        );
                        assert(pair_error(pair@) == Some(error));
                        lemma_first_error_stays(all, done + 1);
                    }
                    return Err(error);
                },
            };
            let ghost found = record_views(records@);
            proof {
                lemma_resolution_ignores_order(
                    found,
                    table.entries@,
                    pair@.blob,
                    pair@.names,
                    names@,
                );
            }
            entries.append(&mut records);
            proof {
                done = done + 1;
                let now = record_views(entries@);
                assert(now =~= before + found);
                assert(now.subrange(now.len() - found.len(), now.len() as int) =~= found);
                assert(now.subrange(0, now.len() - found.len()) =~= before);
            }
        }
        assert(all.take(done) =~= all);
        Ok(entries)
    }
}

} // verus!
