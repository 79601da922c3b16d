use std::collections::HashMap;

use avalanche_formats::file_formats::archive_table::ArchiveTable;
use avalanche_formats::file_formats::archive_table::ArchiveTableEntry;
use avalanche_formats::file_formats::file_lists::find_name_hash;
use avalanche_formats::file_formats::file_lists::FileListEntry;
use avalanche_formats::file_formats::packed_archive::ArchivePair;
use avalanche_formats::file_formats::packed_archive::PackedArchive;
use avalanche_formats::helpers::byte::ByteCursor;
use avalanche_formats::helpers::error::CodecError;
use avalanche_formats::util::jenkins::hash_string;

fn table(entries: Vec<ArchiveTableEntry>) -> ArchiveTable {
    ArchiveTable { le: true, alignment: 0x800, entries }
}

fn entry(name_hash: u32, offset: usize, size: usize) -> ArchiveTableEntry {
    ArchiveTableEntry { name_hash, offset, size }
}

fn listed(name: &str, name_hash: u32) -> FileListEntry {
    FileListEntry { name: name.to_string(), name_hash }
}

fn table_bytes(records: &[(u32, u32, u32)]) -> Vec<u8> {
    let mut bytes = vec![b'T', b'A', b'B', 0, 2, 0, 1, 0, 0x00, 0x08, 0, 0];
    for (name_hash, offset, size) in records {
        bytes.extend_from_slice(&name_hash.to_le_bytes());
        bytes.extend_from_slice(&offset.to_le_bytes());
        bytes.extend_from_slice(&size.to_le_bytes());
    }
    bytes
}

#[test]
fn no_bytes_are_null() {
    assert_eq!(PackedArchive::detect_file_extension(&[0; 32], 0), Ok("null"));
    assert_eq!(PackedArchive::detect_file_extension(&[], 0), Ok("null"));
    assert_eq!(PackedArchive::detect_file_extension(b" SDD", 0), Ok("null"));
}

#[test]
fn four_byte_magics_are_recognised() {
    assert_eq!(PackedArchive::detect_file_extension(&[0x20, 0x53, 0x44, 0x44], 4), Ok("dds"));
    assert_eq!(PackedArchive::detect_file_extension(&[0x41, 0x44, 0x46, 0x20], 4), Ok("adf"));
    assert_eq!(PackedArchive::detect_file_extension(&[0x43, 0x50, 0x54, 0x52], 4), Ok("rtpc"));
    assert_eq!(PackedArchive::detect_file_extension(&[0x57, 0xE0, 0xE0, 0x57], 4), Ok("ban"));
    assert_eq!(PackedArchive::detect_file_extension(&[0x35, 0x42, 0x53, 0x46], 4), Ok("fsb5"));
}

#[test]
fn a_magic_is_recognised_whatever_follows() {
    let mut guess = [0xFFu8; 32];
    guess[..4].copy_from_slice(&[0x20, 0x53, 0x44, 0x44]);
    assert_eq!(PackedArchive::detect_file_extension(&guess, 32), Ok("dds"));
}

#[test]
fn eight_byte_magics_are_recognised() {
    assert_eq!(
        PackedArchive::detect_file_extension(&[0, 0, 0, 0x30, 0, 0, 0, 0x0E], 8),
        Ok("btc")
    );
    assert_eq!(
        PackedArchive::detect_file_extension(&[0x44, 0x4E, 0x42, 0x52, 0, 0, 0, 5], 8),
        Ok("rbn")
    );
    assert_eq!(
        PackedArchive::detect_file_extension(&[0x44, 0x53, 0x42, 0x52, 0, 0, 0, 5], 8),
        Ok("rbs")
    );
}

#[test]
fn an_eight_byte_magic_needs_eight_bytes() {
    assert_eq!(
        PackedArchive::detect_file_extension(&[0x44, 0x4E, 0x42, 0x52, 0, 0, 0, 5], 7),
        Ok("unknown")
    );
}

#[test]
fn a_four_byte_magic_needs_four_bytes() {
    assert_eq!(
        PackedArchive::detect_file_extension(&[0x20, 0x53, 0x44, 0x44], 3),
        Ok("unknown")
    );
}

#[test]
fn one_four_zero_is_bin() {
    assert_eq!(PackedArchive::detect_file_extension(&[1, 4, 0], 3), Ok("bin"));
    assert_eq!(PackedArchive::detect_file_extension(&[1, 4, 0, 9, 9, 9, 9, 9, 9], 9), Ok("bin"));
    assert_eq!(PackedArchive::detect_file_extension(&[1, 4, 0], 2), Ok("unknown"));
}

#[test]
fn anything_else_is_unknown() {
    assert_eq!(PackedArchive::detect_file_extension(&[1, 4, 1, 0], 4), Ok("unknown"));
    assert_eq!(PackedArchive::detect_file_extension(&[0x44, 0x44, 0x53, 0x20], 4), Ok("unknown"));
    assert_eq!(PackedArchive::detect_file_extension(&[7], 1), Ok("unknown"));
    assert_eq!(PackedArchive::detect_file_extension(&[0xAB; 32], 32), Ok("unknown"));
}

#[test]
fn a_made_up_name_holds_the_hash_in_decimal() {
    assert_eq!(PackedArchive::synthesize_name(2386027578, "dds"), "__UNKNOWN/dds/2386027578.dds");
    assert_eq!(PackedArchive::synthesize_name(0, "null"), "__UNKNOWN/null/0.null");
    assert_eq!(PackedArchive::synthesize_name(7, "bin"), "__UNKNOWN/bin/7.bin");
    assert_eq!(PackedArchive::synthesize_name(10, "x"), "__UNKNOWN/x/10.x");
    assert_eq!(PackedArchive::synthesize_name(1090, "x"), "__UNKNOWN/x/1090.x");
    assert_eq!(
        PackedArchive::synthesize_name(u32::MAX, "unknown"),
        "__UNKNOWN/unknown/4294967295.unknown"
    );
}

#[test]
fn a_sorted_list_is_searched_by_hash() {
    let names = vec![listed("a", 10), listed("b", 20), listed("c", 30), listed("d", 40)];
    assert_eq!(find_name_hash(&names, 10), Some(0));
    assert_eq!(find_name_hash(&names, 20), Some(1));
    assert_eq!(find_name_hash(&names, 30), Some(2));
    assert_eq!(find_name_hash(&names, 40), Some(3));
    assert_eq!(find_name_hash(&names, 0), None);
    assert_eq!(find_name_hash(&names, 25), None);
    assert_eq!(find_name_hash(&names, 41), None);
    assert_eq!(find_name_hash(&Vec::new(), 41), None);
}

#[test]
fn listed_entries_are_resolved_in_the_order_of_the_table() {
    let blob: Vec<u8> = (0..64).collect();
    let mut input = ByteCursor::new(blob);
    let archive_table = table(vec![entry(30, 8, 4), entry(99, 0, 2), entry(10, 40, 3), entry(20, 1, 1)]);
    let mut names = vec![listed("thirty", 30), listed("ten", 10), listed("twenty", 20), listed("five", 5)];
    let records = PackedArchive::deserialize(&mut input, &archive_table, &mut names).unwrap();
    assert_eq!(records.len(), 3);
    assert_eq!(records[0].name, "thirty");
    assert_eq!(records[0].contents, vec![8, 9, 10, 11]);
    assert_eq!(records[1].name, "ten");
    assert_eq!(records[1].contents, vec![40, 41, 42]);
    assert_eq!(records[2].name, "twenty");
    assert_eq!(records[2].contents, vec![1]);
    // the cursor is behind the last payload that was read
    assert_eq!(input.stream_position(), 2);
}

#[test]
fn the_list_is_left_in_the_order_of_its_hashes() {
    let mut input = ByteCursor::new(vec![0; 8]);
    let archive_table = table(vec![]);
    let mut names = vec![listed("c", 30), listed("a", 10), listed("d", 40), listed("b", 20)];
    let records = PackedArchive::deserialize(&mut input, &archive_table, &mut names).unwrap();
    assert!(records.is_empty());
    let order: Vec<(&str, u32)> =
        names.iter().map(|entry| (entry.name.as_str(), entry.name_hash)).collect();
    assert_eq!(order, vec![("a", 10), ("b", 20), ("c", 30), ("d", 40)]);
    assert_eq!(input.stream_position(), 0);
}

#[test]
fn a_listed_payload_that_the_blob_lacks_is_a_short_read() {
    let mut input = ByteCursor::new(vec![1, 2, 3, 4, 5]);
    let archive_table = table(vec![entry(1, 0, 2), entry(2, 3, 4), entry(3, 0, 1)]);
    let mut names = vec![listed("partly", 2), listed("whole", 1), listed("after", 3)];
    assert_eq!(
        PackedArchive::deserialize(&mut input, &archive_table, &mut names).err(),
        Some(CodecError::ShortRead)
    );
    // the cursor is where the blob ran out
    assert_eq!(input.stream_position(), 5);
}

#[test]
fn a_listed_payload_past_the_end_is_a_short_read() {
    let mut input = ByteCursor::new(vec![1, 2, 3, 4, 5]);
    let archive_table = table(vec![entry(2, 100, 2)]);
    let mut names = vec![listed("beyond", 2)];
    assert_eq!(
        PackedArchive::deserialize(&mut input, &archive_table, &mut names).err(),
        Some(CodecError::ShortRead)
    );
    assert_eq!(input.stream_position(), 100);
    let archive_table = table(vec![entry(2, 6, 0)]);
    assert_eq!(
        PackedArchive::deserialize(&mut input, &archive_table, &mut names).err(),
        Some(CodecError::ShortRead)
    );
}

#[test]
fn a_payload_may_end_with_the_blob() {
    let mut input = ByteCursor::new(vec![1, 2, 3, 4, 5]);
    let archive_table = table(vec![entry(1, 3, 2), entry(2, 5, 0)]);
    let mut names = vec![listed("last", 1), listed("empty", 2)];
    let records = PackedArchive::deserialize(&mut input, &archive_table, &mut names).unwrap();
    assert_eq!(records[0].contents, vec![4, 5]);
    assert!(records[1].contents.is_empty());
    assert_eq!(input.stream_position(), 5);
}

#[test]
fn an_entry_that_is_not_listed_is_not_read() {
    let mut input = ByteCursor::new(vec![1, 2, 3, 4, 5]);
    let archive_table = table(vec![entry(9, 100, 50), entry(1, 1, 2)]);
    let mut names = vec![listed("one", 1)];
    let records = PackedArchive::deserialize(&mut input, &archive_table, &mut names).unwrap();
    assert_eq!(records.len(), 1);
    assert_eq!(records[0].contents, vec![2, 3]);
}

#[test]
fn names_in_the_map_are_used() {
    let mut input = ByteCursor::new(vec![1, 2, 3, 4, 5, 6, 7, 8]);
    let archive_table = table(vec![entry(20, 4, 2), entry(10, 0, 3)]);
    let mut names = HashMap::new();
    names.insert(10u32, "textures/ten.ddsc".to_string());
    names.insert(20u32, "textures/twenty.ddsc".to_string());
    let records = PackedArchive::deserialize_with_names(&mut input, &archive_table, &names).unwrap();
    assert_eq!(records.len(), 2);
    assert_eq!(records[0].name, "textures/twenty.ddsc");
    assert_eq!(records[0].contents, vec![5, 6]);
    assert_eq!(records[1].name, "textures/ten.ddsc");
    assert_eq!(records[1].contents, vec![1, 2, 3]);
    assert_eq!(input.stream_position(), 3);
}

#[test]
fn an_unnamed_dds_payload_gets_a_dds_name() {
    let mut blob = vec![0u8; 16];
    blob.extend_from_slice(&[0x20, 0x53, 0x44, 0x44, 1, 2, 3, 4]);
    let mut input = ByteCursor::new(blob);
    let archive_table = table(vec![entry(2386027578, 16, 8)]);
    let records =
        PackedArchive::deserialize_with_names(&mut input, &archive_table, &HashMap::new()).unwrap();
    assert_eq!(records.len(), 1);
    assert_eq!(records[0].name, "__UNKNOWN/dds/2386027578.dds");
    assert_eq!(records[0].contents, vec![0x20, 0x53, 0x44, 0x44, 1, 2, 3, 4]);
}

#[test]
fn an_unnamed_payload_without_bytes_gets_a_null_name() {
    let mut input = ByteCursor::new(vec![0x20, 0x53, 0x44, 0x44]);
    let archive_table = table(vec![entry(5, 0, 0), entry(6, 4, 0)]);
    let records =
        PackedArchive::deserialize_with_names(&mut input, &archive_table, &HashMap::new()).unwrap();
    assert_eq!(records[0].name, "__UNKNOWN/null/5.null");
    assert!(records[0].contents.is_empty());
    assert_eq!(records[1].name, "__UNKNOWN/null/6.null");
    assert!(records[1].contents.is_empty());
}

#[test]
fn a_payload_that_the_blob_lacks_is_a_short_read_under_a_map_too() {
    let mut names = HashMap::new();
    names.insert(6u32, "six".to_string());
    for entries in [vec![entry(5, 0, 2), entry(6, 2, 3)], vec![entry(7, 900, 4)]] {
        let mut input = ByteCursor::new(vec![0x20, 0x53, 0x44, 0x44]);
        assert_eq!(
            PackedArchive::deserialize_with_names(&mut input, &table(entries), &names).err(),
            Some(CodecError::ShortRead)
        );
    }
}

#[test]
fn an_unnamed_payload_of_no_known_kind_gets_an_unknown_name() {
    let mut input = ByteCursor::new(vec![9, 9, 9, 9, 9, 9, 9, 9, 1, 4, 0]);
    let archive_table = table(vec![entry(11, 0, 8), entry(12, 8, 3), entry(13, 8, 2)]);
    let records =
        PackedArchive::deserialize_with_names(&mut input, &archive_table, &HashMap::new()).unwrap();
    assert_eq!(records[0].name, "__UNKNOWN/unknown/11.unknown");
    assert_eq!(records[1].name, "__UNKNOWN/bin/12.bin");
    assert_eq!(records[2].name, "__UNKNOWN/unknown/13.unknown");
}

#[test]
fn a_guess_does_not_look_past_the_entry() {
    // the magic is there, but the entry holds only three bytes of it
    let mut input = ByteCursor::new(vec![0x20, 0x53, 0x44, 0x44, 0, 0, 0, 0]);
    let archive_table = table(vec![entry(21, 0, 3)]);
    let records =
        PackedArchive::deserialize_with_names(&mut input, &archive_table, &HashMap::new()).unwrap();
    assert_eq!(records[0].name, "__UNKNOWN/unknown/21.unknown");
    assert_eq!(records[0].contents, vec![0x20, 0x53, 0x44]);
}

#[test]
fn one_entry_is_resolved_by_its_name() {
    let hash = hash_string("ui/intro.gfx");
    let mut input = ByteCursor::new((0..32).collect());
    let archive_table = table(vec![entry(1, 0, 4), entry(hash, 10, 5), entry(hash, 20, 2)]);
    let record = PackedArchive::deserialize_entry(&mut input, &archive_table, "ui/intro.gfx").unwrap();
    assert_eq!(record.name, "ui/intro.gfx");
    assert_eq!(record.contents, vec![10, 11, 12, 13, 14]);
    assert_eq!(input.stream_position(), 15);
}

#[test]
fn a_name_that_no_entry_carries_is_not_found() {
    let mut input = ByteCursor::new((0..32).collect());
    input.seek(7);
    let archive_table = table(vec![entry(1, 0, 4), entry(2, 10, 5)]);
    assert_eq!(
        PackedArchive::deserialize_entry(&mut input, &archive_table, "ui/intro.gfx").err(),
        Some(CodecError::EntryNotFound)
    );
    assert_eq!(input.stream_position(), 7);
    assert_eq!(
        PackedArchive::deserialize_entry(&mut input, &table(vec![]), "").err(),
        Some(CodecError::EntryNotFound)
    );
}

#[test]
fn one_entry_that_the_blob_lacks_is_a_short_read() {
    let hash = hash_string("ui/intro.gfx");
    let mut input = ByteCursor::new((0..32).collect());
    let archive_table = table(vec![entry(hash, 30, 5), entry(hash, 0, 2)]);
    assert_eq!(
        PackedArchive::deserialize_entry(&mut input, &archive_table, "ui/intro.gfx").err(),
        Some(CodecError::ShortRead)
    );
    assert_eq!(input.stream_position(), 32);
}

#[test]
fn an_archive_whose_blob_is_short_ends_the_work() {
    let good = ArchivePair {
        table: table_bytes(&[(1, 0, 1)]),
        blob: vec![1],
        file_list_entries: vec![listed("one", 1)],
    };
    let short = ArchivePair {
        table: table_bytes(&[(2, 0, 2)]),
        blob: vec![1],
        file_list_entries: vec![listed("two", 2)],
    };
    let bad = ArchivePair { table: vec![1, 2, 3, 4], blob: vec![], file_list_entries: vec![] };
    assert_eq!(
        PackedArchive::deserialize_from_file_lists(vec![good, short, bad]).err(),
        Some(CodecError::ShortRead)
    );
}

#[test]
fn several_archives_are_resolved_one_after_the_other() {
    let first = ArchivePair {
        table: table_bytes(&[(2, 0, 2), (1, 2, 2), (3, 0, 1)]),
        blob: vec![1, 2, 3, 4],
        file_list_entries: vec![listed("one", 1), listed("two", 2)],
    };
    let second = ArchivePair {
        table: table_bytes(&[]),
        blob: vec![],
        file_list_entries: vec![listed("none", 9)],
    };
    let third = ArchivePair {
        table: table_bytes(&[(7, 1, 1)]),
        blob: vec![5, 6],
        file_list_entries: vec![listed("seven", 7)],
    };
    let records = PackedArchive::deserialize_from_file_lists(vec![first, second, third]).unwrap();
    assert_eq!(records.len(), 3);
    assert_eq!(records[0].name, "two");
    assert_eq!(records[0].contents, vec![1, 2]);
    assert_eq!(records[1].name, "one");
    assert_eq!(records[1].contents, vec![3, 4]);
    assert_eq!(records[2].name, "seven");
    assert_eq!(records[2].contents, vec![6]);
    assert!(PackedArchive::deserialize_from_file_lists(Vec::new()).unwrap().is_empty());
}

#[test]
fn the_first_bad_table_ends_the_work() {
    let good = ArchivePair {
        table: table_bytes(&[(1, 0, 1)]),
        blob: vec![1],
        file_list_entries: vec![listed("one", 1)],
    };
    let mut bad_alignment = table_bytes(&[]);
    bad_alignment[8] = 1;
    let second = ArchivePair { table: bad_alignment, blob: vec![], file_list_entries: vec![] };
    let third = ArchivePair { table: vec![1, 2, 3, 4], blob: vec![], file_list_entries: vec![] };
    assert_eq!(
        PackedArchive::deserialize_from_file_lists(vec![good, second, third]).err(),
        Some(CodecError::FormatMismatch)
    );
}
