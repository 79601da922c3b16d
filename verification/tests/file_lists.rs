use avalanche_formats::file_formats::file_lists::load;
use avalanche_formats::file_formats::file_lists::load_with_filter;
use avalanche_formats::file_formats::file_lists::FileListEntry;
use avalanche_formats::util::jenkins::hash_string;

#[test]
fn a_line_is_a_name_with_its_hash() {
    let entry = FileListEntry::from_line("ui/intro.gfx").unwrap();
    assert_eq!(entry.name, "ui/intro.gfx");
    assert_eq!(entry.name_hash, 2386027578);
}

#[test]
fn white_space_around_a_name_is_dropped() {
    let entry = FileListEntry::from_line("  \ttextures/ui/zoom.ddsc \r").unwrap();
    assert_eq!(entry.name, "textures/ui/zoom.ddsc");
    assert_eq!(entry.name_hash, hash_string("textures/ui/zoom.ddsc"));
}

#[test]
fn white_space_inside_a_name_is_kept() {
    let entry = FileListEntry::from_line(" rico rodriguez :3 ").unwrap();
    assert_eq!(entry.name, "rico rodriguez :3");
    assert_eq!(entry.name_hash, 1080157782);
}

#[test]
fn white_space_beyond_ascii_is_dropped_too() {
    let entry = FileListEntry::from_line("\u{3000}\u{2003}a\u{a0}\u{85}\u{2028}").unwrap();
    assert_eq!(entry.name, "a");
    assert_eq!(entry.name_hash, hash_string("a"));
}

#[test]
fn a_name_is_hashed_by_its_utf8_bytes() {
    let entry = FileListEntry::from_line("caf\u{e9}").unwrap();
    assert_eq!(entry.name, "caf\u{e9}");
    assert_eq!(
        entry.name_hash,
        avalanche_formats::util::jenkins::hash(&[0x63, 0x61, 0x66, 0xC3, 0xA9], 0, 5, 0)
    );
}

#[test]
fn an_empty_line_is_no_entry() {
    assert!(FileListEntry::from_line("").is_none());
    assert!(FileListEntry::from_line("   \t\r").is_none());
    assert!(FileListEntry::from_line("\u{2000}").is_none());
}

#[test]
fn a_comment_line_is_no_entry() {
    assert!(FileListEntry::from_line("; a comment").is_none());
    assert!(FileListEntry::from_line(";").is_none());
    assert!(FileListEntry::from_line("   ;textures/ui/zoom.ddsc").is_none());
}

#[test]
fn a_semicolon_inside_a_name_is_part_of_it() {
    let entry = FileListEntry::from_line("a;b").unwrap();
    assert_eq!(entry.name, "a;b");
}

#[test]
fn a_name_list_is_read_line_by_line() {
    let entries = load("; names of the intro\r\nui/intro.gfx\r\n\r\n  rico rodriguez :3\n;end\n");
    assert_eq!(entries.len(), 2);
    assert_eq!(entries[0].name, "ui/intro.gfx");
    assert_eq!(entries[0].name_hash, 2386027578);
    assert_eq!(entries[1].name, "rico rodriguez :3");
    assert_eq!(entries[1].name_hash, 1080157782);
}

#[test]
fn a_name_list_without_a_last_line_break_is_read_to_its_end() {
    let entries = load("a\nb");
    assert_eq!(entries.len(), 2);
    assert_eq!(entries[0].name, "a");
    assert_eq!(entries[1].name, "b");
    let entries = load("only");
    assert_eq!(entries.len(), 1);
    assert_eq!(entries[0].name, "only");
}

#[test]
fn an_empty_name_list_has_no_entries() {
    assert!(load("").is_empty());
    assert!(load("\n\n\n").is_empty());
    assert!(load("; nothing but a comment").is_empty());
}

#[test]
fn a_filter_keeps_the_names_it_accepts() {
    let text = "textures/ui/zoom1.ddsc\nmodels/car.rbm\n;textures/ui/zoom2.ddsc\ntextures/ui/zoom3.ddsc\n";
    let entries = load_with_filter(text, |name: &str| name.starts_with("textures/ui/zoom"));
    assert_eq!(entries.len(), 2);
    assert_eq!(entries[0].name, "textures/ui/zoom1.ddsc");
    assert_eq!(entries[0].name_hash, hash_string("textures/ui/zoom1.ddsc"));
    assert_eq!(entries[1].name, "textures/ui/zoom3.ddsc");
    assert!(load_with_filter(text, |_: &str| false).is_empty());
    assert_eq!(load_with_filter(text, |_: &str| true).len(), 3);
}
