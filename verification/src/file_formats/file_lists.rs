//! Name lists: the names that may occur in an archive, each with its hash.

use vstd::prelude::*;
use vstd::string::StringExecFns;
use vstd::string::StringSliceAdditionalSpecFns;
use vstd::string::StrSliceExecFns;

use crate::util::jenkins::hash_string;
use crate::util::jenkins::spec_hash_bytes;

verus! {

/// The character that opens a comment line.
pub const COMMENT: char = ';';

/// The character that ends a line.
pub const LINE_BREAK: char = '\n';

/// A name and the hash it is found by.
pub struct FileListEntry {
    pub name: String,
    pub name_hash: u32,
}

/// What a `FileListEntry` holds.
pub struct FileListEntryView {
    pub name: Seq<char>,
    pub name_hash: u32,
}

impl View for FileListEntry {
    type V = FileListEntryView;

    open spec fn view(&self) -> FileListEntryView {
        FileListEntryView { name: self.name@, name_hash: self.name_hash }
    }
}

/// Whether a character is white space as Unicode defines it: the
/// characters with the property White_Space.
pub open spec fn is_white_space(c: char) -> bool {
    let code = c as u32;
    ||| 0x09 <= code <= 0x0D
    ||| code == 0x20
    ||| code == 0x85
    ||| code == 0xA0
    ||| code == 0x1680
    ||| 0x2000 <= code <= 0x200A
    ||| code == 0x2028
    ||| code == 0x2029
    ||| code == 0x202F
    ||| code == 0x205F
    ||| code == 0x3000
}

/// A line without the white space at its start and at its end.
pub open spec fn trimmed(line: Seq<char>) -> Seq<char>
    decreases line.len(),
{
    if line.len() > 0 && is_white_space(line.first()) {
        trimmed(line.drop_first())
    } else if line.len() > 0 && is_white_space(line.last()) {
        trimmed(line.drop_last())
    } else {
        line
    }
}

/// The entry that a line of a name list stands for: the line without the
/// white space around it is the name, and its hash is taken of its UTF-8
/// bytes. An empty line stands for none, nor does a comment line.
pub open spec fn entry_of_line(line: Seq<char>) -> Option<FileListEntryView> {
    let name = trimmed(line);
    if name.len() == 0 || name[0] == COMMENT {
        None
    } else {
        Some(
            FileListEntryView {
                name,
                name_hash: spec_hash_bytes(vstd::utf8::encode_utf8(name)),
            },
        )
    }
}

/// Calls the standard library's `str::trim`, which takes away the white
/// space, as Unicode defines it, from both ends of a string.
#[verifier::external_body]
fn trim(line: &str) -> (name: &str)
    ensures
        name@ == trimmed(line@),
{
    line.trim()
}

impl FileListEntry {
    /// Reads one line of a name list.
    pub fn from_line(line: &str) -> (entry: Option<FileListEntry>)
        ensures
            match entry {
                Some(entry) => entry_of_line(line@) == Some(entry@),
                None => entry_of_line(line@) is None,
            },
    {
        let name = trim(line);
        if name.is_empty() {
            return None;
        }
        if name.get_char(0) == COMMENT {
            return None;
        }
        let name_hash = hash_string(name);
        Some(FileListEntry { name: String::from_str(name), name_hash })
    }
}

/// The views of a run of entries.
pub open spec fn entry_views(entries: Seq<FileListEntry>) -> Seq<FileListEntryView> {
    entries.map_values(|entry: FileListEntry| entry@)
}

/// Where the first line of a text ends: at its first line break, or at the
/// end of the text where it has none.
pub open spec fn line_end(text: Seq<char>) -> int
    decreases text.len(),
{
    if text.len() == 0 || text[0] == LINE_BREAK {
        0
    } else {
        1 + line_end(text.drop_first())
    }
}

/// The lines of a text: what stands between its line breaks, before the
/// first and after the last. A text without line breaks is one line.
pub open spec fn lines_of(text: Seq<char>) -> Seq<Seq<char>>
    decreases text.len(),
{
    let end = line_end(text);
    if 0 <= end < text.len() {
        seq![text.take(end)] + lines_of(text.skip(end + 1))
    } else {
        seq![text]
    }
}

/// Reading one line, as a function of the line.
pub open spec fn line_reader() -> spec_fn(Seq<char>) -> Option<FileListEntryView> {
    |line: Seq<char>| entry_of_line(line)
}

/// The entries that lines stand for, in the order of the lines.
pub open spec fn entries_of_lines(lines: Seq<Seq<char>>) -> Seq<FileListEntryView> {
    lines.filter_map(line_reader())
}

/// The entries that the text of a name list stands for.
pub open spec fn entries_of_text(text: Seq<char>) -> Seq<FileListEntryView> {
    entries_of_lines(lines_of(text))
}

/// Whether a filter may answer `verdict` when it is asked about `name`.
pub open spec fn answers<F: Fn(&str) -> bool>(filter: F, name: Seq<char>, verdict: bool) -> bool {
    exists|text: &str| text@ == name && #[trigger] call_ensures(filter, (text,), verdict)
}

/// Whether `kept` is what a filter leaves of `all`: the entries whose names
/// it accepted, in their order, each of the others having been rejected.
pub open spec fn filtered<F: Fn(&str) -> bool>(
    filter: F,
    all: Seq<FileListEntryView>,
    kept: Seq<FileListEntryView>,
) -> bool
    decreases all.len(),
{
    if all.len() == 0 {
        kept.len() == 0
    } else {
        ||| {
            &&& kept.len() > 0
            &&& kept.last() == all.last()
            &&& answers(filter, all.last().name, true)
            &&& filtered(filter, all.drop_last(), kept.drop_last())
        }
        ||| {
            &&& answers(filter, all.last().name, false)
            &&& filtered(filter, all.drop_last(), kept)
        }
    }
}

/// The first line of a text ends where its first line break stands.
pub proof fn lemma_line_end(text: Seq<char>, end: int)
    requires
        0 <= end <= text.len(),
        forall|j: int| 0 <= j < end ==> text[j] != LINE_BREAK,
        end == text.len() || text[end] == LINE_BREAK,
    ensures
        line_end(text) == end,
    decreases end,
{
    if end > 0 {
        let rest = text.drop_first();
        assert forall|j: int| 0 <= j < end - 1 implies rest[j] != LINE_BREAK by {
            assert(rest[j] == text[j + 1]);
        }
        lemma_line_end(rest, end - 1);
    }
}

/// A filter that rejects nothing leaves all.
pub proof fn lemma_filter_that_rejects_nothing<F: Fn(&str) -> bool>(
    filter: F,
    all: Seq<FileListEntryView>,
    kept: Seq<FileListEntryView>,
)
    requires
        filtered(filter, all, kept),
        forall|text: &str| !#[trigger] call_ensures(filter, (text,), false),
    ensures
        kept == all,
    decreases all.len(),
{
    if all.len() > 0 {
        lemma_filter_that_rejects_nothing(filter, all.drop_last(), kept.drop_last());
        assert(kept =~= kept.drop_last().push(kept.last()));
        assert(all =~= all.drop_last().push(all.last()));
    } else {
        assert(kept =~= all);
    }
}

/// Calls the standard library's `str::split_once` with the line break as
/// the delimiter, which parts a text at its first line break and gives what
/// stands before it and what stands after it, or nothing where the text
/// has no line break.
#[verifier::external_body]
fn split_at_line_break(text: &str) -> (r: Option<(&str, &str)>)
    ensures
        match r {
            Some((line, rest)) => text@ == line@ + seq![LINE_BREAK] + rest@ && !line@.contains(
                LINE_BREAK,
            ),
            None => !text@.contains(LINE_BREAK),
        },
{
    text.split_once(LINE_BREAK)
}

fn accept_all(name: &str) -> (keep: bool)
    ensures
        keep,
{
    true
}

/// Reads a name list from its text, keeping the names that `filter`
/// accepts.
pub fn load_with_filter<F: Fn(&str) -> bool>(contents: &str, filter: F) -> (entries: Vec<
    FileListEntry,
>)
    requires
        forall|name: &str| call_requires(filter, (name,)),
    ensures
        filtered(filter, entries_of_text(contents@), entry_views(entries@)),
{
    let mut entries: Vec<FileListEntry> = Vec::new();
    let mut rest: &str = contents;
    let mut finished: bool = false;
    let ghost mut done: Seq<Seq<char>> = Seq::empty();
    assert(done + lines_of(rest@) =~= lines_of(contents@));
    assert(entries_of_lines(done) =~= Seq::empty());
    assert(entry_views(entries@) =~= Seq::empty());
    while !finished
        invariant
            forall|name: &str| call_requires(filter, (name,)),
            !finished ==> lines_of(contents@) == done + lines_of(rest@),
            finished ==> lines_of(contents@) == done,
            filtered(filter, entries_of_lines(done), entry_views(entries@)),
        decreases
            (if finished {
                0
            } else {
                rest@.len() + 1
            }),
    {
        let ghost text = rest@;
        let ghost before = entry_views(entries@);
        let ghost read = entries_of_lines(done);
        let line: &str = match split_at_line_break(rest) {
            Some((line, next)) => {
                proof {
                    assert(text[line@.len() as int] == LINE_BREAK);
                    assert forall|j: int| 0 <= j < line@.len() implies text[j] != LINE_BREAK by {
                        assert(line@[j] == text[j]);
                        assert(!line@.contains(text[j]) || text[j] != LINE_BREAK);
                    }
                    lemma_line_end(text, line@.len() as int);
                    assert(text.take(line@.len() as int) =~= line@);
                    assert(text.skip(line@.len() as int + 1) =~= next@);
                    assert(done.push(line@) + lines_of(next@) =~= done + lines_of(text));
                }
                rest = next;
                line
            },
            None => {
                proof {
                    assert forall|j: int| 0 <= j < text.len() implies text[j] != LINE_BREAK by {
                        assert(text.contains(text[j]));
                    }
                    lemma_line_end(text, text.len() as int);
                    assert(done.push(text) =~= done + lines_of(text));
                }
                finished = true;
                rest
            },
        };
        proof {
            let lines = done.push(line@);
            lines.lemma_filter_map_take_succ(line_reader(), done.len() as int);
            assert(lines.take(done.len() as int + 1) =~= lines);
            assert(lines.take(done.len() as int) =~= done);
            done = lines;
        }
        match FileListEntry::from_line(line) {
            Some(entry) => {
                let ghost now = entries_of_lines(done);
                assert(now =~= read.push(entry@));
                assert(now.drop_last() =~= read);
                if filter(entry.name.as_str()) {
                    assert(answers(filter, entry@.name, true));
                    entries.push(entry);
                    assert(entry_views(entries@) =~= before.push(entry@));
                    assert(entry_views(entries@).drop_last() =~= before);
                } else {
                    assert(answers(filter, entry@.name, false));
                }
            },
            None => {
                assert(entries_of_lines(done) =~= read);
            },
        }
    }
    entries
}

/// Reads a name list from its text.
pub fn load(contents: &str) -> (entries: Vec<FileListEntry>)
    ensures
        entry_views(entries@) == entries_of_text(contents@),
{
    let entries = load_with_filter(contents, accept_all);
    proof {
        lemma_filter_that_rejects_nothing(
            accept_all,
            entries_of_text(contents@),
            entry_views(entries@),
        );
    }
    entries
}

/// Whether some entry of `names` carries `hash`.
pub open spec fn is_listed(names: Seq<FileListEntry>, hash: u32) -> bool {
    exists|j: int| 0 <= j < names.len() && (#[trigger] names[j]).name_hash == hash
}

/// Whether `names` stands in the order of its hashes.
pub open spec fn sorted_by_hash(names: Seq<FileListEntry>) -> bool {
    forall|i: int, j: int|
        0 <= i <= j < names.len() ==> (#[trigger] names[i]).name_hash <= (
        #[trigger] names[j]).name_hash
}

/// A list that holds the same entries in another order lists the same
/// hashes.
pub proof fn lemma_reordering_keeps_listing(
    before: Seq<FileListEntry>,
    after: Seq<FileListEntry>,
    hash: u32,
)
    requires
        before.to_multiset() == after.to_multiset(),
    ensures
        is_listed(before, hash) == is_listed(after, hash),
{
    before.to_multiset_ensures();
    after.to_multiset_ensures();
    if is_listed(before, hash) {
        let j = choose|j: int| 0 <= j < before.len() && (#[trigger] before[j]).name_hash == hash;
        assert(before.contains(before[j]));
        assert(before.to_multiset().count(before[j]) > 0);
        assert(after.to_multiset().count(before[j]) > 0);
        assert(after.contains(before[j]));
        let k = choose|k: int| 0 <= k < after.len() && after[k] == before[j];
        assert(after[k].name_hash == hash);
    }
    if is_listed(after, hash) {
        let j = choose|j: int| 0 <= j < after.len() && (#[trigger] after[j]).name_hash == hash;
        assert(after.contains(after[j]));
        assert(after.to_multiset().count(after[j]) > 0);
        assert(before.to_multiset().count(after[j]) > 0);
        assert(before.contains(after[j]));
        let k = choose|k: int| 0 <= k < before.len() && before[k] == after[j];
        assert(before[k].name_hash == hash);
    }
}

/// Whether `names` holds an entry that carries `hash` under `name`.
pub open spec fn names_hash(names: Seq<FileListEntry>, hash: u32, name: Seq<char>) -> bool {
    exists|j: int|
        0 <= j < names.len() && (#[trigger] names[j]).name_hash == hash && names[j].name@ == name
}

/// A list that holds the same entries in another order gives the same
/// names to the same hashes.
pub proof fn lemma_reordering_keeps_names(
    before: Seq<FileListEntry>,
    after: Seq<FileListEntry>,
    hash: u32,
    name: Seq<char>,
)
    requires
        before.to_multiset() == after.to_multiset(),
    ensures
        names_hash(before, hash, name) == names_hash(after, hash, name),
{
    before.to_multiset_ensures();
    after.to_multiset_ensures();
    if names_hash(before, hash, name) {
        let j = choose|j: int|
            0 <= j < before.len() && (#[trigger] before[j]).name_hash == hash && before[j].name@
                == name;
        assert(before.contains(before[j]));
        assert(before.to_multiset().count(before[j]) > 0);
        assert(after.to_multiset().count(before[j]) > 0);
        assert(after.contains(before[j]));
        let k = choose|k: int| 0 <= k < after.len() && after[k] == before[j];
        assert(after[k].name_hash == hash && after[k].name@ == name);
    }
    if names_hash(after, hash, name) {
        let j = choose|j: int|
            0 <= j < after.len() && (#[trigger] after[j]).name_hash == hash && after[j].name@
                == name;
        assert(after.contains(after[j]));
        assert(after.to_multiset().count(after[j]) > 0);
        assert(before.to_multiset().count(after[j]) > 0);
        assert(before.contains(after[j]));
        let k = choose|k: int| 0 <= k < before.len() && before[k] == after[j];
        assert(before[k].name_hash == hash && before[k].name@ == name);
    }
}

/// Puts a list in the order of its hashes with the standard library's
/// `sort_unstable_by_key`: the list holds the same entries afterwards, and
/// entries of equal hash stand in no promised order.
#[verifier::external_body]
pub(crate) fn sort_by_name_hash(entries: &mut Vec<FileListEntry>)
    ensures
        final(entries)@.to_multiset() == old(entries)@.to_multiset(),
        sorted_by_hash(final(entries)@),
{
    entries.sort_unstable_by_key(|entry| entry.name_hash);
}

/// Finds an entry of a sorted list by its hash. Where several entries carry
/// the hash, any of them may be the one found.
pub fn find_name_hash(entries: &Vec<FileListEntry>, hash: u32) -> (found: Option<usize>)
    requires
        sorted_by_hash(entries@),
    ensures
        match found {
            Some(index) => index < entries@.len() && entries@[index as int].name_hash == hash,
            None => !is_listed(entries@, hash),
        },
{
    let mut low: usize = 0;
    let mut high: usize = entries.len();
    while low < high
        invariant
            low <= high <= entries@.len(),
            sorted_by_hash(entries@),
            forall|j: int| 0 <= j < low ==> (#[trigger] entries@[j]).name_hash < hash,
            forall|j: int| high <= j < entries@.len() ==> (#[trigger] entries@[j]).name_hash > hash,
        decreases high - low,
    {
        let middle: usize = low + (high - low) / 2;
        let candidate: u32 = entries[middle].name_hash;
        if candidate == hash {
            return Some(middle);
        } else if candidate < hash {
            low = middle + 1;
        } else {
            high = middle;
        }
    }
    None
}

} // verus!
