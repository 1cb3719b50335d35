use crate::migration::{Entry, Migration};
use crate::search::{FileEntries, SearchResult};
use vstd::prelude::*;
use vstd::string::*;

verus! {

/// Whether the pattern stands in the text at the given position.
pub open spec fn occurs_at(text: Seq<char>, pattern: Seq<char>, at: int) -> bool {
    0 <= at && at + pattern.len() <= text.len() && text.subrange(at, at + pattern.len())
        == pattern
}

/// Whether the pattern stands somewhere in the text.
pub open spec fn occurs_in(text: Seq<char>, pattern: Seq<char>) -> bool {
    exists|at: int| occurs_at(text, pattern, at)
}

/// The characters of a text, one by one.
fn chars_of(text: &str) -> (r: Vec<char>)
    ensures
        r@ == text@,
{
    let mut out: Vec<char> = Vec::new();
    for c in it: text.chars()
        invariant
            it.seq() == text@,
            out@ == text@.take(it.index() as int),
    {
        out.push(c);
    }
    out
}

/// Whether the pattern stands in the text at the given position.
fn stands_at(text: &Vec<char>, pattern: &Vec<char>, at: usize) -> (r: bool)
    requires
        at + pattern.len() <= text.len(),
    ensures
        r == occurs_at(text@, pattern@, at as int),
{
    let mut k: usize = 0;
    while k < pattern.len()
        invariant
            k <= pattern.len(),
            at + pattern.len() <= text.len(),
            forall|j: int| 0 <= j < k ==> text@[at + j] == pattern@[j],
        decreases pattern.len() - k,
    {
        if text[at + k] != pattern[k] {
            assert(text@.subrange(at as int, at + pattern.len())[k as int] != pattern@[k as int]);
            return false;
        }
        k += 1;
    }
    assert(text@.subrange(at as int, at + pattern.len()) =~= pattern@);
    true
}

/// Whether the pattern stands somewhere in the text. The empty pattern
/// stands in every text.
pub fn contains_text(text: &str, pattern: &str) -> (r: bool)
    ensures
        r == occurs_in(text@, pattern@),
{
    let t = chars_of(text);
    let p = chars_of(pattern);
    if p.len() > t.len() {
        return false;
    }
    let last = t.len() - p.len();
    let mut at: usize = 0;
    while at < last
        invariant
            at <= last,
            last == t.len() - p.len(),
            t@ == text@,
            p@ == pattern@,
            forall|j: int| 0 <= j < at ==> !occurs_at(text@, pattern@, j),
        decreases last - at,
    {
        if stands_at(&t, &p, at) {
            return true;
        }
        at += 1;
    }
    stands_at(&t, &p, last)
}

/// What stands before a conforming entry in the listing.
pub const PASS_MARK: &'static str = "  - \u{2705} ";

/// What stands before a non-conforming entry in the listing.
pub const FAIL_MARK: &'static str = "  - \u{274c} ";

/// What stands after the path of a file in the listing.
pub const PATH_END: &'static str = ":";

/// The mathematical value of an optional pattern.
pub open spec fn pattern_view(pattern: Option<String>) -> Option<Seq<char>> {
    match pattern {
        Some(text) => Some(text@),
        None => None,
    }
}

/// Whether a file is listed: every file where no pattern is given, else the
/// files whose path holds the pattern.
pub open spec fn selected(record: FileEntries, pattern: Option<Seq<char>>) -> bool {
    match pattern {
        Some(text) => occurs_in(record.path, text),
        None => true,
    }
}

/// The records of the files that are listed, in their order.
pub open spec fn shown(records: Seq<FileEntries>, pattern: Option<Seq<char>>) -> Seq<
    FileEntries,
> {
    records.filter(|record: FileEntries| selected(record, pattern))
}

/// Whether none of the files has a non-conforming entry.
pub open spec fn all_valid(records: Seq<FileEntries>) -> bool {
    forall|i: int| 0 <= i < records.len() ==> (#[trigger] records[i]).invalid.len() == 0
}

/// One line for each entry: the mark, then the text of the entry.
pub open spec fn marked(mark: Seq<char>, entries: Seq<Entry>) -> Seq<Seq<char>> {
    Seq::new(entries.len(), |i: int| mark + entries[i].text())
}

/// The lines for one file: its path, its conforming entries, and then its
/// non-conforming ones.
pub open spec fn record_lines(record: FileEntries) -> Seq<Seq<char>> {
    seq![record.path + PATH_END@] + marked(PASS_MARK@, record.valid) + marked(
        FAIL_MARK@,
        record.invalid,
    )
}

/// The lines for the files, one file after the other.
pub open spec fn report_lines(records: Seq<FileEntries>) -> Seq<Seq<char>>
    decreases records.len(),
{
    if records.len() == 0 {
        Seq::empty()
    } else {
        report_lines(records.drop_last()) + record_lines(records.last())
    }
}

/// What is shown to the user of the migrations found, and the verdict on
/// them.
#[derive(Debug, Clone, PartialEq, Eq)]
pub struct Listing {
    /// The lines to print, in their order.
    pub lines: Vec<String>,
    /// Whether none of the files listed has a non-conforming entry.
    pub overall_valid: bool,
}

/// Adds one line for each entry: the mark, then the text of the entry.
fn push_marked(lines: &mut Vec<String>, mark: &str, entries: &Vec<Migration>)
    ensures
        final(lines).deep_view() == old(lines).deep_view() + marked(mark@, entries.deep_view()),
{
    let ghost before = lines.deep_view();
    let ghost all = entries.deep_view();
    let mut k: usize = 0;
    assert(lines.deep_view() =~= before + marked(mark@, all.take(0)));
    while k < entries.len()
        invariant
            k <= entries.len(),
            all == entries.deep_view(),
            lines.deep_view() == before + marked(mark@, all.take(k as int)),
        decreases entries.len() - k,
    {
        let ghost so_far = lines.deep_view();
        let mut line = String::from_str(mark);
        match &entries[k] {
            Migration::Named(name) => line.append(name.as_str()),
            Migration::NotOk() => line.append("err"),
        }
        lines.push(line);
        assert(lines.deep_view() =~= so_far.push(mark@ + all[k as int].text()));
        assert(marked(mark@, all.take(k + 1)) =~= marked(mark@, all.take(k as int)).push(
            mark@ + all[k as int].text(),
        ));
        k += 1;
    }
    assert(all.take(k as int) =~= all);
}

/// What one more file adds to the files that are listed.
proof fn lemma_shown_step(records: Seq<FileEntries>, pattern: Option<Seq<char>>, k: int)
    requires
        0 <= k < records.len(),
    ensures
        shown(records.take(k + 1), pattern) == if selected(records[k], pattern) {
            shown(records.take(k), pattern).push(records[k])
        } else {
            shown(records.take(k), pattern)
        },
{
    reveal(Seq::filter);
    assert(records.take(k + 1).drop_last() =~= records.take(k));
}

/// Lists the migrations found. Where a pattern is given, only the files
/// whose path holds it are listed. For each file listed there is a line with
/// its path, a line for each conforming entry, and then a line for each
/// non-conforming one. The verdict says whether the files listed are free of
/// non-conforming entries.
pub fn list_migrations(found: &SearchResult, pattern: &Option<String>) -> (listing: Listing)
    ensures
        listing.lines.deep_view() == report_lines(shown(found@, pattern_view(*pattern))),
        listing.overall_valid == all_valid(shown(found@, pattern_view(*pattern))),
{
    let records = found.records();
    let ghost all = found@;
    let ghost wanted = pattern_view(*pattern);
    let mut lines: Vec<String> = Vec::new();
    let mut overall_valid = true;
    let mut i: usize = 0;
    proof {
        reveal(Seq::filter);
        assert(all.take(0) =~= Seq::empty());
        assert(lines.deep_view() =~= Seq::empty());
    }
    while i < records.len()
        invariant
            i <= records.len(),
            all == records.deep_view(),
            wanted == pattern_view(*pattern),
            lines.deep_view() == report_lines(shown(all.take(i as int), wanted)),
            overall_valid == all_valid(shown(all.take(i as int), wanted)),
        decreases records.len() - i,
    {
        let record = &records[i];
        let listed = match pattern {
            Some(text) => contains_text(record.path.as_str(), text.as_str()),
            None => true,
        };
        proof {
            lemma_shown_step(all, wanted, i as int);
        }
        if listed {
            let ghost so_far = shown(all.take(i as int), wanted);
            let ghost head = lines.deep_view();
            assert(so_far.push(record@).drop_last() =~= so_far);
            let mut title = record.path.clone();
            title.append(PATH_END);
            lines.push(title);
            assert(lines.deep_view() =~= head + seq![record@.path + PATH_END@]);
            push_marked(&mut lines, PASS_MARK, &record.valid);
            push_marked(&mut lines, FAIL_MARK, &record.invalid);
            assert(lines.deep_view() =~= head + record_lines(record@));
            if record.invalid.len() > 0 {
                overall_valid = false;
            }
            assert(all_valid(so_far.push(record@)) == (all_valid(so_far)
                && record@.invalid.len() == 0)) by {
                if all_valid(so_far.push(record@)) {
                    assert(so_far.push(record@)[so_far.len() as int].invalid.len() == 0);
                    assert forall|j: int| 0 <= j < so_far.len() implies (
                    #[trigger] so_far[j]).invalid.len() == 0 by {
                        assert(so_far.push(record@)[j] == so_far[j]);
                    }
                }
            }
        }
        i += 1;
    }
    assert(all.take(i as int) =~= all);
    Listing { lines, overall_valid }
}

} // verus!
