use crate::migration::{Entry, Migration};
use crate::naming::same_text;
use vstd::prelude::*;

verus! {

/// The mathematical value of a [`FileRecord`].
pub struct FileEntries {
    /// The path of the file.
    pub path: Seq<char>,
    /// The conforming entries, in source order.
    pub valid: Seq<Entry>,
    /// The non-conforming entries, in source order.
    pub invalid: Seq<Entry>,
}

/// The migrations found in one file, sorted by the naming convention.
#[derive(Debug, Clone, PartialEq, Eq)]
pub struct FileRecord {
    /// The path of the file.
    pub path: String,
    /// The conforming entries, in source order.
    pub valid: Vec<Migration>,
    /// The non-conforming entries, in source order.
    pub invalid: Vec<Migration>,
}

impl View for FileRecord {
    type V = FileEntries;

    open spec fn view(&self) -> FileEntries {
        FileEntries {
            path: self.path@,
            valid: self.valid.deep_view(),
            invalid: self.invalid.deep_view(),
        }
    }
}

impl DeepView for FileRecord {
    type V = FileEntries;

    open spec fn deep_view(&self) -> FileEntries {
        self@
    }
}

/// Whether no path occurs twice among the records.
pub open spec fn distinct_paths(records: Seq<FileEntries>) -> bool {
    forall|i: int, j: int|
        0 <= i < j < records.len() ==> (#[trigger] records[i]).path != (#[trigger] records[j]).path
}

/// Whether a record of the given path is among the records.
pub open spec fn has_path(records: Seq<FileEntries>, path: Seq<char>) -> bool {
    exists|i: int| 0 <= i < records.len() && (#[trigger] records[i]).path == path
}

/// The position of the record of the given path, where there is one.
pub open spec fn index_of(records: Seq<FileEntries>, path: Seq<char>) -> int {
    choose|i: int| 0 <= i < records.len() && (#[trigger] records[i]).path == path
}

/// The records with one more put in: it takes the place of the record of the
/// same path where there is one, and comes last where there is none.
pub open spec fn put(records: Seq<FileEntries>, record: FileEntries) -> Seq<FileEntries> {
    if has_path(records, record.path) {
        records.update(index_of(records, record.path), record)
    } else {
        records.push(record)
    }
}

/// The records as a mapping from the path of a file to its sorted entries.
pub open spec fn as_map(records: Seq<FileEntries>) -> Map<Seq<char>, (Seq<Entry>, Seq<Entry>)> {
    Map::new(
        |path: Seq<char>| has_path(records, path),
        |path: Seq<char>|
            (
                records[index_of(records, path)].valid,
                records[index_of(records, path)].invalid,
            ),
    )
}

/// Among records of distinct paths, a record is found at its own position.
pub proof fn lemma_index_of(records: Seq<FileEntries>, k: int)
    requires
        distinct_paths(records),
        0 <= k < records.len(),
    ensures
        has_path(records, records[k].path),
        index_of(records, records[k].path) == k,
{
    let i = index_of(records, records[k].path);
    assert(0 <= i < records.len() && records[i].path == records[k].path);
    if i < k {
        assert(records[i].path != records[k].path);
    } else if k < i {
        assert(records[k].path != records[i].path);
    }
}

/// Putting a record in keeps the paths distinct, and changes the mapping as
/// an insertion under the record's path does.
pub proof fn lemma_put(records: Seq<FileEntries>, record: FileEntries)
    requires
        distinct_paths(records),
    ensures
        distinct_paths(put(records, record)),
        as_map(put(records, record)) == as_map(records).insert(
            record.path,
            (record.valid, record.invalid),
        ),
{
    let after = put(records, record);
    let k = if has_path(records, record.path) {
        index_of(records, record.path)
    } else {
        records.len() as int
    };
    assert(0 <= k < after.len() && after[k] == record);
    assert forall|i: int| 0 <= i < after.len() && i != k implies #[trigger] after[i]
        == records[i] && records[i].path != record.path by {
        if has_path(records, record.path) {
            if i < k {
                assert(records[i].path != records[k].path);
            } else {
                assert(records[k].path != records[i].path);
            }
        }
    }
    assert forall|i: int, j: int| 0 <= i < j < after.len() implies (#[trigger] after[i]).path != (
    #[trigger] after[j]).path by {
        if i != k && j != k {
            assert(records[i].path != records[j].path);
        }
    }
    let wanted = as_map(records).insert(record.path, (record.valid, record.invalid));
    assert forall|path: Seq<char>| as_map(after).dom().contains(path) == wanted.dom().contains(
        path,
    ) by {
        if has_path(after, path) {
            let i = index_of(after, path);
            if i != k {
                assert(records[i].path == path);
            }
        }
        if has_path(records, path) {
            let i = index_of(records, path);
            assert(after[i].path == path);
        }
        if path == record.path {
            assert(after[k].path == path);
        }
    }
    assert forall|path: Seq<char>| #[trigger] as_map(after).dom().contains(path) implies as_map(
        after,
    )[path] == wanted[path] by {
        let i = index_of(after, path);
        lemma_index_of(after, i);
        if i != k {
            lemma_index_of(records, i);
        }
    }
    assert(as_map(after) =~= wanted);
}

/// The migrations found in a repository: one record for each file that
/// declares a migration list, in the order in which the files came, and no
/// two records of the same path.
#[derive(Debug, PartialEq, Eq)]
pub struct SearchResult {
    records: Vec<FileRecord>,
}

impl View for SearchResult {
    type V = Seq<FileEntries>;

    closed spec fn view(&self) -> Seq<FileEntries> {
        self.records.deep_view()
    }
}

impl SearchResult {
    #[verifier::type_invariant]
    spec fn paths_are_distinct(self) -> bool {
        distinct_paths(self.records.deep_view())
    }

    /// The result that holds nothing.
    pub fn new() -> (r: SearchResult)
        ensures
            r@ == Seq::<FileEntries>::empty(),
    {
        let r = SearchResult { records: Vec::new() };
        assert(r.records.deep_view() =~= Seq::empty());
        r
    }

    /// The number of files in the result.
    pub fn len(&self) -> (n: usize)
        ensures
            n == self@.len(),
    {
        self.records.len()
    }

    /// Whether the result holds nothing.
    pub fn is_empty(&self) -> (r: bool)
        ensures
            r == (self@.len() == 0),
    {
        self.records.len() == 0
    }

    /// The records of the result, in their order. No two of them have the
    /// same path.
    pub fn records(&self) -> (r: &Vec<FileRecord>)
        ensures
            r.deep_view() == self@,
            distinct_paths(self@),
    {
        proof {
            use_type_invariant(self);
        }
        &self.records
    }

    /// The position of the record of the given path, where there is one.
    fn position(&self, path: &str) -> (r: Option<usize>)
        ensures
            match r {
                Some(k) => k < self@.len() && self@[k as int].path == path@,
                None => !has_path(self@, path@),
            },
    {
        let mut i: usize = 0;
        while i < self.records.len()
            invariant
                i <= self.records.len(),
                forall|k: int| 0 <= k < i ==> (#[trigger] self@[k]).path != path@,
            decreases self.records.len() - i,
        {
            if same_text(self.records[i].path.as_str(), path) {
                return Some(i);
            }
            i += 1;
        }
        None
    }

    /// The record of the file of the given path, where the result has one.
    pub fn get(&self, path: &str) -> (r: Option<&FileRecord>)
        ensures
            r is Some == as_map(self@).dom().contains(path@),
            r matches Some(record) ==> record@.path == path@ && as_map(self@)[path@] == (
                record@.valid,
                record@.invalid,
            ),
    {
        match self.position(path) {
            Some(k) => {
                proof {
                    use_type_invariant(self);
                    lemma_index_of(self@, k as int);
                }
                Some(&self.records[k])
            },
            None => None,
        }
    }

    /// Puts the sorted entries of a file into the result. They take the
    /// place of what the result held for that path, if anything.
    pub fn insert(&mut self, path: String, lists: (Vec<Migration>, Vec<Migration>))
        ensures
            final(self)@ == put(
                old(self)@,
                FileEntries {
                    path: path@,
                    valid: lists.0.deep_view(),
                    invalid: lists.1.deep_view(),
                },
            ),
            as_map(final(self)@) == as_map(old(self)@).insert(
                path@,
                (lists.0.deep_view(), lists.1.deep_view()),
            ),
    {
        let ghost before = self@;
        let ghost entries = FileEntries {
            path: path@,
            valid: lists.0.deep_view(),
            invalid: lists.1.deep_view(),
        };
        proof {
            use_type_invariant(&*self);
            lemma_put(before, entries);
        }
        let found = self.position(path.as_str());
        let record = FileRecord { path, valid: lists.0, invalid: lists.1 };
        let mut records: Vec<FileRecord> = Vec::new();
        assert(records.deep_view() =~= Seq::empty());
        core::mem::swap(&mut records, &mut self.records);
        match found {
            Some(k) => {
                proof {
                    lemma_index_of(before, k as int);
                }
                records.set(k, record);
                assert(records.deep_view() =~= before.update(k as int, entries));
            },
            None => {
                records.push(record);
                assert(records.deep_view() =~= before.push(entries));
            },
        }
        self.records = records;
    }
}

} // verus!
