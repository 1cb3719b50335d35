use crate::classify::{check_naming, kept, rejected};
use crate::error::{Failure, ScanError, SubmigError};
use crate::flatten::{flatten, get_migration, Policy};
use crate::locate::{declarations, locate, located};
use crate::migration::{Entry, Migration};
use crate::parse::{parse_items, parsed};
use crate::search::{distinct_paths, lemma_put, put, FileEntries, SearchResult};
use crate::shape::{ItemShape, TopLevelItem};
use vstd::prelude::*;

verus! {

/// The entries of one file sorted by the naming convention: the conforming
/// ones, then the others.
pub type Classified = (Seq<Entry>, Seq<Entry>);

/// What one file comes to: nothing where it declares no migration list, its
/// sorted entries where it declares one, or an error.
pub type FileOutcome = Result<Option<Classified>, SubmigError>;

/// What the items of a file come to.
pub open spec fn items_outcome(items: Seq<ItemShape>, policy: Policy) -> FileOutcome {
    match located(items) {
        Err(e) => Err(e),
        Ok(None) => Ok(None),
        Ok(Some(shape)) => match flatten(shape, policy) {
            Err(e) => Err(e),
            Ok(entries) => Ok(Some((kept(entries), rejected(entries)))),
        },
    }
}

/// What a source text comes to: a parsing error where it is not valid
/// source, else what its items come to.
pub open spec fn source_outcome(code: Seq<char>, policy: Policy) -> FileOutcome {
    match parsed(code) {
        None => Err(SubmigError::Parsing),
        Some(items) => items_outcome(items, policy),
    }
}

/// The mathematical value of what [`scan_items`] and [`scan_source`] return.
pub open spec fn outcome_view(
    r: Result<Option<(Vec<Migration>, Vec<Migration>)>, SubmigError>,
) -> FileOutcome {
    match r {
        Ok(Some(lists)) => Ok(Some((lists.0.deep_view(), lists.1.deep_view()))),
        Ok(None) => Ok(None),
        Err(e) => Err(e),
    }
}

/// Examines the top-level items of one file: finds the declaration of the
/// migration list, flattens the declared type and sorts the entries by the
/// naming convention. A file without a declaration gives nothing.
pub fn scan_items(items: &Vec<TopLevelItem>, policy: Policy) -> (r: Result<
    Option<(Vec<Migration>, Vec<Migration>)>,
    SubmigError,
>)
    ensures
        outcome_view(r) == items_outcome(items.deep_view(), policy),
{
    match locate(items) {
        Err(e) => Err(e),
        Ok(None) => Ok(None),
        Ok(Some(ty)) => match get_migration(ty, policy) {
            Err(e) => Err(e),
            Ok(migrations) => Ok(Some(check_naming(migrations))),
        },
    }
}

/// Examines the text of one file: parses it and examines its items. A text
/// that does not parse is a [`SubmigError::Parsing`].
pub fn scan_source(code: &str, policy: Policy) -> (r: Result<
    Option<(Vec<Migration>, Vec<Migration>)>,
    SubmigError,
>)
    ensures
        outcome_view(r) == source_outcome(code@, policy),
{
    match parse_items(code) {
        Err(_) => Err(SubmigError::Parsing),
        Ok(items) => scan_items(&items, policy),
    }
}

/// The mathematical value of a [`SourceFile`].
pub struct SourceText {
    /// The path of the file.
    pub path: Seq<char>,
    /// The text of the file, or nothing where it could not be read.
    pub content: Option<Seq<char>>,
}

/// A candidate file as it was read.
#[derive(Debug, Clone, PartialEq, Eq)]
pub struct SourceFile {
    /// The path of the file.
    pub path: String,
    /// The text of the file, or nothing where it could not be read.
    pub content: Option<String>,
}

impl View for SourceFile {
    type V = SourceText;

    open spec fn view(&self) -> SourceText {
        SourceText {
            path: self.path@,
            content: match self.content {
                Some(code) => Some(code@),
                None => None,
            },
        }
    }
}

impl DeepView for SourceFile {
    type V = SourceText;

    open spec fn deep_view(&self) -> SourceText {
        self@
    }
}

/// What a scan comes to: the records of the files that declare a migration
/// list, or the failure that ended it.
pub type ScanOutcome = Result<Seq<FileEntries>, Failure>;

/// What a candidate file comes to: an I/O error where it could not be read,
/// else what its text comes to.
pub open spec fn file_outcome(file: SourceText, policy: Policy) -> FileOutcome {
    match file.content {
        None => Err(SubmigError::IO),
        Some(code) => source_outcome(code, policy),
    }
}

/// The records after one more file: unchanged where the file declares no
/// migration list, with the file's entries put in where it declares one. An
/// error of the file ends the scan.
pub open spec fn recorded(
    records: Seq<FileEntries>,
    path: Seq<char>,
    outcome: FileOutcome,
) -> ScanOutcome {
    match outcome {
        Err(kind) => Err(Failure { path, kind }),
        Ok(None) => Ok(records),
        Ok(Some(lists)) => Ok(put(records, FileEntries { path, valid: lists.0, invalid: lists.1 })),
    }
}

/// What a scan of the candidate files comes to. The files are examined in
/// their order, and the first error ends the scan.
pub open spec fn scanned(files: Seq<SourceText>, policy: Policy) -> ScanOutcome
    decreases files.len(),
{
    if files.len() == 0 {
        Ok(Seq::empty())
    } else {
        match scanned(files.drop_last(), policy) {
            Err(failure) => Err(failure),
            Ok(records) => recorded(
                records,
                files.last().path,
                file_outcome(files.last(), policy),
            ),
        }
    }
}

/// A failure among the first files is the failure of the whole scan.
proof fn lemma_scan_stops_at_failure(files: Seq<SourceText>, policy: Policy, k: int)
    requires
        0 <= k <= files.len(),
        scanned(files.take(k), policy) is Err,
    ensures
        scanned(files, policy) == scanned(files.take(k), policy),
    decreases files.len() - k,
{
    if k < files.len() {
        assert(files.take(k + 1).drop_last() =~= files.take(k));
        lemma_scan_stops_at_failure(files, policy, k + 1);
    } else {
        assert(files.take(k) =~= files);
    }
}

/// Takes the outcome of one file into the result. A file that declares no
/// migration list leaves the result as it is; an error leaves it as it is
/// too, and is returned with the path of the file.
pub fn record(
    found: &mut SearchResult,
    path: String,
    outcome: Result<Option<(Vec<Migration>, Vec<Migration>)>, SubmigError>,
) -> (r: Result<(), ScanError>)
    ensures
        match recorded(old(found)@, path@, outcome_view(outcome)) {
            Ok(records) => r is Ok && final(found)@ == records,
            Err(failure) => r matches Err(e) && e@ == failure && final(found)@ == old(found)@,
        },
{
    match outcome {
        Err(kind) => Err(ScanError { path, kind }),
        Ok(None) => Ok(()),
        Ok(Some(lists)) => {
            found.insert(path, lists);
            Ok(())
        },
    }
}

/// Examines one candidate file and takes what it comes to into the result.
pub fn scan_file(found: &mut SearchResult, file: SourceFile, policy: Policy) -> (r: Result<
    (),
    ScanError,
>)
    ensures
        match recorded(old(found)@, file@.path, file_outcome(file@, policy)) {
            Ok(records) => r is Ok && final(found)@ == records,
            Err(failure) => r matches Err(e) && e@ == failure && final(found)@ == old(found)@,
        },
{
    let outcome = match &file.content {
        None => Err(SubmigError::IO),
        Some(code) => scan_source(code.as_str(), policy),
    };
    record(found, file.path, outcome)
}

/// Finds the migrations of all the candidate files. The files are examined
/// in their order; the first file that cannot be read or parsed, or whose
/// declaration is refused, ends the scan with its error, and nothing of what
/// was found so far is returned.
pub fn find(files: Vec<SourceFile>, policy: Policy) -> (r: Result<SearchResult, ScanError>)
    ensures
        match scanned(files.deep_view(), policy) {
            Ok(records) => r matches Ok(found) && found@ == records,
            Err(failure) => r matches Err(e) && e@ == failure,
        },
{
    let ghost source = files@;
    let ghost all = files.deep_view();
    let count = files.len();
    let mut found = SearchResult::new();
    let mut i: usize = 0;
    assert(all.take(0) =~= Seq::empty());
    for file in it: files
        invariant
            i == it.index(),
            it.seq() == source,
            source.len() == count,
            all == Seq::new(source.len(), |k: int| source[k]@),
            all == files.deep_view(),
            scanned(all.take(i as int), policy) == Ok::<Seq<FileEntries>, Failure>(found@),
    {
        assert(all.take(i + 1).drop_last() =~= all.take(i as int));
        assert(all.take(i + 1).last() == file@);
        match scan_file(&mut found, file, policy) {
            Err(e) => {
                proof {
                    lemma_scan_stops_at_failure(all, policy, i + 1);
                }
                return Err(e);
            },
            Ok(()) => {},
        }
        i += 1;
    }
    assert(all.take(i as int) =~= all);
    Ok(found)
}

/// A file without a declaration of a migration list is passed over: its
/// items come to nothing, so does every text that parses to them, and
/// nothing is no error and leaves the records as they are.
pub proof fn lemma_no_declaration_is_passed_over(
    items: Seq<ItemShape>,
    policy: Policy,
    records: Seq<FileEntries>,
    path: Seq<char>,
)
    requires
        declarations(items).len() == 0,
    ensures
        items_outcome(items, policy) == Ok::<Option<Classified>, SubmigError>(None),
        forall|code: Seq<char>| #[trigger]
            parsed(code) == Some(items) ==> source_outcome(code, policy) == Ok::<
                Option<Classified>,
                SubmigError,
            >(None),
        recorded(records, path, items_outcome(items, policy)) == Ok::<Seq<FileEntries>, Failure>(
            records,
        ),
{
}

/// A file with more than one declaration of a migration list is refused
/// under either policy, and none of its declarations is reported: its items
/// come to the error, so does every text that parses to them, and the error
/// ends the scan with the path of the file.
pub proof fn lemma_duplicate_is_refused(
    items: Seq<ItemShape>,
    policy: Policy,
    records: Seq<FileEntries>,
    path: Seq<char>,
)
    requires
        declarations(items).len() >= 2,
    ensures
        items_outcome(items, policy) == Err::<Option<Classified>, SubmigError>(
            SubmigError::Duplicate,
        ),
        forall|code: Seq<char>| #[trigger]
            parsed(code) == Some(items) ==> source_outcome(code, policy) == Err::<
                Option<Classified>,
                SubmigError,
            >(SubmigError::Duplicate),
        recorded(records, path, items_outcome(items, policy)) == Err::<Seq<FileEntries>, Failure>(
            Failure { path, kind: SubmigError::Duplicate },
        ),
{
}

/// Whatever the candidate files, no file has two records in what a scan
/// finds.
pub proof fn lemma_one_record_for_each_file(files: Seq<SourceText>, policy: Policy)
    ensures
        scanned(files, policy) matches Ok(records) ==> distinct_paths(records),
    decreases files.len(),
{
    if files.len() > 0 {
        lemma_one_record_for_each_file(files.drop_last(), policy);
        if let Ok(records) = scanned(files.drop_last(), policy) {
            if let Ok(Some(lists)) = file_outcome(files.last(), policy) {
                lemma_put(
                    records,
                    FileEntries { path: files.last().path, valid: lists.0, invalid: lists.1 },
                );
            }
        }
    }
}

/// A scan of no files finds nothing, and is no error.
pub proof fn lemma_nothing_to_scan(policy: Policy)
    ensures
        scanned(Seq::empty(), policy) == Ok::<Seq<FileEntries>, Failure>(Seq::empty()),
{
}

} // verus!
