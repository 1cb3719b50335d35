use vstd::prelude::*;

verus! {

/// What can go wrong while one file, or the whole repository, is examined.
///
/// A name that does not follow the convention is no error: it is reported
/// among the non-conforming entries of its file.
#[derive(Debug, Clone, Copy, PartialEq, Eq, Structural)]
pub enum SubmigError {
    /// A type expression could not be read as a migration reference.
    NonStandard,
    /// A file could not be read.
    IO,
    /// A file is not syntactically valid source.
    Parsing,
    /// A file declares more than one `Migrations` alias.
    Duplicate,
    /// The list of candidate files could not be obtained.
    Discovery,
    /// Anything else.
    Unknown,
}

impl SubmigError {
    /// The message shown to the user for this error.
    pub fn message(&self) -> (text: &'static str)
        ensures
            text@ == match *self {
                SubmigError::NonStandard => "The migration do not seem to be following the standard"@,
                SubmigError::IO => "I/O Error"@,
                SubmigError::Parsing => "Parsing Error"@,
                SubmigError::Duplicate => "More than one Migrations declaration"@,
                SubmigError::Discovery => "The candidate files could not be listed"@,
                SubmigError::Unknown => "Unknown error"@,
            },
    {
        match self {
            SubmigError::NonStandard => "The migration do not seem to be following the standard",
            SubmigError::IO => "I/O Error",
            SubmigError::Parsing => "Parsing Error",
            SubmigError::Duplicate => "More than one Migrations declaration",
            SubmigError::Discovery => "The candidate files could not be listed",
            SubmigError::Unknown => "Unknown error",
        }
    }
}

/// The mathematical value of a [`ScanError`].
pub struct Failure {
    /// The path of the file that failed.
    pub path: Seq<char>,
    /// What went wrong with it.
    pub kind: SubmigError,
}

/// The failure that ended a scan: the file at which it stopped, and why.
#[derive(Debug, Clone, PartialEq, Eq)]
pub struct ScanError {
    /// The path of the file that failed.
    pub path: String,
    /// What went wrong with it.
    pub kind: SubmigError,
}

impl View for ScanError {
    type V = Failure;

    open spec fn view(&self) -> Failure {
        Failure { path: self.path@, kind: self.kind }
    }
}

} // verus!
