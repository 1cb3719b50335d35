use vstd::prelude::*;

verus! {

/// The mathematical value of a [`Migration`].
pub enum Entry {
    /// A migration whose name was read from a type reference.
    Named(Seq<char>),
    /// A leaf of the type expression that is no migration reference.
    Unrecognized,
}

/// One leaf of a flattened migration list.
#[derive(Debug, Clone, PartialEq, Eq)]
pub enum Migration {
    /// A migration and its name.
    Named(String),
    /// A leaf that could not be read as a migration reference.
    NotOk(),
}

impl View for Migration {
    type V = Entry;

    open spec fn view(&self) -> Entry {
        match self {
            Migration::Named(name) => Entry::Named(name@),
            Migration::NotOk() => Entry::Unrecognized,
        }
    }
}

impl DeepView for Migration {
    type V = Entry;

    open spec fn deep_view(&self) -> Entry {
        self@
    }
}

impl Entry {
    /// The text under which an entry is listed and judged: its name, or
    /// `err` where it has none.
    pub open spec fn text(self) -> Seq<char> {
        match self {
            Entry::Named(name) => name,
            Entry::Unrecognized => "err"@,
        }
    }
}

impl Migration {
    /// The text under which this entry is listed.
    pub fn to_string(&self) -> (text: String)
        ensures
            text@ == self@.text(),
    {
        match self {
            Migration::Named(name) => name.clone(),
            Migration::NotOk() => String::from_str("err"),
        }
    }
}

impl From<&str> for Migration {
    /// The migration of the given name.
    fn from(s: &str) -> (m: Migration)
        ensures
            m@ == Entry::Named(s@),
    {
        Migration::Named(String::from_str(s))
    }
}

impl vstd::std_specs::convert::FromSpecImpl<&str> for Migration {
    open spec fn obeys_from_spec() -> bool {
        false
    }

    open spec fn from_spec(s: &str) -> Migration {
        arbitrary()
    }
}

} // verus!
