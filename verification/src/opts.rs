use crate::flatten::Policy;
use vstd::prelude::*;

verus! {

/// The options of the command line.
#[derive(Debug)]
pub struct Opts {
    /// The command, where one was given.
    pub subcmd: Option<SubCommand>,
}

/// The commands.
#[derive(Debug)]
pub enum SubCommand {
    /// Find the migrations and list them.
    List(ListOpts),
}

/// The options of the `list` command.
#[derive(Debug)]
pub struct ListOpts {
    /// The path of the repository.
    pub repo: String,
    /// Where given, only the files whose path holds this text are listed.
    pub pattern: Option<String>,
    /// Whether a type expression that is no migration reference fails its
    /// file, in place of being listed as a non-conforming entry.
    pub strict: bool,
}

impl ListOpts {
    /// What becomes of a leaf that is no migration reference.
    pub fn policy(&self) -> (policy: Policy)
        ensures
            policy == if self.strict {
                Policy::Strict
            } else {
                Policy::Lenient
            },
    {
        if self.strict {
            Policy::Strict
        } else {
            Policy::Lenient
        }
    }
}

impl Opts {
    /// What is to be listed. With the `list` command it is what the command
    /// says. Without a command it is the default repository, with no
    /// pattern and under the lenient policy; without a command and without a
    /// default there is nothing.
    pub fn list_opts(self, default_repo: Option<String>) -> (r: Option<ListOpts>)
        ensures
            r == match self.subcmd {
                Some(SubCommand::List(given)) => Some(given),
                None => match default_repo {
                    Some(repo) => Some(ListOpts { repo, pattern: None, strict: false }),
                    None => None,
                },
            },
    {
        match self.subcmd {
            Some(SubCommand::List(given)) => Some(given),
            None => match default_repo {
                Some(repo) => Some(ListOpts { repo, pattern: None, strict: false }),
                None => None,
            },
        }
    }
}

} // verus!
