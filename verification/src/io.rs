//! Settings shared by everything that reports or writes.

pub mod snapshot;

use vstd::prelude::*;

verus! {

/// Whether to print status messages.
#[derive(Debug, Copy, Clone, PartialEq, Eq, Structural)]
pub enum Verbose {
    Yes,
    No,
}

impl Verbose {
    /// Whether status messages are wanted.
    pub fn is_yes(&self) -> (yes: bool)
        ensures
            yes == (*self == Verbose::Yes),
    {
        match self {
            Verbose::Yes => true,
            Verbose::No => false,
        }
    }
}

impl vstd::std_specs::convert::FromSpecImpl<bool> for Verbose {
    open spec fn obeys_from_spec() -> bool {
        true
    }

    open spec fn from_spec(is_verbose: bool) -> Self {
        if is_verbose {
            Verbose::Yes
        } else {
            Verbose::No
        }
    }
}

impl From<bool> for Verbose {
    fn from(is_verbose: bool) -> (verbose: Self) {
        if is_verbose {
            Verbose::Yes
        } else {
            Verbose::No
        }
    }
}

/// What to do where a file to write exists already.
#[derive(Debug, Copy, Clone, PartialEq, Eq, Structural)]
pub enum OverwriteMode {
    /// Overwrite it.
    Always,
    /// Leave it and skip the writing.
    Never,
    /// Ask the user.
    Ask,
}

/// Whether a file may be written.
#[derive(Debug, Copy, Clone, PartialEq, Eq, Structural)]
pub enum WritePermission {
    /// It may.
    Granted,
    /// It may not.
    Denied,
    /// The user decides.
    AskUser,
}

impl OverwriteMode {
    /// Decides whether a file may be written. A file that does not exist
    /// yet may. One that exists is overwritten at once only where that is
    /// always to be done and the file is not of a protected type, and is
    /// left where nothing is ever to be overwritten. Else the user is
    /// asked.
    pub fn permission_to_write(self, file_exists: bool, is_protected: bool) -> (permission:
        WritePermission)
        ensures
            permission == if !file_exists {
                WritePermission::Granted
            } else {
                match self {
                    OverwriteMode::Always => if is_protected {
                        WritePermission::AskUser
                    } else {
                        WritePermission::Granted
                    },
                    OverwriteMode::Never => WritePermission::Denied,
                    OverwriteMode::Ask => WritePermission::AskUser,
                }
            },
    {
        if !file_exists {
            WritePermission::Granted
        } else {
            match self {
                OverwriteMode::Always => if is_protected {
                    WritePermission::AskUser
                } else {
                    WritePermission::Granted
                },
                OverwriteMode::Never => WritePermission::Denied,
                OverwriteMode::Ask => WritePermission::AskUser,
            }
        }
    }
}

} // verus!
