//! Error taxonomy shared by every operation of the library.

use vstd::prelude::*;

verus! {

/// What went wrong: a missing path, record or artifact; a read/write or
/// permission failure; or data that is present but not in the expected shape.
#[derive(Clone, Copy, PartialEq, Eq, Structural, Debug)]
pub enum ErrorKind {
    NotFound,
    IOFailure,
    InvalidState,
}

/// A structured error carrying its kind and a human-readable message.
#[derive(Clone, Debug)]
pub struct CommandError {
    pub kind: ErrorKind,
    pub message: String,
}

impl CommandError {
    /// Builds a `NotFound` error with the given message.
    pub fn not_found(message: String) -> (r: CommandError)
        ensures
            r.kind == ErrorKind::NotFound,
            r.message@ == message@,
    {
        CommandError { kind: ErrorKind::NotFound, message }
    }

    /// Builds an `IOFailure` error with the given message.
    pub fn io_failure(message: String) -> (r: CommandError)
        ensures
            r.kind == ErrorKind::IOFailure,
            r.message@ == message@,
    {
        CommandError { kind: ErrorKind::IOFailure, message }
    }

    /// Builds an `InvalidState` error with the given message.
    pub fn invalid_state(message: String) -> (r: CommandError)
        ensures
            r.kind == ErrorKind::InvalidState,
            r.message@ == message@,
    {
        CommandError { kind: ErrorKind::InvalidState, message }
    }

    /// The human-readable message carried by the error.
    pub fn message(&self) -> (r: String)
        ensures
            r@ == self.message@,
    {
        self.message.clone()
    }
}

impl From<String> for CommandError {
    /// A bare message becomes an `IOFailure`, the kind of the launcher
    /// and read/write failures that arrive as plain strings.
    fn from(s: String) -> (r: CommandError) {
        CommandError { kind: ErrorKind::IOFailure, message: s }
    }
}

impl vstd::std_specs::convert::FromSpecImpl<String> for CommandError {
    open spec fn obeys_from_spec() -> bool {
        true
    }

    open spec fn from_spec(s: String) -> CommandError {
        CommandError { kind: ErrorKind::IOFailure, message: s }
    }
}

} // verus!
