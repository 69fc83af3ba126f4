//! The ways in which a command can be refused.

use vstd::prelude::*;
use crate::id::ParseFailure;

verus! {

/// Why a command was refused. A refused command never changes the store.
#[derive(Clone, Copy, Debug, PartialEq, Eq)]
pub enum ErrorKind {
    /// An argument that the command needs was not given.
    ArgumentMissing,
    /// The id argument is not a number.
    ParseFailure(ParseFailure),
    /// No task in the store has the id.
    NotFound,
}

} // verus!
