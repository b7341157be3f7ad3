//! Error values produced when a decode fails.
//!
//! Every decode failure is terminal for the call that raised it: the error is
//! returned immediately to the caller and no partial result is kept.

use vstd::prelude::*;

verus! {

/// The kind of a decode failure, used by specifications to state exactly
/// which error a decoder returns on which input.
#[derive(Debug, Clone, Copy, PartialEq, Eq, Structural)]
pub enum ErrKind {
    /// A structurally invalid encoding: a varint without a terminal byte, a
    /// fixed-width field that runs past the end of the buffer, or a value too
    /// large for its machine representation.
    Malformed,
    /// A table index, or an enumerated code such as a visibility byte,
    /// outside its legal domain.
    InvalidIndex,
    /// A referenced byte offset that lies outside the shared buffer.
    BadOffset,
}

/// A decode failure, carrying a human-readable description.
#[derive(Debug)]
pub enum Error {
    /// The entity is malformed in some way.
    MalFormed(String),
    /// An index or enumerated code is outside its legal domain.
    InvalidId(String),
    /// A referenced byte offset is invalid.
    BadOffset(usize, String),
}

impl Error {
    /// The kind of this error, abstracting away the description.
    pub open spec fn kind(&self) -> ErrKind {
        match self {
            Error::MalFormed(_) => ErrKind::Malformed,
            Error::InvalidId(_) => ErrKind::InvalidIndex,
            Error::BadOffset(_, _) => ErrKind::BadOffset,
        }
    }
}

} // verus!
