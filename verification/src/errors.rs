//! The closed set of ways a decode can fail. A decode call is deterministic,
//! so every failure is terminal: the first error aborts the call and no
//! partial result is handed back.

use vstd::prelude::*;

verus! {

/// The scalar kind a decode request asked for.
#[derive(Clone, Copy, Debug, PartialEq, Eq)]
pub enum ScalarKind {
    Text,
    Number,
    Boolean,
}

/// Why a decode call failed.
#[derive(Clone, Debug, PartialEq, Eq)]
pub enum DeError {
    /// The frame stack was empty when a frame was needed. This signals a
    /// protocol violation by the driving framework, not bad document data.
    NoFramesLeft,
    /// A single scalar was requested but the bound occurrence list does not
    /// hold exactly one scalar.
    ExpectedSingleValue,
    /// The stored scalar's kind differs from the requested kind.
    WrongScalarKind(ScalarKind),
    /// A key name was requested while not positioned on a bound field.
    ExpectedKeyContext,
    /// A sequence was requested while not positioned on a bound field.
    ExpectedStructContext,
    /// A struct was requested of a sequence element that carries no children.
    ExpectedObjectChildren,
    /// A character was requested but the stored text, carried along here, is
    /// not exactly one character long.
    InvalidCharLength(String),
    /// The requested shape (map, enum, tuple, bytes, unit) has no
    /// representation in the document model.
    UnsupportedShape,
}

/// The result of one decode request.
pub type DeResult<T> = Result<T, DeError>;

} // verus!
