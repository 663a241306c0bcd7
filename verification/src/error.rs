//! The failures that the path and file operations report.

use vstd::prelude::*;

verus! {

/// A raw path segment could not be decoded.
#[derive(Debug, Clone, Copy, PartialEq, Eq, Structural)]
pub enum DecodeError {
    /// The percent-decoded bytes are not well-formed UTF-8.
    InvalidEncoding,
}

/// A relative path could not be placed under the storage root.
#[derive(Debug, Clone, Copy, PartialEq, Eq, Structural)]
pub enum ResolveError {
    /// The path leads to a location that is not the root or below it.
    OutsideRoot,
    /// The path cannot be a path at all: it holds a NUL character, or a root
    /// was given that is not absolute.
    InvalidPath,
}

/// The metadata of a node could not be had.
#[derive(Debug, Clone, Copy, PartialEq, Eq, Structural)]
pub enum IoError {
    /// The node does not exist.
    NotFound,
    /// The probe failed for another reason.
    Other,
}

/// A removal did not take place.
#[derive(Debug, PartialEq, Eq)]
pub enum DeleteError {
    /// The node was not of the kind that its classification said.
    TypeMismatch,
    /// The removal failed; only the path is kept, not the cause.
    Failed { path: String },
}

/// Any failure of the library.
#[derive(Debug, PartialEq, Eq)]
pub enum NASError {
    Decode(DecodeError),
    Resolve(ResolveError),
    Io(IoError),
    Delete(DeleteError),
}

impl NASError {
    /// Whether the failure is an attempt to reach outside the storage root,
    /// which is to be recorded as a security event.
    pub open spec fn is_traversal(self) -> bool {
        self == NASError::Resolve(ResolveError::OutsideRoot)
    }

    /// Whether the failure is to be recorded as a security event.
    pub fn is_security_event(&self) -> (yes: bool)
        ensures
            yes == self.is_traversal(),
    {
        match self {
            NASError::Resolve(ResolveError::OutsideRoot) => true,
            _ => false,
        }
    }
}

} // verus!
