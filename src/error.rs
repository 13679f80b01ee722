//! The library's error type.
use vstd::prelude::*;

verus! {

/// What went wrong.
#[derive(Debug, Clone, Copy, PartialEq, Eq, Structural)]
pub enum ViteErrorKind {
    /// The manifest could not be opened, read or parsed, or none was loaded.
    Manifest,
}

/// An error with a human-readable cause.
#[derive(Debug)]
pub struct ViteError {
    cause: String,
    kind: ViteErrorKind,
}

impl ViteError {
    pub closed spec fn cause_view(&self) -> Seq<char> {
        self.cause@
    }

    pub closed spec fn kind_view(&self) -> ViteErrorKind {
        self.kind
    }

    pub fn new(cause: &str, kind: ViteErrorKind) -> (r: Self)
        ensures
            r.cause_view() == cause@,
            r.kind_view() == kind,
    {
        ViteError { cause: String::from_str(cause), kind }
    }

    /// The human-readable cause.
    pub fn cause(&self) -> (r: &str)
        ensures
            r@ == self.cause_view(),
    {
        self.cause.as_str()
    }

    pub fn kind(&self) -> (r: ViteErrorKind)
        ensures
            r == self.kind_view(),
    {
        self.kind
    }
}

} // verus!
