//! Failure kinds and values reported by the index cache.

use vstd::prelude::*;

verus! {

/// What went wrong, from the caller's point of view.
#[derive(Clone, Copy, Debug, PartialEq, Eq, Structural)]
pub enum ErrorKind {
    /// The filesystem lock guarding the local registry clone could not be
    /// acquired within the configured wait.
    LockTimeout,
    /// The registry location resolved to a form this library does not handle:
    /// a fatal misconfiguration, not retryable.
    RegistryUnsupported,
    /// The registry backend failed: a transport or repository error, used both
    /// for whole-batch failures and for per-crate fetch failures kept in the
    /// cache.
    Registry,
    /// The queried crate, or the queried version of it, is absent from the
    /// index. A semantic fact, never retried.
    NotFound,
}

/// Mathematical image of an [`IndexError`]: its kind and its message text.
pub struct ErrorSpec {
    pub kind: ErrorKind,
    pub message: Seq<char>,
}

/// A failure value: a kind plus a human-readable message.
#[derive(Debug)]
pub struct IndexError {
    pub kind: ErrorKind,
    pub message: String,
}

impl View for IndexError {
    type V = ErrorSpec;

    open spec fn view(&self) -> ErrorSpec {
        ErrorSpec { kind: self.kind, message: self.message@ }
    }
}

impl Clone for IndexError {
    fn clone(&self) -> (r: Self)
        ensures
            r@ == self@,
    {
        IndexError { kind: self.kind, message: self.message.clone() }
    }
}

impl IndexError {
    /// Builds an error of the given kind carrying the given message.
    pub fn new(kind: ErrorKind, message: String) -> (e: IndexError)
        ensures
            e@ == (ErrorSpec { kind, message: message@ }),
    {
        IndexError { kind, message }
    }

    /// The kind of this error.
    pub fn kind(&self) -> (k: ErrorKind)
        ensures
            k == self@.kind,
    {
        self.kind
    }

    /// The message text of this error.
    pub fn message(&self) -> (m: &String)
        ensures
            m@ == self@.message,
    {
        &self.message
    }
}

} // verus!
