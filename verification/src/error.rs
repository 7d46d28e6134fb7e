//! Closed taxonomy of the failures an engine adapter can produce, each
//! carrying a human-readable diagnostic for the operator log.

use vstd::prelude::*;

verus! {

/// The three ways an adapter call can fail.
#[derive(Clone, Copy, PartialEq, Eq, Structural, Debug)]
pub enum EngineErrorKind {
    /// Transport-level failure reaching the upstream engine.
    RequestError,
    /// The upstream answered but explicitly reported zero matches.
    EmptyResultSet,
    /// Internal contract violation: a selector that could not be compiled or
    /// a response shape the adapter cannot parse.
    UnexpectedError,
}

impl EngineErrorKind {
    /// A hard failure is one worth surfacing to the caller's failure list;
    /// an explicitly empty result set is an expected business outcome.
    pub open spec fn is_hard_failure(self) -> bool {
        self != EngineErrorKind::EmptyResultSet
    }

    /// Runtime test mirroring `is_hard_failure`.
    pub fn hard_failure(&self) -> (b: bool)
        ensures
            b == self.is_hard_failure(),
    {
        match self {
            EngineErrorKind::EmptyResultSet => false,
            _ => true,
        }
    }
}

/// A failure value: its kind and the diagnostic text attached where it arose.
#[derive(Debug)]
pub struct EngineError {
    pub kind: EngineErrorKind,
    pub message: String,
}

impl EngineError {
    /// A transport failure carrying the underlying transport diagnostic.
    pub fn request_error(message: String) -> (r: EngineError)
        ensures
            r.kind == EngineErrorKind::RequestError,
            r.message@ == message@,
    {
        EngineError { kind: EngineErrorKind::RequestError, message }
    }

    /// The upstream engine explicitly reported that nothing matched.
    pub fn empty_result_set(message: String) -> (r: EngineError)
        ensures
            r.kind == EngineErrorKind::EmptyResultSet,
            r.message@ == message@,
    {
        EngineError { kind: EngineErrorKind::EmptyResultSet, message }
    }

    /// An internal defect, such as a selector that failed to compile.
    pub fn unexpected(message: String) -> (r: EngineError)
        ensures
            r.kind == EngineErrorKind::UnexpectedError,
            r.message@ == message@,
    {
        EngineError { kind: EngineErrorKind::UnexpectedError, message }
    }

    /// A structural copy carrying the same kind and diagnostic.
    pub fn duplicate(&self) -> (r: EngineError)
        ensures
            r.kind == self.kind,
            r.message@ == self.message@,
    {
        EngineError { kind: self.kind, message: self.message.clone() }
    }

    /// The diagnostic text, for the operator log.
    pub fn diagnostic(&self) -> (r: &String)
        ensures
            r@ == self.message@,
    {
        &self.message
    }
}

} // verus!
