//! The one failure the library reports, with the text that explains it.

use vstd::prelude::*;

verus! {

/// What went wrong, as far as a caller can act on it.
#[derive(Copy, Clone, Debug, PartialEq, Eq, Structural)]
#[non_exhaustive]
pub enum ErrorKind {
    /// The documentation tree could not be read or is structurally incomplete.
    ApiParse,
    /// Anything else.
    Unknown,
}

/// A failure: its kind, the text that explains it, and the text of the failure that caused it.
#[derive(Clone, Debug)]
pub struct Error {
    kind: ErrorKind,
    context: String,
    source: Option<String>,
}

impl Error {
    /// The kind of this error, as the contracts see it.
    pub closed spec fn spec_kind(&self) -> ErrorKind {
        self.kind
    }

    /// The explaining text, as the contracts see it.
    pub closed spec fn context(&self) -> Seq<char> {
        self.context@
    }

    /// The text of the underlying cause, if one was attached.
    pub closed spec fn cause(&self) -> Option<Seq<char>> {
        match self.source {
            Some(s) => Some(s@),
            None => None,
        }
    }

    /// An error of the given kind with the given text and no cause.
    pub fn new(kind: ErrorKind, context: &str) -> (e: Error)
        ensures
            e.spec_kind() == kind,
            e.context() == context@,
            e.cause().is_none(),
    {
        Error { kind, context: context.to_owned(), source: None }
    }

    /// The same error with `source` recorded as its cause.
    pub fn set_source(self, source: &str) -> (e: Error)
        ensures
            e.spec_kind() == self.spec_kind(),
            e.context() == self.context(),
            e.cause() == Some(source@),
    {
        Error { kind: self.kind, context: self.context, source: Some(source.to_owned()) }
    }

    /// The kind of this error.
    #[verifier::when_used_as_spec(spec_kind)]
    pub fn kind(&self) -> (k: ErrorKind)
        ensures
            k == self.spec_kind(),
    {
        self.kind
    }

    /// The explaining text.
    pub fn to_string(&self) -> (s: String)
        ensures
            s@ == self.context(),
    {
        self.context.clone()
    }

    /// The text of the underlying cause, if one was attached.
    pub fn source(&self) -> (s: Option<String>)
        ensures
            s.is_some() == self.cause().is_some(),
            s matches Some(t) ==> self.cause() == Some(t@),
    {
        match &self.source {
            Some(t) => Some(t.clone()),
            None => None,
        }
    }
}

} // verus!
