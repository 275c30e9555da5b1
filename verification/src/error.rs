//! The error taxonomy of the library.
//!
//! Every fallible operation of the crate reports one of these variants:
//! transport failures handed in by the caller, malformed or unresolvable
//! URL references, protocol violations in otherwise well-formed server
//! responses, grammar violations in a structured response or calendar
//! object, malformed completion timestamps, and internal invariant
//! violations that signal a defect rather than bad input.
use vstd::prelude::*;

verus! {

/// The variant of an [`Error`], without its message.
///
/// Contracts speak of the kind of an error; the human-readable message
/// carried beside it is not part of any specification.
#[derive(Clone, Copy, Debug, PartialEq, Eq, Structural)]
pub enum ErrorKind {
    /// A network or HTTP failure reported by the transport collaborator.
    Transport,
    /// A malformed or unresolvable URL reference.
    Url,
    /// A well-formed response that violates the expected discovery contract.
    Protocol,
    /// A grammar violation in a structured response or calendar object.
    DocumentParse,
    /// A malformed completion timestamp.
    Timestamp,
    /// An internal invariant violation; a defect, never caused by input.
    InvariantViolation,
}

/// An error of the library, carrying its kind and a diagnostic message.
#[derive(Debug)]
pub enum Error {
    Transport(String),
    Url(String),
    Protocol(String),
    DocumentParse(String),
    Timestamp(String),
    InvariantViolation(String),
}

impl Error {
    /// The kind of this error.
    pub open spec fn spec_kind(&self) -> ErrorKind {
        match self {
            Error::Transport(_) => ErrorKind::Transport,
            Error::Url(_) => ErrorKind::Url,
            Error::Protocol(_) => ErrorKind::Protocol,
            Error::DocumentParse(_) => ErrorKind::DocumentParse,
            Error::Timestamp(_) => ErrorKind::Timestamp,
            Error::InvariantViolation(_) => ErrorKind::InvariantViolation,
        }
    }

    /// Returns the kind of this error.
    #[verifier::when_used_as_spec(spec_kind)]
    pub fn kind(&self) -> (k: ErrorKind)
        ensures
            k == self.spec_kind(),
    {
        match self {
            Error::Transport(_) => ErrorKind::Transport,
            Error::Url(_) => ErrorKind::Url,
            Error::Protocol(_) => ErrorKind::Protocol,
            Error::DocumentParse(_) => ErrorKind::DocumentParse,
            Error::Timestamp(_) => ErrorKind::Timestamp,
            Error::InvariantViolation(_) => ErrorKind::InvariantViolation,
        }
    }

    /// The diagnostic message carried by this error.
    pub open spec fn spec_message(&self) -> Seq<char> {
        match self {
            Error::Transport(m) => m@,
            Error::Url(m) => m@,
            Error::Protocol(m) => m@,
            Error::DocumentParse(m) => m@,
            Error::Timestamp(m) => m@,
            Error::InvariantViolation(m) => m@,
        }
    }

    /// Returns the diagnostic message carried by this error.
    pub fn message(&self) -> (r: &String)
        ensures
            r@ == self.spec_message(),
    {
        match self {
            Error::Transport(m) => m,
            Error::Url(m) => m,
            Error::Protocol(m) => m,
            Error::DocumentParse(m) => m,
            Error::Timestamp(m) => m,
            Error::InvariantViolation(m) => m,
        }
    }
}

} // verus!
