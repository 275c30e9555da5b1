//! The transport contract: the abstract request the core hands to its
//! HTTP collaborator.  The core only builds these values; performing
//! them, and handing back `{ status, body }`, is the collaborator's
//! business.
use vstd::prelude::*;

verus! {

/// The request method, in the protocol's own terms.
#[derive(Clone, Copy, Debug, PartialEq, Eq, Structural)]
pub enum Method {
    /// A property-find request.
    PropFind,
    /// A query (report) request.
    Report,
    /// A write (put) request.
    Put,
}

/// One transport request: method, depth header, and body text.  The
/// target URL and the authorization header travel beside it.
#[derive(Debug)]
pub struct Request {
    pub method: Method,
    pub depth: u8,
    pub body: String,
}

} // verus!
