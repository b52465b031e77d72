//! Failures of the library's operations.

use vstd::prelude::*;

verus! {

/// The application-level code meaning "nothing went wrong".
pub const OK: i32 = 0;

/// The application-level code meaning "failed, but may be retried unchanged".
pub const EAGAIN: i32 = -3;

#[derive(Debug, Clone, Copy, PartialEq, Eq, Structural)]
pub enum Error {
    /// The attempt budget ran out, or a payment-required answer carried no
    /// usable challenge.
    MaxRetriesReached,
    /// The server answered with an application error code.
    Api(i32),
    /// A response body had neither of the expected shapes.
    Json,
    /// The response array did not hold one result per request.
    ResponseCount,
    /// The URL of the API could not be formed.
    Url,
    /// The body of a response could not be read.
    Transport,
    /// A node key was not valid UTF-8 text.
    NodeKeyDecode,
}

} // verus!
