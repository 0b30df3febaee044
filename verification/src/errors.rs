//! Error taxonomy surfaced by the authentication core.

use vstd::prelude::*;

verus! {

/// The four error kinds the core reports to its transport-layer caller.
/// No internal detail (crypto failure reason, store error text) is carried
/// beyond the kind itself.
#[derive(Clone, Copy, Debug, PartialEq, Eq, Structural)]
pub enum Error {
    /// Malformed or missing client input (e.g. a missing form field).
    BadRequest,
    /// Credential lookup miss; deliberately also used for a wrong password,
    /// so that account existence cannot be probed through the login path.
    NotFound,
    /// Hashing, crypto or persistence failure not attributable to the client.
    InternalServerError,
    /// Session cookie missing, invalid or stale on a protected page.
    Unauthorized,
}

/// Why verification of a sealed cookie (or of a token/cookie pair) failed.
/// A blob that fails authentication is rejected before any embedded field
/// is trusted, and no reason beyond these three kinds is revealed.
#[derive(Clone, Copy, Debug, PartialEq, Eq, Structural)]
pub enum VerifyError {
    /// The transport-safe encoding could not be decoded.
    Malformed,
    /// Authentication of the decoded blob failed, or the two halves of a
    /// token/cookie pair do not carry the same embedded value.
    Forged,
    /// The blob is authentic but its embedded expiry has elapsed.
    Expired,
}

} // verus!
