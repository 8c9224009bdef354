//! The error taxonomy of a synthesis request.

use vstd::prelude::*;

verus! {

/// Why a synthesis request failed.  Every kind is fatal for the
/// request it belongs to; nothing is retried.
#[derive(Debug)]
pub enum SynthesisError {
    /// No credential was supplied; the request was never prepared and
    /// nothing was sent.
    MissingCredential,
    /// The transport layer failed; the field is its description.
    Transport(String),
    /// The endpoint answered with a non-success HTTP status; the
    /// fields are the numeric code and the status text.
    Status(u16, String),
    /// The response body is not valid JSON, or no string stands at
    /// the text of its first completion choice.
    MalformedResponse,
}

} // verus!
