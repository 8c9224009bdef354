//! Code synthesis through a text-completion endpoint.
//!
//! The pipeline builds a prompt from a description and an optional
//! signature stub, prepares one HTTP request for the completion
//! endpoint, and turns the raw completion text back into source code:
//! it isolates one balanced brace-delimited block, puts the prompt in
//! front of it, and unescapes the result.  The network call itself is
//! left to the caller; this crate prepares requests and interprets
//! outcomes.

pub mod errors;
pub mod escape;
pub mod extract;
pub mod pipeline;
pub mod prompt;
pub mod request;
pub mod response;
