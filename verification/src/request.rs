//! The fixed completion endpoint and the request payload.
//!
//! The payload is a fixed-shape JSON object around the wire-form
//! prompt; the sampling parameters are constants chosen for
//! deterministic, highest-likelihood completions.  The prompt is
//! embedded verbatim, so it must already be in wire form.

use vstd::prelude::*;

verus! {

/// The completion endpoint that prepared requests are meant for.
pub open spec fn endpoint_of() -> Seq<char> {
    "https://api.openai.com/v1/engines/davinci-codex/completions"@
}

/// The URL of the completion endpoint.
pub fn endpoint_url() -> (r: String)
    ensures
        r@ == endpoint_of(),
{
    String::from_str("https://api.openai.com/v1/engines/davinci-codex/completions")
}

/// The request payload around the wire-form `prompt`: temperature 0,
/// at most 320 tokens, top_p 1, no frequency or presence penalty, and
/// the best of 3 candidates.
pub open spec fn request_body_of(prompt: Seq<char>) -> Seq<char> {
    "{\"prompt\": \""@ + prompt
        + "\", \"temperature\": 0, \"max_tokens\": 320, \"top_p\": 1, \"frequency_penalty\": 0, \"best_of\": 3, \"presence_penalty\": 0}"@
}

/// Builds the request payload embedding the wire-form `prompt`.
pub fn build_request_body(prompt: &str) -> (r: String)
    ensures
        r@ == request_body_of(prompt@),
{
    let mut out = String::from_str("{\"prompt\": \"");
    out.append(prompt);
    out.append(
        "\", \"temperature\": 0, \"max_tokens\": 320, \"top_p\": 1, \"frequency_penalty\": 0, \"best_of\": 3, \"presence_penalty\": 0}",
    );
    out
}

} // verus!
