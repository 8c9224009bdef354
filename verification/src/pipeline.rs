//! The synthesis pipeline.
//!
//! A stage is one call to the completion endpoint.  This crate never
//! performs the call itself: `begin_synthesis` prepares the one
//! request of a plain synthesis, the caller carries it out, and
//! `finish_stage` turns the outcome into the synthesized source or a
//! structured error.  A chained synthesis adds a second stage through
//! `begin_tests_stage`, which feeds the first stage's result back as
//! the next prompt.

use vstd::prelude::*;

use crate::errors::SynthesisError;
use crate::escape::decode;
use crate::escape::decode_spec;
use crate::escape::replace_all;
use crate::escape::replace_seq;
use crate::extract::block_closes;
use crate::extract::block_of;
use crate::extract::extract;
use crate::prompt::build_prompt;
use crate::prompt::build_stub;
use crate::prompt::prompt_of;
use crate::prompt::stub_of;
use crate::request::build_request_body;
use crate::request::request_body_of;
use crate::response::choice_fragment_of;
use crate::response::extract_choice_text;
use crate::response::response_has_text;
use crate::response::stripped;

verus! {

/// One prepared call to the completion endpoint: the wire-form
/// prompt, the payload embedding it, and the bearer credential for
/// the Authorization header.
pub struct CompletionRequest {
    pub prompt: String,
    pub body: String,
    pub bearer: String,
}

/// What one HTTP call to the endpoint came to: the response body of a
/// success, the code and status text of a non-success response, or
/// the transport layer's failure description.
pub enum HttpOutcome {
    Success(String),
    Status(u16, String),
    Transport(String),
}

/// A synthesized source text.  `closed` is false when the extracted
/// block never closed and the whole completion was kept — the
/// degenerate outcome a caller may want to treat as a warning.
pub struct Synthesized {
    pub source: String,
    pub closed: bool,
}

/// The source a stage produces from its wire prompt and a successful
/// response body: the prompt with the extracted block appended, then
/// unescaped.
pub open spec fn stage_source_of(prompt: Seq<char>, body: Seq<char>) -> Seq<char> {
    decode_spec(prompt + block_of(stripped(choice_fragment_of(body))))
}

/// Whether the block extracted from the choice text of `body` closed.
pub open spec fn stage_closed(body: Seq<char>) -> bool {
    block_closes(stripped(choice_fragment_of(body)))
}

/// Starts a synthesis: checks the credential and prepares the one
/// request, whose prompt is built from the description and the
/// signature tokens.  `Err(MissingCredential)` exactly when no
/// credential was supplied; this crate sends nothing either way.
pub fn begin_synthesis(
    description: &str,
    signature_tokens: &Vec<String>,
    credential: Option<&String>,
) -> (r: Result<CompletionRequest, SynthesisError>)
    requires
        description@.len() > 0,
    ensures
        (credential is None) <==> r == Err::<CompletionRequest, SynthesisError>(
            SynthesisError::MissingCredential,
        ),
        credential matches Some(key) ==> r matches Ok(req) && req.prompt@ == prompt_of(
            description@,
            stub_of(signature_tokens.deep_view()),
        ) && req.body@ == request_body_of(req.prompt@) && req.bearer@ == key@,
{
    match credential {
        None => Err(SynthesisError::MissingCredential),
        Some(key) => {
            let stub = build_stub(signature_tokens);
            let prompt = build_prompt(description, stub.as_str());
            let body = build_request_body(prompt.as_str());
            Ok(CompletionRequest { prompt, body, bearer: key.clone() })
        },
    }
}

/// Finishes one stage from the outcome of its HTTP call.  A transport
/// failure and a non-success status surface as the matching error
/// carrying the same description; a success body without the expected
/// choice text is malformed; otherwise the synthesized source is the
/// wire prompt with the extracted block appended, unescaped.
pub fn finish_stage(prompt: &str, outcome: HttpOutcome) -> (r: Result<
    Synthesized,
    SynthesisError,
>)
    ensures
        (r is Ok) <==> (outcome matches HttpOutcome::Success(body) && response_has_text(body@)),
        r matches Ok(s) ==> (outcome matches HttpOutcome::Success(body) && s.source@
            == stage_source_of(prompt@, body@) && s.closed == stage_closed(body@)),
        outcome matches HttpOutcome::Status(code, text) ==> r == Err::<
            Synthesized,
            SynthesisError,
        >(SynthesisError::Status(code, text)),
        outcome matches HttpOutcome::Transport(message) ==> r == Err::<
            Synthesized,
            SynthesisError,
        >(SynthesisError::Transport(message)),
        (outcome matches HttpOutcome::Success(body) && !response_has_text(body@)) ==> r == Err::<
            Synthesized,
            SynthesisError,
        >(SynthesisError::MalformedResponse),
{
    match outcome {
        HttpOutcome::Transport(message) => Err(SynthesisError::Transport(message)),
        HttpOutcome::Status(code, text) => Err(SynthesisError::Status(code, text)),
        HttpOutcome::Success(body) => match extract_choice_text(body.as_str()) {
            Err(e) => Err(e),
            Ok(text) => {
                let block = extract(text.as_str());
                let mut joined = String::from_str(prompt);
                joined.append(block.text.as_str());
                let source = decode(joined.as_str());
                Ok(Synthesized { source, closed: block.closed })
            },
        },
    }
}

/// The comment appended to a synthesized function to ask the endpoint
/// for its tests.
pub open spec fn tests_suffix() -> Seq<char> {
    "\n// 5 tests for the function"@
}

/// Prepares the second stage of a chained synthesis: the synthesized
/// function with the comment asking for five tests appended, every
/// real newline re-escaped.  The result is the next prompt verbatim;
/// it is not wrapped in the comment template again.
pub fn begin_tests_stage(function_source: &str, bearer: &String) -> (r: CompletionRequest)
    ensures
        r.prompt@ == replace_seq(function_source@ + tests_suffix(), seq!['\n'], seq!['\\', 'n']),
        r.body@ == request_body_of(r.prompt@),
        r.bearer@ == bearer@,
{
    proof {
        reveal_strlit("\n");
        reveal_strlit("\\n");
        assert("\n"@ =~= seq!['\n']);
        assert("\\n"@ =~= seq!['\\', 'n']);
    }
    let mut joined = String::from_str(function_source);
    joined.append("\n// 5 tests for the function");
    let prompt = replace_all(joined.as_str(), "\n", "\\n");
    let body = build_request_body(prompt.as_str());
    CompletionRequest { prompt, body, bearer: bearer.clone() }
}

} // verus!
