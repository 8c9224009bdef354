//! Reading the completion text out of an endpoint response.
//!
//! The endpoint answers with a JSON body of the shape
//! `{"choices": [{"text": "..."}]}`.  The text of the first choice is
//! taken in its serialized form — its JSON fragment, quotation marks
//! and escapes included — and only the surrounding quotation marks are
//! stripped here: the pipeline works on wire text and unescapes once,
//! at the very end.

use vstd::prelude::*;

use crate::errors::SynthesisError;

verus! {

/// The JSON fragment that serializes the text of the first completion
/// choice of `body`: what stands at `choices[0].text`, re-escaped and
/// surrounded by its own quotation marks.
pub uninterp spec fn choice_fragment_of(body: Seq<char>) -> Seq<char>;

/// Whether `body` is valid JSON holding a string at
/// `choices[0].text`.
pub uninterp spec fn response_has_text(body: Seq<char>) -> bool;

/// Relies on `serde_json::from_str::<Value>`, `Value::get`,
/// `Value::is_string` and `Value`'s `Display` (through
/// `to_string`): parses `body` as JSON and, when a string stands at
/// `choices[0].text`, serializes that value back to its compact JSON
/// fragment.  A serialized JSON string is always surrounded by
/// quotation marks, so the fragment holds at least those two
/// characters.  Parsing and serializing depend on `body` alone.
#[verifier::external_body]
fn choice_text_fragment(body: &str) -> (r: Option<String>)
    ensures
        (r is Some) == response_has_text(body@),
        r matches Some(f) ==> f@ == choice_fragment_of(body@) && f@.len() >= 2 && f@[0] == '"'
            && f@[f@.len() - 1] == '"',
{
    let parsed: serde_json::Value = serde_json::from_str(body).ok()?;
    let text = parsed.get("choices")?.get(0)?.get("text")?;
    if text.is_string() {
        Some(text.to_string())
    } else {
        None
    }
}

/// `f` with its first and last character stripped.
pub open spec fn stripped(f: Seq<char>) -> Seq<char>
    recommends
        f.len() >= 2,
{
    f.subrange(1, f.len() - 1)
}

/// The text of the first completion choice of `body`, still in wire
/// form: its serialized fragment with the one leading and one
/// trailing quotation mark stripped.  `Err(MalformedResponse)` exactly
/// when `body` is not valid JSON holding a string at
/// `choices[0].text`.
pub fn extract_choice_text(body: &str) -> (r: Result<String, SynthesisError>)
    ensures
        (r is Ok) == response_has_text(body@),
        r matches Ok(t) ==> t@ == stripped(choice_fragment_of(body@)),
        r is Err ==> r == Err::<String, SynthesisError>(SynthesisError::MalformedResponse),
{
    match choice_text_fragment(body) {
        None => Err(SynthesisError::MalformedResponse),
        Some(f) => {
            let len = f.as_str().unicode_len();
            let t = f.as_str().substring_char(1, len - 1);
            Ok(String::from_str(t))
        },
    }
}

} // verus!
