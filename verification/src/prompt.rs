//! Assembly of the literal prompt sent to the completion endpoint.
//!
//! A prompt is a comment line naming the target language and the
//! description, a two-character newline escape, and the caller's
//! signature stub.  The stub is the caller's signature tokens,
//! separated by single spaces, with every spaced arrow `- >` (an
//! artifact of token-level reconstruction upstream) rewritten to
//! `->`.

use vstd::prelude::*;

use crate::escape::replace_all;
use crate::escape::replace_seq;

verus! {

/// The stub built from signature tokens: the tokens in order,
/// separated by single spaces.
pub open spec fn stub_of(tokens: Seq<Seq<char>>) -> Seq<char>
    decreases tokens.len(),
{
    if tokens.len() == 0 {
        Seq::empty()
    } else if tokens.len() == 1 {
        tokens[0]
    } else {
        stub_of(tokens.drop_last()) + seq![' '] + tokens.last()
    }
}

/// The spaced arrow left in a stub by token-level reconstruction.
pub open spec fn spaced_arrow() -> Seq<char> {
    seq!['-', ' ', '>']
}

/// The arrow the spaced form is rewritten to.
pub open spec fn arrow() -> Seq<char> {
    seq!['-', '>']
}

/// The prompt for `description` and `stub`: the comment line, the
/// two-character newline escape, then the normalized stub.
pub open spec fn prompt_of(description: Seq<char>, stub: Seq<char>) -> Seq<char> {
    "// A rust function that "@ + description + seq!['\\', 'n'] + replace_seq(
        stub,
        spaced_arrow(),
        arrow(),
    )
}

/// Joins signature tokens into a stub, separating them with single
/// spaces.
pub fn build_stub(tokens: &Vec<String>) -> (r: String)
    ensures
        r@ == stub_of(tokens.deep_view()),
{
    let mut out = String::new();
    let mut i: usize = 0;
    proof {
        assert(tokens.deep_view().take(0) =~= Seq::<Seq<char>>::empty());
    }
    while i < tokens.len()
        invariant
            i <= tokens.len(),
            tokens.deep_view().len() == tokens.len(),
            out@ == stub_of(tokens.deep_view().take(i as int)),
        decreases tokens.len() - i,
    {
        if i > 0 {
            out.append(" ");
        }
        out.append(tokens[i].as_str());
        proof {
            reveal_strlit(" ");
            let toks = tokens.deep_view();
            assert(toks.take(i as int + 1).drop_last() =~= toks.take(i as int));
            assert(toks.take(i as int + 1).last() == toks[i as int]);
            assert(toks[i as int] == tokens@[i as int]@);
            assert(" "@ =~= seq![' ']);
        }
        i = i + 1;
    }
    proof {
        assert(tokens.deep_view().take(tokens.len() as int) =~= tokens.deep_view());
    }
    out
}

/// Builds the prompt for `description` and `stub`, rewriting every
/// spaced arrow `- >` in the stub to `->`.
pub fn build_prompt(description: &str, stub: &str) -> (r: String)
    ensures
        r@ == prompt_of(description@, stub@),
{
    proof {
        reveal_strlit("- >");
        reveal_strlit("->");
        reveal_strlit("\\n");
        assert("- >"@ =~= spaced_arrow());
        assert("->"@ =~= arrow());
        assert("\\n"@ =~= seq!['\\', 'n']);
    }
    let mut out = String::from_str("// A rust function that ");
    out.append(description);
    out.append("\\n");
    let fixed = replace_all(stub, "- >", "->");
    out.append(fixed.as_str());
    out
}

} // verus!
