//! Conversion between wire text (escaped for embedding in a request
//! payload) and natural text with real newlines and quotes.
//!
//! Both directions are built from one primitive: a single
//! left-to-right pass that rewrites every non-overlapping occurrence
//! of a pattern.  Encoding applies three such passes (newline first,
//! then the two quote characters); decoding applies the three inverse
//! passes in the same relative order.

use vstd::prelude::*;

verus! {

/// One left-to-right pass over `s`, rewriting each non-overlapping
/// occurrence of `pat` to `rep`, leftmost occurrence first.
pub open spec fn replace_seq(s: Seq<char>, pat: Seq<char>, rep: Seq<char>) -> Seq<char>
    recommends
        pat.len() > 0,
    decreases s.len(),
{
    if s.len() == 0 {
        s
    } else if 0 < pat.len() <= s.len() && s.take(pat.len() as int) == pat {
        rep + replace_seq(s.skip(pat.len() as int), pat, rep)
    } else {
        seq![s[0]] + replace_seq(s.skip(1), pat, rep)
    }
}

/// Relies on `String::push`: appends one character at the end.
#[verifier::external_body]
pub(crate) fn push_char(s: &mut String, c: char)
    ensures
        final(s)@ == old(s)@.push(c),
{
    s.push(c);
}

/// True when `pat` occurs in `s` starting at position `i`.
fn matches_at(s: &str, i: usize, pat: &str) -> (r: bool)
    requires
        i + pat@.len() <= s@.len(),
        s@.len() <= usize::MAX,
    ensures
        r == (s@.subrange(i as int, i as int + pat@.len() as int) == pat@),
{
    let plen = pat.unicode_len();
    let mut j: usize = 0;
    while j < plen
        invariant
            j <= plen,
            plen == pat@.len(),
            i + plen <= s@.len(),
            s@.len() <= usize::MAX,
            forall|k: int| 0 <= k < j ==> s@[i + k] == pat@[k],
        decreases plen - j,
    {
        if s.get_char(i + j) != pat.get_char(j) {
            proof {
                let sub = s@.subrange(i as int, i as int + plen as int);
                assert(sub[j as int] == s@[i + j]);
            }
            return false;
        }
        j += 1;
    }
    proof {
        assert(s@.subrange(i as int, i as int + plen as int) =~= pat@);
    }
    true
}

/// Rewrites every non-overlapping occurrence of `pat` in `s` to `rep`,
/// scanning left to right.
pub fn replace_all(s: &str, pat: &str, rep: &str) -> (r: String)
    requires
        pat@.len() > 0,
    ensures
        r@ == replace_seq(s@, pat@, rep@),
{
    let n = s.unicode_len();
    let plen = pat.unicode_len();
    let mut out = String::new();
    let mut i: usize = 0;
    proof {
        assert(s@.skip(0) =~= s@);
        assert(out@ + replace_seq(s@, pat@, rep@) =~= replace_seq(s@, pat@, rep@));
    }
    while i < n
        invariant
            i <= n,
            n == s@.len(),
            plen == pat@.len(),
            plen > 0,
            out@ + replace_seq(s@.skip(i as int), pat@, rep@) == replace_seq(s@, pat@, rep@),
        decreases n - i,
    {
        proof {
            assert(s@.skip(i as int).len() == n - i);
        }
        if plen <= n - i && matches_at(s, i, pat) {
            proof {
                assert(s@.skip(i as int).take(plen as int) =~= s@.subrange(
                    i as int,
                    i as int + plen as int,
                ));
                assert(s@.skip(i as int).skip(plen as int) =~= s@.skip(i as int + plen as int));
            }
            out.append(rep);
            i = i + plen;
        } else {
            proof {
                if plen <= n - i {
                    assert(s@.skip(i as int).take(plen as int) =~= s@.subrange(
                        i as int,
                        i as int + plen as int,
                    ));
                }
                assert(s@.skip(i as int)[0] == s@[i as int]);
                assert(s@.skip(i as int).skip(1) =~= s@.skip(i as int + 1));
                assert(out@.push(s@[i as int]) =~= out@ + seq![s@[i as int]]);
            }
            let c = s.get_char(i);
            push_char(&mut out, c);
            i = i + 1;
        }
    }
    proof {
        assert(s@.skip(n as int) =~= Seq::<char>::empty());
        assert(out@ + Seq::<char>::empty() =~= out@);
    }
    out
}

/// Wire form of `s`: newline, then `"`, then `'` rewritten to their
/// two-character escapes, in that order.
pub open spec fn encode_spec(s: Seq<char>) -> Seq<char> {
    replace_seq(
        replace_seq(replace_seq(s, seq!['\n'], seq!['\\', 'n']), seq!['"'], seq!['\\', '"']),
        seq!['\''],
        seq!['\\', '\''],
    )
}

/// Natural form of wire text `s`: the escape pairs for newline, `"`
/// and `'` rewritten back to the real characters, in that order.
pub open spec fn decode_spec(s: Seq<char>) -> Seq<char> {
    replace_seq(
        replace_seq(replace_seq(s, seq!['\\', 'n'], seq!['\n']), seq!['\\', '"'], seq!['"']),
        seq!['\\', '\''],
        seq!['\''],
    )
}

/// Escapes `text` for embedding inside a quoted request payload field.
pub fn encode(text: &str) -> (r: String)
    ensures
        r@ == encode_spec(text@),
{
    proof {
        reveal_strlit("\n");
        reveal_strlit("\\n");
        reveal_strlit("\"");
        reveal_strlit("\\\"");
        reveal_strlit("'");
        reveal_strlit("\\'");
        assert("\n"@ =~= seq!['\n']);
        assert("\\n"@ =~= seq!['\\', 'n']);
        assert("\""@ =~= seq!['"']);
        assert("\\\""@ =~= seq!['\\', '"']);
        assert("'"@ =~= seq!['\'']);
        assert("\\'"@ =~= seq!['\\', '\'']);
    }
    let a = replace_all(text, "\n", "\\n");
    let b = replace_all(a.as_str(), "\"", "\\\"");
    replace_all(b.as_str(), "'", "\\'")
}

/// Turns wire text back into natural text with real newlines and
/// quotes.
pub fn decode(wire: &str) -> (r: String)
    ensures
        r@ == decode_spec(wire@),
{
    proof {
        reveal_strlit("\n");
        reveal_strlit("\\n");
        reveal_strlit("\"");
        reveal_strlit("\\\"");
        reveal_strlit("'");
        reveal_strlit("\\'");
        assert("\n"@ =~= seq!['\n']);
        assert("\\n"@ =~= seq!['\\', 'n']);
        assert("\""@ =~= seq!['"']);
        assert("\\\""@ =~= seq!['\\', '"']);
        assert("'"@ =~= seq!['\'']);
        assert("\\'"@ =~= seq!['\\', '\'']);
    }
    let a = replace_all(wire, "\\n", "\n");
    let b = replace_all(a.as_str(), "\\\"", "\"");
    replace_all(b.as_str(), "\\'", "'")
}

/// No backslash immediately followed by the letter `n` anywhere in
/// `s`.  Such a pair is indistinguishable from an escaped newline, so
/// decoding rewrites it and the round trip loses it.
pub open spec fn no_escaped_newline(s: Seq<char>) -> bool {
    forall|i: int| 0 <= i && i + 1 < s.len() ==> !((#[trigger] s[i]) == '\\' && s[i + 1] == 'n')
}

proof fn lemma_replace1_unfold(s: Seq<char>, p: char, rep: Seq<char>)
    requires
        s.len() > 0,
    ensures
        replace_seq(s, seq![p], rep) == (if s[0] == p {
            rep
        } else {
            seq![s[0]]
        }) + replace_seq(s.skip(1), seq![p], rep),
{
    if s[0] == p {
        assert(s.take(1) =~= seq![p]);
    } else {
        assert(s.take(1)[0] == s[0]);
    }
}

proof fn lemma_replace1_concat(x: Seq<char>, y: Seq<char>, p: char, rep: Seq<char>)
    ensures
        replace_seq(x + y, seq![p], rep) == replace_seq(x, seq![p], rep) + replace_seq(
            y,
            seq![p],
            rep,
        ),
    decreases x.len(),
{
    if x.len() == 0 {
        assert(x + y =~= y);
        assert(replace_seq(x, seq![p], rep) + replace_seq(y, seq![p], rep) =~= replace_seq(
            y,
            seq![p],
            rep,
        ));
    } else {
        let t = x.skip(1);
        lemma_replace1_concat(t, y, p, rep);
        lemma_replace1_unfold(x + y, p, rep);
        lemma_replace1_unfold(x, p, rep);
        assert((x + y)[0] == x[0]);
        assert((x + y).skip(1) =~= t + y);
        let v: Seq<char> = if x[0] == p {
            rep
        } else {
            seq![x[0]]
        };
        assert(v + (replace_seq(t, seq![p], rep) + replace_seq(y, seq![p], rep)) =~= (v
            + replace_seq(t, seq![p], rep)) + replace_seq(y, seq![p], rep));
    }
}

proof fn lemma_replace2_unfold(s: Seq<char>, p0: char, p1: char, rep: Seq<char>)
    requires
        s.len() > 0,
    ensures
        replace_seq(s, seq![p0, p1], rep) == (if s.len() >= 2 && s[0] == p0 && s[1] == p1 {
            rep + replace_seq(s.skip(2), seq![p0, p1], rep)
        } else {
            seq![s[0]] + replace_seq(s.skip(1), seq![p0, p1], rep)
        }),
{
    let pat = seq![p0, p1];
    if s.len() >= 2 && s[0] == p0 && s[1] == p1 {
        assert(s.take(2) =~= pat);
    } else {
        if s.len() >= 2 {
            assert(s.take(2)[0] == s[0]);
            assert(s.take(2)[1] == s[1]);
        }
    }
}

proof fn lemma_replace2_concat(x: Seq<char>, y: Seq<char>, p0: char, p1: char, rep: Seq<char>)
    requires
        !(x.len() > 0 && y.len() > 0 && x.last() == p0 && y[0] == p1),
    ensures
        replace_seq(x + y, seq![p0, p1], rep) == replace_seq(x, seq![p0, p1], rep) + replace_seq(
            y,
            seq![p0, p1],
            rep,
        ),
    decreases x.len(),
{
    let pat = seq![p0, p1];
    if x.len() == 0 {
        assert(x + y =~= y);
        assert(replace_seq(x, pat, rep) + replace_seq(y, pat, rep) =~= replace_seq(y, pat, rep));
    } else if x.len() == 1 {
        lemma_replace2_unfold(x + y, p0, p1, rep);
        assert((x + y)[0] == x[0]);
        if (x + y).len() >= 2 {
            assert((x + y)[1] == y[0]);
        }
        // a match at the very first position would span the boundary,
        // which the precondition rules out
        assert(!((x + y).len() >= 2 && (x + y)[0] == p0 && (x + y)[1] == p1));
        assert((x + y).skip(1) =~= y);
        assert(replace_seq(x, pat, rep) == seq![x[0]] + replace_seq(x.skip(1), pat, rep)) by {
            lemma_replace2_unfold(x, p0, p1, rep);
        }
        assert(x.skip(1) =~= Seq::<char>::empty());
        assert(seq![x[0]] + (replace_seq(y, pat, rep)) =~= (seq![x[0]] + replace_seq(
            Seq::<char>::empty(),
            pat,
            rep,
        )) + replace_seq(y, pat, rep));
    } else {
        let t = x.skip(1);
        lemma_replace2_unfold(x + y, p0, p1, rep);
        lemma_replace2_unfold(x, p0, p1, rep);
        assert((x + y)[0] == x[0]);
        assert((x + y)[1] == x[1]);
        if x[0] == p0 && x[1] == p1 {
            assert((x + y).skip(2) =~= x.skip(2) + y);
            if x.len() == 2 {
                assert(x.skip(2) =~= Seq::<char>::empty());
            } else {
                assert(x.skip(2).last() == x.last());
            }
            lemma_replace2_concat(x.skip(2), y, p0, p1, rep);
            assert(rep + (replace_seq(x.skip(2), pat, rep) + replace_seq(y, pat, rep)) =~= (rep
                + replace_seq(x.skip(2), pat, rep)) + replace_seq(y, pat, rep));
        } else {
            assert((x + y).skip(1) =~= t + y);
            assert(t.last() == x.last());
            lemma_replace2_concat(t, y, p0, p1, rep);
            assert(seq![x[0]] + (replace_seq(t, pat, rep) + replace_seq(y, pat, rep)) =~= (
            seq![x[0]] + replace_seq(t, pat, rep)) + replace_seq(y, pat, rep));
        }
    }
}

/// The wire form of one character.
spec fn esc(c: char) -> Seq<char> {
    if c == '\n' {
        seq!['\\', 'n']
    } else if c == '"' {
        seq!['\\', '"']
    } else if c == '\'' {
        seq!['\\', '\'']
    } else {
        seq![c]
    }
}

/// What one encoded character looks like after the escaped-newline
/// pass of decoding.
spec fn half1(c: char) -> Seq<char> {
    if c == '\n' {
        seq!['\n']
    } else if c == '"' {
        seq!['\\', '"']
    } else if c == '\'' {
        seq!['\\', '\'']
    } else {
        seq![c]
    }
}

/// What one encoded character looks like after the escaped-newline
/// and escaped-double-quote passes of decoding.
spec fn half2(c: char) -> Seq<char> {
    if c == '\'' {
        seq!['\\', '\'']
    } else {
        seq![c]
    }
}

spec fn half1_map(s: Seq<char>) -> Seq<char>
    decreases s.len(),
{
    if s.len() == 0 {
        s
    } else {
        half1(s[0]) + half1_map(s.skip(1))
    }
}

spec fn half2_map(s: Seq<char>) -> Seq<char>
    decreases s.len(),
{
    if s.len() == 0 {
        s
    } else {
        half2(s[0]) + half2_map(s.skip(1))
    }
}

proof fn lemma_encode_single(c: char)
    ensures
        encode_spec(seq![c]) == esc(c),
{
    let pn = seq!['\n'];
    let rn = seq!['\\', 'n'];
    let pq = seq!['"'];
    let rq = seq!['\\', '"'];
    let pa = seq!['\''];
    let ra = seq!['\\', '\''];
    lemma_replace1_unfold(seq![c], '\n', rn);
    assert(seq![c].skip(1) =~= Seq::<char>::empty());
    let s1 = replace_seq(seq![c], pn, rn);
    if c == '\n' {
        assert(s1 =~= seq!['\\', 'n']);
    } else {
        assert(s1 =~= seq![c]);
    }
    lemma_replace1_concat(seq![s1[0]], s1.skip(1), '"', rq);
    assert(seq![s1[0]] + s1.skip(1) =~= s1);
    lemma_replace1_unfold(seq![s1[0]], '"', rq);
    assert(seq![s1[0]].skip(1) =~= Seq::<char>::empty());
    if s1.len() == 2 {
        lemma_replace1_unfold(s1.skip(1), '"', rq);
        assert(s1.skip(1).skip(1) =~= Seq::<char>::empty());
    }
    let s2 = replace_seq(s1, pq, rq);
    if c == '\n' {
        assert(s2 =~= seq!['\\', 'n']);
    } else if c == '"' {
        assert(s2 =~= seq!['\\', '"']);
    } else {
        assert(s2 =~= seq![c]);
    }
    lemma_replace1_concat(seq![s2[0]], s2.skip(1), '\'', ra);
    assert(seq![s2[0]] + s2.skip(1) =~= s2);
    lemma_replace1_unfold(seq![s2[0]], '\'', ra);
    assert(seq![s2[0]].skip(1) =~= Seq::<char>::empty());
    if s2.len() == 2 {
        lemma_replace1_unfold(s2.skip(1), '\'', ra);
        assert(s2.skip(1).skip(1) =~= Seq::<char>::empty());
    }
    let s3 = replace_seq(s2, pa, ra);
    assert(encode_spec(seq![c]) == s3);
    assert(s3 =~= esc(c));
}

proof fn lemma_encode_concat(x: Seq<char>, y: Seq<char>)
    ensures
        encode_spec(x + y) == encode_spec(x) + encode_spec(y),
{
    let pn = seq!['\n'];
    let rn = seq!['\\', 'n'];
    let pq = seq!['"'];
    let rq = seq!['\\', '"'];
    let pa = seq!['\''];
    let ra = seq!['\\', '\''];
    lemma_replace1_concat(x, y, '\n', rn);
    lemma_replace1_concat(replace_seq(x, pn, rn), replace_seq(y, pn, rn), '"', rq);
    lemma_replace1_concat(
        replace_seq(replace_seq(x, pn, rn), pq, rq),
        replace_seq(replace_seq(y, pn, rn), pq, rq),
        '\'',
        ra,
    );
}

proof fn lemma_encode_unfold(s: Seq<char>)
    requires
        s.len() > 0,
    ensures
        encode_spec(s) == esc(s[0]) + encode_spec(s.skip(1)),
{
    assert(seq![s[0]] + s.skip(1) =~= s);
    lemma_encode_concat(seq![s[0]], s.skip(1));
    lemma_encode_single(s[0]);
}

proof fn lemma_decode_pass1(s: Seq<char>)
    requires
        no_escaped_newline(s),
    ensures
        replace_seq(encode_spec(s), seq!['\\', 'n'], seq!['\n']) == half1_map(s),
    decreases s.len(),
{
    let pat = seq!['\\', 'n'];
    let rep = seq!['\n'];
    if s.len() == 0 {
        assert(encode_spec(s) =~= s);
    } else {
        let c = s[0];
        let t = s.skip(1);
        lemma_encode_unfold(s);
        // the boundary between esc(c) and the encoded tail never
        // holds a backslash-n pair: esc(c) ends with a backslash only
        // for a plain backslash, and then the premise keeps `n` from
        // following it
        if t.len() > 0 {
            lemma_encode_unfold(t);
            assert(encode_spec(t)[0] == esc(t[0])[0]);
            assert(s[1] == t[0]);
        }
        lemma_replace2_concat(esc(c), encode_spec(t), '\\', 'n', rep);
        assert(no_escaped_newline(t)) by {
            assert(forall|i: int|
                0 <= i && i + 1 < t.len() ==> (#[trigger] t[i]) == s[i + 1] && t[i + 1] == s[i
                    + 2]);
        }
        lemma_decode_pass1(t);
        lemma_replace2_unfold(esc(c), '\\', 'n', rep);
        if c == '\n' {
            assert(esc(c).skip(2) =~= Seq::<char>::empty());
            assert(replace_seq(esc(c), pat, rep) =~= seq!['\n']);
        } else if c == '"' || c == '\'' {
            assert(esc(c).skip(1) =~= seq![esc(c)[1]]);
            lemma_replace2_unfold(seq![esc(c)[1]], '\\', 'n', rep);
            assert(seq![esc(c)[1]].skip(1) =~= Seq::<char>::empty());
            assert(replace_seq(esc(c), pat, rep) =~= esc(c));
        } else {
            assert(esc(c).skip(1) =~= Seq::<char>::empty());
            assert(replace_seq(esc(c), pat, rep) =~= seq![c]);
        }
        assert(replace_seq(esc(c), pat, rep) == half1(c));
        assert(half1_map(s) == half1(c) + half1_map(t));
    }
}

proof fn lemma_decode_pass2(s: Seq<char>)
    ensures
        replace_seq(half1_map(s), seq!['\\', '"'], seq!['"']) == half2_map(s),
    decreases s.len(),
{
    let pat = seq!['\\', '"'];
    let rep = seq!['"'];
    if s.len() == 0 {
    } else {
        let c = s[0];
        let t = s.skip(1);
        // no half1 image starts with a double quote, so the boundary
        // never holds an escaped-double-quote pair
        if t.len() > 0 {
            assert(half1_map(t)[0] == half1(t[0])[0]);
            assert(half1(t[0])[0] != '"');
        }
        lemma_replace2_concat(half1(c), half1_map(t), '\\', '"', rep);
        lemma_decode_pass2(t);
        lemma_replace2_unfold(half1(c), '\\', '"', rep);
        if c == '"' {
            assert(half1(c).skip(2) =~= Seq::<char>::empty());
            assert(replace_seq(half1(c), pat, rep) =~= seq!['"']);
        } else if c == '\'' {
            assert(half1(c).skip(1) =~= seq!['\'']);
            lemma_replace2_unfold(seq!['\''], '\\', '"', rep);
            assert(seq!['\''].skip(1) =~= Seq::<char>::empty());
            assert(replace_seq(half1(c), pat, rep) =~= half1(c));
        } else {
            assert(half1(c).skip(1) =~= Seq::<char>::empty());
            assert(replace_seq(half1(c), pat, rep) =~= half1(c));
        }
        assert(replace_seq(half1(c), pat, rep) == half2(c));
        assert(half2_map(s) == half2(c) + half2_map(t));
    }
}

proof fn lemma_decode_pass3(s: Seq<char>)
    ensures
        replace_seq(half2_map(s), seq!['\\', '\''], seq!['\'']) == s,
    decreases s.len(),
{
    let pat = seq!['\\', '\''];
    let rep = seq!['\''];
    if s.len() == 0 {
    } else {
        let c = s[0];
        let t = s.skip(1);
        // no half2 image starts with a single quote, so the boundary
        // never holds an escaped-single-quote pair
        if t.len() > 0 {
            assert(half2_map(t)[0] == half2(t[0])[0]);
            assert(half2(t[0])[0] != '\'');
        }
        lemma_replace2_concat(half2(c), half2_map(t), '\\', '\'', rep);
        lemma_decode_pass3(t);
        lemma_replace2_unfold(half2(c), '\\', '\'', rep);
        if c == '\'' {
            assert(half2(c).skip(2) =~= Seq::<char>::empty());
            assert(replace_seq(half2(c), pat, rep) =~= seq!['\'']);
        } else {
            assert(half2(c).skip(1) =~= Seq::<char>::empty());
            assert(replace_seq(half2(c), pat, rep) =~= seq![c]);
        }
        assert(seq![c] + t =~= s);
    }
}

/// Decoding inverts encoding: for any text in which no backslash is
/// immediately followed by the letter `n`, the wire form decodes back
/// to the text itself.
pub proof fn lemma_escape_round_trip(s: Seq<char>)
    requires
        no_escaped_newline(s),
    ensures
        decode_spec(encode_spec(s)) == s,
{
    lemma_decode_pass1(s);
    lemma_decode_pass2(s);
    lemma_decode_pass3(s);
}

} // verus!
