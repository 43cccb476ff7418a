//! Text utilities: lexicographic ordering of character sequences and
//! HTML-entity decoding for question and answer text.

use vstd::prelude::*;
use vstd::relations::total_ordering;

verus! {

/// Lexicographic order on character sequences, comparing characters by
/// Unicode scalar value. This is the order that sorting strings by their
/// code points induces.
pub open spec fn lex_le(a: Seq<char>, b: Seq<char>) -> bool
    decreases a.len(),
{
    if a.len() == 0 {
        true
    } else if b.len() == 0 {
        false
    } else if a[0] as u32 == b[0] as u32 {
        lex_le(a.skip(1), b.skip(1))
    } else {
        (a[0] as u32) < (b[0] as u32)
    }
}

/// `lex_le` as a binary relation value, for use with ordering lemmas.
pub open spec fn lex_leq() -> spec_fn(Seq<char>, Seq<char>) -> bool {
    |a: Seq<char>, b: Seq<char>| lex_le(a, b)
}

pub proof fn lemma_lex_le_refl(a: Seq<char>)
    ensures
        lex_le(a, a),
    decreases a.len(),
{
    if a.len() > 0 {
        lemma_lex_le_refl(a.skip(1));
    }
}

pub proof fn lemma_lex_le_total(a: Seq<char>, b: Seq<char>)
    ensures
        lex_le(a, b) || lex_le(b, a),
    decreases a.len(),
{
    if a.len() > 0 && b.len() > 0 && a[0] as u32 == b[0] as u32 {
        lemma_lex_le_total(a.skip(1), b.skip(1));
    }
}

pub proof fn lemma_lex_le_antisymmetric(a: Seq<char>, b: Seq<char>)
    requires
        lex_le(a, b),
        lex_le(b, a),
    ensures
        a == b,
    decreases a.len(),
{
    if a.len() == 0 {
        assert(b.len() == 0);
        assert(a =~= b);
    } else {
        assert(b.len() > 0);
        assert(a[0] as u32 == b[0] as u32);
        vstd::utf8::char_u32_cast(a[0], a[0] as u32);
        vstd::utf8::char_u32_cast(b[0], a[0] as u32);
        assert(a[0] == b[0]);
        lemma_lex_le_antisymmetric(a.skip(1), b.skip(1));
        assert(a.skip(1).len() == b.skip(1).len());
        assert forall|i: int| 0 <= i < a.len() implies a[i] == b[i] by {
            if i >= 1 {
                assert(a[i] == a.skip(1)[i - 1]);
                assert(b[i] == b.skip(1)[i - 1]);
            }
        }
        assert(a =~= b);
    }
}

pub proof fn lemma_lex_le_transitive(a: Seq<char>, b: Seq<char>, c: Seq<char>)
    requires
        lex_le(a, b),
        lex_le(b, c),
    ensures
        lex_le(a, c),
    decreases a.len(),
{
    if a.len() > 0 && b.len() > 0 && c.len() > 0 {
        if a[0] as u32 == b[0] as u32 && b[0] as u32 == c[0] as u32 {
            lemma_lex_le_transitive(a.skip(1), b.skip(1), c.skip(1));
        }
    }
}

/// `lex_le` is a total order on character sequences.
pub proof fn lemma_lex_le_total_ordering()
    ensures
        total_ordering(lex_leq()),
{
    let leq = lex_leq();
    assert forall|a: Seq<char>| #[trigger] leq(a, a) by {
        lemma_lex_le_refl(a);
    }
    assert forall|a: Seq<char>, b: Seq<char>| #[trigger] leq(a, b) && #[trigger] leq(b, a)
        implies a == b by {
        lemma_lex_le_antisymmetric(a, b);
    }
    assert forall|a: Seq<char>, b: Seq<char>, c: Seq<char>|
        #[trigger] leq(a, b) && #[trigger] leq(b, c) implies leq(a, c) by {
        lemma_lex_le_transitive(a, b, c);
    }
    assert forall|a: Seq<char>, b: Seq<char>| #[trigger] leq(a, b) || #[trigger] leq(b, a) by {
        lemma_lex_le_total(a, b);
    }
}

/// The characters of `s` with every leftmost-first, non-overlapping
/// occurrence of `pat` replaced by `rep`.
pub open spec fn replace_chars(s: Seq<char>, pat: Seq<char>, rep: Seq<char>) -> Seq<char>
    decreases s.len(),
{
    if pat.len() == 0 || s.len() < pat.len() {
        s
    } else if s.take(pat.len() as int) == pat {
        rep + replace_chars(s.skip(pat.len() as int), pat, rep)
    } else {
        seq![s[0]] + replace_chars(s.skip(1), pat, rep)
    }
}

/// The view of `s` after the entity-decoding passes run in order: quote,
/// numeric apostrophe, ampersand, less-than, greater-than, named apostrophe.
pub open spec fn decode_html_spec(s: Seq<char>) -> Seq<char> {
    let s1 = replace_chars(s, "&quot;"@, "\""@);
    let s2 = replace_chars(s1, "&#039;"@, "'"@);
    let s3 = replace_chars(s2, "&amp;"@, "&"@);
    let s4 = replace_chars(s3, "&lt;"@, "<"@);
    let s5 = replace_chars(s4, "&gt;"@, ">"@);
    replace_chars(s5, "&apos;"@, "'"@)
}

/// The characters of `s`, in order, as a vector.
fn chars_vec(s: &str) -> (r: Vec<char>)
    ensures
        r@ == s@,
{
    let n = s.unicode_len();
    let mut r: Vec<char> = Vec::new();
    let mut i: usize = 0;
    while i < n
        invariant
            n == s@.len(),
            i <= n,
            r@ == s@.take(i as int),
        decreases n - i,
    {
        let c = s.get_char(i);
        r.push(c);
        proof {
            assert(s@.take(i as int).push(s@[i as int]) =~= s@.take(i + 1));
        }
        i = i + 1;
    }
    proof {
        assert(s@.take(n as int) =~= s@);
    }
    r
}

/// Relies on `Iterator::collect` for `String`: the collected string holds
/// exactly the characters the iterator yields, in order.
#[verifier::external_body]
fn string_from_chars(v: &Vec<char>) -> (r: String)
    ensures
        r@ == v@,
{
    v.iter().collect()
}

/// Whether the window of `s` starting at `i` equals `pat`.
fn window_eq(s: &Vec<char>, i: usize, pat: &Vec<char>) -> (r: bool)
    requires
        i + pat.len() <= s.len(),
    ensures
        r == (s@.subrange(i as int, i + pat.len()) == pat@),
{
    let mut j: usize = 0;
    while j < pat.len()
        invariant
            i + pat.len() <= s.len(),
            j <= pat.len(),
            forall|k: int| 0 <= k < j ==> s@[i + k] == pat@[k],
        decreases pat.len() - j,
    {
        if s[i + j] != pat[j] {
            assert(s@.subrange(i as int, i + pat.len())[j as int] != pat@[j as int]);
            return false;
        }
        j = j + 1;
    }
    proof {
        assert(s@.subrange(i as int, i + pat.len()) =~= pat@);
    }
    true
}

/// Replaces every leftmost-first occurrence of `pat` in `s` by `rep`.
fn replace_all(s: &Vec<char>, pat: &Vec<char>, rep: &Vec<char>) -> (r: Vec<char>)
    requires
        pat.len() >= 1,
    ensures
        r@ == replace_chars(s@, pat@, rep@),
{
    let mut r: Vec<char> = Vec::new();
    let mut i: usize = 0;
    proof {
        assert(s@.skip(0) =~= s@);
    }
    while i < s.len()
        invariant
            pat.len() >= 1,
            i <= s.len(),
            replace_chars(s@, pat@, rep@) == r@ + replace_chars(s@.skip(i as int), pat@, rep@),
        decreases s.len() - i,
    {
        if pat.len() <= s.len() - i && window_eq(s, i, pat) {
            proof {
                assert(s@.skip(i as int).take(pat.len() as int) =~= s@.subrange(
                    i as int,
                    i + pat.len(),
                ));
                assert(s@.skip(i as int).skip(pat.len() as int) =~= s@.skip(i + pat.len()));
            }
            let ghost r_before = r@;
            let mut k: usize = 0;
            while k < rep.len()
                invariant
                    k <= rep.len(),
                    r@ == r_before + rep@.take(k as int),
                decreases rep.len() - k,
            {
                let c = rep[k];
                r.push(c);
                proof {
                    assert(r_before + rep@.take(k as int).push(rep@[k as int]) =~= r_before
                        + rep@.take(k + 1));
                }
                k = k + 1;
            }
            proof {
                assert(rep@.take(rep.len() as int) =~= rep@);
                assert((r_before + rep@) + replace_chars(s@.skip(i + pat.len()), pat@, rep@)
                    =~= r_before + (rep@ + replace_chars(s@.skip(i + pat.len()), pat@, rep@)));
            }
            i = i + pat.len();
        } else {
            let ghost r_before = r@;
            let c = s[i];
            r.push(c);
            proof {
                let tail = s@.skip(i as int);
                assert(tail[0] == s@[i as int]);
                if tail.len() >= pat.len() {
                    assert(tail.take(pat.len() as int) =~= s@.subrange(i as int, i + pat.len()));
                    assert(tail.take(pat.len() as int) != pat@);
                }
                assert(replace_chars(tail, pat@, rep@) == seq![s@[i as int]] + replace_chars(
                    tail.skip(1),
                    pat@,
                    rep@,
                ));
                assert(tail.skip(1) =~= s@.skip(i + 1));
                assert(r@ =~= r_before + seq![s@[i as int]]);
                assert((r_before + seq![s@[i as int]]) + replace_chars(s@.skip(i + 1), pat@, rep@)
                    =~= r_before + (seq![s@[i as int]] + replace_chars(s@.skip(i + 1), pat@, rep@)));
            }
            i = i + 1;
        }
    }
    proof {
        assert(s@.skip(s.len() as int) =~= Seq::<char>::empty());
        assert(replace_chars(Seq::<char>::empty(), pat@, rep@) == Seq::<char>::empty());
        assert(r@ + Seq::<char>::empty() =~= r@);
    }
    r
}

/// One entity-decoding pass: `s` with occurrences of `pat` replaced by `rep`.
fn replace_str(s: &Vec<char>, pat: &str, rep: &str) -> (r: Vec<char>)
    requires
        pat@.len() >= 1,
    ensures
        r@ == replace_chars(s@, pat@, rep@),
{
    let p = chars_vec(pat);
    let q = chars_vec(rep);
    replace_all(s, &p, &q)
}

/// Decodes the fixed set of named HTML entities that the question feed
/// uses (quote, apostrophe, ampersand, less-than, greater-than);
/// unrecognized entities pass through unchanged.
pub fn decode_html(text: &str) -> (r: String)
    ensures
        r@ == decode_html_spec(text@),
{
    proof {
        reveal_strlit("&quot;");
        reveal_strlit("&#039;");
        reveal_strlit("&amp;");
        reveal_strlit("&lt;");
        reveal_strlit("&gt;");
        reveal_strlit("&apos;");
    }
    let s0 = chars_vec(text);
    let s1 = replace_str(&s0, "&quot;", "\"");
    let s2 = replace_str(&s1, "&#039;", "'");
    let s3 = replace_str(&s2, "&amp;", "&");
    let s4 = replace_str(&s3, "&lt;", "<");
    let s5 = replace_str(&s4, "&gt;", ">");
    let s6 = replace_str(&s5, "&apos;", "'");
    string_from_chars(&s6)
}

/// Decides `lex_le` on two string slices.
pub fn str_le(a: &str, b: &str) -> (r: bool)
    ensures
        r == lex_le(a@, b@),
{
    let a_len = a.unicode_len();
    let b_len = b.unicode_len();
    let mut i: usize = 0;
    proof {
        assert(a@.skip(0) =~= a@);
        assert(b@.skip(0) =~= b@);
    }
    loop
        invariant
            a_len == a@.len(),
            b_len == b@.len(),
            i <= a_len,
            i <= b_len,
            lex_le(a@, b@) == lex_le(a@.skip(i as int), b@.skip(i as int)),
        decreases a_len - i,
    {
        if i >= a_len {
            return true;
        }
        if i >= b_len {
            return false;
        }
        let ca = a.get_char(i);
        let cb = b.get_char(i);
        if ca as u32 != cb as u32 {
            return (ca as u32) < (cb as u32);
        }
        proof {
            assert(a@.skip(i as int).skip(1) =~= a@.skip(i + 1));
            assert(b@.skip(i as int).skip(1) =~= b@.skip(i + 1));
        }
        i = i + 1;
    }
}

} // verus!
