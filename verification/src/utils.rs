//! Turning path segments into Rust identifiers.

use vstd::prelude::*;
use crate::text::{char_is_alphanumeric, chars_of, is_alphanumeric, string_from_chars};

verus! {

/// The character that `sanitize_ident_part` puts for `c`.
pub open spec fn sanitize_char(c: char) -> char {
    if char_is_alphanumeric(c) || c == '_' { c } else { '_' }
}

/// Every character of `s`, with non-identifier characters replaced by `_`.
pub open spec fn sanitize_ident_part_spec(s: Seq<char>) -> Seq<char> {
    Seq::new(s.len(), |i: int| sanitize_char(s[i]))
}

/// Converts a single path segment to identifier characters: every character
/// that is neither alphanumeric nor `_` becomes `_`.
pub fn sanitize_ident_part(s: &str) -> (r: String)
    ensures
        r@ == sanitize_ident_part_spec(s@),
{
    let cs = chars_of(s);
    let mut out: Vec<char> = Vec::new();
    let mut i: usize = 0;
    while i < cs.len()
        invariant
            i <= cs.len(),
            cs@ == s@,
            out@ == sanitize_ident_part_spec(s@).subrange(0, i as int),
        decreases cs.len() - i,
    {
        let c = cs[i];
        if is_alphanumeric(c) || c == '_' {
            out.push(c);
        } else {
            out.push('_');
        }
        i = i + 1;
    }
    assert(sanitize_ident_part_spec(s@).subrange(0, cs.len() as int) =~= sanitize_ident_part_spec(s@));
    string_from_chars(out.as_slice())
}


/// Left-to-right pass of `sanitize_ident`: the identifier built so far, and
/// whether its last character is an underscore that was just written.
pub open spec fn collapse_spec(s: Seq<char>) -> (Seq<char>, bool)
    decreases s.len(),
{
    if s.len() == 0 {
        (Seq::<char>::empty(), false)
    } else {
        let prev = collapse_spec(s.drop_last());
        let c = s.last();
        if c == '_' {
            if !prev.1 && prev.0.len() > 0 {
                (prev.0.push('_'), true)
            } else {
                prev
            }
        } else if char_is_alphanumeric(c) {
            (prev.0.push(c), false)
        } else {
            prev
        }
    }
}

/// `s` without its trailing underscores.
pub open spec fn trim_end_underscores(s: Seq<char>) -> Seq<char>
    decreases s.len(),
{
    if s.len() > 0 && s.last() == '_' {
        trim_end_underscores(s.drop_last())
    } else {
        s
    }
}

/// What `sanitize_ident` returns for `s`: alphanumerics kept, other characters
/// dropped, runs of underscores collapsed to one, leading and trailing
/// underscores removed.
pub open spec fn sanitize_ident_spec(s: Seq<char>) -> Seq<char> {
    trim_end_underscores(collapse_spec(s).0)
}

/// `s` reads as a tidy identifier: only alphanumerics and `_`, never `_` first
/// or last, and never two `_` in a row.
pub open spec fn is_tidy_ident(s: Seq<char>) -> bool {
    &&& forall|i: int| 0 <= i < s.len() ==> (s[i] == '_' || char_is_alphanumeric(#[trigger] s[i]))
    &&& s.len() > 0 ==> s[0] != '_' && s.last() != '_'
    &&& forall|i: int| 0 <= i < s.len() - 1 ==> !(#[trigger] s[i] == '_' && s[i + 1] == '_')
}

proof fn lemma_collapse_shape(s: Seq<char>)
    ensures
        ({
            let r = collapse_spec(s);
            &&& forall|i: int| 0 <= i < r.0.len() ==> (r.0[i] == '_' || char_is_alphanumeric(#[trigger] r.0[i]))
            &&& r.0.len() > 0 ==> r.0[0] != '_'
            &&& forall|i: int| 0 <= i < r.0.len() - 1 ==> !(#[trigger] r.0[i] == '_' && r.0[i + 1] == '_')
            &&& r.1 <==> (r.0.len() > 0 && r.0.last() == '_')
        }),
    decreases s.len(),
{
    if s.len() > 0 {
        lemma_collapse_shape(s.drop_last());
    }
}

proof fn lemma_trim_end_underscores(s: Seq<char>)
    requires
        forall|i: int| 0 <= i < s.len() ==> (s[i] == '_' || char_is_alphanumeric(#[trigger] s[i])),
        s.len() > 0 ==> s[0] != '_',
        forall|i: int| 0 <= i < s.len() - 1 ==> !(#[trigger] s[i] == '_' && s[i + 1] == '_'),
    ensures
        is_tidy_ident(trim_end_underscores(s)),
        trim_end_underscores(s).len() <= s.len(),
        trim_end_underscores(s) == s.take(trim_end_underscores(s).len() as int),
    decreases s.len(),
{
    if s.len() > 0 && s.last() == '_' {
        let t = s.drop_last();
        assert forall|i: int| 0 <= i < t.len() - 1 implies !(#[trigger] t[i] == '_' && t[i + 1] == '_') by {
            assert(t[i] == s[i] && t[i + 1] == s[i + 1]);
        }
        assert forall|i: int| 0 <= i < t.len() implies (t[i] == '_' || char_is_alphanumeric(#[trigger] t[i])) by {
            assert(t[i] == s[i]);
        }
        lemma_trim_end_underscores(t);
        let r = trim_end_underscores(t);
        assert(r =~= s.take(r.len() as int));
    } else {
        assert(s.take(s.len() as int) =~= s);
    }
}

proof fn lemma_collapse_clean(p: Seq<char>)
    requires
        forall|i: int| 0 <= i < p.len() ==> (p[i] == '_' || char_is_alphanumeric(#[trigger] p[i])),
        p.len() > 0 ==> p[0] != '_',
        forall|i: int| 0 <= i < p.len() - 1 ==> !(#[trigger] p[i] == '_' && p[i + 1] == '_'),
    ensures
        collapse_spec(p) == (p, p.len() > 0 && p.last() == '_'),
    decreases p.len(),
{
    if p.len() > 0 {
        let q = p.drop_last();
        assert forall|i: int| 0 <= i < q.len() - 1 implies !(#[trigger] q[i] == '_' && q[i + 1] == '_') by {
            assert(q[i] == p[i] && q[i + 1] == p[i + 1]);
        }
        assert forall|i: int| 0 <= i < q.len() implies (q[i] == '_' || char_is_alphanumeric(#[trigger] q[i])) by {
            assert(q[i] == p[i]);
        }
        if q.len() > 0 {
            assert(q[0] == p[0]);
        }
        lemma_collapse_clean(q);
        if p.last() == '_' && q.len() > 0 {
            assert(q.last() == p[p.len() - 2]);
            assert(!(p[p.len() - 2] == '_' && p[p.len() - 1] == '_'));
        }
        assert(q.push(p.last()) =~= p);
    }
}

/// A tidy identifier is left as it is by sanitizing.
pub proof fn lemma_tidy_fixed(s: Seq<char>)
    requires
        is_tidy_ident(s),
    ensures
        sanitize_ident_spec(s) == s,
{
    lemma_collapse_clean(s);
}

/// Sanitizing twice gives what sanitizing once gives.
pub proof fn lemma_sanitize_idempotent(s: Seq<char>)
    ensures
        sanitize_ident_spec(sanitize_ident_spec(s)) == sanitize_ident_spec(s),
{
    lemma_collapse_shape(s);
    lemma_trim_end_underscores(collapse_spec(s).0);
    lemma_tidy_fixed(sanitize_ident_spec(s));
}

/// Sanitizes a whole identifier: keeps alphanumerics and single underscores,
/// drops everything else, and removes leading and trailing underscores.
pub fn sanitize_ident(name: &str) -> (r: String)
    ensures
        r@ == sanitize_ident_spec(name@),
        is_tidy_ident(r@),
{
    let cs = chars_of(name);
    let mut result: Vec<char> = Vec::new();
    let mut prev_underscore = false;
    let mut i: usize = 0;
    assert(cs@.take(0) =~= Seq::<char>::empty());
    while i < cs.len()
        invariant
            i <= cs.len(),
            cs@ == name@,
            collapse_spec(cs@.take(i as int)) == (result@, prev_underscore),
        decreases cs.len() - i,
    {
        let c = cs[i];
        assert(cs@.take(i + 1).drop_last() =~= cs@.take(i as int));
        if c == '_' {
            if !prev_underscore && result.len() > 0 {
                result.push('_');
                prev_underscore = true;
            }
        } else if is_alphanumeric(c) {
            result.push(c);
            prev_underscore = false;
        }
        i = i + 1;
    }
    assert(cs@.take(cs.len() as int) =~= cs@);
    proof {
        lemma_collapse_shape(name@);
        lemma_trim_end_underscores(result@);
    }
    // strip trailing underscores
    let mut end: usize = result.len();
    assert(result@.take(end as int) =~= result@);
    while end > 0 && result[end - 1] == '_'
        invariant
            end <= result.len(),
            trim_end_underscores(result@) == trim_end_underscores(result@.take(end as int)),
        decreases end,
    {
        assert(result@.take(end as int).drop_last() =~= result@.take(end - 1));
        end = end - 1;
    }
    let trimmed = crate::text::sub_vec(&result, 0, end);
    assert(result@.take(end as int) =~= trimmed@);
    string_from_chars(trimmed.as_slice())
}

} // verus!
