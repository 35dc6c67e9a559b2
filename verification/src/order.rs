//! Byte-wise string order and a stable insertion sort.

use vstd::prelude::*;
use vstd::utf8::encode_utf8;

verus! {

/// The UTF-8 bytes of a character sequence (what `str::as_bytes` gives).
pub open spec fn str_bytes(s: Seq<char>) -> Seq<u8> {
    encode_utf8(s)
}

/// Strict lexicographic order on byte sequences, as `Ord` for `[u8]` and
/// `str` defines it.
pub open spec fn bytes_lt(a: Seq<u8>, b: Seq<u8>) -> bool
    decreases a.len(),
{
    if a.len() == 0 {
        b.len() > 0
    } else if b.len() == 0 {
        false
    } else if a[0] < b[0] {
        true
    } else if a[0] > b[0] {
        false
    } else {
        bytes_lt(a.drop_first(), b.drop_first())
    }
}

/// `bytes_lt` is irreflexive and asymmetric, and unequal sequences are ordered one way.
pub proof fn lemma_bytes_lt(a: Seq<u8>, b: Seq<u8>)
    ensures
        bytes_lt(a, b) ==> !bytes_lt(b, a),
        !bytes_lt(a, a),
        a != b ==> (bytes_lt(a, b) || bytes_lt(b, a)),
    decreases a.len(),
{
    if a.len() > 0 && b.len() > 0 {
        lemma_bytes_lt(a.drop_first(), b.drop_first());
        if a != b && a[0] == b[0] {
            assert(a.drop_first() != b.drop_first()) by {
                if a.drop_first() == b.drop_first() {
                    assert(a =~= seq![a[0]] + a.drop_first());
                    assert(b =~= seq![b[0]] + b.drop_first());
                }
            }
        }
    } else if a.len() > 0 {
        lemma_bytes_lt(a.drop_first(), a.drop_first());
    } else if b.len() > 0 {
    } else {
        assert(a =~= b);
    }
}

/// Three-way comparison of byte strings: -1, 0 or 1.
pub fn compare_bytes(a: &[u8], b: &[u8]) -> (r: i8)
    ensures
        r == -1 <==> bytes_lt(a@, b@),
        r == 1 <==> bytes_lt(b@, a@),
        r == 0 <==> a@ == b@,
{
    proof { lemma_bytes_lt(a@, b@); }
    let mut i: usize = 0;
    assert(a@.skip(0) =~= a@);
    assert(b@.skip(0) =~= b@);
    while i < a.len() && i < b.len()
        invariant
            i <= a.len(),
            i <= b.len(),
            a@.take(i as int) == b@.take(i as int),
            bytes_lt(a@, b@) == bytes_lt(a@.skip(i as int), b@.skip(i as int)),
            bytes_lt(b@, a@) == bytes_lt(b@.skip(i as int), a@.skip(i as int)),
        decreases a.len() - i,
    {
        assert(a@.skip(i as int)[0] == a@[i as int]);
        assert(b@.skip(i as int)[0] == b@[i as int]);
        if a[i] < b[i] {
            return -1;
        }
        if a[i] > b[i] {
            return 1;
        }
        assert(a@.skip(i as int).drop_first() =~= a@.skip(i + 1));
        assert(b@.skip(i as int).drop_first() =~= b@.skip(i + 1));
        assert(a@.take(i + 1) =~= a@.take(i as int).push(a@[i as int]));
        assert(b@.take(i + 1) =~= b@.take(i as int).push(b@[i as int]));
        i = i + 1;
    }
    if a.len() == b.len() {
        assert(a@ =~= a@.take(i as int));
        assert(b@ =~= b@.take(i as int));
        0
    } else if a.len() < b.len() {
        assert(a@.skip(i as int).len() == 0);
        -1
    } else {
        assert(b@.skip(i as int).len() == 0);
        1
    }
}

/// The views of the elements of a sequence.
pub open spec fn views<T: View>(s: Seq<T>) -> Seq<T::V> {
    s.map_values(|x: T| x@)
}

/// Where insertion sort puts `x` into `s`: after the last element that `x`
/// is not strictly before (so after every element equal to it).
pub open spec fn back_pos<V>(s: Seq<V>, x: V, lt: spec_fn(V, V) -> bool) -> int
    decreases s.len(),
{
    if s.len() == 0 {
        0
    } else if lt(x, s.last()) {
        back_pos(s.drop_last(), x, lt)
    } else {
        s.len() as int
    }
}

/// The stable insertion sort of `s` by the strict order `lt`: the elements
/// inserted in order, each after the elements it is not strictly before, so
/// that elements neither before the other keep their order.
pub open spec fn insertion_sort<V>(s: Seq<V>, lt: spec_fn(V, V) -> bool) -> Seq<V>
    decreases s.len(),
{
    if s.len() == 0 {
        Seq::empty()
    } else {
        let t = insertion_sort(s.drop_last(), lt);
        t.insert(back_pos(t, s.last(), lt), s.last())
    }
}

proof fn lemma_back_pos<V>(s: Seq<V>, x: V, lt: spec_fn(V, V) -> bool, p: int)
    requires
        0 <= p <= s.len(),
        forall|j: int| p <= j < s.len() ==> lt(x, #[trigger] s[j]),
        p == 0 || !lt(x, s[p - 1]),
    ensures
        back_pos(s, x, lt) == p,
    decreases s.len(),
{
    if s.len() > p {
        let t = s.drop_last();
        assert forall|j: int| p <= j < t.len() implies lt(x, #[trigger] t[j]) by {
            assert(t[j] == s[j]);
        }
        if p > 0 {
            assert(t[p - 1] == s[p - 1]);
        }
        lemma_back_pos(t, x, lt, p);
    }
}

/// Stable insertion sort. `before(a, b)` decides the strict order `lt` on the
/// elements' views; the result holds the same elements (by view) and no
/// element is strictly before the one preceding it.
pub fn sort_by_order<T: View, F: Fn(&T, &T) -> bool>(
    v: Vec<T>,
    before: F,
    Ghost(lt): Ghost<spec_fn(T::V, T::V) -> bool>,
) -> (r: Vec<T>)
    requires
        forall|a: &T, b: &T| #[trigger] before.requires((a, b)),
        forall|a: &T, b: &T, res: bool| before.ensures((a, b), res) ==> res == lt(a@, b@),
        forall|x: T::V, y: T::V| #[trigger] lt(x, y) ==> !lt(y, x),
    ensures
        views(r@) == insertion_sort(views(v@), lt),
        views(r@).to_multiset() == views(v@).to_multiset(),
        r@.len() == v@.len(),
        forall|i: int| 0 <= i < r@.len() - 1 ==> !lt(#[trigger] r@[i + 1]@, r@[i]@),
{
    let ghost orig = v@;
    let mut v = v;
    let mut out: Vec<T> = Vec::new();
    let ghost mut k: int = 0;
    assert(orig.take(0).map_values(|x: T| x@) =~= Seq::<T::V>::empty());
    assert(v@ =~= orig.skip(0));
    assert(out@.map_values(|x: T| x@) =~= Seq::<T::V>::empty());
    while v.len() > 0
        invariant
            0 <= k <= orig.len(),
            v@ == orig.skip(k),
            out@.map_values(|x: T| x@).to_multiset() == orig.take(k).map_values(|x: T| x@).to_multiset(),
            out@.map_values(|x: T| x@) == insertion_sort(orig.take(k).map_values(|x: T| x@), lt),
            out@.len() == k,
            forall|i: int| 0 <= i < out@.len() - 1 ==> !lt(#[trigger] out@[i + 1]@, out@[i]@),
            forall|a: &T, b: &T| #[trigger] before.requires((a, b)),
            forall|a: &T, b: &T, res: bool| before.ensures((a, b), res) ==> res == lt(a@, b@),
            forall|x: T::V, y: T::V| #[trigger] lt(x, y) ==> !lt(y, x),
        decreases v.len(),
    {
        let x = v.remove(0);
        assert(x == orig[k]);
        let mut p: usize = out.len();
        loop
            invariant
                p <= out@.len(),
                forall|j: int| p <= j < out@.len() ==> lt(x@, #[trigger] out@[j]@),
                forall|a: &T, b: &T| #[trigger] before.requires((a, b)),
                forall|a: &T, b: &T, res: bool| before.ensures((a, b), res) ==> res == lt(a@, b@),
            ensures
                p <= out@.len(),
                forall|j: int| p <= j < out@.len() ==> lt(x@, #[trigger] out@[j]@),
                p == 0 || !lt(x@, out@[p - 1]@),
            decreases p,
        {
            if p == 0 {
                break;
            }
            let b = before(&x, &out[p - 1]);
            if !b {
                break;
            }
            p = p - 1;
        }
        let ghost old_out = out@;
        out.insert(p, x);
        proof {
            let ov = old_out.map_values(|y: T| y@);
            assert(out@.map_values(|y: T| y@) =~= ov.insert(p as int, x@));
            assert forall|j: int| p <= j < ov.len() implies lt(x@, #[trigger] ov[j]) by {
                assert(ov[j] == old_out[j]@);
            }
            if p > 0 {
                assert(ov[p - 1] == old_out[p - 1]@);
            }
            lemma_back_pos(ov, x@, lt, p as int);
            let tk1 = orig.take(k + 1).map_values(|y: T| y@);
            assert(tk1.drop_last() =~= orig.take(k).map_values(|y: T| y@));
            assert(tk1.last() == x@);
            vstd::seq_lib::to_multiset_insert(ov, p as int, x@);
            assert(orig.take(k + 1).map_values(|y: T| y@) =~= orig.take(k).map_values(|y: T| y@).push(x@));
            orig.take(k).map_values(|y: T| y@).to_multiset_ensures();
            assert forall|i: int| 0 <= i < out@.len() - 1 implies !lt(#[trigger] out@[i + 1]@, out@[i]@) by {
                if i + 1 < p {
                    assert(out@[i] == old_out[i] && out@[i + 1] == old_out[i + 1]);
                    assert(!lt(old_out[i + 1]@, old_out[i]@));
                } else if i + 1 == p {
                    assert(out@[i] == old_out[i]);
                } else if i == p {
                    assert(out@[i + 1] == old_out[i]);
                    assert(lt(x@, old_out[i]@));
                    assert(!lt(old_out[i]@, x@));
                } else {
                    assert(out@[i] == old_out[i - 1] && out@[i + 1] == old_out[i]);
                    let j = i - 1;
                    assert(!lt(old_out[j + 1]@, old_out[j]@));
                }
            }
            assert(v@ =~= orig.skip(k + 1));
            k = k + 1;
        }
    }
    assert(orig.take(k) =~= orig);
    assert(views(out@) =~= out@.map_values(|x: T| x@));
    assert(views(orig) =~= orig.map_values(|x: T| x@));
    out
}

} // verus!
