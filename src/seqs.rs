//! Facts about splitting a sequence in two by a predicate.
use vstd::prelude::*;

verus! {

/// A sequence whose elements fail `p` before position `c` and pass it from
/// there on is the elements failing `p` followed by the elements passing it.
pub proof fn lemma_split_at_cut<A>(s: Seq<A>, p: spec_fn(A) -> bool, q: spec_fn(A) -> bool, c: int)
    requires
        0 <= c <= s.len(),
        forall|x: A| #[trigger] q(x) == !p(x),
        forall|i: int| 0 <= i < c ==> !p(#[trigger] s[i]),
        forall|i: int| c <= i < s.len() ==> p(#[trigger] s[i]),
    ensures
        s.filter(q) + s.filter(p) == s,
{
    let a = s.take(c);
    let b = s.skip(c);
    assert(a + b =~= s);
    assert forall|i: int| 0 <= i < a.len() implies q(#[trigger] a[i]) by {
        assert(a[i] == s[i]);
    }
    assert forall|i: int| 0 <= i < a.len() implies !p(#[trigger] a[i]) by {
        assert(a[i] == s[i]);
    }
    assert forall|i: int| 0 <= i < b.len() implies p(#[trigger] b[i]) by {
        assert(b[i] == s[c + i]);
    }
    assert forall|i: int| 0 <= i < b.len() implies !q(#[trigger] b[i]) by {
        assert(b[i] == s[c + i]);
    }
    lemma_filter_keeps_all(a, q);
    lemma_filter_drops_all(a, p);
    lemma_filter_keeps_all(b, p);
    lemma_filter_drops_all(b, q);
    Seq::filter_distributes_over_add(a, b, p);
    Seq::filter_distributes_over_add(a, b, q);
    assert(a + Seq::<A>::empty() =~= a);
    assert(Seq::<A>::empty() + b =~= b);
}

/// Filtering keeps a sequence whose elements all pass.
pub proof fn lemma_filter_keeps_all<A>(s: Seq<A>, p: spec_fn(A) -> bool)
    requires
        forall|i: int| 0 <= i < s.len() ==> p(#[trigger] s[i]),
    ensures
        s.filter(p) == s,
    decreases s.len(),
{
    if s.len() > 0 {
        let t = s.drop_last();
        assert forall|i: int| 0 <= i < t.len() implies p(#[trigger] t[i]) by {
            assert(s[i] == t[i]);
        }
        lemma_filter_keeps_all(t, p);
        assert(t.push(s.last()) =~= s);
        t.lemma_filter_push(s.last(), p);
    } else {
        s.lemma_filter_len(p);
        assert(s.filter(p) =~= s);
    }
}

/// Filtering empties a sequence whose elements all fail.
pub proof fn lemma_filter_drops_all<A>(s: Seq<A>, p: spec_fn(A) -> bool)
    requires
        forall|i: int| 0 <= i < s.len() ==> !p(#[trigger] s[i]),
    ensures
        s.filter(p) == Seq::<A>::empty(),
    decreases s.len(),
{
    if s.len() > 0 {
        let t = s.drop_last();
        assert forall|i: int| 0 <= i < t.len() implies !p(#[trigger] t[i]) by {
            assert(s[i] == t[i]);
        }
        lemma_filter_drops_all(t, p);
        assert(t.push(s.last()) =~= s);
        t.lemma_filter_push(s.last(), p);
    } else {
        s.lemma_filter_len(p);
        assert(s.filter(p) =~= Seq::<A>::empty());
    }
}

} // verus!
