//! Small facts about sequences used by the proofs.
use vstd::prelude::*;

verus! {

/// Filtering a sequence extended by one element.
pub proof fn lemma_filter_push<A>(s: Seq<A>, x: A, p: spec_fn(A) -> bool)
    ensures
        s.push(x).filter(p) == (if p(x) { s.filter(p).push(x) } else { s.filter(p) }),
{
    reveal_with_fuel(Seq::filter, 1);
    assert(s.push(x).drop_last() =~= s);
}

/// `take(i + 1)` is `take(i)` extended by the element at `i`.
pub proof fn lemma_take_succ<A>(s: Seq<A>, i: int)
    requires
        0 <= i < s.len(),
    ensures
        s.take(i + 1) == s.take(i).push(s[i]),
{
    assert(s.take(i + 1) =~= s.take(i).push(s[i]));
}

/// Mapping a sequence extended by one element.
pub proof fn lemma_map_push<A, B>(s: Seq<A>, x: A, f: spec_fn(A) -> B)
    ensures
        s.push(x).map_values(f) == s.map_values(f).push(f(x)),
{
    assert(s.push(x).map_values(f) =~= s.map_values(f).push(f(x)));
}

/// Filtering by a predicate that no element satisfies leaves nothing.
pub proof fn lemma_filter_none<A>(s: Seq<A>, p: spec_fn(A) -> bool)
    requires
        forall|i: int| 0 <= i < s.len() ==> !p(#[trigger] s[i]),
    ensures
        s.filter(p) == Seq::<A>::empty(),
    decreases s.len(),
{
    if s.len() == 0 {
        assert(s.filter(p) =~= Seq::<A>::empty()) by {
            reveal_with_fuel(Seq::filter, 1);
        }
    } else {
        let t = s.drop_last();
        assert(s == t.push(s.last()));
        assert forall|i: int| 0 <= i < t.len() implies !p(#[trigger] t[i]) by {
            assert(t[i] == s[i]);
        }
        lemma_filter_none(t, p);
        lemma_filter_push(t, s.last(), p);
    }
}

/// Filtering by a predicate that every element satisfies changes nothing.
pub proof fn lemma_filter_all<A>(s: Seq<A>, p: spec_fn(A) -> bool)
    requires
        forall|i: int| 0 <= i < s.len() ==> p(#[trigger] s[i]),
    ensures
        s.filter(p) == s,
    decreases s.len(),
{
    if s.len() == 0 {
        assert(s.filter(p) =~= s) by {
            reveal_with_fuel(Seq::filter, 1);
        }
    } else {
        let t = s.drop_last();
        assert(s == t.push(s.last()));
        assert forall|i: int| 0 <= i < t.len() implies p(#[trigger] t[i]) by {
            assert(t[i] == s[i]);
        }
        lemma_filter_all(t, p);
        lemma_filter_push(t, s.last(), p);
    }
}

/// Two filters can be applied in either order.
pub proof fn lemma_filter_commute<A>(s: Seq<A>, p: spec_fn(A) -> bool, q: spec_fn(A) -> bool)
    ensures
        s.filter(p).filter(q) == s.filter(q).filter(p),
    decreases s.len(),
{
    if s.len() == 0 {
        reveal_with_fuel(Seq::filter, 1);
        assert(s.filter(p) =~= Seq::<A>::empty());
        assert(s.filter(q) =~= Seq::<A>::empty());
        assert(s.filter(p).filter(q) =~= Seq::<A>::empty());
        assert(s.filter(q).filter(p) =~= Seq::<A>::empty());
    } else {
        let t = s.drop_last();
        let x = s.last();
        assert(s == t.push(x));
        lemma_filter_commute(t, p, q);
        lemma_filter_push(t, x, p);
        lemma_filter_push(t, x, q);
        lemma_filter_push(t.filter(p), x, q);
        lemma_filter_push(t.filter(q), x, p);
    }
}

/// Filtering by a predicate on an image, then mapping, is mapping, then
/// filtering the image.
pub proof fn lemma_filter_map<A, B>(s: Seq<A>, f: spec_fn(A) -> B, p: spec_fn(B) -> bool)
    ensures
        s.filter(|a: A| p(f(a))).map_values(f) == s.map_values(f).filter(p),
    decreases s.len(),
{
    let pf = |a: A| p(f(a));
    if s.len() == 0 {
        reveal_with_fuel(Seq::filter, 1);
        assert(s.filter(pf) =~= Seq::<A>::empty());
        assert(s.map_values(f) =~= Seq::<B>::empty());
        assert(s.filter(pf).map_values(f) =~= Seq::<B>::empty());
        assert(s.map_values(f).filter(p) =~= Seq::<B>::empty());
    } else {
        let t = s.drop_last();
        let x = s.last();
        assert(s == t.push(x));
        lemma_filter_map(t, f, p);
        lemma_filter_push(t, x, pf);
        lemma_map_push(t, x, f);
        lemma_filter_push(t.map_values(f), f(x), p);
        if pf(x) {
            lemma_map_push(t.filter(pf), x, f);
        }
    }
}

/// Filtering by two predicates that agree on every element gives the same
/// sequence.
pub proof fn lemma_filter_congruent<A>(s: Seq<A>, p: spec_fn(A) -> bool, q: spec_fn(A) -> bool)
    requires
        forall|i: int| 0 <= i < s.len() ==> p(#[trigger] s[i]) == q(s[i]),
    ensures
        s.filter(p) == s.filter(q),
    decreases s.len(),
{
    if s.len() == 0 {
        reveal_with_fuel(Seq::filter, 1);
        assert(s.filter(p) =~= s.filter(q));
    } else {
        let t = s.drop_last();
        assert(s == t.push(s.last()));
        assert forall|i: int| 0 <= i < t.len() implies p(#[trigger] t[i]) == q(t[i]) by {
            assert(t[i] == s[i]);
        }
        lemma_filter_congruent(t, p, q);
        lemma_filter_push(t, s.last(), p);
        lemma_filter_push(t, s.last(), q);
    }
}

/// Filtering by `p` and then by a stronger `q` is filtering by `q` alone.
pub proof fn lemma_filter_stronger<A>(s: Seq<A>, p: spec_fn(A) -> bool, q: spec_fn(A) -> bool)
    requires
        forall|i: int| 0 <= i < s.len() ==> q(#[trigger] s[i]) ==> p(s[i]),
    ensures
        s.filter(p).filter(q) == s.filter(q),
{
    lemma_filter_commute(s, p, q);
    let t = s.filter(q);
    assert forall|i: int| 0 <= i < t.len() implies p(#[trigger] t[i]) by {
        s.lemma_filter_pred(q, i);
        assert(t.contains(t[i]));
        s.lemma_filter_contains_rev(q, t[i]);
        let j = choose|j: int| 0 <= j < s.len() && s[j] == t[i];
        assert(q(s[j]) ==> p(s[j]));
    }
    lemma_filter_all(t, p);
}

} // verus!
