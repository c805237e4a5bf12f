//! Facts about filtered sequences.
use vstd::prelude::*;

verus! {

/// Filtering nothing leaves nothing.
pub proof fn lemma_filter_none<A>(s: Seq<A>, p: spec_fn(A) -> bool)
    ensures
        s.take(0).filter(p) == Seq::<A>::empty(),
{
    reveal(Seq::filter);
    assert(s.take(0).filter(p) =~= Seq::empty());
}

/// Filtering a sequence that is one element longer.
pub proof fn lemma_filter_step<A>(s: Seq<A>, i: int, p: spec_fn(A) -> bool)
    requires
        0 <= i < s.len(),
    ensures
        s.take(i + 1).filter(p) == if p(s[i]) {
            s.take(i).filter(p).push(s[i])
        } else {
            s.take(i).filter(p)
        },
{
    reveal(Seq::filter);
    assert(s.take(i + 1).drop_last() =~= s.take(i));
}

/// Filtering a sequence from its first element on.
pub proof fn lemma_filter_first<A>(s: Seq<A>, p: spec_fn(A) -> bool)
    requires
        s.len() > 0,
    ensures
        s.filter(p) == if p(s[0]) {
            seq![s[0]] + s.drop_first().filter(p)
        } else {
            s.drop_first().filter(p)
        },
{
    let head = seq![s[0]];
    assert(s =~= head + s.drop_first());
    Seq::filter_distributes_over_add(head, s.drop_first(), p);
    assert(head.filter(p) == if p(s[0]) {
        head
    } else {
        Seq::empty()
    }) by {
        reveal(Seq::filter);
        assert(head.drop_last() =~= Seq::empty());
        assert(Seq::<A>::empty().filter(p) =~= Seq::empty());
        assert(Seq::<A>::empty().push(s[0]) =~= head);
    }
    assert(Seq::<A>::empty() + s.drop_first().filter(p) =~= s.drop_first().filter(p));
}

/// Filtering twice is filtering by both properties.
pub proof fn lemma_filter_filter<A>(
    s: Seq<A>,
    p: spec_fn(A) -> bool,
    q: spec_fn(A) -> bool,
    both: spec_fn(A) -> bool,
)
    requires
        forall|a: A| #[trigger] both(a) == (p(a) && q(a)),
    ensures
        s.filter(p).filter(q) == s.filter(both),
    decreases s.len(),
{
    reveal(Seq::filter);
    if s.len() > 0 {
        lemma_filter_filter(s.drop_last(), p, q, both);
        assert(both(s.last()) == (p(s.last()) && q(s.last())));
        if p(s.last()) {
            let kept = s.drop_last().filter(p);
            assert(kept.push(s.last()).drop_last() =~= kept);
        }
    }
}

/// Filtering by a property that all elements have changes nothing.
pub proof fn lemma_filter_all<A>(s: Seq<A>, p: spec_fn(A) -> bool)
    requires
        forall|i: int| 0 <= i < s.len() ==> p(#[trigger] s[i]),
    ensures
        s.filter(p) == s,
    decreases s.len(),
{
    reveal(Seq::filter);
    if s.len() > 0 {
        assert(p(s[s.len() - 1]));
        assert forall|i: int| 0 <= i < s.drop_last().len() implies p(
            #[trigger] s.drop_last()[i],
        ) by {
            assert(s.drop_last()[i] == s[i]);
        }
        lemma_filter_all(s.drop_last(), p);
        assert(s.drop_last().push(s.last()) =~= s);
    }
}

/// What a filter leaves has the property.
pub proof fn lemma_filter_has<A>(s: Seq<A>, p: spec_fn(A) -> bool)
    ensures
        forall|i: int| 0 <= i < s.filter(p).len() ==> p(#[trigger] s.filter(p)[i]),
    decreases s.len(),
{
    reveal(Seq::filter);
    if s.len() > 0 {
        lemma_filter_has(s.drop_last(), p);
    }
}

/// A filter leaves no more than there was.
pub proof fn lemma_filter_len<A>(s: Seq<A>, p: spec_fn(A) -> bool)
    ensures
        s.filter(p).len() <= s.len(),
    decreases s.len(),
{
    reveal(Seq::filter);
    if s.len() > 0 {
        lemma_filter_len(s.drop_last(), p);
    }
}

/// Filtering by two properties that say the same is the same.
pub proof fn lemma_filter_same<A>(s: Seq<A>, p: spec_fn(A) -> bool, q: spec_fn(A) -> bool)
    requires
        forall|a: A| #[trigger] p(a) == q(a),
    ensures
        s.filter(p) == s.filter(q),
    decreases s.len(),
{
    reveal(Seq::filter);
    if s.len() > 0 {
        lemma_filter_same(s.drop_last(), p, q);
        assert(p(s.last()) == q(s.last()));
    }
}

} // verus!
