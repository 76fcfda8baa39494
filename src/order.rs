//! The order in which the containers hand elements back, stated over their
//! views. Each spec function below takes one step exactly as one operation's
//! contract does, so the lemmas describe whole runs of those operations.
use vstd::prelude::*;

verus! {

/// The view after pushing each of `xs` in turn onto a container whose
/// `push` (or `push_front`) puts the element first: `seq![x] + v`.
pub open spec fn push_each_front<T>(v: Seq<T>, xs: Seq<T>) -> Seq<T>
    decreases xs.len(),
{
    if xs.len() == 0 {
        v
    } else {
        push_each_front(seq![xs[0]] + v, xs.drop_first())
    }
}

/// The view after pushing each of `xs` in turn onto a container whose
/// `push` (or `push_back`) puts the element last: `v.push(x)`.
pub open spec fn push_each_back<T>(v: Seq<T>, xs: Seq<T>) -> Seq<T>
    decreases xs.len(),
{
    if xs.len() == 0 {
        v
    } else {
        push_each_back(v.push(xs[0]), xs.drop_first())
    }
}

/// What popping at the front until empty returns, in order: each pop
/// returns `v[0]` and leaves `v.drop_first()`.
pub open spec fn pops_front<T>(v: Seq<T>) -> Seq<T>
    decreases v.len(),
{
    if v.len() == 0 {
        Seq::empty()
    } else {
        seq![v[0]] + pops_front(v.drop_first())
    }
}

/// What popping at the back until empty returns, in order: each pop
/// returns `v.last()` and leaves `v.drop_last()`.
pub open spec fn pops_back<T>(v: Seq<T>) -> Seq<T>
    decreases v.len(),
{
    if v.len() == 0 {
        Seq::empty()
    } else {
        seq![v.last()] + pops_back(v.drop_last())
    }
}

proof fn lemma_push_each_front_is_reverse<T>(v: Seq<T>, xs: Seq<T>)
    ensures
        push_each_front(v, xs) == xs.reverse() + v,
    decreases xs.len(),
{
    if xs.len() > 0 {
        lemma_push_each_front_is_reverse(seq![xs[0]] + v, xs.drop_first());
        assert(xs.drop_first().reverse() + (seq![xs[0]] + v) =~= xs.reverse() + v);
    } else {
        assert(xs.reverse() + v =~= v);
    }
}

proof fn lemma_push_each_back_is_append<T>(v: Seq<T>, xs: Seq<T>)
    ensures
        push_each_back(v, xs) == v + xs,
    decreases xs.len(),
{
    if xs.len() > 0 {
        lemma_push_each_back_is_append(v.push(xs[0]), xs.drop_first());
        assert(v.push(xs[0]) + xs.drop_first() =~= v + xs);
    } else {
        assert(v + xs =~= v);
    }
}

proof fn lemma_pops_front_is_identity<T>(v: Seq<T>)
    ensures
        pops_front(v) == v,
    decreases v.len(),
{
    if v.len() > 0 {
        lemma_pops_front_is_identity(v.drop_first());
        assert(seq![v[0]] + v.drop_first() =~= v);
    } else {
        assert(v =~= Seq::<T>::empty());
    }
}

proof fn lemma_pops_back_is_reverse<T>(v: Seq<T>)
    ensures
        pops_back(v) == v.reverse(),
    decreases v.len(),
{
    if v.len() > 0 {
        lemma_pops_back_is_reverse(v.drop_last());
        assert(seq![v.last()] + v.drop_last().reverse() =~= v.reverse());
    } else {
        assert(v.reverse() =~= Seq::<T>::empty());
    }
}

/// Last in, first out: pushing `xs` one by one onto an empty stack and then
/// popping until empty returns `xs` in exactly the reverse order.
pub proof fn lemma_lifo<T>(xs: Seq<T>)
    ensures
        pops_front(push_each_front(Seq::empty(), xs)) == xs.reverse(),
{
    lemma_push_each_front_is_reverse(Seq::empty(), xs);
    lemma_pops_front_is_identity(xs.reverse() + Seq::<T>::empty());
    assert(xs.reverse() + Seq::<T>::empty() =~= xs.reverse());
}

/// First in, first out: pushing `xs` one by one onto an empty queue and then
/// popping until empty returns `xs` in the same order.
pub proof fn lemma_fifo<T>(xs: Seq<T>)
    ensures
        pops_front(push_each_back(Seq::empty(), xs)) == xs,
{
    lemma_push_each_back_is_append(Seq::empty(), xs);
    lemma_pops_front_is_identity(Seq::<T>::empty() + xs);
    assert(Seq::<T>::empty() + xs =~= xs);
}

/// Both ends of a nested list: what is pushed at the front comes back from
/// the back in the order it was pushed, and what is pushed at the back comes
/// back from the front in the order it was pushed, and from the back reversed.
pub proof fn lemma_both_ends<T>(xs: Seq<T>)
    ensures
        pops_back(push_each_front(Seq::empty(), xs)) == xs,
        pops_front(push_each_back(Seq::empty(), xs)) == xs,
        pops_back(push_each_back(Seq::empty(), xs)) == xs.reverse(),
{
    lemma_push_each_front_is_reverse(Seq::empty(), xs);
    lemma_push_each_back_is_append(Seq::empty(), xs);
    assert(xs.reverse() + Seq::<T>::empty() =~= xs.reverse());
    assert(Seq::<T>::empty() + xs =~= xs);
    lemma_pops_back_is_reverse(xs.reverse());
    lemma_pops_back_is_reverse(xs);
    lemma_pops_front_is_identity(xs);
    assert(xs.reverse().reverse() =~= xs);
}

/// A push followed by a pop at the same end hands back the pushed element
/// and restores the earlier view, at the front and at the back alike.
pub proof fn lemma_round_trip<T>(v: Seq<T>, x: T)
    ensures
        (seq![x] + v)[0] == x,
        (seq![x] + v).drop_first() == v,
        v.push(x).last() == x,
        v.push(x).drop_last() == v,
{
    assert((seq![x] + v).drop_first() =~= v);
    assert(v.push(x).drop_last() =~= v);
}

} // verus!
