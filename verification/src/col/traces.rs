//! What a list holds after several of its operations, one after the other.
//!
//! The contract of each operation relates the view of the list before the call to the view after
//! it. A run of calls is given here by the views that the list went through, and the lemmas say
//! what the last of them is.

use vstd::prelude::*;

use crate::col::boxlist::{BoxItem, BoxList};

verus! {

/// The views `views` follow one another as [`BoxList::push_back`] leaves them when the elements
/// with the payloads `xs` are pushed in this order
pub open spec fn pushes_back<P>(views: Seq<Seq<P>>, xs: Seq<P>) -> bool {
    &&& views.len() == xs.len() + 1
    &&& forall|k: int| #![trigger xs[k]] 0 <= k < xs.len() ==> views[k + 1] == views[k].push(xs[k])
}

/// The views `views` follow one another as [`BoxList::push_front`] leaves them when the
/// elements with the payloads `xs` are pushed in this order
pub open spec fn pushes_front<P>(views: Seq<Seq<P>>, xs: Seq<P>) -> bool {
    &&& views.len() == xs.len() + 1
    &&& forall|k: int| #![trigger xs[k]] 0 <= k < xs.len() ==> views[k + 1] == seq![xs[k]] + views[k]
}

/// Each of `outs` is the first of what was left, and what is left after it is the rest: this is
/// how [`BoxList::pop_front`] and the iterators of the list go through a sequence
pub open spec fn takes_first<A>(rests: Seq<Seq<A>>, outs: Seq<A>) -> bool {
    &&& rests.len() == outs.len() + 1
    &&& forall|k: int|
        #![trigger outs[k]]
        0 <= k < outs.len() ==> rests[k].len() > 0 && outs[k] == rests[k][0] && rests[k + 1]
            == rests[k].drop_first()
}

/// Pushing at the back appends: after `k` pushes the list holds what it held before, followed by
/// the first `k` of the pushed payloads in the order in which they were pushed.
pub proof fn lemma_pushes_back<P>(views: Seq<Seq<P>>, xs: Seq<P>, k: int)
    requires
        pushes_back(views, xs),
        0 <= k <= xs.len(),
    ensures
        views[k] == views[0] + xs.take(k),
    decreases k,
{
    if k == 0 {
        assert(views[0] =~= views[0] + xs.take(0));
    } else {
        lemma_pushes_back(views, xs, k - 1);
        let _ = xs[k - 1];
        assert(views[k] == views[k - 1].push(xs[k - 1]));
        assert(views[k] =~= views[0] + xs.take(k));
    }
}

/// Pushing at the front prepends: after `k` pushes the list holds the first `k` of the pushed
/// payloads in the reverse of the order in which they were pushed, followed by what it held
/// before.
pub proof fn lemma_pushes_front<P>(views: Seq<Seq<P>>, xs: Seq<P>, k: int)
    requires
        pushes_front(views, xs),
        0 <= k <= xs.len(),
    ensures
        views[k] == xs.take(k).reverse() + views[0],
    decreases k,
{
    if k == 0 {
        assert(views[0] =~= xs.take(0).reverse() + views[0]);
    } else {
        lemma_pushes_front(views, xs, k - 1);
        let _ = xs[k - 1];
        assert(views[k] == seq![xs[k - 1]] + views[k - 1]);
        assert(views[k] =~= xs.take(k).reverse() + views[0]);
    }
}

/// Taking the first again and again goes through a sequence in its order: after `k` steps the
/// first `k` elements have come out and the others are left.
pub proof fn lemma_takes_first<A>(rests: Seq<Seq<A>>, outs: Seq<A>, k: int)
    requires
        takes_first(rests, outs),
        0 <= k <= outs.len(),
    ensures
        k <= rests[0].len(),
        rests[k] == rests[0].skip(k),
        outs.take(k) == rests[0].take(k),
    decreases k,
{
    if k == 0 {
        assert(rests[0] =~= rests[0].skip(0));
        assert(outs.take(0) =~= rests[0].take(0));
    } else {
        lemma_takes_first(rests, outs, k - 1);
        let _ = outs[k - 1];
        assert(rests[k] == rests[k - 1].drop_first());
        assert(rests[k] =~= rests[0].skip(k));
        assert(outs.take(k) =~= rests[0].take(k));
    }
}

/// Two elements that are pushed at the back of an empty list come out at the front in the order
/// in which they were pushed, and nothing is left after them.
pub proof fn lemma_two_in_two_out<P>(a: P, b: P)
    ensures
        Seq::<P>::empty().push(a).push(b).len() == 2,
        Seq::<P>::empty().push(a).push(b)[0] == a,
        Seq::<P>::empty().push(a).push(b).drop_first()[0] == b,
        Seq::<P>::empty().push(a).push(b).drop_first().drop_first() == Seq::<P>::empty(),
{
    assert(Seq::<P>::empty().push(a).push(b).drop_first().drop_first() =~= Seq::<P>::empty());
}

/// The only element of a list is its first and its last: pushed at the front of an empty list,
/// it comes out at the back, and nothing is left after it.
pub proof fn lemma_one_in_one_out<P>(x: P)
    ensures
        (seq![x] + Seq::<P>::empty()).len() == 1,
        (seq![x] + Seq::<P>::empty()).last() == x,
        (seq![x] + Seq::<P>::empty()).drop_last() == Seq::<P>::empty(),
{
    assert((seq![x] + Seq::<P>::empty()).drop_last() =~= Seq::<P>::empty());
}

/// Moving the last element of a list to the back leaves the list as it is.
pub proof fn lemma_move_last_to_back<P>(view: Seq<P>)
    requires
        view.len() > 0,
    ensures
        view.remove(view.len() - 1).push(view.last()) == view,
{
    assert(view.remove(view.len() - 1).push(view.last()) =~= view);
}

/// Pushing `n` elements at the back of an empty list gives a list of `n` elements, and walking
/// it from the front until nothing is left meets the elements in the order in which they were
/// pushed.
pub proof fn lemma_push_back_then_walk<T: BoxItem>(
    list: BoxList<T>,
    views: Seq<Seq<T::Payload>>,
    xs: Seq<T::Payload>,
    rests: Seq<Seq<T>>,
    outs: Seq<T>,
)
    requires
        pushes_back(views, xs),
        views[0] == Seq::<T::Payload>::empty(),
        list@ == views.last(),
        takes_first(rests, outs),
        rests[0] == list.items(),
        rests.last().len() == 0,
    ensures
        list@ == xs,
        list@.len() == xs.len(),
        outs.len() == xs.len(),
        forall|k: int| 0 <= k < xs.len() ==> (#[trigger] outs[k]).payload() == xs[k],
{
    lemma_pushes_back(views, xs, xs.len() as int);
    assert(xs.take(xs.len() as int) =~= xs);
    assert(list@ =~= xs);
    lemma_takes_first(rests, outs, outs.len() as int);
    assert(outs.take(outs.len() as int) =~= outs);
    assert(outs =~= list.items());
    assert forall|k: int| 0 <= k < xs.len() implies (#[trigger] outs[k]).payload() == xs[k] by {
        assert(list@[k] == list.items()[k].payload());
    }
}

/// Pushing `n` elements at the front of an empty list gives a list of `n` elements, and walking
/// it from the front until nothing is left meets the elements in the reverse of the order in
/// which they were pushed.
pub proof fn lemma_push_front_then_walk<T: BoxItem>(
    list: BoxList<T>,
    views: Seq<Seq<T::Payload>>,
    xs: Seq<T::Payload>,
    rests: Seq<Seq<T>>,
    outs: Seq<T>,
)
    requires
        pushes_front(views, xs),
        views[0] == Seq::<T::Payload>::empty(),
        list@ == views.last(),
        takes_first(rests, outs),
        rests[0] == list.items(),
        rests.last().len() == 0,
    ensures
        list@ == xs.reverse(),
        list@.len() == xs.len(),
        outs.len() == xs.len(),
        forall|k: int| 0 <= k < xs.len() ==> (#[trigger] outs[k]).payload() == xs[xs.len() - 1 - k],
{
    lemma_pushes_front(views, xs, xs.len() as int);
    assert(xs.take(xs.len() as int) =~= xs);
    assert(list@ =~= xs.reverse());
    lemma_takes_first(rests, outs, outs.len() as int);
    assert(outs.take(outs.len() as int) =~= outs);
    assert(outs =~= list.items());
    assert forall|k: int| 0 <= k < xs.len() implies (#[trigger] outs[k]).payload() == xs[xs.len() - 1
        - k] by {
        assert(list@[k] == list.items()[k].payload());
    }
}

/// Pushing elements at the back of an empty list and then taking the first until nothing is
/// left hands the elements back in the order in which they were pushed, each of them once.
pub proof fn lemma_round_trip<P>(
    pushed: Seq<Seq<P>>,
    xs: Seq<P>,
    drained: Seq<Seq<P>>,
    outs: Seq<P>,
)
    requires
        pushes_back(pushed, xs),
        pushed[0] == Seq::<P>::empty(),
        takes_first(drained, outs),
        drained[0] == pushed.last(),
        drained.last().len() == 0,
    ensures
        outs == xs,
        drained.last() == Seq::<P>::empty(),
{
    lemma_pushes_back(pushed, xs, xs.len() as int);
    assert(xs.take(xs.len() as int) =~= xs);
    assert(pushed.last() =~= xs);
    lemma_takes_first(drained, outs, outs.len() as int);
    assert(outs.take(outs.len() as int) =~= outs);
    assert(outs =~= xs);
    assert(drained.last() =~= Seq::<P>::empty());
}

} // verus!
