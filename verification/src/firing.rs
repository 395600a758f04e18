use vstd::prelude::*;
use crate::arc::ArcView;
use crate::arc::clamp_at_zero;

verus! {

/// What `arc` weighs on place `p`: its weight where `p` is its place, nothing
/// elsewhere.
pub open spec fn weight_on(arc: ArcView, p: nat) -> nat {
    if arc.place == p {
        arc.weight
    } else {
        0
    }
}

/// The sum of the weights of those of `arcs` that refer to place `p`.
pub open spec fn total_weight(arcs: Seq<ArcView>, p: nat) -> nat
    decreases arcs.len(),
{
    if arcs.len() == 0 {
        0
    } else {
        total_weight(arcs.drop_last(), p) + weight_on(arcs.last(), p)
    }
}

/// Every one of `arcs` refers to one of the first `n` places.
pub open spec fn arcs_within(arcs: Seq<ArcView>, n: nat) -> bool {
    forall|i: int| 0 <= i < arcs.len() ==> (#[trigger] arcs[i]).place < n
}

/// Every one of `arcs`, taken by itself, finds its weight in tokens on its
/// place under `m`.
pub open spec fn inputs_satisfied(arcs: Seq<ArcView>, m: Seq<nat>) -> bool {
    forall|i: int| 0 <= i < arcs.len() ==> (#[trigger] arcs[i]).satisfied_by(m)
}

/// `m` after each of `arcs` took its weight: every place loses the total
/// weight of the arcs that refer to it, and stops at zero.
pub open spec fn consumed(arcs: Seq<ArcView>, m: Seq<nat>) -> Seq<nat> {
    Seq::new(m.len(), |p: int| clamp_at_zero(m[p] - total_weight(arcs, p as nat)))
}

/// `m` after each of `arcs` put its weight: every place gains the total weight
/// of the arcs that refer to it.
pub open spec fn produced(arcs: Seq<ArcView>, m: Seq<nat>) -> Seq<nat> {
    Seq::new(m.len(), |p: int| m[p] + total_weight(arcs, p as nat))
}

/// Every count of `m` can be held in a `u32`.
pub open spec fn fits(m: Seq<nat>) -> bool {
    forall|p: int| 0 <= p < m.len() ==> #[trigger] m[p] <= u32::MAX
}

/// One more arc adds what it weighs on `p` to the total.
pub proof fn lemma_total_weight_push(arcs: Seq<ArcView>, arc: ArcView, p: nat)
    ensures
        total_weight(arcs.push(arc), p) == total_weight(arcs, p) + weight_on(arc, p),
{
    assert(arcs.push(arc).drop_last() =~= arcs);
}

/// The first `i` arcs weigh no more on `p` than all of them.
pub proof fn lemma_total_weight_prefix(arcs: Seq<ArcView>, i: int, p: nat)
    requires
        0 <= i <= arcs.len(),
    ensures
        total_weight(arcs.take(i), p) <= total_weight(arcs, p),
    decreases arcs.len() - i,
{
    if i == arcs.len() {
        assert(arcs.take(i) =~= arcs);
    } else {
        lemma_total_weight_prefix(arcs, i + 1, p);
        assert(arcs.take(i + 1) =~= arcs.take(i).push(arcs[i]));
        lemma_total_weight_push(arcs.take(i), arcs[i], p);
    }
}

/// No arcs take nothing and put nothing.
pub proof fn lemma_no_arcs(m: Seq<nat>)
    ensures
        consumed(Seq::<ArcView>::empty(), m) == m,
        produced(Seq::<ArcView>::empty(), m) == m,
{
    assert(consumed(Seq::<ArcView>::empty(), m) =~= m);
    assert(produced(Seq::<ArcView>::empty(), m) =~= m);
}

/// Taking arc by arc, each clamped at zero, ends where the total weights say.
pub proof fn lemma_consumed_push(arcs: Seq<ArcView>, arc: ArcView, m: Seq<nat>)
    requires
        arc.place < m.len(),
    ensures
        consumed(arcs.push(arc), m) == arc.consume(consumed(arcs, m)),
{
    assert forall|p: int| 0 <= p < m.len() implies consumed(arcs.push(arc), m)[p] == arc.consume(
        consumed(arcs, m),
    )[p] by {
        lemma_total_weight_push(arcs, arc, p as nat);
    }
    assert(consumed(arcs.push(arc), m) =~= arc.consume(consumed(arcs, m)));
}

/// Putting arc by arc ends where the total weights say.
pub proof fn lemma_produced_push(arcs: Seq<ArcView>, arc: ArcView, m: Seq<nat>)
    requires
        arc.place < m.len(),
    ensures
        produced(arcs.push(arc), m) == arc.produce(produced(arcs, m)),
{
    assert forall|p: int| 0 <= p < m.len() implies produced(arcs.push(arc), m)[p] == arc.produce(
        produced(arcs, m),
    )[p] by {
        lemma_total_weight_push(arcs, arc, p as nat);
    }
    assert(produced(arcs.push(arc), m) =~= arc.produce(produced(arcs, m)));
}

} // verus!
