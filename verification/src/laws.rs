use vstd::prelude::*;
use crate::arc::ArcView;
use crate::firing::arcs_within;
use crate::firing::consumed;
use crate::firing::inputs_satisfied;
use crate::firing::total_weight;
use crate::net::Petrinet;
use crate::scheduler::lemma_positions;
use crate::scheduler::observed;
use crate::scheduler::positions;
use crate::transition::Transition;

verus! {

/// `more` holds on every place at least what `m` holds.
pub open spec fn covers(more: Seq<nat>, m: Seq<nat>) -> bool {
    &&& more.len() == m.len()
    &&& forall|p: int| 0 <= p < m.len() ==> more[p] >= m[p]
}

/// No two of `arcs` refer to the same place.
pub open spec fn distinct_places(arcs: Seq<ArcView>) -> bool {
    forall|i: int, j: int| 0 <= i < j < arcs.len() ==> arcs[i].place != arcs[j].place
}

/// `run` is a sequence of markings in which each one but the first comes from
/// the one before it by a step of `net`.
pub open spec fn is_run(net: Petrinet<'_>, run: Seq<Seq<nat>>) -> bool {
    forall|i: int| 0 <= i < run.len() - 1 ==> net.may_step(#[trigger] run[i], run[i + 1])
}

/// However many steps a net takes, the number of places stays what it was and
/// no place ever holds fewer than zero tokens.
pub proof fn lemma_counts_stay_counts(net: Petrinet<'_>, run: Seq<Seq<nat>>, i: int, p: int)
    requires
        is_run(net, run),
        0 <= i < run.len(),
        0 <= p < run[0].len(),
    ensures
        run[i].len() == run[0].len(),
        run[i][p] >= 0,
    decreases i,
{
    if i > 0 {
        lemma_counts_stay_counts(net, run, i - 1, p);
        assert(net.may_step(run[i - 1], run[i - 1 + 1]));
    }
}

/// A transition without input arcs whose guard, if it has one, never answers
/// false is enabled under every marking. Firing it takes nothing: it adds to
/// each place the total weight of the output arcs that refer to it, and leaves
/// a place to which no output arc refers as it is.
pub proof fn lemma_source_transition(t: Transition<'_>, m: Seq<nat>)
    requires
        t.inputs().len() == 0,
        !t.guard_may_block(),
    ensures
        !t.may_report(m, false),
        covers(t.fired(m), m),
        forall|p: int|
            0 <= p < m.len() ==> #[trigger] t.fired(m)[p] == m[p] + total_weight(
                t.outputs(),
                p as nat,
            ),
        forall|p: int|
            0 <= p < m.len() && (forall|i: int|
                0 <= i < t.outputs().len() ==> (#[trigger] t.outputs()[i]).place != p)
                ==> #[trigger] t.fired(m)[p] == m[p],
{
    assert(consumed(t.inputs(), m) =~= m);
    assert forall|p: int|
        0 <= p < m.len() && (forall|i: int|
            0 <= i < t.outputs().len() ==> (#[trigger] t.outputs()[i]).place != p) implies #[trigger] t.fired(
        m,
    )[p] == m[p] by {
        lemma_no_weight_without_arc(t.outputs(), p as nat);
    }
}

/// Tokens only help: input arcs that are satisfied under a marking are
/// satisfied under every marking that holds at least as much on every place.
pub proof fn lemma_enablement_monotone(arcs: Seq<ArcView>, m: Seq<nat>, more: Seq<nat>)
    requires
        covers(more, m),
        inputs_satisfied(arcs, m),
    ensures
        inputs_satisfied(arcs, more),
{
    assert forall|i: int| 0 <= i < arcs.len() implies (#[trigger] arcs[i]).satisfied_by(more) by {
        assert(arcs[i].satisfied_by(m));
    }
}

/// Firing can disable and cannot enable where it puts nothing back: if the
/// output arcs of `t` weigh nothing on the places of `arcs`, then after `t`
/// fired those places hold no more than before, and `arcs` are satisfied only
/// if they were satisfied before.
pub proof fn lemma_firing_never_enables(t: Transition<'_>, arcs: Seq<ArcView>, m: Seq<nat>)
    requires
        arcs_within(arcs, m.len()),
        forall|i: int|
            0 <= i < arcs.len() ==> total_weight(t.outputs(), (#[trigger] arcs[i]).place) == 0,
    ensures
        forall|i: int|
            0 <= i < arcs.len() ==> t.fired(m)[(#[trigger] arcs[i]).place as int]
                <= m[arcs[i].place as int],
        inputs_satisfied(arcs, t.fired(m)) ==> inputs_satisfied(arcs, m),
{
    if inputs_satisfied(arcs, t.fired(m)) {
        assert forall|i: int| 0 <= i < arcs.len() implies (#[trigger] arcs[i]).satisfied_by(m) by {
            assert(arcs[i].satisfied_by(t.fired(m)));
        }
    }
}

/// Where no two input arcs share a place and each is satisfied, every place
/// holds the total weight that the input arcs take from it.
pub proof fn lemma_distinct_inputs_are_covered(arcs: Seq<ArcView>, m: Seq<nat>, p: int)
    requires
        distinct_places(arcs),
        inputs_satisfied(arcs, m),
        0 <= p < m.len(),
    ensures
        total_weight(arcs, p as nat) <= m[p],
        forall|i: int|
            0 <= i < arcs.len() && (#[trigger] arcs[i]).place == p ==> total_weight(arcs, p as nat)
                == arcs[i].weight,
    decreases arcs.len(),
{
    if arcs.len() > 0 {
        let front = arcs.drop_last();
        let last = arcs.last();
        assert(distinct_places(front)) by {
            assert forall|i: int, j: int| 0 <= i < j < front.len() implies front[i].place
                != front[j].place by {
                assert(front[i] == arcs[i] && front[j] == arcs[j]);
            }
        }
        assert(inputs_satisfied(front, m)) by {
            assert forall|i: int| 0 <= i < front.len() implies (#[trigger] front[i]).satisfied_by(
                m,
            ) by {
                assert(front[i] == arcs[i]);
            }
        }
        lemma_distinct_inputs_are_covered(front, m, p);
        assert(last.satisfied_by(m));
        if last.place == p {
            lemma_no_weight_without_arc(front, p as nat);
        }
        assert forall|i: int| 0 <= i < arcs.len() && (#[trigger] arcs[i]).place == p implies total_weight(
            arcs,
            p as nat,
        ) == arcs[i].weight by {
            if i < front.len() {
                assert(front[i] == arcs[i]);
                assert(last.place != p);
            }
        }
    }
}

/// Arcs of which none refers to `p` weigh nothing on `p`.
pub proof fn lemma_no_weight_without_arc(arcs: Seq<ArcView>, p: nat)
    requires
        forall|i: int| 0 <= i < arcs.len() ==> (#[trigger] arcs[i]).place != p,
    ensures
        total_weight(arcs, p) == 0,
    decreases arcs.len(),
{
    if arcs.len() > 0 {
        assert(arcs.last() == arcs[arcs.len() - 1]);
        assert forall|i: int| 0 <= i < arcs.drop_last().len() implies (#[trigger] arcs.drop_last()[i]).place
            != p by {
            assert(arcs.drop_last()[i] == arcs[i]);
        }
        lemma_no_weight_without_arc(arcs.drop_last(), p);
    }
}

/// The firing rule of a net whose arcs are drawn once per place: where the
/// input arcs of a transition are satisfied and no two of them share a place,
/// firing takes from each place exactly the weight of the input arcs on it,
/// with no count stopped at zero, and adds the weight of the output arcs.
pub proof fn lemma_firing_rule(t: Transition<'_>, m: Seq<nat>, p: int)
    requires
        distinct_places(t.inputs()),
        inputs_satisfied(t.inputs(), m),
        0 <= p < m.len(),
    ensures
        t.fired(m)[p] == m[p] - total_weight(t.inputs(), p as nat) + total_weight(
            t.outputs(),
            p as nat,
        ),
{
    lemma_distinct_inputs_are_covered(t.inputs(), m, p);
}

/// A guard that never answers true disables the transition, whatever its
/// places hold.
pub proof fn lemma_false_guard_disables(t: Transition<'_>, m: Seq<nat>)
    requires
        !t.guard_may_pass(),
    ensures
        !t.may_report(m, true),
{
}

/// A guard that never answers false leaves the matter to the input arcs: the
/// transition is enabled exactly where each of them is satisfied.
pub proof fn lemma_true_guard_defers_to_inputs(t: Transition<'_>, m: Seq<nat>, enabled: bool)
    requires
        !t.guard_may_block(),
        t.may_report(m, enabled),
    ensures
        enabled == inputs_satisfied(t.inputs(), m),
{
}

/// A step of a net in which no transition can report itself enabled leaves
/// every place as it is.
pub proof fn lemma_dead_net_stands_still(net: Petrinet<'_>, m: Seq<nat>, after: Seq<nat>)
    requires
        forall|k: int| 0 <= k < net@.len() ==> !(#[trigger] net@[k]).may_report(m, true),
        net.may_step(m, after),
    ensures
        after == m,
{
}

/// A scheduled step of a net in which no transition can report itself enabled
/// leaves every place as it is, and draws no number.
pub proof fn lemma_dead_net_is_not_scheduled(
    net: Petrinet<'_>,
    state: u64,
    m: Seq<nat>,
    after: Seq<nat>,
    next: u64,
)
    requires
        forall|k: int| 0 <= k < net@.len() ==> !(#[trigger] net@[k]).may_report(m, true),
        net.may_step_chosen(state, m, after, next),
    ensures
        after == m,
        next == state,
{
    let seen = choose|seen: Seq<bool>| observed(net@, m, seen) && positions(seen).len() > 0;
    if observed(net@, m, seen) && positions(seen).len() > 0 {
        lemma_positions(seen);
        let k = positions(seen)[0];
        assert(net@[k].may_report(m, seen[k]));
    }
}

/// With guards that each give one answer only, a step is decided by the
/// marking: the transitions are asked in the order in which they were added,
/// and two steps from one marking end in the same marking.
pub proof fn lemma_step_is_decided(net: Petrinet<'_>, m: Seq<nat>, a: Seq<nat>, b: Seq<nat>)
    requires
        forall|k: int|
            0 <= k < net@.len() ==> !((#[trigger] net@[k]).guard_may_pass()
                && net@[k].guard_may_block()),
        net.may_step(m, a),
        net.may_step(m, b),
    ensures
        a == b,
{
    assert forall|k: int| 0 <= k < net@.len() implies !((#[trigger] net@[k]).may_report(m, true)
        && net@[k].may_report(m, false)) by {}
    if exists|k: int| net.may_fire(m, k) && a == net@[k].fired(m) {
        let i = choose|k: int| net.may_fire(m, k) && a == net@[k].fired(m);
        if exists|k: int| net.may_fire(m, k) && b == net@[k].fired(m) {
            let j = choose|k: int| net.may_fire(m, k) && b == net@[k].fired(m);
            if i < j {
                assert(net@[i].may_report(m, false));
            } else if j < i {
                assert(net@[j].may_report(m, false));
            }
        } else {
            assert(net@[i].may_report(m, false));
        }
    } else {
        if exists|k: int| net.may_fire(m, k) && b == net@[k].fired(m) {
            let j = choose|k: int| net.may_fire(m, k) && b == net@[k].fired(m);
            assert(net@[j].may_report(m, false));
        }
    }
}

} // verus!
