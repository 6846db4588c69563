use vstd::prelude::*;

use crate::{
    bipartite, edge, flow, linked, neighbours, Arc, NodeRef, PetriNet, Place, PlaceRef,
    Transition, TransitionRef,
};

verus! {

/// The arena index that a node handle carries.
pub open spec fn node_index(n: NodeRef) -> nat {
    match n {
        NodeRef::Place(p) => p.index as nat,
        NodeRef::Transition(t) => t.index as nat,
    }
}

/// One of the three growing operations of a net.
pub enum BuildStep {
    AddPlace,
    AddTransition,
    AddArc(NodeRef, NodeRef),
}

/// `after` is what a successful `step` makes of `before`
/// (`add_place`, `add_transition`, or an `add_arc` that returned `Ok`).
pub open spec fn follows(before: PetriNet, step: BuildStep, after: PetriNet) -> bool {
    match step {
        BuildStep::AddPlace => after.place_seq() == before.place_seq().push(
            Place { name: None, marking: 0 },
        ) && after.transition_seq() == before.transition_seq() && after.arc_seq()
            == before.arc_seq(),
        BuildStep::AddTransition => after.place_seq() == before.place_seq()
            && after.transition_seq() == before.transition_seq().push(Transition { name: None })
            && after.arc_seq() == before.arc_seq(),
        BuildStep::AddArc(s, d) => bipartite(s, d) && before.holds(s) && before.holds(d)
            && after.place_seq() == before.place_seq() && after.transition_seq()
            == before.transition_seq() && after.arc_seq() == before.arc_seq().push(
            Arc { name: None, source: s, sink: d, mult: 1 },
        ),
    }
}

/// A node that a net holds is still held after any growing step, so a
/// handle returned earlier stays valid for later `add_arc` calls.
pub proof fn law_handles_persist(before: PetriNet, step: BuildStep, after: PetriNet, n: NodeRef)
    requires
        follows(before, step, after),
        before.holds(n),
    ensures
        after.holds(n),
{
}

/// The handle that `add_place` or `add_transition` returns names a node of
/// the grown net.
pub proof fn law_added_node_held(before: PetriNet, step: BuildStep, after: PetriNet)
    requires
        follows(before, step, after),
    ensures
        step is AddPlace ==> after.holds(
            NodeRef::Place(PlaceRef { index: before.place_seq().len() as usize }),
        ),
        step is AddTransition ==> after.holds(
            NodeRef::Transition(TransitionRef { index: before.transition_seq().len() as usize }),
        ),
{
}

pub open spec fn places_added(steps: Seq<BuildStep>) -> nat
    decreases steps.len(),
{
    if steps.len() == 0 {
        0
    } else {
        places_added(steps.drop_last()) + if steps.last() is AddPlace {
            1nat
        } else {
            0nat
        }
    }
}

pub open spec fn transitions_added(steps: Seq<BuildStep>) -> nat
    decreases steps.len(),
{
    if steps.len() == 0 {
        0
    } else {
        transitions_added(steps.drop_last()) + if steps.last() is AddTransition {
            1nat
        } else {
            0nat
        }
    }
}

pub open spec fn arcs_added(steps: Seq<BuildStep>) -> nat
    decreases steps.len(),
{
    if steps.len() == 0 {
        0
    } else {
        arcs_added(steps.drop_last()) + if steps.last() is AddArc {
            1nat
        } else {
            0nat
        }
    }
}

proof fn lemma_counts_upto(nets: Seq<PetriNet>, steps: Seq<BuildStep>, k: nat)
    requires
        nets.len() == steps.len() + 1,
        k <= steps.len(),
        nets[0].place_seq().len() == 0,
        nets[0].transition_seq().len() == 0,
        nets[0].arc_seq().len() == 0,
        forall|i: int| 0 <= i < steps.len() ==> follows(nets[i], #[trigger] steps[i], nets[i + 1]),
    ensures
        nets[k as int].place_seq().len() == places_added(steps.take(k as int)),
        nets[k as int].transition_seq().len() == transitions_added(steps.take(k as int)),
        nets[k as int].arc_seq().len() == arcs_added(steps.take(k as int)),
    decreases k,
{
    if k > 0 {
        let j = (k - 1) as nat;
        lemma_counts_upto(nets, steps, j);
        assert(steps.take(k as int).drop_last() =~= steps.take(j as int));
        assert(steps.take(k as int).last() == steps[j as int]);
        assert(follows(nets[j as int], steps[j as int], nets[k as int]));
    } else {
        assert(steps.take(0) =~= Seq::<BuildStep>::empty());
    }
}

/// A net built from an empty one by a sequence of `add_place`,
/// `add_transition` and successful `add_arc` calls holds as many places,
/// transitions and arcs as there were calls of each kind.
pub proof fn law_counts_match_calls(nets: Seq<PetriNet>, steps: Seq<BuildStep>)
    requires
        nets.len() == steps.len() + 1,
        nets[0].place_seq().len() == 0,
        nets[0].transition_seq().len() == 0,
        nets[0].arc_seq().len() == 0,
        forall|i: int| 0 <= i < steps.len() ==> follows(nets[i], #[trigger] steps[i], nets[i + 1]),
    ensures
        nets.last().place_seq().len() == places_added(steps),
        nets.last().transition_seq().len() == transitions_added(steps),
        nets.last().arc_seq().len() == arcs_added(steps),
{
    lemma_counts_upto(nets, steps, steps.len());
    assert(steps.take(steps.len() as int) =~= steps);
}

/// The summed multiplicity of a run of arcs.
pub open spec fn mult_total(arcs: Seq<Arc>) -> nat
    decreases arcs.len(),
{
    if arcs.len() == 0 {
        0
    } else {
        mult_total(arcs.drop_last()) + arcs.last().mult as nat
    }
}

/// Appending arcs that all lead from `src` to `dst` raises the aggregated
/// multiplicity of that pair by exactly their summed multiplicities, and
/// links the pair as soon as one is appended.
pub proof fn law_parallel_arcs_add_up(before: Seq<Arc>, added: Seq<Arc>, src: NodeRef, dst: NodeRef)
    requires
        forall|i: int| 0 <= i < added.len() ==> (#[trigger] added[i]).source == src
            && added[i].sink == dst,
    ensures
        flow(before + added, src, dst) == flow(before, src, dst) + mult_total(added),
        added.len() > 0 ==> linked(before + added, src, dst),
    decreases added.len(),
{
    if added.len() == 0 {
        assert(before + added =~= before);
    } else {
        let rest = added.drop_last();
        law_parallel_arcs_add_up(before, rest, src, dst);
        assert((before + added).drop_last() =~= before + rest);
        assert((before + added).last() == added.last());
    }
}

/// Every counterpart linked to `n` appears among its neighbours, with the
/// aggregated multiplicity of its arcs.
pub proof fn law_neighbour_listed(arcs: Seq<Arc>, n: NodeRef, incoming: bool, upto: nat, j: nat)
    requires
        j < upto,
        linked(arcs, edge(n, j, incoming).0, edge(n, j, incoming).1),
    ensures
        exists|i: int|
            0 <= i < neighbours(arcs, n, incoming, upto).len() && neighbours(
                arcs,
                n,
                incoming,
                upto,
            )[i] == (j, flow(arcs, edge(n, j, incoming).0, edge(n, j, incoming).1)),
    decreases upto,
{
    let prev = neighbours(arcs, n, incoming, (upto - 1) as nat);
    if j == upto - 1 {
        let l = neighbours(arcs, n, incoming, upto);
        assert(l[l.len() - 1] == (j, flow(arcs, edge(n, j, incoming).0, edge(n, j, incoming).1)));
    } else {
        law_neighbour_listed(arcs, n, incoming, (upto - 1) as nat, j);
        let i = choose|i: int|
            0 <= i < prev.len() && prev[i] == (
                j,
                flow(arcs, edge(n, j, incoming).0, edge(n, j, incoming).1),
            );
        assert(neighbours(arcs, n, incoming, upto)[i] == prev[i]);
    }
}

proof fn lemma_unlinked_no_flow(arcs: Seq<Arc>, src: NodeRef, dst: NodeRef)
    requires
        !linked(arcs, src, dst),
    ensures
        flow(arcs, src, dst) == 0,
    decreases arcs.len(),
{
    if arcs.len() > 0 {
        lemma_unlinked_no_flow(arcs.drop_last(), src, dst);
    }
}

/// After appending k >= 1 arcs from `src` to `dst` to a net that had none
/// between them, the preset of `dst` lists `src` and the postset of `src`
/// lists `dst`, each with the sum of the k multiplicities.
pub proof fn law_repeated_arcs_aggregate(
    before: PetriNet,
    after: PetriNet,
    added: Seq<Arc>,
    src: NodeRef,
    dst: NodeRef,
)
    requires
        bipartite(src, dst),
        after.holds(src),
        after.holds(dst),
        after.arc_seq() == before.arc_seq() + added,
        added.len() > 0,
        forall|i: int| 0 <= i < added.len() ==> (#[trigger] added[i]).source == src
            && added[i].sink == dst,
        !linked(before.arc_seq(), src, dst),
    ensures
        exists|i: int|
            0 <= i < after.adjacent(dst, true).len() && after.adjacent(dst, true)[i] == (
                node_index(src),
                mult_total(added),
            ),
        exists|i: int|
            0 <= i < after.adjacent(src, false).len() && after.adjacent(src, false)[i] == (
                node_index(dst),
                mult_total(added),
            ),
{
    law_parallel_arcs_add_up(before.arc_seq(), added, src, dst);
    lemma_unlinked_no_flow(before.arc_seq(), src, dst);
    let arcs = after.arc_seq();
    assert(edge(dst, node_index(src), true) == (src, dst));
    assert(edge(src, node_index(dst), false) == (src, dst));
    let total = flow(arcs, src, dst);
    assert(total == mult_total(added));
    law_neighbour_listed(arcs, dst, true, after.counterpart_count(dst), node_index(src));
    let pre = after.adjacent(dst, true);
    let i = choose|i: int| 0 <= i < pre.len() && pre[i] == (node_index(src), total);
    assert(0 <= i < pre.len() && pre[i] == (node_index(src), mult_total(added)));
    law_neighbour_listed(arcs, src, false, after.counterpart_count(src), node_index(dst));
    let post = after.adjacent(src, false);
    let k = choose|k: int| 0 <= k < post.len() && post[k] == (node_index(dst), total);
    assert(0 <= k < post.len() && post[k] == (node_index(dst), mult_total(added)));
}

proof fn lemma_untouched_unlinked(arcs: Seq<Arc>, n: NodeRef, src: NodeRef, dst: NodeRef)
    requires
        src == n || dst == n,
        forall|k: int| 0 <= k < arcs.len() ==> (#[trigger] arcs[k]).source != n && arcs[k].sink != n,
    ensures
        !linked(arcs, src, dst),
    decreases arcs.len(),
{
    if arcs.len() > 0 {
        lemma_untouched_unlinked(arcs.drop_last(), n, src, dst);
        assert(arcs.last() == arcs[arcs.len() - 1]);
    }
}

/// A node that no arc touches has no neighbours, in either direction.
pub proof fn law_isolated_node(arcs: Seq<Arc>, n: NodeRef, incoming: bool, upto: nat)
    requires
        forall|k: int| 0 <= k < arcs.len() ==> (#[trigger] arcs[k]).source != n && arcs[k].sink != n,
    ensures
        neighbours(arcs, n, incoming, upto).len() == 0,
    decreases upto,
{
    if upto > 0 {
        let j = (upto - 1) as nat;
        law_isolated_node(arcs, n, incoming, j);
        lemma_untouched_unlinked(arcs, n, edge(n, j, incoming).0, edge(n, j, incoming).1);
    }
}

} // verus!
