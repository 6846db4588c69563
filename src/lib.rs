use vstd::prelude::*;

mod error;
mod text;
mod dot;
mod lola;
mod pnml;
mod laws;

pub use crate::error::{description_text, PetriError};
pub use crate::laws::{
    arcs_added, follows, law_added_node_held, law_counts_match_calls, law_handles_persist, law_isolated_node, law_neighbour_listed,
    law_parallel_arcs_add_up, law_repeated_arcs_aggregate, mult_total, node_index, places_added,
    transitions_added, BuildStep,
};
pub use crate::lola::{
    joined, lola_document, lola_entries, lola_item, lola_markings, lola_places, lola_section,
    lola_transition, lola_transitions, marked, place_lines,
};
pub use crate::pnml::{
    accepted, arc_events, arcs_events, attrs_view, clean, items_view, name_events, open_plain,
    open_with_id, place_events, places_events, pnml_document, pnml_id, pnml_text, rendered,
    text_events, transition_events, transitions_events, XmlItem, XmlItemView,
};
pub use crate::text::{decimal, digit, make_id};
pub use crate::dot::{
    bullets, dot_document, dot_edges, dot_node, dot_places, dot_transitions, edge_line,
    format_dot_node, label_part, name_view, node_id, token_label, xlabel_part,
};

verus! {

pub type Result<T> = std::result::Result<T, PetriError>;

/// A place: an optional display name and a token count.
#[derive(Debug, Clone)]
pub struct Place {
    pub name: Option<String>,
    pub marking: usize,
}

/// A transition: an optional display name.
#[derive(Debug, Clone)]
pub struct Transition {
    pub name: Option<String>,
}

/// A directed, weighted edge between a place and a transition.
#[derive(Debug, Clone)]
pub struct Arc {
    pub name: Option<String>,
    pub source: NodeRef,
    pub sink: NodeRef,
    /// multiplicity: amount of tokens that get consumed/produced
    pub mult: usize,
}

/// A Petri net held in three append-only arenas.
///
/// Presets and postsets are not stored: they are computed from the arc
/// arena on every query (one pass over the arcs), so changing an arc's
/// multiplicity after it was added is reflected at once and no adjacency
/// bookkeeping can drift from the arcs. The price is a pass over all arcs
/// per query. Aggregated weights are `u128`, so that summing any number of
/// `usize` multiplicities cannot overflow.
#[derive(Debug, Clone)]
pub struct PetriNet {
    places: Vec<Place>,
    transitions: Vec<Transition>,
    arcs: Vec<Arc>,
}

#[derive(Debug, Clone, Copy, PartialEq, Eq, Hash, Structural)]
pub struct PlaceRef {
    pub index: usize,
}

#[derive(Debug, Clone, Copy, PartialEq, Eq, Hash, Structural)]
pub struct TransitionRef {
    pub index: usize,
}

#[derive(Debug, Clone, Copy, PartialEq, Eq, Hash, Structural)]
pub struct ArcRef {
    pub index: usize,
}

#[derive(Debug, Clone, Copy, PartialEq, Eq, Hash, Structural)]
pub enum NodeRef {
    Place(PlaceRef),
    Transition(TransitionRef),
}

/// True iff exactly one of the two nodes is a place.
pub open spec fn bipartite(a: NodeRef, b: NodeRef) -> bool {
    a is Place != b is Place
}

/// The error reported for a handle that names no stored node.
pub open spec fn missing(n: NodeRef) -> PetriError {
    match n {
        NodeRef::Place(_) => PetriError::PlaceNotFound,
        NodeRef::Transition(_) => PetriError::TransitionNotFound,
    }
}

impl PetriNet {
    pub open(crate) spec fn place_seq(&self) -> Seq<Place> {
        self.places@
    }

    pub open(crate) spec fn transition_seq(&self) -> Seq<Transition> {
        self.transitions@
    }

    pub open(crate) spec fn arc_seq(&self) -> Seq<Arc> {
        self.arcs@
    }

    /// The node is stored in this net.
    pub open(crate) spec fn holds(&self, n: NodeRef) -> bool {
        match n {
            NodeRef::Place(p) => p.index < self.places@.len(),
            NodeRef::Transition(t) => t.index < self.transitions@.len(),
        }
    }

    /// Every arc joins a stored place and a stored transition.
    pub open(crate) spec fn wf(&self) -> bool {
        forall|k: int| 0 <= k < self.arcs@.len() ==> self.arc_ok(#[trigger] self.arcs@[k])
    }

    /// The arc joins a stored place and a stored transition.
    pub open(crate) spec fn arc_ok(&self, a: Arc) -> bool {
        bipartite(a.source, a.sink) && self.holds(a.source) && self.holds(a.sink)
    }

    /// Growing the arenas, keeping the endpoints of the existing arcs and
    /// appending only arcs that join stored nodes, keeps a net well formed.
    proof fn lemma_wf_kept(before: PetriNet, after: PetriNet)
        requires
            before.wf(),
            before.places@.len() <= after.places@.len(),
            before.transitions@.len() <= after.transitions@.len(),
            before.arcs@.len() <= after.arcs@.len(),
            forall|k: int|
                0 <= k < before.arcs@.len() ==> (#[trigger] after.arcs@[k]).source
                    == before.arcs@[k].source && after.arcs@[k].sink == before.arcs@[k].sink,
            forall|k: int|
                before.arcs@.len() <= k < after.arcs@.len() ==> after.arc_ok(
                    #[trigger] after.arcs@[k],
                ),
        ensures
            after.wf(),
    {
        assert forall|k: int| 0 <= k < after.arcs@.len() implies after.arc_ok(
            #[trigger] after.arcs@[k],
        ) by {
            if k < before.arcs@.len() {
                assert(before.arc_ok(before.arcs@[k]));
            }
        }
    }

    pub fn new() -> (r: Self)
        ensures
            r.wf(),
            r.place_seq().len() == 0,
            r.transition_seq().len() == 0,
            r.arc_seq().len() == 0,
    {
        PetriNet { places: Vec::new(), transitions: Vec::new(), arcs: Vec::new() }
    }

    /// Appends an unnamed place without tokens.
    pub fn add_place(&mut self) -> (r: NodeRef)
        requires
            old(self).wf(),
        ensures
            final(self).wf(),
            final(self).place_seq() == old(self).place_seq().push(Place { name: None, marking: 0 }),
            final(self).transition_seq() == old(self).transition_seq(),
            final(self).arc_seq() == old(self).arc_seq(),
            r == NodeRef::Place(PlaceRef { index: old(self).place_seq().len() as usize }),
            follows(*old(self), BuildStep::AddPlace, *final(self)),
    {
        self.places.push(Place { name: None, marking: 0 });
        let r = NodeRef::Place(PlaceRef { index: self.places.len() - 1 });
        proof {
            PetriNet::lemma_wf_kept(*old(self), *self);
        }
        r
    }

    /// Appends an unnamed transition.
    pub fn add_transition(&mut self) -> (r: NodeRef)
        requires
            old(self).wf(),
        ensures
            final(self).wf(),
            final(self).place_seq() == old(self).place_seq(),
            final(self).transition_seq() == old(self).transition_seq().push(
                Transition { name: None },
            ),
            final(self).arc_seq() == old(self).arc_seq(),
            r == NodeRef::Transition(TransitionRef { index: old(self).transition_seq().len() as usize }),
            follows(*old(self), BuildStep::AddTransition, *final(self)),
    {
        self.transitions.push(Transition { name: None });
        let r = NodeRef::Transition(TransitionRef { index: self.transitions.len() - 1 });
        proof {
            PetriNet::lemma_wf_kept(*old(self), *self);
        }
        r
    }

    fn check_node(&self, n: NodeRef) -> (r: Result<()>)
        ensures
            r is Ok <==> self.holds(n),
            r is Err ==> r == Err::<(), PetriError>(missing(n)),
    {
        match n {
            NodeRef::Place(p) => if p.index < self.places.len() {
                Ok(())
            } else {
                Err(PetriError::PlaceNotFound)
            },
            NodeRef::Transition(t) => if t.index < self.transitions.len() {
                Ok(())
            } else {
                Err(PetriError::TransitionNotFound)
            },
        }
    }

    /// Adds an arc of multiplicity one from `source` to `sink`.
    ///
    /// Both handles are checked before anything is stored: a same-kind pair
    /// gives `BipartitionViolation`, then a handle that names no node of this
    /// net gives `PlaceNotFound` or `TransitionNotFound` (source first).
    /// On failure the net is left as it was.
    pub fn add_arc(&mut self, source: NodeRef, sink: NodeRef) -> (r: Result<ArcRef>)
        requires
            old(self).wf(),
        ensures
            final(self).wf(),
            !bipartite(source, sink) ==> r == Err::<ArcRef, PetriError>(
                PetriError::BipartitionViolation,
            ),
            bipartite(source, sink) && !old(self).holds(source) ==> r == Err::<ArcRef, PetriError>(
                missing(source),
            ),
            bipartite(source, sink) && old(self).holds(source) && !old(self).holds(sink) ==> r
                == Err::<ArcRef, PetriError>(missing(sink)),
            r is Ok <==> bipartite(source, sink) && old(self).holds(source) && old(self).holds(
                sink,
            ),
            r is Ok ==> r == Ok::<ArcRef, PetriError>(ArcRef { index: old(self).arc_seq().len() as usize }),
            r is Ok ==> final(self).arc_seq() == old(self).arc_seq().push(
                Arc { name: None, source, sink, mult: 1 },
            ),
            r is Ok ==> follows(*old(self), BuildStep::AddArc(source, sink), *final(self)),
            r is Err ==> final(self).arc_seq() == old(self).arc_seq(),
            final(self).place_seq() == old(self).place_seq(),
            final(self).transition_seq() == old(self).transition_seq(),
    {
        check_bipartition(source, sink)?;
        self.check_node(source)?;
        self.check_node(sink)?;
        self.arcs.push(Arc { name: None, source, sink, mult: 1 });
        proof {
            PetriNet::lemma_wf_kept(*old(self), *self);
        }
        Ok(ArcRef { index: self.arcs.len() - 1 })
    }
}

/// Summed multiplicity of the arcs in `arcs` that lead from `src` to `dst`.
pub open spec fn flow(arcs: Seq<Arc>, src: NodeRef, dst: NodeRef) -> nat
    decreases arcs.len(),
{
    if arcs.len() == 0 {
        0
    } else {
        let a = arcs.last();
        flow(arcs.drop_last(), src, dst) + if a.source == src && a.sink == dst {
            a.mult as nat
        } else {
            0
        }
    }
}

/// Some arc in `arcs` leads from `src` to `dst`.
pub open spec fn linked(arcs: Seq<Arc>, src: NodeRef, dst: NodeRef) -> bool
    decreases arcs.len(),
{
    arcs.len() > 0 && (linked(arcs.drop_last(), src, dst) || (arcs.last().source == src
        && arcs.last().sink == dst))
}

/// The node of the other kind than `n` with index `j`.
pub open spec fn counterpart(n: NodeRef, j: nat) -> NodeRef {
    match n {
        NodeRef::Place(_) => NodeRef::Transition(TransitionRef { index: j as usize }),
        NodeRef::Transition(_) => NodeRef::Place(PlaceRef { index: j as usize }),
    }
}

/// The edge between `n` and its counterpart `j`: into `n` when `incoming`,
/// out of `n` otherwise.
pub open spec fn edge(n: NodeRef, j: nat, incoming: bool) -> (NodeRef, NodeRef) {
    if incoming {
        (counterpart(n, j), n)
    } else {
        (n, counterpart(n, j))
    }
}

/// The neighbours of `n` among the counterparts `0..upto`, in ascending
/// index order, each with the summed multiplicity of its arcs.
pub open spec fn neighbours(arcs: Seq<Arc>, n: NodeRef, incoming: bool, upto: nat) -> Seq<
    (nat, nat),
>
    decreases upto,
{
    if upto == 0 {
        seq![]
    } else {
        let j = (upto - 1) as nat;
        let prev = neighbours(arcs, n, incoming, j);
        let e = edge(n, j, incoming);
        if linked(arcs, e.0, e.1) {
            prev.push((j, flow(arcs, e.0, e.1)))
        } else {
            prev
        }
    }
}

impl PetriNet {
    /// How many nodes of the other kind than `n` the net holds.
    pub open(crate) spec fn counterpart_count(&self, n: NodeRef) -> nat {
        match n {
            NodeRef::Place(_) => self.transitions@.len(),
            NodeRef::Transition(_) => self.places@.len(),
        }
    }

    /// The preset (`incoming`) or postset of `n`, as (index, weight) pairs.
    pub open(crate) spec fn adjacent(&self, n: NodeRef, incoming: bool) -> Seq<(nat, nat)> {
        neighbours(self.arcs@, n, incoming, self.counterpart_count(n))
    }

    /// One pass over the arcs: for each counterpart `j` of `n`, the summed
    /// multiplicity of the arcs on `edge(n, j, incoming)` and whether any exists.
    fn tally(&self, n: NodeRef, incoming: bool) -> (r: (Vec<u128>, Vec<bool>))
        ensures
            r.0@.len() == self.counterpart_count(n),
            r.1@.len() == self.counterpart_count(n),
            forall|j: int|
                0 <= j < self.counterpart_count(n) ==> {
                    let e = #[trigger] edge(n, j as nat, incoming);
                    r.0@[j] == flow(self.arcs@, e.0, e.1) && r.1@[j] == linked(
                        self.arcs@,
                        e.0,
                        e.1,
                    )
                },
    {
        let count: usize = match n {
            NodeRef::Place(_) => self.transitions.len(),
            NodeRef::Transition(_) => self.places.len(),
        };
        let mut weights: Vec<u128> = Vec::new();
        let mut seen: Vec<bool> = Vec::new();
        let mut j: usize = 0;
        while j < count
            invariant
                j <= count,
                count == self.counterpart_count(n),
                weights@.len() == j,
                seen@.len() == j,
                forall|k: int| 0 <= k < j ==> weights@[k] == 0 && !seen@[k],
            decreases count - j,
        {
            weights.push(0);
            seen.push(false);
            j = j + 1;
        }
        let mut i: usize = 0;
        while i < self.arcs.len()
            invariant
                i <= self.arcs@.len(),
                count == self.counterpart_count(n),
                weights@.len() == count,
                seen@.len() == count,
                forall|k: int|
                    0 <= k < count ==> {
                        let e = #[trigger] edge(n, k as nat, incoming);
                        weights@[k] == flow(self.arcs@.take(i as int), e.0, e.1) && seen@[k]
                            == linked(self.arcs@.take(i as int), e.0, e.1)
                    },
                forall|k: int| 0 <= k < count ==> weights@[k] <= i * usize::MAX,
            decreases self.arcs@.len() - i,
        {
            let a = &self.arcs[i];
            let prefix = Ghost(self.arcs@.take(i as int));
            let next = Ghost(self.arcs@.take(i as int + 1));
            assert(next@.drop_last() =~= prefix@);
            assert(next@.last() == self.arcs@[i as int]);
            let here = if incoming {
                a.sink
            } else {
                a.source
            };
            let there = if incoming {
                a.source
            } else {
                a.sink
            };
            let hit: Option<usize> = if here == n {
                match (n, there) {
                    (NodeRef::Place(_), NodeRef::Transition(t)) => if t.index < count {
                        Some(t.index)
                    } else {
                        None
                    },
                    (NodeRef::Transition(_), NodeRef::Place(p)) => if p.index < count {
                        Some(p.index)
                    } else {
                        None
                    },
                    _ => None,
                }
            } else {
                None
            };
            assert forall|k: int| 0 <= k < count && hit != Some(k as usize) implies {
                let e = #[trigger] edge(n, k as nat, incoming);
                !(a.source == e.0 && a.sink == e.1)
            } by {}
            match hit {
                Some(k) => {
                    let e = Ghost(edge(n, k as nat, incoming));
                    assert(a.source == e@.0 && a.sink == e@.1);
                    let old_w = weights[k];
                    assert(old_w <= i * usize::MAX);
                    assert(i + 1 <= usize::MAX);
                    assert(old_w + a.mult <= (i + 1) * usize::MAX) by (nonlinear_arith)
                        requires
                            old_w <= i * usize::MAX,
                            a.mult <= usize::MAX,
                    ;
                    assert((i + 1) * usize::MAX <= usize::MAX * usize::MAX) by (nonlinear_arith)
                        requires
                            i + 1 <= usize::MAX,
                    ;
                    assert(usize::MAX * usize::MAX <= u128::MAX) by (nonlinear_arith)
                        requires
                            usize::MAX <= u64::MAX,
                    ;
                    weights.set(k, old_w + a.mult as u128);
                    seen.set(k, true);
                },
                None => {},
            }
            proof {
                assert forall|k: int| 0 <= k < count implies weights@[k] <= (i + 1) * usize::MAX by {
                    assert(i * usize::MAX <= (i + 1) * usize::MAX) by (nonlinear_arith);
                }
            }
            i = i + 1;
        }
        assert(self.arcs@.take(self.arcs@.len() as int) =~= self.arcs@);
        (weights, seen)
    }
}

/// A handle into one of the node arenas.
pub trait ArenaHandle: Sized {
    spec fn arena_index(&self) -> nat;

    fn at(index: usize) -> (r: Self)
        ensures
            r.arena_index() == index as nat,
    ;
}

impl ArenaHandle for PlaceRef {
    open spec fn arena_index(&self) -> nat {
        self.index as nat
    }

    fn at(index: usize) -> (r: Self) {
        PlaceRef { index }
    }
}

impl ArenaHandle for TransitionRef {
    open spec fn arena_index(&self) -> nat {
        self.index as nat
    }

    fn at(index: usize) -> (r: Self) {
        TransitionRef { index }
    }
}

/// The counterparts whose flag in `seen` is set, in index order, as
/// handles with their weights.
fn gather<H: ArenaHandle>(
    weights: &Vec<u128>,
    seen: &Vec<bool>,
    Ghost(arcs): Ghost<Seq<Arc>>,
    Ghost(n): Ghost<NodeRef>,
    Ghost(incoming): Ghost<bool>,
) -> (r: Vec<(H, u128)>)
    requires
        weights@.len() == seen@.len(),
        forall|j: int|
            0 <= j < weights@.len() ==> {
                let e = #[trigger] edge(n, j as nat, incoming);
                weights@[j] == flow(arcs, e.0, e.1) && seen@[j] == linked(arcs, e.0, e.1)
            },
    ensures
        lists(r@, neighbours(arcs, n, incoming, weights@.len() as nat)),
{
    let mut out: Vec<(H, u128)> = Vec::new();
    let mut j: usize = 0;
    while j < weights.len()
        invariant
            j <= weights@.len(),
            weights@.len() == seen@.len(),
            forall|k: int|
                0 <= k < weights@.len() ==> {
                    let e = #[trigger] edge(n, k as nat, incoming);
                    weights@[k] == flow(arcs, e.0, e.1) && seen@[k] == linked(arcs, e.0, e.1)
                },
            lists(out@, neighbours(arcs, n, incoming, j as nat)),
        decreases weights@.len() - j,
    {
        if seen[j] {
            out.push((H::at(j), weights[j]));
        }
        j = j + 1;
    }
    out
}

/// `r` lists, in order, the (index, weight) pairs of `m`.
pub open spec fn lists<H: ArenaHandle>(r: Seq<(H, u128)>, m: Seq<(nat, nat)>) -> bool {
    r.len() == m.len() && forall|i: int|
        0 <= i < r.len() ==> r[i].0.arena_index() == m[i].0 && r[i].1 == m[i].1
}

impl PlaceRef {
    /// Sets the place's token count.
    pub fn marking(self, net: &mut PetriNet, marking: usize) -> (r: Result<()>)
        requires
            old(net).wf(),
        ensures
            final(net).wf(),
            r is Ok <==> self.index < old(net).place_seq().len(),
            r is Err ==> r == Err::<(), PetriError>(PetriError::PlaceNotFound) && *final(net)
                == *old(net),
            r is Ok ==> final(net).place_seq() == old(net).place_seq().update(
                self.index as int,
                Place { name: old(net).place_seq()[self.index as int].name, marking },
            ),
            final(net).transition_seq() == old(net).transition_seq(),
            final(net).arc_seq() == old(net).arc_seq(),
    {
        if self.index >= net.places.len() {
            return Err(PetriError::PlaceNotFound);
        }
        let name = net.places[self.index].name.clone();
        net.places.set(self.index, Place { name, marking });
        Ok(())
    }

    /// The transitions with an arc into this place, in ascending index
    /// order, each with the summed multiplicity of those arcs.
    pub fn preset(&self, net: &PetriNet) -> (r: Result<Vec<(TransitionRef, u128)>>)
        ensures
            r is Ok <==> self.index < net.place_seq().len(),
            r is Err ==> r == Err::<Vec<(TransitionRef, u128)>, PetriError>(
                PetriError::PlaceNotFound,
            ),
            r matches Ok(v) ==> lists(v@, net.adjacent(NodeRef::Place(*self), true)),
    {
        if self.index >= net.places.len() {
            return Err(PetriError::PlaceNotFound);
        }
        let n = NodeRef::Place(*self);
        let (weights, seen) = net.tally(n, true);
        Ok(
            gather(
                &weights,
                &seen,
                Ghost(net.arcs@),
                Ghost(n),
                Ghost(true),
            ),
        )
    }

    /// The transitions with an arc out of this place, in ascending index
    /// order, each with the summed multiplicity of those arcs.
    pub fn postset(&self, net: &PetriNet) -> (r: Result<Vec<(TransitionRef, u128)>>)
        ensures
            r is Ok <==> self.index < net.place_seq().len(),
            r is Err ==> r == Err::<Vec<(TransitionRef, u128)>, PetriError>(
                PetriError::PlaceNotFound,
            ),
            r matches Ok(v) ==> lists(v@, net.adjacent(NodeRef::Place(*self), false)),
    {
        if self.index >= net.places.len() {
            return Err(PetriError::PlaceNotFound);
        }
        let n = NodeRef::Place(*self);
        let (weights, seen) = net.tally(n, false);
        Ok(
            gather(
                &weights,
                &seen,
                Ghost(net.arcs@),
                Ghost(n),
                Ghost(false),
            ),
        )
    }
}

impl TransitionRef {
    /// The places with an arc into this transition, in ascending index
    /// order, each with the summed multiplicity of those arcs.
    pub fn preset(&self, net: &PetriNet) -> (r: Result<Vec<(PlaceRef, u128)>>)
        ensures
            r is Ok <==> self.index < net.transition_seq().len(),
            r is Err ==> r == Err::<Vec<(PlaceRef, u128)>, PetriError>(
                PetriError::TransitionNotFound,
            ),
            r matches Ok(v) ==> lists(v@, net.adjacent(NodeRef::Transition(*self), true)),
    {
        if self.index >= net.transitions.len() {
            return Err(PetriError::TransitionNotFound);
        }
        let n = NodeRef::Transition(*self);
        let (weights, seen) = net.tally(n, true);
        Ok(
            gather(
                &weights,
                &seen,
                Ghost(net.arcs@),
                Ghost(n),
                Ghost(true),
            ),
        )
    }

    /// The places with an arc out of this transition, in ascending index
    /// order, each with the summed multiplicity of those arcs.
    pub fn postset(&self, net: &PetriNet) -> (r: Result<Vec<(PlaceRef, u128)>>)
        ensures
            r is Ok <==> self.index < net.transition_seq().len(),
            r is Err ==> r == Err::<Vec<(PlaceRef, u128)>, PetriError>(
                PetriError::TransitionNotFound,
            ),
            r matches Ok(v) ==> lists(v@, net.adjacent(NodeRef::Transition(*self), false)),
    {
        if self.index >= net.transitions.len() {
            return Err(PetriError::TransitionNotFound);
        }
        let n = NodeRef::Transition(*self);
        let (weights, seen) = net.tally(n, false);
        Ok(
            gather(
                &weights,
                &seen,
                Ghost(net.arcs@),
                Ghost(n),
                Ghost(false),
            ),
        )
    }
}

impl NodeRef {
    /// Sets the display name of the place or transition.
    pub fn name(self, net: &mut PetriNet, name: String) -> (r: Result<()>)
        requires
            old(net).wf(),
        ensures
            final(net).wf(),
            r is Ok <==> old(net).holds(self),
            r is Err ==> r == Err::<(), PetriError>(missing(self)) && *final(net) == *old(net),
            r is Ok && self is Place ==> final(net).place_seq() == old(net).place_seq().update(
                self->Place_0.index as int,
                Place {
                    name: Some(name),
                    marking: old(net).place_seq()[self->Place_0.index as int].marking,
                },
            ) && final(net).transition_seq() == old(net).transition_seq(),
            r is Ok && self is Transition ==> final(net).transition_seq()
                == old(net).transition_seq().update(
                self->Transition_0.index as int,
                Transition { name: Some(name) },
            ) && final(net).place_seq() == old(net).place_seq(),
            final(net).arc_seq() == old(net).arc_seq(),
    {
        match self {
            NodeRef::Place(p) => {
                if p.index >= net.places.len() {
                    return Err(PetriError::PlaceNotFound);
                }
                let marking = net.places[p.index].marking;
                net.places.set(p.index, Place { name: Some(name), marking });
            },
            NodeRef::Transition(t) => {
                if t.index >= net.transitions.len() {
                    return Err(PetriError::TransitionNotFound);
                }
                net.transitions.set(t.index, Transition { name: Some(name) });
            },
        }
        Ok(())
    }
}

impl ArcRef {
    /// Sets the display name of the arc.
    pub fn name(self, net: &mut PetriNet, name: String) -> (r: Result<()>)
        requires
            old(net).wf(),
        ensures
            final(net).wf(),
            r is Ok <==> self.index < old(net).arc_seq().len(),
            r is Err ==> r == Err::<(), PetriError>(PetriError::ArcNotFound) && *final(net)
                == *old(net),
            r is Ok ==> final(net).arc_seq() == old(net).arc_seq().update(
                self.index as int,
                Arc { name: Some(name), ..old(net).arc_seq()[self.index as int] },
            ),
            final(net).place_seq() == old(net).place_seq(),
            final(net).transition_seq() == old(net).transition_seq(),
    {
        if self.index >= net.arcs.len() {
            return Err(PetriError::ArcNotFound);
        }
        let source = net.arcs[self.index].source;
        let sink = net.arcs[self.index].sink;
        let mult = net.arcs[self.index].mult;
        net.arcs.set(self.index, Arc { name: Some(name), source, sink, mult });
        proof {
            PetriNet::lemma_wf_kept(*old(net), *net);
        }
        Ok(())
    }

    /// Overwrites the arc's multiplicity; presets and postsets reflect it at
    /// once. A multiplicity of zero keeps the arc but exporters draw no edge
    /// for it.
    pub fn multiplicity(self, net: &mut PetriNet, mult: usize) -> (r: Result<()>)
        requires
            old(net).wf(),
        ensures
            final(net).wf(),
            r is Ok <==> self.index < old(net).arc_seq().len(),
            r is Err ==> r == Err::<(), PetriError>(PetriError::ArcNotFound) && *final(net)
                == *old(net),
            r is Ok ==> final(net).arc_seq() == old(net).arc_seq().update(
                self.index as int,
                Arc { mult, ..old(net).arc_seq()[self.index as int] },
            ),
            final(net).place_seq() == old(net).place_seq(),
            final(net).transition_seq() == old(net).transition_seq(),
    {
        if self.index >= net.arcs.len() {
            return Err(PetriError::ArcNotFound);
        }
        let source = net.arcs[self.index].source;
        let sink = net.arcs[self.index].sink;
        let name = net.arcs[self.index].name.clone();
        net.arcs.set(self.index, Arc { name, source, sink, mult });
        proof {
            PetriNet::lemma_wf_kept(*old(net), *net);
        }
        Ok(())
    }
}

impl PlaceRef {
    /// Narrows a node handle to a place handle.
    pub fn try_from_node(node: NodeRef) -> (r: Result<PlaceRef>)
        ensures
            node is Place ==> r == Ok::<PlaceRef, PetriError>(node->Place_0),
            node is Transition ==> r matches Err(PetriError::InvalidData(_)),
    {
        match node {
            NodeRef::Transition(_) => Err(
                PetriError::InvalidData(
                    String::from_str("conversion from transition node to place reference"),
                ),
            ),
            NodeRef::Place(p) => Ok(p),
        }
    }
}

impl TransitionRef {
    /// Narrows a node handle to a transition handle.
    pub fn try_from_node(node: NodeRef) -> (r: Result<TransitionRef>)
        ensures
            node is Transition ==> r == Ok::<TransitionRef, PetriError>(node->Transition_0),
            node is Place ==> r matches Err(PetriError::InvalidData(_)),
    {
        match node {
            NodeRef::Place(_) => Err(
                PetriError::InvalidData(
                    String::from_str("conversion from place node to transition reference"),
                ),
            ),
            NodeRef::Transition(t) => Ok(t),
        }
    }
}

/// The (source, sink, multiplicity) triples of the arcs whose source is a
/// transition (`from_transitions`) or a place (otherwise), in arc order.
pub open spec fn edges(arcs: Seq<Arc>, from_transitions: bool) -> Seq<(NodeRef, NodeRef, usize)>
    decreases arcs.len(),
{
    if arcs.len() == 0 {
        seq![]
    } else {
        let prev = edges(arcs.drop_last(), from_transitions);
        let a = arcs.last();
        if (a.source is Transition) == from_transitions {
            prev.push((a.source, a.sink, a.mult))
        } else {
            prev
        }
    }
}

impl PetriNet {
    /// The places, in insertion order; a place's index is its position.
    pub fn places(&self) -> (r: &Vec<Place>)
        ensures
            r@ == self.place_seq(),
    {
        &self.places
    }

    /// The transitions, in insertion order; a transition's index is its position.
    pub fn transitions(&self) -> (r: &Vec<Transition>)
        ensures
            r@ == self.transition_seq(),
    {
        &self.transitions
    }

    /// The arcs, in insertion order; an arc's index is its position.
    pub fn arcs(&self) -> (r: &Vec<Arc>)
        ensures
            r@ == self.arc_seq(),
    {
        &self.arcs
    }

    /// Splits the arcs into transition -> place and place -> transition
    /// triples of (source, sink, multiplicity), each in arc order.
    pub fn arcs_partitioned(&self) -> (r: (
        Vec<(NodeRef, NodeRef, usize)>,
        Vec<(NodeRef, NodeRef, usize)>,
    ))
        ensures
            r.0@ == edges(self.arc_seq(), true),
            r.1@ == edges(self.arc_seq(), false),
    {
        let mut tp: Vec<(NodeRef, NodeRef, usize)> = Vec::new();
        let mut pt: Vec<(NodeRef, NodeRef, usize)> = Vec::new();
        let mut i: usize = 0;
        while i < self.arcs.len()
            invariant
                i <= self.arcs@.len(),
                tp@ == edges(self.arcs@.take(i as int), true),
                pt@ == edges(self.arcs@.take(i as int), false),
            decreases self.arcs@.len() - i,
        {
            let a = &self.arcs[i];
            assert(self.arcs@.take(i as int + 1).drop_last() =~= self.arcs@.take(i as int));
            assert(self.arcs@.take(i as int + 1).last() == self.arcs@[i as int]);
            match a.source {
                NodeRef::Transition(_) => tp.push((a.source, a.sink, a.mult)),
                NodeRef::Place(_) => pt.push((a.source, a.sink, a.mult)),
            }
            i = i + 1;
        }
        assert(self.arcs@.take(self.arcs@.len() as int) =~= self.arcs@);
        (tp, pt)
    }
}

/// Succeeds iff exactly one of `a` and `b` is a place.
pub fn check_bipartition(a: NodeRef, b: NodeRef) -> (r: Result<()>)
    ensures
        r is Ok <==> bipartite(a, b),
        r is Err ==> r == Err::<(), PetriError>(PetriError::BipartitionViolation),
{
    match a {
        NodeRef::Place(_) => match b {
            NodeRef::Place(_) => Err(PetriError::BipartitionViolation),
            NodeRef::Transition(_) => Ok(()),
        },
        NodeRef::Transition(_) => match b {
            NodeRef::Place(_) => Ok(()),
            NodeRef::Transition(_) => Err(PetriError::BipartitionViolation),
        },
    }
}

} // verus!
