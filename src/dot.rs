use vstd::prelude::*;

use crate::text::{decimal, decimal_string, make_id};
use crate::{edges, NodeRef, PetriNet, Place, Transition};

verus! {

/// The text of an optional name.
pub open spec fn name_view(n: Option<String>) -> Option<Seq<char>> {
    match n {
        Some(s) => Some(s@),
        None => None,
    }
}

/// `k` token bullets.
pub open spec fn bullets(k: nat) -> Seq<char>
    decreases k,
{
    if k == 0 {
        seq![]
    } else {
        bullets((k - 1) as nat) + "\u{2022}"@
    }
}

/// How a place's tokens are drawn: nothing for none, one bullet per token
/// below five, the number from five on.
pub open spec fn token_label(m: nat) -> Option<Seq<char>> {
    if m == 0 {
        None
    } else if m < 5 {
        Some(bullets(m))
    } else {
        Some(decimal(m))
    }
}

pub open spec fn label_part(v: Option<Seq<char>>) -> Seq<char> {
    match v {
        Some(t) => "label=\""@ + t + "\" "@,
        None => seq![],
    }
}

pub open spec fn xlabel_part(v: Option<Seq<char>>) -> Seq<char> {
    match v {
        Some(t) => "xlabel=\""@ + t + "\" "@,
        None => seq![],
    }
}

/// One DOT node statement.
pub open spec fn dot_node(
    prefix: Seq<char>,
    index: nat,
    shape: Seq<char>,
    label: Option<Seq<char>>,
    caption: Option<Seq<char>>,
) -> Seq<char> {
    "    "@ + prefix + decimal(index) + " [shape=\""@ + shape + "\" "@ + label_part(label) + " "@
        + xlabel_part(caption) + "];\n"@
}

/// The node statements of the places, in index order.
pub open spec fn dot_places(places: Seq<Place>) -> Seq<char>
    decreases places.len(),
{
    if places.len() == 0 {
        seq![]
    } else {
        let p = places.last();
        dot_places(places.drop_last()) + dot_node(
            "p_"@,
            (places.len() - 1) as nat,
            "circle"@,
            token_label(p.marking as nat),
            name_view(p.name),
        )
    }
}

/// The node statements of the transitions, in index order.
pub open spec fn dot_transitions(transitions: Seq<Transition>) -> Seq<char>
    decreases transitions.len(),
{
    if transitions.len() == 0 {
        seq![]
    } else {
        dot_transitions(transitions.drop_last()) + dot_node(
            "t_"@,
            (transitions.len() - 1) as nat,
            "box"@,
            name_view(transitions.last().name),
            None,
        )
    }
}

/// The DOT identifier of a node.
pub open spec fn node_id(n: NodeRef) -> Seq<char> {
    match n {
        NodeRef::Place(p) => "p_"@ + decimal(p.index as nat),
        NodeRef::Transition(t) => "t_"@ + decimal(t.index as nat),
    }
}

/// The edge statement of one (source, sink, multiplicity) triple: none for
/// multiplicity zero, a label only above one.
pub open spec fn edge_line(e: (NodeRef, NodeRef, usize)) -> Seq<char> {
    if e.2 == 0 {
        seq![]
    } else {
        "    "@ + node_id(e.0) + " -> "@ + node_id(e.1) + (if e.2 > 1 {
            " [label=\""@ + decimal(e.2 as nat) + "\"]"@
        } else {
            seq![]
        }) + ";\n"@
    }
}

pub open spec fn dot_edges(es: Seq<(NodeRef, NodeRef, usize)>) -> Seq<char>
    decreases es.len(),
{
    if es.len() == 0 {
        seq![]
    } else {
        dot_edges(es.drop_last()) + edge_line(es.last())
    }
}

/// The DOT document of a net: places as circles, transitions as boxes,
/// then the transition -> place edges and the place -> transition edges.
pub open spec fn dot_document(net: PetriNet) -> Seq<char> {
    "digraph petrinet {\n"@ + dot_places(net.place_seq()) + dot_transitions(net.transition_seq())
        + dot_edges(edges(net.arc_seq(), true)) + dot_edges(edges(net.arc_seq(), false)) + "}"@
}

/// Appends `s`, or nothing for `None`, framed as `open` ... `"\" "`.
fn push_attr(out: &mut String, open: &str, v: &Option<String>)
    ensures
        final(out)@ == old(out)@ + match name_view(*v) {
            Some(t) => open@ + t + "\" "@,
            None => seq![],
        },
{
    match v {
        Some(t) => {
            out.append(open);
            out.append(t.as_str());
            out.append("\" ");
        },
        None => {
            assert(old(out)@ + seq![] =~= old(out)@);
        },
    }
}

pub fn format_dot_node(
    prefix: &str,
    index: usize,
    shape: &str,
    label: &Option<String>,
    caption: &Option<String>,
) -> (r: String)
    ensures
        r@ == dot_node(prefix@, index as nat, shape@, name_view(*label), name_view(*caption)),
{
    let mut line = String::from_str("    ");
    let id = make_id(prefix, index);
    line.append(id.as_str());
    line.append(" [shape=\"");
    line.append(shape);
    line.append("\" ");
    push_attr(&mut line, "label=\"", label);
    line.append(" ");
    push_attr(&mut line, "xlabel=\"", caption);
    line.append("];\n");
    assert(line@ =~= dot_node(
        prefix@,
        index as nat,
        shape@,
        name_view(*label),
        name_view(*caption),
    ));
    line
}

/// The bullets for `k` tokens.
fn bullet_string(k: usize) -> (r: String)
    ensures
        r@ == bullets(k as nat),
{
    let mut s = String::new();
    let mut i: usize = 0;
    while i < k
        invariant
            i <= k,
            s@ == bullets(i as nat),
        decreases k - i,
    {
        s.append("\u{2022}");
        i = i + 1;
    }
    s
}

fn node_id_string(n: NodeRef) -> (r: String)
    ensures
        r@ == node_id(n),
{
    match n {
        NodeRef::Place(p) => make_id("p_", p.index),
        NodeRef::Transition(t) => make_id("t_", t.index),
    }
}

impl PetriNet {
    /// The net as a DOT digraph.
    pub fn to_dot_string(&self) -> (r: String)
        ensures
            r@ == dot_document(*self),
    {
        let mut out = String::new();
        self.write_dot(&mut out);
        assert(out@ =~= dot_document(*self));
        out
    }

    fn write_dot(&self, out: &mut String)
        ensures
            final(out)@ == old(out)@ + dot_document(*self),
    {
        out.append("digraph petrinet {\n");
        self.write_dot_places(out);
        self.write_dot_transitions(out);
        self.write_dot_arcs(out);
        out.append("}");
        assert(final(out)@ =~= old(out)@ + dot_document(*self));
    }

    fn write_dot_places(&self, out: &mut String)
        ensures
            final(out)@ == old(out)@ + dot_places(self.place_seq()),
    {
        let ghost start = out@;
        let mut p: usize = 0;
        assert(self.places@.take(0) =~= Seq::<Place>::empty());
        while p < self.places.len()
            invariant
                p <= self.places@.len(),
                out@ == start + dot_places(self.places@.take(p as int)),
            decreases self.places@.len() - p,
        {
            let marking = self.places[p].marking;
            let label: Option<String> = if marking > 0 {
                if marking < 5 {
                    Some(bullet_string(marking))
                } else {
                    Some(decimal_string(marking as u128))
                }
            } else {
                None
            };
            assert(name_view(label) == token_label(marking as nat));
            let line = format_dot_node("p_", p, "circle", &label, &self.places[p].name);
            out.append(line.as_str());
            assert(self.places@.take(p as int + 1).drop_last() =~= self.places@.take(p as int));
            assert(self.places@.take(p as int + 1).last() == self.places@[p as int]);
            assert(out@ =~= start + dot_places(self.places@.take(p as int + 1)));
            p = p + 1;
        }
        assert(self.places@.take(self.places@.len() as int) =~= self.places@);
    }

    fn write_dot_transitions(&self, out: &mut String)
        ensures
            final(out)@ == old(out)@ + dot_transitions(self.transition_seq()),
    {
        let ghost start = out@;
        let mut t: usize = 0;
        assert(self.transitions@.take(0) =~= Seq::<Transition>::empty());
        while t < self.transitions.len()
            invariant
                t <= self.transitions@.len(),
                out@ == start + dot_transitions(self.transitions@.take(t as int)),
            decreases self.transitions@.len() - t,
        {
            let line = format_dot_node("t_", t, "box", &self.transitions[t].name, &None);
            out.append(line.as_str());
            assert(self.transitions@.take(t as int + 1).drop_last() =~= self.transitions@.take(
                t as int,
            ));
            assert(self.transitions@.take(t as int + 1).last() == self.transitions@[t as int]);
            assert(out@ =~= start + dot_transitions(self.transitions@.take(t as int + 1)));
            t = t + 1;
        }
        assert(self.transitions@.take(self.transitions@.len() as int) =~= self.transitions@);
    }

    fn write_dot_arcs(&self, out: &mut String)
        ensures
            final(out)@ == old(out)@ + dot_edges(edges(self.arc_seq(), true)) + dot_edges(
                edges(self.arc_seq(), false),
            ),
    {
        let (tp, pt) = self.arcs_partitioned();
        write_dot_edges(out, &tp);
        write_dot_edges(out, &pt);
        assert(final(out)@ =~= old(out)@ + dot_edges(edges(self.arc_seq(), true)) + dot_edges(
            edges(self.arc_seq(), false),
        ));
    }
}

fn write_dot_edges(out: &mut String, es: &Vec<(NodeRef, NodeRef, usize)>)
    ensures
        final(out)@ == old(out)@ + dot_edges(es@),
{
    let ghost start = out@;
    let mut i: usize = 0;
    assert(es@.take(0) =~= Seq::<(NodeRef, NodeRef, usize)>::empty());
    assert(start + seq![] =~= start);
    while i < es.len()
        invariant
            i <= es@.len(),
            out@ == start + dot_edges(es@.take(i as int)),
        decreases es@.len() - i,
    {
        let (a, b, mult) = es[i];
        let ghost before = out@;
        if mult > 0 {
            out.append("    ");
            out.append(node_id_string(a).as_str());
            out.append(" -> ");
            out.append(node_id_string(b).as_str());
            if mult > 1 {
                out.append(" [label=\"");
                out.append(decimal_string(mult as u128).as_str());
                out.append("\"]");
            }
            out.append(";\n");
        }
        assert(out@ =~= before + edge_line(es@[i as int]));
        assert(es@.take(i as int + 1).drop_last() =~= es@.take(i as int));
        assert(es@.take(i as int + 1).last() == es@[i as int]);
        assert(out@ =~= start + dot_edges(es@.take(i as int + 1)));
        i = i + 1;
    }
    assert(es@.take(es@.len() as int) =~= es@);
}

} // verus!
