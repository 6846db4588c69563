use vstd::prelude::*;

use crate::text::{decimal, decimal_string, make_id};
use crate::{lists, NodeRef, PetriNet, Place, PlaceRef, TransitionRef};

verus! {

/// The items separated by `",\n"`.
pub open spec fn joined(items: Seq<Seq<char>>) -> Seq<char>
    decreases items.len(),
{
    if items.len() == 0 {
        seq![]
    } else if items.len() == 1 {
        items[0]
    } else {
        joined(items.drop_last()) + ",\n"@ + items.last()
    }
}

/// The `PLACE` section: every place, comma separated, the last one closed
/// by a semicolon; nothing for a net without places.
pub open spec fn lola_places(places: Seq<Place>) -> Seq<char> {
    if places.len() == 0 {
        seq![]
    } else {
        "PLACE\n"@ + place_lines((places.len() - 1) as nat) + "    "@ + "p_"@ + decimal(
            (places.len() - 1) as nat,
        ) + ";\n\n"@
    }
}

/// The lines of the places `0..k`, each followed by a comma.
pub open spec fn place_lines(k: nat) -> Seq<char>
    decreases k,
{
    if k == 0 {
        seq![]
    } else {
        place_lines((k - 1) as nat) + "    "@ + "p_"@ + decimal((k - 1) as nat) + ",\n"@
    }
}

/// One `p_i : n` item.
pub open spec fn lola_item(index: nat, n: nat) -> Seq<char> {
    "    "@ + "p_"@ + decimal(index) + " : "@ + decimal(n)
}

/// The marking items of the places that hold tokens, in index order.
pub open spec fn marked(places: Seq<Place>) -> Seq<Seq<char>>
    decreases places.len(),
{
    if places.len() == 0 {
        seq![]
    } else {
        let prev = marked(places.drop_last());
        let m = places.last().marking;
        if m > 0 {
            prev.push(lola_item((places.len() - 1) as nat, m as nat))
        } else {
            prev
        }
    }
}

/// The `MARKING` section; nothing for a net without places.
pub open spec fn lola_markings(places: Seq<Place>) -> Seq<char> {
    if places.len() == 0 {
        seq![]
    } else {
        "MARKING\n"@ + joined(marked(places)) + ";\n\n"@
    }
}

/// The items of the (place index, weight) pairs with a positive weight.
pub open spec fn lola_entries(m: Seq<(nat, nat)>) -> Seq<Seq<char>>
    decreases m.len(),
{
    if m.len() == 0 {
        seq![]
    } else {
        let prev = lola_entries(m.drop_last());
        let e = m.last();
        if e.1 > 0 {
            prev.push(lola_item(e.0, e.1))
        } else {
            prev
        }
    }
}

/// A `CONSUME` or `PRODUCE` block: omitted when it has no item.
pub open spec fn lola_section(head: Seq<char>, items: Seq<Seq<char>>) -> Seq<char> {
    if items.len() == 0 {
        seq![]
    } else {
        head + joined(items) + ";\n"@
    }
}

/// The block of transition `t`: what it consumes from its preset and
/// produces into its postset.
pub open spec fn lola_transition(net: PetriNet, t: nat) -> Seq<char> {
    let n = NodeRef::Transition(TransitionRef { index: t as usize });
    "TRANSITION "@ + "t_"@ + decimal(t) + "\n"@ + lola_section(
        "  CONSUME\n"@,
        lola_entries(net.adjacent(n, true)),
    ) + lola_section("  PRODUCE\n"@, lola_entries(net.adjacent(n, false)))
}

/// The blocks of the transitions `0..k`.
pub open spec fn lola_transitions(net: PetriNet, k: nat) -> Seq<char>
    decreases k,
{
    if k == 0 {
        seq![]
    } else {
        lola_transitions(net, (k - 1) as nat) + lola_transition(net, (k - 1) as nat)
    }
}

/// The LoLA model of a net.
pub open spec fn lola_document(net: PetriNet) -> Seq<char> {
    lola_places(net.place_seq()) + lola_markings(net.place_seq()) + lola_transitions(
        net,
        net.transition_seq().len(),
    )
}

/// Appends `item` to a `",\n"` separated list that so far holds `items`.
fn push_item(out: &mut String, item: &str, first: bool, Ghost(items): Ghost<Seq<Seq<char>>>)
    requires
        old(out)@ == joined(items),
        first == (items.len() == 0),
    ensures
        final(out)@ == joined(items.push(item@)),
{
    let ghost grown = items.push(item@);
    assert(grown.drop_last() =~= items);
    if !first {
        out.append(",\n");
    } else {
        assert(old(out)@ =~= seq![]);
    }
    out.append(item);
    assert(final(out)@ =~= joined(grown));
}

fn lola_item_string(index: usize, n: u128) -> (r: String)
    ensures
        r@ == lola_item(index as nat, n as nat),
{
    let mut s = String::from_str("    ");
    s.append(make_id("p_", index).as_str());
    s.append(" : ");
    s.append(decimal_string(n).as_str());
    assert(s@ =~= lola_item(index as nat, n as nat));
    s
}

/// Appends the block `head` with the positive-weight items of `v`, if any.
fn write_lola_section(
    out: &mut String,
    head: &str,
    v: &Vec<(PlaceRef, u128)>,
    Ghost(m): Ghost<Seq<(nat, nat)>>,
)
    requires
        lists(v@, m),
    ensures
        final(out)@ == old(out)@ + lola_section(head@, lola_entries(m)),
{
    let mut body = String::new();
    let mut first = true;
    let mut i: usize = 0;
    assert(m.take(0) =~= Seq::<(nat, nat)>::empty());
    while i < v.len()
        invariant
            i <= v@.len(),
            lists(v@, m),
            body@ == joined(lola_entries(m.take(i as int))),
            first == (lola_entries(m.take(i as int)).len() == 0),
        decreases v@.len() - i,
    {
        let (p, mult) = v[i];
        assert(m.take(i as int + 1).drop_last() =~= m.take(i as int));
        assert(m.take(i as int + 1).last() == m[i as int]);
        if mult > 0 {
            let item = lola_item_string(p.index, mult);
            push_item(&mut body, item.as_str(), first, Ghost(lola_entries(m.take(i as int))));
            first = false;
        }
        i = i + 1;
    }
    assert(m.take(v@.len() as int) =~= m);
    if !first {
        out.append(head);
        out.append(body.as_str());
        out.append(";\n");
        assert(final(out)@ =~= old(out)@ + lola_section(head@, lola_entries(m)));
    } else {
        assert(old(out)@ + seq![] =~= old(out)@);
    }
}

impl PetriNet {
    /// The net as a LoLA model.
    pub fn to_lola_string(&self) -> (r: String)
        ensures
            r@ == lola_document(*self),
    {
        let mut out = String::new();
        self.write_lola(&mut out);
        assert(out@ =~= lola_document(*self));
        out
    }

    fn write_lola(&self, out: &mut String)
        ensures
            final(out)@ == old(out)@ + lola_document(*self),
    {
        self.write_lola_places(out);
        self.write_lola_markings(out);
        self.write_lola_transitions(out);
        assert(final(out)@ =~= old(out)@ + lola_document(*self));
    }

    /// ```text
    /// PLACE
    ///     p_0,
    ///     ..
    ///     p_n;
    /// ```
    fn write_lola_places(&self, out: &mut String)
        ensures
            final(out)@ == old(out)@ + lola_places(self.place_seq()),
    {
        if self.places.len() == 0 {
            assert(old(out)@ + seq![] =~= old(out)@);
            return ;
        }
        out.append("PLACE\n");
        let ghost start = out@;
        let last = self.places.len() - 1;
        let mut place: usize = 0;
        while place < last
            invariant
                place <= last,
                out@ == start + place_lines(place as nat),
            decreases last - place,
        {
            out.append("    ");
            out.append(make_id("p_", place).as_str());
            out.append(",\n");
            assert(out@ =~= start + place_lines(place as nat + 1));
            place = place + 1;
        }
        // the last line has a semicolon
        out.append("    ");
        out.append(make_id("p_", last).as_str());
        out.append(";\n\n");
        assert(final(out)@ =~= old(out)@ + lola_places(self.place_seq()));
    }

    /// ```text
    /// MARKING
    ///     p_5 : 4,
    ///     p_25 : 1;
    /// ```
    fn write_lola_markings(&self, out: &mut String)
        ensures
            final(out)@ == old(out)@ + lola_markings(self.place_seq()),
    {
        if self.places.len() == 0 {
            assert(old(out)@ + seq![] =~= old(out)@);
            return ;
        }
        let mut body = String::new();
        let mut first = true;
        let mut place: usize = 0;
        assert(self.places@.take(0) =~= Seq::<Place>::empty());
        while place < self.places.len()
            invariant
                place <= self.places@.len(),
                body@ == joined(marked(self.places@.take(place as int))),
                first == (marked(self.places@.take(place as int)).len() == 0),
            decreases self.places@.len() - place,
        {
            let marking = self.places[place].marking;
            assert(self.places@.take(place as int + 1).drop_last() =~= self.places@.take(
                place as int,
            ));
            assert(self.places@.take(place as int + 1).last() == self.places@[place as int]);
            if marking > 0 {
                let item = lola_item_string(place, marking as u128);
                push_item(
                    &mut body,
                    item.as_str(),
                    first,
                    Ghost(marked(self.places@.take(place as int))),
                );
                first = false;
            }
            place = place + 1;
        }
        assert(self.places@.take(self.places@.len() as int) =~= self.places@);
        out.append("MARKING\n");
        out.append(body.as_str());
        out.append(";\n\n");
        assert(final(out)@ =~= old(out)@ + lola_markings(self.place_seq()));
    }

    fn write_lola_transition(&self, out: &mut String, t: usize)
        requires
            t < self.transition_seq().len(),
        ensures
            final(out)@ == old(out)@ + lola_transition(*self, t as nat),
    {
        let tr = TransitionRef { index: t };
        let n = Ghost(NodeRef::Transition(tr));
        out.append("TRANSITION ");
        out.append(make_id("t_", t).as_str());
        out.append("\n");
        let consume = match tr.preset(self) {
            Ok(v) => v,
            Err(_) => Vec::new(),
        };
        write_lola_section(out, "  CONSUME\n", &consume, Ghost(self.adjacent(n@, true)));
        let produce = match tr.postset(self) {
            Ok(v) => v,
            Err(_) => Vec::new(),
        };
        write_lola_section(out, "  PRODUCE\n", &produce, Ghost(self.adjacent(n@, false)));
        assert(final(out)@ =~= old(out)@ + lola_transition(*self, t as nat));
    }

    /// ```text
    /// TRANSITION t_0
    ///   CONSUME
    ///     p_0 : 1,
    ///     p_1 : 2;
    ///   PRODUCE
    ///     p_15 : 182781;
    /// ```
    fn write_lola_transitions(&self, out: &mut String)
        ensures
            final(out)@ == old(out)@ + lola_transitions(*self, self.transition_seq().len()),
    {
        let ghost start = out@;
        let mut t: usize = 0;
        assert(start + seq![] =~= start);
        while t < self.transitions.len()
            invariant
                t <= self.transitions@.len(),
                out@ == start + lola_transitions(*self, t as nat),
            decreases self.transitions@.len() - t,
        {
            self.write_lola_transition(out, t);
            assert(out@ =~= start + lola_transitions(*self, t as nat + 1));
            t = t + 1;
        }
    }
}

} // verus!
