use vstd::prelude::*;

use xml::writer::{EmitterConfig, EventWriter, XmlEvent};

use vstd::utf8::{decode_utf8, valid_utf8};

use crate::dot::name_view;
use crate::text::{decimal, decimal_string};
use crate::{make_id, Arc, NodeRef, PetriError, PetriNet, Place, Result, Transition};

verus! {

/// Relies on `xml::writer::EventWriter` of xml-rs, the event-driven XML
/// emitter; carried opaquely between the calls below.
#[verifier::external_type_specification]
#[verifier::external_body]
#[verifier::reject_recursive_types(W)]
pub struct ExEventWriter<W>(EventWriter<W>);

/// The events that an emitter has accepted so far, in order.
pub uninterp spec fn accepted(w: EventWriter<Vec<u8>>) -> Seq<XmlItemView>;

/// The emitter was made by `pnml_writer` and none of its writes failed.
pub uninterp spec fn clean(w: EventWriter<Vec<u8>>) -> bool;

/// The bytes that the indenting emitter of `pnml_writer` produces for a
/// sequence of events: a function of the events alone.
pub uninterp spec fn rendered(events: Seq<XmlItemView>) -> Seq<u8>;

/// Relies on `EmitterConfig::new`, `perform_indent` and `create_writer`:
/// an indenting emitter into an empty byte buffer, which has accepted
/// nothing yet.
#[verifier::external_body]
fn pnml_writer() -> (r: EventWriter<Vec<u8>>)
    ensures
        accepted(r) == Seq::<XmlItemView>::empty(),
        clean(r),
{
    EmitterConfig::new().perform_indent(true).create_writer(Vec::new())
}

/// Relies on `EventWriter::write` of a start element that declares the
/// given default namespace and carries the given attributes in order.
#[verifier::external_body]
fn xml_start_ns(
    w: &mut EventWriter<Vec<u8>>,
    name: &str,
    uri: &str,
    attrs: &Vec<(String, String)>,
) -> (r: std::result::Result<(), xml::writer::Error>)
    ensures
        r is Ok ==> clean(*final(w)) == clean(*old(w)) && accepted(*final(w)) == accepted(
            *old(w),
        ).push(XmlItemView::Start(name@, Some(uri@), attrs_view(attrs@))),
        r is Err ==> !clean(*final(w)),
{
    let event = attrs.iter().fold(
        XmlEvent::start_element(name).default_ns(uri),
        |e, (k, v)| e.attr(k.as_str(), v.as_str()),
    );
    w.write(event)
}

/// Relies on `EventWriter::write` of a start element carrying the given
/// attributes in order.
#[verifier::external_body]
fn xml_start(
    w: &mut EventWriter<Vec<u8>>,
    name: &str,
    attrs: &Vec<(String, String)>,
) -> (r: std::result::Result<(), xml::writer::Error>)
    ensures
        r is Ok ==> clean(*final(w)) == clean(*old(w)) && accepted(*final(w)) == accepted(
            *old(w),
        ).push(XmlItemView::Start(name@, None, attrs_view(attrs@))),
        r is Err ==> !clean(*final(w)),
{
    let event = attrs.iter().fold(
        XmlEvent::start_element(name),
        |e, (k, v)| e.attr(k.as_str(), v.as_str()),
    );
    w.write(event)
}

/// Relies on `EventWriter::write` of character data (escaped by the emitter).
#[verifier::external_body]
fn xml_text(w: &mut EventWriter<Vec<u8>>, text: &str) -> (r: std::result::Result<
    (),
    xml::writer::Error,
>)
    ensures
        r is Ok ==> clean(*final(w)) == clean(*old(w)) && accepted(*final(w)) == accepted(
            *old(w),
        ).push(XmlItemView::Text(text@)),
        r is Err ==> !clean(*final(w)),
{
    w.write(XmlEvent::characters(text))
}

/// Relies on `EventWriter::write` of the end of the innermost open element.
#[verifier::external_body]
fn xml_end(w: &mut EventWriter<Vec<u8>>) -> (r: std::result::Result<(), xml::writer::Error>)
    ensures
        r is Ok ==> clean(*final(w)) == clean(*old(w)) && accepted(*final(w)) == accepted(
            *old(w),
        ).push(XmlItemView::End),
        r is Err ==> !clean(*final(w)),
{
    w.write(XmlEvent::end_element())
}

/// Relies on `EventWriter::into_inner`: the buffer written so far, which
/// for a clean emitter is the rendering of the events it accepted.
#[verifier::external_body]
fn xml_finish(w: EventWriter<Vec<u8>>) -> (r: Vec<u8>)
    ensures
        clean(w) ==> r@ == rendered(accepted(w)),
{
    w.into_inner()
}

/// Relies on `String::from_utf8`: the decoded text of valid UTF-8, `None`
/// for anything else.
#[verifier::external_body]
fn utf8_text(bytes: Vec<u8>) -> (r: Option<String>)
    ensures
        r is Some <==> valid_utf8(bytes@),
        r matches Some(s) ==> s@ == decode_utf8(bytes@),
{
    String::from_utf8(bytes).ok()
}

/// The text of the PNML document that the emitter makes of `events`.
pub open spec fn pnml_text(events: Seq<XmlItemView>) -> Seq<char> {
    decode_utf8(rendered(events))
}

/// One event of an XML document.
pub enum XmlItem {
    /// An element opens, with an optional default namespace and its
    /// attributes in order.
    Start { name: String, namespace: Option<String>, attributes: Vec<(String, String)> },
    /// Character data.
    Text(String),
    /// The innermost open element closes.
    End,
}

/// The text of an `XmlItem`.
pub enum XmlItemView {
    Start(Seq<char>, Option<Seq<char>>, Seq<(Seq<char>, Seq<char>)>),
    Text(Seq<char>),
    End,
}

pub open spec fn attrs_view(a: Seq<(String, String)>) -> Seq<(Seq<char>, Seq<char>)> {
    a.map_values(|p: (String, String)| (p.0@, p.1@))
}

impl View for XmlItem {
    type V = XmlItemView;

    open spec fn view(&self) -> XmlItemView {
        match self {
            XmlItem::Start { name, namespace, attributes } => XmlItemView::Start(
                name@,
                name_view(*namespace),
                attrs_view(attributes@),
            ),
            XmlItem::Text(t) => XmlItemView::Text(t@),
            XmlItem::End => XmlItemView::End,
        }
    }
}

pub open spec fn items_view(s: Seq<XmlItem>) -> Seq<XmlItemView> {
    s.map_values(|x: XmlItem| x@)
}

pub open spec fn open_plain(name: Seq<char>) -> XmlItemView {
    XmlItemView::Start(name, None, seq![])
}

pub open spec fn open_with_id(name: Seq<char>, id: Seq<char>) -> XmlItemView {
    XmlItemView::Start(name, None, seq![("id"@, id)])
}

/// `<outer><text>t</text></outer>`
pub open spec fn text_events(outer: Seq<char>, t: Seq<char>) -> Seq<XmlItemView> {
    seq![
        open_plain(outer),
        open_plain("text"@),
        XmlItemView::Text(t),
        XmlItemView::End,
        XmlItemView::End,
    ]
}

/// The `<name>` child of an element, if it has a name.
pub open spec fn name_events(name: Option<Seq<char>>) -> Seq<XmlItemView> {
    match name {
        Some(t) => text_events("name"@, t),
        None => seq![],
    }
}

/// The PNML identifier of a node.
pub open spec fn pnml_id(n: NodeRef) -> Seq<char> {
    match n {
        NodeRef::Place(p) => "place_"@ + decimal(p.index as nat),
        NodeRef::Transition(t) => "transition_"@ + decimal(t.index as nat),
    }
}

pub open spec fn place_events(p: Place, i: nat) -> Seq<XmlItemView> {
    seq![open_with_id("place"@, "place_"@ + decimal(i))] + name_events(name_view(p.name)) + (if p.marking
        > 0 {
        text_events("initialMarking"@, decimal(p.marking as nat))
    } else {
        seq![]
    }) + seq![XmlItemView::End]
}

pub open spec fn transition_events(t: Transition, i: nat) -> Seq<XmlItemView> {
    seq![open_with_id("transition"@, "transition_"@ + decimal(i))] + name_events(name_view(t.name))
        + seq![XmlItemView::End]
}

pub open spec fn arc_events(a: Arc, i: nat) -> Seq<XmlItemView> {
    seq![
        XmlItemView::Start(
            "arc"@,
            None,
            seq![("source"@, pnml_id(a.source)), ("target"@, pnml_id(a.sink)), ("id"@, "arc_"@ + decimal(i))],
        ),
    ] + name_events(name_view(a.name)) + text_events("inscription"@, decimal(a.mult as nat))
        + seq![XmlItemView::End]
}

pub open spec fn places_events(places: Seq<Place>) -> Seq<XmlItemView>
    decreases places.len(),
{
    if places.len() == 0 {
        seq![]
    } else {
        places_events(places.drop_last()) + place_events(places.last(), (places.len() - 1) as nat)
    }
}

pub open spec fn transitions_events(ts: Seq<Transition>) -> Seq<XmlItemView>
    decreases ts.len(),
{
    if ts.len() == 0 {
        seq![]
    } else {
        transitions_events(ts.drop_last()) + transition_events(ts.last(), (ts.len() - 1) as nat)
    }
}

pub open spec fn arcs_events(arcs: Seq<Arc>) -> Seq<XmlItemView>
    decreases arcs.len(),
{
    if arcs.len() == 0 {
        seq![]
    } else {
        arcs_events(arcs.drop_last()) + arc_events(arcs.last(), (arcs.len() - 1) as nat)
    }
}

/// The PNML document of a net as XML events: one page of one net holding
/// every place, then every transition, then every arc, in index order.
pub open spec fn pnml_document(net: PetriNet) -> Seq<XmlItemView> {
    seq![
        XmlItemView::Start("pnml"@, Some("http://www.pnml.org/version-2009/grammar/pnml"@), seq![]),
        XmlItemView::Start(
            "net"@,
            None,
            seq![("id"@, "net0"@), ("type"@, "http://www.pnml.org/version-2009/grammar/ptnet"@)],
        ),
        open_with_id("page"@, "page0"@),
    ] + places_events(net.place_seq()) + transitions_events(net.transition_seq()) + arcs_events(
        net.arc_seq(),
    ) + seq![XmlItemView::End, XmlItemView::End, XmlItemView::End]
}

fn push_item(out: &mut Vec<XmlItem>, x: XmlItem)
    ensures
        items_view(final(out)@) == items_view(old(out)@).push(x@),
{
    let ghost v = x@;
    out.push(x);
    assert(items_view(final(out)@) =~= items_view(old(out)@).push(v));
}

fn push_open(out: &mut Vec<XmlItem>, name: &str, attributes: Vec<(String, String)>)
    ensures
        items_view(final(out)@) == items_view(old(out)@).push(
            XmlItemView::Start(name@, None, attrs_view(attributes@)),
        ),
{
    push_item(out, XmlItem::Start { name: String::from_str(name), namespace: None, attributes });
}

fn id_attr(id: String) -> (r: Vec<(String, String)>)
    ensures
        attrs_view(r@) == seq![("id"@, id@)],
{
    let mut attrs: Vec<(String, String)> = Vec::new();
    attrs.push((String::from_str("id"), id));
    assert(attrs_view(attrs@) =~= seq![("id"@, id@)]);
    attrs
}

fn push_text_in(out: &mut Vec<XmlItem>, outer: &str, text: String)
    ensures
        items_view(final(out)@) == items_view(old(out)@) + text_events(outer@, text@),
{
    let ghost t = text@;
    push_open(out, outer, Vec::new());
    push_open(out, "text", Vec::new());
    push_item(out, XmlItem::Text(text));
    push_item(out, XmlItem::End);
    push_item(out, XmlItem::End);
    assert(attrs_view(Seq::<(String, String)>::empty()) =~= seq![]);
    assert(items_view(final(out)@) =~= items_view(old(out)@) + text_events(outer@, t));
}

fn push_name(out: &mut Vec<XmlItem>, name: &Option<String>)
    ensures
        items_view(final(out)@) == items_view(old(out)@) + name_events(name_view(*name)),
{
    match name {
        Some(t) => push_text_in(out, "name", t.clone()),
        None => {
            assert(items_view(old(out)@) + seq![] =~= items_view(old(out)@));
        },
    }
}

fn pnml_node_id(node: NodeRef) -> (r: String)
    ensures
        r@ == pnml_id(node),
{
    match node {
        NodeRef::Place(p) => make_id("place_", p.index),
        NodeRef::Transition(t) => make_id("transition_", t.index),
    }
}

fn place_to_xml(out: &mut Vec<XmlItem>, place: &Place, index: usize)
    ensures
        items_view(final(out)@) == items_view(old(out)@) + place_events(*place, index as nat),
{
    push_open(out, "place", id_attr(make_id("place_", index)));
    push_name(out, &place.name);
    if place.marking > 0 {
        push_text_in(out, "initialMarking", decimal_string(place.marking as u128));
    }
    push_item(out, XmlItem::End);
    assert(items_view(final(out)@) =~= items_view(old(out)@) + place_events(*place, index as nat));
}

fn transition_to_xml(out: &mut Vec<XmlItem>, transition: &Transition, index: usize)
    ensures
        items_view(final(out)@) == items_view(old(out)@) + transition_events(
            *transition,
            index as nat,
        ),
{
    push_open(out, "transition", id_attr(make_id("transition_", index)));
    push_name(out, &transition.name);
    push_item(out, XmlItem::End);
    assert(items_view(final(out)@) =~= items_view(old(out)@) + transition_events(
        *transition,
        index as nat,
    ));
}

fn arc_to_xml(out: &mut Vec<XmlItem>, arc: &Arc, index: usize)
    ensures
        items_view(final(out)@) == items_view(old(out)@) + arc_events(*arc, index as nat),
{
    let mut attrs: Vec<(String, String)> = Vec::new();
    attrs.push((String::from_str("source"), pnml_node_id(arc.source)));
    attrs.push((String::from_str("target"), pnml_node_id(arc.sink)));
    attrs.push((String::from_str("id"), make_id("arc_", index)));
    assert(attrs_view(attrs@) =~= seq![
        ("source"@, pnml_id(arc.source)),
        ("target"@, pnml_id(arc.sink)),
        ("id"@, "arc_"@ + decimal(index as nat)),
    ]);
    push_open(out, "arc", attrs);
    push_name(out, &arc.name);
    push_text_in(out, "inscription", decimal_string(arc.mult as u128));
    push_item(out, XmlItem::End);
    assert(items_view(final(out)@) =~= items_view(old(out)@) + arc_events(*arc, index as nat));
}

/// Hands the events to the emitter in order, stopping at its first failure.
fn write_items(w: &mut EventWriter<Vec<u8>>, items: &Vec<XmlItem>) -> (r: Result<()>)
    ensures
        r is Ok ==> clean(*final(w)) == clean(*old(w)) && accepted(*final(w)) == accepted(
            *old(w),
        ) + items_view(items@),
        r is Err ==> r matches Err(PetriError::XmlWriterError(_)),
{
    let mut i: usize = 0;
    assert(accepted(*w) + items_view(items@.take(0)) =~= accepted(*w));
    while i < items.len()
        invariant
            i <= items@.len(),
            clean(*w) == clean(*old(w)),
            accepted(*w) == accepted(*old(w)) + items_view(items@.take(i as int)),
        decreases items@.len() - i,
    {
        let step = match &items[i] {
            XmlItem::Start { name, namespace, attributes } => match namespace {
                Some(uri) => xml_start_ns(w, name.as_str(), uri.as_str(), attributes),
                None => xml_start(w, name.as_str(), attributes),
            },
            XmlItem::Text(t) => xml_text(w, t.as_str()),
            XmlItem::End => xml_end(w),
        };
        match step {
            Ok(()) => {},
            Err(e) => {
                return Err(PetriError::from(e));
            },
        }
        assert(items_view(items@.take(i as int + 1)) =~= items_view(items@.take(i as int)).push(
            items@[i as int]@,
        ));
        assert(accepted(*w) =~= accepted(*old(w)) + items_view(items@.take(i as int + 1)));
        i = i + 1;
    }
    assert(items@.take(items@.len() as int) =~= items@);
    Ok(())
}

impl PetriNet {
    /// The PNML document of the net, as the events that the XML emitter
    /// writes.
    pub fn pnml_events(&self) -> (r: Vec<XmlItem>)
        ensures
            items_view(r@) == pnml_document(*self),
    {
        let mut out: Vec<XmlItem> = Vec::new();
        push_item(
            &mut out,
            XmlItem::Start {
                name: String::from_str("pnml"),
                namespace: Some(String::from_str("http://www.pnml.org/version-2009/grammar/pnml")),
                attributes: Vec::new(),
            },
        );
        let mut attrs: Vec<(String, String)> = Vec::new();
        attrs.push((String::from_str("id"), String::from_str("net0")));
        attrs.push(
            (
                String::from_str("type"),
                String::from_str("http://www.pnml.org/version-2009/grammar/ptnet"),
            ),
        );
        assert(attrs_view(attrs@) =~= seq![
            ("id"@, "net0"@),
            ("type"@, "http://www.pnml.org/version-2009/grammar/ptnet"@),
        ]);
        push_open(&mut out, "net", attrs);
        push_open(&mut out, "page", id_attr(String::from_str("page0")));
        assert(attrs_view(Seq::<(String, String)>::empty()) =~= seq![]);
        let ghost head = items_view(out@);
        let mut i: usize = 0;
        assert(self.places@.take(0) =~= Seq::<Place>::empty());
        assert(head + seq![] =~= head);
        while i < self.places.len()
            invariant
                i <= self.places@.len(),
                items_view(out@) == head + places_events(self.places@.take(i as int)),
            decreases self.places@.len() - i,
        {
            place_to_xml(&mut out, &self.places[i], i);
            assert(self.places@.take(i as int + 1).drop_last() =~= self.places@.take(i as int));
            assert(self.places@.take(i as int + 1).last() == self.places@[i as int]);
            assert(items_view(out@) =~= head + places_events(self.places@.take(i as int + 1)));
            i = i + 1;
        }
        assert(self.places@.take(self.places@.len() as int) =~= self.places@);
        let ghost head = items_view(out@);
        let mut i: usize = 0;
        assert(self.transitions@.take(0) =~= Seq::<Transition>::empty());
        assert(head + seq![] =~= head);
        while i < self.transitions.len()
            invariant
                i <= self.transitions@.len(),
                items_view(out@) == head + transitions_events(self.transitions@.take(i as int)),
            decreases self.transitions@.len() - i,
        {
            transition_to_xml(&mut out, &self.transitions[i], i);
            assert(self.transitions@.take(i as int + 1).drop_last() =~= self.transitions@.take(
                i as int,
            ));
            assert(self.transitions@.take(i as int + 1).last() == self.transitions@[i as int]);
            assert(items_view(out@) =~= head + transitions_events(
                self.transitions@.take(i as int + 1),
            ));
            i = i + 1;
        }
        assert(self.transitions@.take(self.transitions@.len() as int) =~= self.transitions@);
        let ghost head = items_view(out@);
        let mut i: usize = 0;
        assert(self.arcs@.take(0) =~= Seq::<Arc>::empty());
        assert(head + seq![] =~= head);
        while i < self.arcs.len()
            invariant
                i <= self.arcs@.len(),
                items_view(out@) == head + arcs_events(self.arcs@.take(i as int)),
            decreases self.arcs@.len() - i,
        {
            arc_to_xml(&mut out, &self.arcs[i], i);
            assert(self.arcs@.take(i as int + 1).drop_last() =~= self.arcs@.take(i as int));
            assert(self.arcs@.take(i as int + 1).last() == self.arcs@[i as int]);
            assert(items_view(out@) =~= head + arcs_events(self.arcs@.take(i as int + 1)));
            i = i + 1;
        }
        assert(self.arcs@.take(self.arcs@.len() as int) =~= self.arcs@);
        push_item(&mut out, XmlItem::End);
        push_item(&mut out, XmlItem::End);
        push_item(&mut out, XmlItem::End);
        assert(items_view(out@) =~= pnml_document(*self));
        out
    }

    /// The net as an indented PNML document: the emitter's rendering of
    /// `pnml_events`. Fails with `XmlWriterError` where the emitter does,
    /// and with `CorruptedData` should its output not be UTF-8.
    pub fn to_pnml_string(&self) -> (r: Result<String>)
        ensures
            r matches Ok(s) ==> s@ == pnml_text(pnml_document(*self)),
            r is Err ==> (r matches Err(PetriError::XmlWriterError(_))) || (r matches Err(
                PetriError::CorruptedData(_),
            ) && !valid_utf8(rendered(pnml_document(*self)))),
    {
        let items = self.pnml_events();
        let mut w = pnml_writer();
        write_items(&mut w, &items)?;
        let bytes = xml_finish(w);
        match utf8_text(bytes) {
            Some(s) => Ok(s),
            None => Err(
                PetriError::CorruptedData(String::from_str("document generated non UTF-8 text")),
            ),
        }
    }
}

} // verus!
