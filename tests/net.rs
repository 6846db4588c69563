use petri_net::{
    check_bipartition, make_id, ArcRef, NodeRef, PetriError, PetriNet, PlaceRef, TransitionRef,
    XmlItem,
};

/// Two places (no tokens, three tokens), one transition,
/// place 0 -> transition (1) and transition -> place 1 (2).
fn small_net() -> (PetriNet, NodeRef, NodeRef, NodeRef) {
    let mut net = PetriNet::new();
    let p0 = net.add_place();
    let p1 = net.add_place();
    let t0 = net.add_transition();
    PlaceRef::try_from_node(p1).unwrap().marking(&mut net, 3).unwrap();
    net.add_arc(p0, t0).unwrap();
    let a = net.add_arc(t0, p1).unwrap();
    a.multiplicity(&mut net, 2).unwrap();
    (net, p0, p1, t0)
}

#[test]
fn counts_follow_add_calls() {
    let mut net = PetriNet::new();
    let mut places = Vec::new();
    let mut transitions = Vec::new();
    for _ in 0..4 {
        places.push(net.add_place());
    }
    for _ in 0..3 {
        transitions.push(net.add_transition());
    }
    let mut arcs = 0;
    for p in &places {
        for t in &transitions {
            net.add_arc(*p, *t).unwrap();
            net.add_arc(*t, *p).unwrap();
            arcs += 2;
        }
    }
    assert_eq!(net.places().len(), 4);
    assert_eq!(net.transitions().len(), 3);
    assert_eq!(net.arcs().len(), arcs);
    assert_eq!(arcs, 24);
    assert_eq!(places[2], NodeRef::Place(PlaceRef { index: 2 }));
    assert_eq!(transitions[1], NodeRef::Transition(TransitionRef { index: 1 }));
}

#[test]
fn same_kind_arcs_are_rejected() {
    let mut net = PetriNet::new();
    let p0 = net.add_place();
    let p1 = net.add_place();
    let t0 = net.add_transition();
    let t1 = net.add_transition();
    net.add_arc(p0, t0).unwrap();
    assert!(matches!(net.add_arc(p0, p1), Err(PetriError::BipartitionViolation)));
    assert!(matches!(net.add_arc(t0, t1), Err(PetriError::BipartitionViolation)));
    assert!(matches!(net.add_arc(p1, p1), Err(PetriError::BipartitionViolation)));
    assert_eq!(net.arcs().len(), 1);
    assert!(check_bipartition(p0, t1).is_ok());
    assert!(check_bipartition(t1, p0).is_ok());
    assert!(matches!(check_bipartition(t0, t1), Err(PetriError::BipartitionViolation)));
}

#[test]
fn unknown_handles_are_reported() {
    let mut net = PetriNet::new();
    let p0 = net.add_place();
    let t0 = net.add_transition();
    let ghost_place = NodeRef::Place(PlaceRef { index: 7 });
    let ghost_transition = NodeRef::Transition(TransitionRef { index: 7 });
    assert!(matches!(net.add_arc(ghost_place, t0), Err(PetriError::PlaceNotFound)));
    assert!(matches!(net.add_arc(p0, ghost_transition), Err(PetriError::TransitionNotFound)));
    assert!(matches!(net.add_arc(ghost_transition, p0), Err(PetriError::TransitionNotFound)));
    assert_eq!(net.arcs().len(), 0);
    assert!(matches!(
        ghost_place.name(&mut net, "x".to_string()),
        Err(PetriError::PlaceNotFound)
    ));
    assert!(matches!(
        ghost_transition.name(&mut net, "x".to_string()),
        Err(PetriError::TransitionNotFound)
    ));
    assert!(matches!(
        PlaceRef { index: 7 }.marking(&mut net, 1),
        Err(PetriError::PlaceNotFound)
    ));
    assert!(matches!(
        ArcRef { index: 0 }.name(&mut net, "a".to_string()),
        Err(PetriError::ArcNotFound)
    ));
    assert!(matches!(
        ArcRef { index: 0 }.multiplicity(&mut net, 4),
        Err(PetriError::ArcNotFound)
    ));
    assert!(matches!(PlaceRef { index: 7 }.preset(&net), Err(PetriError::PlaceNotFound)));
    assert!(matches!(PlaceRef { index: 7 }.postset(&net), Err(PetriError::PlaceNotFound)));
    assert!(matches!(
        TransitionRef { index: 7 }.preset(&net),
        Err(PetriError::TransitionNotFound)
    ));
    assert!(matches!(
        TransitionRef { index: 7 }.postset(&net),
        Err(PetriError::TransitionNotFound)
    ));
}

#[test]
fn parallel_arcs_add_up() {
    let mut net = PetriNet::new();
    let p = net.add_place();
    let t = net.add_transition();
    let other = net.add_place();
    for m in [2usize, 3, 4] {
        let a = net.add_arc(p, t).unwrap();
        a.multiplicity(&mut net, m).unwrap();
    }
    net.add_arc(t, other).unwrap();
    let pr = PlaceRef::try_from_node(p).unwrap();
    let tr = TransitionRef::try_from_node(t).unwrap();
    assert_eq!(pr.postset(&net).unwrap(), vec![(tr, 9u128)]);
    assert_eq!(pr.preset(&net).unwrap(), vec![]);
    assert_eq!(tr.preset(&net).unwrap(), vec![(pr, 9u128)]);
    assert_eq!(tr.postset(&net).unwrap(), vec![(PlaceRef { index: 1 }, 1u128)]);
    // changing a multiplicity later is seen at once
    ArcRef { index: 0 }.multiplicity(&mut net, 10).unwrap();
    assert_eq!(tr.preset(&net).unwrap(), vec![(pr, 17u128)]);
}

#[test]
fn large_multiplicities_do_not_overflow() {
    let mut net = PetriNet::new();
    let p = net.add_place();
    let t = net.add_transition();
    for _ in 0..3 {
        let a = net.add_arc(t, p).unwrap();
        a.multiplicity(&mut net, usize::MAX).unwrap();
    }
    let pr = PlaceRef::try_from_node(p).unwrap();
    let sum = pr.preset(&net).unwrap()[0].1;
    assert_eq!(sum, 3 * (usize::MAX as u128));
}

#[test]
fn neighbours_come_in_index_order() {
    let mut net = PetriNet::new();
    let p = net.add_place();
    let t0 = net.add_transition();
    let t1 = net.add_transition();
    let t2 = net.add_transition();
    net.add_arc(t2, p).unwrap();
    net.add_arc(t0, p).unwrap();
    net.add_arc(t2, p).unwrap();
    let _ = t1;
    let pr = PlaceRef::try_from_node(p).unwrap();
    assert_eq!(
        pr.preset(&net).unwrap(),
        vec![(TransitionRef { index: 0 }, 1u128), (TransitionRef { index: 2 }, 2u128)]
    );
}

#[test]
fn isolated_nodes_have_empty_sets() {
    let mut net = PetriNet::new();
    let p = net.add_place();
    let t = net.add_transition();
    let lone_p = net.add_place();
    let lone_t = net.add_transition();
    net.add_arc(p, t).unwrap();
    let lp = PlaceRef::try_from_node(lone_p).unwrap();
    let lt = TransitionRef::try_from_node(lone_t).unwrap();
    assert!(lp.preset(&net).unwrap().is_empty());
    assert!(lp.postset(&net).unwrap().is_empty());
    assert!(lt.preset(&net).unwrap().is_empty());
    assert!(lt.postset(&net).unwrap().is_empty());
    let mut one = PetriNet::new();
    let only = one.add_place();
    assert!(PlaceRef::try_from_node(only).unwrap().preset(&one).unwrap().is_empty());
}

#[test]
fn narrowing_node_handles() {
    let mut net = PetriNet::new();
    net.add_place();
    let p = net.add_place();
    let t = net.add_transition();
    assert!(matches!(TransitionRef::try_from_node(p), Err(PetriError::InvalidData(_))));
    assert!(matches!(PlaceRef::try_from_node(t), Err(PetriError::InvalidData(_))));
    let pr = PlaceRef::try_from_node(p).unwrap();
    assert_eq!(pr.index, 1);
    assert_eq!(NodeRef::Place(pr), p);
    let tr = TransitionRef::try_from_node(t).unwrap();
    assert_eq!(tr.index, 0);
    assert_eq!(NodeRef::Transition(tr), t);
}

#[test]
fn exports_are_deterministic() {
    let (net, _, _, _) = small_net();
    assert_eq!(net.to_dot_string(), net.to_dot_string());
    assert_eq!(net.to_lola_string(), net.to_lola_string());
    assert_eq!(net.to_pnml_string().unwrap(), net.to_pnml_string().unwrap());
}

#[test]
fn lola_scenario() {
    let (net, _, _, _) = small_net();
    let lola = net.to_lola_string();
    assert_eq!(
        lola,
        "PLACE\n    p_0,\n    p_1;\n\nMARKING\n    p_1 : 3;\n\nTRANSITION t_0\n  CONSUME\n    p_0 : 1;\n  PRODUCE\n    p_1 : 2;\n"
    );
}

#[test]
fn dot_scenario() {
    let (net, _, _, _) = small_net();
    let dot = net.to_dot_string();
    assert_eq!(
        dot,
        "digraph petrinet {\n    p_0 [shape=\"circle\"  ];\n    p_1 [shape=\"circle\" label=\"\u{2022}\u{2022}\u{2022}\"  ];\n    t_0 [shape=\"box\"  ];\n    t_0 -> p_1 [label=\"2\"];\n    p_0 -> t_0;\n}"
    );
}

#[test]
fn dot_names_and_large_markings() {
    let mut net = PetriNet::new();
    let p = net.add_place();
    let t = net.add_transition();
    p.name(&mut net, "buffer".to_string()).unwrap();
    t.name(&mut net, "fire".to_string()).unwrap();
    PlaceRef::try_from_node(p).unwrap().marking(&mut net, 12).unwrap();
    let dot = net.to_dot_string();
    assert!(dot.contains("    p_0 [shape=\"circle\" label=\"12\"  xlabel=\"buffer\" ];\n"), "{}", dot);
    assert!(dot.contains("    t_0 [shape=\"box\" label=\"fire\"  ];\n"), "{}", dot);
    assert_eq!(net.places()[0].name, Some("buffer".to_string()));
    assert_eq!(net.places()[0].marking, 12);
    assert_eq!(net.transitions()[0].name, Some("fire".to_string()));
}

#[test]
fn zero_multiplicity_arcs_are_not_drawn() {
    let (mut net, p0, _, t0) = small_net();
    let extra = net.add_place();
    let a = net.add_arc(t0, extra).unwrap();
    a.multiplicity(&mut net, 0).unwrap();
    let b = net.add_arc(p0, t0).unwrap();
    b.multiplicity(&mut net, 0).unwrap();
    let dot = net.to_dot_string();
    assert!(!dot.contains("t_0 -> p_2"), "{}", dot);
    assert!(dot.contains("    p_0 -> t_0;\n"), "{}", dot);
    let lola = net.to_lola_string();
    assert!(!lola.contains("p_2 :"), "{}", lola);
    assert!(lola.contains("  CONSUME\n    p_0 : 1;\n"), "{}", lola);
    assert!(lola.contains("PLACE\n    p_0,\n    p_1,\n    p_2;\n\n"), "{}", lola);
    assert_eq!(net.arcs().len(), 4);
    assert_eq!(net.arcs()[2].mult, 0);
}

#[test]
fn lola_of_empty_and_unmarked_nets() {
    let empty = PetriNet::new();
    assert_eq!(empty.to_lola_string(), "");
    assert_eq!(empty.to_dot_string(), "digraph petrinet {\n}");
    let mut net = PetriNet::new();
    net.add_place();
    net.add_transition();
    assert_eq!(net.to_lola_string(), "PLACE\n    p_0;\n\nMARKING\n;\n\nTRANSITION t_0\n");
}

#[test]
fn arc_names_and_partition() {
    let (mut net, _, _, _) = small_net();
    ArcRef { index: 1 }.name(&mut net, "out".to_string()).unwrap();
    assert_eq!(net.arcs()[1].name, Some("out".to_string()));
    assert_eq!(net.arcs()[1].mult, 2);
    let (tp, pt) = net.arcs_partitioned();
    assert_eq!(
        tp,
        vec![(
            NodeRef::Transition(TransitionRef { index: 0 }),
            NodeRef::Place(PlaceRef { index: 1 }),
            2
        )]
    );
    assert_eq!(
        pt,
        vec![(
            NodeRef::Place(PlaceRef { index: 0 }),
            NodeRef::Transition(TransitionRef { index: 0 }),
            1
        )]
    );
}

#[test]
fn ids_have_decimal_suffixes() {
    assert_eq!(make_id("p_", 42), "p_42");
    assert_eq!(make_id("t_", 0), "t_0");
    assert_eq!(make_id("arc_", 1234567890), "arc_1234567890");
}

#[test]
fn pnml_document_holds_every_node_and_arc() {
    let (mut net, p0, _, _) = small_net();
    p0.name(&mut net, "in".to_string()).unwrap();
    let events = net.pnml_events();
    let starts = events
        .iter()
        .filter(|e| matches!(e, XmlItem::Start { .. }))
        .count();
    let ends = events.iter().filter(|e| matches!(e, XmlItem::End)).count();
    assert_eq!(starts, ends);
    let pnml = net.to_pnml_string().unwrap();
    assert!(pnml.contains("xmlns=\"http://www.pnml.org/version-2009/grammar/pnml\""), "{}", pnml);
    assert!(pnml.contains("<page id=\"page0\">"), "{}", pnml);
    assert!(pnml.contains("<place id=\"place_0\">"), "{}", pnml);
    assert!(pnml.contains("id=\"place_1\""), "{}", pnml);
    assert!(pnml.contains("id=\"transition_0\""), "{}", pnml);
    assert!(pnml.contains("<arc source=\"place_0\" target=\"transition_0\" id=\"arc_0\">"), "{}", pnml);
    assert!(pnml.contains("<arc source=\"transition_0\" target=\"place_1\" id=\"arc_1\">"), "{}", pnml);
    assert!(pnml.contains("<text>in</text>"), "{}", pnml);
    assert!(pnml.contains("<text>3</text>"), "{}", pnml);
    assert!(pnml.contains("<text>2</text>"), "{}", pnml);
}

#[test]
fn error_descriptions() {
    assert_eq!(
        PetriError::PlaceNotFound.description(),
        "Place Not Found: There is no corresponding place in the internal representation"
    );
    let e = PetriError::InvalidData("detail".to_string());
    assert_eq!(
        e.message(),
        "Invalid Data: Tried to use data in a place where it do not belong: detail"
    );
    assert_eq!(
        PetriError::BipartitionViolation.message(),
        PetriError::BipartitionViolation.description()
    );
}

#[test]
fn emitter_errors_convert_and_describe_themselves() {
    let e = PetriError::from(xml::writer::Error::LastElementNameNotAvailable);
    assert!(matches!(
        e,
        PetriError::XmlWriterError(xml::writer::Error::LastElementNameNotAvailable)
    ));
    assert_eq!(e.description(), "emitter error: last element name is not available");
    assert_eq!(e.message(), e.description());
}

#[test]
fn interleaved_calls_with_earlier_handles_all_succeed() {
    let mut net = PetriNet::new();
    let p0 = net.add_place();
    let t0 = net.add_transition();
    assert!(net.add_arc(p0, t0).is_ok());
    let p1 = net.add_place();
    assert!(net.add_arc(t0, p1).is_ok());
    let t1 = net.add_transition();
    assert!(net.add_arc(t1, p0).is_ok());
    assert!(net.add_arc(p1, t1).is_ok());
    let _p2 = net.add_place();
    assert!(net.add_arc(p0, t1).is_ok());
    assert_eq!(net.places().len(), 3);
    assert_eq!(net.transitions().len(), 2);
    assert_eq!(net.arcs().len(), 5);
}
