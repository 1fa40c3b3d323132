use mac_privacy_dissector::dissector::{Dissector, Outcome, Step};
use mac_privacy_dissector::error::DissectError;
use mac_privacy_dissector::fragment::SequenceIds;
use mac_privacy_dissector::plan::{Action, Column, Node, Op, Plan};
use mac_privacy_dissector::run::dissect_packet;
use mac_privacy_dissector::tvb::{Span, TvbSource};

type Replies = Vec<Option<Vec<u8>>>;

fn dissect_with(
    packet: &[u8],
    replies: Replies,
    outcomes: Vec<Outcome>,
) -> (Vec<Action>, Result<usize, DissectError>) {
    let mut plan = Plan::new();
    let result = dissect_packet(
        packet,
        &replies,
        &outcomes,
        &mut SequenceIds::new(),
        &mut Vec::new(),
        &mut plan,
    );
    (plan.into_actions(), result)
}

/// Dissects where no other dissector is there.
fn dissect(packet: &[u8], replies: Replies) -> (Vec<Action>, Result<usize, DissectError>) {
    dissect_with(packet, replies, vec![])
}

fn failure() -> DissectError {
    DissectError::Subdissector("no such protocol".to_string())
}

fn packet(offset: usize, length: usize) -> Span {
    Span { source: TvbSource::Packet, offset, length }
}

fn reassembled(offset: usize, length: usize) -> Span {
    Span { source: TvbSource::Reassembled, offset, length }
}

fn protocol() -> Action {
    Op::SetColumnText { column: Column::Protocol, text: "MACPrivacy".to_string() }
}

fn info(text: &str) -> Action {
    Op::SetColumnText { column: Column::Info, text: text.to_string() }
}

fn add(parent: Node, node: Node, name: &'static str, range: Span) -> Action {
    Op::Add { parent, node, name, range }
}

fn item(parent: Node, node: Node, name: &'static str, range: Span) -> Action {
    Op::AddItem { parent, node, name, range }
}

fn text(node: Node, text: &str) -> Action {
    Op::AppendText { node, text: text.to_string() }
}

fn length(length: usize) -> Action {
    Op::SetLength { node: Node::Component, length }
}

fn head(offset: usize) -> Vec<Action> {
    vec![
        add(Node::Root, Node::Component, "component", packet(offset, 1)),
        item(Node::Component, Node::TypeItem, "component.type", packet(offset, 1)),
    ]
}

fn invalid() -> Vec<Action> {
    vec![
        Op::AddExpertInfo {
            node: Node::TypeItem,
            name: "expert_invalid_component",
            remark: "Invalid MPPDU component",
        },
        text(Node::TypeItem, " (Invalid)"),
    ]
}

fn nonzero_pad() -> Action {
    Op::AddExpertInfo {
        node: Node::Pad,
        name: "expert_nonzero_pad",
        remark: "Padding bytes must be zero",
    }
}

const FRAME: [u8; 16] = [
    0x01, 0x02, 0x03, 0x04, 0x05, 0x06, 0xa1, 0xa2, 0xa3, 0xa4, 0xa5, 0xa6, 0x08, 0x06, 0x77, 0x88,
];

#[test]
fn an_empty_packet_has_no_components() {
    let (actions, result) = dissect(&[], vec![]);
    assert_eq!(actions, vec![protocol(), info("MPPDU Components: []")]);
    assert_eq!(result, Ok(0));
}

#[test]
fn a_trailing_pad_of_one_octet() {
    let (actions, result) = dissect(&[0], vec![]);
    let mut expected = vec![protocol()];
    expected.extend(head(0));
    expected.extend([
        text(Node::Component, ", Type: Trailing Pad"),
        text(Node::TypeItem, " (Trailing Pad)"),
        length(1),
        info("MPPDU Components: [Trailing Pad]"),
    ]);
    assert_eq!(actions, expected);
    assert_eq!(result, Ok(1));
}

#[test]
fn one_octet_that_is_not_zero_is_no_trailing_pad() {
    let (actions, result) = dissect(&[0x3f], vec![]);
    let mut expected = vec![protocol()];
    expected.extend(head(0));
    expected.extend(invalid());
    assert_eq!(actions, expected);
    assert_eq!(result, Ok(0));
}

#[test]
fn a_trailing_pad_ends_the_packet() {
    // What would be an explicit pad is part of the trailing pad.
    let (actions, result) = dissect(&[0, 0, 0x40, 0], vec![]);
    let mut expected = vec![protocol()];
    expected.extend(head(0));
    expected.extend([
        text(Node::Component, ", Type: Trailing Pad"),
        text(Node::TypeItem, " (Trailing Pad)"),
        length(4),
        item(Node::Root, Node::Pad, "trailing_pad", packet(2, 2)),
        nonzero_pad(),
        info("MPPDU Components: [Trailing Pad]"),
    ]);
    assert_eq!(actions, expected);
    assert_eq!(result, Ok(4));
}

#[test]
fn an_encapsulated_frame_goes_to_its_dissector() {
    let mut octets = vec![0, 16];
    octets.extend_from_slice(&FRAME);
    let mut expected = vec![protocol()];
    expected.extend(head(0));
    expected.extend([
        text(Node::Component, ", Type: Encapsulated Frame"),
        text(Node::TypeItem, " (Encapsulated Frame)"),
        add(Node::Component, Node::Leaf, "component.following_length", packet(0, 2)),
        add(Node::Root, Node::Frame, "encapsulated_frame", packet(2, 16)),
        item(
            Node::Frame,
            Node::Leaf,
            "encapsulated_frame.destination_address",
            packet(2, 6),
        ),
        item(Node::Frame, Node::Leaf, "encapsulated_frame.source_address", packet(8, 6)),
        text(Node::Component, ", Src: a1:a2:a3:a4:a5:a6"),
        text(Node::Component, ", Dst: 01:02:03:04:05:06"),
        Op::CallEthertypeDissector {
            msdu: packet(14, 4),
            etype: 0x0806,
            payload_offset: 2,
            fh_tree: Node::Frame,
            trailer_id: 0,
            fcs_len: 0,
        },
    ]);

    // A dissector that fails ends the dissection.
    let (actions, result) = dissect_with(&octets, vec![], vec![Err(failure())]);
    assert_eq!(actions, expected);
    assert_eq!(result, Err(failure()));
    assert_eq!(failure().to_string(), "no such protocol");

    // One that is found keeps its summary.
    expected.push(length(18));
    let (actions, result) = dissect_with(&octets, vec![], vec![Ok(Some(4))]);
    assert_eq!(actions, expected);
    assert_eq!(result, Ok(18));

    // Where there is none, there is a summary.
    expected.push(info("MPPDU Components: [Encapsulated Frame]"));
    let (actions, result) = dissect_with(&octets, vec![], vec![Ok(None)]);
    assert_eq!(actions, expected);
    assert_eq!(result, Ok(18));
}

#[test]
fn an_explicit_pad_is_cut_at_the_end_of_the_packet() {
    let (actions, result) = dissect(&[0x40, 12, 0, 0, 7], vec![]);
    let mut expected = vec![protocol()];
    expected.extend(head(0));
    expected.extend([
        text(Node::Component, ", Type: Explicit Pad, Length: 3"),
        text(Node::TypeItem, " (Explicit Pad)"),
        item(Node::Component, Node::Leaf, "component.following_length", packet(0, 2)),
        item(Node::Component, Node::Pad, "explicit_pad", packet(2, 3)),
        nonzero_pad(),
        length(5),
        info("MPPDU Components: [Explicit Pad]"),
    ]);
    assert_eq!(actions, expected);
    assert_eq!(result, Ok(5));
}

#[test]
fn an_invalid_component_is_skipped() {
    let (actions, result) = dissect(&[0xc0, 9, 0x40, 1, 0], vec![]);
    let mut expected = vec![protocol()];
    expected.extend(head(0));
    expected.extend(invalid());
    expected.push(length(2));
    expected.extend(head(2));
    expected.extend([
        text(Node::Component, ", Type: Explicit Pad, Length: 1"),
        text(Node::TypeItem, " (Explicit Pad)"),
        item(Node::Component, Node::Leaf, "component.following_length", packet(2, 2)),
        item(Node::Component, Node::Pad, "explicit_pad", packet(4, 1)),
        length(3),
        info("MPPDU Components: [Explicit Pad]"),
    ]);
    assert_eq!(actions, expected);
    assert_eq!(result, Ok(5));
}

#[test]
fn an_octet_that_begins_no_component_ends_the_dissection() {
    let (actions, result) = dissect(&[0x40, 0, 0x80], vec![]);
    let mut expected = vec![protocol()];
    expected.extend(head(0));
    expected.extend([
        text(Node::Component, ", Type: Explicit Pad, Length: 0"),
        text(Node::TypeItem, " (Explicit Pad)"),
        item(Node::Component, Node::Leaf, "component.following_length", packet(0, 2)),
        item(Node::Component, Node::Pad, "explicit_pad", packet(2, 0)),
        length(2),
    ]);
    expected.extend(head(2));
    expected.extend(invalid());
    assert_eq!(actions, expected);
    assert_eq!(result, Ok(0));
}

fn fragment_actions(flags: &str, component_flags: &str, payload: usize) -> Vec<Action> {
    let mut actions = head(0);
    actions.extend([
        text(Node::Component, ", Type: Frame Fragment"),
        text(Node::TypeItem, " (Frame Fragment)"),
        add(Node::Component, Node::Leaf, "component.following_length", packet(0, 2)),
        add(Node::Root, Node::Frame, "frame_fragment", packet(2, payload)),
        add(Node::Frame, Node::Flags, "frame_fragment.flags", packet(2, 1)),
        item(Node::Flags, Node::Leaf, "frame_fragment.flags.initial_frame", packet(2, 1)),
        item(Node::Flags, Node::Leaf, "frame_fragment.flags.final_frame", packet(2, 1)),
        item(Node::Flags, Node::Leaf, "frame_fragment.flags.express_frame", packet(2, 1)),
        text(Node::Flags, flags),
        text(Node::Component, component_flags),
        item(Node::Frame, Node::Leaf, "frame_fragment.sequence_number", packet(3, 3)),
        Op::SetFragmented { fragmented: true },
    ]);
    actions
}

#[test]
fn a_fragment_that_completes_nothing() {
    let (actions, result) = dissect(&[0x80, 5, 0x00, 0, 0, 1, 9], vec![None]);
    let mut expected = vec![protocol()];
    expected.extend(fragment_actions(" ()", ", Flags: (None)", 5));
    expected.extend([length(7), info("MPPDU Components: [Frame Fragment]")]);
    assert_eq!(actions, expected);
    assert_eq!(result, Ok(7));
}

#[test]
fn a_fragment_that_completes_a_frame() {
    let octets = [0x80, 4, 0x70, 0, 0, 1];
    let replies = vec![Some(FRAME.to_vec())];
    let mut expected = vec![protocol()];
    expected.extend(fragment_actions(
        " (Initial, Final, Express)",
        ", Flags: Initial, Final, Express",
        4,
    ));
    expected.extend([
        add(Node::Component, Node::Frame, "reassembled_frame", reassembled(0, 16)),
        item(
            Node::Frame,
            Node::Leaf,
            "reassembled_frame.destination_address",
            reassembled(0, 6),
        ),
        item(
            Node::Frame,
            Node::Leaf,
            "reassembled_frame.source_address",
            reassembled(6, 6),
        ),
        text(Node::Component, ", Src: a1:a2:a3:a4:a5:a6"),
        text(Node::Component, ", Dst: 01:02:03:04:05:06"),
        item(Node::Frame, Node::Leaf, "reassembled_frame.msdu", reassembled(12, 4)),
        Op::CallEthertypeDissector {
            msdu: reassembled(12, 4),
            etype: 0x0806,
            payload_offset: 2,
            fh_tree: Node::Frame,
            trailer_id: 0,
            fcs_len: 0,
        },
    ]);
    let (actions, result) = dissect_with(&octets, replies.clone(), vec![Err(failure())]);
    assert_eq!(actions, expected);
    assert_eq!(result, Err(failure()));

    expected.push(length(6));
    let (actions, result) = dissect_with(&octets, replies.clone(), vec![Ok(Some(0))]);
    assert_eq!(actions, expected);
    assert_eq!(result, Ok(6));

    expected.push(info("MPPDU Components: [Frame Fragment]"));
    let (actions, result) = dissect(&octets, replies);
    assert_eq!(actions, expected);
    assert_eq!(result, Ok(6));
}

#[test]
fn a_reassembled_frame_that_is_too_short_fails() {
    let octets = [0x80, 4, 0x20, 0, 0, 1];
    for (frame, error) in [
        (3, DissectError::OutOfBounds { offset: 0, length: 6, available: 3 }),
        (6, DissectError::OutOfBounds { offset: 6, length: 6, available: 6 }),
        (12, DissectError::OutOfBounds { offset: 0, length: 2, available: 0 }),
        (13, DissectError::OutOfBounds { offset: 0, length: 2, available: 1 }),
    ] {
        let (actions, result) = dissect(&octets, vec![Some(vec![0; frame])]);
        assert_eq!(result, Err(error));
        assert!(!actions
            .iter()
            .any(|action| matches!(action, Op::SetColumnText { column: Column::Info, .. })));
    }
    let (_, result) = dissect(&octets, vec![Some(vec![0; 14])]);
    assert_eq!(result, Ok(6));
}

#[test]
fn the_summary_names_components_in_order() {
    let octets = [0x80, 4, 0x40, 0, 0, 1, 0xc0, 0, 0x40, 1, 0, 0x80, 4, 0x20, 0, 0, 2, 0, 0];
    let (actions, result) = dissect(&octets, vec![]);
    assert_eq!(result, Ok(octets.len()));
    assert_eq!(
        actions.last(),
        Some(&info(
            "MPPDU Components: [Frame Fragment, Explicit Pad, Frame Fragment, Trailing Pad]"
        ))
    );
}

#[test]
fn a_called_dissector_keeps_its_summary() {
    let mut octets = vec![0x40, 0];
    for _ in 0..2 {
        octets.extend_from_slice(&[0, 14]);
        octets.extend_from_slice(&FRAME[..14]);
    }
    octets.push(0);
    for (outcomes, kept) in [
        (vec![Ok(Some(2)), Ok(None)], true),
        (vec![Ok(None), Ok(Some(2))], true),
        (vec![Ok(None), Ok(None), Ok(Some(2))], false),
    ] {
        let (actions, result) = dissect_with(&octets, vec![], outcomes);
        assert_eq!(result, Ok(octets.len()));
        let summary = info(
            "MPPDU Components: [Explicit Pad, Encapsulated Frame, Encapsulated Frame, Trailing Pad]",
        );
        assert_eq!(actions.last() == Some(&summary), !kept);
        assert_eq!(
            actions
                .iter()
                .any(|action| matches!(action, Op::SetColumnText { column: Column::Info, .. })),
            !kept
        );
    }
}

#[test]
fn a_failed_call_is_the_last_action() {
    let mut octets = Vec::new();
    for _ in 0..3 {
        octets.extend_from_slice(&[0, 14]);
        octets.extend_from_slice(&FRAME[..14]);
    }
    let (actions, result) =
        dissect_with(&octets, vec![], vec![Ok(Some(2)), Err(failure()), Ok(None)]);
    assert_eq!(result, Err(failure()));
    let calls = actions
        .iter()
        .filter(|action| matches!(action, Op::CallEthertypeDissector { .. }))
        .count();
    assert_eq!(calls, 2);
    assert!(matches!(actions.last(), Some(Op::CallEthertypeDissector { .. })));
}

#[test]
fn every_packet_of_three_octets_is_dissected() {
    for first in 0..=255u8 {
        for second in [0, 1, 2, 13, 14, 0x40, 0x80, 0xc0, 255] {
            for third in [0, 0x3f, 0x40, 0x80, 0xff] {
                let octets = [first, second, third];
                let (actions, result) = dissect(&octets, vec![]);
                assert!(result == Ok(3) || result == Ok(0));
                for action in &actions {
                    if let Op::Add { range, .. } | Op::AddItem { range, .. } = action {
                        assert!(range.offset + range.length <= 3);
                    }
                }
            }
        }
    }
}

#[test]
fn nodes_are_created_before_they_are_needed() {
    let mut octets = vec![0x80, 4, 0x70, 0, 0, 1, 0, 16];
    octets.extend_from_slice(&FRAME);
    octets.extend_from_slice(&[0x40, 1, 1, 0, 0, 1]);
    let (actions, result) = dissect(&octets, vec![Some(FRAME.to_vec())]);
    assert_eq!(result, Ok(octets.len()));
    let mut created = vec![Node::Root];
    for action in &actions {
        let needed = match action {
            Op::Add { parent, .. } | Op::AddItem { parent, .. } => Some(*parent),
            Op::AppendText { node, .. }
            | Op::SetLength { node, .. }
            | Op::AddExpertInfo { node, .. } => Some(*node),
            Op::CallEthertypeDissector { fh_tree, .. } => Some(*fh_tree),
            _ => None,
        };
        if let Some(node) = needed {
            assert!(node != Node::Leaf && created.contains(&node));
        }
        if let Op::Add { node, .. } | Op::AddItem { node, .. } = action {
            created.push(*node);
        }
    }
}

/// Where the items of the components start and end.
fn shown(actions: &[Action]) -> Vec<(usize, usize)> {
    let mut spans = Vec::new();
    for action in actions {
        match action {
            Op::Add { node: Node::Component, range, .. } => {
                spans.push((range.offset, range.offset + range.length));
            }
            Op::SetLength { node: Node::Component, length } => {
                if let Some(span) = spans.last_mut() {
                    span.1 = span.0 + length;
                }
            }
            _ => {}
        }
    }
    spans
}

#[test]
fn components_make_up_the_packet() {
    let mut octets = vec![0, 16];
    octets.extend_from_slice(&FRAME);
    octets.extend_from_slice(&[0xff, 0xff, 0x40, 3, 0, 0, 0, 0x80, 4, 0, 0, 0, 0, 0, 0, 0]);
    let (actions, result) = dissect(&octets, vec![]);
    assert_eq!(result, Ok(octets.len()));
    assert_eq!(
        shown(&actions),
        vec![(0, 18), (18, 20), (20, 25), (25, 31), (31, 34)]
    );

    // A dissection that fails leaves its last component at one octet.
    let (actions, result) = dissect_with(&octets, vec![], vec![Err(failure())]);
    assert_eq!(result, Err(failure()));
    assert_eq!(shown(&actions), vec![(0, 1)]);
}

#[test]
fn a_packet_has_at_most_half_as_many_components_as_octets() {
    let (actions, _) = dissect(&[0xc0, 0, 0xc0, 0, 0xc0], vec![]);
    assert_eq!(shown(&actions), vec![(0, 2), (2, 4), (4, 5)]);
    let (actions, _) = dissect(&[0xc0, 0, 0xc0, 0], vec![]);
    assert_eq!(shown(&actions), vec![(0, 2), (2, 4)]);
}

#[test]
fn steps_wait_for_the_reassembly_table() {
    let octets = [0x80, 5, 0x70, 0, 1, 0, 9, 0];
    let mut plan = Plan::new();
    let mut dissector = Dissector::start(&octets, &mut plan);
    let fragment = match dissector.step(&mut plan) {
        Step::Reassemble(fragment) => fragment,
        other => panic!("no fragment: {:?}", other),
    };
    assert_eq!(fragment.payload().length(), 5);
    assert_eq!(dissector.state.next_tvb.length(), 8);

    let mut plan = Plan::new();
    let step = dissector.resume(&fragment, None, &mut plan);
    assert!(matches!(step, Step::Continue));
    assert_eq!(plan.into_actions(), vec![length(7)]);
    assert_eq!(dissector.state.next_tvb.length(), 1);

    // The fragment is no part of what is left.
    let mut plan = Plan::new();
    match dissector.resume(&fragment, None, &mut plan) {
        Step::Failed(error) => assert_eq!(
            error,
            DissectError::OutOfBounds { offset: 7, length: 0, available: 1 }
        ),
        other => panic!("went on: {:?}", other),
    }
    assert!(matches!(dissector.step(&mut plan), Step::Finished(8)));
}

#[test]
fn steps_wait_for_the_outcome_of_a_call() {
    let mut octets = vec![0, 16];
    octets.extend_from_slice(&FRAME);
    let mut plan = Plan::new();
    let mut dissector = Dissector::start(&octets, &mut plan);
    let called = match dissector.step(&mut plan) {
        Step::HandOn(length) => length,
        other => panic!("no call: {:?}", other),
    };
    assert_eq!(called, 18);
    assert!(matches!(
        plan.into_actions().last(),
        Some(Op::CallEthertypeDissector { .. })
    ));
    assert_eq!(dissector.state.next_tvb.length(), 18);
    assert_eq!(dissector.state.components, vec!["Encapsulated Frame"]);
    assert!(!dissector.state.subdissector_called);

    let mut plan = Plan::new();
    match dissector.handed_on(called, Err(failure()), &mut plan) {
        Step::Failed(error) => assert_eq!(error, failure()),
        other => panic!("went on: {:?}", other),
    }
    assert_eq!(plan.into_actions(), vec![]);
    assert!(!dissector.state.subdissector_called);

    let mut plan = Plan::new();
    assert!(matches!(
        dissector.handed_on(called, Ok(Some(4)), &mut plan),
        Step::Continue
    ));
    assert_eq!(plan.into_actions(), vec![length(18)]);
    assert_eq!(dissector.state.next_tvb.length(), 0);
    assert!(dissector.state.subdissector_called);
}

#[test]
fn the_fragments_of_a_packet_go_to_the_table_in_order() {
    // An initial express fragment, a pad, a preemptable fragment that continues a
    // sequence, an invalid component, and a final express fragment.
    let octets = [
        0x80, 5, 0x50, 0, 0, 7, 1, 0x40, 0, 0x80, 4, 0x00, 0, 0, 9, 0xc0, 0, 0x80, 6, 0x30, 0, 0, 8,
        2, 3,
    ];
    let mut sequences = SequenceIds { express: 1, preemptable: 3 };
    let mut requests = Vec::new();
    let mut plan = Plan::new();
    let result = dissect_packet(
        &octets,
        &vec![],
        &vec![],
        &mut sequences,
        &mut requests,
        &mut plan,
    );
    assert_eq!(result, Ok(octets.len()));
    assert_eq!(sequences, SequenceIds { express: 7, preemptable: 3 });
    let data: Vec<Span> = requests.iter().map(|request| request.data).collect();
    assert_eq!(data, vec![packet(6, 1), packet(15, 0), packet(23, 2)]);
    let ids: Vec<u32> = requests.iter().map(|request| request.id).collect();
    assert_eq!(ids, vec![0x8000_0007, 3, 0x8000_0007]);
    let numbers: Vec<u32> = requests.iter().map(|request| request.fragment_number).collect();
    assert_eq!(numbers, vec![0, 9, 8]);
    let more: Vec<bool> = requests.iter().map(|request| request.more_fragments).collect();
    assert_eq!(more, vec![true, true, false]);
    let offsets: Vec<u32> = requests
        .iter()
        .filter_map(|request| request.sequence_offset.map(|offset| offset.offset))
        .collect();
    assert_eq!(offsets, vec![7]);

    // A frame that is too short ends the dissection at its fragment.
    let mut sequences = SequenceIds::new();
    let mut requests = Vec::new();
    let result = dissect_packet(
        &octets,
        &vec![None, Some(vec![0; 3])],
        &vec![],
        &mut sequences,
        &mut requests,
        &mut plan,
    );
    assert!(result.is_err());
    assert_eq!(requests.len(), 2);
    assert_eq!(sequences, SequenceIds { express: 7, preemptable: 0 });
}
