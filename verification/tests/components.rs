use mac_privacy_dissector::component::{Component, ComponentKind};
use mac_privacy_dissector::error::DissectError;
use mac_privacy_dissector::mppdu::{call_ethertype_dissector, MppduState};
use mac_privacy_dissector::plan::{Action, Node, Op, Plan};
use mac_privacy_dissector::tvb::{Span, TvbRange, TvbSource};

fn component(octets: &[u8]) -> Component {
    MppduState::new(TvbRange::new(TvbSource::Packet, octets)).component()
}

fn is(octets: &[u8], kind: ComponentKind, header: usize, payload: usize) {
    assert_eq!(component(octets), Component { kind, header, payload });
}

fn frame(length: u8, octets: usize) -> Vec<u8> {
    let mut packet = vec![0, length];
    packet.resize(2 + octets, 0);
    packet
}

#[test]
fn one_octet_is_a_trailing_pad_or_cut_short() {
    is(&[0x00], ComponentKind::TrailingPad, 1, 0);
    is(&[0x01], ComponentKind::Truncated, 1, 0);
    is(&[0x3f], ComponentKind::Truncated, 1, 0);
    is(&[0x40], ComponentKind::Truncated, 1, 0);
    is(&[0x80], ComponentKind::Truncated, 1, 0);
    is(&[0xff], ComponentKind::Truncated, 1, 0);
}

#[test]
fn a_trailing_pad_takes_the_rest() {
    is(&[0, 0], ComponentKind::TrailingPad, 2, 0);
    is(&[0, 0, 0, 0, 0], ComponentKind::TrailingPad, 2, 3);
}

#[test]
fn an_encapsulated_frame_has_fourteen_octets_and_is_complete() {
    is(&frame(14, 14), ComponentKind::EncapsulatedFrame, 2, 14);
    is(&frame(14, 20), ComponentKind::EncapsulatedFrame, 2, 14);
    is(&frame(13, 20), ComponentKind::Invalid, 2, 0);
    is(&frame(15, 14), ComponentKind::Invalid, 2, 0);
}

#[test]
fn an_explicit_pad_ends_with_the_packet() {
    is(&[0x40, 0], ComponentKind::ExplicitPad, 2, 0);
    is(&[0x40, 2, 0, 0, 0], ComponentKind::ExplicitPad, 2, 2);
    is(&[0x7f, 0xff, 0, 0, 0], ComponentKind::ExplicitPad, 2, 3);
}

#[test]
fn a_frame_fragment_has_a_header_with_a_clear_bit() {
    is(&[0x80, 4, 0x70, 0, 0, 1], ComponentKind::FrameFragment, 2, 4);
    is(&[0x80, 5, 0x70, 0, 0, 1, 9, 9], ComponentKind::FrameFragment, 2, 5);
    is(&[0x80, 3, 0x70, 0, 0, 1], ComponentKind::Invalid, 2, 0);
    is(&[0x80, 4, 0xf0, 0, 0, 1], ComponentKind::Invalid, 2, 0);
    is(&[0x80, 5, 0x70, 0, 0, 1], ComponentKind::Invalid, 2, 0);
}

#[test]
fn the_last_type_is_invalid() {
    is(&[0xc0, 0, 1], ComponentKind::Invalid, 2, 0);
}

#[test]
fn the_following_length_has_fourteen_bits() {
    let mut packet = vec![0x01, 0x02];
    packet.resize(2 + 0x102, 0);
    is(&packet, ComponentKind::EncapsulatedFrame, 2, 0x102);
}

#[test]
fn the_fragment_flag_needs_a_whole_header() {
    let octets = [0x70, 0, 0, 1, 0x80, 0, 0, 0];
    let range = TvbRange::new(TvbSource::Packet, &octets);
    let state = MppduState::new(range);
    assert_eq!(state.frame_fragment_flag_clear(range), Ok(true));
    assert_eq!(
        state.frame_fragment_flag_clear(range.range_from(4).unwrap()),
        Ok(false)
    );
    assert_eq!(
        state.frame_fragment_flag_clear(range.range(0, 3).unwrap()),
        Err(DissectError::OutOfBounds { offset: 0, length: 4, available: 3 })
    );
}

#[test]
fn pads_are_checked_for_zeros() {
    let zeros = TvbRange::new(TvbSource::Packet, &[0, 0, 0]);
    let mut plan = Plan::new();
    MppduState::check_padding_bytes(&mut plan, zeros);
    assert_eq!(plan.into_actions(), vec![]);

    let other = TvbRange::new(TvbSource::Packet, &[0, 0, 1]);
    let mut plan = Plan::new();
    MppduState::check_padding_bytes(&mut plan, other);
    let expected: Vec<Action> = vec![Op::AddExpertInfo {
        node: Node::Pad,
        name: "expert_nonzero_pad",
        remark: "Padding bytes must be zero",
    }];
    assert_eq!(plan.into_actions(), expected);
}

#[test]
fn the_ethertype_decides_on_the_dissector() {
    let octets = [0x08, 0x00, 0x45];
    let mut plan = Plan::new();
    let msdu = TvbRange::new(TvbSource::Packet, &octets);
    assert_eq!(call_ethertype_dissector(msdu, &mut plan, Node::Frame), Ok(()));
    let expected: Vec<Action> = vec![Op::CallEthertypeDissector {
        msdu: Span { source: TvbSource::Packet, offset: 0, length: 3 },
        etype: 0x0800,
        payload_offset: 2,
        fh_tree: Node::Frame,
        trailer_id: 0,
        fcs_len: 0,
    }];
    assert_eq!(plan.into_actions(), expected);

    let mut plan = Plan::new();
    let msdu = TvbRange::new(TvbSource::Packet, &octets[..1]);
    assert_eq!(
        call_ethertype_dissector(msdu, &mut plan, Node::Frame),
        Err(DissectError::OutOfBounds { offset: 0, length: 2, available: 1 })
    );
    assert_eq!(plan.into_actions(), vec![]);
}

#[test]
fn a_frame_that_is_too_short_is_shown_as_far_as_it_goes() {
    let octets = [0; 16];
    let range = TvbRange::new(TvbSource::Packet, &octets);
    for (length, error, items) in [
        (5, DissectError::OutOfBounds { offset: 0, length: 6, available: 5 }, 0),
        (11, DissectError::OutOfBounds { offset: 6, length: 6, available: 11 }, 1),
        (13, DissectError::OutOfBounds { offset: 0, length: 2, available: 1 }, 2),
    ] {
        let mut plan = Plan::new();
        let mut state = MppduState::new(range);
        let result = state.dissect_encapsulated_frame(
            &mut plan,
            range.range(0, 2).unwrap(),
            range.range(2, length).unwrap(),
        );
        assert_eq!(result, Err(error));
        assert!(!state.subdissector_called);
        let actions = plan.into_actions();
        assert_eq!(
            actions
                .iter()
                .filter(|action| matches!(action, Op::AddItem { .. }))
                .count(),
            items
        );
        assert!(!actions
            .iter()
            .any(|action| matches!(action, Op::CallEthertypeDissector { .. })));
    }
}

#[test]
fn a_fragment_without_a_header_changes_nothing() {
    let octets = [0x80, 3, 0x70, 0, 0];
    let range = TvbRange::new(TvbSource::Packet, &octets);
    let mut plan = Plan::new();
    let mut state = MppduState::new(range);
    let result = state.dissect_frame_fragment(
        &mut plan,
        range.range(0, 2).unwrap(),
        range.range_from(2).unwrap(),
    );
    assert_eq!(
        result.err(),
        Some(DissectError::OutOfBounds { offset: 0, length: 4, available: 3 })
    );
    assert_eq!(plan.into_actions(), vec![]);
    assert!(state.components.is_empty());
}

#[test]
fn a_frame_is_handed_on_only_when_its_dissector_is_found() {
    let octets = [0; 18];
    let range = TvbRange::new(TvbSource::Packet, &octets);
    let mut plan = Plan::new();
    let mut state = MppduState::new(range);
    let result = state.dissect_encapsulated_frame(
        &mut plan,
        range.range(0, 2).unwrap(),
        range.range(2, 16).unwrap(),
    );
    assert_eq!(result, Ok(16));
    assert_eq!(state.components, vec!["Encapsulated Frame"]);
    assert!(!state.subdissector_called);

    assert_eq!(state.handed_on(None), 0);
    assert!(!state.subdissector_called);
    assert_eq!(state.handed_on(Some(4)), 4);
    assert!(state.subdissector_called);
    assert_eq!(state.handed_on(None), 0);
    assert!(state.subdissector_called);
}

#[test]
fn a_trailing_pad_counts_all_octets_that_are_left() {
    for (octets, offset) in [(vec![0], 1), (vec![0, 0], 2), (vec![0, 0, 0, 0, 0], 2)] {
        let mut plan = Plan::new();
        let mut state = MppduState::new(TvbRange::new(TvbSource::Packet, &octets));
        assert_eq!(state.dissect_trailing_pad(&mut plan, offset), Ok(octets.len()));
        assert_eq!(state.components, vec!["Trailing Pad"]);
    }
}

#[test]
fn a_trailing_pad_cannot_start_past_the_end() {
    let octets = [0];
    let mut plan = Plan::new();
    let mut state = MppduState::new(TvbRange::new(TvbSource::Packet, &octets));
    assert_eq!(
        state.dissect_trailing_pad(&mut plan, 2),
        Err(DissectError::OutOfBounds { offset: 2, length: 0, available: 1 })
    );
    assert!(state.components.is_empty());
}
