use mac_privacy_dissector::fragment::SequenceIds;
use mac_privacy_dissector::plan::{Action, Op, Plan};
use mac_privacy_dissector::protocol::{
    build_mac_privacy_protocol, ExpertGroup, ExpertSeverity, FieldDisplay, FieldType,
    TrueFalseString,
};
use mac_privacy_dissector::run::dissect_packet;

#[test]
fn the_protocol_is_registered_for_its_ethertype() {
    let protocol = build_mac_privacy_protocol();
    assert_eq!(protocol.name, "MAC Privacy protection Protocol Data Unit (MPPDU)");
    assert_eq!(protocol.abbreviation, "MACPrivacy");
    assert_eq!(protocol.filter, "macprivacy");
    assert_eq!(protocol.decode_from_table, "ethertype");
    assert_eq!(protocol.decode_from_values, vec![0xe23b]);
}

#[test]
fn fields_are_registered() {
    let fields = build_mac_privacy_protocol().fields;
    assert_eq!(fields.len(), 28);
    assert_eq!(fields[1].name, "component.type");
    assert_eq!(fields[1].label, "Type");
    assert_eq!(fields[1].bitmask, Some(0xc0));
    assert_eq!(fields[1].display, FieldDisplay::BaseHex);
    assert_eq!(fields[1].field_type, FieldType::Uint8);
    assert_eq!(fields[1].strings, None);
    assert_eq!(fields[2].bitmask, Some(0x3fff));
    assert_eq!(fields[11].name, "frame_fragment.flags.final_frame");
    assert_eq!(fields[11].bitmask, Some(0x20));
    assert_eq!(fields[11].display, FieldDisplay::Boolean(8));
    assert_eq!(
        fields[11].strings,
        Some(TrueFalseString { true_string: "Set", false_string: "Not set" })
    );
    assert_eq!(fields[13].field_type, FieldType::Uint24);
    assert_eq!(fields[13].display, FieldDisplay::BaseDec);
    assert_eq!(fields[27].filter, "macprivacy.reassembled_frame.msdu");
    assert_eq!(fields[27].field_type, FieldType::Bytes);
}

#[test]
fn filters_follow_field_names() {
    for field in build_mac_privacy_protocol().fields {
        assert_eq!(field.filter, format!("macprivacy.{}", field.name));
    }
}

#[test]
fn field_names_are_distinct() {
    let fields = build_mac_privacy_protocol().fields;
    for i in 0..fields.len() {
        for j in 0..i {
            assert_ne!(fields[i].name, fields[j].name);
        }
    }
}

#[test]
fn subtrees_and_remarks_are_registered() {
    let protocol = build_mac_privacy_protocol();
    assert_eq!(protocol.subtrees.len(), 7);
    assert_eq!(protocol.subtrees[0].name, "component");
    assert_eq!(protocol.subtrees[0].label, "MPPDU");
    assert_eq!(protocol.subtrees[6].name, "reassembled_frame.fragment");
    assert_eq!(protocol.expert_infos.len(), 3);
    assert_eq!(protocol.expert_infos[0].name, "expert_explicit_pad_length");
    assert_eq!(protocol.expert_infos[0].group, ExpertGroup::CommentsGroup);
    assert_eq!(protocol.expert_infos[0].severity, ExpertSeverity::Comment);
    assert_eq!(
        protocol.expert_infos[0].summary,
        "'Following length' may exceed the actual number of bytes in the pad if it exceeds \
         the number of octets remaining in the MPPDU"
    );
    assert_eq!(protocol.expert_infos[2].group, ExpertGroup::Malformed);
    assert_eq!(protocol.expert_infos[2].severity, ExpertSeverity::Warn);
}

#[test]
fn fragment_items_are_registered() {
    let protocol = build_mac_privacy_protocol();
    let items = &protocol.fragment_items;
    let is_field = |name: &str| protocol.fields.iter().any(|field| field.name == name);
    let is_subtree = |name: &str| protocol.subtrees.iter().any(|tree| tree.name == name);
    assert!(is_subtree(items.ett_fragment));
    assert!(is_subtree(items.ett_fragments));
    for name in [
        items.hf_fragments,
        items.hf_fragment,
        items.hf_fragment_overlap,
        items.hf_fragment_overlap_conflict,
        items.hf_fragment_multiple_tails,
        items.hf_fragment_too_long_fragment,
        items.hf_fragment_error,
        items.hf_fragment_count,
        items.hf_reassembled_in,
        items.hf_reassembled_length,
        items.hf_reassembled_data,
    ] {
        assert!(is_field(name));
    }
    assert_eq!(items.tag, "fragments");
}

#[test]
fn actions_use_registered_names() {
    let protocol = build_mac_privacy_protocol();
    let is_field = |name: &str| protocol.fields.iter().any(|field| field.name == name);
    let is_subtree = |name: &str| protocol.subtrees.iter().any(|tree| tree.name == name);

    // An encapsulated frame, an explicit pad, a fragment, an invalid component
    // and a trailing pad, the pads with an octet that is not zero.
    let mut packet = vec![0x00, 14];
    packet.extend_from_slice(&[0; 14]);
    packet.extend_from_slice(&[0x40, 2, 0, 1]);
    packet.extend_from_slice(&[0x80, 5, 0x70, 0, 0, 1, 9]);
    packet.extend_from_slice(&[0xc0, 0]);
    packet.extend_from_slice(&[0x00, 0, 5]);
    let mut plan = Plan::new();
    let result = dissect_packet(
        &packet,
        &vec![Some(vec![0; 14])],
        &vec![],
        &mut SequenceIds::new(),
        &mut Vec::new(),
        &mut plan,
    );
    assert_eq!(result, Ok(packet.len()));
    let actions: Vec<Action> = plan.into_actions();
    for action in &actions {
        match action {
            Op::Add { name, .. } => assert!(is_field(name) && is_subtree(name)),
            Op::AddItem { name, .. } => assert!(is_field(name)),
            Op::AddExpertInfo { name, remark, .. } => assert!(protocol
                .expert_infos
                .iter()
                .any(|info| info.name == *name && info.summary == *remark)),
            _ => {}
        }
    }
    assert_eq!(
        actions
            .iter()
            .filter(|action| matches!(action, Op::AddExpertInfo { .. }))
            .count(),
        3
    );
}
