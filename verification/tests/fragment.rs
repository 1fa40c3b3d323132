use mac_privacy_dissector::component::HEADER_LENGTH;
use mac_privacy_dissector::dissector::{Dissector, Step};
use mac_privacy_dissector::fragment::{
    sequence_id, Address, FragmentKey, FragmentRequest, FrameType, SequenceIds, SequenceOffset,
};
use mac_privacy_dissector::plan::Plan;
use mac_privacy_dissector::tvb::{Span, TvbSource};

/// What the first component of `packet`, a fragment, asks of the reassembly table.
fn request(packet: &[u8], sequences: &mut SequenceIds) -> FragmentRequest {
    let mut plan = Plan::new();
    let mut dissector = Dissector::start(packet, &mut plan);
    match dissector.step(&mut plan) {
        Step::Reassemble(fragment) => fragment.request(sequences),
        other => panic!("no fragment: {:?}", other),
    }
}

/// A fragment with four octets of data.
fn fragment(flags: u8, number: [u8; 3]) -> Vec<u8> {
    vec![0x80, 8, flags, number[0], number[1], number[2], 1, 2, 3, 4]
}

#[test]
fn sequence_ids_are_kept_for_each_channel() {
    let mut sequences = SequenceIds::new();
    assert_eq!(sequence_id(&mut sequences, false, true, 5), 0);
    assert_eq!(sequence_id(&mut sequences, true, true, 7), 7);
    assert_eq!(sequence_id(&mut sequences, false, false, 8), 0);
    assert_eq!(sequence_id(&mut sequences, true, false, 9), 9);
    assert_eq!(sequence_id(&mut sequences, false, true, 8), 7);
    assert_eq!(sequence_id(&mut sequences, false, false, 10), 9);
    assert_eq!(sequence_id(&mut sequences, true, true, u32::MAX), u32::MAX);
    assert_eq!(sequences, SequenceIds { express: u32::MAX, preemptable: 9 });
}

#[test]
fn frame_types_have_numbers() {
    assert_eq!(u32::from(FrameType::Preemptable), 0);
    assert_eq!(u32::from(FrameType::Express), 0x8000_0000);
    assert_eq!(FrameType::default(), FrameType::Preemptable);
}

#[test]
fn an_initial_fragment_counts_as_number_zero() {
    let mut sequences = SequenceIds::new();
    let request = request(&fragment(0x40, [0, 1, 2]), &mut sequences);
    assert_eq!(request.id, 0x102);
    assert!(!request.express);
    assert_eq!(request.sequence_id, 0x102);
    assert_eq!(request.fragment_number, 0);
    assert!(request.more_fragments);
    assert_eq!(
        request.sequence_offset,
        Some(SequenceOffset { id: 0, offset: 0x102 })
    );
    assert_eq!(
        request.data,
        Span { source: TvbSource::Packet, offset: 6, length: 4 }
    );
    assert_eq!(
        request.payload,
        Span { source: TvbSource::Packet, offset: HEADER_LENGTH, length: 8 }
    );
    assert_eq!(request.title, "Reassembled Frame");
    assert_eq!(sequences, SequenceIds { express: 0, preemptable: 0x102 });
}

#[test]
fn fragments_of_one_frame_share_an_identifier() {
    let mut sequences = SequenceIds::new();
    let first = request(&fragment(0x50, [0xff, 0xff, 0xff]), &mut sequences);
    // A sequence on the other channel comes between.
    let other = request(&fragment(0x40, [0, 0, 3]), &mut sequences);
    let middle = request(&fragment(0x10, [0, 0, 0]), &mut sequences);
    let last = request(&fragment(0x30, [0, 0, 1]), &mut sequences);

    assert_eq!(first.id, 0x80ff_ffff);
    assert_eq!(
        first.sequence_offset,
        Some(SequenceOffset { id: 0x8000_0000, offset: 0xff_ffff })
    );
    assert_eq!(other.id, 3);
    for later in [middle, last] {
        assert_eq!(later.id, first.id);
        assert_eq!(later.express, first.express);
        assert_eq!(later.sequence_id, first.sequence_id);
        assert_eq!(later.sequence_offset, None);
    }
    assert_eq!(middle.fragment_number, 0);
    assert!(middle.more_fragments);
    assert_eq!(last.fragment_number, 1);
    assert!(!last.more_fragments);
}

fn key(express: bool, sequence_id: u32, last_octet: u8) -> FragmentKey {
    FragmentKey {
        express,
        sequence_id,
        source_address: Address { address_type: 1, bytes: vec![2, 0, 0, 0, 0, 1] },
        destination_address: Address { address_type: 1, bytes: vec![2, 0, 0, 0, 0, last_octet] },
    }
}

#[test]
fn keys_are_equal_by_their_parts() {
    let a = key(true, 7, 2);
    assert!(FragmentKey::key_equal(Some(&a), Some(&key(true, 7, 2))));
    assert!(!FragmentKey::key_equal(Some(&a), Some(&key(false, 7, 2))));
    assert!(!FragmentKey::key_equal(Some(&a), Some(&key(true, 8, 2))));
    assert!(!FragmentKey::key_equal(Some(&a), Some(&key(true, 7, 3))));
    let mut b = key(true, 7, 2);
    b.source_address.address_type = 2;
    assert!(!FragmentKey::key_equal(Some(&a), Some(&b)));
    let mut b = key(true, 7, 2);
    b.source_address.bytes.push(0);
    assert!(!FragmentKey::key_equal(Some(&a), Some(&b)));
}

#[test]
fn a_missing_key_equals_none() {
    let a = key(true, 7, 2);
    assert!(!FragmentKey::key_equal(None, Some(&a)));
    assert!(!FragmentKey::key_equal(Some(&a), None));
    assert!(!FragmentKey::key_equal(None, None));
}

#[test]
fn equal_keys_hash_alike() {
    assert_eq!(key(true, 7, 2).key_hash(), key(true, 7, 2).key_hash());
    assert_ne!(key(true, 7, 2).key_hash(), key(false, 7, 2).key_hash());
    assert_ne!(key(true, 7, 2).key_hash(), key(true, 8, 2).key_hash());
    assert_ne!(key(true, 7, 2).key_hash(), key(true, 7, 3).key_hash());
}

#[test]
fn a_kept_key_is_a_copy() {
    let a = key(true, 7, 2);
    let copy = FragmentKey::persistent_key(Some(&a)).unwrap();
    assert!(FragmentKey::key_equal(Some(&a), Some(&copy)));
    assert_eq!(a.key_hash(), copy.key_hash());
    assert!(FragmentKey::persistent_key(None).is_none());
}

#[test]
fn the_key_holds_the_link_layer_addresses() {
    let mut sequences = SequenceIds::new();
    let request = request(&fragment(0x50, [0, 0, 9]), &mut sequences);
    let source = Address { address_type: 1, bytes: vec![1, 2, 3, 4, 5, 6] };
    let destination = Address { address_type: 1, bytes: vec![7, 8, 9, 10, 11, 12] };
    let key = request.key(source.clone(), destination.clone());
    assert!(key.express);
    assert_eq!(key.sequence_id, 9);
    assert!(key.source_address == source);
    assert!(key.destination_address == destination);
}
