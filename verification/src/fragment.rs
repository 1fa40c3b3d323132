//! How frame fragments are numbered and keyed for reassembly.

use std::hash::{DefaultHasher, Hasher};

use vstd::prelude::*;
use vstd::std_specs::cmp::PartialEqSpec;
use vstd::std_specs::hash::DefaultHasherAdditionalSpecFns;

use crate::component::{EXPRESS_FRAME, FINAL_FRAME, INITIAL_FRAME};
use crate::tvb::{Span, TvbRange};

verus! {

/// The largest sequence number that a fragment header can hold.
pub const MAX_SEQUENCE_NUMBER: u32 = 0xff_ffff;

/// Frame type or priority.
///
/// 802.1AEdk-2023 20.13 identifies 2 priority levels for frames: Express and
/// Preemptable.
#[derive(Clone, Copy, Debug, PartialEq, Eq, Hash, Structural)]
pub enum FrameType {
    /// Preemptable frame.
    Preemptable,
    /// Express frame.
    Express,
}

impl Default for FrameType {
    fn default() -> (frame_type: Self)
        ensures
            frame_type == FrameType::Preemptable,
    {
        FrameType::Preemptable
    }
}

/// The number that stands for a frame type in fragment identifiers.
pub open spec fn frame_type_value(frame_type: FrameType) -> u32 {
    match frame_type {
        FrameType::Preemptable => 0,
        FrameType::Express => 0x8000_0000,
    }
}

impl From<FrameType> for u32 {
    fn from(value: FrameType) -> (number: Self) {
        match value {
            FrameType::Preemptable => 0,
            FrameType::Express => 0x8000_0000,
        }
    }
}

impl vstd::std_specs::convert::FromSpecImpl<FrameType> for u32 {
    open spec fn obeys_from_spec() -> bool {
        true
    }

    open spec fn from_spec(value: FrameType) -> u32 {
        frame_type_value(value)
    }
}

/// Sequence ID of the initial frame fragment in the current fragment sequence,
/// for each channel.
#[derive(Clone, Copy, Debug, PartialEq, Eq, Structural)]
pub struct SequenceIds {
    /// On the express channel.
    pub express: u32,
    /// On the preemptable channel.
    pub preemptable: u32,
}

impl SequenceIds {
    /// Whether both identifiers are sequence numbers of fragments.
    pub open spec fn wf(self) -> bool {
        self.express <= MAX_SEQUENCE_NUMBER && self.preemptable <= MAX_SEQUENCE_NUMBER
    }

    /// The identifier for a channel.
    pub open spec fn channel(self, express: bool) -> u32 {
        if express {
            self.express
        } else {
            self.preemptable
        }
    }

    /// The identifiers after a fragment was seen: an initial fragment sets that
    /// of its channel to its number.
    pub open spec fn after(self, initial: bool, express: bool, number: u32) -> SequenceIds {
        if !initial {
            self
        } else if express {
            SequenceIds { express: number, ..self }
        } else {
            SequenceIds { preemptable: number, ..self }
        }
    }

    /// The identifiers before any fragment was seen.
    pub fn new() -> (sequences: Self)
        ensures
            sequences == (SequenceIds { express: 0, preemptable: 0 }),
            sequences.wf(),
    {
        SequenceIds { express: 0, preemptable: 0 }
    }
}

/// Uses frame metadata to determine a sequence ID for a frame fragment before
/// it is added to a fragment table.
///
/// A fragment table's requirements on fragment IDs are stricter than those of
/// MAC Privacy. This function does the bookkeeping: every fragment gets the
/// number of the initial fragment that came last on its channel.
pub fn sequence_id(
    sequences: &mut SequenceIds,
    is_initial_frame: bool,
    is_express_frame: bool,
    frame_sequence_number: u32,
) -> (id: u32)
    ensures
        *final(sequences) == old(sequences).after(
            is_initial_frame,
            is_express_frame,
            frame_sequence_number,
        ),
        id == final(sequences).channel(is_express_frame),
        is_initial_frame ==> id == frame_sequence_number,
        id == if is_express_frame {
            final(sequences).express
        } else {
            final(sequences).preemptable
        },
        !(is_initial_frame && is_express_frame) ==> final(sequences).express == old(
            sequences,
        ).express,
        !(is_initial_frame && !is_express_frame) ==> final(sequences).preemptable == old(
            sequences,
        ).preemptable,
{
    if is_initial_frame {
        if is_express_frame {
            sequences.express = frame_sequence_number;
        } else {
            sequences.preemptable = frame_sequence_number;
        }
        frame_sequence_number
    } else if is_express_frame {
        sequences.express
    } else {
        sequences.preemptable
    }
}

/// A frame fragment, as far as it matters for reassembly.
pub struct FragmentModel {
    /// The octets of the component after its header.
    pub payload: Seq<u8>,
    /// Where they lie.
    pub span: Span,
    /// The flags.
    pub flags: u8,
    /// The sequence number.
    pub sequence_number: u32,
    /// Where the part of the frame lies.
    pub data: Span,
}

/// A frame fragment that is to be added to the reassembly table.
#[derive(Clone, Copy, Debug)]
pub struct FrameFragment<'a> {
    payload: TvbRange<'a>,
    flags: u8,
    sequence_number: u32,
    data: TvbRange<'a>,
}

impl<'a> View for FrameFragment<'a> {
    type V = FragmentModel;

    closed spec fn view(&self) -> FragmentModel {
        FragmentModel {
            payload: self.payload@,
            span: self.payload.spec_span(),
            flags: self.flags,
            sequence_number: self.sequence_number,
            data: self.data.spec_span(),
        }
    }
}

/// What to tell the reassembly table so that it counts the fragments of a
/// sequence from their initial one.
#[derive(Clone, Copy, Debug, PartialEq, Eq, Structural)]
pub struct SequenceOffset {
    /// The number that stands for the frame type, see [`frame_type_value`]. Unlike
    /// [`FragmentRequest::id`] it does not hold the sequence ID.
    pub id: u32,
    /// The number of the initial fragment.
    pub offset: u32,
}

/// How a frame fragment goes into the reassembly table.
#[derive(Clone, Copy, Debug)]
pub struct FragmentRequest {
    /// The part of the frame that the fragment holds.
    pub data: Span,
    /// The fragment identifier.
    pub id: u32,
    /// Whether the fragment came on the express channel; part of the key.
    pub express: bool,
    /// Sequence ID of the initial fragment; part of the key.
    pub sequence_id: u32,
    /// The number of the fragment.
    pub fragment_number: u32,
    /// Whether fragments are to follow.
    pub more_fragments: bool,
    /// The adjustment of the numbering to make once the fragment is in, if any.
    pub sequence_offset: Option<SequenceOffset>,
    /// The octets to show the reassembled frame for.
    pub payload: Span,
    /// The name of the reassembled data.
    pub title: &'static str,
}

/// The type of a fragment's frame.
pub open spec fn frame_type_of(express: bool) -> FrameType {
    if express {
        FrameType::Express
    } else {
        FrameType::Preemptable
    }
}

/// The fragment identifier for a sequence on a channel.
pub open spec fn fragment_id(express: bool, sequence_id: u32) -> int {
    frame_type_value(frame_type_of(express)) + sequence_id
}

/// What a request to the reassembly table says.
pub struct RequestModel {
    /// The part of the frame that the fragment holds.
    pub data: Span,
    /// The fragment identifier.
    pub id: int,
    /// Whether the fragment came on the express channel.
    pub express: bool,
    /// Sequence ID of the initial fragment.
    pub sequence_id: u32,
    /// The number of the fragment.
    pub fragment_number: u32,
    /// Whether fragments are to follow.
    pub more_fragments: bool,
    /// The adjustment of the numbering.
    pub sequence_offset: Option<SequenceOffset>,
    /// The octets to show the reassembled frame for.
    pub payload: Span,
    /// The name of the reassembled data.
    pub title: Seq<char>,
}

impl View for FragmentRequest {
    type V = RequestModel;

    open spec fn view(&self) -> RequestModel {
        RequestModel {
            data: self.data,
            id: self.id as int,
            express: self.express,
            sequence_id: self.sequence_id,
            fragment_number: self.fragment_number,
            more_fragments: self.more_fragments,
            sequence_offset: self.sequence_offset,
            payload: self.payload,
            title: self.title@,
        }
    }
}

/// The identifiers after `fragment` was seen.
pub open spec fn after_fragment(sequences: SequenceIds, fragment: FragmentModel) -> SequenceIds {
    let seen = seen_of(fragment);
    sequences.after(seen.initial, seen.express, seen.number)
}

/// How `fragment` goes into the reassembly table, with the identifiers that are
/// there before it. The table expects the number of an initial fragment to be
/// zero, and moves its numbering to the number that the fragment has.
pub open spec fn request_of(sequences: SequenceIds, fragment: FragmentModel) -> RequestModel {
    let initial = crate::model::is_initial(fragment.flags);
    let express = crate::model::is_express(fragment.flags);
    let sequence_id = after_fragment(sequences, fragment).channel(express);
    RequestModel {
        data: fragment.data,
        id: fragment_id(express, sequence_id),
        express,
        sequence_id,
        fragment_number: if initial {
            0
        } else {
            fragment.sequence_number
        },
        more_fragments: !crate::model::is_final(fragment.flags),
        sequence_offset: if initial {
            Some(
                SequenceOffset {
                    id: frame_type_value(frame_type_of(express)),
                    offset: fragment.sequence_number,
                },
            )
        } else {
            None
        },
        payload: fragment.span,
        title: "Reassembled Frame"@,
    }
}

impl<'a> FrameFragment<'a> {
    #[verifier::type_invariant]
    spec fn number_in_range(self) -> bool {
        self.sequence_number <= MAX_SEQUENCE_NUMBER
    }

    /// A fragment with the given parts.
    pub(crate) fn new(
        payload: TvbRange<'a>,
        flags: u8,
        sequence_number: u32,
        data: TvbRange<'a>,
    ) -> (fragment: Self)
        requires
            sequence_number <= MAX_SEQUENCE_NUMBER,
        ensures
            fragment@ == (FragmentModel {
                payload: payload@,
                span: payload.spec_span(),
                flags,
                sequence_number,
                data: data.spec_span(),
            }),
    {
        FrameFragment { payload, flags, sequence_number, data }
    }

    /// The octets of the component after its header.
    pub fn payload(&self) -> (payload: TvbRange<'a>)
        ensures
            payload@ == self@.payload,
            payload.spec_span() == self@.span,
    {
        self.payload
    }

    /// Works out how the fragment goes into the reassembly table, and notes its
    /// number if it starts a sequence.
    pub fn request(&self, sequences: &mut SequenceIds) -> (request: FragmentRequest)
        requires
            old(sequences).wf(),
        ensures
            final(sequences).wf(),
            *final(sequences) == after_fragment(*old(sequences), self@),
            request@ == request_of(*old(sequences), self@),
            request.more_fragments <==> self@.flags & 0x20 == 0,
            request.express <==> self@.flags & 0x10 != 0,
            request.id == request.sequence_id + if request.express {
                0x8000_0000int
            } else {
                0int
            },
            request.sequence_id == if request.express {
                final(sequences).express
            } else {
                final(sequences).preemptable
            },
            self@.flags & 0x40 != 0 ==> {
                &&& request.sequence_id == self@.sequence_number
                &&& request.fragment_number == 0
                &&& request.sequence_offset matches Some(moved) && moved.offset
                    == self@.sequence_number && moved.id == request.id - request.sequence_id
            },
            self@.flags & 0x40 == 0 ==> {
                &&& *final(sequences) == *old(sequences)
                &&& request.fragment_number == self@.sequence_number
                &&& request.sequence_offset is None
            },
            request.data == self@.data,
            request.payload == self@.span,
    {
        proof {
            use_type_invariant(&*self);
        }
        let flags: u8 = self.flags;
        proof {
            lemma_flag_bits(flags);
            lemma_bits_of_flags(flags);
        }
        let is_express_frame = flags & EXPRESS_FRAME == EXPRESS_FRAME;
        let is_initial_frame = flags & INITIAL_FRAME == INITIAL_FRAME;
        let is_final_frame = flags & FINAL_FRAME == FINAL_FRAME;

        let frame_type = if is_express_frame {
            FrameType::Express
        } else {
            FrameType::Preemptable
        };

        // The table expects the number of an initial fragment to be zero.
        let fragment_number: u32 = if is_initial_frame {
            0
        } else {
            self.sequence_number
        };

        let sequence_id: u32 = self::sequence_id(
            sequences,
            is_initial_frame,
            is_express_frame,
            self.sequence_number,
        );

        // With an initial fragment the table's numbering moves to its number, so
        // that the fragments which follow count as contiguous.
        let sequence_offset = if is_initial_frame {
            Some(SequenceOffset { id: u32::from(frame_type), offset: self.sequence_number })
        } else {
            None
        };

        FragmentRequest {
            data: self.data.span(),
            id: u32::from(frame_type) + sequence_id,
            express: is_express_frame,
            sequence_id,
            fragment_number,
            more_fragments: !is_final_frame,
            sequence_offset,
            payload: self.payload.span(),
            title: "Reassembled Frame",
        }
    }
}

/// The masks pick out the bits that the flags are defined by.
pub(crate) proof fn lemma_flag_bits(flags: u8)
    ensures
        (flags & INITIAL_FRAME == INITIAL_FRAME) == crate::model::is_initial(flags),
        (flags & FINAL_FRAME == FINAL_FRAME) == crate::model::is_final(flags),
        (flags & EXPRESS_FRAME == EXPRESS_FRAME) == crate::model::is_express(flags),
{
    assert((flags & 0b0100_0000 == 0b0100_0000) == ((flags / 64) % 2 == 1)) by (bit_vector);
    assert((flags & 0b0010_0000 == 0b0010_0000) == ((flags / 32) % 2 == 1)) by (bit_vector);
    assert((flags & 0b0001_0000 == 0b0001_0000) == ((flags / 16) % 2 == 1)) by (bit_vector);
}

/// A link-layer address.
#[derive(Debug)]
pub struct Address {
    /// The kind of address.
    pub address_type: i32,
    /// Its octets.
    pub bytes: Vec<u8>,
}

/// What a link-layer address is.
pub struct AddressModel {
    /// The kind of address.
    pub address_type: i32,
    /// Its octets.
    pub bytes: Seq<u8>,
}

impl View for Address {
    type V = AddressModel;

    open spec fn view(&self) -> AddressModel {
        AddressModel { address_type: self.address_type, bytes: self.bytes@ }
    }
}

impl Clone for Address {
    fn clone(&self) -> (copy: Self)
        ensures
            copy@ == self@,
    {
        let mut bytes: Vec<u8> = Vec::new();
        let mut i: usize = 0;
        while i < self.bytes.len()
            invariant
                i <= self.bytes.len(),
                bytes@ == self.bytes@.take(i as int),
            decreases self.bytes.len() - i,
        {
            bytes.push(self.bytes[i]);
            proof {
                assert(self.bytes@.take(i + 1) =~= self.bytes@.take(i as int).push(
                    self.bytes@[i as int],
                ));
            }
            i += 1;
        }
        proof {
            assert(self.bytes@.take(i as int) =~= self.bytes@);
        }
        Address { address_type: self.address_type, bytes }
    }
}

impl PartialEq for Address {
    fn eq(&self, other: &Self) -> (equal: bool) {
        if self.address_type != other.address_type || self.bytes.len() != other.bytes.len() {
            return false;
        }
        let mut i: usize = 0;
        while i < self.bytes.len()
            invariant
                i <= self.bytes.len(),
                self.bytes.len() == other.bytes.len(),
                forall|j: int| 0 <= j < i ==> self.bytes@[j] == other.bytes@[j],
            decreases self.bytes.len() - i,
        {
            if self.bytes[i] != other.bytes[i] {
                return false;
            }
            i += 1;
        }
        proof {
            assert(self.bytes@ =~= other.bytes@);
        }
        true
    }
}

impl vstd::std_specs::cmp::PartialEqSpecImpl for Address {
    open spec fn obeys_eq_spec() -> bool {
        true
    }

    open spec fn eq_spec(&self, other: &Self) -> bool {
        self@ == other@
    }
}

/// Fragment metadata used by the reassembly table when reassembling frames.
///
/// The addresses are those of the link layer, which dissection of the
/// components does not change.
#[derive(Debug)]
pub struct FragmentKey {
    /// Whether the frame is an express frame.
    pub express: bool,
    /// Sequence ID of the initial frame fragment in the current fragment sequence.
    pub sequence_id: u32,
    /// Link-layer source address.
    pub source_address: Address,
    /// Link-layer destination address.
    pub destination_address: Address,
}

/// What a fragment key is.
pub struct FragmentKeyModel {
    /// Whether the frame is an express frame.
    pub express: bool,
    /// Sequence ID of the initial frame fragment.
    pub sequence_id: u32,
    /// Link-layer source address.
    pub source_address: AddressModel,
    /// Link-layer destination address.
    pub destination_address: AddressModel,
}

impl View for FragmentKey {
    type V = FragmentKeyModel;

    open spec fn view(&self) -> FragmentKeyModel {
        FragmentKeyModel {
            express: self.express,
            sequence_id: self.sequence_id,
            source_address: self.source_address@,
            destination_address: self.destination_address@,
        }
    }
}

impl Clone for FragmentKey {
    fn clone(&self) -> (copy: Self)
        ensures
            copy@ == self@,
    {
        FragmentKey {
            express: self.express,
            sequence_id: self.sequence_id,
            source_address: self.source_address.clone(),
            destination_address: self.destination_address.clone(),
        }
    }
}

impl PartialEq for FragmentKey {
    fn eq(&self, other: &Self) -> (equal: bool) {
        self.express == other.express && self.sequence_id == other.sequence_id
            && self.source_address == other.source_address && self.destination_address
            == other.destination_address
    }
}

impl vstd::std_specs::cmp::PartialEqSpecImpl for FragmentKey {
    open spec fn obeys_eq_spec() -> bool {
        true
    }

    open spec fn eq_spec(&self, other: &Self) -> bool {
        self@ == other@
    }
}

impl FragmentRequest {
    /// The key of the fragment's sequence, for a packet with these link-layer
    /// addresses.
    pub fn key(&self, source: Address, destination: Address) -> (key: FragmentKey)
        ensures
            key@ == (FragmentKeyModel {
                express: self.express,
                sequence_id: self.sequence_id,
                source_address: source@,
                destination_address: destination@,
            }),
            key.express == self.express,
            key.sequence_id == self.sequence_id,
            key.source_address == source,
            key.destination_address == destination,
    {
        FragmentKey {
            express: self.express,
            sequence_id: self.sequence_id,
            source_address: source,
            destination_address: destination,
        }
    }
}

/// The octets of a number, the lowest first.
pub open spec fn le_octets(n: nat, count: nat) -> Seq<u8>
    decreases count,
{
    if count == 0 {
        Seq::empty()
    } else {
        seq![(n % 256) as u8] + le_octets(n / 256, (count - 1) as nat)
    }
}

/// What is hashed for an address.
pub open spec fn address_writes(address: AddressModel) -> Seq<Seq<u8>> {
    seq![
        le_octets(address.address_type as u32 as nat, 4),
        le_octets(address.bytes.len(), 8),
        address.bytes,
    ]
}

/// What is hashed for a key: each field in turn.
pub open spec fn key_writes(key: FragmentKeyModel) -> Seq<Seq<u8>> {
    let express: u8 = if key.express {
        1
    } else {
        0
    };
    seq![seq![express], le_octets(key.sequence_id as nat, 4)] + address_writes(
        key.source_address,
    ) + address_writes(key.destination_address)
}

/// The hash of a key.
pub open spec fn key_hash_value(key: FragmentKeyModel) -> u32 {
    (DefaultHasher::spec_finish(key_writes(key)) % 0x1_0000_0000) as u32
}

/// The lowest `count` octets of `n`, the lowest first.
fn le_octets_of(n: u64, count: usize) -> (octets: Vec<u8>)
    ensures
        octets@ == le_octets(n as nat, count as nat),
    decreases count,
{
    if count == 0 {
        let octets: Vec<u8> = Vec::new();
        proof {
            assert(octets@ =~= Seq::empty());
        }
        octets
    } else {
        let mut octets: Vec<u8> = Vec::new();
        octets.push((n % 256) as u8);
        let mut rest = le_octets_of(n / 256, count - 1);
        octets.append(&mut rest);
        octets
    }
}

impl Address {
    /// Feeds the address to a hasher.
    fn hash_into(&self, hasher: &mut DefaultHasher)
        ensures
            final(hasher)@ == old(hasher)@ + address_writes(self@),
    {
        hasher.write(le_octets_of(self.address_type as u32 as u64, 4).as_slice());
        hasher.write(le_octets_of(self.bytes.len() as u64, 8).as_slice());
        hasher.write(self.bytes.as_slice());
        proof {
            assert(hasher@ =~= old(hasher)@ + address_writes(self@));
        }
    }
}

impl FragmentKey {
    /// Checks if two keys are equal. A key that is not there equals none.
    pub fn key_equal(a: Option<&FragmentKey>, b: Option<&FragmentKey>) -> (equal: bool)
        ensures
            equal == (a is Some && b is Some && a->0@ == b->0@),
    {
        match (a, b) {
            (Some(a), Some(b)) => *a == *b,
            _ => false,
        }
    }

    /// Computes the hash of a key, cut to the width that a reassembly table uses.
    pub fn key_hash(&self) -> (hash: u32)
        ensures
            hash == key_hash_value(self@),
    {
        let mut hasher = DefaultHasher::new();
        let express: u8 = if self.express {
            1
        } else {
            0
        };
        let mut octets: Vec<u8> = Vec::new();
        octets.push(express);
        hasher.write(octets.as_slice());
        hasher.write(le_octets_of(self.sequence_id as u64, 4).as_slice());
        self.source_address.hash_into(&mut hasher);
        self.destination_address.hash_into(&mut hasher);
        proof {
            assert(octets@ =~= seq![express]);
            assert(hasher@ =~= key_writes(self@));
        }
        let hash_value: u64 = hasher.finish();
        (hash_value % 0x1_0000_0000) as u32
    }

    /// Copies a key, for a table to keep. Gives none if there is none.
    pub fn persistent_key(data: Option<&FragmentKey>) -> (copy: Option<FragmentKey>)
        ensures
            copy is Some <==> data is Some,
            copy matches Some(key) ==> key@ == data->0@,
    {
        match data {
            Some(key) => Some(key.clone()),
            None => None,
        }
    }
}

/// A fragment that was seen: whether it is initial, its channel and its number.
pub struct Seen {
    /// Whether it is an initial fragment.
    pub initial: bool,
    /// Whether it came on the express channel.
    pub express: bool,
    /// Its number.
    pub number: u32,
}

/// What matters of a fragment for the identifiers.
pub open spec fn seen_of(fragment: FragmentModel) -> Seen {
    Seen {
        initial: crate::model::is_initial(fragment.flags),
        express: crate::model::is_express(fragment.flags),
        number: fragment.sequence_number,
    }
}

/// What matters of a list of fragments for the identifiers.
pub open spec fn all_seen(fragments: Seq<FragmentModel>) -> Seq<Seen> {
    fragments.map_values(|fragment: FragmentModel| seen_of(fragment))
}

/// How a list of fragments goes into the reassembly table, one after the other.
pub open spec fn requests_of(
    sequences: SequenceIds,
    fragments: Seq<FragmentModel>,
) -> Seq<RequestModel> {
    Seq::new(
        fragments.len(),
        |i: int| request_of(after_all(sequences, all_seen(fragments.take(i))), fragments[i]),
    )
}

/// The contents of a list of requests.
pub open spec fn request_views(requests: Seq<FragmentRequest>) -> Seq<RequestModel> {
    requests.map_values(|request: FragmentRequest| request@)
}

/// The identifiers after the fragments `seen`, in order.
pub open spec fn after_all(sequences: SequenceIds, seen: Seq<Seen>) -> SequenceIds
    decreases seen.len(),
{
    if seen.len() == 0 {
        sequences
    } else {
        let last = seen.last();
        after_all(sequences, seen.drop_last()).after(last.initial, last.express, last.number)
    }
}

/// The identifiers after two lists of fragments, and how both go into the
/// reassembly table.
pub(crate) proof fn lemma_fragments_together(
    sequences: SequenceIds,
    a: Seq<FragmentModel>,
    b: Seq<FragmentModel>,
)
    ensures
        after_all(sequences, all_seen(a + b)) == after_all(
            after_all(sequences, all_seen(a)),
            all_seen(b),
        ),
        requests_of(sequences, a + b) == requests_of(sequences, a) + requests_of(
            after_all(sequences, all_seen(a)),
            b,
        ),
    decreases b.len(),
{
    let both = a + b;
    if b.len() == 0 {
        assert(both =~= a);
        assert(requests_of(sequences, both) =~= requests_of(sequences, a) + requests_of(
            after_all(sequences, all_seen(a)),
            b,
        ));
    } else {
        let init = b.drop_last();
        lemma_fragments_together(sequences, a, init);
        assert(all_seen(both).drop_last() =~= all_seen(a + init));
        assert(all_seen(b).drop_last() =~= all_seen(init));
        assert forall|i: int| 0 <= i < both.len() implies #[trigger] requests_of(
            sequences,
            both,
        )[i] == (requests_of(sequences, a) + requests_of(
            after_all(sequences, all_seen(a)),
            b,
        ))[i] by {
            if i < a.len() {
                assert(both.take(i) =~= a.take(i));
            } else if i == both.len() - 1 {
                assert(both.take(i) =~= a + init);
                assert(b.take(i - a.len()) =~= init);
            } else {
                let all = requests_of(sequences, a + init);
                assert(both.take(i) =~= (a + init).take(i));
                assert(b.take(i - a.len()) =~= init.take(i - a.len()));
                assert(all[i] == (requests_of(sequences, a) + requests_of(
                    after_all(sequences, all_seen(a)),
                    init,
                ))[i]);
            }
        }
        assert(requests_of(sequences, both) =~= requests_of(sequences, a) + requests_of(
            after_all(sequences, all_seen(a)),
            b,
        ));
    }
}

/// From an initial fragment on, every fragment of its channel gets its number
/// as sequence ID, and with it the same fragment identifier, until the next
/// initial fragment of the channel. What comes on the other channel does not
/// matter.
pub proof fn law_fragments_follow_their_initial_one(
    sequences: SequenceIds,
    express: bool,
    first: u32,
    between: Seq<Seen>,
    number: u32,
)
    requires
        forall|i: int|
            0 <= i < between.len() && #[trigger] between[i].initial ==> between[i].express
                != express,
    ensures
        ({
            let started = sequences.after(true, express, first);
            let continued = after_all(started, between).after(false, express, number);
            &&& started.channel(express) == first
            &&& continued.channel(express) == first
            &&& fragment_id(express, continued.channel(express)) == fragment_id(
                express,
                started.channel(express),
            )
        }),
    decreases between.len(),
{
    if between.len() > 0 {
        assert(between.last() == between[between.len() - 1]);
        assert forall|i: int|
            0 <= i < between.drop_last().len()
                && #[trigger] between.drop_last()[i].initial implies between.drop_last()[i].express
            != express by {
            assert(between.drop_last()[i] == between[i]);
        }
        law_fragments_follow_their_initial_one(
            sequences,
            express,
            first,
            between.drop_last(),
            number,
        );
    }
}

/// Fragment identifiers tell sequences apart: two are the same only for the same
/// channel and the same sequence ID. They fit the width of an identifier.
pub proof fn law_fragment_ids_are_distinct(
    express: bool,
    sequence_id: u32,
    other_express: bool,
    other_sequence_id: u32,
)
    requires
        sequence_id <= MAX_SEQUENCE_NUMBER,
        other_sequence_id <= MAX_SEQUENCE_NUMBER,
    ensures
        0 <= fragment_id(express, sequence_id) <= u32::MAX,
        fragment_id(express, sequence_id) == fragment_id(other_express, other_sequence_id)
            <==> express == other_express && sequence_id == other_sequence_id,
{
}

/// Fragments with numbers that a header can hold keep the identifiers valid.
pub proof fn law_sequence_ids_stay_valid(sequences: SequenceIds, seen: Seq<Seen>)
    requires
        sequences.wf(),
        forall|i: int| 0 <= i < seen.len() ==> (#[trigger] seen[i]).number <= MAX_SEQUENCE_NUMBER,
    ensures
        after_all(sequences, seen).wf(),
    decreases seen.len(),
{
    if seen.len() > 0 {
        assert(seen.last() == seen[seen.len() - 1]);
        assert forall|i: int| 0 <= i < seen.drop_last().len() implies (
        #[trigger] seen.drop_last()[i]).number <= MAX_SEQUENCE_NUMBER by {
            assert(seen.drop_last()[i] == seen[i]);
        }
        law_sequence_ids_stay_valid(sequences, seen.drop_last());
    }
}

/// Keys that are equal have the same hash, as a hash table demands.
pub proof fn law_equal_keys_hash_alike(a: FragmentKey, b: FragmentKey)
    requires
        a.eq_spec(&b),
    ensures
        key_hash_value(a@) == key_hash_value(b@),
{
}

/// Equality of keys is reflexive, symmetric and transitive, as a hash table
/// demands.
pub proof fn law_key_equality_is_an_equivalence(a: FragmentKey, b: FragmentKey, c: FragmentKey)
    ensures
        a.eq_spec(&a),
        a.eq_spec(&b) ==> b.eq_spec(&a),
        a.eq_spec(&b) && b.eq_spec(&c) ==> a.eq_spec(&c),
{
}

/// What a bit of the flags is worth.
proof fn lemma_bits_of_flags(flags: u8)
    ensures
        (flags & 0x40 != 0) == crate::model::is_initial(flags),
        (flags & 0x20 != 0) == crate::model::is_final(flags),
        (flags & 0x10 != 0) == crate::model::is_express(flags),
{
    assert((flags & 0x40 != 0) == ((flags / 64) % 2 == 1)) by (bit_vector);
    assert((flags & 0x20 != 0) == ((flags / 32) % 2 == 1)) by (bit_vector);
    assert((flags & 0x10 != 0) == ((flags / 16) % 2 == 1)) by (bit_vector);
}

/// A request announces that fragments follow if and only if the bit 0x20 of the
/// flags is clear, and is for the express channel if and only if the bit 0x10 is
/// set. Its fragment identifier is the sequence ID, with the upper bit set for the
/// express channel.
pub proof fn law_request_follows_flags(sequences: SequenceIds, fragment: FragmentModel)
    ensures
        ({
            let request = request_of(sequences, fragment);
            &&& request.more_fragments <==> fragment.flags & 0x20 == 0
            &&& request.express <==> fragment.flags & 0x10 != 0
            &&& request.id == request.sequence_id + if fragment.flags & 0x10 != 0 {
                0x8000_0000int
            } else {
                0int
            }
            &&& request.data == fragment.data
            &&& request.payload == fragment.span
        }),
{
    lemma_bits_of_flags(fragment.flags);
}

/// A fragment with the bit 0x40 of the flags set starts a sequence: the table gets
/// it as number zero, its own number is the sequence ID, and the numbering of its
/// channel moves there.
pub proof fn law_request_for_initial_fragment(sequences: SequenceIds, fragment: FragmentModel)
    requires
        fragment.flags & 0x40 != 0,
    ensures
        ({
            let request = request_of(sequences, fragment);
            &&& request.fragment_number == 0
            &&& request.sequence_id == fragment.sequence_number
            &&& request.sequence_offset matches Some(moved) && moved.offset
                == fragment.sequence_number && moved.id == if fragment.flags & 0x10 != 0 {
                0x8000_0000int
            } else {
                0int
            }
        }),
{
    lemma_bits_of_flags(fragment.flags);
}

/// Any other fragment goes in under its own number, with the sequence ID that its
/// channel has, and moves nothing.
pub proof fn law_request_for_later_fragment(sequences: SequenceIds, fragment: FragmentModel)
    requires
        fragment.flags & 0x40 == 0,
    ensures
        ({
            let request = request_of(sequences, fragment);
            &&& request.fragment_number == fragment.sequence_number
            &&& request.sequence_id == if fragment.flags & 0x10 != 0 {
                sequences.express
            } else {
                sequences.preemptable
            }
            &&& request.sequence_offset is None
        }),
{
    lemma_bits_of_flags(fragment.flags);
}

/// The channel does not matter for the number of a fragment, nor for whether
/// fragments follow: two fragments whose flags differ in the bit 0x10 alone, if
/// at all, agree in both.
pub proof fn law_channels_number_alike(
    sequences: SequenceIds,
    others: SequenceIds,
    a: FragmentModel,
    b: FragmentModel,
)
    requires
        a.flags | 0x10 == b.flags | 0x10,
        a.sequence_number == b.sequence_number,
    ensures
        request_of(sequences, a).more_fragments == request_of(others, b).more_fragments,
        request_of(sequences, a).fragment_number == request_of(others, b).fragment_number,
{
    let x = a.flags;
    let y = b.flags;
    assert(x | 0x10 == y | 0x10 ==> (x & 0x20 == 0) == (y & 0x20 == 0) && (x & 0x40 == 0) == (y
        & 0x40 == 0)) by (bit_vector);
    lemma_bits_of_flags(x);
    lemma_bits_of_flags(y);
}

/// A fragment changes the identifier of its own channel only, and only if it is an
/// initial one; the identifier is then its number.
pub proof fn law_fragment_sets_its_channel(sequences: SequenceIds, fragment: FragmentModel)
    ensures
        ({
            let next = after_fragment(sequences, fragment);
            let initial = fragment.flags & 0x40 != 0;
            let express = fragment.flags & 0x10 != 0;
            &&& next.express == if initial && express {
                fragment.sequence_number
            } else {
                sequences.express
            }
            &&& next.preemptable == if initial && !express {
                fragment.sequence_number
            } else {
                sequences.preemptable
            }
        }),
{
    lemma_bits_of_flags(fragment.flags);
}

/// The fragments of a packet, or of several, go in one after the other: each finds
/// the identifiers as the one before it has left them.
pub proof fn law_requests_one_by_one(
    sequences: SequenceIds,
    first: FragmentModel,
    later: Seq<FragmentModel>,
)
    ensures
        requests_of(sequences, seq![first] + later) == seq![request_of(sequences, first)]
            + requests_of(after_fragment(sequences, first), later),
        after_all(sequences, all_seen(seq![first] + later)) == after_all(
            after_fragment(sequences, first),
            all_seen(later),
        ),
        requests_of(sequences, Seq::empty()).len() == 0,
        after_all(sequences, all_seen(Seq::empty())) == sequences,
{
    lemma_fragments_together(sequences, seq![first], later);
    let one = seq![first];
    assert(all_seen(one).drop_last() =~= Seq::empty());
    assert(after_all(sequences, all_seen(one).drop_last()) == sequences);
    assert(all_seen(one.take(0)) =~= Seq::empty());
    assert(requests_of(sequences, one) =~= seq![request_of(sequences, first)]);
}

/// Two keys are equal if and only if all that they hold is: the channel, the
/// sequence ID, and the kind and the octets of both addresses.
pub proof fn law_key_equality_covers_every_part(a: FragmentKey, b: FragmentKey)
    ensures
        a.eq_spec(&b) <==> {
            &&& a.express == b.express
            &&& a.sequence_id == b.sequence_id
            &&& a.source_address.address_type == b.source_address.address_type
            &&& a.source_address.bytes@ == b.source_address.bytes@
            &&& a.destination_address.address_type == b.destination_address.address_type
            &&& a.destination_address.bytes@ == b.destination_address.bytes@
        },
{
}

/// How many numbers `count` octets can hold.
spec fn octet_bound(count: nat) -> nat
    decreases count,
{
    if count == 0 {
        1
    } else {
        256 * octet_bound((count - 1) as nat)
    }
}

/// Numbers with the same octets, the lowest first, are the same.
proof fn lemma_le_octets_are_unique(m: nat, n: nat, count: nat)
    requires
        le_octets(m, count) == le_octets(n, count),
        m < octet_bound(count),
        n < octet_bound(count),
    ensures
        m == n,
    decreases count,
{
    if count > 0 {
        let a = le_octets(m, count);
        let b = le_octets(n, count);
        assert(a[0] == m % 256);
        assert(b[0] == n % 256);
        assert(a.skip(1) =~= le_octets(m / 256, (count - 1) as nat));
        assert(b.skip(1) =~= le_octets(n / 256, (count - 1) as nat));
        lemma_le_octets_are_unique(m / 256, n / 256, (count - 1) as nat);
    }
}

/// What is hashed for a key tells which key it is: no part is left out. The hash is
/// the lower half of what the hasher makes of it.
pub proof fn law_key_is_hashed_whole(a: FragmentKeyModel, b: FragmentKeyModel)
    ensures
        key_writes(a) == key_writes(b) ==> a == b,
        key_hash_value(a) == DefaultHasher::spec_finish(key_writes(a)) % 0x1_0000_0000,
{
    if key_writes(a) == key_writes(b) {
        let x = key_writes(a);
        let y = key_writes(b);
        assert(x[0][0] == y[0][0]);
        assert(x[1] == y[1] && x[2] == y[2] && x[4] == y[4] && x[5] == y[5] && x[7] == y[7]);
        let (p, q) = (a.source_address.address_type, b.source_address.address_type);
        let (r, s) = (a.destination_address.address_type, b.destination_address.address_type);
        reveal_with_fuel(octet_bound, 5);
        lemma_le_octets_are_unique(a.sequence_id as nat, b.sequence_id as nat, 4);
        lemma_le_octets_are_unique(p as u32 as nat, q as u32 as nat, 4);
        lemma_le_octets_are_unique(r as u32 as nat, s as u32 as nat, 4);
        assert(p as u32 == q as u32 ==> p == q) by (bit_vector);
        assert(r as u32 == s as u32 ==> r == s) by (bit_vector);
    }
}

/// A request says what it holds, part by part, and so does a list of them.
pub proof fn law_request_says_what_it_holds(requests: Seq<FragmentRequest>, i: int)
    requires
        0 <= i < requests.len(),
    ensures
        ({
            let request = requests[i];
            let said = request_views(requests)[i];
            &&& said.data == request.data
            &&& said.id == request.id
            &&& said.express == request.express
            &&& said.sequence_id == request.sequence_id
            &&& said.fragment_number == request.fragment_number
            &&& said.more_fragments == request.more_fragments
            &&& said.sequence_offset == request.sequence_offset
            &&& said.payload == request.payload
            &&& said.title == request.title@
        }),
        request_views(requests).len() == requests.len(),
{
}

} // verus!
