//! What the octets of a packet stand for, told from the octets alone.
//!
//! A component starts with a number of sixteen bits, the first octet being worth
//! 256 times as much as the second. The laws here say what a component is by that
//! number, and that a component which was put together by the rules of the
//! protocol is taken apart again.

use vstd::prelude::*;

use crate::component::{
    component_length, following_length, kind_of, law_component_length, payload_of, split,
    type_value, ComponentKind,
};
use crate::dissector::fragment_of;
use crate::tvb::{big_endian, Span};

verus! {

/// The number that a component starts with.
pub open spec fn first_word(rest: Seq<u8>) -> int {
    256 * rest[0] + rest[1]
}

/// The type is the upper two bits of the number that a component starts with, and
/// the following length the other fourteen.
pub proof fn law_header_is_type_and_length(rest: Seq<u8>)
    requires
        rest.len() >= 2,
    ensures
        16384 * type_value(rest) + following_length(rest) == first_word(rest),
        following_length(rest) < 16384,
        type_value(rest) < 4,
{
}

/// What a component is follows from the number that it starts with, and from how
/// many octets there are. A fragment also has the upper bit of its flags clear.
pub proof fn law_kind_by_first_word(rest: Seq<u8>)
    requires
        rest.len() >= 2,
    ensures
        ({
            let word = first_word(rest);
            let available = rest.len() - 2;
            &&& kind_of(rest) == ComponentKind::TrailingPad <==> word == 0
            &&& kind_of(rest) == ComponentKind::EncapsulatedFrame <==> 14 <= word < 16384 && word
                <= available
            &&& kind_of(rest) == ComponentKind::ExplicitPad <==> 16384 <= word < 32768
            &&& kind_of(rest) == ComponentKind::FrameFragment <==> 32772 <= word < 49152 && word
                - 32768 <= available && rest[2] < 128
            &&& kind_of(rest) != ComponentKind::Truncated
        }),
{
    law_header_is_type_and_length(rest);
}

/// The octets that belong to a component, by the number that it starts with.
pub proof fn law_payload_by_first_word(rest: Seq<u8>)
    requires
        rest.len() >= 2,
    ensures
        ({
            let word = first_word(rest);
            let end = rest.len() as int;
            &&& kind_of(rest) == ComponentKind::TrailingPad ==> payload_of(rest) == rest.subrange(
                2,
                end,
            )
            &&& kind_of(rest) == ComponentKind::EncapsulatedFrame ==> payload_of(rest)
                == rest.subrange(2, 2 + word)
            &&& kind_of(rest) == ComponentKind::ExplicitPad ==> payload_of(rest) == rest.subrange(
                2,
                if word - 16384 <= end - 2 {
                    2 + word - 16384
                } else {
                    end
                },
            )
            &&& kind_of(rest) == ComponentKind::FrameFragment ==> payload_of(rest)
                == rest.subrange(2, 2 + word - 32768)
            &&& kind_of(rest) == ComponentKind::Invalid ==> payload_of(rest).len() == 0
            &&& component_length(rest) == 2 + payload_of(rest).len()
        }),
{
    law_header_is_type_and_length(rest);
    law_kind_by_first_word(rest);
    assert(rest.skip(2) =~= rest.subrange(2, rest.len() as int));
}

/// One octet that is left is a trailing pad if it is zero, and begins no component
/// if it is not.
pub proof fn law_last_octet(octet: u8)
    ensures
        kind_of(seq![octet]) == if octet == 0 {
            ComponentKind::TrailingPad
        } else {
            ComponentKind::Truncated
        },
        payload_of(seq![octet]).len() == 0,
        component_length(seq![octet]) == 1,
        split(seq![octet]) == seq![seq![octet]],
{
}

/// The component of this type with this payload.
pub open spec fn encoded(kind_bits: int, payload: Seq<u8>) -> Seq<u8> {
    seq![(64 * kind_bits + payload.len() / 256) as u8, (payload.len() % 256) as u8] + payload
}

/// An encoded component that does not end the packet is split off, and what comes
/// after it is split by itself.
proof fn lemma_encoded_is_split_off(kind_bits: int, payload: Seq<u8>, tail: Seq<u8>)
    requires
        0 <= kind_bits < 3,
        payload.len() < 16384,
    ensures
        ({
            let packet = encoded(kind_bits, payload) + tail;
            &&& first_word(packet) == 16384 * kind_bits + payload.len()
            &&& packet.subrange(2, 2 + payload.len() as int) == payload
            &&& component_length(packet) == 2 + payload.len() && kind_of(packet)
                != ComponentKind::TrailingPad ==> split(packet) == seq![
                encoded(kind_bits, payload),
            ] + split(tail)
        }),
{
    let packet = encoded(kind_bits, payload) + tail;
    assert(packet[0] == 64 * kind_bits + payload.len() / 256);
    assert(packet[1] == payload.len() % 256);
    assert(packet.subrange(2, 2 + payload.len() as int) =~= payload);
    law_kind_by_first_word(packet);
    assert(packet.take(2 + payload.len() as int) =~= encoded(kind_bits, payload));
    assert(packet.skip(2 + payload.len() as int) =~= tail);
}

/// A frame of 14 up to 16383 octets, after its length, is one encapsulated frame,
/// whatever follows.
pub proof fn law_encoded_frame(frame: Seq<u8>, tail: Seq<u8>)
    requires
        14 <= frame.len() <= 16383,
    ensures
        ({
            let packet = encoded(0, frame) + tail;
            &&& kind_of(packet) == ComponentKind::EncapsulatedFrame
            &&& payload_of(packet) == frame
            &&& component_length(packet) == 2 + frame.len()
            &&& split(packet) == seq![encoded(0, frame)] + split(tail)
        }),
{
    let packet = encoded(0, frame) + tail;
    lemma_encoded_is_split_off(0, frame, tail);
    law_kind_by_first_word(packet);
    law_payload_by_first_word(packet);
}

/// A pad of up to 16383 octets, after its length with the type of a pad, is one
/// explicit pad, whatever follows.
pub proof fn law_encoded_explicit_pad(pad: Seq<u8>, tail: Seq<u8>)
    requires
        pad.len() <= 16383,
    ensures
        ({
            let packet = encoded(1, pad) + tail;
            &&& kind_of(packet) == ComponentKind::ExplicitPad
            &&& payload_of(packet) == pad
            &&& component_length(packet) == 2 + pad.len()
            &&& split(packet) == seq![encoded(1, pad)] + split(tail)
        }),
{
    let packet = encoded(1, pad) + tail;
    lemma_encoded_is_split_off(1, pad, tail);
    law_kind_by_first_word(packet);
    law_payload_by_first_word(packet);
}

/// A fragment of up to 16383 octets, flags and sequence number included, after its
/// length with the type of a fragment, is one frame fragment, whatever follows.
pub proof fn law_encoded_fragment(fragment: Seq<u8>, tail: Seq<u8>)
    requires
        4 <= fragment.len() <= 16383,
        fragment[0] < 128,
    ensures
        ({
            let packet = encoded(2, fragment) + tail;
            &&& kind_of(packet) == ComponentKind::FrameFragment
            &&& payload_of(packet) == fragment
            &&& component_length(packet) == 2 + fragment.len()
            &&& split(packet) == seq![encoded(2, fragment)] + split(tail)
        }),
{
    let packet = encoded(2, fragment) + tail;
    lemma_encoded_is_split_off(2, fragment, tail);
    assert(packet[2] == fragment[0]);
    law_kind_by_first_word(packet);
    law_payload_by_first_word(packet);
}

/// Two zeros begin a trailing pad, which is all that follows.
pub proof fn law_encoded_trailing_pad(pad: Seq<u8>)
    ensures
        ({
            let packet = seq![0u8, 0u8] + pad;
            &&& kind_of(packet) == ComponentKind::TrailingPad
            &&& payload_of(packet) == pad
            &&& component_length(packet) == 2 + pad.len()
            &&& split(packet) == seq![packet]
        }),
{
    let packet = seq![0u8, 0u8] + pad;
    law_kind_by_first_word(packet);
    law_payload_by_first_word(packet);
    assert(packet.subrange(2, packet.len() as int) =~= pad);
}

/// Two octets that begin no known component are skipped, and no more.
pub proof fn law_invalid_header_is_skipped(rest: Seq<u8>)
    requires
        rest.len() >= 2,
        kind_of(rest) == ComponentKind::Invalid,
    ensures
        component_length(rest) == 2,
        split(rest) == seq![rest.take(2)] + split(rest.skip(2)),
{
    law_component_length(rest);
}

/// The header of a frame fragment is its flags in one octet and its sequence
/// number in three. The rest of the payload is the part of the frame.
pub proof fn law_fragment_header(rest: Seq<u8>, place: Span)
    requires
        rest.len() >= 2,
        kind_of(rest) == ComponentKind::FrameFragment,
        place.offset + rest.len() <= usize::MAX,
    ensures
        ({
            let fragment = fragment_of(rest, place);
            let length = first_word(rest) - 32768;
            &&& fragment.payload == rest.subrange(2, 2 + length)
            &&& fragment.flags == rest[2]
            &&& fragment.sequence_number == 65536 * rest[3] + 256 * rest[4] + rest[5]
            &&& fragment.span.source == place.source
            &&& fragment.span.offset == place.offset + 2
            &&& fragment.span.length == length
            &&& fragment.data.source == place.source
            &&& fragment.data.offset == place.offset + 6
            &&& fragment.data.length == length - 4
        }),
{
    law_kind_by_first_word(rest);
    law_payload_by_first_word(rest);
    let number = payload_of(rest).subrange(1, 4);
    reveal_with_fuel(big_endian, 4);
    assert(number.drop_last().drop_last().drop_last() =~= Seq::empty());
    assert(number[0] == rest[3] && number[1] == rest[4] && number[2] == rest[5]);
}

} // verus!
