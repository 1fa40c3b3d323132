//! How the octets of a packet split into MPPDU components.
//!
//! A component starts with a header. The upper two bits of the first octet give
//! its type, the other fourteen bits of the first two octets its following
//! length: the number of octets that come after the header. A packet ends with
//! its last component.

use vstd::prelude::*;

verus! {

/// Bit mask to check the frame fragment bit.
pub const FRAME_FRAGMENT_MASK: u8 = 0b1000_0000;

/// Bit mask to isolate the MPPDU type.
pub const MPPDU_TYPE_MASK: u8 = 0xc0;

/// Bit mask to isolate the MPPDU following length.
pub const MPPDU_FOLLOWING_LENGTH_MASK: u16 = 0x3fff;

/// Initial frame fragment bit mask.
pub const INITIAL_FRAME: u8 = 0b0100_0000;

/// Final frame fragment bit mask.
pub const FINAL_FRAME: u8 = 0b0010_0000;

/// Express frame fragment bit mask.
pub const EXPRESS_FRAME: u8 = 0b0001_0000;

/// Length of a component's type and following length.
pub const HEADER_LENGTH: usize = 2;

/// Length of the flags and sequence number of a frame fragment.
pub const FRAGMENT_HEADER_LENGTH: usize = 4;

/// The shortest frame that is encapsulated whole: two addresses and an ethertype.
pub const MIN_FRAME_LENGTH: usize = 14;

/// What a component is.
#[derive(Clone, Copy, Debug, PartialEq, Eq, Structural)]
pub enum ComponentKind {
    /// Padding up to the end of the packet.
    TrailingPad,
    /// A whole frame.
    EncapsulatedFrame,
    /// Padding of a given length.
    ExplicitPad,
    /// Part of a frame.
    FrameFragment,
    /// A header that begins no known component.
    Invalid,
    /// One last octet that begins no component.
    Truncated,
}

/// A component at the start of a range.
#[derive(Clone, Copy, Debug, PartialEq, Eq, Structural)]
pub struct Component {
    /// What it is.
    pub kind: ComponentKind,
    /// Number of octets in its header.
    pub header: usize,
    /// Number of octets that follow the header and belong to it.
    pub payload: usize,
}

/// The type that the first octet of a component gives.
pub open spec fn type_value(rest: Seq<u8>) -> nat {
    rest[0] as nat / 64
}

/// The following length that the first two octets of a component give.
pub open spec fn following_length(rest: Seq<u8>) -> nat {
    (rest[0] as nat % 64) * 256 + rest[1] as nat
}

/// The octets after the header, up to the following length or to the end of
/// the packet, whichever comes first.
pub open spec fn following(rest: Seq<u8>) -> Seq<u8> {
    if following_length(rest) <= rest.len() - HEADER_LENGTH {
        rest.subrange(HEADER_LENGTH as int, HEADER_LENGTH + following_length(rest))
    } else {
        rest.skip(HEADER_LENGTH as int)
    }
}

/// Whether `payload` holds a fragment header in which the upper bit is clear.
pub open spec fn flag_clear(payload: Seq<u8>) -> bool {
    payload.len() >= FRAGMENT_HEADER_LENGTH && payload[0] < 128
}

/// The kind of the component that `rest` starts with. One octet that is left is
/// a trailing pad if it is zero, and begins no component otherwise.
pub open spec fn kind_of(rest: Seq<u8>) -> ComponentKind
    recommends
        rest.len() > 0,
{
    if rest.len() == 1 {
        if rest[0] == 0 {
            ComponentKind::TrailingPad
        } else {
            ComponentKind::Truncated
        }
    } else {
        let complete = following_length(rest) <= rest.len() - HEADER_LENGTH;
        if type_value(rest) == 0 && following_length(rest) == 0 {
            ComponentKind::TrailingPad
        } else if type_value(rest) == 0 && following_length(rest) >= MIN_FRAME_LENGTH && complete {
            ComponentKind::EncapsulatedFrame
        } else if type_value(rest) == 1 {
            ComponentKind::ExplicitPad
        } else if type_value(rest) == 2 && flag_clear(following(rest)) && complete {
            ComponentKind::FrameFragment
        } else {
            ComponentKind::Invalid
        }
    }
}

/// Number of octets in the header of the component that `rest` starts with.
pub open spec fn header_length(rest: Seq<u8>) -> nat {
    if rest.len() == 1 {
        1
    } else {
        HEADER_LENGTH as nat
    }
}

/// The octets that follow the header of the component that `rest` starts with
/// and belong to it.
pub open spec fn payload_of(rest: Seq<u8>) -> Seq<u8> {
    match kind_of(rest) {
        ComponentKind::TrailingPad => rest.skip(header_length(rest) as int),
        ComponentKind::EncapsulatedFrame | ComponentKind::ExplicitPad
        | ComponentKind::FrameFragment => following(rest),
        ComponentKind::Invalid | ComponentKind::Truncated => Seq::empty(),
    }
}

/// Number of octets in the component that `rest` starts with.
pub open spec fn component_length(rest: Seq<u8>) -> nat {
    header_length(rest) + payload_of(rest).len()
}

/// Whether a component of this kind ends the packet.
pub open spec fn ends_packet(kind: ComponentKind) -> bool {
    kind == ComponentKind::TrailingPad || kind == ComponentKind::Truncated
}

/// The octets of each component of `packet`, in order.
pub open spec fn split(packet: Seq<u8>) -> Seq<Seq<u8>>
    decreases packet.len(),
{
    if packet.len() == 0 {
        Seq::empty()
    } else if ends_packet(kind_of(packet)) {
        seq![packet]
    } else {
        proof {
            law_component_length(packet);
        }
        let length = component_length(packet) as int;
        seq![packet.take(length)] + split(packet.skip(length))
    }
}

/// A component has at least one octet and lies within the packet. A trailing
/// pad, or a last octet that begins no component, takes all that is left.
pub proof fn law_component_length(rest: Seq<u8>)
    requires
        rest.len() > 0,
    ensures
        0 < component_length(rest) <= rest.len(),
        ends_packet(kind_of(rest)) ==> component_length(rest) == rest.len(),
{
}

/// The payload of each kind of component has the length that the kind allows:
/// a whole frame has exactly its following length, and room for two addresses
/// and an ethertype; a fragment exactly its following length, and room for its
/// header; an explicit pad ends at its following length or with the packet.
pub proof fn law_payload_length(rest: Seq<u8>)
    requires
        rest.len() > 0,
    ensures
        kind_of(rest) == ComponentKind::EncapsulatedFrame ==> payload_of(rest).len()
            == following_length(rest) && payload_of(rest).len() >= MIN_FRAME_LENGTH,
        kind_of(rest) == ComponentKind::FrameFragment ==> payload_of(rest).len()
            == following_length(rest) && payload_of(rest).len() >= FRAGMENT_HEADER_LENGTH,
        kind_of(rest) == ComponentKind::ExplicitPad ==> payload_of(rest).len() == if HEADER_LENGTH
            + following_length(rest) <= rest.len() {
            following_length(rest) as int
        } else {
            rest.len() - HEADER_LENGTH
        },
{
}

/// What a component is depends on its own octets alone, not on what follows.
pub proof fn law_component_stands_alone(rest: Seq<u8>)
    requires
        rest.len() > 0,
    ensures
        ({
            let component = rest.take(component_length(rest) as int);
            &&& kind_of(component) == kind_of(rest)
            &&& component_length(component) == component_length(rest)
            &&& payload_of(component) == payload_of(rest)
        }),
{
    law_component_length(rest);
    let component = rest.take(component_length(rest) as int);
    if ends_packet(kind_of(rest)) {
        assert(component =~= rest);
    } else {
        assert(component[0] == rest[0]);
        assert(component[1] == rest[1]);
        if kind_of(rest) != ComponentKind::Invalid {
            assert(following(component) =~= following(rest));
        }
        assert(payload_of(component) =~= payload_of(rest));
    }
}

/// The components make up the packet: put one after the other they are its
/// octets, with none left out and none used twice.
pub proof fn law_components_make_up_packet(packet: Seq<u8>)
    ensures
        split(packet).flatten() == packet,
    decreases packet.len(),
{
    if packet.len() == 0 {
        assert(split(packet).flatten() =~= packet);
    } else if ends_packet(kind_of(packet)) {
        let pieces = split(packet);
        assert(pieces.drop_first() =~= Seq::empty());
        assert(pieces.drop_first().flatten() =~= Seq::empty());
        assert(pieces.flatten() =~= packet);
    } else {
        law_component_length(packet);
        let length = component_length(packet) as int;
        law_components_make_up_packet(packet.skip(length));
        let pieces = split(packet);
        assert(pieces.drop_first() =~= split(packet.skip(length)));
        assert(packet.take(length) + packet.skip(length) =~= packet);
    }
}

/// A packet has at most half as many components as octets, rounded up: each has
/// two octets at least, but for the last.
pub proof fn law_component_count(packet: Seq<u8>)
    ensures
        2 * split(packet).len() <= packet.len() + 1,
    decreases packet.len(),
{
    if packet.len() > 0 && !ends_packet(kind_of(packet)) {
        law_component_length(packet);
        law_component_count(packet.skip(component_length(packet) as int));
    }
}

/// Each piece of the packet is one component, and only the last one can be a
/// trailing pad or an octet that begins no component.
pub proof fn law_pieces_are_components(packet: Seq<u8>, i: int)
    requires
        0 <= i < split(packet).len(),
    ensures
        split(packet)[i].len() > 0,
        component_length(split(packet)[i]) == split(packet)[i].len(),
        ends_packet(kind_of(split(packet)[i])) ==> i == split(packet).len() - 1,
    decreases packet.len(),
{
    law_component_length(packet);
    law_component_stands_alone(packet);
    if !ends_packet(kind_of(packet)) && i > 0 {
        let rest = packet.skip(component_length(packet) as int);
        law_pieces_are_components(rest, i - 1);
        assert(split(packet)[i] == split(rest)[i - 1]);
    }
}

} // verus!
