//! What each MPPDU component contributes to the plan for its packet.

use vstd::prelude::*;

use crate::component::FRAGMENT_HEADER_LENGTH;
use crate::error::DissectError;
use crate::mac_addr::{mac_text, MAC_LENGTH_BYTES};
use crate::plan::{ActionModel, Column, Node, Op};
use crate::text::{decimal, joined};
use crate::tvb::{big_endian, sub_span, Span};

verus! {

/// What the dissection of a packet has come to.
pub struct MppduModel {
    /// Names of the components found so far.
    pub components: Seq<Seq<char>>,
    /// The octets that are left to dissect.
    pub rest: Seq<u8>,
    /// Where they lie.
    pub span: Span,
    /// Whether data was passed to a subdissector.
    pub subdissector_called: bool,
}

/// The items that every component starts with. `span` is where the rest of the
/// packet lies.
pub open spec fn head_actions(span: Span) -> Seq<ActionModel> {
    seq![
        Op::Add {
            parent: Node::Root,
            node: Node::Component,
            name: "component"@,
            range: sub_span(span, 0, 1),
        },
        Op::AddItem {
            parent: Node::Component,
            node: Node::TypeItem,
            name: "component.type"@,
            range: sub_span(span, 0, 1),
        },
    ]
}

/// What marks a component as invalid.
pub open spec fn invalid_actions() -> Seq<ActionModel> {
    seq![
        Op::AddExpertInfo {
            node: Node::TypeItem,
            name: "expert_invalid_component"@,
            remark: "Invalid MPPDU component"@,
        },
        Op::AppendText { node: Node::TypeItem, text: " (Invalid)"@ },
    ]
}

/// The warning about a pad: there is one if and only if some octet is not zero.
pub open spec fn padding_actions(pad: Seq<u8>) -> Seq<ActionModel> {
    if exists|i: int| 0 <= i < pad.len() && pad[i] != 0 {
        seq![
            Op::AddExpertInfo {
                node: Node::Pad,
                name: "expert_nonzero_pad"@,
                remark: "Padding bytes must be zero"@,
            },
        ]
    } else {
        Seq::empty()
    }
}

/// A trailing pad. `rest` is the component and lies at `span`, its header has
/// `header` octets.
pub open spec fn trailing_pad_actions(span: Span, rest: Seq<u8>, header: nat) -> Seq<ActionModel> {
    seq![
        Op::AppendText { node: Node::Component, text: ", Type: Trailing Pad"@ },
        Op::AppendText { node: Node::TypeItem, text: " (Trailing Pad)"@ },
        Op::SetLength { node: Node::Component, length: rest.len() as usize },
    ] + if header < rest.len() {
        seq![
            Op::AddItem {
                parent: Node::Root,
                node: Node::Pad,
                name: "trailing_pad"@,
                range: sub_span(span, header, (rest.len() - header) as nat),
            },
        ] + padding_actions(rest.skip(header as int))
    } else {
        Seq::empty()
    }
}

/// An explicit pad with the octets `pad` at `pad_span`, after the header at
/// `header_span`.
pub open spec fn explicit_pad_actions(
    header_span: Span,
    pad_span: Span,
    pad: Seq<u8>,
) -> Seq<ActionModel> {
    seq![
        Op::AppendText {
            node: Node::Component,
            text: ", Type: Explicit Pad, Length: "@ + decimal(pad.len()),
        },
        Op::AppendText { node: Node::TypeItem, text: " (Explicit Pad)"@ },
        Op::AddItem {
            parent: Node::Component,
            node: Node::Leaf,
            name: "component.following_length"@,
            range: header_span,
        },
        Op::AddItem {
            parent: Node::Component,
            node: Node::Pad,
            name: "explicit_pad"@,
            range: pad_span,
        },
    ] + padding_actions(pad)
}

/// The call of the dissector for the data unit `msdu` at `span`, which is made
/// if the data unit is long enough to hold an ethertype. It comes from the frame
/// at `fh_tree`.
pub open spec fn ethertype_actions(span: Span, msdu: Seq<u8>, fh_tree: Node) -> Seq<ActionModel> {
    if msdu.len() >= 2 {
        seq![
            Op::CallEthertypeDissector {
                msdu: span,
                etype: big_endian(msdu.take(2)) as u16,
                payload_offset: 2,
                fh_tree,
                trailer_id: 0,
                fcs_len: 0,
            },
        ]
    } else {
        Seq::empty()
    }
}

/// Why a data unit cannot be handed on.
pub open spec fn ethertype_result(msdu: Seq<u8>) -> Result<(), DissectError> {
    if msdu.len() >= 2 {
        Ok(())
    } else {
        Err(DissectError::OutOfBounds { offset: 0, length: 2, available: msdu.len() as usize })
    }
}

/// The addresses and the data unit of `frame` at `span`: destination, source,
/// and, where `msdu_name` gives its field, the data unit as an item of its own.
/// A frame that is too short is shown as far as it goes.
pub open spec fn frame_actions(
    destination_name: Seq<char>,
    source_name: Seq<char>,
    msdu_name: Option<Seq<char>>,
    span: Span,
    frame: Seq<u8>,
) -> Seq<ActionModel> {
    if frame.len() < MAC_LENGTH_BYTES {
        Seq::empty()
    } else {
        seq![
            Op::AddItem {
                parent: Node::Frame,
                node: Node::Leaf,
                name: destination_name,
                range: sub_span(span, 0, MAC_LENGTH_BYTES as nat),
            },
        ] + if frame.len() < 2 * MAC_LENGTH_BYTES {
            Seq::empty()
        } else {
            let msdu_span = sub_span(
                span,
                (2 * MAC_LENGTH_BYTES) as nat,
                (frame.len() - 2 * MAC_LENGTH_BYTES) as nat,
            );
            seq![
                Op::AddItem {
                    parent: Node::Frame,
                    node: Node::Leaf,
                    name: source_name,
                    range: sub_span(span, MAC_LENGTH_BYTES as nat, MAC_LENGTH_BYTES as nat),
                },
                Op::AppendText {
                    node: Node::Component,
                    text: ", Src: "@ + mac_text(
                        frame.subrange(MAC_LENGTH_BYTES as int, 2 * MAC_LENGTH_BYTES),
                    ),
                },
                Op::AppendText {
                    node: Node::Component,
                    text: ", Dst: "@ + mac_text(frame.take(MAC_LENGTH_BYTES as int)),
                },
            ] + (match msdu_name {
                Some(name) => seq![
                    Op::AddItem {
                        parent: Node::Frame,
                        node: Node::Leaf,
                        name,
                        range: msdu_span,
                    },
                ],
                None => Seq::empty(),
            }) + ethertype_actions(msdu_span, frame.skip(2 * MAC_LENGTH_BYTES), Node::Frame)
        }
    }
}

/// Whether `frame` holds two addresses and an ethertype, and if not, what is
/// found missing first.
pub open spec fn frame_result(frame: Seq<u8>) -> Result<(), DissectError> {
    if frame.len() < MAC_LENGTH_BYTES {
        Err(
            DissectError::OutOfBounds {
                offset: 0,
                length: MAC_LENGTH_BYTES,
                available: frame.len() as usize,
            },
        )
    } else if frame.len() < 2 * MAC_LENGTH_BYTES {
        Err(
            DissectError::OutOfBounds {
                offset: MAC_LENGTH_BYTES,
                length: MAC_LENGTH_BYTES,
                available: frame.len() as usize,
            },
        )
    } else {
        ethertype_result(frame.skip(2 * MAC_LENGTH_BYTES))
    }
}

/// An encapsulated frame with the octets `frame` at `frame_span`, after the
/// header at `header_span`.
pub open spec fn encapsulated_frame_actions(
    header_span: Span,
    frame_span: Span,
    frame: Seq<u8>,
) -> Seq<ActionModel> {
    seq![
        Op::AppendText { node: Node::Component, text: ", Type: Encapsulated Frame"@ },
        Op::AppendText { node: Node::TypeItem, text: " (Encapsulated Frame)"@ },
        Op::Add {
            parent: Node::Component,
            node: Node::Leaf,
            name: "component.following_length"@,
            range: header_span,
        },
        Op::Add {
            parent: Node::Root,
            node: Node::Frame,
            name: "encapsulated_frame"@,
            range: frame_span,
        },
    ] + frame_actions(
        "encapsulated_frame.destination_address"@,
        "encapsulated_frame.source_address"@,
        None,
        frame_span,
        frame,
    )
}

/// A reassembled frame at `span`.
pub open spec fn reassembled_frame_actions(span: Span, frame: Seq<u8>) -> Seq<ActionModel> {
    seq![
        Op::Add {
            parent: Node::Component,
            node: Node::Frame,
            name: "reassembled_frame"@,
            range: span,
        },
    ] + frame_actions(
        "reassembled_frame.destination_address"@,
        "reassembled_frame.source_address"@,
        Some("reassembled_frame.msdu"@),
        span,
        frame,
    )
}

/// Whether the initial frame bit is set.
pub open spec fn is_initial(flags: u8) -> bool {
    (flags as nat / 64) % 2 == 1
}

/// Whether the final frame bit is set.
pub open spec fn is_final(flags: u8) -> bool {
    (flags as nat / 32) % 2 == 1
}

/// Whether the express frame bit is set.
pub open spec fn is_express(flags: u8) -> bool {
    (flags as nat / 16) % 2 == 1
}

/// The names of the flags that are set.
pub open spec fn flag_names(flags: u8) -> Seq<Seq<char>> {
    let initial = if is_initial(flags) {
        seq!["Initial"@]
    } else {
        Seq::empty()
    };
    let last = if is_final(flags) {
        seq!["Final"@]
    } else {
        Seq::empty()
    };
    let express = if is_express(flags) {
        seq!["Express"@]
    } else {
        Seq::empty()
    };
    initial + last + express
}

/// The flags of a frame fragment, as shown for the component.
pub open spec fn flags_text(flags: u8) -> Seq<char> {
    if flag_names(flags).len() == 0 {
        "(None)"@
    } else {
        joined(flag_names(flags), ", "@)
    }
}

/// A frame fragment with the octets `payload` at `span`, after the header at
/// `header_span`, up to the point where it goes to the reassembly table.
pub open spec fn frame_fragment_actions(
    header_span: Span,
    span: Span,
    payload: Seq<u8>,
) -> Seq<ActionModel> {
    let flags_span = sub_span(span, 0, 1);
    seq![
        Op::AppendText { node: Node::Component, text: ", Type: Frame Fragment"@ },
        Op::AppendText { node: Node::TypeItem, text: " (Frame Fragment)"@ },
        Op::Add {
            parent: Node::Component,
            node: Node::Leaf,
            name: "component.following_length"@,
            range: header_span,
        },
        Op::Add { parent: Node::Root, node: Node::Frame, name: "frame_fragment"@, range: span },
        Op::Add {
            parent: Node::Frame,
            node: Node::Flags,
            name: "frame_fragment.flags"@,
            range: flags_span,
        },
        Op::AddItem {
            parent: Node::Flags,
            node: Node::Leaf,
            name: "frame_fragment.flags.initial_frame"@,
            range: flags_span,
        },
        Op::AddItem {
            parent: Node::Flags,
            node: Node::Leaf,
            name: "frame_fragment.flags.final_frame"@,
            range: flags_span,
        },
        Op::AddItem {
            parent: Node::Flags,
            node: Node::Leaf,
            name: "frame_fragment.flags.express_frame"@,
            range: flags_span,
        },
        Op::AppendText {
            node: Node::Flags,
            text: " ("@ + joined(flag_names(payload[0]), ", "@) + ")"@,
        },
        Op::AppendText { node: Node::Component, text: ", Flags: "@ + flags_text(payload[0]) },
        Op::AddItem {
            parent: Node::Frame,
            node: Node::Leaf,
            name: "frame_fragment.sequence_number"@,
            range: sub_span(span, 1, 3),
        },
        Op::SetFragmented { fragmented: true },
    ]
}

/// The sequence number in the header of a frame fragment.
pub open spec fn sequence_number(payload: Seq<u8>) -> nat {
    big_endian(payload.subrange(1, FRAGMENT_HEADER_LENGTH as int))
}

/// The summary of a packet: the names of its components, unless a subdissector
/// has written a summary of its own.
pub open spec fn summary_actions(state: MppduModel) -> Seq<ActionModel> {
    if state.subdissector_called {
        Seq::empty()
    } else {
        seq![
            Op::SetColumnText {
                column: Column::Info,
                text: "MPPDU Components: ["@ + joined(state.components, ", "@) + "]"@,
            },
        ]
    }
}

} // verus!
