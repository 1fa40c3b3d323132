//! What a packet looks like once the actions for it were performed.
//!
//! A list of actions is looked at here by what it leaves: the items in the tree,
//! the texts of the items, the remarks, the calls of other dissectors and the
//! lengths that were set. The laws say what that is for each component.

use vstd::prelude::*;

use crate::error::DissectError;
use crate::mac_addr::mac_text;
use crate::model::{
    encapsulated_frame_actions, ethertype_actions, explicit_pad_actions, flag_names, flags_text,
    frame_actions, frame_fragment_actions, frame_result, head_actions, invalid_actions,
    padding_actions, reassembled_frame_actions, summary_actions, trailing_pad_actions, MppduModel,
};
use crate::plan::{ActionModel, Column, Node, Op};
use crate::text::{decimal, decimal_value, joined, law_decimal_reads_back};
use crate::tvb::{big_endian, Span};

verus! {

/// An item that was added to the tree.
pub struct Item {
    /// Where.
    pub parent: Node,
    /// As which node.
    pub node: Node,
    /// The name of its field.
    pub name: Seq<char>,
    /// The octets it covers.
    pub range: Span,
    /// Whether other items can be added below.
    pub subtree: bool,
}

/// A remark on an item.
pub struct Remark {
    /// The item.
    pub node: Node,
    /// The kind of remark.
    pub name: Seq<char>,
    /// What it says.
    pub text: Seq<char>,
}

/// What a list of actions leaves.
#[verifier::ext_equal]
pub struct Appearance {
    /// The items that were added.
    pub items: Seq<Item>,
    /// The text of the component's item.
    pub component: Seq<char>,
    /// The text of the item that shows the component's type.
    pub type_item: Seq<char>,
    /// The text of the item that shows the flags of a fragment.
    pub flags: Seq<char>,
    /// The remarks.
    pub remarks: Seq<Remark>,
    /// The calls of other dissectors.
    pub calls: Seq<ActionModel>,
    /// The lengths that the component's item was given.
    pub lengths: Seq<usize>,
    /// All other actions.
    pub others: Seq<ActionModel>,
}

/// What no action leaves.
pub open spec fn nothing() -> Appearance {
    Appearance {
        items: Seq::empty(),
        component: Seq::empty(),
        type_item: Seq::empty(),
        flags: Seq::empty(),
        remarks: Seq::empty(),
        calls: Seq::empty(),
        lengths: Seq::empty(),
        others: Seq::empty(),
    }
}

/// What one list of actions leaves, and then another.
pub open spec fn together(a: Appearance, b: Appearance) -> Appearance {
    Appearance {
        items: a.items + b.items,
        component: a.component + b.component,
        type_item: a.type_item + b.type_item,
        flags: a.flags + b.flags,
        remarks: a.remarks + b.remarks,
        calls: a.calls + b.calls,
        lengths: a.lengths + b.lengths,
        others: a.others + b.others,
    }
}

/// What one action leaves.
pub open spec fn left_by(action: ActionModel) -> Appearance {
    match action {
        Op::Add { parent, node, name, range } => Appearance {
            items: seq![Item { parent, node, name, range, subtree: true }],
            ..nothing()
        },
        Op::AddItem { parent, node, name, range } => Appearance {
            items: seq![Item { parent, node, name, range, subtree: false }],
            ..nothing()
        },
        Op::AppendText { node: Node::Component, text } => Appearance {
            component: text,
            ..nothing()
        },
        Op::AppendText { node: Node::TypeItem, text } => Appearance {
            type_item: text,
            ..nothing()
        },
        Op::AppendText { node: Node::Flags, text } => Appearance { flags: text, ..nothing() },
        Op::AddExpertInfo { node, name, remark } => Appearance {
            remarks: seq![Remark { node, name, text: remark }],
            ..nothing()
        },
        Op::CallEthertypeDissector { .. } => Appearance { calls: seq![action], ..nothing() },
        Op::SetLength { node: Node::Component, length } => Appearance {
            lengths: seq![length],
            ..nothing()
        },
        _ => Appearance { others: seq![action], ..nothing() },
    }
}

/// What the first `count` actions leave.
pub open spec fn left_by_first(actions: Seq<ActionModel>, count: nat) -> Appearance
    decreases count,
{
    if count == 0 {
        nothing()
    } else {
        together(
            left_by_first(actions, (count - 1) as nat),
            left_by(actions[count - 1]),
        )
    }
}

/// What a list of actions leaves.
pub open spec fn left_by_all(actions: Seq<ActionModel>) -> Appearance {
    left_by_first(actions, actions.len())
}

/// What the first actions leave does not depend on those that follow.
proof fn lemma_left_by_prefix(a: Seq<ActionModel>, b: Seq<ActionModel>, count: nat)
    requires
        count <= a.len(),
    ensures
        left_by_first(a + b, count) == left_by_first(a, count),
    decreases count,
{
    if count > 0 {
        lemma_left_by_prefix(a, b, (count - 1) as nat);
        assert((a + b)[count - 1] == a[count - 1]);
    }
}

/// What two lists leave.
proof fn lemma_left_by_both_first(a: Seq<ActionModel>, b: Seq<ActionModel>, count: nat)
    requires
        count <= b.len(),
    ensures
        left_by_first(a + b, a.len() + count) == together(left_by_all(a), left_by_first(b, count)),
    decreases count,
{
    if count == 0 {
        lemma_left_by_prefix(a, b, a.len());
        assert(left_by_all(a) =~= together(left_by_all(a), nothing()));
    } else {
        lemma_left_by_both_first(a, b, (count - 1) as nat);
        assert((a + b)[a.len() + count - 1] == b[count - 1]);
    }
}

/// What two lists of actions leave is what the one leaves, and then the other.
pub proof fn law_appearance_of_both(a: Seq<ActionModel>, b: Seq<ActionModel>)
    ensures
        left_by_all(a + b) == together(left_by_all(a), left_by_all(b)),
{
    lemma_left_by_both_first(a, b, b.len());
}

/// An item that others can be added below.
pub open spec fn subtree(parent: Node, node: Node, name: Seq<char>, range: Span) -> Item {
    Item { parent, node, name, range, subtree: true }
}

/// An item by itself.
pub open spec fn item(parent: Node, node: Node, name: Seq<char>, range: Span) -> Item {
    Item { parent, node, name, range, subtree: false }
}

/// The `length` octets that start `offset` octets into `span`.
pub open spec fn part(span: Span, offset: int, length: int) -> Span {
    Span { source: span.source, offset: (span.offset + offset) as usize, length: length as usize }
}

/// The warning about a pad.
pub open spec fn nonzero_remark() -> Remark {
    Remark {
        node: Node::Pad,
        name: "expert_nonzero_pad"@,
        text: "Padding bytes must be zero"@,
    }
}

/// Every component starts with its item and the item for its type, both for the
/// first octet.
pub proof fn law_head_appears(span: Span)
    ensures
        left_by_all(head_actions(span)) == (Appearance {
            items: seq![
                subtree(Node::Root, Node::Component, "component"@, part(span, 0, 1)),
                item(Node::Component, Node::TypeItem, "component.type"@, part(span, 0, 1)),
            ],
            ..nothing()
        }),
{
    reveal_with_fuel(left_by_first, 3);
}

/// What begins no known component is said to be invalid, on the item for its type.
pub proof fn law_invalid_appears()
    ensures
        left_by_all(invalid_actions()) == (Appearance {
            type_item: " (Invalid)"@,
            remarks: seq![
                Remark {
                    node: Node::TypeItem,
                    name: "expert_invalid_component"@,
                    text: "Invalid MPPDU component"@,
                },
            ],
            ..nothing()
        }),
{
    reveal_with_fuel(left_by_first, 3);
}

/// A pad gets its one warning if it has an octet that is not zero, wherever that
/// is, and nothing if all are zero.
pub proof fn law_padding_appears(pad: Seq<u8>)
    ensures
        (forall|i: int| 0 <= i < pad.len() ==> #[trigger] pad[i] == 0) ==> left_by_all(
            padding_actions(pad),
        ) == nothing(),
        (exists|i: int| 0 <= i < pad.len() && #[trigger] pad[i] != 0) ==> left_by_all(
            padding_actions(pad),
        ) == (Appearance { remarks: seq![nonzero_remark()], ..nothing() }),
{
    reveal_with_fuel(left_by_first, 2);
}

/// A trailing pad covers all that is left. Its pad octets, if it has any, have an
/// item of their own, from the header up to the end, with a warning if and only if
/// one of them is not zero.
pub proof fn law_trailing_pad_appears(span: Span, rest: Seq<u8>, header: nat)
    ensures
        ({
            let left = left_by_all(trailing_pad_actions(span, rest, header));
            &&& left == (Appearance {
                component: ", Type: Trailing Pad"@,
                type_item: " (Trailing Pad)"@,
                lengths: seq![rest.len() as usize],
                items: left.items,
                remarks: left.remarks,
                ..nothing()
            })
            &&& header >= rest.len() ==> left.items.len() == 0
            &&& header < rest.len() ==> left.items == seq![
                item(
                    Node::Root,
                    Node::Pad,
                    "trailing_pad"@,
                    part(span, header as int, rest.len() - header),
                ),
            ]
            &&& (forall|i: int| header <= i < rest.len() ==> #[trigger] rest[i] == 0)
                ==> left.remarks.len() == 0
            &&& (exists|i: int| header <= i < rest.len() && #[trigger] rest[i] != 0)
                ==> left.remarks == seq![nonzero_remark()]
        }),
{
    reveal_with_fuel(left_by_first, 4);
    let actions = trailing_pad_actions(span, rest, header);
    let texts = actions.take(3);
    if header < rest.len() {
        let pad = rest.skip(header as int);
        let added = actions.subrange(3, 4);
        law_padding_appears(pad);
        law_appearance_of_both(added, padding_actions(pad));
        law_appearance_of_both(texts, added + padding_actions(pad));
        assert(actions =~= texts + (added + padding_actions(pad)));
        assert(forall|i: int| header <= i < rest.len() ==> #[trigger] rest[i] == pad[i - header]);
        assert(forall|i: int| 0 <= i < pad.len() ==> #[trigger] pad[i] == rest[i + header]);
        if forall|i: int| header <= i < rest.len() ==> #[trigger] rest[i] == 0 {
            assert(forall|i: int| 0 <= i < pad.len() ==> #[trigger] pad[i] == 0);
        } else {
            let i = choose|i: int| header <= i < rest.len() && #[trigger] rest[i] != 0;
            assert(pad[i - header] != 0);
        }
    } else {
        assert(actions =~= texts);
    }
}

/// The text of an explicit pad ends with a number, in decimal, which is how many
/// octets the item of the pad covers. The pad has a warning if and only if one of
/// them is not zero.
pub proof fn law_explicit_pad_appears(header_span: Span, pad_span: Span, pad: Seq<u8>)
    requires
        pad_span.length == pad.len(),
    ensures
        ({
            let left = left_by_all(explicit_pad_actions(header_span, pad_span, pad));
            &&& left == (Appearance {
                component: left.component,
                type_item: " (Explicit Pad)"@,
                items: seq![
                    item(
                        Node::Component,
                        Node::Leaf,
                        "component.following_length"@,
                        header_span,
                    ),
                    item(Node::Component, Node::Pad, "explicit_pad"@, pad_span),
                ],
                remarks: left.remarks,
                ..nothing()
            })
            &&& left.component.take(30) == ", Type: Explicit Pad, Length: "@
            &&& decimal_value(left.component.skip(30)) == left.items[1].range.length
            &&& left.component.skip(30) == decimal(pad.len())
            &&& (forall|i: int| 0 <= i < pad.len() ==> #[trigger] pad[i] == 0)
                ==> left.remarks.len() == 0
            &&& (exists|i: int| 0 <= i < pad.len() && #[trigger] pad[i] != 0) ==> left.remarks
                == seq![nonzero_remark()]
        }),
{
    reveal_with_fuel(left_by_first, 5);
    reveal_strlit(", Type: Explicit Pad, Length: ");
    let actions = explicit_pad_actions(header_span, pad_span, pad);
    let front = actions.take(4);
    assert(actions =~= front + padding_actions(pad));
    law_appearance_of_both(front, padding_actions(pad));
    law_padding_appears(pad);
    law_decimal_reads_back(pad.len());
    let text = left_by_all(actions).component;
    assert(text =~= ", Type: Explicit Pad, Length: "@ + decimal(pad.len()));
    assert(text.take(30) =~= ", Type: Explicit Pad, Length: "@);
    assert(text.skip(30) =~= decimal(pad.len()));
}

/// Explicit pads of different lengths have different texts.
pub proof fn law_explicit_pad_texts_differ(span: Span, a: Seq<u8>, b: Seq<u8>)
    requires
        a.len() != b.len(),
        a.len() <= usize::MAX,
        b.len() <= usize::MAX,
    ensures
        left_by_all(explicit_pad_actions(span, part(span, 0, a.len() as int), a)).component
            != left_by_all(explicit_pad_actions(span, part(span, 0, b.len() as int), b)).component,
{
    law_explicit_pad_appears(span, part(span, 0, a.len() as int), a);
    law_explicit_pad_appears(span, part(span, 0, b.len() as int), b);
}

/// Whether `call` hands the data unit `msdu` at `span`, from the frame at `fh_tree`,
/// to the dissector for the number that its first two octets are.
pub open spec fn is_call_for(call: ActionModel, span: Span, msdu: Seq<u8>, fh_tree: Node) -> bool {
    call matches Op::CallEthertypeDissector {
        msdu: place,
        etype,
        payload_offset,
        fh_tree: tree,
        trailer_id,
        fcs_len,
    } && {
        &&& place == span
        &&& etype / 256 == msdu[0]
        &&& etype % 256 == msdu[1]
        &&& payload_offset == 2
        &&& tree == fh_tree
        &&& trailer_id == 0
        &&& fcs_len == 0
    }
}

/// A data unit goes to the dissector for the whole number that its first two
/// octets are. One that has fewer goes to none.
pub proof fn law_call_is_for_the_ethertype(span: Span, msdu: Seq<u8>, fh_tree: Node)
    ensures
        ({
            let left = left_by_all(ethertype_actions(span, msdu, fh_tree));
            &&& left == (Appearance { calls: left.calls, ..nothing() })
            &&& msdu.len() < 2 ==> left.calls.len() == 0
            &&& msdu.len() >= 2 ==> left.calls.len() == 1 && is_call_for(
                left.calls[0],
                span,
                msdu,
                fh_tree,
            )
        }),
{
    reveal_with_fuel(left_by_first, 2);
    if msdu.len() >= 2 {
        let pair = msdu.take(2);
        reveal_with_fuel(big_endian, 3);
        assert(pair.drop_last().drop_last() =~= Seq::empty());
        assert(pair.drop_last().last() == msdu[0]);
        assert(pair.last() == msdu[1]);
    }
}

/// Data units with different first two octets never go to the same dissector.
pub proof fn law_ethertypes_differ(span: Span, a: Seq<u8>, b: Seq<u8>, fh_tree: Node)
    requires
        a.len() >= 2,
        b.len() >= 2,
        a[0] != b[0] || a[1] != b[1],
    ensures
        ethertype_actions(span, a, fh_tree) != ethertype_actions(span, b, fh_tree),
{
    law_call_is_for_the_ethertype(span, a, fh_tree);
    law_call_is_for_the_ethertype(span, b, fh_tree);
}

/// A frame shows its destination in the first six octets and its source in the next
/// six, as far as there are enough. Both are in the text of the component, the
/// source first. What follows them is the data unit, which goes to the dissector
/// for its ethertype.
pub proof fn law_frame_appears(
    destination_name: Seq<char>,
    source_name: Seq<char>,
    msdu_name: Option<Seq<char>>,
    span: Span,
    frame: Seq<u8>,
)
    ensures
        ({
            let left = left_by_all(
                frame_actions(destination_name, source_name, msdu_name, span, frame),
            );
            let length = frame.len() as int;
            let destination = item(Node::Frame, Node::Leaf, destination_name, part(span, 0, 6));
            let source = item(Node::Frame, Node::Leaf, source_name, part(span, 6, 6));
            let msdu = part(span, 12, length - 12);
            &&& left == (Appearance {
                items: left.items,
                component: left.component,
                calls: left.calls,
                ..nothing()
            })
            &&& length < 6 ==> left == nothing()
            &&& 6 <= length < 12 ==> left == (Appearance {
                items: seq![destination],
                ..nothing()
            })
            &&& length >= 12 ==> {
                &&& left.items == seq![destination, source] + match msdu_name {
                    Some(name) => seq![item(Node::Frame, Node::Leaf, name, msdu)],
                    None => Seq::empty(),
                }
                &&& left.component == ", Src: "@ + mac_text(frame.subrange(6, 12)) + ", Dst: "@
                    + mac_text(frame.subrange(0, 6))
            }
            &&& length < 14 ==> left.calls.len() == 0
            &&& length >= 14 ==> left.calls.len() == 1 && is_call_for(
                left.calls[0],
                msdu,
                frame.skip(12),
                Node::Frame,
            )
        }),
{
    reveal_with_fuel(left_by_first, 6);
    let actions = frame_actions(destination_name, source_name, msdu_name, span, frame);
    if frame.len() >= 12 {
        let unit = part(span, 12, frame.len() - 12);
        let call = ethertype_actions(unit, frame.skip(12), Node::Frame);
        let front = actions.take(actions.len() - call.len());
        assert(actions =~= front + call);
        law_appearance_of_both(front, call);
        law_call_is_for_the_ethertype(unit, frame.skip(12), Node::Frame);
        assert(frame.take(6) =~= frame.subrange(0, 6));
    }
}

/// A frame is dissected if it has 14 octets. Otherwise the error is on the first
/// part that is missing: an address, or the ethertype.
pub proof fn law_frame_needs_fourteen_octets(frame: Seq<u8>)
    requires
        frame.len() <= usize::MAX,
    ensures
        frame_result(frame) is Ok <==> frame.len() >= 14,
        frame_result(frame) matches Err(error) ==> (error matches DissectError::OutOfBounds {
            offset,
            length,
            available,
        } && {
            &&& frame.len() < 6 ==> offset == 0 && length == 6 && available == frame.len()
            &&& 6 <= frame.len() < 12 ==> offset == 6 && length == 6 && available == frame.len()
            &&& frame.len() >= 12 ==> offset == 0 && length == 2 && available == frame.len() - 12
        }),
{
}

/// An encapsulated frame has an item for its following length, one for the frame,
/// and what the frame shows.
pub proof fn law_encapsulated_frame_appears(header_span: Span, frame_span: Span, frame: Seq<u8>)
    ensures
        ({
            let left = left_by_all(encapsulated_frame_actions(header_span, frame_span, frame));
            left == together(
                Appearance {
                    items: seq![
                        subtree(
                            Node::Component,
                            Node::Leaf,
                            "component.following_length"@,
                            header_span,
                        ),
                        subtree(Node::Root, Node::Frame, "encapsulated_frame"@, frame_span),
                    ],
                    component: ", Type: Encapsulated Frame"@,
                    type_item: " (Encapsulated Frame)"@,
                    ..nothing()
                },
                left_by_all(
                    frame_actions(
                        "encapsulated_frame.destination_address"@,
                        "encapsulated_frame.source_address"@,
                        None,
                        frame_span,
                        frame,
                    ),
                ),
            )
        }),
{
    reveal_with_fuel(left_by_first, 5);
    let actions = encapsulated_frame_actions(header_span, frame_span, frame);
    let front = actions.take(4);
    let shown = actions.skip(4);
    assert(actions =~= front + shown);
    assert(shown =~= frame_actions(
        "encapsulated_frame.destination_address"@,
        "encapsulated_frame.source_address"@,
        None,
        frame_span,
        frame,
    ));
    law_appearance_of_both(front, shown);
}

/// A reassembled frame has an item below its component, and what the frame shows,
/// with an item for the data unit.
pub proof fn law_reassembled_frame_appears(span: Span, frame: Seq<u8>)
    ensures
        left_by_all(reassembled_frame_actions(span, frame)) == together(
            Appearance {
                items: seq![subtree(Node::Component, Node::Frame, "reassembled_frame"@, span)],
                ..nothing()
            },
            left_by_all(
                frame_actions(
                    "reassembled_frame.destination_address"@,
                    "reassembled_frame.source_address"@,
                    Some("reassembled_frame.msdu"@),
                    span,
                    frame,
                ),
            ),
        ),
{
    reveal_with_fuel(left_by_first, 2);
    let actions = reassembled_frame_actions(span, frame);
    let front = actions.take(1);
    let shown = actions.skip(1);
    assert(actions =~= front + shown);
    assert(shown =~= frame_actions(
        "reassembled_frame.destination_address"@,
        "reassembled_frame.source_address"@,
        Some("reassembled_frame.msdu"@),
        span,
        frame,
    ));
    law_appearance_of_both(front, shown);
}

/// The names of flags that are set, with commas between, for each setting of the
/// bits 0x40, 0x20 and 0x10.
pub open spec fn named_flags(initial: bool, last: bool, express: bool) -> Seq<char> {
    match (initial, last, express) {
        (false, false, false) => ""@,
        (true, false, false) => "Initial"@,
        (false, true, false) => "Final"@,
        (false, false, true) => "Express"@,
        (true, true, false) => "Initial, Final"@,
        (true, false, true) => "Initial, Express"@,
        (false, true, true) => "Final, Express"@,
        (true, true, true) => "Initial, Final, Express"@,
    }
}

/// The flags are named after the bits that are set: Initial for 0x40, Final for
/// 0x20, Express for 0x10, and no other name for any.
pub proof fn law_flags_are_named_by_bits(flags: u8)
    ensures
        flag_names(flags).contains("Initial"@) <==> flags & 0x40 != 0,
        flag_names(flags).contains("Final"@) <==> flags & 0x20 != 0,
        flag_names(flags).contains("Express"@) <==> flags & 0x10 != 0,
        forall|i: int|
            0 <= i < flag_names(flags).len() ==> (#[trigger] flag_names(flags)[i] == "Initial"@
                || flag_names(flags)[i] == "Final"@ || flag_names(flags)[i] == "Express"@),
        joined(flag_names(flags), ", "@) == named_flags(
            flags & 0x40 != 0,
            flags & 0x20 != 0,
            flags & 0x10 != 0,
        ),
{
    assert((flags & 0x40 != 0) == ((flags / 64) % 2 == 1)) by (bit_vector);
    assert((flags & 0x20 != 0) == ((flags / 32) % 2 == 1)) by (bit_vector);
    assert((flags & 0x10 != 0) == ((flags / 16) % 2 == 1)) by (bit_vector);
    reveal_strlit("Initial");
    reveal_strlit("Final");
    reveal_strlit("Express");
    reveal_strlit(", ");
    reveal_strlit("");
    reveal_strlit("Initial, Final");
    reveal_strlit("Initial, Express");
    reveal_strlit("Final, Express");
    reveal_strlit("Initial, Final, Express");
    let names = flag_names(flags);
    let initial = flags & 0x40 != 0;
    let last = flags & 0x20 != 0;
    let express = flags & 0x10 != 0;
    assert("Initial"@[0] != "Express"@[0]);
    if initial {
        assert(names[0] == "Initial"@);
    }
    if last {
        assert(names[if initial {
            1
        } else {
            0int
        }] == "Final"@);
    }
    if express {
        assert(names[names.len() - 1] == "Express"@);
    }
    reveal_with_fuel(joined, 4);
    assert(joined(names, ", "@) =~= named_flags(initial, last, express));
}

/// A frame fragment shows its flags, each of them, and its sequence number. The
/// texts name the flags that are set, and say so if there are none.
pub proof fn law_frame_fragment_appears(header_span: Span, span: Span, payload: Seq<u8>)
    requires
        payload.len() >= 1,
    ensures
        ({
            let left = left_by_all(frame_fragment_actions(header_span, span, payload));
            let flags = payload[0];
            let named = named_flags(flags & 0x40 != 0, flags & 0x20 != 0, flags & 0x10 != 0);
            let octet = part(span, 0, 1);
            left == (Appearance {
                items: seq![
                    subtree(
                        Node::Component,
                        Node::Leaf,
                        "component.following_length"@,
                        header_span,
                    ),
                    subtree(Node::Root, Node::Frame, "frame_fragment"@, span),
                    subtree(Node::Frame, Node::Flags, "frame_fragment.flags"@, octet),
                    item(
                        Node::Flags,
                        Node::Leaf,
                        "frame_fragment.flags.initial_frame"@,
                        octet,
                    ),
                    item(Node::Flags, Node::Leaf, "frame_fragment.flags.final_frame"@, octet),
                    item(
                        Node::Flags,
                        Node::Leaf,
                        "frame_fragment.flags.express_frame"@,
                        octet,
                    ),
                    item(
                        Node::Frame,
                        Node::Leaf,
                        "frame_fragment.sequence_number"@,
                        part(span, 1, 3),
                    ),
                ],
                component: ", Type: Frame Fragment"@ + (", Flags: "@ + if flags & 0x70 == 0 {
                    "(None)"@
                } else {
                    named
                }),
                type_item: " (Frame Fragment)"@,
                flags: " ("@ + named + ")"@,
                others: seq![Op::SetFragmented { fragmented: true }],
                ..nothing()
            })
        }),
{
    let flags = payload[0];
    law_flags_are_named_by_bits(flags);
    assert((flags & 0x70 == 0) == (flags & 0x40 == 0 && flags & 0x20 == 0 && flags & 0x10 == 0))
        by (bit_vector);
    assert(flags_text(flags) == if flags & 0x70 == 0 {
        "(None)"@
    } else {
        joined(flag_names(flags), ", "@)
    }) by {
        let names = flag_names(flags);
        if flags & 0x70 == 0 {
            if names.len() > 0 {
                assert(names.contains(names[0]));
            }
        }
    }
    reveal_with_fuel(left_by_first, 13);
}

/// The summary names the components in order, in brackets, unless data was passed
/// to another dissector.
pub proof fn law_summary_appears(state: MppduModel)
    ensures
        left_by_all(summary_actions(state)) == (Appearance {
            others: if state.subdissector_called {
                Seq::empty()
            } else {
                seq![
                    Op::SetColumnText {
                        column: Column::Info,
                        text: "MPPDU Components: ["@ + joined(state.components, ", "@) + "]"@,
                    },
                ]
            },
            ..nothing()
        }),
{
    reveal_with_fuel(left_by_first, 2);
}

} // verus!
