//! The names under which the protocol registers, and that actions keep to them.

use vstd::prelude::*;

use crate::component::{
    component_length, following_length, header_length, kind_of, payload_of, type_value,
    ComponentKind, HEADER_LENGTH,
};
use crate::dissector::{handed_on_of, length_actions, resume_of, step_of, Outcome};
use crate::fragment::FragmentModel;
use crate::model::{
    encapsulated_frame_actions, explicit_pad_actions, flag_names, frame_actions,
    frame_fragment_actions, head_actions, invalid_actions, reassembled_frame_actions, summary_actions,
    trailing_pad_actions, MppduModel,
};
use crate::plan::{ActionModel, Op};
use crate::protocol::{
    filter_of, registered_expert_infos, registered_fields, registered_fragment_items,
    registered_subtrees, ExpertGroup, ExpertSeverity, Field, FieldDisplay, FieldType, Subtree,
};
use crate::tvb::{sub_span, whole_span, Span};

verus! {

/// Whether there is a field of this name.
#[verifier::opaque]
pub open spec fn is_field(name: Seq<char>) -> bool {
    exists|i: int|
        0 <= i < registered_fields().len() && (#[trigger] registered_fields()[i]).name == name
}

/// Whether there is a subtree of this name.
#[verifier::opaque]
pub open spec fn is_subtree(name: Seq<char>) -> bool {
    exists|i: int|
        0 <= i < registered_subtrees().len() && (#[trigger] registered_subtrees()[i]).name == name
}

/// Whether there is a kind of remark with this name and text.
#[verifier::opaque]
pub open spec fn is_expert_info(name: Seq<char>, remark: Seq<char>) -> bool {
    exists|i: int|
        #![trigger registered_expert_infos()[i]]
        0 <= i < registered_expert_infos().len() && registered_expert_infos()[i].name == name
            && registered_expert_infos()[i].summary == remark
}

/// Whether the names that an action uses are registered.
pub open spec fn is_registered(action: ActionModel) -> bool {
    match action {
        Op::Add { name, .. } => is_field(name) && is_subtree(name),
        Op::AddItem { name, .. } => is_field(name),
        Op::AddExpertInfo { name, remark, .. } => is_expert_info(name, remark),
        _ => true,
    }
}

/// Where each name stands in the lists.
proof fn lemma_registered_names()
    ensures
        is_field("component"@),
        is_field("component.type"@),
        is_field("component.following_length"@),
        is_field("trailing_pad"@),
        is_field("encapsulated_frame"@),
        is_field("encapsulated_frame.destination_address"@),
        is_field("encapsulated_frame.source_address"@),
        is_field("explicit_pad"@),
        is_field("frame_fragment"@),
        is_field("frame_fragment.flags"@),
        is_field("frame_fragment.flags.initial_frame"@),
        is_field("frame_fragment.flags.final_frame"@),
        is_field("frame_fragment.flags.express_frame"@),
        is_field("frame_fragment.sequence_number"@),
        is_field("reassembled_frame"@),
        is_field("reassembled_frame.fragments"@),
        is_field("reassembled_frame.fragment"@),
        is_field("reassembled_frame.overlap"@),
        is_field("reassembled_frame.overlap.conflict"@),
        is_field("reassembled_frame.multipletails"@),
        is_field("reassembled_frame.toolongfragment"@),
        is_field("reassembled_frame.error"@),
        is_field("reassembled_frame.count"@),
        is_field("reassembled_frame.reassembled_in"@),
        is_field("reassembled_frame.length"@),
        is_field("reassembled_frame.destination_address"@),
        is_field("reassembled_frame.source_address"@),
        is_field("reassembled_frame.msdu"@),
        is_subtree("component"@),
        is_subtree("component.following_length"@),
        is_subtree("encapsulated_frame"@),
        is_subtree("frame_fragment"@),
        is_subtree("frame_fragment.flags"@),
        is_subtree("reassembled_frame"@),
        is_subtree("reassembled_frame.fragment"@),
        is_expert_info("expert_invalid_component"@, "Invalid MPPDU component"@),
        is_expert_info("expert_nonzero_pad"@, "Padding bytes must be zero"@),
{
    reveal(is_field);
    reveal(is_subtree);
    reveal(is_expert_info);
    let fields = registered_fields();
    assert(fields[0].name == "component"@);
    assert(fields[1].name == "component.type"@);
    assert(fields[2].name == "component.following_length"@);
    assert(fields[3].name == "trailing_pad"@);
    assert(fields[4].name == "encapsulated_frame"@);
    assert(fields[5].name == "encapsulated_frame.destination_address"@);
    assert(fields[6].name == "encapsulated_frame.source_address"@);
    assert(fields[7].name == "explicit_pad"@);
    assert(fields[8].name == "frame_fragment"@);
    assert(fields[9].name == "frame_fragment.flags"@);
    assert(fields[10].name == "frame_fragment.flags.initial_frame"@);
    assert(fields[11].name == "frame_fragment.flags.final_frame"@);
    assert(fields[12].name == "frame_fragment.flags.express_frame"@);
    assert(fields[13].name == "frame_fragment.sequence_number"@);
    assert(fields[14].name == "reassembled_frame"@);
    assert(fields[15].name == "reassembled_frame.fragments"@);
    assert(fields[16].name == "reassembled_frame.fragment"@);
    assert(fields[17].name == "reassembled_frame.overlap"@);
    assert(fields[18].name == "reassembled_frame.overlap.conflict"@);
    assert(fields[19].name == "reassembled_frame.multipletails"@);
    assert(fields[20].name == "reassembled_frame.toolongfragment"@);
    assert(fields[21].name == "reassembled_frame.error"@);
    assert(fields[22].name == "reassembled_frame.count"@);
    assert(fields[23].name == "reassembled_frame.reassembled_in"@);
    assert(fields[24].name == "reassembled_frame.length"@);
    assert(fields[25].name == "reassembled_frame.destination_address"@);
    assert(fields[26].name == "reassembled_frame.source_address"@);
    assert(fields[27].name == "reassembled_frame.msdu"@);
    let subtrees = registered_subtrees();
    assert(subtrees[0].name == "component"@);
    assert(subtrees[1].name == "component.following_length"@);
    assert(subtrees[2].name == "encapsulated_frame"@);
    assert(subtrees[3].name == "frame_fragment"@);
    assert(subtrees[4].name == "frame_fragment.flags"@);
    assert(subtrees[5].name == "reassembled_frame"@);
    assert(subtrees[6].name == "reassembled_frame.fragment"@);
    let experts = registered_expert_infos();
    assert(experts[1].name == "expert_invalid_component"@);
    assert(experts[2].name == "expert_nonzero_pad"@);
}

/// Whether the names that a list of actions uses are registered.
pub open spec fn all_registered(actions: Seq<ActionModel>) -> bool {
    forall|i: int| 0 <= i < actions.len() ==> is_registered(#[trigger] actions[i])
}

/// Two lists that use registered names do so put together.
proof fn lemma_all_registered_together(a: Seq<ActionModel>, b: Seq<ActionModel>)
    requires
        all_registered(a),
        all_registered(b),
    ensures
        all_registered(a + b),
{
    let both = a + b;
    assert forall|i: int| 0 <= i < both.len() implies is_registered(#[trigger] both[i]) by {
        if i < a.len() {
            assert(both[i] == a[i]);
        } else {
            assert(both[i] == b[i - a.len()]);
        }
    }
}

/// The parts that all components share use registered names.
proof fn lemma_shared_actions_registered(span: Span, state: MppduModel, length: nat)
    ensures
        all_registered(head_actions(span)),
        all_registered(invalid_actions()),
        all_registered(summary_actions(state)),
        all_registered(length_actions(length)),
{
    lemma_registered_names();
}

/// Pads use registered names.
proof fn lemma_pad_actions_registered(header_span: Span, span: Span, pad: Seq<u8>, header: nat)
    ensures
        all_registered(explicit_pad_actions(header_span, span, pad)),
        all_registered(trailing_pad_actions(span, pad, header)),
{
    lemma_registered_names();
}

/// The addresses and the data unit of a frame use the names that they are given.
proof fn lemma_frame_actions_registered(
    destination_name: Seq<char>,
    source_name: Seq<char>,
    msdu_name: Option<Seq<char>>,
    span: Span,
    frame: Seq<u8>,
)
    requires
        is_field(destination_name),
        is_field(source_name),
        msdu_name matches Some(name) ==> is_field(name),
    ensures
        all_registered(frame_actions(destination_name, source_name, msdu_name, span, frame)),
{
}

/// Frames use registered names.
proof fn lemma_whole_frame_actions_registered(header_span: Span, span: Span, frame: Seq<u8>)
    ensures
        all_registered(encapsulated_frame_actions(header_span, span, frame)),
        all_registered(reassembled_frame_actions(span, frame)),
{
    lemma_registered_names();
    lemma_frame_actions_registered(
        "encapsulated_frame.destination_address"@,
        "encapsulated_frame.source_address"@,
        None,
        span,
        frame,
    );
    lemma_frame_actions_registered(
        "reassembled_frame.destination_address"@,
        "reassembled_frame.source_address"@,
        Some("reassembled_frame.msdu"@),
        span,
        frame,
    );
}

/// Frame fragments use registered names.
proof fn lemma_frame_fragment_actions_registered(
    header_span: Span,
    span: Span,
    payload: Seq<u8>,
)
    ensures
        all_registered(frame_fragment_actions(header_span, span, payload)),
{
    lemma_registered_names();
}

/// Every field, subtree and remark that a step asks for is registered.
pub proof fn law_steps_use_registered_names(state: MppduModel, captured: usize)
    ensures
        all_registered(step_of(state, captured).actions),
{
    let turn = step_of(state, captured);
    lemma_shared_actions_registered(state.span, turn.state, 0);
    if state.rest.len() > 0 {
        let head = head_actions(state.span);
        let header_span = sub_span(state.span, 0, HEADER_LENGTH as nat);
        let payload = payload_of(state.rest);
        let span = sub_span(state.span, HEADER_LENGTH as nat, payload.len());
        let length = component_length(state.rest);
        lemma_shared_actions_registered(state.span, turn.state, length);
        match kind_of(state.rest) {
            ComponentKind::Truncated => {
                lemma_all_registered_together(head, invalid_actions());
            },
            ComponentKind::TrailingPad => {
                let header = header_length(state.rest);
                let shown = trailing_pad_actions(state.span, state.rest, header);
                lemma_pad_actions_registered(header_span, state.span, state.rest, header);
                lemma_all_registered_together(head, shown);
                lemma_all_registered_together(head + shown, summary_actions(turn.state));
            },
            ComponentKind::EncapsulatedFrame => {
                let shown = encapsulated_frame_actions(header_span, span, payload);
                lemma_whole_frame_actions_registered(header_span, span, payload);
                lemma_all_registered_together(head, shown);
            },
            ComponentKind::ExplicitPad => {
                let shown = explicit_pad_actions(header_span, span, payload);
                lemma_pad_actions_registered(header_span, span, payload, 0);
                lemma_all_registered_together(head, shown);
                lemma_all_registered_together(head + shown, length_actions(length));
            },
            ComponentKind::FrameFragment => {
                lemma_frame_fragment_actions_registered(header_span, span, payload);
                lemma_all_registered_together(
                    head,
                    frame_fragment_actions(header_span, span, payload),
                );
            },
            ComponentKind::Invalid => {
                lemma_all_registered_together(head, invalid_actions());
                lemma_all_registered_together(head + invalid_actions(), length_actions(length));
            },
        }
    }
}

/// So is all that is asked for after a fragment.
pub proof fn law_resumed_steps_use_registered_names(
    state: MppduModel,
    fragment: FragmentModel,
    reassembled: Option<Seq<u8>>,
)
    ensures
        all_registered(resume_of(state, fragment, reassembled).actions),
{
    if let Some(frame) = reassembled {
        let span = whole_span(frame);
        lemma_whole_frame_actions_registered(span, span, frame);
    }
}

/// So is all that is asked for after a call of another dissector.
pub proof fn law_handed_on_steps_use_registered_names(
    state: MppduModel,
    length: usize,
    outcome: Outcome,
)
    ensures
        all_registered(handed_on_of(state, length, outcome).actions),
{
}

/// The items that show how a frame was reassembled are registered fields and
/// subtrees.
pub proof fn law_fragment_items_are_registered()
    ensures
        ({
            let items = registered_fragment_items();
            &&& is_subtree(items.ett_fragment)
            &&& is_subtree(items.ett_fragments)
            &&& is_field(items.hf_fragments)
            &&& is_field(items.hf_fragment)
            &&& is_field(items.hf_fragment_overlap)
            &&& is_field(items.hf_fragment_overlap_conflict)
            &&& is_field(items.hf_fragment_multiple_tails)
            &&& is_field(items.hf_fragment_too_long_fragment)
            &&& is_field(items.hf_fragment_error)
            &&& is_field(items.hf_fragment_count)
            &&& is_field(items.hf_reassembled_in)
            &&& is_field(items.hf_reassembled_length)
            &&& is_field(items.hf_reassembled_data)
        }),
{
    lemma_registered_names();
}

/// Where the field of a given name stands in the list.
spec fn place(name: Seq<char>) -> int {
    if name.len() == 9 {
        0
    } else if name.len() == 12 {
        if name[0] == 't' {
            3
        } else {
            7
        }
    } else if name.len() == 14 {
        if name[0] == 'c' {
            1
        } else {
            8
        }
    } else if name.len() == 17 {
        14
    } else if name.len() == 18 {
        4
    } else if name.len() == 20 {
        9
    } else if name.len() == 22 {
        27
    } else if name.len() == 23 {
        if name[18] == 'e' {
            21
        } else {
            22
        }
    } else if name.len() == 24 {
        24
    } else if name.len() == 25 {
        17
    } else if name.len() == 26 {
        if name[0] == 'c' {
            2
        } else {
            16
        }
    } else if name.len() == 27 {
        15
    } else if name.len() == 30 {
        13
    } else if name.len() == 31 {
        19
    } else if name.len() == 32 {
        if name[18] == 'g' {
            11
        } else if name[18] == 'r' {
            23
        } else {
            26
        }
    } else if name.len() == 33 {
        if name[0] == 'e' {
            6
        } else {
            20
        }
    } else if name.len() == 34 {
        if name[21] == 'i' {
            10
        } else if name[21] == 'e' {
            12
        } else {
            18
        }
    } else if name.len() == 37 {
        25
    } else if name.len() == 38 {
        5
    } else {
        -1
    }
}

/// Every field is found at its place.
proof fn lemma_place(i: int)
    requires
        0 <= i < registered_fields().len(),
    ensures
        place(registered_fields()[i].name) == i,
{
    let fields = registered_fields();
    assert(place(fields[0].name) == 0) by {
        reveal_strlit("component");
    }
    assert(place(fields[1].name) == 1) by {
        reveal_strlit("component.type");
    }
    assert(place(fields[2].name) == 2) by {
        reveal_strlit("component.following_length");
    }
    assert(place(fields[3].name) == 3) by {
        reveal_strlit("trailing_pad");
    }
    assert(place(fields[4].name) == 4) by {
        reveal_strlit("encapsulated_frame");
    }
    assert(place(fields[5].name) == 5) by {
        reveal_strlit("encapsulated_frame.destination_address");
    }
    assert(place(fields[6].name) == 6) by {
        reveal_strlit("encapsulated_frame.source_address");
    }
    assert(place(fields[7].name) == 7) by {
        reveal_strlit("explicit_pad");
    }
    assert(place(fields[8].name) == 8) by {
        reveal_strlit("frame_fragment");
    }
    assert(place(fields[9].name) == 9) by {
        reveal_strlit("frame_fragment.flags");
    }
    assert(place(fields[10].name) == 10) by {
        reveal_strlit("frame_fragment.flags.initial_frame");
    }
    assert(place(fields[11].name) == 11) by {
        reveal_strlit("frame_fragment.flags.final_frame");
    }
    assert(place(fields[12].name) == 12) by {
        reveal_strlit("frame_fragment.flags.express_frame");
    }
    assert(place(fields[13].name) == 13) by {
        reveal_strlit("frame_fragment.sequence_number");
    }
    assert(place(fields[14].name) == 14) by {
        reveal_strlit("reassembled_frame");
    }
    assert(place(fields[15].name) == 15) by {
        reveal_strlit("reassembled_frame.fragments");
    }
    assert(place(fields[16].name) == 16) by {
        reveal_strlit("reassembled_frame.fragment");
    }
    assert(place(fields[17].name) == 17) by {
        reveal_strlit("reassembled_frame.overlap");
    }
    assert(place(fields[18].name) == 18) by {
        reveal_strlit("reassembled_frame.overlap.conflict");
    }
    assert(place(fields[19].name) == 19) by {
        reveal_strlit("reassembled_frame.multipletails");
    }
    assert(place(fields[20].name) == 20) by {
        reveal_strlit("reassembled_frame.toolongfragment");
    }
    assert(place(fields[21].name) == 21) by {
        reveal_strlit("reassembled_frame.error");
    }
    assert(place(fields[22].name) == 22) by {
        reveal_strlit("reassembled_frame.count");
    }
    assert(place(fields[23].name) == 23) by {
        reveal_strlit("reassembled_frame.reassembled_in");
    }
    assert(place(fields[24].name) == 24) by {
        reveal_strlit("reassembled_frame.length");
    }
    assert(place(fields[25].name) == 25) by {
        reveal_strlit("reassembled_frame.destination_address");
    }
    assert(place(fields[26].name) == 26) by {
        reveal_strlit("reassembled_frame.source_address");
    }
    assert(place(fields[27].name) == 27) by {
        reveal_strlit("reassembled_frame.msdu");
    }
}

/// No two fields have the same name.
pub proof fn law_field_names_are_distinct(i: int, j: int)
    requires
        0 <= i < registered_fields().len(),
        0 <= j < registered_fields().len(),
        registered_fields()[i].name == registered_fields()[j].name,
    ensures
        i == j,
{
    lemma_place(i);
    lemma_place(j);
}

/// The filter name of every field is the name of the protocol's filter, a dot,
/// and the name of the field.
pub proof fn law_filters_follow_names(i: int)
    requires
        0 <= i < registered_fields().len(),
    ensures
        registered_fields()[i].filter == filter_of(registered_fields()[i].name),
{
}

/// What is shown for each field, in the order of the fields.
pub proof fn law_fields_are_labelled()
    ensures
        registered_fields().map_values(|field: Field<Seq<char>>| field.label) == seq![
            "MPPDU component"@,
            "Type"@,
            "Following Length"@,
            "Trailing Pad"@,
            "Encapsulated Frame"@,
            "Destination Address"@,
            "Source Address"@,
            "Explicit Pad"@,
            "Frame Fragment"@,
            "Flags"@,
            "Initial"@,
            "Final"@,
            "Express"@,
            "Sequence Number"@,
            "Reassembled Frame"@,
            "Frame Fragments"@,
            "Frame Fragment"@,
            "Frame Overlap"@,
            "Conflicting data in frame fragment overlap"@,
            "Multiple final fragments found"@,
            "Fragment too long"@,
            "Defragmentation error"@,
            "Fragment count"@,
            "Reassembled MSDU in frame"@,
            "Reassembled MSDU length"@,
            "Destination Address"@,
            "Source Address"@,
            "MAC Service Data Unit"@,
        ],
{
    assert(registered_fields().len() == 28);
}

/// How the value of each field is shown, in the order of the fields.
pub proof fn law_fields_are_displayed()
    ensures
        registered_fields().map_values(|field: Field<Seq<char>>| field.display) == seq![
            FieldDisplay::Plain,
            FieldDisplay::BaseHex,
            FieldDisplay::BaseDec,
            FieldDisplay::Plain,
            FieldDisplay::Plain,
            FieldDisplay::Plain,
            FieldDisplay::Plain,
            FieldDisplay::Plain,
            FieldDisplay::Plain,
            FieldDisplay::BaseHex,
            FieldDisplay::Boolean(8),
            FieldDisplay::Boolean(8),
            FieldDisplay::Boolean(8),
            FieldDisplay::BaseDec,
            FieldDisplay::Plain,
            FieldDisplay::Plain,
            FieldDisplay::Plain,
            FieldDisplay::Plain,
            FieldDisplay::Plain,
            FieldDisplay::Plain,
            FieldDisplay::Plain,
            FieldDisplay::Plain,
            FieldDisplay::BaseDec,
            FieldDisplay::Plain,
            FieldDisplay::BaseDec,
            FieldDisplay::Plain,
            FieldDisplay::Plain,
            FieldDisplay::Plain,
        ],
{
    assert(registered_fields().len() == 28);
}

/// The type of each field, in the order of the fields.
pub proof fn law_fields_are_typed()
    ensures
        registered_fields().map_values(|field: Field<Seq<char>>| field.field_type) == seq![
            FieldType::Empty,
            FieldType::Uint8,
            FieldType::Uint16,
            FieldType::Bytes,
            FieldType::Empty,
            FieldType::Ether,
            FieldType::Ether,
            FieldType::Bytes,
            FieldType::Empty,
            FieldType::Uint8,
            FieldType::Boolean,
            FieldType::Boolean,
            FieldType::Boolean,
            FieldType::Uint24,
            FieldType::Empty,
            FieldType::Empty,
            FieldType::Framenum,
            FieldType::Boolean,
            FieldType::Boolean,
            FieldType::Boolean,
            FieldType::Boolean,
            FieldType::Framenum,
            FieldType::Uint32,
            FieldType::Framenum,
            FieldType::Uint32,
            FieldType::Ether,
            FieldType::Ether,
            FieldType::Bytes,
        ],
{
    assert(registered_fields().len() == 28);
}

/// The bits that a field takes of its octets are those that the dissection reads:
/// the type takes the upper two of an octet, the following length the lower
/// fourteen of two, and each flag the one that it is named by.
pub proof fn law_masks_take_what_is_read(rest: Seq<u8>)
    requires
        rest.len() >= 2,
    ensures
        ({
            let octet = rest[0] as u64;
            let word = (256 * rest[0] + rest[1]) as u64;
            let mask = |i: int| registered_fields()[i].bitmask->0;
            &&& (octet & mask(1)) / 64 == type_value(rest)
            &&& word & mask(2) == following_length(rest)
            &&& octet & mask(10) != 0 <==> flag_names(rest[0]).contains("Initial"@)
            &&& octet & mask(11) != 0 <==> flag_names(rest[0]).contains("Final"@)
            &&& octet & mask(12) != 0 <==> flag_names(rest[0]).contains("Express"@)
        }),
        forall|i: int|
            0 <= i < registered_fields().len() ==> ((#[trigger] registered_fields()[i]).bitmask
                is Some <==> i == 1 || i == 2 || 10 <= i <= 12),
        forall|i: int|
            0 <= i < registered_fields().len() ==> ((#[trigger] registered_fields()[i]).strings
                is Some <==> 10 <= i <= 12),
        forall|i: int|
            10 <= i <= 12 ==> {
                let words = (#[trigger] registered_fields()[i]).strings->0;
                words.true_string == "Set"@ && words.false_string == "Not set"@
            },
{
    let octet = rest[0];
    let word = (256 * rest[0] + rest[1]) as u64;
    crate::appearance::law_flags_are_named_by_bits(octet);
    crate::encoding::law_header_is_type_and_length(rest);
    assert(((octet as u64) & 0xc0) / 64 == (octet / 64) as u64) by (bit_vector);
    assert(word & 0x3fff == word % 16384) by (bit_vector);
    assert(((octet as u64) & 0x40 != 0) == (octet & 0x40 != 0)) by (bit_vector);
    assert(((octet as u64) & 0x20 != 0) == (octet & 0x20 != 0)) by (bit_vector);
    assert(((octet as u64) & 0x10 != 0) == (octet & 0x10 != 0)) by (bit_vector);
}

/// Subtrees have these labels, and remarks these texts and ranks.
pub proof fn law_subtrees_and_remarks()
    ensures
        registered_subtrees().map_values(|subtree: Subtree<Seq<char>>| subtree.label) == seq![
            "MPPDU"@,
            "Following Length"@,
            "Encapsulated Frame"@,
            "Frame Fragment"@,
            "Flags"@,
            "Reassembled Frame"@,
            "Frame Fragment"@,
        ],
        forall|i: int|
            0 <= i < registered_expert_infos().len() ==> {
                let info = #[trigger] registered_expert_infos()[i];
                &&& info.group == ExpertGroup::CommentsGroup <==> info.severity
                    == ExpertSeverity::Comment
                &&& info.severity == ExpertSeverity::Comment <==> info.name
                    == "expert_explicit_pad_length"@
            },
{
    reveal_strlit("expert_explicit_pad_length");
    reveal_strlit("expert_invalid_component");
    reveal_strlit("expert_nonzero_pad");
    assert(registered_subtrees().len() == 7);
    assert("expert_invalid_component"@.len() != "expert_explicit_pad_length"@.len());
    assert("expert_nonzero_pad"@.len() != "expert_explicit_pad_length"@.len());
    let infos = registered_expert_infos();
    assert(infos[0].name == "expert_explicit_pad_length"@);
    assert(infos[1].name == "expert_invalid_component"@);
    assert(infos[2].name == "expert_nonzero_pad"@);
}

/// The items that show how a frame was reassembled, each by its own field: all have
/// different ones, but for the frame itself, which is shown by the field and the
/// subtree of the same name, and the fragments, whose subtree has the name of the
/// field for one.
pub proof fn law_fragment_items_have_their_own_fields()
    ensures
        ({
            let items = registered_fragment_items();
            let field = |i: int| registered_fields()[i].name;
            &&& items.hf_fragments == field(15)
            &&& items.hf_fragment == field(16)
            &&& items.hf_fragment_overlap == field(17)
            &&& items.hf_fragment_overlap_conflict == field(18)
            &&& items.hf_fragment_multiple_tails == field(19)
            &&& items.hf_fragment_too_long_fragment == field(20)
            &&& items.hf_fragment_error == field(21)
            &&& items.hf_fragment_count == field(22)
            &&& items.hf_reassembled_in == field(23)
            &&& items.hf_reassembled_length == field(24)
            &&& items.hf_reassembled_data == field(14)
            &&& items.ett_fragment == items.hf_reassembled_data
            &&& items.ett_fragments == items.hf_fragment
        }),
{
}

} // verus!
