//! How the protocol registers with a host: its name, its fields, its subtrees
//! and the remarks it makes.

use vstd::prelude::*;

use crate::component::{
    EXPRESS_FRAME, FINAL_FRAME, INITIAL_FRAME, MPPDU_FOLLOWING_LENGTH_MASK, MPPDU_TYPE_MASK,
};

verus! {

/// MAC Privacy ethertype.
pub const MAC_PRIVACY_ETHERTYPE: u32 = 0xe23b;

/// How the value of a field is shown.
#[derive(Clone, Copy, Debug, PartialEq, Eq, Structural)]
pub enum FieldDisplay {
    /// As its type asks for.
    Plain,
    /// In decimal.
    BaseDec,
    /// In hexadecimal.
    BaseHex,
    /// As one bit of a value with this many bits.
    Boolean(u8),
}

/// The type of a field.
#[derive(Clone, Copy, Debug, PartialEq, Eq, Structural)]
pub enum FieldType {
    /// No value.
    Empty,
    /// A truth value.
    Boolean,
    /// Octets.
    Bytes,
    /// A MAC address.
    Ether,
    /// The number of a packet.
    Framenum,
    /// An 8-bit number.
    Uint8,
    /// A 16-bit number.
    Uint16,
    /// A 24-bit number.
    Uint24,
    /// A 32-bit number.
    Uint32,
}

/// Words for the values of a truth value. `N` is the type of texts, here and
/// below.
#[derive(Debug, PartialEq, Eq)]
pub struct TrueFalseString<N> {
    /// For `true`.
    pub true_string: N,
    /// For `false`.
    pub false_string: N,
}

/// A field.
#[derive(Debug, PartialEq, Eq)]
pub struct Field<N> {
    /// The name that actions refer to it by.
    pub name: N,
    /// What is shown for it.
    pub label: N,
    /// Its name in display filters.
    pub filter: N,
    /// The bits that it takes of the octets, if not all.
    pub bitmask: Option<u64>,
    /// How its value is shown.
    pub display: FieldDisplay,
    /// Its type.
    pub field_type: FieldType,
    /// Words for its values.
    pub strings: Option<TrueFalseString<N>>,
}

/// A subtree.
#[derive(Debug, PartialEq, Eq)]
pub struct Subtree<N> {
    /// The name that actions refer to it by.
    pub name: N,
    /// What is shown for it.
    pub label: N,
}

/// What a remark is about.
#[derive(Clone, Copy, Debug, PartialEq, Eq, Structural)]
pub enum ExpertGroup {
    /// A comment.
    CommentsGroup,
    /// A malformed packet.
    Malformed,
}

/// How grave a remark is.
#[derive(Clone, Copy, Debug, PartialEq, Eq, Structural)]
pub enum ExpertSeverity {
    /// A comment.
    Comment,
    /// A warning.
    Warn,
}

/// A kind of remark.
#[derive(Debug, PartialEq, Eq)]
pub struct ExpertInfo<N> {
    /// The name that actions refer to it by.
    pub name: N,
    /// What it is about.
    pub group: ExpertGroup,
    /// How grave it is.
    pub severity: ExpertSeverity,
    /// The remark.
    pub summary: N,
}

/// The fields and subtrees that show how a frame was reassembled.
#[derive(Debug, PartialEq, Eq)]
pub struct FragmentItems<N> {
    /// Subtree of one fragment.
    pub ett_fragment: N,
    /// Subtree of all fragments.
    pub ett_fragments: N,
    /// Field for all fragments.
    pub hf_fragments: N,
    /// Field for one fragment.
    pub hf_fragment: N,
    /// Field for an overlap.
    pub hf_fragment_overlap: N,
    /// Field for an overlap with different data.
    pub hf_fragment_overlap_conflict: N,
    /// Field for more than one final fragment.
    pub hf_fragment_multiple_tails: N,
    /// Field for a fragment that is too long.
    pub hf_fragment_too_long_fragment: N,
    /// Field for another error.
    pub hf_fragment_error: N,
    /// Field for the number of fragments.
    pub hf_fragment_count: N,
    /// Field for the packet that completes the frame.
    pub hf_reassembled_in: N,
    /// Field for the length of the frame.
    pub hf_reassembled_length: N,
    /// Field for the frame.
    pub hf_reassembled_data: N,
    /// What the fragments are called.
    pub tag: N,
}

/// What a host has to know of the protocol.
#[derive(Debug, PartialEq)]
pub struct Protocol {
    /// Its full name.
    pub name: &'static str,
    /// Its short name.
    pub abbreviation: &'static str,
    /// Its name in display filters.
    pub filter: &'static str,
    /// Its subtrees.
    pub subtrees: Vec<Subtree<&'static str>>,
    /// Its fields.
    pub fields: Vec<Field<&'static str>>,
    /// The remarks it makes.
    pub expert_infos: Vec<ExpertInfo<&'static str>>,
    /// The items that show how a frame was reassembled.
    pub fragment_items: FragmentItems<&'static str>,
    /// The dissector table that packets come from.
    pub decode_from_table: &'static str,
    /// The values in that table.
    pub decode_from_values: Vec<u32>,
}

impl View for TrueFalseString<&'static str> {
    type V = TrueFalseString<Seq<char>>;

    open spec fn view(&self) -> TrueFalseString<Seq<char>> {
        TrueFalseString { true_string: self.true_string@, false_string: self.false_string@ }
    }
}

impl View for Field<&'static str> {
    type V = Field<Seq<char>>;

    open spec fn view(&self) -> Field<Seq<char>> {
        Field {
            name: self.name@,
            label: self.label@,
            filter: self.filter@,
            bitmask: self.bitmask,
            display: self.display,
            field_type: self.field_type,
            strings: match self.strings {
                Some(strings) => Some(strings@),
                None => None,
            },
        }
    }
}

impl View for Subtree<&'static str> {
    type V = Subtree<Seq<char>>;

    open spec fn view(&self) -> Subtree<Seq<char>> {
        Subtree { name: self.name@, label: self.label@ }
    }
}

impl View for ExpertInfo<&'static str> {
    type V = ExpertInfo<Seq<char>>;

    open spec fn view(&self) -> ExpertInfo<Seq<char>> {
        ExpertInfo {
            name: self.name@,
            group: self.group,
            severity: self.severity,
            summary: self.summary@,
        }
    }
}

impl View for FragmentItems<&'static str> {
    type V = FragmentItems<Seq<char>>;

    open spec fn view(&self) -> FragmentItems<Seq<char>> {
        FragmentItems {
            ett_fragment: self.ett_fragment@,
            ett_fragments: self.ett_fragments@,
            hf_fragments: self.hf_fragments@,
            hf_fragment: self.hf_fragment@,
            hf_fragment_overlap: self.hf_fragment_overlap@,
            hf_fragment_overlap_conflict: self.hf_fragment_overlap_conflict@,
            hf_fragment_multiple_tails: self.hf_fragment_multiple_tails@,
            hf_fragment_too_long_fragment: self.hf_fragment_too_long_fragment@,
            hf_fragment_error: self.hf_fragment_error@,
            hf_fragment_count: self.hf_fragment_count@,
            hf_reassembled_in: self.hf_reassembled_in@,
            hf_reassembled_length: self.hf_reassembled_length@,
            hf_reassembled_data: self.hf_reassembled_data@,
            tag: self.tag@,
        }
    }
}

/// The name of a field in display filters: that of the protocol, a dot, and the
/// name that actions use.
pub open spec fn filter_of(name: Seq<char>) -> Seq<char> {
    "macprivacy"@ + "."@ + name
}

/// A field that takes all bits of its octets.
pub open spec fn plain_field(
    name: Seq<char>,
    label: Seq<char>,
    display: FieldDisplay,
    field_type: FieldType,
) -> Field<Seq<char>> {
    Field {
        name,
        label,
        filter: filter_of(name),
        bitmask: None,
        display,
        field_type,
        strings: None,
    }
}

/// A field that takes some bits of its octets.
pub open spec fn masked_field(
    name: Seq<char>,
    label: Seq<char>,
    bitmask: u64,
    display: FieldDisplay,
    field_type: FieldType,
) -> Field<Seq<char>> {
    Field { bitmask: Some(bitmask), ..plain_field(name, label, display, field_type) }
}

/// A field that shows one bit of an octet as set or not set.
pub open spec fn flag_field(name: Seq<char>, label: Seq<char>, bitmask: u64) -> Field<Seq<char>> {
    Field {
        strings: Some(TrueFalseString { true_string: "Set"@, false_string: "Not set"@ }),
        ..masked_field(name, label, bitmask, FieldDisplay::Boolean(8), FieldType::Boolean)
    }
}

/// The fields for components, pads and encapsulated frames.
pub open spec fn component_fields() -> Seq<Field<Seq<char>>> {
    seq![
        plain_field("component"@, "MPPDU component"@, FieldDisplay::Plain, FieldType::Empty),
        masked_field(
            "component.type"@,
            "Type"@,
            MPPDU_TYPE_MASK as u64,
            FieldDisplay::BaseHex,
            FieldType::Uint8,
        ),
        masked_field(
            "component.following_length"@,
            "Following Length"@,
            MPPDU_FOLLOWING_LENGTH_MASK as u64,
            FieldDisplay::BaseDec,
            FieldType::Uint16,
        ),
        plain_field("trailing_pad"@, "Trailing Pad"@, FieldDisplay::Plain, FieldType::Bytes),
        plain_field(
            "encapsulated_frame"@,
            "Encapsulated Frame"@,
            FieldDisplay::Plain,
            FieldType::Empty,
        ),
        plain_field(
            "encapsulated_frame.destination_address"@,
            "Destination Address"@,
            FieldDisplay::Plain,
            FieldType::Ether,
        ),
        plain_field(
            "encapsulated_frame.source_address"@,
            "Source Address"@,
            FieldDisplay::Plain,
            FieldType::Ether,
        ),
        plain_field("explicit_pad"@, "Explicit Pad"@, FieldDisplay::Plain, FieldType::Bytes),
    ]
}

/// The fields for frame fragments.
pub open spec fn frame_fragment_fields() -> Seq<Field<Seq<char>>> {
    seq![
        plain_field("frame_fragment"@, "Frame Fragment"@, FieldDisplay::Plain, FieldType::Empty),
        plain_field("frame_fragment.flags"@, "Flags"@, FieldDisplay::BaseHex, FieldType::Uint8),
        flag_field("frame_fragment.flags.initial_frame"@, "Initial"@, INITIAL_FRAME as u64),
        flag_field("frame_fragment.flags.final_frame"@, "Final"@, FINAL_FRAME as u64),
        flag_field("frame_fragment.flags.express_frame"@, "Express"@, EXPRESS_FRAME as u64),
        plain_field(
            "frame_fragment.sequence_number"@,
            "Sequence Number"@,
            FieldDisplay::BaseDec,
            FieldType::Uint24,
        ),
    ]
}

/// The fields for the way a frame was reassembled.
pub open spec fn reassembly_fields() -> Seq<Field<Seq<char>>> {
    seq![
        plain_field(
            "reassembled_frame"@,
            "Reassembled Frame"@,
            FieldDisplay::Plain,
            FieldType::Empty,
        ),
        plain_field(
            "reassembled_frame.fragments"@,
            "Frame Fragments"@,
            FieldDisplay::Plain,
            FieldType::Empty,
        ),
        plain_field(
            "reassembled_frame.fragment"@,
            "Frame Fragment"@,
            FieldDisplay::Plain,
            FieldType::Framenum,
        ),
        plain_field(
            "reassembled_frame.overlap"@,
            "Frame Overlap"@,
            FieldDisplay::Plain,
            FieldType::Boolean,
        ),
        plain_field(
            "reassembled_frame.overlap.conflict"@,
            "Conflicting data in frame fragment overlap"@,
            FieldDisplay::Plain,
            FieldType::Boolean,
        ),
        plain_field(
            "reassembled_frame.multipletails"@,
            "Multiple final fragments found"@,
            FieldDisplay::Plain,
            FieldType::Boolean,
        ),
        plain_field(
            "reassembled_frame.toolongfragment"@,
            "Fragment too long"@,
            FieldDisplay::Plain,
            FieldType::Boolean,
        ),
        plain_field(
            "reassembled_frame.error"@,
            "Defragmentation error"@,
            FieldDisplay::Plain,
            FieldType::Framenum,
        ),
        plain_field(
            "reassembled_frame.count"@,
            "Fragment count"@,
            FieldDisplay::BaseDec,
            FieldType::Uint32,
        ),
        plain_field(
            "reassembled_frame.reassembled_in"@,
            "Reassembled MSDU in frame"@,
            FieldDisplay::Plain,
            FieldType::Framenum,
        ),
        plain_field(
            "reassembled_frame.length"@,
            "Reassembled MSDU length"@,
            FieldDisplay::BaseDec,
            FieldType::Uint32,
        ),
    ]
}

/// The fields for reassembled frames.
pub open spec fn reassembled_frame_fields() -> Seq<Field<Seq<char>>> {
    seq![
        plain_field(
            "reassembled_frame.destination_address"@,
            "Destination Address"@,
            FieldDisplay::Plain,
            FieldType::Ether,
        ),
        plain_field(
            "reassembled_frame.source_address"@,
            "Source Address"@,
            FieldDisplay::Plain,
            FieldType::Ether,
        ),
        plain_field(
            "reassembled_frame.msdu"@,
            "MAC Service Data Unit"@,
            FieldDisplay::Plain,
            FieldType::Bytes,
        ),
    ]
}

/// The fields of the protocol.
pub open spec fn registered_fields() -> Seq<Field<Seq<char>>> {
    component_fields() + frame_fragment_fields() + reassembly_fields() + reassembled_frame_fields()
}

/// The subtrees of the protocol.
pub open spec fn registered_subtrees() -> Seq<Subtree<Seq<char>>> {
    seq![
        Subtree { name: "component"@, label: "MPPDU"@ },
        Subtree { name: "component.following_length"@, label: "Following Length"@ },
        Subtree { name: "encapsulated_frame"@, label: "Encapsulated Frame"@ },
        Subtree { name: "frame_fragment"@, label: "Frame Fragment"@ },
        Subtree { name: "frame_fragment.flags"@, label: "Flags"@ },
        Subtree { name: "reassembled_frame"@, label: "Reassembled Frame"@ },
        Subtree { name: "reassembled_frame.fragment"@, label: "Frame Fragment"@ },
    ]
}

/// The remarks that the protocol makes.
pub open spec fn registered_expert_infos() -> Seq<ExpertInfo<Seq<char>>> {
    seq![
        ExpertInfo {
            name: "expert_explicit_pad_length"@,
            group: ExpertGroup::CommentsGroup,
            severity: ExpertSeverity::Comment,
            summary: "'Following length' may exceed the actual number of bytes in the pad if it exceeds the number of octets remaining in the MPPDU"@,
        },
        ExpertInfo {
            name: "expert_invalid_component"@,
            group: ExpertGroup::Malformed,
            severity: ExpertSeverity::Warn,
            summary: "Invalid MPPDU component"@,
        },
        ExpertInfo {
            name: "expert_nonzero_pad"@,
            group: ExpertGroup::Malformed,
            severity: ExpertSeverity::Warn,
            summary: "Padding bytes must be zero"@,
        },
    ]
}

/// The items that show how a frame was reassembled.
pub open spec fn registered_fragment_items() -> FragmentItems<Seq<char>> {
    FragmentItems {
        ett_fragment: "reassembled_frame"@,
        ett_fragments: "reassembled_frame.fragment"@,
        hf_fragments: "reassembled_frame.fragments"@,
        hf_fragment: "reassembled_frame.fragment"@,
        hf_fragment_overlap: "reassembled_frame.overlap"@,
        hf_fragment_overlap_conflict: "reassembled_frame.overlap.conflict"@,
        hf_fragment_multiple_tails: "reassembled_frame.multipletails"@,
        hf_fragment_too_long_fragment: "reassembled_frame.toolongfragment"@,
        hf_fragment_error: "reassembled_frame.error"@,
        hf_fragment_count: "reassembled_frame.count"@,
        hf_reassembled_in: "reassembled_frame.reassembled_in"@,
        hf_reassembled_length: "reassembled_frame.length"@,
        hf_reassembled_data: "reassembled_frame"@,
        tag: "fragments"@,
    }
}

/// The contents of a list of fields.
pub open spec fn field_views(fields: Seq<Field<&'static str>>) -> Seq<Field<Seq<char>>> {
    fields.map_values(|field: Field<&'static str>| field@)
}

/// The contents of a list of subtrees.
pub open spec fn subtree_views(subtrees: Seq<Subtree<&'static str>>) -> Seq<Subtree<Seq<char>>> {
    subtrees.map_values(|subtree: Subtree<&'static str>| subtree@)
}

/// The contents of a list of remarks.
pub open spec fn expert_views(experts: Seq<ExpertInfo<&'static str>>) -> Seq<ExpertInfo<Seq<char>>> {
    experts.map_values(|expert: ExpertInfo<&'static str>| expert@)
}

/// Adds a field that takes all bits of its octets.
fn push_plain(
    fields: &mut Vec<Field<&'static str>>,
    name: &'static str,
    label: &'static str,
    filter: &'static str,
    display: FieldDisplay,
    field_type: FieldType,
)
    requires
        filter@ == filter_of(name@),
    ensures
        field_views(final(fields)@) == field_views(old(fields)@).push(
            plain_field(name@, label@, display, field_type),
        ),
{
    fields.push(Field { name, label, filter, bitmask: None, display, field_type, strings: None });
    proof {
        assert(field_views(fields@) =~= field_views(old(fields)@).push(
            plain_field(name@, label@, display, field_type),
        ));
    }
}

/// Adds a field that takes some bits of its octets.
fn push_masked(
    fields: &mut Vec<Field<&'static str>>,
    name: &'static str,
    label: &'static str,
    filter: &'static str,
    bitmask: u64,
    display: FieldDisplay,
    field_type: FieldType,
)
    requires
        filter@ == filter_of(name@),
    ensures
        field_views(final(fields)@) == field_views(old(fields)@).push(
            masked_field(name@, label@, bitmask, display, field_type),
        ),
{
    let bitmask = Some(bitmask);
    fields.push(Field { name, label, filter, bitmask, display, field_type, strings: None });
    proof {
        assert(field_views(fields@) =~= field_views(old(fields)@).push(
            masked_field(name@, label@, bitmask->0, display, field_type),
        ));
    }
}

/// Adds a field that shows one bit of an octet as set or not set.
fn push_flag(
    fields: &mut Vec<Field<&'static str>>,
    name: &'static str,
    label: &'static str,
    filter: &'static str,
    bitmask: u64,
)
    requires
        filter@ == filter_of(name@),
    ensures
        field_views(final(fields)@) == field_views(old(fields)@).push(
            flag_field(name@, label@, bitmask),
        ),
{
    fields.push(
        Field {
            name,
            label,
            filter,
            bitmask: Some(bitmask),
            display: FieldDisplay::Boolean(8),
            field_type: FieldType::Boolean,
            strings: Some(TrueFalseString { true_string: "Set", false_string: "Not set" }),
        },
    );
    proof {
        assert(field_views(fields@) =~= field_views(old(fields)@).push(
            flag_field(name@, label@, bitmask),
        ));
    }
}

/// The filter names of the fields for components, pads and encapsulated frames.
proof fn lemma_component_filters()
    ensures
        "macprivacy.component"@ == filter_of("component"@),
        "macprivacy.component.type"@ == filter_of("component.type"@),
        "macprivacy.component.following_length"@ == filter_of("component.following_length"@),
        "macprivacy.trailing_pad"@ == filter_of("trailing_pad"@),
        "macprivacy.encapsulated_frame"@ == filter_of("encapsulated_frame"@),
        "macprivacy.encapsulated_frame.destination_address"@ == filter_of("encapsulated_frame.destination_address"@),
        "macprivacy.encapsulated_frame.source_address"@ == filter_of("encapsulated_frame.source_address"@),
        "macprivacy.explicit_pad"@ == filter_of("explicit_pad"@),
{
    reveal_strlit("macprivacy");
    reveal_strlit(".");
    assert("macprivacy.component"@ =~= filter_of("component"@)) by {
        reveal_strlit("component");
        reveal_strlit("macprivacy.component");
    }
    assert("macprivacy.component.type"@ =~= filter_of("component.type"@)) by {
        reveal_strlit("component.type");
        reveal_strlit("macprivacy.component.type");
    }
    assert("macprivacy.component.following_length"@ =~= filter_of("component.following_length"@)) by {
        reveal_strlit("component.following_length");
        reveal_strlit("macprivacy.component.following_length");
    }
    assert("macprivacy.trailing_pad"@ =~= filter_of("trailing_pad"@)) by {
        reveal_strlit("trailing_pad");
        reveal_strlit("macprivacy.trailing_pad");
    }
    assert("macprivacy.encapsulated_frame"@ =~= filter_of("encapsulated_frame"@)) by {
        reveal_strlit("encapsulated_frame");
        reveal_strlit("macprivacy.encapsulated_frame");
    }
    assert("macprivacy.encapsulated_frame.destination_address"@ =~= filter_of("encapsulated_frame.destination_address"@)) by {
        reveal_strlit("encapsulated_frame.destination_address");
        reveal_strlit("macprivacy.encapsulated_frame.destination_address");
    }
    assert("macprivacy.encapsulated_frame.source_address"@ =~= filter_of("encapsulated_frame.source_address"@)) by {
        reveal_strlit("encapsulated_frame.source_address");
        reveal_strlit("macprivacy.encapsulated_frame.source_address");
    }
    assert("macprivacy.explicit_pad"@ =~= filter_of("explicit_pad"@)) by {
        reveal_strlit("explicit_pad");
        reveal_strlit("macprivacy.explicit_pad");
    }
}

/// Adds the fields for components, pads and encapsulated frames.
fn push_component_fields(fields: &mut Vec<Field<&'static str>>)
    ensures
        field_views(final(fields)@) == field_views(old(fields)@) + component_fields(),
{
    proof {
        lemma_component_filters();
    }
    push_plain(
        fields,
        "component",
        "MPPDU component",
        "macprivacy.component",
        FieldDisplay::Plain,
        FieldType::Empty,
    );
    push_masked(
        fields,
        "component.type",
        "Type",
        "macprivacy.component.type",
        MPPDU_TYPE_MASK as u64,
        FieldDisplay::BaseHex,
        FieldType::Uint8,
    );
    push_masked(
        fields,
        "component.following_length",
        "Following Length",
        "macprivacy.component.following_length",
        MPPDU_FOLLOWING_LENGTH_MASK as u64,
        FieldDisplay::BaseDec,
        FieldType::Uint16,
    );
    push_plain(
        fields,
        "trailing_pad",
        "Trailing Pad",
        "macprivacy.trailing_pad",
        FieldDisplay::Plain,
        FieldType::Bytes,
    );
    push_plain(
        fields,
        "encapsulated_frame",
        "Encapsulated Frame",
        "macprivacy.encapsulated_frame",
        FieldDisplay::Plain,
        FieldType::Empty,
    );
    push_plain(
        fields,
        "encapsulated_frame.destination_address",
        "Destination Address",
        "macprivacy.encapsulated_frame.destination_address",
        FieldDisplay::Plain,
        FieldType::Ether,
    );
    push_plain(
        fields,
        "encapsulated_frame.source_address",
        "Source Address",
        "macprivacy.encapsulated_frame.source_address",
        FieldDisplay::Plain,
        FieldType::Ether,
    );
    push_plain(
        fields,
        "explicit_pad",
        "Explicit Pad",
        "macprivacy.explicit_pad",
        FieldDisplay::Plain,
        FieldType::Bytes,
    );
    proof {
        assert(field_views(fields@) =~= field_views(old(fields)@) + component_fields());
    }
}

/// The filter names of the fields for frame fragments.
proof fn lemma_frame_fragment_filters()
    ensures
        "macprivacy.frame_fragment"@ == filter_of("frame_fragment"@),
        "macprivacy.frame_fragment.flags"@ == filter_of("frame_fragment.flags"@),
        "macprivacy.frame_fragment.flags.initial_frame"@ == filter_of("frame_fragment.flags.initial_frame"@),
        "macprivacy.frame_fragment.flags.final_frame"@ == filter_of("frame_fragment.flags.final_frame"@),
        "macprivacy.frame_fragment.flags.express_frame"@ == filter_of("frame_fragment.flags.express_frame"@),
        "macprivacy.frame_fragment.sequence_number"@ == filter_of("frame_fragment.sequence_number"@),
{
    reveal_strlit("macprivacy");
    reveal_strlit(".");
    assert("macprivacy.frame_fragment"@ =~= filter_of("frame_fragment"@)) by {
        reveal_strlit("frame_fragment");
        reveal_strlit("macprivacy.frame_fragment");
    }
    assert("macprivacy.frame_fragment.flags"@ =~= filter_of("frame_fragment.flags"@)) by {
        reveal_strlit("frame_fragment.flags");
        reveal_strlit("macprivacy.frame_fragment.flags");
    }
    assert("macprivacy.frame_fragment.flags.initial_frame"@ =~= filter_of("frame_fragment.flags.initial_frame"@)) by {
        reveal_strlit("frame_fragment.flags.initial_frame");
        reveal_strlit("macprivacy.frame_fragment.flags.initial_frame");
    }
    assert("macprivacy.frame_fragment.flags.final_frame"@ =~= filter_of("frame_fragment.flags.final_frame"@)) by {
        reveal_strlit("frame_fragment.flags.final_frame");
        reveal_strlit("macprivacy.frame_fragment.flags.final_frame");
    }
    assert("macprivacy.frame_fragment.flags.express_frame"@ =~= filter_of("frame_fragment.flags.express_frame"@)) by {
        reveal_strlit("frame_fragment.flags.express_frame");
        reveal_strlit("macprivacy.frame_fragment.flags.express_frame");
    }
    assert("macprivacy.frame_fragment.sequence_number"@ =~= filter_of("frame_fragment.sequence_number"@)) by {
        reveal_strlit("frame_fragment.sequence_number");
        reveal_strlit("macprivacy.frame_fragment.sequence_number");
    }
}

/// Adds the fields for frame fragments.
fn push_frame_fragment_fields(fields: &mut Vec<Field<&'static str>>)
    ensures
        field_views(final(fields)@) == field_views(old(fields)@) + frame_fragment_fields(),
{
    proof {
        lemma_frame_fragment_filters();
    }
    push_plain(
        fields,
        "frame_fragment",
        "Frame Fragment",
        "macprivacy.frame_fragment",
        FieldDisplay::Plain,
        FieldType::Empty,
    );
    push_plain(
        fields,
        "frame_fragment.flags",
        "Flags",
        "macprivacy.frame_fragment.flags",
        FieldDisplay::BaseHex,
        FieldType::Uint8,
    );
    push_flag(
        fields,
        "frame_fragment.flags.initial_frame",
        "Initial",
        "macprivacy.frame_fragment.flags.initial_frame",
        INITIAL_FRAME as u64,
    );
    push_flag(
        fields,
        "frame_fragment.flags.final_frame",
        "Final",
        "macprivacy.frame_fragment.flags.final_frame",
        FINAL_FRAME as u64,
    );
    push_flag(
        fields,
        "frame_fragment.flags.express_frame",
        "Express",
        "macprivacy.frame_fragment.flags.express_frame",
        EXPRESS_FRAME as u64,
    );
    push_plain(
        fields,
        "frame_fragment.sequence_number",
        "Sequence Number",
        "macprivacy.frame_fragment.sequence_number",
        FieldDisplay::BaseDec,
        FieldType::Uint24,
    );
    proof {
        assert(field_views(fields@) =~= field_views(old(fields)@) + frame_fragment_fields());
    }
}

/// The filter names of the fields for the way a frame was reassembled.
proof fn lemma_reassembly_filters()
    ensures
        "macprivacy.reassembled_frame"@ == filter_of("reassembled_frame"@),
        "macprivacy.reassembled_frame.fragments"@ == filter_of("reassembled_frame.fragments"@),
        "macprivacy.reassembled_frame.fragment"@ == filter_of("reassembled_frame.fragment"@),
        "macprivacy.reassembled_frame.overlap"@ == filter_of("reassembled_frame.overlap"@),
        "macprivacy.reassembled_frame.overlap.conflict"@ == filter_of("reassembled_frame.overlap.conflict"@),
        "macprivacy.reassembled_frame.multipletails"@ == filter_of("reassembled_frame.multipletails"@),
        "macprivacy.reassembled_frame.toolongfragment"@ == filter_of("reassembled_frame.toolongfragment"@),
        "macprivacy.reassembled_frame.error"@ == filter_of("reassembled_frame.error"@),
        "macprivacy.reassembled_frame.count"@ == filter_of("reassembled_frame.count"@),
        "macprivacy.reassembled_frame.reassembled_in"@ == filter_of("reassembled_frame.reassembled_in"@),
        "macprivacy.reassembled_frame.length"@ == filter_of("reassembled_frame.length"@),
{
    reveal_strlit("macprivacy");
    reveal_strlit(".");
    assert("macprivacy.reassembled_frame"@ =~= filter_of("reassembled_frame"@)) by {
        reveal_strlit("reassembled_frame");
        reveal_strlit("macprivacy.reassembled_frame");
    }
    assert("macprivacy.reassembled_frame.fragments"@ =~= filter_of("reassembled_frame.fragments"@)) by {
        reveal_strlit("reassembled_frame.fragments");
        reveal_strlit("macprivacy.reassembled_frame.fragments");
    }
    assert("macprivacy.reassembled_frame.fragment"@ =~= filter_of("reassembled_frame.fragment"@)) by {
        reveal_strlit("reassembled_frame.fragment");
        reveal_strlit("macprivacy.reassembled_frame.fragment");
    }
    assert("macprivacy.reassembled_frame.overlap"@ =~= filter_of("reassembled_frame.overlap"@)) by {
        reveal_strlit("reassembled_frame.overlap");
        reveal_strlit("macprivacy.reassembled_frame.overlap");
    }
    assert("macprivacy.reassembled_frame.overlap.conflict"@ =~= filter_of("reassembled_frame.overlap.conflict"@)) by {
        reveal_strlit("reassembled_frame.overlap.conflict");
        reveal_strlit("macprivacy.reassembled_frame.overlap.conflict");
    }
    assert("macprivacy.reassembled_frame.multipletails"@ =~= filter_of("reassembled_frame.multipletails"@)) by {
        reveal_strlit("reassembled_frame.multipletails");
        reveal_strlit("macprivacy.reassembled_frame.multipletails");
    }
    assert("macprivacy.reassembled_frame.toolongfragment"@ =~= filter_of("reassembled_frame.toolongfragment"@)) by {
        reveal_strlit("reassembled_frame.toolongfragment");
        reveal_strlit("macprivacy.reassembled_frame.toolongfragment");
    }
    assert("macprivacy.reassembled_frame.error"@ =~= filter_of("reassembled_frame.error"@)) by {
        reveal_strlit("reassembled_frame.error");
        reveal_strlit("macprivacy.reassembled_frame.error");
    }
    assert("macprivacy.reassembled_frame.count"@ =~= filter_of("reassembled_frame.count"@)) by {
        reveal_strlit("reassembled_frame.count");
        reveal_strlit("macprivacy.reassembled_frame.count");
    }
    assert("macprivacy.reassembled_frame.reassembled_in"@ =~= filter_of("reassembled_frame.reassembled_in"@)) by {
        reveal_strlit("reassembled_frame.reassembled_in");
        reveal_strlit("macprivacy.reassembled_frame.reassembled_in");
    }
    assert("macprivacy.reassembled_frame.length"@ =~= filter_of("reassembled_frame.length"@)) by {
        reveal_strlit("reassembled_frame.length");
        reveal_strlit("macprivacy.reassembled_frame.length");
    }
}

/// Adds the fields for the way a frame was reassembled.
fn push_reassembly_fields(fields: &mut Vec<Field<&'static str>>)
    ensures
        field_views(final(fields)@) == field_views(old(fields)@) + reassembly_fields(),
{
    proof {
        lemma_reassembly_filters();
    }
    push_plain(
        fields,
        "reassembled_frame",
        "Reassembled Frame",
        "macprivacy.reassembled_frame",
        FieldDisplay::Plain,
        FieldType::Empty,
    );
    push_plain(
        fields,
        "reassembled_frame.fragments",
        "Frame Fragments",
        "macprivacy.reassembled_frame.fragments",
        FieldDisplay::Plain,
        FieldType::Empty,
    );
    push_plain(
        fields,
        "reassembled_frame.fragment",
        "Frame Fragment",
        "macprivacy.reassembled_frame.fragment",
        FieldDisplay::Plain,
        FieldType::Framenum,
    );
    push_plain(
        fields,
        "reassembled_frame.overlap",
        "Frame Overlap",
        "macprivacy.reassembled_frame.overlap",
        FieldDisplay::Plain,
        FieldType::Boolean,
    );
    push_plain(
        fields,
        "reassembled_frame.overlap.conflict",
        "Conflicting data in frame fragment overlap",
        "macprivacy.reassembled_frame.overlap.conflict",
        FieldDisplay::Plain,
        FieldType::Boolean,
    );
    push_plain(
        fields,
        "reassembled_frame.multipletails",
        "Multiple final fragments found",
        "macprivacy.reassembled_frame.multipletails",
        FieldDisplay::Plain,
        FieldType::Boolean,
    );
    push_plain(
        fields,
        "reassembled_frame.toolongfragment",
        "Fragment too long",
        "macprivacy.reassembled_frame.toolongfragment",
        FieldDisplay::Plain,
        FieldType::Boolean,
    );
    push_plain(
        fields,
        "reassembled_frame.error",
        "Defragmentation error",
        "macprivacy.reassembled_frame.error",
        FieldDisplay::Plain,
        FieldType::Framenum,
    );
    push_plain(
        fields,
        "reassembled_frame.count",
        "Fragment count",
        "macprivacy.reassembled_frame.count",
        FieldDisplay::BaseDec,
        FieldType::Uint32,
    );
    push_plain(
        fields,
        "reassembled_frame.reassembled_in",
        "Reassembled MSDU in frame",
        "macprivacy.reassembled_frame.reassembled_in",
        FieldDisplay::Plain,
        FieldType::Framenum,
    );
    push_plain(
        fields,
        "reassembled_frame.length",
        "Reassembled MSDU length",
        "macprivacy.reassembled_frame.length",
        FieldDisplay::BaseDec,
        FieldType::Uint32,
    );
    proof {
        assert(field_views(fields@) =~= field_views(old(fields)@) + reassembly_fields());
    }
}

/// The filter names of the fields for reassembled frames.
proof fn lemma_reassembled_frame_filters()
    ensures
        "macprivacy.reassembled_frame.destination_address"@ == filter_of("reassembled_frame.destination_address"@),
        "macprivacy.reassembled_frame.source_address"@ == filter_of("reassembled_frame.source_address"@),
        "macprivacy.reassembled_frame.msdu"@ == filter_of("reassembled_frame.msdu"@),
{
    reveal_strlit("macprivacy");
    reveal_strlit(".");
    assert("macprivacy.reassembled_frame.destination_address"@ =~= filter_of("reassembled_frame.destination_address"@)) by {
        reveal_strlit("reassembled_frame.destination_address");
        reveal_strlit("macprivacy.reassembled_frame.destination_address");
    }
    assert("macprivacy.reassembled_frame.source_address"@ =~= filter_of("reassembled_frame.source_address"@)) by {
        reveal_strlit("reassembled_frame.source_address");
        reveal_strlit("macprivacy.reassembled_frame.source_address");
    }
    assert("macprivacy.reassembled_frame.msdu"@ =~= filter_of("reassembled_frame.msdu"@)) by {
        reveal_strlit("reassembled_frame.msdu");
        reveal_strlit("macprivacy.reassembled_frame.msdu");
    }
}

/// Adds the fields for reassembled frames.
fn push_reassembled_frame_fields(fields: &mut Vec<Field<&'static str>>)
    ensures
        field_views(final(fields)@) == field_views(old(fields)@) + reassembled_frame_fields(),
{
    proof {
        lemma_reassembled_frame_filters();
    }
    push_plain(
        fields,
        "reassembled_frame.destination_address",
        "Destination Address",
        "macprivacy.reassembled_frame.destination_address",
        FieldDisplay::Plain,
        FieldType::Ether,
    );
    push_plain(
        fields,
        "reassembled_frame.source_address",
        "Source Address",
        "macprivacy.reassembled_frame.source_address",
        FieldDisplay::Plain,
        FieldType::Ether,
    );
    push_plain(
        fields,
        "reassembled_frame.msdu",
        "MAC Service Data Unit",
        "macprivacy.reassembled_frame.msdu",
        FieldDisplay::Plain,
        FieldType::Bytes,
    );
    proof {
        assert(field_views(fields@) =~= field_views(old(fields)@) + reassembled_frame_fields());
    }
}

/// Describes the MAC Privacy protection protocol to a host.
pub fn build_mac_privacy_protocol() -> (protocol: Protocol)
    ensures
        protocol.name@ == "MAC Privacy protection Protocol Data Unit (MPPDU)"@,
        protocol.abbreviation@ == "MACPrivacy"@,
        protocol.filter@ == "macprivacy"@,
        subtree_views(protocol.subtrees@) == registered_subtrees(),
        field_views(protocol.fields@) == registered_fields(),
        expert_views(protocol.expert_infos@) == registered_expert_infos(),
        protocol.fragment_items@ == registered_fragment_items(),
        protocol.decode_from_table@ == "ethertype"@,
        protocol.decode_from_values@ == seq![MAC_PRIVACY_ETHERTYPE],
        protocol.decode_from_values@ == seq![0xe23bu32],
{
    let mut subtrees: Vec<Subtree<&'static str>> = Vec::new();
    subtrees.push(Subtree { name: "component", label: "MPPDU" });
    subtrees.push(Subtree { name: "component.following_length", label: "Following Length" });
    subtrees.push(Subtree { name: "encapsulated_frame", label: "Encapsulated Frame" });
    subtrees.push(Subtree { name: "frame_fragment", label: "Frame Fragment" });
    subtrees.push(Subtree { name: "frame_fragment.flags", label: "Flags" });
    subtrees.push(Subtree { name: "reassembled_frame", label: "Reassembled Frame" });
    subtrees.push(Subtree { name: "reassembled_frame.fragment", label: "Frame Fragment" });
    proof {
        assert(subtree_views(subtrees@) =~= registered_subtrees());
    }

    let mut fields: Vec<Field<&'static str>> = Vec::new();
    proof {
        assert(field_views(fields@) =~= Seq::empty());
    }
    push_component_fields(&mut fields);
    push_frame_fragment_fields(&mut fields);
    push_reassembly_fields(&mut fields);
    push_reassembled_frame_fields(&mut fields);
    proof {
        assert(field_views(fields@) =~= registered_fields());
    }

    let mut expert_infos: Vec<ExpertInfo<&'static str>> = Vec::new();
    expert_infos.push(
        ExpertInfo {
            name: "expert_explicit_pad_length",
            group: ExpertGroup::CommentsGroup,
            severity: ExpertSeverity::Comment,
            summary: "'Following length' may exceed the actual number of bytes in the pad if it exceeds the number of octets remaining in the MPPDU",
        },
    );
    expert_infos.push(
        ExpertInfo {
            name: "expert_invalid_component",
            group: ExpertGroup::Malformed,
            severity: ExpertSeverity::Warn,
            summary: "Invalid MPPDU component",
        },
    );
    expert_infos.push(
        ExpertInfo {
            name: "expert_nonzero_pad",
            group: ExpertGroup::Malformed,
            severity: ExpertSeverity::Warn,
            summary: "Padding bytes must be zero",
        },
    );
    proof {
        assert(expert_views(expert_infos@) =~= registered_expert_infos());
    }

    let fragment_items = FragmentItems {
        ett_fragment: "reassembled_frame",
        ett_fragments: "reassembled_frame.fragment",
        hf_fragments: "reassembled_frame.fragments",
        hf_fragment: "reassembled_frame.fragment",
        hf_fragment_overlap: "reassembled_frame.overlap",
        hf_fragment_overlap_conflict: "reassembled_frame.overlap.conflict",
        hf_fragment_multiple_tails: "reassembled_frame.multipletails",
        hf_fragment_too_long_fragment: "reassembled_frame.toolongfragment",
        hf_fragment_error: "reassembled_frame.error",
        hf_fragment_count: "reassembled_frame.count",
        hf_reassembled_in: "reassembled_frame.reassembled_in",
        hf_reassembled_length: "reassembled_frame.length",
        hf_reassembled_data: "reassembled_frame",
        tag: "fragments",
    };

    let mut decode_from_values: Vec<u32> = Vec::new();
    decode_from_values.push(MAC_PRIVACY_ETHERTYPE);

    Protocol {
        name: "MAC Privacy protection Protocol Data Unit (MPPDU)",
        abbreviation: "MACPrivacy",
        filter: "macprivacy",
        subtrees,
        fields,
        expert_infos,
        fragment_items,
        decode_from_table: "ethertype",
        decode_from_values,
    }
}

} // verus!
