//! Dissection of single MPPDU components.

use vstd::prelude::*;

use crate::component::{
    Component, ComponentKind, EXPRESS_FRAME, FINAL_FRAME, FRAGMENT_HEADER_LENGTH,
    FRAME_FRAGMENT_MASK, HEADER_LENGTH, INITIAL_FRAME, MIN_FRAME_LENGTH,
    MPPDU_FOLLOWING_LENGTH_MASK,
};
use crate::error::DissectError;
use crate::fragment::{lemma_flag_bits, FrameFragment};
use crate::mac_addr::{MacAddr, MAC_LENGTH_BYTES};
use crate::model::{
    encapsulated_frame_actions, ethertype_actions, ethertype_result, explicit_pad_actions,
    flag_names, frame_actions, frame_fragment_actions, frame_result, padding_actions,
    reassembled_frame_actions, sequence_number, trailing_pad_actions, MppduModel,
};
use crate::plan::{Node, Op, Plan};
use crate::text::{decimal_text, join, texts};
use crate::tvb::{big_endian, sub_span, whole_span, TvbRange, TvbSource};

verus! {

/// Stores and tracks values during dissection.
pub struct MppduState<'a> {
    /// Names of the MPPDU components found so far in the current packet.
    pub components: Vec<&'static str>,
    /// The octets that are left to dissect.
    pub next_tvb: TvbRange<'a>,
    /// Whether data was passed to a subdissector for further processing, see
    /// [`MppduState::handed_on`].
    pub subdissector_called: bool,
}

impl<'a> View for MppduState<'a> {
    type V = MppduModel;

    open spec fn view(&self) -> MppduModel {
        MppduModel {
            components: texts(self.components@),
            rest: self.next_tvb@,
            span: self.next_tvb.spec_span(),
            subdissector_called: self.subdissector_called,
        }
    }
}

/// Reads an ethertype value from the data unit `tvb` and asks for the dissector
/// of that ethertype. The data unit comes from the frame at `fh_tree`. What comes
/// of it goes to [`MppduState::handed_on`].
///
/// Fails if the data unit is not long enough to contain an ethertype.
pub fn call_ethertype_dissector(
    tvb: TvbRange<'_>,
    plan: &mut Plan,
    fh_tree: Node,
) -> (result: Result<(), DissectError>)
    ensures
        result == ethertype_result(tvb@),
        final(plan)@ == old(plan)@ + ethertype_actions(tvb.spec_span(), tvb@, fh_tree),
        tvb@.len() >= 2 ==> final(plan)@ == old(plan)@.push(
            Op::CallEthertypeDissector {
                msdu: tvb.spec_span(),
                etype: (256 * tvb@[0] + tvb@[1]) as u16,
                payload_offset: 2,
                fh_tree,
                trailer_id: 0,
                fcs_len: 0,
            },
        ),
        tvb@.len() < 2 ==> final(plan)@ == old(plan)@,
{
    let ethertype_range = match tvb.range(0, 2) {
        Ok(range) => range,
        Err(error) => {
            proof {
                assert(plan@ =~= old(plan)@ + ethertype_actions(tvb.spec_span(), tvb@, fh_tree));
            }
            return Err(error);
        },
    };
    let etype: u16 = ethertype_range.uint16()?;
    proof {
        assert(ethertype_range@.take(2) =~= tvb@.take(2));
    }
    plan.push(
        Op::CallEthertypeDissector {
            msdu: tvb.span(),
            etype,
            payload_offset: ethertype_range.length(),
            fh_tree,
            trailer_id: 0,
            fcs_len: 0,
        },
    );
    proof {
        assert(plan@ =~= old(plan)@ + ethertype_actions(tvb.spec_span(), tvb@, fh_tree));
    }
    Ok(())
}

impl<'a> MppduState<'a> {
    /// Creates a new `MppduState` with the given octets to dissect.
    pub fn new(next_tvb: TvbRange<'a>) -> (state: Self)
        ensures
            state@ == (MppduModel {
                components: Seq::empty(),
                rest: next_tvb@,
                span: next_tvb.spec_span(),
                subdissector_called: false,
            }),
    {
        let state = MppduState { components: Vec::new(), next_tvb, subdissector_called: false };
        proof {
            assert(state@.components =~= Seq::empty());
        }
        state
    }

    /// Notes that a component was found.
    fn note(&mut self, name: &'static str)
        ensures
            final(self)@ == (MppduModel {
                components: old(self)@.components.push(name@),
                ..old(self)@
            }),
    {
        self.components.push(name);
        proof {
            assert(self@.components =~= old(self)@.components.push(name@));
        }
    }

    /// Checks if all octets of a pad are zero.
    ///
    /// 802.1AEdk-2023 19.6.e states "All pad octets in a Trailing Pad or an
    /// Explicit Pad shall have the value zero." Where that rule is broken, a
    /// warning goes to the pad's item.
    pub fn check_padding_bytes(plan: &mut Plan, pad_range: TvbRange<'_>)
        ensures
            final(plan)@ == old(plan)@ + padding_actions(pad_range@),
    {
        let length: usize = pad_range.length();
        let mut i: usize = 0;
        while i < length
            invariant
                i <= length,
                length == pad_range@.len(),
                forall|j: int| 0 <= j < i ==> pad_range@[j] == 0,
                plan@ == old(plan)@,
            decreases length - i,
        {
            if pad_range.octet(i) != 0 {
                plan.add_expert_info(
                    Node::Pad,
                    "expert_nonzero_pad",
                    "Padding bytes must be zero",
                );
                proof {
                    assert(pad_range@[i as int] != 0);
                    assert(plan@ =~= old(plan)@ + padding_actions(pad_range@));
                }
                return;
            }
            i += 1;
        }
        proof {
            assert(plan@ =~= old(plan)@ + padding_actions(pad_range@));
        }
    }

    /// Dissects the addresses of a frame, and hands on its data unit.
    ///
    /// The source address goes into the text first, then the destination, as it
    /// is done for Ethernet II frames.
    fn dissect_frame(
        plan: &mut Plan,
        destination_name: &'static str,
        source_name: &'static str,
        msdu_name: Option<&'static str>,
        frame_range: TvbRange<'_>,
    ) -> (result: Result<(), DissectError>)
        ensures
            result == frame_result(frame_range@),
            final(plan)@ == old(plan)@ + frame_actions(
                destination_name@,
                source_name@,
                match msdu_name {
                    Some(name) => Some(name@),
                    None => None,
                },
                frame_range.spec_span(),
                frame_range@,
            ),
    {
        let ghost frame = frame_range@;
        let ghost span = frame_range.spec_span();
        let ghost shown = frame_actions(
            destination_name@,
            source_name@,
            match msdu_name {
                Some(name) => Some(name@),
                None => None,
            },
            span,
            frame,
        );
        let da_range = match frame_range.range(0, MAC_LENGTH_BYTES) {
            Ok(range) => range,
            Err(error) => {
                proof {
                    assert(plan@ =~= old(plan)@ + shown);
                }
                return Err(error);
            },
        };
        plan.add_item(Node::Frame, Node::Leaf, destination_name, da_range.span());
        let sa_range = match frame_range.range(MAC_LENGTH_BYTES, MAC_LENGTH_BYTES) {
            Ok(range) => range,
            Err(error) => {
                proof {
                    assert(plan@ =~= old(plan)@ + shown);
                }
                return Err(error);
            },
        };
        plan.add_item(Node::Frame, Node::Leaf, source_name, sa_range.span());

        proof {
            assert(frame.subrange(0, MAC_LENGTH_BYTES as int) =~= frame.take(
                MAC_LENGTH_BYTES as int,
            ));
        }
        let source = match MacAddr::try_from(sa_range.bytes()) {
            Ok(address) => address,
            Err(error) => return Err(DissectError::MacAddress(error)),
        };
        let mut source_text = ", Src: ".to_owned();
        source_text.append(source.to_string().as_str());
        plan.append_text(Node::Component, source_text);
        let destination = match MacAddr::try_from(da_range.bytes()) {
            Ok(address) => address,
            Err(error) => return Err(DissectError::MacAddress(error)),
        };
        let mut destination_text = ", Dst: ".to_owned();
        destination_text.append(destination.to_string().as_str());
        plan.append_text(Node::Component, destination_text);

        let msdu_range = frame_range.range_from(2 * MAC_LENGTH_BYTES)?;
        if let Some(name) = msdu_name {
            plan.add_item(Node::Frame, Node::Leaf, name, msdu_range.span());
        }
        let result = call_ethertype_dissector(msdu_range, plan, Node::Frame);
        proof {
            assert(plan@ =~= old(plan)@ + shown);
        }
        result
    }

    /// Dissects an encapsulated frame MPPDU component, up to the point where its
    /// data unit goes to another dissector.
    ///
    /// If successful, returns the number of octets dissected.
    pub fn dissect_encapsulated_frame(
        &mut self,
        plan: &mut Plan,
        mppdu_length_range: TvbRange<'a>,
        payload_range: TvbRange<'a>,
    ) -> (result: Result<usize, DissectError>)
        ensures
            final(plan)@ == old(plan)@ + encapsulated_frame_actions(
                mppdu_length_range.spec_span(),
                payload_range.spec_span(),
                payload_range@,
            ),
            result is Ok <==> frame_result(payload_range@) is Ok,
            result matches Ok(dissected) ==> dissected == payload_range@.len(),
            result matches Err(error) ==> frame_result(payload_range@) == Err::<(), DissectError>(
                error,
            ),
            final(self)@ == (MppduModel {
                components: old(self)@.components.push("Encapsulated Frame"@),
                ..old(self)@
            }),
    {
        plan.append_text(Node::Component, ", Type: Encapsulated Frame".to_owned());
        plan.append_text(Node::TypeItem, " (Encapsulated Frame)".to_owned());
        self.note("Encapsulated Frame");
        plan.add(
            Node::Component,
            Node::Leaf,
            "component.following_length",
            mppdu_length_range.span(),
        );
        plan.add(Node::Root, Node::Frame, "encapsulated_frame", payload_range.span());
        let result = Self::dissect_frame(
            plan,
            "encapsulated_frame.destination_address",
            "encapsulated_frame.source_address",
            None,
            payload_range,
        );
        proof {
            assert(plan@ =~= old(plan)@ + encapsulated_frame_actions(
                mppdu_length_range.spec_span(),
                payload_range.spec_span(),
                payload_range@,
            ));
        }
        match result {
            Ok(_) => Ok(payload_range.length()),
            Err(error) => Err(error),
        }
    }

    /// Dissects an explicit pad MPPDU component.
    ///
    /// An explicit pad can be encoded with a following length that exceeds the
    /// number of octets remaining in the packet, see 802.1AEdk-2023 19.9.d. The
    /// payload then ends with the packet.
    ///
    /// Returns the number of octets dissected.
    pub fn dissect_explicit_pad(
        &mut self,
        plan: &mut Plan,
        mppdu_length_range: TvbRange<'a>,
        payload_range: TvbRange<'a>,
    ) -> (dissected: usize)
        ensures
            final(plan)@ == old(plan)@ + explicit_pad_actions(
                mppdu_length_range.spec_span(),
                payload_range.spec_span(),
                payload_range@,
            ),
            dissected == payload_range@.len(),
            final(self)@ == (MppduModel {
                components: old(self)@.components.push("Explicit Pad"@),
                ..old(self)@
            }),
    {
        let mut text = ", Type: Explicit Pad, Length: ".to_owned();
        text.append(decimal_text(payload_range.length()).as_str());
        plan.append_text(Node::Component, text);
        plan.append_text(Node::TypeItem, " (Explicit Pad)".to_owned());
        self.note("Explicit Pad");
        plan.add_item(
            Node::Component,
            Node::Leaf,
            "component.following_length",
            mppdu_length_range.span(),
        );
        plan.add_item(Node::Component, Node::Pad, "explicit_pad", payload_range.span());
        Self::check_padding_bytes(plan, payload_range);
        proof {
            assert(plan@ =~= old(plan)@ + explicit_pad_actions(
                mppdu_length_range.spec_span(),
                payload_range.spec_span(),
                payload_range@,
            ));
        }
        payload_range.length()
    }

    /// Dissects a frame fragment MPPDU component, up to the point where the
    /// fragment goes to the reassembly table.
    ///
    /// If successful, returns the fragment. Fails if the payload is not long
    /// enough for the header of a fragment.
    pub fn dissect_frame_fragment(
        &mut self,
        plan: &mut Plan,
        mppdu_length_range: TvbRange<'a>,
        payload_range: TvbRange<'a>,
    ) -> (result: Result<FrameFragment<'a>, DissectError>)
        ensures
            result is Ok <==> payload_range@.len() >= FRAGMENT_HEADER_LENGTH,
            result matches Ok(fragment) ==> {
                &&& final(plan)@ == old(plan)@ + frame_fragment_actions(
                    mppdu_length_range.spec_span(),
                    payload_range.spec_span(),
                    payload_range@,
                )
                &&& final(self)@ == (MppduModel {
                    components: old(self)@.components.push("Frame Fragment"@),
                    ..old(self)@
                })
                &&& fragment@.payload == payload_range@
                &&& fragment@.span == payload_range.spec_span()
                &&& fragment@.flags == payload_range@[0]
                &&& fragment@.sequence_number == sequence_number(payload_range@)
                &&& fragment@.data == sub_span(
                    payload_range.spec_span(),
                    FRAGMENT_HEADER_LENGTH as nat,
                    (payload_range@.len() - FRAGMENT_HEADER_LENGTH) as nat,
                )
            },
            result matches Err(error) ==> {
                &&& final(plan)@ == old(plan)@
                &&& final(self)@ == old(self)@
                &&& error == (DissectError::OutOfBounds {
                    offset: 0,
                    length: FRAGMENT_HEADER_LENGTH,
                    available: payload_range@.len() as usize,
                })
            },
    {
        let header_range = payload_range.range(0, FRAGMENT_HEADER_LENGTH)?;
        let flags_range = header_range.range(0, 1)?;
        let flags: u8 = flags_range.uint8()?;

        plan.append_text(Node::Component, ", Type: Frame Fragment".to_owned());
        plan.append_text(Node::TypeItem, " (Frame Fragment)".to_owned());
        self.note("Frame Fragment");
        plan.add(
            Node::Component,
            Node::Leaf,
            "component.following_length",
            mppdu_length_range.span(),
        );
        plan.add(Node::Root, Node::Frame, "frame_fragment", payload_range.span());

        plan.add(Node::Frame, Node::Flags, "frame_fragment.flags", flags_range.span());
        plan.add_item(
            Node::Flags,
            Node::Leaf,
            "frame_fragment.flags.initial_frame",
            flags_range.span(),
        );
        plan.add_item(
            Node::Flags,
            Node::Leaf,
            "frame_fragment.flags.final_frame",
            flags_range.span(),
        );
        plan.add_item(
            Node::Flags,
            Node::Leaf,
            "frame_fragment.flags.express_frame",
            flags_range.span(),
        );

        let mut set_flags_names: Vec<&'static str> = Vec::new();
        proof {
            lemma_flag_bits(flags);
        }
        if flags & INITIAL_FRAME == INITIAL_FRAME {
            set_flags_names.push("Initial");
        }
        if flags & FINAL_FRAME == FINAL_FRAME {
            set_flags_names.push("Final");
        }
        if flags & EXPRESS_FRAME == EXPRESS_FRAME {
            set_flags_names.push("Express");
        }
        proof {
            assert(texts(set_flags_names@) =~= flag_names(flags));
        }
        let names = join(&set_flags_names, ", ");
        let mut flags_text = " (".to_owned();
        flags_text.append(names.as_str());
        flags_text.append(")");
        plan.append_text(Node::Flags, flags_text);
        let mut component_text = ", Flags: ".to_owned();
        if set_flags_names.is_empty() {
            component_text.append("(None)");
        } else {
            component_text.append(names.as_str());
        }
        plan.append_text(Node::Component, component_text);

        let number_range = header_range.range(1, 3)?;
        plan.add_item(
            Node::Frame,
            Node::Leaf,
            "frame_fragment.sequence_number",
            number_range.span(),
        );
        let number: u32 = number_range.uint24()?;
        proof {
            assert(number_range@.take(3) =~= payload_range@.subrange(1, 4));
        }

        // The remaining octets are part of a frame.
        let data = payload_range.range_from(header_range.length())?;

        plan.push(Op::SetFragmented { fragmented: true });
        proof {
            assert(plan@ =~= old(plan)@ + frame_fragment_actions(
                mppdu_length_range.spec_span(),
                payload_range.spec_span(),
                payload_range@,
            ));
        }
        Ok(FrameFragment::new(payload_range, flags, number, data))
    }

    /// Dissects the frame that the reassembly table has put together, if it has,
    /// up to the point where its data unit goes to another dissector.
    ///
    /// If successful, returns the number of octets of the fragment's payload.
    pub fn dissect_reassembled_frame(
        &mut self,
        plan: &mut Plan,
        fragment: &FrameFragment<'a>,
        reassembled: Option<&[u8]>,
    ) -> (result: Result<usize, DissectError>)
        ensures
            match reassembled {
                Some(frame) => {
                    &&& final(plan)@ == old(plan)@ + reassembled_frame_actions(
                        whole_span(frame@),
                        frame@,
                    )
                    &&& result is Ok <==> frame_result(frame@) is Ok
                    &&& result matches Err(error) ==> frame_result(frame@) == Err::<
                        (),
                        DissectError,
                    >(error)
                },
                None => final(plan)@ == old(plan)@ && result is Ok,
            },
            result matches Ok(dissected) ==> dissected == fragment@.payload.len(),
            final(self)@ == old(self)@,
    {
        if let Some(frame) = reassembled {
            let frame_range = TvbRange::new(TvbSource::Reassembled, frame);
            plan.add(Node::Component, Node::Frame, "reassembled_frame", frame_range.span());
            let result = Self::dissect_frame(
                plan,
                "reassembled_frame.destination_address",
                "reassembled_frame.source_address",
                Some("reassembled_frame.msdu"),
                frame_range,
            );
            proof {
                assert(plan@ =~= old(plan)@ + reassembled_frame_actions(
                    whole_span(frame@),
                    frame@,
                ));
            }
            match result {
                Ok(_) => {},
                Err(error) => return Err(error),
            }
        }
        Ok(fragment.payload().length())
    }

    /// Notes what came of handing a data unit to the dissector for its ethertype:
    /// how many octets the dissector has processed, or that there is none for the
    /// ethertype.
    ///
    /// Returns the number of octets processed, zero if there is no dissector.
    pub fn handed_on(&mut self, outcome: Option<i32>) -> (processed: i32)
        ensures
            processed == (match outcome {
                Some(processed) => processed,
                None => 0,
            }),
            final(self)@ == (MppduModel {
                subdissector_called: old(self)@.subdissector_called || outcome is Some,
                ..old(self)@
            }),
    {
        match outcome {
            Some(processed) => {
                self.subdissector_called = true;
                processed
            },
            None => 0,
        }
    }

    /// Dissects a trailing pad MPPDU component.
    ///
    /// The pad starts `offset` octets into what is left to dissect and extends
    /// to the end of the packet. Fails if there are fewer octets.
    ///
    /// If successful, returns the number of octets dissected: all that were left.
    pub fn dissect_trailing_pad(&mut self, plan: &mut Plan, offset: usize) -> (result: Result<
        usize,
        DissectError,
    >)
        ensures
            final(plan)@ == old(plan)@ + trailing_pad_actions(
                old(self)@.span,
                old(self)@.rest,
                offset as nat,
            ),
            result is Ok <==> offset <= old(self)@.rest.len(),
            result matches Ok(dissected) ==> dissected == old(self)@.rest.len(),
            result matches Err(error) ==> error == (DissectError::OutOfBounds {
                offset,
                length: 0,
                available: old(self)@.rest.len() as usize,
            }),
            final(self)@ == if offset <= old(self)@.rest.len() {
                MppduModel {
                    components: old(self)@.components.push("Trailing Pad"@),
                    ..old(self)@
                }
            } else {
                old(self)@
            },
    {
        plan.append_text(Node::Component, ", Type: Trailing Pad".to_owned());
        plan.append_text(Node::TypeItem, " (Trailing Pad)".to_owned());
        let length: usize = self.next_tvb.length();
        plan.set_length(Node::Component, length);
        let pad_range = match self.next_tvb.range_from(offset) {
            Ok(range) => range,
            Err(error) => {
                proof {
                    assert(plan@ =~= old(plan)@ + trailing_pad_actions(
                        old(self)@.span,
                        old(self)@.rest,
                        offset as nat,
                    ));
                }
                return Err(error);
            },
        };

        // The special one- and two-octet trailing pads have no pad octets.
        if pad_range.length() > 0 {
            plan.add_item(Node::Root, Node::Pad, "trailing_pad", pad_range.span());
            Self::check_padding_bytes(plan, pad_range);
        }
        proof {
            assert(plan@ =~= old(plan)@ + trailing_pad_actions(
                old(self)@.span,
                old(self)@.rest,
                offset as nat,
            ));
        }
        self.note("Trailing Pad");
        Ok(length)
    }

    /// Checks if bit 8 of the third octet of a component is zero, which a frame
    /// fragment MPPDU component must have.
    ///
    /// Fails if `payload_range` is not long enough for the header of a fragment.
    pub fn frame_fragment_flag_clear(&self, payload_range: TvbRange<'a>) -> (result: Result<
        bool,
        DissectError,
    >)
        ensures
            result is Ok <==> payload_range@.len() >= FRAGMENT_HEADER_LENGTH,
            result matches Ok(clear) ==> clear == (payload_range@[0] < 128),
            result matches Err(error) ==> error == (DissectError::OutOfBounds {
                offset: 0,
                length: FRAGMENT_HEADER_LENGTH,
                available: payload_range@.len() as usize,
            }),
    {
        let header_range = payload_range.range(0, FRAGMENT_HEADER_LENGTH)?;
        let flags_range = header_range.range(0, 1)?;
        let flags: u8 = flags_range.uint8()?;
        assert((flags & 0b1000_0000 != 0b1000_0000) == (flags < 128)) by (bit_vector);
        Ok(flags & FRAME_FRAGMENT_MASK != FRAME_FRAGMENT_MASK)
    }

    /// The component that the octets left to dissect start with.
    pub fn component(&self) -> (component: Component)
        requires
            self.next_tvb@.len() > 0,
        ensures
            component.kind == crate::component::kind_of(self.next_tvb@),
            component.header == crate::component::header_length(self.next_tvb@),
            component.payload == crate::component::payload_of(self.next_tvb@).len(),
    {
        let ghost rest = self.next_tvb@;
        let length: usize = self.next_tvb.length();
        let first: u8 = self.next_tvb.octet(0);
        if length == 1 {
            let kind = if first == 0 {
                ComponentKind::TrailingPad
            } else {
                ComponentKind::Truncated
            };
            return Component { kind, header: 1, payload: 0 };
        }
        assert(first >> 6 == first / 64) by (bit_vector);
        let type_value: u8 = first >> 6;
        let word: u16 = match self.next_tvb.uint16() {
            Ok(value) => value,
            Err(_) => 0,
        };
        let length_value: usize = (word & MPPDU_FOLLOWING_LENGTH_MASK) as usize;
        proof {
            let pair = rest.take(2);
            reveal_with_fuel(big_endian, 3);
            assert(pair.drop_last().drop_last() =~= Seq::empty());
            assert(word & 0x3fff == word % 16384) by (bit_vector);
            assert(word == rest[0] as nat * 256 + rest[1] as nat);
            assert(length_value == crate::component::following_length(rest));
        }
        let available: usize = length - HEADER_LENGTH;
        let complete = length_value <= available;
        let payload: usize = if complete {
            length_value
        } else {
            available
        };
        let flag_clear = match self.next_tvb.range(HEADER_LENGTH, payload) {
            Ok(payload_range) => {
                proof {
                    assert(payload_range@ =~= crate::component::following(rest));
                }
                match self.frame_fragment_flag_clear(payload_range) {
                    Ok(clear) => clear,
                    Err(_) => false,
                }
            },
            Err(_) => false,
        };
        if type_value == 0 && length_value == 0 {
            Component { kind: ComponentKind::TrailingPad, header: HEADER_LENGTH, payload: available }
        } else if type_value == 0 && length_value >= MIN_FRAME_LENGTH && complete {
            Component { kind: ComponentKind::EncapsulatedFrame, header: HEADER_LENGTH, payload }
        } else if type_value == 1 {
            Component { kind: ComponentKind::ExplicitPad, header: HEADER_LENGTH, payload }
        } else if type_value == 2 && flag_clear && complete {
            Component { kind: ComponentKind::FrameFragment, header: HEADER_LENGTH, payload }
        } else {
            Component { kind: ComponentKind::Invalid, header: HEADER_LENGTH, payload: 0 }
        }
    }
}

/// The view of a state holds its parts: the names of the components in order, the
/// octets that are left and where they lie, and whether data was passed on.
pub proof fn law_state_says_what_it_holds(state: MppduState<'_>)
    ensures
        state@.components.len() == state.components@.len(),
        forall|i: int|
            0 <= i < state.components@.len() ==> #[trigger] state@.components[i]
                == state.components@[i]@,
        state@.rest == state.next_tvb@,
        state@.span == state.next_tvb.spec_span(),
        state@.subdissector_called == state.subdissector_called,
{
}

} // verus!
