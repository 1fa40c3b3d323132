//! Dissection of a packet, step by step.
//!
//! ```text
//! let mut dissector = Dissector::start(octets, &mut plan);
//! loop: perform the plan, then
//!     dissector.step(&mut plan), which asks for
//!         Continue       another step
//!         Reassemble     the fragment to go into the reassembly table, then
//!                        dissector.resume(&fragment, frame, &mut plan)
//!         HandOn         what came of the call that ends the plan, then
//!                        dissector.handed_on(length, outcome, &mut plan)
//!         Finished       the end, with the number of octets dissected
//!         Failed         the end, with an error
//! ```

use vstd::prelude::*;

use crate::component::{
    component_length, header_length, kind_of, payload_of, ComponentKind, FRAGMENT_HEADER_LENGTH,
    HEADER_LENGTH,
};
use crate::error::DissectError;
use crate::fragment::{FragmentModel, FrameFragment};
use crate::model::{
    encapsulated_frame_actions, explicit_pad_actions, frame_fragment_actions, frame_result,
    head_actions, invalid_actions, reassembled_frame_actions, sequence_number, summary_actions,
    trailing_pad_actions, MppduModel,
};
use crate::mppdu::MppduState;
use crate::plan::{ActionModel, Column, Node, Op, Plan};
use crate::text::join;
use crate::tvb::{sub_span, whole_span, Span, TvbRange, TvbSource};

verus! {

/// What comes after the actions of a step were performed. `F` is the type of
/// frame fragments.
#[derive(Debug)]
pub enum Step<F> {
    /// Another step.
    Continue,
    /// The fragment goes into the reassembly table.
    Reassemble(F),
    /// What came of the last action, which hands a data unit to another
    /// dissector, is to be told. The component has this many octets.
    HandOn(usize),
    /// The dissection ends. This many octets were dissected.
    Finished(usize),
    /// The dissection fails.
    Failed(DissectError),
}

impl<'a> View for Step<FrameFragment<'a>> {
    type V = Step<FragmentModel>;

    open spec fn view(&self) -> Step<FragmentModel> {
        match *self {
            Step::Continue => Step::Continue,
            Step::Reassemble(fragment) => Step::Reassemble(fragment@),
            Step::HandOn(length) => Step::HandOn(length),
            Step::Finished(dissected) => Step::Finished(dissected),
            Step::Failed(error) => Step::Failed(error),
        }
    }
}

/// What came of handing a data unit to the dissector for its ethertype: how many
/// octets it has processed, that there is none, or why it failed.
pub type Outcome = Result<Option<i32>, DissectError>;

/// What a step does.
pub struct Turn {
    /// The actions that it asks for.
    pub actions: Seq<ActionModel>,
    /// What comes after them.
    pub step: Step<FragmentModel>,
    /// The state that it leaves.
    pub state: MppduModel,
}

/// `state` with one more component found.
pub open spec fn noted(state: MppduModel, name: Seq<char>) -> MppduModel {
    MppduModel { components: state.components.push(name), ..state }
}

/// `state` with `length` octets fewer to dissect.
pub open spec fn advanced(state: MppduModel, length: nat) -> MppduModel {
    MppduModel {
        rest: state.rest.skip(length as int),
        span: sub_span(state.span, length, (state.rest.len() - length) as nat),
        ..state
    }
}

/// The action that ends a component of `length` octets.
pub open spec fn length_actions(length: nat) -> Seq<ActionModel> {
    seq![Op::SetLength { node: Node::Component, length: length as usize }]
}

/// The fragment that the octets `rest` at `place` start with.
pub open spec fn fragment_of(rest: Seq<u8>, place: Span) -> FragmentModel {
    let payload = payload_of(rest);
    let span = sub_span(place, HEADER_LENGTH as nat, payload.len());
    FragmentModel {
        payload,
        span,
        flags: payload[0],
        sequence_number: sequence_number(payload) as u32,
        data: sub_span(
            span,
            FRAGMENT_HEADER_LENGTH as nat,
            (payload.len() - FRAGMENT_HEADER_LENGTH) as nat,
        ),
    }
}

/// What the next step does for a packet of `captured` octets.
pub open spec fn step_of(state: MppduModel, captured: usize) -> Turn {
    if state.rest.len() == 0 {
        Turn { actions: summary_actions(state), step: Step::Finished(captured), state }
    } else {
        let head = head_actions(state.span);
        let header_span = sub_span(state.span, 0, HEADER_LENGTH as nat);
        let payload = payload_of(state.rest);
        let payload_span = sub_span(state.span, HEADER_LENGTH as nat, payload.len());
        let length = component_length(state.rest);
        match kind_of(state.rest) {
            ComponentKind::Truncated => Turn {
                actions: head + invalid_actions(),
                step: Step::Finished(0),
                state,
            },
            ComponentKind::TrailingPad => {
                let found = noted(state, "Trailing Pad"@);
                Turn {
                    actions: head + trailing_pad_actions(
                        state.span,
                        state.rest,
                        header_length(state.rest),
                    ) + summary_actions(found),
                    step: Step::Finished(captured),
                    state: found,
                }
            },
            ComponentKind::EncapsulatedFrame => {
                let found = noted(state, "Encapsulated Frame"@);
                Turn {
                    actions: head + encapsulated_frame_actions(header_span, payload_span, payload),
                    step: Step::HandOn(length as usize),
                    state: found,
                }
            },
            ComponentKind::ExplicitPad => Turn {
                actions: head + explicit_pad_actions(header_span, payload_span, payload)
                    + length_actions(length),
                step: Step::Continue,
                state: advanced(noted(state, "Explicit Pad"@), length),
            },
            ComponentKind::FrameFragment => Turn {
                actions: head + frame_fragment_actions(header_span, payload_span, payload),
                step: Step::Reassemble(fragment_of(state.rest, state.span)),
                state: noted(state, "Frame Fragment"@),
            },
            ComponentKind::Invalid => Turn {
                actions: head + invalid_actions() + length_actions(length),
                step: Step::Continue,
                state: advanced(state, length),
            },
        }
    }
}

/// What ends a component of `length` octets.
pub open spec fn advance_of(state: MppduModel, length: usize) -> Turn {
    Turn {
        actions: length_actions(length as nat),
        step: if length <= state.rest.len() {
            Step::Continue
        } else {
            Step::Failed(
                DissectError::OutOfBounds {
                    offset: length,
                    length: 0,
                    available: state.rest.len() as usize,
                },
            )
        },
        state: if length <= state.rest.len() {
            advanced(state, length as nat)
        } else {
            state
        },
    }
}

/// What is done once `fragment` is in the reassembly table, which has put
/// together `reassembled`, or nothing yet.
pub open spec fn resume_of(
    state: MppduModel,
    fragment: FragmentModel,
    reassembled: Option<Seq<u8>>,
) -> Turn {
    let length = (HEADER_LENGTH + fragment.payload.len()) as usize;
    match reassembled {
        Some(frame) => Turn {
            actions: reassembled_frame_actions(whole_span(frame), frame),
            step: match frame_result(frame) {
                Ok(_) => Step::HandOn(length),
                Err(error) => Step::Failed(error),
            },
            state,
        },
        None => advance_of(state, length),
    }
}

/// What is done once a data unit from a component of `length` octets was handed
/// to another dissector, with this outcome.
pub open spec fn handed_on_of(state: MppduModel, length: usize, outcome: Outcome) -> Turn {
    match outcome {
        Ok(processed) => advance_of(
            MppduModel {
                subdissector_called: state.subdissector_called || processed is Some,
                ..state
            },
            length,
        ),
        Err(error) => Turn { actions: Seq::empty(), step: Step::Failed(error), state },
    }
}

/// `next` after `turn`.
pub open spec fn followed_by(turn: Turn, next: Turn) -> Turn {
    Turn { actions: turn.actions + next.actions, ..next }
}

/// The next step, and what follows it if it asks for a fragment to be
/// reassembled.
pub open spec fn resumed_step_of(
    state: MppduModel,
    captured: usize,
    reassembled: Option<Seq<u8>>,
) -> Turn {
    let turn = step_of(state, captured);
    match turn.step {
        Step::Reassemble(fragment) => followed_by(
            turn,
            resume_of(turn.state, fragment, reassembled),
        ),
        _ => turn,
    }
}

/// The next step, and all that follows it for the same component.
pub open spec fn whole_step_of(
    state: MppduModel,
    captured: usize,
    reassembled: Option<Seq<u8>>,
    outcome: Outcome,
) -> Turn {
    let turn = resumed_step_of(state, captured, reassembled);
    match turn.step {
        Step::HandOn(length) => followed_by(turn, handed_on_of(turn.state, length, outcome)),
        _ => turn,
    }
}

/// The dissection of one packet.
pub struct Dissector<'a> {
    /// Number of octets that were captured of the packet.
    pub captured_length: usize,
    /// What the dissection has come to.
    pub state: MppduState<'a>,
}

impl<'a> Dissector<'a> {
    /// Begins to dissect the packet with the octets `tvb`.
    pub fn start(tvb: &'a [u8], plan: &mut Plan) -> (dissector: Self)
        ensures
            final(plan)@ == old(plan)@.push(
                Op::SetColumnText { column: Column::Protocol, text: "MACPrivacy"@ },
            ),
            dissector.captured_length == tvb@.len(),
            dissector.state@ == initial_state(tvb@),
    {
        plan.set_column_text(Column::Protocol, "MACPrivacy".to_owned());
        let range = TvbRange::new(TvbSource::Packet, tvb);
        Dissector { captured_length: tvb.len(), state: MppduState::new(range) }
    }

    /// Writes the summary of the packet, unless a subdissector was called: its
    /// summary is not to be overwritten.
    fn summarize(&self, plan: &mut Plan)
        ensures
            final(plan)@ == old(plan)@ + summary_actions(self.state@),
    {
        if !self.state.subdissector_called {
            let mut text = "MPPDU Components: [".to_owned();
            text.append(join(&self.state.components, ", ").as_str());
            text.append("]");
            plan.set_column_text(Column::Info, text);
        }
        proof {
            assert(plan@ =~= old(plan)@ + summary_actions(self.state@));
        }
    }

    /// Moves on past a component of `length` octets.
    fn advance(&mut self, plan: &mut Plan, length: usize) -> (step: Step<FrameFragment<'a>>)
        ensures
            final(plan)@ == old(plan)@ + advance_of(old(self).state@, length).actions,
            step@ == advance_of(old(self).state@, length).step,
            final(self).state@ == advance_of(old(self).state@, length).state,
            final(self).captured_length == old(self).captured_length,
    {
        plan.set_length(Node::Component, length);
        proof {
            assert(plan@ =~= old(plan)@ + length_actions(length as nat));
        }
        match self.state.next_tvb.range_from(length) {
            Ok(range) => {
                self.state.next_tvb = range;
                Step::Continue
            },
            Err(error) => Step::Failed(error),
        }
    }

    /// Dissects the next component, or ends the dissection if there is none.
    pub fn step(&mut self, plan: &mut Plan) -> (step: Step<FrameFragment<'a>>)
        ensures
            final(plan)@ == old(plan)@ + step_of(
                old(self).state@,
                old(self).captured_length,
            ).actions,
            step@ == step_of(old(self).state@, old(self).captured_length).step,
            final(self).state@ == step_of(old(self).state@, old(self).captured_length).state,
            final(self).captured_length == old(self).captured_length,
            step matches Step::Reassemble(fragment) ==> HEADER_LENGTH + fragment@.payload.len()
                <= usize::MAX,
    {
        let ghost state = self.state@;
        let ghost rest = state.rest;
        let ghost turn = step_of(state, self.captured_length);
        let length: usize = self.state.next_tvb.length();
        if length == 0 {
            self.summarize(plan);
            return Step::Finished(self.captured_length);
        }
        let component = self.state.component();
        let type_range = match self.state.next_tvb.range(0, 1) {
            Ok(range) => range,
            Err(error) => return Step::Failed(error),
        };
        plan.add(Node::Root, Node::Component, "component", type_range.span());
        plan.add_item(Node::Component, Node::TypeItem, "component.type", type_range.span());
        proof {
            assert(plan@ =~= old(plan)@ + head_actions(state.span));
        }
        match component.kind {
            ComponentKind::Truncated => {
                self.mark_invalid(plan);
                proof {
                    assert(plan@ =~= old(plan)@ + turn.actions);
                }
                return Step::Finished(0);
            },
            ComponentKind::TrailingPad => {
                // No component comes after a trailing pad.
                match self.state.dissect_trailing_pad(plan, component.header) {
                    Ok(_) => {},
                    Err(error) => return Step::Failed(error),
                }
                self.summarize(plan);
                proof {
                    assert(plan@ =~= old(plan)@ + turn.actions);
                }
                return Step::Finished(self.captured_length);
            },
            ComponentKind::Invalid => {
                self.mark_invalid(plan);
                let step = self.advance(plan, HEADER_LENGTH);
                proof {
                    assert(plan@ =~= old(plan)@ + turn.actions);
                }
                return step;
            },
            _ => {},
        }

        let length_range = match self.state.next_tvb.range(0, HEADER_LENGTH) {
            Ok(range) => range,
            Err(error) => return Step::Failed(error),
        };
        let payload_range = match self.state.next_tvb.range(HEADER_LENGTH, component.payload) {
            Ok(range) => range,
            Err(error) => return Step::Failed(error),
        };
        proof {
            assert(payload_range@ =~= payload_of(rest));
        }
        match component.kind {
            ComponentKind::EncapsulatedFrame => {
                let dissected: usize = match self.state.dissect_encapsulated_frame(
                    plan,
                    length_range,
                    payload_range,
                ) {
                    Ok(dissected) => dissected,
                    Err(error) => return Step::Failed(error),
                };
                proof {
                    assert(plan@ =~= old(plan)@ + turn.actions);
                }
                Step::HandOn(HEADER_LENGTH + dissected)
            },
            ComponentKind::ExplicitPad => {
                let dissected: usize = self.state.dissect_explicit_pad(
                    plan,
                    length_range,
                    payload_range,
                );
                let step = self.advance(plan, HEADER_LENGTH + dissected);
                proof {
                    assert(plan@ =~= old(plan)@ + turn.actions);
                }
                step
            },
            _ => {
                let fragment = match self.state.dissect_frame_fragment(
                    plan,
                    length_range,
                    payload_range,
                ) {
                    Ok(fragment) => fragment,
                    Err(error) => return Step::Failed(error),
                };
                proof {
                    assert(plan@ =~= old(plan)@ + turn.actions);
                }
                Step::Reassemble(fragment)
            },
        }
    }

    /// Marks the current component as invalid.
    fn mark_invalid(&self, plan: &mut Plan)
        ensures
            final(plan)@ == old(plan)@ + invalid_actions(),
    {
        plan.add_expert_info(
            Node::TypeItem,
            "expert_invalid_component",
            "Invalid MPPDU component",
        );
        plan.append_text(Node::TypeItem, " (Invalid)".to_owned());
        proof {
            assert(plan@ =~= old(plan)@ + invalid_actions());
        }
    }

    /// Goes on after `fragment`, which the last step asked for, went into the
    /// reassembly table. `reassembled` is the frame that this has completed.
    pub fn resume(
        &mut self,
        fragment: &FrameFragment<'a>,
        reassembled: Option<&[u8]>,
        plan: &mut Plan,
    ) -> (step: Step<FrameFragment<'a>>)
        requires
            HEADER_LENGTH + fragment@.payload.len() <= usize::MAX,
        ensures
            final(plan)@ == old(plan)@ + resume_of(
                old(self).state@,
                fragment@,
                frame_view(reassembled),
            ).actions,
            step@ == resume_of(old(self).state@, fragment@, frame_view(reassembled)).step,
            final(self).state@ == resume_of(
                old(self).state@,
                fragment@,
                frame_view(reassembled),
            ).state,
            final(self).captured_length == old(self).captured_length,
    {
        let ghost turn = resume_of(self.state@, fragment@, frame_view(reassembled));
        match self.state.dissect_reassembled_frame(plan, fragment, reassembled) {
            Ok(dissected) => {
                let length: usize = HEADER_LENGTH + dissected;
                if reassembled.is_some() {
                    Step::HandOn(length)
                } else {
                    let step = self.advance(plan, length);
                    proof {
                        assert(plan@ =~= old(plan)@ + turn.actions);
                    }
                    step
                }
            },
            Err(error) => Step::Failed(error),
        }
    }

    /// Goes on after a data unit was handed to another dissector, as the last
    /// step asked for. `length` is what that step gave as the length of the
    /// component, `outcome` what came of it.
    pub fn handed_on(&mut self, length: usize, outcome: Outcome, plan: &mut Plan) -> (step: Step<
        FrameFragment<'a>,
    >)
        ensures
            final(plan)@ == old(plan)@ + handed_on_of(old(self).state@, length, outcome).actions,
            step@ == handed_on_of(old(self).state@, length, outcome).step,
            final(self).state@ == handed_on_of(old(self).state@, length, outcome).state,
            final(self).captured_length == old(self).captured_length,
    {
        match outcome {
            Ok(processed) => {
                self.state.handed_on(processed);
                self.advance(plan, length)
            },
            Err(error) => {
                proof {
                    assert(plan@ =~= old(plan)@ + Seq::<ActionModel>::empty());
                }
                Step::Failed(error)
            },
        }
    }
}

/// The octets of a reassembled frame, if there is one.
pub open spec fn frame_view(reassembled: Option<&[u8]>) -> Option<Seq<u8>> {
    match reassembled {
        Some(frame) => Some(frame@),
        None => None,
    }
}

/// The state in which the dissection of a packet begins.
pub open spec fn initial_state(packet: Seq<u8>) -> MppduModel {
    MppduModel {
        components: Seq::empty(),
        rest: packet,
        span: Span { source: TvbSource::Packet, offset: 0, length: packet.len() as usize },
        subdissector_called: false,
    }
}

/// A step says what it holds.
pub proof fn law_step_says_what_it_holds(step: Step<FrameFragment<'_>>)
    ensures
        step matches Step::Finished(dissected) ==> step@ == Step::<FragmentModel>::Finished(
            dissected,
        ),
        step matches Step::HandOn(length) ==> step@ == Step::<FragmentModel>::HandOn(length),
        step matches Step::Failed(error) ==> step@ == Step::<FragmentModel>::Failed(error),
        step matches Step::Reassemble(fragment) ==> step@ == Step::Reassemble(fragment@),
        step is Continue <==> step@ is Continue,
{
}

/// A reassembled frame is taken with all its octets.
pub proof fn law_frame_is_taken_whole(reassembled: Option<&[u8]>)
    ensures
        reassembled is Some <==> frame_view(reassembled) is Some,
        reassembled matches Some(frame) ==> frame_view(reassembled)->0 == frame@,
{
}

} // verus!
