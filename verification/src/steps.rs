//! What the steps of a dissection do, told from the octets that are left.

use vstd::prelude::*;

use crate::appearance::{left_by_all, left_by_first, nothing, part, Appearance};
use crate::dissector::{
    fragment_of, handed_on_of, length_actions, resume_of, step_of, whole_step_of, Outcome, Step,
};
use crate::encoding::{
    first_word, law_kind_by_first_word, law_last_octet, law_payload_by_first_word,
};
use crate::error::DissectError;
use crate::fragment::FragmentModel;
use crate::guarantees::is_state_of;
use crate::model::{
    encapsulated_frame_actions, explicit_pad_actions, frame_fragment_actions, head_actions,
    invalid_actions, reassembled_frame_actions, summary_actions, trailing_pad_actions, MppduModel,
};
use crate::plan::ActionModel;
use crate::tvb::{Span, TvbSource};

verus! {

/// `state` with the first `length` octets of what is left taken off.
pub open spec fn past(state: MppduModel, length: int) -> MppduModel {
    MppduModel {
        rest: state.rest.skip(length),
        span: part(state.span, length, state.rest.len() - length),
        ..state
    }
}

/// `state` with a component of this name found.
pub open spec fn with_name(state: MppduModel, name: Seq<char>) -> MppduModel {
    MppduModel { components: state.components.push(name), ..state }
}

/// The action that ends a component gives its item the length of the component.
pub proof fn law_length_appears(length: nat)
    ensures
        left_by_all(length_actions(length)) == (Appearance {
            lengths: seq![length as usize],
            ..nothing()
        }),
{
    reveal_with_fuel(left_by_first, 2);
}

/// Where no octets are left, the summary is written and the dissection ends with
/// all octets of the packet.
pub proof fn law_step_at_the_end(state: MppduModel, captured: usize)
    requires
        state.rest.len() == 0,
    ensures
        step_of(state, captured).actions == summary_actions(state),
        step_of(state, captured).step == Step::<FragmentModel>::Finished(captured),
        step_of(state, captured).state == state,
{
}

/// A trailing pad ends the dissection, with all octets of the packet, after the
/// summary, which names it.
pub proof fn law_step_of_trailing_pad(state: MppduModel, captured: usize)
    requires
        is_state_of(state, captured),
        state.rest == seq![0u8] || state.rest.len() >= 2 && first_word(state.rest) == 0,
    ensures
        ({
            let turn = step_of(state, captured);
            let found = with_name(state, "Trailing Pad"@);
            let header: nat = if state.rest.len() == 1 {
                1
            } else {
                2
            };
            &&& turn.actions == head_actions(state.span) + trailing_pad_actions(
                state.span,
                state.rest,
                header,
            ) + summary_actions(found)
            &&& turn.step == Step::<FragmentModel>::Finished(captured)
            &&& turn.state == found
        }),
{
    if state.rest.len() >= 2 {
        law_kind_by_first_word(state.rest);
    } else {
        law_last_octet(0);
    }
}

/// One last octet that is not zero is invalid. It ends the dissection with no octets
/// at all, and without a summary.
pub proof fn law_step_of_last_octet(state: MppduModel, captured: usize)
    requires
        state.rest.len() == 1,
        state.rest[0] != 0,
    ensures
        step_of(state, captured).actions == head_actions(state.span) + invalid_actions(),
        step_of(state, captured).step == Step::<FragmentModel>::Finished(0),
        step_of(state, captured).state == state,
{
    assert(state.rest =~= seq![state.rest[0]]);
    law_last_octet(state.rest[0]);
}

/// An encapsulated frame is as many octets as it starts with as a number, after the
/// two of that number. Nothing is taken off before the outcome of the call is
/// known.
pub proof fn law_step_of_encapsulated_frame(state: MppduModel, captured: usize)
    requires
        is_state_of(state, captured),
        state.rest.len() >= 2,
        14 <= first_word(state.rest) < 16384,
        first_word(state.rest) <= state.rest.len() - 2,
    ensures
        ({
            let turn = step_of(state, captured);
            let length = first_word(state.rest);
            &&& turn.actions == head_actions(state.span) + encapsulated_frame_actions(
                part(state.span, 0, 2),
                part(state.span, 2, length),
                state.rest.subrange(2, 2 + length),
            )
            &&& turn.step == Step::<FragmentModel>::HandOn((2 + length) as usize)
            &&& turn.state == with_name(state, "Encapsulated Frame"@)
        }),
{
    law_kind_by_first_word(state.rest);
    law_payload_by_first_word(state.rest);
}

/// An explicit pad is as many octets as its number says, or all that are left if
/// those are fewer. The dissection goes on after it.
pub proof fn law_step_of_explicit_pad(state: MppduModel, captured: usize)
    requires
        is_state_of(state, captured),
        state.rest.len() >= 2,
        16384 <= first_word(state.rest) < 32768,
    ensures
        ({
            let turn = step_of(state, captured);
            let length = if first_word(state.rest) - 16384 <= state.rest.len() - 2 {
                first_word(state.rest) - 16384
            } else {
                state.rest.len() - 2
            };
            &&& turn.actions == head_actions(state.span) + explicit_pad_actions(
                part(state.span, 0, 2),
                part(state.span, 2, length),
                state.rest.subrange(2, 2 + length),
            ) + length_actions((2 + length) as nat)
            &&& turn.step == Step::<FragmentModel>::Continue
            &&& turn.state == past(with_name(state, "Explicit Pad"@), 2 + length)
        }),
{
    law_kind_by_first_word(state.rest);
    law_payload_by_first_word(state.rest);
}

/// A frame fragment is as many octets as its number says. Nothing is taken off
/// before it went into the reassembly table.
pub proof fn law_step_of_frame_fragment(state: MppduModel, captured: usize)
    requires
        is_state_of(state, captured),
        state.rest.len() >= 6,
        32772 <= first_word(state.rest) < 49152,
        first_word(state.rest) - 32768 <= state.rest.len() - 2,
        state.rest[2] < 128,
    ensures
        ({
            let turn = step_of(state, captured);
            let length = first_word(state.rest) - 32768;
            &&& turn.actions == head_actions(state.span) + frame_fragment_actions(
                part(state.span, 0, 2),
                part(state.span, 2, length),
                state.rest.subrange(2, 2 + length),
            )
            &&& turn.step == Step::Reassemble(fragment_of(state.rest, state.span))
            &&& turn.state == with_name(state, "Frame Fragment"@)
        }),
{
    law_kind_by_first_word(state.rest);
    law_payload_by_first_word(state.rest);
}

/// Any other two octets are invalid, have no name, and are all that is taken off.
pub proof fn law_step_of_invalid_header(state: MppduModel, captured: usize)
    requires
        is_state_of(state, captured),
        state.rest.len() >= 2,
        ({
            let word = first_word(state.rest);
            let available = state.rest.len() - 2;
            ||| 0 < word < 14
            ||| 14 <= word < 16384 && word > available
            ||| 32768 <= word < 32772
            ||| 32772 <= word < 49152 && (word - 32768 > available || state.rest[2] >= 128)
            ||| word >= 49152
        }),
    ensures
        ({
            let turn = step_of(state, captured);
            &&& turn.actions == head_actions(state.span) + invalid_actions() + length_actions(2)
            &&& turn.step == Step::<FragmentModel>::Continue
            &&& turn.state == past(state, 2)
        }),
{
    law_kind_by_first_word(state.rest);
    law_payload_by_first_word(state.rest);
}

/// After a fragment that completes nothing, the component is taken off, with its
/// two octets of type and length.
pub proof fn law_resume_without_frame(state: MppduModel, fragment: FragmentModel)
    requires
        fragment.payload.len() + 2 <= state.rest.len(),
        state.rest.len() <= usize::MAX,
    ensures
        ({
            let turn = resume_of(state, fragment, None);
            let length = 2 + fragment.payload.len();
            &&& turn.actions == length_actions(length as nat)
            &&& turn.step == Step::<FragmentModel>::Continue
            &&& turn.state == past(state, length as int)
        }),
{
}

/// A reassembled frame is shown from its first octet to its last. If it has 14
/// octets, its data unit goes to another dissector; if not, the dissection fails.
/// The state stays as it is either way.
pub proof fn law_resume_with_frame(state: MppduModel, fragment: FragmentModel, frame: Seq<u8>)
    requires
        fragment.payload.len() + 2 <= usize::MAX,
    ensures
        ({
            let turn = resume_of(state, fragment, Some(frame));
            let whole = Span {
                source: TvbSource::Reassembled,
                offset: 0,
                length: frame.len() as usize,
            };
            &&& turn.actions == reassembled_frame_actions(whole, frame)
            &&& frame.len() >= 14 ==> turn.step == Step::<FragmentModel>::HandOn(
                (2 + fragment.payload.len()) as usize,
            )
            &&& frame.len() < 14 ==> turn.step is Failed
            &&& turn.state == state
        }),
{
}

/// After a call the component is taken off. Data counts as passed on if and only if
/// there was a dissector, whatever it made of the data; it counts for good.
pub proof fn law_handed_on(state: MppduModel, length: usize, processed: Option<i32>)
    requires
        length <= state.rest.len(),
    ensures
        ({
            let turn = handed_on_of(state, length, Ok(processed));
            &&& turn.actions == length_actions(length as nat)
            &&& turn.step == Step::<FragmentModel>::Continue
            &&& turn.state.subdissector_called <==> state.subdissector_called || processed != None::<
                i32,
            >
            &&& turn.state == (MppduModel {
                subdissector_called: turn.state.subdissector_called,
                ..past(state, length as int)
            })
        }),
{
}

/// A call that fails ends the dissection with its error, and changes nothing.
pub proof fn law_handed_on_fails(state: MppduModel, length: usize, error: DissectError)
    ensures
        handed_on_of(state, length, Err(error)).actions == Seq::<ActionModel>::empty(),
        handed_on_of(state, length, Err(error)).step == Step::<FragmentModel>::Failed(error),
        handed_on_of(state, length, Err(error)).state == state,
{
}

/// All that is done for a component is its step, then what follows a fragment, then
/// what follows a call, each only where the one before asks for it, and with the
/// state that it has left.
pub proof fn law_component_in_steps(
    state: MppduModel,
    captured: usize,
    reassembled: Option<Seq<u8>>,
    outcome: Outcome,
)
    ensures
        ({
            let turn = step_of(state, captured);
            let whole = whole_step_of(state, captured, reassembled, outcome);
            match turn.step {
                Step::HandOn(length) => {
                    let last = handed_on_of(turn.state, length, outcome);
                    &&& whole.actions == turn.actions + last.actions
                    &&& whole.step == last.step
                    &&& whole.state == last.state
                },
                Step::Reassemble(fragment) => {
                    let next = resume_of(turn.state, fragment, reassembled);
                    match next.step {
                        Step::HandOn(length) => {
                            let last = handed_on_of(next.state, length, outcome);
                            &&& whole.actions == turn.actions + next.actions + last.actions
                            &&& whole.step == last.step
                            &&& whole.state == last.state
                        },
                        _ => {
                            &&& whole.actions == turn.actions + next.actions
                            &&& whole.step == next.step
                            &&& whole.state == next.state
                        },
                    }
                },
                _ => whole == turn,
            }
        }),
{
}

} // verus!
