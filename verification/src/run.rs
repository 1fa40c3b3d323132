//! The dissection of a packet as a whole, and what holds of it.

use vstd::prelude::*;

use crate::component::{
    component_length, ends_packet, kind_of, law_component_count, law_component_length,
    law_component_stands_alone, law_payload_length, split, ComponentKind, MIN_FRAME_LENGTH,
};
use crate::dissector::{
    fragment_of, frame_view, initial_state, resumed_step_of, step_of, whole_step_of, Dissector, Outcome, Step,
    Turn,
};
use crate::error::DissectError;
use crate::fragment::{
    after_all, after_fragment, all_seen, lemma_fragments_together, request_of, request_views,
    requests_of, FragmentModel, FragmentRequest, FrameFragment, RequestModel, SequenceIds,
};
use crate::guarantees::is_state_of;
use crate::model::{summary_actions, MppduModel};
use crate::plan::{ActionModel, Column, Node, Op, Plan};
use crate::text::joined;
use crate::tvb::{sub_span, Span, TvbSource};

verus! {

/// All that the dissection of a packet asks for, and how it ends.
pub struct Run {
    /// The actions, in order.
    pub actions: Seq<ActionModel>,
    /// The fragments that go into the reassembly table, in order.
    pub fragments: Seq<FragmentModel>,
    /// Number of octets dissected, or what went wrong.
    pub result: Result<usize, DissectError>,
}

/// `run` with `actions` and `fragments` before it.
pub open spec fn after(actions: Seq<ActionModel>, fragments: Seq<FragmentModel>, run: Run) -> Run {
    Run {
        actions: actions + run.actions,
        fragments: fragments + run.fragments,
        result: run.result,
    }
}

/// The fragment that the next component asks to be put into the reassembly table,
/// if it is one.
#[verifier::opaque]
pub open spec fn fragments_asked(state: MppduModel, captured: usize) -> Seq<FragmentModel> {
    match step_of(state, captured).step {
        Step::Reassemble(fragment) => seq![fragment],
        _ => Seq::empty(),
    }
}

/// What the reassembly table answers for the fragment of number `i`: the frame
/// that it completes, if it does. It completes none where `replies` holds no
/// more.
pub open spec fn reply_at(replies: Seq<Option<Seq<u8>>>, i: int) -> Option<Seq<u8>> {
    if 0 <= i < replies.len() {
        replies[i]
    } else {
        None
    }
}

/// What comes of the call of number `i`. No dissector is found where `outcomes`
/// holds no more.
pub open spec fn outcome_at(outcomes: Seq<Outcome>, i: int) -> Outcome {
    if 0 <= i < outcomes.len() {
        outcomes[i]
    } else {
        Ok(None)
    }
}

/// `list` without its first item, if it has one.
pub open spec fn later<A>(list: Seq<A>) -> Seq<A> {
    if list.len() > 0 {
        list.drop_first()
    } else {
        list
    }
}

/// The replies that are left after the next component: one fewer after a
/// fragment.
#[verifier::opaque]
pub open spec fn replies_after(
    state: MppduModel,
    captured: usize,
    replies: Seq<Option<Seq<u8>>>,
) -> Seq<Option<Seq<u8>>> {
    if step_of(state, captured).step is Reassemble {
        later(replies)
    } else {
        replies
    }
}

/// The outcomes that are left after the next component: one fewer if it hands a
/// data unit to another dissector.
#[verifier::opaque]
pub open spec fn outcomes_after(
    state: MppduModel,
    captured: usize,
    replies: Seq<Option<Seq<u8>>>,
    outcomes: Seq<Outcome>,
) -> Seq<Outcome> {
    if resumed_step_of(state, captured, reply_at(replies, 0)).step is HandOn {
        later(outcomes)
    } else {
        outcomes
    }
}

/// The dissection from `state` on, for a packet of `captured` octets. `replies`
/// holds what the reassembly table answers for each fragment in turn, `outcomes`
/// what comes of each data unit that is handed to another dissector.
pub open spec fn run(
    state: MppduModel,
    captured: usize,
    replies: Seq<Option<Seq<u8>>>,
    outcomes: Seq<Outcome>,
) -> Run
    decreases state.rest.len(),
{
    let turn = whole_step_of(state, captured, reply_at(replies, 0), outcome_at(outcomes, 0));
    let fragments = fragments_asked(state, captured);
    match turn.step {
        Step::Continue => {
            proof {
                law_steps_make_progress(
                    state,
                    captured,
                    reply_at(replies, 0),
                    outcome_at(outcomes, 0),
                );
            }
            after(
                turn.actions,
                fragments,
                run(
                    turn.state,
                    captured,
                    replies_after(state, captured, replies),
                    outcomes_after(state, captured, replies, outcomes),
                ),
            )
        },
        Step::Finished(dissected) => Run {
            actions: turn.actions,
            fragments,
            result: Ok(dissected),
        },
        Step::Failed(error) => Run { actions: turn.actions, fragments, result: Err(error) },
        // A component that was dealt with asks for neither.
        Step::Reassemble(_) | Step::HandOn(_) => Run {
            actions: turn.actions,
            fragments,
            result: Ok(0),
        },
    }
}

/// The dissection of `packet`.
pub open spec fn dissection(
    packet: Seq<u8>,
    replies: Seq<Option<Seq<u8>>>,
    outcomes: Seq<Outcome>,
) -> Run {
    run(initial_state(packet), packet.len() as usize, replies, outcomes)
}

/// The octets of each reply.
pub open spec fn reply_views(replies: Seq<Option<Vec<u8>>>) -> Seq<Option<Seq<u8>>> {
    replies.map_values(
        |reply: Option<Vec<u8>>|
            match reply {
                Some(frame) => Some(frame@),
                None => None,
            },
    )
}

/// What is done for the next component, without a look inside.
#[verifier::opaque]
spec fn turn_of(
    state: MppduModel,
    captured: usize,
    replies: Seq<Option<Seq<u8>>>,
    outcomes: Seq<Outcome>,
) -> Turn {
    whole_step_of(state, captured, reply_at(replies, 0), outcome_at(outcomes, 0))
}

/// The dissection from a state on, without a look inside.
#[verifier::opaque]
spec fn left_of(
    state: MppduModel,
    captured: usize,
    replies: Seq<Option<Seq<u8>>>,
    outcomes: Seq<Outcome>,
) -> Run {
    run(state, captured, replies, outcomes)
}

/// How a dissection is made up of what is done for its components.
proof fn lemma_run_by_turns(
    state: MppduModel,
    captured: usize,
    replies: Seq<Option<Seq<u8>>>,
    outcomes: Seq<Outcome>,
)
    ensures
        ({
            let whole = left_of(state, captured, replies, outcomes);
            let turn = turn_of(state, captured, replies, outcomes);
            let fragments = fragments_asked(state, captured);
            match turn.step {
                Step::Finished(dissected) => whole == (Run {
                    actions: turn.actions,
                    fragments,
                    result: Ok(dissected),
                }),
                Step::Failed(error) => whole == (Run {
                    actions: turn.actions,
                    fragments,
                    result: Err(error),
                }),
                Step::Continue => {
                    &&& whole == after(
                        turn.actions,
                        fragments,
                        left_of(
                            turn.state,
                            captured,
                            replies_after(state, captured, replies),
                            outcomes_after(state, captured, replies, outcomes),
                        ),
                    )
                    &&& turn.state.rest.len() < state.rest.len()
                },
                _ => false,
            }
        }),
{
    reveal(turn_of);
    reveal(left_of);
    law_steps_make_progress(state, captured, reply_at(replies, 0), outcome_at(outcomes, 0));
}

/// Dissects the next component, with the replies from `answered` on and the
/// outcomes from `called` on, and moves both past what was used. A fragment goes
/// into `requests`.
fn dissect_component<'a>(
    dissector: &mut Dissector<'a>,
    replies: &Vec<Option<Vec<u8>>>,
    answered: &mut usize,
    outcomes: &Vec<Outcome>,
    called: &mut usize,
    sequences: &mut SequenceIds,
    requests: &mut Vec<FragmentRequest>,
    plan: &mut Plan,
) -> (step: Step<FrameFragment<'a>>)
    requires
        *old(answered) <= replies@.len(),
        *old(called) <= outcomes@.len(),
        old(sequences).wf(),
    ensures
        final(sequences).wf(),
        ({
            let fragments = fragments_asked(
                old(dissector).state@,
                old(dissector).captured_length,
            );
            &&& *final(sequences) == after_all(*old(sequences), all_seen(fragments))
            &&& request_views(final(requests)@) == request_views(old(requests)@) + requests_of(
                *old(sequences),
                fragments,
            )
        }),
        *final(answered) <= replies@.len(),
        *final(called) <= outcomes@.len(),
        final(dissector).captured_length == old(dissector).captured_length,
        ({
            let state = old(dissector).state@;
            let captured = old(dissector).captured_length;
            let views = reply_views(replies@).skip(*old(answered) as int);
            let left = outcomes@.skip(*old(called) as int);
            let turn = turn_of(state, captured, views, left);
            &&& final(plan)@ == old(plan)@ + turn.actions
            &&& step@ == turn.step
            &&& final(dissector).state@ == turn.state
            &&& reply_views(replies@).skip(*final(answered) as int) == replies_after(
                state,
                captured,
                views,
            )
            &&& outcomes@.skip(*final(called) as int) == outcomes_after(
                state,
                captured,
                views,
                left,
            )
        }),
{
    let ghost state = dissector.state@;
    let ghost captured = dissector.captured_length;
    let ghost views = reply_views(replies@).skip(*answered as int);
    let ghost left = outcomes@.skip(*called as int);
    proof {
        reveal(turn_of);
        reveal(replies_after);
        reveal(outcomes_after);
        reveal(fragments_asked);
    }
    let ghost fragments = fragments_asked(state, captured);
    let mut step = dissector.step(plan);
    if let Step::Reassemble(fragment) = &step {
        requests.push(fragment.request(sequences));
        let mut reply: Option<&[u8]> = None;
        if *answered < replies.len() {
            if let Some(frame) = &replies[*answered] {
                reply = Some(frame.as_slice());
            }
            *answered += 1;
        }
        proof {
            assert(frame_view(reply) == reply_at(views, 0));
        }
        step = dissector.resume(fragment, reply, plan);
    }
    proof {
        lemma_one_fragment(*old(sequences), fragments);
        assert(request_views(requests@) =~= request_views(old(requests)@) + requests_of(
            *old(sequences),
            fragments,
        ));
        let turn = resumed_step_of(state, captured, reply_at(views, 0));
        assert(plan@ =~= old(plan)@ + turn.actions);
        assert(reply_views(replies@).skip(*answered as int) =~= replies_after(
            state,
            captured,
            views,
        ));
    }
    if let Step::HandOn(length) = step {
        let mut outcome: Outcome = Ok(None);
        if *called < outcomes.len() {
            outcome = match &outcomes[*called] {
                Ok(processed) => Ok(*processed),
                Err(error) => Err(error.clone()),
            };
            *called += 1;
        }
        proof {
            assert(outcome == outcome_at(left, 0));
        }
        step = dissector.handed_on(length, outcome, plan);
    }
    proof {
        let turn = turn_of(state, captured, views, left);
        assert(plan@ =~= old(plan)@ + turn.actions);
        assert(outcomes@.skip(*called as int) =~= outcomes_after(state, captured, views, left));
    }
    step
}

/// What comes of one fragment, or of none.
proof fn lemma_one_fragment(sequences: SequenceIds, fragments: Seq<FragmentModel>)
    requires
        fragments.len() <= 1,
    ensures
        fragments.len() == 0 ==> {
            &&& after_all(sequences, all_seen(fragments)) == sequences
            &&& requests_of(sequences, fragments) == Seq::<RequestModel>::empty()
        },
        fragments.len() == 1 ==> {
            &&& after_all(sequences, all_seen(fragments)) == after_fragment(sequences, fragments[0])
            &&& requests_of(sequences, fragments) == seq![request_of(sequences, fragments[0])]
        },
{
    let seen = all_seen(fragments);
    if fragments.len() == 0 {
        assert(requests_of(sequences, fragments) =~= Seq::<RequestModel>::empty());
    } else {
        assert(seen.drop_last() =~= Seq::empty());
        assert(after_all(sequences, seen.drop_last()) == sequences);
        assert(all_seen(fragments.take(0)) =~= Seq::empty());
        assert(requests_of(sequences, fragments) =~= seq![request_of(sequences, fragments[0])]);
    }
}

/// Dissects the packet with the octets `tvb` from start to end, given what the
/// reassembly table answers for each of its fragments in turn, which is the frame
/// that the fragment completes, if it does, and what comes of each data unit that
/// is handed to another dissector. A fragment beyond the end of `replies`
/// completes none; for a data unit beyond the end of `outcomes` no dissector is
/// found.
///
/// What each fragment asks of the reassembly table is added to `requests`;
/// `sequences` holds the sequence IDs before and after.
///
/// Returns the number of octets dissected.
pub fn dissect_packet(
    tvb: &[u8],
    replies: &Vec<Option<Vec<u8>>>,
    outcomes: &Vec<Outcome>,
    sequences: &mut SequenceIds,
    requests: &mut Vec<FragmentRequest>,
    plan: &mut Plan,
) -> (result: Result<usize, DissectError>)
    requires
        old(sequences).wf(),
    ensures
        final(sequences).wf(),
        *final(sequences) == after_all(
            *old(sequences),
            all_seen(dissection(tvb@, reply_views(replies@), outcomes@).fragments),
        ),
        request_views(final(requests)@) == request_views(old(requests)@) + requests_of(
            *old(sequences),
            dissection(tvb@, reply_views(replies@), outcomes@).fragments,
        ),
        final(plan)@ == old(plan)@.push(
            Op::SetColumnText { column: Column::Protocol, text: "MACPrivacy"@ },
        ) + dissection(tvb@, reply_views(replies@), outcomes@).actions,
        result == dissection(tvb@, reply_views(replies@), outcomes@).result,
{
    let mut dissector = Dissector::start(tvb, plan);
    let mut answered: usize = 0;
    let mut called: usize = 0;
    let captured: usize = dissector.captured_length;
    let ghost started = plan@;
    let ghost views = reply_views(replies@);
    let ghost whole = left_of(initial_state(tvb@), captured, views, outcomes@);
    proof {
        assert(views.skip(0) =~= views);
        assert(outcomes@.skip(0) =~= outcomes@);
        assert(whole == dissection(tvb@, views, outcomes@)) by {
            reveal(left_of);
        }
    }
    loop
        invariant
            dissector.captured_length == captured,
            answered <= replies@.len(),
            called <= outcomes@.len(),
            views == reply_views(replies@),
            ({
                let left = left_of(
                    dissector.state@,
                    captured,
                    views.skip(answered as int),
                    outcomes@.skip(called as int),
                );
                &&& plan@ + left.actions == started + whole.actions
                &&& left.result == whole.result
                &&& after_all(*sequences, all_seen(left.fragments)) == after_all(
                    *old(sequences),
                    all_seen(whole.fragments),
                )
                &&& request_views(requests@) + requests_of(*sequences, left.fragments)
                    == request_views(old(requests)@) + requests_of(
                    *old(sequences),
                    whole.fragments,
                )
            }),
            sequences.wf(),
            started == old(plan)@.push(
                Op::SetColumnText { column: Column::Protocol, text: "MACPrivacy"@ },
            ),
            whole == dissection(tvb@, reply_views(replies@), outcomes@),
        decreases dissector.state@.rest.len(),
    {
        let ghost state = dissector.state@;
        let ghost before = plan@;
        let ghost left = views.skip(answered as int);
        let ghost open = outcomes@.skip(called as int);
        let ghost turn = turn_of(state, captured, left, open);
        let ghost ids = *sequences;
        let ghost asked = request_views(requests@);
        let ghost fragments = fragments_asked(state, captured);
        proof {
            lemma_run_by_turns(state, captured, left, open);
        }
        match dissect_component(
            &mut dissector,
            replies,
            &mut answered,
            outcomes,
            &mut called,
            sequences,
            requests,
            plan,
        ) {
            Step::Finished(dissected) => return Ok(dissected),
            Step::Failed(error) => return Err(error),
            Step::Continue => {
                proof {
                    let rest = left_of(
                        turn.state,
                        captured,
                        replies_after(state, captured, left),
                        outcomes_after(state, captured, left, open),
                    );
                    assert(before + (turn.actions + rest.actions) =~= before + turn.actions
                        + rest.actions);
                    lemma_fragments_together(ids, fragments, rest.fragments);
                    assert(asked + (requests_of(ids, fragments) + requests_of(
                        *sequences,
                        rest.fragments,
                    )) =~= asked + requests_of(ids, fragments) + requests_of(
                        *sequences,
                        rest.fragments,
                    ));
                }
            },
            _ => return Ok(0),
        }
    }
}

/// All that is done for a component ends the dissection, or has moved on by
/// exactly one component. So the dissection of every packet ends.
pub proof fn law_steps_make_progress(
    state: MppduModel,
    captured: usize,
    reassembled: Option<Seq<u8>>,
    outcome: Outcome,
)
    ensures
        ({
            let turn = whole_step_of(state, captured, reassembled, outcome);
            &&& !(turn.step is Reassemble) && !(turn.step is HandOn)
            &&& turn.step is Continue ==> {
                &&& state.rest.len() > 0
                &&& turn.state.rest == state.rest.skip(component_length(state.rest) as int)
                &&& turn.state.rest.len() < state.rest.len()
            }
        }),
{
    if state.rest.len() > 0 {
        law_component_length(state.rest);
    }
}

/// Whether the packet ends with an octet that begins no component.
pub open spec fn cut_short(packet: Seq<u8>) -> bool {
    split(packet).len() > 0 && kind_of(split(packet).last()) == ComponentKind::Truncated
}

/// The name that the summary has for a component.
pub open spec fn names_of(component: Seq<u8>) -> Seq<Seq<char>> {
    match kind_of(component) {
        ComponentKind::TrailingPad => seq!["Trailing Pad"@],
        ComponentKind::EncapsulatedFrame => seq!["Encapsulated Frame"@],
        ComponentKind::ExplicitPad => seq!["Explicit Pad"@],
        ComponentKind::FrameFragment => seq!["Frame Fragment"@],
        ComponentKind::Invalid | ComponentKind::Truncated => Seq::empty(),
    }
}

/// The names that the summary has for a list of components.
pub open spec fn names(components: Seq<Seq<u8>>) -> Seq<Seq<char>>
    decreases components.len(),
{
    if components.len() == 0 {
        Seq::empty()
    } else {
        names_of(components[0]) + names(components.drop_first())
    }
}

/// The frame fragments among components that lie one after the other in a packet,
/// the first of them at `offset`.
pub open spec fn fragments_of(components: Seq<Seq<u8>>, offset: nat) -> Seq<FragmentModel>
    decreases components.len(),
{
    if components.len() == 0 {
        Seq::empty()
    } else {
        let first = components[0];
        let place = Span {
            source: TvbSource::Packet,
            offset: offset as usize,
            length: first.len() as usize,
        };
        let later = fragments_of(components.drop_first(), offset + first.len());
        if kind_of(first) == ComponentKind::FrameFragment {
            seq![fragment_of(first, place)] + later
        } else {
            later
        }
    }
}

/// Whether a reassembled frame, if there is one, holds two addresses and an
/// ethertype.
pub open spec fn long_enough(reply: Option<Seq<u8>>) -> bool {
    reply matches Some(frame) ==> frame.len() >= MIN_FRAME_LENGTH
}

/// Whether all frames that the reassembly table hands back are long enough.
pub open spec fn all_long_enough(replies: Seq<Option<Seq<u8>>>) -> bool {
    forall|i: int| 0 <= i < replies.len() ==> long_enough(#[trigger] replies[i])
}

/// Whether no dissector that a data unit is handed to fails.
pub open spec fn none_fails(outcomes: Seq<Outcome>) -> bool {
    forall|i: int| 0 <= i < outcomes.len() ==> (#[trigger] outcomes[i]) is Ok
}

/// Whether a data unit was passed to a dissector, which has processed it.
pub open spec fn is_found(outcome: Outcome) -> bool {
    outcome matches Ok(processed) && processed is Some
}

/// How many of the actions hand a data unit to another dissector.
pub open spec fn call_count(actions: Seq<ActionModel>) -> nat
    decreases actions.len(),
{
    if actions.len() == 0 {
        0
    } else {
        call_count(actions.drop_last()) + if actions.last() is CallEthertypeDissector {
            1nat
        } else {
            0nat
        }
    }
}

/// Whether the actions pass a data unit to some dissector that is there, given
/// what comes of each call.
pub open spec fn passes_on(actions: Seq<ActionModel>, outcomes: Seq<Outcome>) -> bool {
    exists|i: int| 0 <= i < call_count(actions) && is_found(#[trigger] outcome_at(outcomes, i))
}

/// Whether a call that fails is the last one that the actions make, and gives the
/// result of the dissection.
pub open spec fn fails_with_its_calls(whole: Run, outcomes: Seq<Outcome>) -> bool {
    forall|i: int|
        0 <= i < call_count(whole.actions) ==> (#[trigger] outcome_at(outcomes, i) matches Err(
            error,
        ) ==> {
            &&& i == call_count(whole.actions) - 1
            &&& whole.actions.last() is CallEthertypeDissector
            &&& whole.result == Err::<usize, DissectError>(error)
        })
}

/// Whether `action` writes to the column with the summary.
pub open spec fn is_summary(action: ActionModel) -> bool {
    action matches Op::SetColumnText { column, .. } && column == Column::Info
}

/// Whether some action writes to the column with the summary.
pub open spec fn writes_summary(actions: Seq<ActionModel>) -> bool {
    exists|i: int| 0 <= i < actions.len() && is_summary(#[trigger] actions[i])
}

/// The text of the summary that names the given components.
pub open spec fn summary_of(components: Seq<Seq<char>>) -> ActionModel {
    Op::SetColumnText {
        column: Column::Info,
        text: "MPPDU Components: ["@ + joined(components, ", "@) + "]"@,
    }
}

/// Whether `action` adds the item of a component.
pub open spec fn adds_component(action: ActionModel) -> bool {
    action matches Op::Add { node, .. } && node == Node::Component
}

/// Whether `action` sets the number of octets that the item of a component covers.
pub open spec fn sets_length(action: ActionModel) -> bool {
    action matches Op::SetLength { node, .. } && node == Node::Component
}

/// Whether `action` marks a component as a trailing pad.
pub open spec fn marks_trailing_pad(action: ActionModel) -> bool {
    action == (Op::<Seq<char>, Seq<char>>::AppendText {
        node: Node::TypeItem,
        text: " (Trailing Pad)"@,
    })
}

/// The octets that the items of the components cover once the actions were
/// performed.
pub open spec fn shown_components(actions: Seq<ActionModel>) -> Seq<Span>
    decreases actions.len(),
{
    if actions.len() == 0 {
        Seq::empty()
    } else {
        let before = shown_components(actions.drop_last());
        match actions.last() {
            Op::Add { node: Node::Component, range, .. } => before.push(range),
            Op::SetLength { node: Node::Component, length } => if before.len() > 0 {
                before.update(before.len() - 1, Span { length, ..before.last() })
            } else {
                before
            },
            _ => before,
        }
    }
}

/// Whether the spans lie in the packet one right after the other, from `start`
/// on.
pub open spec fn adjoin(spans: Seq<Span>, start: int) -> bool {
    &&& spans.len() > 0 ==> spans[0].offset == start
    &&& forall|i: int| 0 <= i < spans.len() ==> (#[trigger] spans[i]).source == TvbSource::Packet
    &&& forall|i: int, j: int|
        0 <= i < spans.len() - 1 && j == i + 1 ==> (#[trigger] spans[j]).offset == (
        #[trigger] spans[i]).offset + spans[i].length
}

/// Whether no component comes after a trailing pad.
pub open spec fn trailing_pad_is_last(actions: Seq<ActionModel>) -> bool {
    forall|i: int, j: int|
        0 <= i < j < actions.len() && marks_trailing_pad(#[trigger] actions[i])
            ==> !adds_component(#[trigger] actions[j])
}

/// Calls are counted list by list.
proof fn lemma_calls_together(a: Seq<ActionModel>, b: Seq<ActionModel>)
    ensures
        call_count(a + b) == call_count(a) + call_count(b),
    decreases b.len(),
{
    if b.len() == 0 {
        assert(a + b =~= a);
    } else {
        assert((a + b).drop_last() =~= a + b.drop_last());
        lemma_calls_together(a, b.drop_last());
    }
}

/// A list without a call counts as none.
proof fn lemma_no_calls(a: Seq<ActionModel>)
    requires
        forall|i: int| 0 <= i < a.len() ==> !((#[trigger] a[i]) is CallEthertypeDissector),
    ensures
        call_count(a) == 0,
    decreases a.len(),
{
    if a.len() > 0 {
        assert forall|i: int| 0 <= i < a.drop_last().len() implies !((#[trigger] a.drop_last()[i])
            is CallEthertypeDissector) by {
            assert(a.drop_last()[i] == a[i]);
        }
        lemma_no_calls(a.drop_last());
    }
}

/// A list whose last action is its only call.
proof fn lemma_one_call(a: Seq<ActionModel>)
    requires
        a.len() > 0,
        forall|i: int|
            0 <= i < a.len() ==> ((#[trigger] a[i]) is CallEthertypeDissector <==> i == a.len()
                - 1),
    ensures
        call_count(a) == 1,
{
    assert forall|i: int| 0 <= i < a.drop_last().len() implies !((#[trigger] a.drop_last()[i])
        is CallEthertypeDissector) by {
        assert(a.drop_last()[i] == a[i]);
    }
    lemma_no_calls(a.drop_last());
}

/// A summary in one of two lists is one in both put together.
proof fn lemma_summaries_together(a: Seq<ActionModel>, b: Seq<ActionModel>)
    ensures
        writes_summary(a + b) == (writes_summary(a) || writes_summary(b)),
{
    let both = a + b;
    if writes_summary(a) {
        let i = choose|i: int| 0 <= i < a.len() && is_summary(#[trigger] a[i]);
        assert(is_summary(both[i]));
    }
    if writes_summary(b) {
        let i = choose|i: int| 0 <= i < b.len() && is_summary(#[trigger] b[i]);
        assert(is_summary(both[a.len() + i]));
    }
    if writes_summary(both) {
        let i = choose|i: int| 0 <= i < both.len() && is_summary(#[trigger] both[i]);
        if i < a.len() {
            assert(is_summary(a[i]));
        } else {
            assert(is_summary(b[i - a.len()]));
        }
    }
}

/// Whether a list shows components of its own only.
spec fn shows_its_own(actions: Seq<ActionModel>) -> bool {
    ||| actions.len() > 0 && adds_component(actions[0])
    ||| forall|i: int|
        0 <= i < actions.len() ==> !adds_component(#[trigger] actions[i]) && !sets_length(
            actions[i],
        )
}

/// The components of two lists are shown one after the other.
proof fn lemma_shown_together(a: Seq<ActionModel>, b: Seq<ActionModel>)
    requires
        shows_its_own(b),
    ensures
        shown_components(a + b) == shown_components(a) + shown_components(b),
        b.len() > 0 && adds_component(b[0]) ==> shown_components(b).len() > 0,
    decreases b.len(),
{
    if b.len() == 0 {
        assert(a + b =~= a);
        assert(shown_components(a) + shown_components(b) =~= shown_components(a));
    } else {
        let init = b.drop_last();
        assert((a + b).drop_last() =~= a + init);
        assert((a + b).last() == b.last());
        if init.len() > 0 {
            assert(init[0] == b[0]);
        }
        assert(shows_its_own(init)) by {
            assert(forall|i: int| 0 <= i < init.len() ==> #[trigger] init[i] == b[i]);
        }
        lemma_shown_together(a, init);
        assert(shown_components(a + b) =~= shown_components(a) + shown_components(b));
    }
}

/// What a list shows that adds one component, at its start, and sets no other
/// length than `length`.
proof fn lemma_one_shown(actions: Seq<ActionModel>, range: Span, length: usize)
    requires
        actions.len() > 0,
        adds_component(actions[0]),
        actions[0] matches Op::Add { range: start, .. } && start == range,
        forall|i: int| 1 <= i < actions.len() ==> !adds_component(#[trigger] actions[i]),
        forall|i: int|
            0 <= i < actions.len() && sets_length(#[trigger] actions[i]) ==> (
            actions[i] matches Op::SetLength { length: set, .. } && set == length),
    ensures
        shown_components(actions).len() == 1,
        (exists|i: int| 0 <= i < actions.len() && sets_length(#[trigger] actions[i]))
            ==> shown_components(actions)[0] == (Span { length, ..range }),
        !(exists|i: int| 0 <= i < actions.len() && sets_length(#[trigger] actions[i]))
            ==> shown_components(actions)[0] == range,
    decreases actions.len(),
{
    let init = actions.drop_last();
    if init.len() == 0 {
        assert(shown_components(init) =~= Seq::empty());
    } else {
        assert(forall|i: int| 0 <= i < init.len() ==> #[trigger] init[i] == actions[i]);
        lemma_one_shown(init, range, length);
        if exists|i: int| 0 <= i < init.len() && sets_length(#[trigger] init[i]) {
            let i = choose|i: int| 0 <= i < init.len() && sets_length(#[trigger] init[i]);
            assert(sets_length(actions[i]));
        }
        if sets_length(actions.last()) {
            assert(sets_length(actions[actions.len() - 1]));
        }
        if exists|i: int| 0 <= i < actions.len() && sets_length(#[trigger] actions[i]) {
            let i = choose|i: int| 0 <= i < actions.len() && sets_length(#[trigger] actions[i]);
            if i < init.len() {
                assert(sets_length(init[i]));
            }
        }
    }
}

/// Whether the next component hands a data unit to another dissector.
spec fn hands_on(rest: Seq<u8>, reply: Option<Seq<u8>>) -> bool {
    rest.len() > 0 && match kind_of(rest) {
        ComponentKind::EncapsulatedFrame => true,
        ComponentKind::FrameFragment => reply is Some && long_enough(reply),
        _ => false,
    }
}

/// What comes after all that is done for the next component: `Ok` with the number
/// of octets dissected if it is the end, `Ok` without if there is more, `Err` with
/// the error of the other dissector, or `Err` without if a reassembled frame is too
/// short.
spec fn ending_of(
    rest: Seq<u8>,
    captured: usize,
    reply: Option<Seq<u8>>,
    outcome: Outcome,
) -> Result<Option<usize>, Option<DissectError>> {
    if rest.len() == 0 || kind_of(rest) == ComponentKind::TrailingPad {
        Ok(Some(captured))
    } else if kind_of(rest) == ComponentKind::Truncated {
        Ok(Some(0))
    } else if kind_of(rest) == ComponentKind::FrameFragment && !long_enough(reply) {
        Err(None)
    } else if hands_on(rest, reply) && outcome is Err {
        Err(Some(outcome->Err_0))
    } else {
        Ok(None)
    }
}

/// How the dissection goes on after the next component.
proof fn lemma_turn_goes_on(
    state: MppduModel,
    captured: usize,
    replies: Seq<Option<Seq<u8>>>,
    outcomes: Seq<Outcome>,
)
    ensures
        ({
            let turn = turn_of(state, captured, replies, outcomes);
            let reply = reply_at(replies, 0);
            let outcome = outcome_at(outcomes, 0);
            &&& match ending_of(state.rest, captured, reply, outcome) {
                Ok(Some(dissected)) => turn.step == Step::<FragmentModel>::Finished(dissected),
                Ok(None) => turn.step is Continue,
                Err(Some(error)) => turn.step == Step::<FragmentModel>::Failed(error),
                Err(None) => turn.step is Failed,
            }
            &&& !(turn.step is Failed) ==> turn.state.components == state.components
                + if state.rest.len() == 0 {
                Seq::empty()
            } else {
                names_of(state.rest)
            }
            &&& turn.step is Finished ==> turn.state.subdissector_called
                == state.subdissector_called
            &&& turn.step is Continue ==> {
                &&& turn.state.subdissector_called == (state.subdissector_called || hands_on(
                    state.rest,
                    reply,
                ) && is_found(outcome))
                &&& turn.state.rest == state.rest.skip(component_length(state.rest) as int)
                &&& is_state_of(state, captured) ==> is_state_of(turn.state, captured)
                &&& is_state_of(state, captured) ==> turn.state.span.offset == state.span.offset
                    + component_length(state.rest)
            }
            &&& replies_after(state, captured, replies) == if state.rest.len() > 0 && kind_of(
                state.rest,
            ) == ComponentKind::FrameFragment {
                later(replies)
            } else {
                replies
            }
            &&& outcomes_after(state, captured, replies, outcomes) == if hands_on(
                state.rest,
                reply,
            ) {
                later(outcomes)
            } else {
                outcomes
            }
        }),
{
    reveal(turn_of);
    reveal(replies_after);
    reveal(outcomes_after);
    let turn = turn_of(state, captured, replies, outcomes);
    if state.rest.len() > 0 {
        law_component_length(state.rest);
        law_payload_length(state.rest);
        if !(turn.step is Failed) {
            assert(turn.state.components =~= state.components + names_of(state.rest));
        }
    } else {
        assert(turn.state.components =~= state.components + Seq::<Seq<char>>::empty());
    }
}

/// The actions for the next component start with its item and add no other.
#[verifier::rlimit(40)]
proof fn lemma_turn_item(
    state: MppduModel,
    captured: usize,
    replies: Seq<Option<Seq<u8>>>,
    outcomes: Seq<Outcome>,
)
    requires
        state.rest.len() > 0,
    ensures
        ({
            let actions = turn_of(state, captured, replies, outcomes).actions;
            &&& actions.len() > 0 && adds_component(actions[0])
            &&& actions[0] matches Op::Add { range, .. } && range == sub_span(state.span, 0, 1)
            &&& forall|i: int| 1 <= i < actions.len() ==> !adds_component(#[trigger] actions[i])
        }),
{
    reveal(turn_of);
}

/// The actions for the next component set its length, unless the dissection fails
/// or the packet is cut short.
#[verifier::rlimit(40)]
proof fn lemma_turn_length(
    state: MppduModel,
    captured: usize,
    replies: Seq<Option<Seq<u8>>>,
    outcomes: Seq<Outcome>,
)
    requires
        state.rest.len() > 0,
    ensures
        ({
            let turn = turn_of(state, captured, replies, outcomes);
            let actions = turn.actions;
            let length = component_length(state.rest) as usize;
            &&& forall|i: int|
                0 <= i < actions.len() && sets_length(#[trigger] actions[i]) ==> (
                actions[i] matches Op::SetLength { length: set, .. } && set == length)
            &&& (exists|i: int| 0 <= i < actions.len() && sets_length(#[trigger] actions[i]))
                <==> !(turn.step is Failed) && kind_of(state.rest) != ComponentKind::Truncated
        }),
{
    reveal(turn_of);
    law_component_length(state.rest);
    law_payload_length(state.rest);
    let turn = turn_of(state, captured, replies, outcomes);
    let actions = turn.actions;
    if !(turn.step is Failed) && kind_of(state.rest) != ComponentKind::Truncated {
        if kind_of(state.rest) == ComponentKind::TrailingPad {
            assert(sets_length(actions[4]));
        } else {
            assert(sets_length(actions[actions.len() - 1]));
        }
    }
}

/// Only a trailing pad is marked as one.
#[verifier::rlimit(40)]
proof fn lemma_turn_marks(
    state: MppduModel,
    captured: usize,
    replies: Seq<Option<Seq<u8>>>,
    outcomes: Seq<Outcome>,
    i: int,
)
    requires
        state.rest.len() > 0,
        0 <= i < turn_of(state, captured, replies, outcomes).actions.len(),
        marks_trailing_pad(turn_of(state, captured, replies, outcomes).actions[i]),
    ensures
        kind_of(state.rest) == ComponentKind::TrailingPad,
{
    reveal(turn_of);
    reveal_strlit(" (Trailing Pad)");
    reveal_strlit(" (Encapsulated Frame)");
    reveal_strlit(" (Explicit Pad)");
    reveal_strlit(" (Frame Fragment)");
    reveal_strlit(" (Invalid)");
    assert(" (Trailing Pad)"@[2] != " (Explicit Pad)"@[2]);
}

/// The calls among the actions for the next component.
#[verifier::rlimit(40)]
proof fn lemma_turn_calls(
    state: MppduModel,
    captured: usize,
    replies: Seq<Option<Seq<u8>>>,
    outcomes: Seq<Outcome>,
)
    ensures
        ({
            let turn = turn_of(state, captured, replies, outcomes);
            let calls = hands_on(state.rest, reply_at(replies, 0));
            &&& call_count(turn.actions) == if calls {
                1nat
            } else {
                0nat
            }
            &&& calls && turn.step is Failed ==> turn.actions.len() > 0 && turn.actions.last()
                is CallEthertypeDissector
        }),
{
    reveal(turn_of);
    let actions = turn_of(state, captured, replies, outcomes).actions;
    if state.rest.len() > 0 {
        law_component_length(state.rest);
        law_payload_length(state.rest);
    }
    if hands_on(state.rest, reply_at(replies, 0)) {
        let called = resumed_step_of(state, captured, reply_at(replies, 0)).actions;
        assert(called[called.len() - 1] is CallEthertypeDissector);
        lemma_one_call(called);
        let ending = actions.skip(called.len() as int);
        assert(actions =~= called + ending);
        lemma_no_calls(ending);
        lemma_calls_together(called, ending);
    } else {
        lemma_no_calls(actions);
    }
}

/// The summary among the actions for the next component.
proof fn lemma_turn_summary(
    state: MppduModel,
    captured: usize,
    replies: Seq<Option<Seq<u8>>>,
    outcomes: Seq<Outcome>,
)
    ensures
        ({
            let turn = turn_of(state, captured, replies, outcomes);
            let actions = turn.actions;
            &&& writes_summary(actions) <==> !state.subdissector_called && (state.rest.len() == 0
                || kind_of(state.rest) == ComponentKind::TrailingPad)
            &&& writes_summary(actions) ==> actions.len() > 0 && actions.last()
                == summary_actions(turn.state)[0]
            &&& state.rest.len() == 0 ==> forall|i: int|
                0 <= i < actions.len() ==> is_summary(#[trigger] actions[i])
        }),
{
    reveal(turn_of);
    let actions = turn_of(state, captured, replies, outcomes).actions;
    if state.rest.len() == 0 {
        if !state.subdissector_called {
            assert(is_summary(actions[0]));
        }
    } else if kind_of(state.rest) == ComponentKind::TrailingPad && !state.subdissector_called {
        assert(is_summary(actions[actions.len() - 1]));
    }
}

/// How the components of a packet follow from its first one.
proof fn lemma_split_first(rest: Seq<u8>)
    requires
        rest.len() > 0,
    ensures
        ({
            let length = component_length(rest) as int;
            let next = rest.skip(length);
            &&& ends_packet(kind_of(rest)) ==> {
                &&& split(rest) == seq![rest]
                &&& names(split(rest)) == names_of(rest)
                &&& cut_short(rest) == (kind_of(rest) == ComponentKind::Truncated)
            }
            &&& !ends_packet(kind_of(rest)) ==> {
                &&& split(rest) == seq![rest.take(length)] + split(next)
                &&& names(split(rest)) == names_of(rest) + names(split(next))
                &&& cut_short(rest) == cut_short(next)
            }
        }),
{
    law_component_length(rest);
    law_component_stands_alone(rest);
    let length = component_length(rest) as int;
    let next = rest.skip(length);
    let pieces = split(rest);
    if ends_packet(kind_of(rest)) {
        assert(pieces.drop_first() =~= Seq::empty());
        assert(names(pieces.drop_first()) =~= Seq::empty());
        assert(names(pieces) =~= names_of(rest));
    } else {
        assert(pieces.drop_first() =~= split(next));
        assert(pieces[0] == rest.take(length));
        assert(split(next).len() > 0 ==> pieces.last() == split(next).last());
        assert(split(next).len() == 0 ==> pieces.last() == pieces[0]);
    }
}

/// How the dissection ends from `state` on.
spec fn ends_well(
    state: MppduModel,
    captured: usize,
    replies: Seq<Option<Seq<u8>>>,
    outcomes: Seq<Outcome>,
) -> bool {
    let whole = left_of(state, captured, replies, outcomes);
    &&& whole.result matches Ok(dissected) ==> dissected == if cut_short(state.rest) {
        0
    } else {
        captured
    }
    &&& all_long_enough(replies) && none_fails(outcomes) ==> whole.result is Ok
    &&& writes_summary(whole.actions) <==> {
        &&& whole.result is Ok
        &&& !cut_short(state.rest)
        &&& !state.subdissector_called
        &&& !passes_on(whole.actions, outcomes)
    }
    &&& writes_summary(whole.actions) ==> whole.actions.len() > 0 && whole.actions.last()
        == summary_of(state.components + names(split(state.rest)))
    &&& fails_with_its_calls(whole, outcomes)
}

/// What the calls of two lists come to, where the first makes `calls` of them, one
/// at most.
proof fn lemma_outcomes_together(
    a: Seq<ActionModel>,
    asked: Seq<FragmentModel>,
    rest: Run,
    calls: bool,
    outcomes: Seq<Outcome>,
    left: Seq<Outcome>,
)
    requires
        call_count(a) == (if calls {
            1nat
        } else {
            0nat
        }),
        left == (if calls {
            later(outcomes)
        } else {
            outcomes
        }),
        calls ==> outcome_at(outcomes, 0) is Ok,
        fails_with_its_calls(rest, left),
    ensures
        passes_on(a + rest.actions, outcomes) == (calls && is_found(outcome_at(outcomes, 0))
            || passes_on(rest.actions, left)),
        fails_with_its_calls(after(a, asked, rest), outcomes),
        none_fails(outcomes) ==> none_fails(left),
{
    let both = a + rest.actions;
    let first: int = if calls {
        1
    } else {
        0
    };
    lemma_calls_together(a, rest.actions);
    assert forall|i: int| first <= i implies #[trigger] outcome_at(outcomes, i) == outcome_at(
        left,
        i - first,
    ) by {}
    if calls && is_found(outcome_at(outcomes, 0)) {
        assert(passes_on(both, outcomes));
    }
    if passes_on(rest.actions, left) {
        let i = choose|i: int|
            0 <= i < call_count(rest.actions) && is_found(#[trigger] outcome_at(left, i));
        assert(outcome_at(outcomes, i + first) == outcome_at(left, i));
        assert(passes_on(both, outcomes));
    }
    if passes_on(both, outcomes) {
        let i = choose|i: int|
            0 <= i < call_count(both) && is_found(#[trigger] outcome_at(outcomes, i));
        if i >= first {
            assert(outcome_at(outcomes, i) == outcome_at(left, i - first));
            assert(passes_on(rest.actions, left));
        }
    }
    assert forall|i: int| 0 <= i < call_count(both) implies (
    #[trigger] outcome_at(outcomes, i) matches Err(error) ==> {
        &&& i == call_count(both) - 1
        &&& both.last() is CallEthertypeDissector
        &&& rest.result == Err::<usize, DissectError>(error)
    }) by {
        if i >= first {
            assert(outcome_at(outcomes, i) == outcome_at(left, i - first));
        }
    }
    if none_fails(outcomes) {
        assert(forall|i: int|
            0 <= i < left.len() && left.len() < outcomes.len() ==> #[trigger] left[i]
                == outcomes[i + 1]);
    }
}

/// The dissection ends well from any state on.
proof fn lemma_ends_well(
    state: MppduModel,
    captured: usize,
    replies: Seq<Option<Seq<u8>>>,
    outcomes: Seq<Outcome>,
)
    ensures
        ends_well(state, captured, replies, outcomes),
    decreases state.rest.len(),
{
    let turn = turn_of(state, captured, replies, outcomes);
    let rest = state.rest;
    let calls = hands_on(rest, reply_at(replies, 0));
    lemma_turn_goes_on(state, captured, replies, outcomes);
    lemma_turn_calls(state, captured, replies, outcomes);
    lemma_turn_summary(state, captured, replies, outcomes);
    lemma_run_by_turns(state, captured, replies, outcomes);
    if rest.len() == 0 {
        assert(state.components + names(split(rest)) =~= state.components);
    } else {
        lemma_split_first(rest);
    }
    if turn.step is Continue {
        let later_replies = replies_after(state, captured, replies);
        let later_outcomes = outcomes_after(state, captured, replies, outcomes);
        let next = left_of(turn.state, captured, later_replies, later_outcomes);
        lemma_ends_well(turn.state, captured, later_replies, later_outcomes);
        lemma_outcomes_together(
            turn.actions,
            fragments_asked(state, captured),
            next,
            calls,
            outcomes,
            later_outcomes,
        );
        lemma_summaries_together(turn.actions, next.actions);
        if next.actions.len() > 0 {
            assert((turn.actions + next.actions).last() == next.actions.last());
        }
        assert(turn.state.components + names(split(turn.state.rest)) =~= state.components + names(
            split(rest),
        ));
        assert(all_long_enough(replies) ==> all_long_enough(later_replies)) by {
            assert(forall|i: int|
                0 <= i < later_replies.len() && later_replies.len() < replies.len()
                    ==> #[trigger] later_replies[i] == replies[i + 1]);
        }
    } else if turn.step is Failed {
        if calls {
            assert(outcome_at(outcomes, 0) is Err);
            assert(!none_fails(outcomes)) by {
                assert(outcomes[0] is Err);
            }
        } else {
            assert(!long_enough(reply_at(replies, 0)));
            assert(!all_long_enough(replies)) by {
                assert(!long_enough(replies[0]));
            }
        }
    }
}

/// Whether spans are as long as the pieces in their places. If the dissection has
/// failed, the last one may not have got its length, and is one octet.
pub open spec fn cover(spans: Seq<Span>, pieces: Seq<Seq<u8>>, complete: bool) -> bool {
    &&& spans.len() <= pieces.len()
    &&& complete ==> spans.len() == pieces.len()
    &&& forall|i: int|
        #![trigger spans[i]]
        0 <= i < spans.len() ==> spans[i].length == pieces[i].len() || !complete && i
            == spans.len() - 1 && spans[i].length == 1
}

/// How the components are shown from `state` on.
spec fn shows_well(
    state: MppduModel,
    captured: usize,
    replies: Seq<Option<Seq<u8>>>,
    outcomes: Seq<Outcome>,
) -> bool {
    let whole = left_of(state, captured, replies, outcomes);
    let spans = shown_components(whole.actions);
    &&& shows_its_own(whole.actions)
    &&& adjoin(spans, state.span.offset as int)
    &&& cover(spans, split(state.rest), whole.result is Ok)
    &&& spans.len() > 0 ==> spans.last().offset + spans.last().length <= captured
    &&& spans.len() > 0 && whole.result is Ok ==> spans.last().offset + spans.last().length
        == captured
    &&& trailing_pad_is_last(whole.actions)
    &&& whole.fragments == fragments_of(
        split(state.rest).take(spans.len() as int),
        state.span.offset as nat,
    )
}

/// The fragment that the next component asks for is the component.
proof fn lemma_fragment_asked(state: MppduModel, captured: usize)
    requires
        is_state_of(state, captured),
        state.rest.len() > 0,
    ensures
        fragments_asked(state, captured) == fragments_of(
            seq![state.rest.take(component_length(state.rest) as int)],
            state.span.offset as nat,
        ),
{
    reveal(fragments_asked);
    law_component_length(state.rest);
    law_component_stands_alone(state.rest);
    let component = state.rest.take(component_length(state.rest) as int);
    let offset = state.span.offset as nat;
    assert(fragments_of(seq![component].drop_first(), offset + component.len()) =~= Seq::empty());
    assert(fragments_asked(state, captured) =~= fragments_of(seq![component], offset));
}

/// The fragments among one component and those that follow it.
proof fn lemma_fragments_of_first(first: Seq<u8>, later: Seq<Seq<u8>>, offset: nat)
    ensures
        fragments_of(seq![first] + later, offset) == fragments_of(seq![first], offset)
            + fragments_of(later, offset + first.len()),
{
    assert((seq![first] + later).drop_first() =~= later);
    assert(fragments_of(seq![first].drop_first(), offset + first.len()) =~= Seq::empty());
    assert(fragments_of(seq![first] + later, offset) =~= fragments_of(seq![first], offset)
        + fragments_of(later, offset + first.len()));
}

/// The fragments among the first components come first.
proof fn lemma_fragments_of_some(components: Seq<Seq<u8>>, count: int, offset: nat)
    requires
        0 <= count <= components.len(),
    ensures
        fragments_of(components.take(count), offset).is_prefix_of(fragments_of(components, offset)),
    decreases components.len(),
{
    if count > 0 {
        let first = components[0];
        lemma_fragments_of_some(components.drop_first(), count - 1, offset + first.len());
        assert(components.take(count).drop_first() =~= components.drop_first().take(count - 1));
    }
}

/// The components are shown well from any state of a packet on.
proof fn lemma_shows_well(
    state: MppduModel,
    captured: usize,
    replies: Seq<Option<Seq<u8>>>,
    outcomes: Seq<Outcome>,
)
    requires
        is_state_of(state, captured),
    ensures
        shows_well(state, captured, replies, outcomes),
    decreases state.rest.len(),
{
    let turn = turn_of(state, captured, replies, outcomes);
    let whole = left_of(state, captured, replies, outcomes);
    let rest = state.rest;
    lemma_turn_goes_on(state, captured, replies, outcomes);
    lemma_run_by_turns(state, captured, replies, outcomes);
    if rest.len() == 0 {
        lemma_turn_summary(state, captured, replies, outcomes);
        lemma_nothing_shown(whole.actions);
        assert(whole.fragments =~= Seq::empty()) by {
            reveal(fragments_asked);
        }
    } else {
        let range = sub_span(state.span, 0, 1);
        let length = component_length(rest) as usize;
        law_component_length(rest);
        lemma_split_first(rest);
        lemma_turn_item(state, captured, replies, outcomes);
        lemma_turn_length(state, captured, replies, outcomes);
        lemma_one_shown(turn.actions, range, length);
        lemma_fragment_asked(state, captured);
        let first = shown_components(turn.actions);
        if turn.step is Continue {
            let later_replies = replies_after(state, captured, replies);
            let later_outcomes = outcomes_after(state, captured, replies, outcomes);
            let next = left_of(turn.state, captured, later_replies, later_outcomes);
            lemma_shows_well(turn.state, captured, later_replies, later_outcomes);
            lemma_shown_together(turn.actions, next.actions);
            assert(first =~= seq![first[0]]);
            lemma_tiles_together(
                first[0],
                rest.take(length as int),
                shown_components(next.actions),
                split(turn.state.rest),
                whole.result is Ok,
            );
            assert(whole.actions[0] == turn.actions[0]);
            assert forall|i: int| 0 <= i < turn.actions.len() implies !marks_trailing_pad(
                #[trigger] turn.actions[i],
            ) by {
                if marks_trailing_pad(turn.actions[i]) {
                    lemma_turn_marks(state, captured, replies, outcomes, i);
                }
            }
            lemma_trailing_pad_together(turn.actions, next.actions);
            let count = shown_components(next.actions).len() as int;
            let pieces = split(turn.state.rest).take(count);
            lemma_fragments_of_first(rest.take(length as int), pieces, state.span.offset as nat);
            assert(split(rest).take(count + 1) =~= seq![rest.take(length as int)] + pieces);
        } else {
            assert(rest.take(length as int) == split(rest)[0]);
            assert(split(rest).take(1) =~= seq![rest.take(length as int)]);
        }
    }
}

/// A span before others that it adjoins.
proof fn lemma_tiles_together(
    first: Span,
    piece: Seq<u8>,
    spans: Seq<Span>,
    pieces: Seq<Seq<u8>>,
    complete: bool,
)
    requires
        first.source == TvbSource::Packet,
        first.length == piece.len(),
        adjoin(spans, first.offset + first.length),
        cover(spans, pieces, complete),
    ensures
        adjoin(seq![first] + spans, first.offset as int),
        cover(seq![first] + spans, seq![piece] + pieces, complete),
{
    let all = seq![first] + spans;
    assert(forall|i: int| 1 <= i < all.len() ==> #[trigger] all[i] == spans[i - 1]);
    assert forall|i: int, j: int| 0 <= i < all.len() - 1 && j == i + 1 implies (
    #[trigger] all[j]).offset == (#[trigger] all[i]).offset + all[i].length by {
        assert(all[j] == spans[i]);
    }
}

/// A trailing pad is last in two lists if the first has none.
proof fn lemma_trailing_pad_together(a: Seq<ActionModel>, b: Seq<ActionModel>)
    requires
        forall|i: int| 0 <= i < a.len() ==> !marks_trailing_pad(#[trigger] a[i]),
        trailing_pad_is_last(b),
    ensures
        trailing_pad_is_last(a + b),
{
    let both = a + b;
    assert forall|i: int, j: int|
        0 <= i < j < both.len() && marks_trailing_pad(
            #[trigger] both[i],
        ) implies !adds_component(#[trigger] both[j]) by {
        if i < a.len() {
            assert(both[i] == a[i]);
        } else {
            assert(both[i] == b[i - a.len()]);
            assert(both[j] == b[j - a.len()]);
        }
    }
}

/// A list that adds no component shows none.
proof fn lemma_nothing_shown(actions: Seq<ActionModel>)
    requires
        forall|i: int| 0 <= i < actions.len() ==> !adds_component(#[trigger] actions[i]),
    ensures
        shown_components(actions).len() == 0,
    decreases actions.len(),
{
    if actions.len() > 0 {
        let init = actions.drop_last();
        assert(forall|i: int| 0 <= i < init.len() ==> #[trigger] init[i] == actions[i]);
        lemma_nothing_shown(init);
    }
}

/// What is left at the start is all.
proof fn lemma_left_at_start(
    packet: Seq<u8>,
    replies: Seq<Option<Seq<u8>>>,
    outcomes: Seq<Outcome>,
)
    ensures
        left_of(initial_state(packet), packet.len() as usize, replies, outcomes) == dissection(
            packet,
            replies,
            outcomes,
        ),
{
    reveal(left_of);
}

/// The dissection succeeds on every packet, whatever its octets, unless the
/// reassembly table hands back a frame too short for two addresses and an
/// ethertype, or a dissector that a data unit is handed to fails. It then reports
/// all octets of the packet as dissected; none if the packet ends with an octet
/// that begins no component.
pub proof fn law_dissection_succeeds(
    packet: Seq<u8>,
    replies: Seq<Option<Seq<u8>>>,
    outcomes: Seq<Outcome>,
)
    requires
        packet.len() <= usize::MAX,
    ensures
        all_long_enough(replies) && none_fails(outcomes) ==> dissection(
            packet,
            replies,
            outcomes,
        ).result is Ok,
        dissection(packet, replies, outcomes).result matches Ok(dissected) ==> dissected
            == if cut_short(packet) {
            0
        } else {
            packet.len() as int
        },
{
    lemma_left_at_start(packet, replies, outcomes);
    lemma_ends_well(initial_state(packet), packet.len() as usize, replies, outcomes);
}

/// A dissector that fails on the data unit it is handed ends the dissection: its
/// error is the result, and nothing is asked for after the call.
pub proof fn law_failed_call_ends_dissection(
    packet: Seq<u8>,
    replies: Seq<Option<Seq<u8>>>,
    outcomes: Seq<Outcome>,
)
    requires
        packet.len() <= usize::MAX,
    ensures
        fails_with_its_calls(dissection(packet, replies, outcomes), outcomes),
{
    lemma_left_at_start(packet, replies, outcomes);
    lemma_ends_well(initial_state(packet), packet.len() as usize, replies, outcomes);
}

/// The summary is written if and only if the dissection succeeds up to the end
/// of the packet and no data was passed to another dissector, whose summary it
/// would overwrite. It is written last and names the components of the packet in
/// order, without those that are invalid.
pub proof fn law_summary_names_the_components(
    packet: Seq<u8>,
    replies: Seq<Option<Seq<u8>>>,
    outcomes: Seq<Outcome>,
)
    requires
        packet.len() <= usize::MAX,
    ensures
        ({
            let whole = dissection(packet, replies, outcomes);
            &&& writes_summary(whole.actions) <==> {
                &&& whole.result is Ok
                &&& !cut_short(packet)
                &&& !passes_on(whole.actions, outcomes)
            }
            &&& writes_summary(whole.actions) ==> whole.actions.last() == summary_of(
                names(split(packet)),
            )
        }),
{
    lemma_left_at_start(packet, replies, outcomes);
    let state = initial_state(packet);
    lemma_ends_well(state, packet.len() as usize, replies, outcomes);
    assert(state.components + names(split(packet)) =~= names(split(packet)));
}

/// The items of the components tile the packet: they are shown in order, each for
/// the octets of one component, from the first octet on and with no gap and no
/// overlap, up to the last octet if the dissection succeeds. There are at most
/// half as many as the packet has octets, rounded up, and none comes after a
/// trailing pad.
pub proof fn law_shown_components_tile_the_packet(
    packet: Seq<u8>,
    replies: Seq<Option<Seq<u8>>>,
    outcomes: Seq<Outcome>,
)
    requires
        packet.len() <= usize::MAX,
    ensures
        ({
            let whole = dissection(packet, replies, outcomes);
            let spans = shown_components(whole.actions);
            &&& adjoin(spans, 0)
            &&& cover(spans, split(packet), whole.result is Ok)
            &&& spans.len() > 0 ==> spans.last().offset + spans.last().length <= packet.len()
            &&& spans.len() > 0 && whole.result is Ok ==> spans.last().offset + spans.last().length
                == packet.len()
            &&& 2 * spans.len() <= packet.len() + 1
            &&& trailing_pad_is_last(whole.actions)
        }),
{
    law_component_count(packet);
    lemma_left_at_start(packet, replies, outcomes);
    lemma_shows_well(initial_state(packet), packet.len() as usize, replies, outcomes);
}

/// The fragments that go into the reassembly table are the frame fragments among
/// the components of the packet, in order and each once. They are all of them if
/// the dissection succeeds; if it ends early, those among the components that are
/// shown, which come first in the packet.
pub proof fn law_fragments_are_those_of_the_packet(
    packet: Seq<u8>,
    replies: Seq<Option<Seq<u8>>>,
    outcomes: Seq<Outcome>,
)
    requires
        packet.len() <= usize::MAX,
    ensures
        ({
            let whole = dissection(packet, replies, outcomes);
            let shown = shown_components(whole.actions).len() as int;
            &&& whole.fragments == fragments_of(split(packet).take(shown), 0)
            &&& whole.fragments.is_prefix_of(fragments_of(split(packet), 0))
            &&& whole.result is Ok ==> whole.fragments == fragments_of(split(packet), 0)
        }),
{
    lemma_left_at_start(packet, replies, outcomes);
    lemma_shows_well(initial_state(packet), packet.len() as usize, replies, outcomes);
    let whole = dissection(packet, replies, outcomes);
    let shown = shown_components(whole.actions).len() as int;
    lemma_fragments_of_some(split(packet), shown, 0);
    assert(split(packet).take(split(packet).len() as int) =~= split(packet));
}

/// A dissection goes component by component. Each fragment takes the next of the
/// replies and each call the next of the outcomes, and neither takes more.
pub proof fn law_dissection_by_components(
    state: MppduModel,
    captured: usize,
    replies: Seq<Option<Seq<u8>>>,
    outcomes: Seq<Outcome>,
)
    ensures
        ({
            let reply: Option<Seq<u8>> = if replies.len() > 0 {
                replies[0]
            } else {
                None
            };
            let outcome: Outcome = if outcomes.len() > 0 {
                outcomes[0]
            } else {
                Ok(None)
            };
            let whole = run(state, captured, replies, outcomes);
            let turn = whole_step_of(state, captured, reply, outcome);
            let asked = match step_of(state, captured).step {
                Step::Reassemble(fragment) => seq![fragment],
                _ => Seq::empty(),
            };
            let replies_left = if asked.len() > 0 && replies.len() > 0 {
                replies.skip(1)
            } else {
                replies
            };
            let outcomes_left = if call_count(turn.actions) > 0 && outcomes.len() > 0 {
                outcomes.skip(1)
            } else {
                outcomes
            };
            match turn.step {
                Step::Finished(dissected) => whole == (Run {
                    actions: turn.actions,
                    fragments: asked,
                    result: Ok(dissected),
                }),
                Step::Failed(error) => whole == (Run {
                    actions: turn.actions,
                    fragments: asked,
                    result: Err(error),
                }),
                Step::Continue => {
                    let next = run(turn.state, captured, replies_left, outcomes_left);
                    &&& whole.actions == turn.actions + next.actions
                    &&& whole.fragments == asked + next.fragments
                    &&& whole.result == next.result
                },
                _ => false,
            }
        }),
{
    lemma_run_by_turns(state, captured, replies, outcomes);
    lemma_turn_calls(state, captured, replies, outcomes);
    lemma_turn_goes_on(state, captured, replies, outcomes);
    let turn = turn_of(state, captured, replies, outcomes);
    assert(turn == whole_step_of(
        state,
        captured,
        reply_at(replies, 0),
        outcome_at(outcomes, 0),
    )) by {
        reveal(turn_of);
    }
    lemma_asked(state, captured);
    let later_replies = replies_after(state, captured, replies);
    let later_outcomes = outcomes_after(state, captured, replies, outcomes);
    if replies.len() > 0 {
        assert(later(replies) =~= replies.skip(1));
    }
    if outcomes.len() > 0 {
        assert(later(outcomes) =~= outcomes.skip(1));
    }
    assert(left_of(state, captured, replies, outcomes) == run(state, captured, replies, outcomes))
        by {
        reveal(left_of);
    }
    assert(left_of(turn.state, captured, later_replies, later_outcomes) == run(
        turn.state,
        captured,
        later_replies,
        later_outcomes,
    )) by {
        reveal(left_of);
    }
}

/// Which components ask for a fragment to be reassembled.
proof fn lemma_asked(state: MppduModel, captured: usize)
    ensures
        fragments_asked(state, captured) == match step_of(state, captured).step {
            Step::Reassemble(fragment) => seq![fragment],
            _ => Seq::empty(),
        },
        step_of(state, captured).step is Reassemble <==> state.rest.len() > 0 && kind_of(state.rest)
            == ComponentKind::FrameFragment,
{
    reveal(fragments_asked);
}

/// The dissection of a packet begins with all its octets, no component found and
/// nothing passed on.
pub proof fn law_dissection_begins_with_all(
    packet: Seq<u8>,
    replies: Seq<Option<Seq<u8>>>,
    outcomes: Seq<Outcome>,
    state: MppduModel,
)
    requires
        packet.len() <= usize::MAX,
        state.rest == packet,
        state.components.len() == 0,
        !state.subdissector_called,
        state.span.source == TvbSource::Packet,
        state.span.offset == 0,
        state.span.length == packet.len(),
    ensures
        dissection(packet, replies, outcomes) == run(
            state,
            packet.len() as usize,
            replies,
            outcomes,
        ),
{
    assert(state.components =~= initial_state(packet).components);
    assert(state == initial_state(packet));
}

/// Replies are taken with all their octets, in order.
pub proof fn law_replies_are_taken_whole(replies: Seq<Option<Vec<u8>>>, i: int)
    requires
        0 <= i < replies.len(),
    ensures
        reply_views(replies).len() == replies.len(),
        reply_views(replies)[i] is Some <==> replies[i] is Some,
        replies[i] matches Some(frame) ==> reply_views(replies)[i]->0 == frame@,
{
}

} // verus!
