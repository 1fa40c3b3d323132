//! What a host can rely on when it performs the actions of a dissection.

use vstd::prelude::*;

use crate::component::{
    component_length, kind_of, law_component_length, law_payload_length, ComponentKind,
};
use crate::dissector::{
    handed_on_of, initial_state, resume_of, resumed_step_of, step_of, whole_step_of, Outcome, Step,
};
use crate::fragment::FragmentModel;
use crate::model::MppduModel;
use crate::plan::{ActionModel, Node, Op};
use crate::tvb::{Span, TvbSource};

verus! {

/// Whether `state` is one in the dissection of a packet of `captured` octets:
/// what is left to dissect is the end of the packet.
pub open spec fn is_state_of(state: MppduModel, captured: usize) -> bool {
    &&& state.span.source == TvbSource::Packet
    &&& state.span.length == state.rest.len()
    &&& state.span.offset + state.span.length == captured
}

/// Whether `span` lies within its buffer: a packet of `captured` octets, or the
/// reassembled frame, if there is one.
pub open spec fn lies_within(span: Span, captured: usize, reassembled: Option<Seq<u8>>) -> bool {
    match span.source {
        TvbSource::Packet => span.offset + span.length <= captured,
        TvbSource::Reassembled => reassembled matches Some(frame) && span.offset + span.length
            <= frame.len(),
    }
}

/// The octets that an action refers to.
pub open spec fn span_of(action: ActionModel) -> Option<Span> {
    match action {
        Op::Add { range, .. } => Some(range),
        Op::AddItem { range, .. } => Some(range),
        Op::CallEthertypeDissector { msdu, .. } => Some(msdu),
        _ => None,
    }
}

/// Whether all octets that actions refer to lie within their buffers.
pub open spec fn all_lie_within(
    actions: Seq<ActionModel>,
    captured: usize,
    reassembled: Option<Seq<u8>>,
) -> bool {
    forall|i: int|
        0 <= i < actions.len() && span_of(#[trigger] actions[i]) is Some ==> lies_within(
            span_of(actions[i])->0,
            captured,
            reassembled,
        )
}

/// The dissection of a packet begins in a state of that packet.
pub proof fn law_start_is_a_state(packet: Seq<u8>)
    requires
        packet.len() <= usize::MAX,
    ensures
        is_state_of(initial_state(packet), packet.len() as usize),
{
}

/// The actions of a step refer to octets of the packet only.
#[verifier::rlimit(40)]
proof fn lemma_step_lies_within(state: MppduModel, captured: usize)
    requires
        is_state_of(state, captured),
    ensures
        all_lie_within(step_of(state, captured).actions, captured, None),
{
    if state.rest.len() > 0 {
        law_component_length(state.rest);
        law_payload_length(state.rest);
    }
}

/// A step refers to octets of the packet only, and leaves a state of the packet.
/// So does the fragment that it asks to be reassembled.
pub proof fn law_step_stays_in_packet(state: MppduModel, captured: usize)
    requires
        is_state_of(state, captured),
    ensures
        ({
            let turn = step_of(state, captured);
            &&& all_lie_within(turn.actions, captured, None)
            &&& is_state_of(turn.state, captured)
            &&& turn.step matches Step::Reassemble(fragment) ==> {
                &&& lies_within(fragment.span, captured, None)
                &&& lies_within(fragment.data, captured, None)
                &&& fragment.data.length + crate::component::FRAGMENT_HEADER_LENGTH
                    == fragment.payload.len()
            }
            &&& !(turn.step is Failed)
        }),
{
    lemma_step_lies_within(state, captured);
    if state.rest.len() > 0 {
        law_component_length(state.rest);
        law_payload_length(state.rest);
    }
}

/// What follows a fragment refers to octets of the reassembled frame only, and
/// leaves a state of the packet.
pub proof fn law_resume_stays_in_frame(
    state: MppduModel,
    captured: usize,
    reassembled: Option<Seq<u8>>,
)
    requires
        is_state_of(state, captured),
        reassembled matches Some(frame) ==> frame.len() <= usize::MAX,
    ensures
        step_of(state, captured).step matches Step::Reassemble(fragment) ==> {
            let next = resume_of(step_of(state, captured).state, fragment, reassembled);
            &&& all_lie_within(next.actions, captured, reassembled)
            &&& is_state_of(next.state, captured)
        },
{
    if state.rest.len() > 0 {
        law_component_length(state.rest);
    }
}

/// What follows a call refers to no octets, and leaves a state of the packet
/// unless the call has failed. The component has the octets that it was said to
/// have.
pub proof fn law_handed_on_stays_in_packet(
    state: MppduModel,
    captured: usize,
    reassembled: Option<Seq<u8>>,
    outcome: Outcome,
)
    requires
        is_state_of(state, captured),
    ensures
        resumed_step_of(state, captured, reassembled).step matches Step::HandOn(length) ==> {
            let turn = resumed_step_of(state, captured, reassembled);
            let next = handed_on_of(turn.state, length, outcome);
            &&& length == component_length(state.rest)
            &&& forall|i: int|
                0 <= i < next.actions.len() ==> span_of(#[trigger] next.actions[i]) is None
            &&& next.step is Failed <==> outcome is Err
            &&& is_state_of(next.state, captured)
        },
{
    if state.rest.len() > 0 {
        law_component_length(state.rest);
        law_payload_length(state.rest);
    }
}

/// Whether the only call that `actions` make is the last one, and is made if and
/// only if its outcome is asked for.
pub open spec fn calls_last(actions: Seq<ActionModel>, asked: bool) -> bool {
    &&& asked ==> actions.len() > 0
    &&& forall|i: int|
        0 <= i < actions.len() ==> ((#[trigger] actions[i]) is CallEthertypeDissector <==> asked
            && i == actions.len() - 1)
}

/// A step, or what follows a fragment, hands a data unit to another dissector if
/// and only if it asks for the outcome. It does so once, as its last action.
pub proof fn law_calls_come_last(
    state: MppduModel,
    captured: usize,
    fragment: FragmentModel,
    reassembled: Option<Seq<u8>>,
)
    ensures
        calls_last(step_of(state, captured).actions, step_of(state, captured).step is HandOn),
        calls_last(
            resume_of(state, fragment, reassembled).actions,
            resume_of(state, fragment, reassembled).step is HandOn,
        ),
{
    if state.rest.len() > 0 {
        law_payload_length(state.rest);
    }
}

/// The node that an action needs to be there.
pub open spec fn needs(action: ActionModel) -> Option<Node> {
    match action {
        Op::Add { parent, .. } => Some(parent),
        Op::AddItem { parent, .. } => Some(parent),
        Op::AppendText { node, .. } => Some(node),
        Op::SetLength { node, .. } => Some(node),
        Op::AddExpertInfo { node, .. } => Some(node),
        Op::CallEthertypeDissector { fh_tree, .. } => Some(fh_tree),
        Op::SetColumnText { .. } | Op::SetFragmented { .. } => None,
    }
}

/// The node that an action creates.
pub open spec fn creates(action: ActionModel) -> Option<Node> {
    match action {
        Op::Add { node, .. } => Some(node),
        Op::AddItem { node, .. } => Some(node),
        _ => None,
    }
}

/// Whether the node that `actions[i]` needs is the root, or was created before
/// under a name that can be referred to.
pub open spec fn is_supplied(actions: Seq<ActionModel>, i: int) -> bool {
    needs(actions[i]) matches Some(node) ==> {
        ||| node == Node::Root
        ||| node != Node::Leaf && exists|j: int|
            0 <= j < i && creates(#[trigger] actions[j]) == Some(node)
    }
}

/// Whether `node` is the root, or is created by `actions` under a name that can be
/// referred to.
spec fn supplies(actions: Seq<ActionModel>, node: Node) -> bool {
    ||| node == Node::Root
    ||| node != Node::Leaf && exists|j: int|
        0 <= j < actions.len() && creates(#[trigger] actions[j]) == Some(node)
}

/// What two lists need is supplied if the first has what the second needs.
proof fn lemma_supplied_together(a: Seq<ActionModel>, b: Seq<ActionModel>, i: int)
    requires
        0 <= i < a.len() ==> is_supplied(a, i),
        forall|k: int|
            0 <= k < b.len() ==> (needs(#[trigger] b[k]) matches Some(node) ==> supplies(a, node)),
        0 <= i < a.len() + b.len(),
    ensures
        is_supplied(a + b, i),
{
    let both = a + b;
    if let Some(node) = needs(both[i]) {
        if i < a.len() {
            assert(both[i] == a[i]);
            if node != Node::Root {
                let j = choose|j: int| 0 <= j < i && creates(#[trigger] a[j]) == Some(node);
                assert(creates(both[j]) == Some(node));
            }
        } else {
            assert(both[i] == b[i - a.len()]);
            if node != Node::Root {
                let j = choose|j: int| 0 <= j < a.len() && creates(#[trigger] a[j]) == Some(node);
                assert(creates(both[j]) == Some(node));
            }
        }
    }
}

/// Every node that a step needs is the root, or one that it has created before.
proof fn lemma_step_is_supplied(state: MppduModel, captured: usize, i: int)
    requires
        0 <= i < step_of(state, captured).actions.len(),
    ensures
        is_supplied(step_of(state, captured).actions, i),
{
    let actions = step_of(state, captured).actions;
    if state.rest.len() > 0 {
        assert(creates(actions[0]) == Some(Node::Component));
        assert(creates(actions[1]) == Some(Node::TypeItem));
        match kind_of(state.rest) {
            ComponentKind::TrailingPad => {
                if actions.len() > 5 && creates(actions[5]) is Some {
                    assert(creates(actions[5]) == Some(Node::Pad));
                }
            },
            ComponentKind::EncapsulatedFrame => {
                assert(creates(actions[5]) == Some(Node::Frame));
            },
            ComponentKind::ExplicitPad => {
                assert(creates(actions[5]) == Some(Node::Pad));
            },
            ComponentKind::FrameFragment => {
                assert(creates(actions[5]) == Some(Node::Frame));
                assert(creates(actions[6]) == Some(Node::Flags));
            },
            ComponentKind::Invalid | ComponentKind::Truncated => {},
        }
    }
}

/// Every node that a step needs is the root, or one that the step has created
/// before. The same holds of all that follows it for the same component, together
/// with the step.
pub proof fn law_nodes_are_created_first(
    state: MppduModel,
    captured: usize,
    reassembled: Option<Seq<u8>>,
    outcome: Outcome,
    i: int,
)
    ensures
        0 <= i < step_of(state, captured).actions.len() ==> is_supplied(
            step_of(state, captured).actions,
            i,
        ),
        0 <= i < whole_step_of(state, captured, reassembled, outcome).actions.len() ==> is_supplied(
            whole_step_of(state, captured, reassembled, outcome).actions,
            i,
        ),
{
    let actions = step_of(state, captured).actions;
    let whole = whole_step_of(state, captured, reassembled, outcome).actions;
    if 0 <= i < actions.len() {
        lemma_step_is_supplied(state, captured, i);
    }
    if 0 <= i < whole.len() {
        let later = whole.skip(actions.len() as int);
        lemma_later_needs(state, captured, reassembled, outcome);
        lemma_supplied_together(actions, later, i);
    }
}

/// What follows a step for the same component needs nodes that the step has
/// created.
#[verifier::rlimit(40)]
proof fn lemma_later_needs(
    state: MppduModel,
    captured: usize,
    reassembled: Option<Seq<u8>>,
    outcome: Outcome,
)
    ensures
        ({
            let actions = step_of(state, captured).actions;
            let whole = whole_step_of(state, captured, reassembled, outcome).actions;
            let later = whole.skip(actions.len() as int);
            &&& actions.len() <= whole.len()
            &&& whole == actions + later
            &&& forall|k: int|
                0 <= k < later.len() ==> (needs(#[trigger] later[k]) matches Some(node)
                    ==> supplies(actions, node))
        }),
{
    let actions = step_of(state, captured).actions;
    let whole = whole_step_of(state, captured, reassembled, outcome).actions;
    let later = whole.skip(actions.len() as int);
    assert(whole =~= actions + later);
    if state.rest.len() > 0 {
        assert(supplies(actions, Node::Component)) by {
            assert(creates(actions[0]) == Some(Node::Component));
        }
        match kind_of(state.rest) {
            ComponentKind::EncapsulatedFrame | ComponentKind::FrameFragment => {
                assert(supplies(actions, Node::Frame)) by {
                    assert(creates(actions[5]) == Some(Node::Frame));
                }
            },
            _ => {
                assert(later =~= Seq::empty());
            },
        }
    } else {
        assert(later =~= Seq::empty());
    }
}

} // verus!
