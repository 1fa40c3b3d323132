//! What the host is asked to do with a packet.

use vstd::prelude::*;

use crate::tvb::Span;

verus! {

/// A column of the packet list.
#[derive(Clone, Copy, Debug, PartialEq, Eq, Structural)]
pub enum Column {
    /// The name of the protocol.
    Protocol,
    /// A summary of the packet.
    Info,
}

/// A place in the packet's tree.
///
/// An action that adds to the tree names the node it creates. Until another
/// action creates the same node again, the name stands for that item.
#[derive(Clone, Copy, Debug, PartialEq, Eq, Structural)]
pub enum Node {
    /// The tree that the dissector was given.
    Root,
    /// The component that is being dissected.
    Component,
    /// The item that shows the component's type.
    TypeItem,
    /// The encapsulated frame, frame fragment or reassembled frame.
    Frame,
    /// The flags of a frame fragment.
    Flags,
    /// The octets of a pad.
    Pad,
    /// An item that no later action refers to.
    Leaf,
}

/// One thing for the host to do. `N` is the type of fixed texts, `T` that of
/// texts which depend on the packet.
#[derive(Debug, PartialEq)]
pub enum Op<N, T> {
    /// Replace the text of a column.
    SetColumnText {
        /// The column.
        column: Column,
        /// The text.
        text: T,
    },
    /// Add an item that other items can be added below.
    Add {
        /// Where to add.
        parent: Node,
        /// The node that is created.
        node: Node,
        /// The field, and the subtree, by its registered name.
        name: N,
        /// The octets of the item.
        range: Span,
    },
    /// Add an item.
    AddItem {
        /// Where to add.
        parent: Node,
        /// The node that is created.
        node: Node,
        /// The field, by its registered name.
        name: N,
        /// The octets of the item.
        range: Span,
    },
    /// Append to the text of an item.
    AppendText {
        /// The item.
        node: Node,
        /// The text.
        text: T,
    },
    /// Set the number of octets that an item covers.
    SetLength {
        /// The item.
        node: Node,
        /// The number of octets.
        length: usize,
    },
    /// Attach a remark to an item.
    AddExpertInfo {
        /// The item.
        node: Node,
        /// The kind of remark, by its registered name.
        name: N,
        /// The remark.
        remark: N,
    },
    /// Mark the packet as one that holds a fragment.
    SetFragmented {
        /// Whether it does.
        fragmented: bool,
    },
    /// Hand a MAC service data unit to the dissector for its ethertype.
    CallEthertypeDissector {
        /// The octets of the data unit.
        msdu: Span,
        /// The ethertype.
        etype: u16,
        /// Number of octets before the payload.
        payload_offset: usize,
        /// The tree of the frame that the data unit comes from.
        fh_tree: Node,
        /// The field that shows a trailer, zero for none.
        trailer_id: i32,
        /// The length of the frame check sequence.
        fcs_len: i32,
    },
}

/// One thing for the host to do.
pub type Action = Op<&'static str, String>;

/// What an action says.
pub type ActionModel = Op<Seq<char>, Seq<char>>;

impl View for Op<&'static str, String> {
    type V = ActionModel;

    open spec fn view(&self) -> ActionModel {
        match *self {
            Op::SetColumnText { column, text } => Op::SetColumnText { column, text: text@ },
            Op::Add { parent, node, name, range } => Op::Add { parent, node, name: name@, range },
            Op::AddItem { parent, node, name, range } => Op::AddItem {
                parent,
                node,
                name: name@,
                range,
            },
            Op::AppendText { node, text } => Op::AppendText { node, text: text@ },
            Op::SetLength { node, length } => Op::SetLength { node, length },
            Op::AddExpertInfo { node, name, remark } => Op::AddExpertInfo {
                node,
                name: name@,
                remark: remark@,
            },
            Op::SetFragmented { fragmented } => Op::SetFragmented { fragmented },
            Op::CallEthertypeDissector {
                msdu,
                etype,
                payload_offset,
                fh_tree,
                trailer_id,
                fcs_len,
            } => Op::CallEthertypeDissector {
                msdu,
                etype,
                payload_offset,
                fh_tree,
                trailer_id,
                fcs_len,
            },
        }
    }
}

/// A list of actions.
///
/// The host performs them in order. At the first one that fails it stops, and
/// the dissection of the packet fails in the same way. A call of another dissector
/// is no exception: it comes last, and the dissection asks for its outcome.
#[derive(Debug)]
pub struct Plan {
    actions: Vec<Action>,
}

impl View for Plan {
    type V = Seq<ActionModel>;

    closed spec fn view(&self) -> Seq<ActionModel> {
        self.actions@.map_values(|action: Action| action@)
    }
}

impl Plan {
    /// A plan that asks for nothing.
    pub fn new() -> (plan: Plan)
        ensures
            plan@ == Seq::<ActionModel>::empty(),
    {
        let plan = Plan { actions: Vec::new() };
        proof {
            assert(plan@ =~= Seq::<ActionModel>::empty());
        }
        plan
    }

    /// Asks for one more action.
    pub fn push(&mut self, action: Action)
        ensures
            final(self)@ == old(self)@.push(action@),
    {
        self.actions.push(action);
        proof {
            assert(self@ =~= old(self)@.push(action@));
        }
    }

    /// The actions, in order.
    pub fn into_actions(self) -> (actions: Vec<Action>)
        ensures
            actions@.map_values(|action: Action| action@) == self@,
    {
        self.actions
    }

    /// Asks for a column's text.
    pub fn set_column_text(&mut self, column: Column, text: String)
        ensures
            final(self)@ == old(self)@.push(Op::SetColumnText { column, text: text@ }),
    {
        self.push(Op::SetColumnText { column, text });
    }

    /// Asks for an item that others can be added below.
    pub fn add(&mut self, parent: Node, node: Node, name: &'static str, range: Span)
        ensures
            final(self)@ == old(self)@.push(Op::Add { parent, node, name: name@, range }),
    {
        self.push(Op::Add { parent, node, name, range });
    }

    /// Asks for an item.
    pub fn add_item(&mut self, parent: Node, node: Node, name: &'static str, range: Span)
        ensures
            final(self)@ == old(self)@.push(Op::AddItem { parent, node, name: name@, range }),
    {
        self.push(Op::AddItem { parent, node, name, range });
    }

    /// Asks for more text on an item.
    pub fn append_text(&mut self, node: Node, text: String)
        ensures
            final(self)@ == old(self)@.push(Op::AppendText { node, text: text@ }),
    {
        self.push(Op::AppendText { node, text });
    }

    /// Asks for another length of an item.
    pub fn set_length(&mut self, node: Node, length: usize)
        ensures
            final(self)@ == old(self)@.push(Op::SetLength { node, length }),
    {
        self.push(Op::SetLength { node, length });
    }

    /// Asks for a remark on an item.
    pub fn add_expert_info(&mut self, node: Node, name: &'static str, remark: &'static str)
        ensures
            final(self)@ == old(self)@.push(
                Op::AddExpertInfo { node, name: name@, remark: remark@ },
            ),
    {
        self.push(Op::AddExpertInfo { node, name, remark });
    }
}

/// An action says what it holds, part by part.
pub proof fn law_action_says_what_it_holds(action: Action)
    ensures
        match action {
            Op::SetColumnText { column, text } => action@ == (Op::<
                Seq<char>,
                Seq<char>,
            >::SetColumnText { column, text: text@ }),
            Op::Add { parent, node, name, range } => action@ == (Op::<Seq<char>, Seq<char>>::Add {
                parent,
                node,
                name: name@,
                range,
            }),
            Op::AddItem { parent, node, name, range } => action@ == (Op::<
                Seq<char>,
                Seq<char>,
            >::AddItem { parent, node, name: name@, range }),
            Op::AppendText { node, text } => action@ == (Op::<Seq<char>, Seq<char>>::AppendText {
                node,
                text: text@,
            }),
            Op::SetLength { node, length } => action@ == (Op::<Seq<char>, Seq<char>>::SetLength {
                node,
                length,
            }),
            Op::AddExpertInfo { node, name, remark } => action@ == (Op::<
                Seq<char>,
                Seq<char>,
            >::AddExpertInfo { node, name: name@, remark: remark@ }),
            Op::SetFragmented { fragmented } => action@ == (Op::<
                Seq<char>,
                Seq<char>,
            >::SetFragmented { fragmented }),
            Op::CallEthertypeDissector {
                msdu,
                etype,
                payload_offset,
                fh_tree,
                trailer_id,
                fcs_len,
            } => action@ == (Op::<Seq<char>, Seq<char>>::CallEthertypeDissector {
                msdu,
                etype,
                payload_offset,
                fh_tree,
                trailer_id,
                fcs_len,
            }),
        },
{
}

} // verus!
