//! Messages from the control thread to the render thread.

use vstd::prelude::*;
use crate::ids::{AudioNodeId, node_contents};
use crate::node::{ChannelConfig, NodeProcessor};

verus! {

/// A message from the control thread to the render thread. `P` stands for what only the render
/// thread understands.
pub enum ControlMessage<P> {
    /// Hand over the audio graph and start rendering it
    Startup { graph: P },
    /// Add a node to the audio graph
    RegisterNode {
        id: AudioNodeId,
        /// comes back through the queue of decommissioned ids when the node is removed
        reclaim_id: llq::Node<u64>,
        node: NodeProcessor<P>,
        inputs: usize,
        outputs: usize,
        channel_config: ChannelConfig,
    },
    /// The control thread has dropped its last handle of a node
    ControlHandleDropped { id: AudioNodeId },
    /// A node can break a cycle
    MarkCycleBreaker { id: AudioNodeId },
    /// Connect an output port to an input port
    ConnectNode { from: AudioNodeId, to: AudioNodeId, input: usize, output: usize },
    /// Undo a connection
    DisconnectNode { from: AudioNodeId, to: AudioNodeId, input: usize, output: usize },
    /// Anything else, such as the requests to suspend, resume or close
    Render { payload: P },
}

/// A control message as contracts speak of it: the cell that carries an id back is the id in it.
pub enum MessageView<P> {
    Startup { graph: P },
    RegisterNode {
        id: AudioNodeId,
        reclaim_id: Seq<u64>,
        node: NodeProcessor<P>,
        inputs: usize,
        outputs: usize,
        channel_config: ChannelConfig,
    },
    ControlHandleDropped { id: AudioNodeId },
    MarkCycleBreaker { id: AudioNodeId },
    ConnectNode { from: AudioNodeId, to: AudioNodeId, input: usize, output: usize },
    DisconnectNode { from: AudioNodeId, to: AudioNodeId, input: usize, output: usize },
    Render { payload: P },
}

impl<P> View for ControlMessage<P> {
    type V = MessageView<P>;

    open spec fn view(&self) -> MessageView<P> {
        match *self {
            ControlMessage::Startup { graph } => MessageView::Startup { graph },
            ControlMessage::RegisterNode {
                id,
                reclaim_id,
                node,
                inputs,
                outputs,
                channel_config,
            } => MessageView::RegisterNode {
                id,
                reclaim_id: node_contents(reclaim_id),
                node,
                inputs,
                outputs,
                channel_config,
            },
            ControlMessage::ControlHandleDropped { id } => MessageView::ControlHandleDropped { id },
            ControlMessage::MarkCycleBreaker { id } => MessageView::MarkCycleBreaker { id },
            ControlMessage::ConnectNode { from, to, input, output } => MessageView::ConnectNode {
                from,
                to,
                input,
                output,
            },
            ControlMessage::DisconnectNode { from, to, input, output } =>
                MessageView::DisconnectNode { from, to, input, output },
            ControlMessage::Render { payload } => MessageView::Render { payload },
        }
    }
}

/// The views of a list of messages.
pub open spec fn message_views<P>(messages: Seq<ControlMessage<P>>) -> Seq<MessageView<P>> {
    messages.map_values(|m: ControlMessage<P>| m@)
}

/// Whether a message asks for a connection to the node `id`.
pub open spec fn connects_to<P>(message: MessageView<P>, id: AudioNodeId) -> bool {
    message matches MessageView::ConnectNode { to, .. } && to == id
}

impl<P> ControlMessage<P> {
    /// Tells whether the message asks for a connection to the node `id`.
    pub fn connects_to(&self, id: AudioNodeId) -> (r: bool)
        ensures
            r == connects_to(self@, id),
    {
        match self {
            ControlMessage::ConnectNode { to, .. } => *to == id,
            _ => false,
        }
    }
}

/// A message on its way to the render thread.
pub struct Outgoing<P> {
    pub message: ControlMessage<P>,
    /// Whether to try to send the message even if the render thread has stalled on an earlier one
    pub even_after_stall: bool,
}

/// A message on its way to the render thread, as contracts speak of it.
pub struct OutgoingView<P> {
    pub message: MessageView<P>,
    pub even_after_stall: bool,
}

impl<P> View for Outgoing<P> {
    type V = OutgoingView<P>;

    open spec fn view(&self) -> OutgoingView<P> {
        OutgoingView { message: self.message@, even_after_stall: self.even_after_stall }
    }
}

/// The views of a list of outgoing messages.
pub open spec fn outgoing_views<P>(outgoing: Seq<Outgoing<P>>) -> Seq<OutgoingView<P>> {
    outgoing.map_values(|o: Outgoing<P>| o@)
}

/// Messages put on their way to the render thread, all with the same rule for a stall.
pub open spec fn outgoing_of<P>(messages: Seq<MessageView<P>>, even_after_stall: bool) -> Seq<
    OutgoingView<P>,
> {
    messages.map_values(|m: MessageView<P>| OutgoingView { message: m, even_after_stall })
}

} // verus!
