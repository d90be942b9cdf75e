//! What the control thread tells the audio graph about a node.

use vstd::prelude::*;
use crate::param::AudioParamInner;

verus! {

/// Maximum number of channels of any audio buffer or device stream.
pub const MAX_CHANNELS: usize = 32;

/// Number of frames that one render quantum produces.
pub const RENDER_QUANTUM_SIZE: usize = 128;

/// How the channel count of a node's input follows its connections.
#[derive(Clone, Copy, Debug, PartialEq, Eq, Structural)]
pub enum ChannelCountMode {
    Max,
    ClampedMax,
    Explicit,
}

/// How channels are mixed when their number changes.
#[derive(Clone, Copy, Debug, PartialEq, Eq, Structural)]
pub enum ChannelInterpretation {
    Speakers,
    Discrete,
}

/// Channel settings of a node.
#[derive(Clone, Copy, Debug, PartialEq, Eq, Structural)]
pub struct ChannelConfig {
    pub channel_count: usize,
    pub channel_count_mode: ChannelCountMode,
    pub channel_interpretation: ChannelInterpretation,
}

/// The renderer of a node. `P` stands for a renderer that only the render thread understands.
#[derive(Debug)]
pub enum NodeProcessor<P> {
    /// passes its input to the speakers
    Destination,
    /// does nothing: the listener is in the graph to have its params render in order
    Listener,
    /// computes the value of an audio param
    Param(AudioParamInner),
    /// renderer of any other node
    Custom(P),
}

/// Number of ports and channel settings of a node.
#[derive(Clone, Copy, Debug, PartialEq, Eq, Structural)]
pub struct NodePorts {
    pub inputs: usize,
    pub outputs: usize,
    pub channel_config: ChannelConfig,
}

/// Ports of the destination node.
pub open spec fn destination_ports_spec(channel_count: usize) -> NodePorts {
    NodePorts {
        inputs: 1,
        outputs: 1,
        channel_config: ChannelConfig {
            channel_count,
            channel_count_mode: ChannelCountMode::Explicit,
            channel_interpretation: ChannelInterpretation::Speakers,
        },
    }
}

/// Returns the ports of the destination node.
pub fn destination_ports(channel_count: usize) -> (r: NodePorts)
    ensures
        r == destination_ports_spec(channel_count),
{
    NodePorts {
        inputs: 1,
        outputs: 1,
        channel_config: ChannelConfig {
            channel_count,
            channel_count_mode: ChannelCountMode::Explicit,
            channel_interpretation: ChannelInterpretation::Speakers,
        },
    }
}

/// Ports of an audio param, which is a mono node in the audio graph.
pub open spec fn param_ports_spec() -> NodePorts {
    NodePorts {
        inputs: 1,
        outputs: 1,
        channel_config: ChannelConfig {
            channel_count: 1,
            channel_count_mode: ChannelCountMode::Explicit,
            channel_interpretation: ChannelInterpretation::Discrete,
        },
    }
}

/// Returns the ports of an audio param.
pub fn param_ports() -> (r: NodePorts)
    ensures
        r == param_ports_spec(),
{
    NodePorts {
        inputs: 1,
        outputs: 1,
        channel_config: ChannelConfig {
            channel_count: 1,
            channel_count_mode: ChannelCountMode::Explicit,
            channel_interpretation: ChannelInterpretation::Discrete,
        },
    }
}

} // verus!
