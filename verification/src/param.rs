//! Audio params: what is known of them on the control thread.

use vstd::prelude::*;
use crate::ids::AudioNodeId;

verus! {

/// A single-precision number by its IEEE 754 bit pattern.
///
/// The library carries such numbers and never computes with them.
#[derive(Clone, Copy, Debug, PartialEq, Eq, Structural)]
pub struct Float32 {
    pub bits: u32,
}

/// Bit pattern of `0.`
pub const F32_ZERO: u32 = 0x0000_0000;

/// Bit pattern of `1.`
pub const F32_ONE: u32 = 0x3f80_0000;

/// Bit pattern of `-1.`
pub const F32_MINUS_ONE: u32 = 0xbf80_0000;

/// Bit pattern of `f32::MIN`, the lowest finite number
pub const F32_MIN: u32 = 0xff7f_ffff;

/// Bit pattern of `f32::MAX`, the highest finite number
pub const F32_MAX: u32 = 0x7f7f_ffff;

/// Handle that ties a control-thread node to its id in the audio graph.
#[derive(Clone, Copy, Debug, PartialEq, Eq, Structural)]
pub struct AudioContextRegistration {
    pub id: AudioNodeId,
}

impl AudioContextRegistration {
    /// Id of the node.
    pub fn id(&self) -> (r: AudioNodeId)
        ensures
            r == self.id,
    {
        self.id
    }
}

/// How often the value of an audio param is computed.
#[derive(Clone, Copy, Debug, PartialEq, Eq, Structural)]
pub enum AutomationRate {
    /// once per sample
    A,
    /// once per render quantum
    K,
}

/// Settings of an audio param.
#[derive(Debug)]
pub struct AudioParamDescriptor {
    pub name: String,
    pub automation_rate: AutomationRate,
    pub default_value: Float32,
    pub min_value: Float32,
    pub max_value: Float32,
}

/// The part of an audio param that does not depend on its registration.
#[derive(Clone, Copy, Debug, PartialEq, Eq, Structural)]
pub struct AudioParamInner {
    pub automation_rate: AutomationRate,
    pub default_value: Float32,
    pub min_value: Float32,
    pub max_value: Float32,
}

impl AudioParamDescriptor {
    /// The settings without the name.
    pub open spec fn inner_spec(self) -> AudioParamInner {
        AudioParamInner {
            automation_rate: self.automation_rate,
            default_value: self.default_value,
            min_value: self.min_value,
            max_value: self.max_value,
        }
    }

    /// Returns the settings without the name.
    pub fn inner(&self) -> (r: AudioParamInner)
        ensures
            r == self.inner_spec(),
    {
        AudioParamInner {
            automation_rate: self.automation_rate,
            default_value: self.default_value,
            min_value: self.min_value,
            max_value: self.max_value,
        }
    }
}

/// An audio param, as its owner on the control thread sees it.
#[derive(Clone, Copy, Debug, PartialEq, Eq, Structural)]
pub struct AudioParam {
    pub registration: AudioContextRegistration,
    pub raw_parts: AudioParamInner,
}

impl AudioParam {
    /// Registration of the param in the audio graph.
    pub fn registration(&self) -> (r: &AudioContextRegistration)
        ensures
            *r == self.registration,
    {
        &self.registration
    }

    /// Strips the registration.
    pub fn into_raw_parts(self) -> (r: AudioParamInner)
        ensures
            r == self.raw_parts,
    {
        self.raw_parts
    }

    /// Puts a param together again.
    pub fn from_raw_parts(registration: AudioContextRegistration, raw_parts: AudioParamInner) -> (r:
        Self)
        ensures
            r.registration == registration,
            r.raw_parts == raw_parts,
    {
        AudioParam { registration, raw_parts }
    }
}

} // verus!
