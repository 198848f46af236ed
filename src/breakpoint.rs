//! Kinds of hardware trigger that a breakpoint can use.
use vstd::prelude::*;

verus! {

/// Trigger-type code of the MCD API for an instruction-pointer trigger.
pub const MCD_TRIG_TYPE_IP: u32 = 0x1;

/// Trigger-type code of the MCD API for a read/write data trigger.
pub const MCD_TRIG_TYPE_RW: u32 = 0x8;

/// What a trigger fires on.
#[derive(Debug, Clone, Copy, PartialEq, Eq, Structural)]
pub enum TriggerType {
    /// A read or write access to data.
    RW,
    /// Execution of an instruction.
    IP,
}

impl TriggerType {
    /// The MCD API trigger-type code of this kind.
    pub fn as_type(&self) -> (r: u32)
        ensures
            *self == TriggerType::RW ==> r == MCD_TRIG_TYPE_RW,
            *self == TriggerType::IP ==> r == MCD_TRIG_TYPE_IP,
    {
        match self {
            TriggerType::RW => MCD_TRIG_TYPE_RW,
            TriggerType::IP => MCD_TRIG_TYPE_IP,
        }
    }
}

} // verus!
