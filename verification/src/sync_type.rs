use vstd::prelude::*;

verus! {

/// Sub-function of an `FSync` packet.
#[derive(Debug, Clone, Copy, PartialEq, Eq, Structural)]
pub enum SyncType {
    SyncNone,
    SyncStart,
    SyncPeriodic,
    SyncEnd,
}

impl SyncType {
    /// Decode the three-bit sync sub-function field.
    pub open spec fn spec_from_bits(value: u8) -> Option<SyncType> {
        if value == 0b000 {
            Some(SyncType::SyncNone)
        } else if value == 0b001 {
            Some(SyncType::SyncStart)
        } else if value == 0b010 {
            Some(SyncType::SyncPeriodic)
        } else if value == 0b100 {
            Some(SyncType::SyncEnd)
        } else {
            None
        }
    }

    pub fn from_bits(value: u8) -> (r: Option<SyncType>)
        ensures
            r == SyncType::spec_from_bits(value),
    {
        if value == 0b000 {
            Some(SyncType::SyncNone)
        } else if value == 0b001 {
            Some(SyncType::SyncStart)
        } else if value == 0b010 {
            Some(SyncType::SyncPeriodic)
        } else if value == 0b100 {
            Some(SyncType::SyncEnd)
        } else {
            None
        }
    }
}

} // verus!
