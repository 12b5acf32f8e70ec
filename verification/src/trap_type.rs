use vstd::prelude::*;

verus! {

/// Sub-function of an `FTrap` packet.
#[derive(Debug, Clone, Copy, PartialEq, Eq, Structural)]
pub enum TrapType {
    TNone,
    TException,
    TInterrupt,
    TReturn,
}

impl TrapType {
    /// Decode the three-bit trap sub-function field.
    pub open spec fn spec_from_bits(value: u8) -> Option<TrapType> {
        if value == 0b001 {
            Some(TrapType::TException)
        } else if value == 0b010 {
            Some(TrapType::TInterrupt)
        } else if value == 0b100 {
            Some(TrapType::TReturn)
        } else {
            None
        }
    }

    pub fn from_bits(value: u8) -> (r: Option<TrapType>)
        ensures
            r == TrapType::spec_from_bits(value),
    {
        if value == 0b001 {
            Some(TrapType::TException)
        } else if value == 0b010 {
            Some(TrapType::TInterrupt)
        } else if value == 0b100 {
            Some(TrapType::TReturn)
        } else {
            None
        }
    }
}

} // verus!
