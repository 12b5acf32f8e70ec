use vstd::prelude::*;

verus! {

/// Context-tracking mode advertised by the target.
#[derive(Debug, Clone, Copy, PartialEq, Eq, Structural)]
pub enum CtxMode {
    /// Baremetal, no context.
    CtxBare,
    /// User-space only context.
    CtxUser,
    /// Watch for a specific context.
    CtxWatch,
    /// All contexts.
    CtxAll,
}

impl CtxMode {
    /// Decode the two-bit context-mode field.
    pub open spec fn spec_from_bits(value: u64) -> Option<CtxMode> {
        if value == 0b00 {
            Some(CtxMode::CtxBare)
        } else if value == 0b01 {
            Some(CtxMode::CtxUser)
        } else if value == 0b10 {
            Some(CtxMode::CtxWatch)
        } else if value == 0b11 {
            Some(CtxMode::CtxAll)
        } else {
            None
        }
    }

    pub fn from_bits(value: u64) -> (r: Option<CtxMode>)
        ensures
            r == CtxMode::spec_from_bits(value),
    {
        if value == 0b00 {
            Some(CtxMode::CtxBare)
        } else if value == 0b01 {
            Some(CtxMode::CtxUser)
        } else if value == 0b10 {
            Some(CtxMode::CtxWatch)
        } else if value == 0b11 {
            Some(CtxMode::CtxAll)
        } else {
            None
        }
    }
}

} // verus!
