use vstd::prelude::*;

verus! {

/// Privilege level of the traced hart. `PrvHypervisor` is reserved by the
/// wire format and never emitted by the decoder.
#[derive(Debug, Clone, Copy, PartialEq, Eq, Structural)]
pub enum Prv {
    PrvUser,
    PrvSupervisor,
    PrvHypervisor,
    PrvMachine,
}

impl Prv {
    /// The three-bit encoding used by the privilege byte.
    pub open spec fn spec_bits(self) -> u64 {
        match self {
            Prv::PrvUser => 0b000,
            Prv::PrvSupervisor => 0b001,
            Prv::PrvHypervisor => 0b010,
            Prv::PrvMachine => 0b011,
        }
    }

    /// Decode a three-bit privilege field; values above 0b011 are invalid.
    pub open spec fn spec_from_bits(value: u64) -> Option<Prv> {
        if value == 0b000 {
            Some(Prv::PrvUser)
        } else if value == 0b001 {
            Some(Prv::PrvSupervisor)
        } else if value == 0b010 {
            Some(Prv::PrvHypervisor)
        } else if value == 0b011 {
            Some(Prv::PrvMachine)
        } else {
            None
        }
    }

    pub fn from_bits(value: u64) -> (r: Option<Prv>)
        ensures
            r == Prv::spec_from_bits(value),
    {
        if value == 0b000 {
            Some(Prv::PrvUser)
        } else if value == 0b001 {
            Some(Prv::PrvSupervisor)
        } else if value == 0b010 {
            Some(Prv::PrvHypervisor)
        } else if value == 0b011 {
            Some(Prv::PrvMachine)
        } else {
            None
        }
    }

    pub fn bits(self) -> (r: u64)
        ensures
            r == self.spec_bits(),
    {
        match self {
            Prv::PrvUser => 0b000,
            Prv::PrvSupervisor => 0b001,
            Prv::PrvHypervisor => 0b010,
            Prv::PrvMachine => 0b011,
        }
    }
}

} // verus!
