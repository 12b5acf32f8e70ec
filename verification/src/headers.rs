use vstd::prelude::*;

verus! {

/// Two-bit compressed header in the low bits of a record's first byte.
#[derive(Debug, Clone, Copy, PartialEq, Eq, Structural)]
pub enum CHeader {
    /// Non-compressed record: a family header and a body follow.
    CNa,
    /// Compressed taken branch with an inline timestamp delta.
    CTb,
    /// Compressed not-taken branch with an inline timestamp delta.
    CNt,
    /// Compressed inferrable jump with an inline timestamp delta.
    CIj,
}

/// Three-bit family header of a non-compressed record.
#[derive(Debug, Clone, Copy, PartialEq, Eq, Structural)]
pub enum FHeader {
    FRes0,
    FTb,
    FNt,
    FUj,
    FIj,
    FTrap,
    FSync,
    FRes1,
}

pub const C_HEADER_MASK: u8 = 0b0000_0011;
pub const C_TIMESTAMP_MASK: u8 = 0b1111_1100;
pub const F_HEADER_MASK: u8 = 0b0001_1100;
pub const FHEADER_OFFSET: u8 = 2;
pub const SUB_FUNC_MASK: u8 = 0b1110_0000;
pub const SUB_FUNC_OFFSET: u8 = 5;

impl CHeader {
    /// Decode the two-bit compressed header field.
    pub open spec fn spec_from_bits(value: u8) -> CHeader {
        if value == 0b00 {
            CHeader::CNa
        } else if value == 0b01 {
            CHeader::CTb
        } else if value == 0b10 {
            CHeader::CNt
        } else {
            CHeader::CIj
        }
    }

    pub fn from_bits(value: u8) -> (r: CHeader)
        requires
            value < 4,
        ensures
            r == CHeader::spec_from_bits(value),
    {
        if value == 0b00 {
            CHeader::CNa
        } else if value == 0b01 {
            CHeader::CTb
        } else if value == 0b10 {
            CHeader::CNt
        } else {
            CHeader::CIj
        }
    }

    /// The family a compressed record stands for.
    pub open spec fn spec_family(self) -> FHeader {
        match self {
            CHeader::CNa => FHeader::FRes0,
            CHeader::CTb => FHeader::FTb,
            CHeader::CNt => FHeader::FNt,
            CHeader::CIj => FHeader::FIj,
        }
    }

    pub fn family(self) -> (r: FHeader)
        ensures
            r == self.spec_family(),
    {
        match self {
            CHeader::CNa => FHeader::FRes0,
            CHeader::CTb => FHeader::FTb,
            CHeader::CNt => FHeader::FNt,
            CHeader::CIj => FHeader::FIj,
        }
    }
}

impl FHeader {
    /// Decode the three-bit family header field. The codes 0b000 and 0b111
    /// are reserved and fail decoding.
    pub open spec fn spec_from_bits(value: u8) -> Option<FHeader> {
        if value == 0b001 {
            Some(FHeader::FTb)
        } else if value == 0b010 {
            Some(FHeader::FNt)
        } else if value == 0b011 {
            Some(FHeader::FUj)
        } else if value == 0b100 {
            Some(FHeader::FIj)
        } else if value == 0b101 {
            Some(FHeader::FTrap)
        } else if value == 0b110 {
            Some(FHeader::FSync)
        } else {
            None
        }
    }

    pub fn from_bits(value: u8) -> (r: Option<FHeader>)
        ensures
            r == FHeader::spec_from_bits(value),
    {
        if value == 0b001 {
            Some(FHeader::FTb)
        } else if value == 0b010 {
            Some(FHeader::FNt)
        } else if value == 0b011 {
            Some(FHeader::FUj)
        } else if value == 0b100 {
            Some(FHeader::FIj)
        } else if value == 0b101 {
            Some(FHeader::FTrap)
        } else if value == 0b110 {
            Some(FHeader::FSync)
        } else {
            None
        }
    }
}

} // verus!
