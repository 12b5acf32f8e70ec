use vstd::prelude::*;

verus! {

/// Branch reporting mode advertised in the first packet.
#[derive(Debug, Clone, Copy, PartialEq, Eq, Structural)]
pub enum BrMode {
    /// Every control-flow change is reported with its target.
    BrTarget,
    /// Branch outcomes are reported against a shared prediction model.
    BrPredict,
}

pub const BP_MODE_MASK: u8 = 0b11;
pub const BP_ENTRY_MASK: u8 = 0b1111_1100;
pub const BP_ENTRY_OFFSET: u8 = 2;
pub const BP_BASE_VALUE: u64 = 64;

impl BrMode {
    /// Decode the two-bit branch-mode field; the codes 0b10 and 0b11 are
    /// reserved and fail decoding.
    pub open spec fn spec_from_bits(value: u64) -> Option<BrMode> {
        if value == 0b00 {
            Some(BrMode::BrTarget)
        } else if value == 0b01 {
            Some(BrMode::BrPredict)
        } else {
            None
        }
    }

    pub fn from_bits(value: u64) -> (r: Option<BrMode>)
        ensures
            r == BrMode::spec_from_bits(value),
    {
        if value == 0b00 {
            Some(BrMode::BrTarget)
        } else if value == 0b01 {
            Some(BrMode::BrPredict)
        } else {
            None
        }
    }
}

/// Decoder configuration carried by the first packet's runtime-config byte.
#[derive(Debug, Clone, Copy, PartialEq, Eq, Structural)]
pub struct DecoderRuntimeCfg {
    pub br_mode: BrMode,
    /// Number of predictor entries; a multiple of 64, zero when disabled.
    pub bp_entries: u64,
}

impl DecoderRuntimeCfg {
    /// The configuration a runtime-config byte stands for: bits [1:0] give
    /// the branch mode and bits [7:2] give the entry count divided by 64.
    pub open spec fn spec_from_byte(raw: u8) -> Option<DecoderRuntimeCfg> {
        match BrMode::spec_from_bits((raw & BP_MODE_MASK) as u64) {
            Some(mode) => Some(
                DecoderRuntimeCfg {
                    br_mode: mode,
                    bp_entries: (((raw & BP_ENTRY_MASK) >> BP_ENTRY_OFFSET) as u64 * BP_BASE_VALUE) as u64,
                },
            ),
            None => None,
        }
    }

    pub fn from_byte(raw: u8) -> (r: Option<DecoderRuntimeCfg>)
        ensures
            r == DecoderRuntimeCfg::spec_from_byte(raw),
    {
        match BrMode::from_bits((raw & BP_MODE_MASK) as u64) {
            Some(mode) => {
                let entries: u64 = ((raw & BP_ENTRY_MASK) >> BP_ENTRY_OFFSET) as u64;
                Some(DecoderRuntimeCfg { br_mode: mode, bp_entries: entries * BP_BASE_VALUE })
            },
            None => None,
        }
    }
}

} // verus!
