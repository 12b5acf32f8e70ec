use vstd::prelude::*;

verus! {

/// Width of the target's physical address space in bits.
pub const ADDR_BITS: u64 = 40;

/// Mask selecting the low `ADDR_BITS` bits of an address.
pub const ADDR_MASK: u64 = 0xff_ffff_ffff;

/// Mask of ones filling the bits above `ADDR_BITS` after a left shift by
/// `ADDR_BITS`.
pub const SIGNED_ADDR_EXTENDER_MASK: u64 = 0xff_ffff;

pub const UNSIGNED_ADDR_EXTENDER_MASK: u64 = 0x0;

/// Sign extension from bit `ADDR_BITS - 1`: a 40-bit value with its top bit
/// set has all bits above it filled with ones; any other value is returned
/// unchanged.
pub open spec fn sign_extend_40(a: u64) -> u64 {
    if a >> 39 == 1 {
        a | 0xffff_ff00_0000_0000
    } else {
        a
    }
}

/// The sign-extended address a wire address stands for: addresses travel
/// shifted right by one, so the decoder shifts left and sign extends.
pub open spec fn spec_refund(addr: u64) -> u64 {
    sign_extend_40(addr << 1)
}

/// Internal program counter. The stored value is the shifted form; it is
/// sign extended from bit `ADDR_BITS - 1` on observation.
#[derive(Debug, Clone, Copy, PartialEq, Eq, Structural)]
pub struct PC {
    pub addr: u64,
}

impl PC {
    pub fn new(unshifted_addr: u64) -> (r: PC)
        ensures
            r.addr == unshifted_addr << 1,
    {
        PC { addr: unshifted_addr << 1 }
    }

    /// Decode the target of an indirect jump or trap: the packet carries the
    /// new address xored with the current one, both shifted and truncated to
    /// the 40-bit address space.
    pub fn compute_from_xored_target_addr(&mut self, target_addr: u64) -> (r: u64)
        ensures
            *final(self) == *old(self),
            r == (old(self).addr & ADDR_MASK) ^ (target_addr << 1),
    {
        let refunded_delta = target_addr << 1;
        let xored_addr = (self.addr & ADDR_MASK) ^ refunded_delta;
        xored_addr
    }

    pub fn get_addr(&self) -> (r: u64)
        ensures
            r == sign_extend_40(self.addr),
    {
        let sign_bit = self.addr >> (ADDR_BITS - 1) as u64;
        let extender = if sign_bit == 1 {
            SIGNED_ADDR_EXTENDER_MASK
        } else {
            UNSIGNED_ADDR_EXTENDER_MASK
        };
        let extended_addr = self.addr | (extender << ADDR_BITS);
        proof {
            let a = self.addr;
            assert(extended_addr == sign_extend_40(a)) by (bit_vector)
                requires
                    extender == (if a >> 39 == 1 {
                        0xff_ffffu64
                    } else {
                        0u64
                    }),
                    extended_addr == a | (extender << 40),
            ;
        }
        extended_addr
    }

    pub fn set_addr(&mut self, addr: u64)
        ensures
            final(self).addr == addr,
    {
        self.addr = addr;
    }
}

/// Shift a wire address left by one and sign extend it from bit
/// `ADDR_BITS - 1`.
pub fn refund_addr(addr: u64) -> (r: u64)
    ensures
        r == spec_refund(addr),
{
    let shifted_addr = addr << 1;
    let sign_bit = shifted_addr >> (ADDR_BITS - 1) as u64;
    let extender = if sign_bit == 1 {
        SIGNED_ADDR_EXTENDER_MASK
    } else {
        UNSIGNED_ADDR_EXTENDER_MASK
    };
    let extended_addr = shifted_addr | (extender << ADDR_BITS);
    proof {
        assert(extended_addr == sign_extend_40(shifted_addr)) by (bit_vector)
            requires
                extender == (if shifted_addr >> 39 == 1 {
                    0xff_ffffu64
                } else {
                    0u64
                }),
                extended_addr == shifted_addr | (extender << 40),
        ;
    }
    extended_addr
}

/// Refunding is the inverse of the encoder's shift: for an even 40-bit
/// address, stripping the low bit of its sign-extended form and refunding
/// the result gives the sign-extended form back. An odd address is the one
/// kind of input on which this fails, since the wire format drops the low
/// bit.
pub proof fn lemma_refund_round_trip(x: u64)
    requires
        x <= 0xff_ffff_ffff,
        x & 1 == 0,
    ensures
        spec_refund(sign_extend_40(x) >> 1) == sign_extend_40(x),
{
    assert(sign_extend_40((sign_extend_40(x) >> 1) << 1) == sign_extend_40(x)) by (bit_vector)
        requires
            x <= 0xff_ffff_ffffu64,
            x & 1 == 0u64,
    ;
}

/// The delta-xor codec is its own inverse: applying the same key twice gives
/// the original 40-bit address back.
pub proof fn lemma_xor_codec_self_inverse(pc: u64, t: u64)
    ensures
        ((pc & ADDR_MASK) ^ t) ^ t == pc & ADDR_MASK,
{
    assert(((pc & 0xff_ffff_ffffu64) ^ t) ^ t == pc & 0xff_ffff_ffffu64) by (bit_vector);
}

} // verus!
