use vstd::prelude::*;
use crate::insn::Insn;
use std::collections::HashMap;

verus! {

/// The disassembler walks a buffer greedily: at each position the low two
/// bits of the first byte decide whether it consumes two or four bytes.
/// This predicate says the walk never runs past the end of the buffer; the
/// disassembler reads the full two or four bytes of each step without a
/// bounds check, so a truncated tail must be excluded before calling it.
pub open spec fn dasm_walk_in_bounds(s: Seq<u8>, i: int) -> bool
    decreases s.len() - i,
{
    if i < 0 {
        false
    } else if i >= s.len() {
        true
    } else if s[i] & 3 < 3 {
        i + 2 <= s.len() && dasm_walk_in_bounds(s, i + 2)
    } else {
        i + 4 <= s.len() && dasm_walk_in_bounds(s, i + 4)
    }
}

#[verifier::external_type_specification]
#[verifier::external_body]
pub struct ExDisassembler(rvdasm::disassembler::Disassembler);

/// The instructions the disassembler finds in a byte buffer laid out at
/// `base`, keyed by address. Disassembly depends only on the register width
/// and the bytes, so the result carries a name rather than a description.
pub uninterp spec fn disasm_of(wide: bool, bytes: Seq<u8>, base: u64) -> Map<u64, Insn>;

/// The instruction the disassembler decodes from one 32-bit word, if any.
pub uninterp spec fn word_insn(wide: bool, raw: u32) -> Option<Insn>;

/// A disassembler for one register width.
pub(crate) struct Dasm {
    pub(crate) inner: rvdasm::disassembler::Disassembler,
    pub(crate) wide: Ghost<bool>,
}

impl Dasm {
    /// Whether this disassembler decodes the 64-bit instruction set.
    pub(crate) open spec fn spec_wide(&self) -> bool {
        self.wide@
    }

    /// Relies on rvdasm::disassembler::Disassembler::new, which only stores
    /// the register width.
    #[verifier::external_body]
    pub(crate) fn new(wide: bool) -> (r: Dasm)
        ensures
            r.spec_wide() == wide,
    {
        let xlen = if wide {
            rvdasm::disassembler::Xlen::XLEN64
        } else {
            rvdasm::disassembler::Xlen::XLEN32
        };
        Dasm { inner: rvdasm::disassembler::Disassembler::new(xlen), wide: Ghost(wide) }
    }

    /// Relies on rvdasm::disassembler::Disassembler::disassemble_each, which
    /// yields the instructions it decodes from the buffer laid out at `base`
    /// keyed by address; what it yields depends on the width, the bytes and
    /// the base alone. The decoded pairs land in `map`, overriding existing
    /// entries.
    ///
    /// The callee indexes two or four bytes per step with no bounds check
    /// and forms each address as the offset plus `base`, so a buffer with a
    /// truncated tail or a base that would push an address past the 64-bit
    /// range is excluded up front. Every decoded record's length is the two
    /// or four bytes its low bits imply.
    #[verifier::external_body]
    pub(crate) fn disassemble_into(&self, bytes: &[u8], base: u64, map: &mut HashMap<u64, Insn>)
        requires
            dasm_walk_in_bounds(bytes@, 0),
            base + bytes@.len() <= u64::MAX as int + 1,
        ensures
            final(map)@ == old(map)@.union_prefer_right(
                disasm_of(self.spec_wide(), bytes@, base),
            ),
            forall|a: u64|
                #[trigger] final(map)@.contains_key(a) ==> final(map)@[a] == old(map)@[a]
                    || final(map)@[a].len == 2 || final(map)@[a].len == 4,
    {
        self.inner.disassemble_each(bytes, base, |addr, insn| {
            map.insert(addr, Insn {
                len: insn.len,
                offset: insn.offset,
                is_branch: insn.is_branch(),
                is_direct_jump: insn.is_direct_jump(),
                is_indirect_jump: insn.is_indirect_jump(),
                name: insn.name.to_string(),
            });
        });
    }

    /// Relies on rvdasm::disassembler::Disassembler::disassmeble_one, which
    /// decodes a single 32-bit word; the result depends on the width and the
    /// word alone.
    #[verifier::external_body]
    pub(crate) fn disassemble_one(&self, raw: u32) -> (r: Option<Insn>)
        ensures
            r == word_insn(self.spec_wide(), raw),
    {
        self.inner.disassmeble_one(raw).map(
            |insn| Insn {
                len: insn.len,
                offset: insn.offset,
                is_branch: insn.is_branch(),
                is_direct_jump: insn.is_direct_jump(),
                is_indirect_jump: insn.is_indirect_jump(),
                name: insn.name.to_string(),
            },
        )
    }
}

} // verus!
