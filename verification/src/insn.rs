use vstd::prelude::*;

verus! {

broadcast use vstd::string::axiom_spec_iter, vstd::string::next_postcondition;

/// What the decoder reads of a decoded instruction: its length in bytes,
/// the signed pc-relative immediate of direct branches and jumps, the three
/// control-flow predicates, and the mnemonic.
///
/// The instruction indices hold one of these per executable address; the
/// disassembler that produces them is an external collaborator.
#[derive(Debug)]
pub struct Insn {
    /// Instruction length in bytes: 2 for compressed, 4 otherwise.
    pub len: u8,
    /// Signed pc-relative immediate; zero when the instruction has none.
    pub offset: i32,
    pub is_branch: bool,
    pub is_direct_jump: bool,
    pub is_indirect_jump: bool,
    /// Mnemonic, kept only for textual output.
    pub name: String,
}

impl Clone for Insn {
    fn clone(&self) -> (r: Self)
        ensures
            r == *self,
    {
        Insn {
            len: self.len,
            offset: self.offset,
            is_branch: self.is_branch,
            is_direct_jump: self.is_direct_jump,
            is_indirect_jump: self.is_indirect_jump,
            name: self.name.clone(),
        }
    }
}

impl Insn {
    /// A control-flow-change instruction: branch, direct jump or indirect jump.
    pub open spec fn spec_is_cfc(&self) -> bool {
        self.is_branch || self.is_direct_jump || self.is_indirect_jump
    }

    pub fn is_cfc_insn(&self) -> (r: bool)
        ensures
            r == self.spec_is_cfc(),
    {
        self.is_branch || self.is_direct_jump || self.is_indirect_jump
    }

    /// An atomic-memory instruction: a load-reserved, store-conditional or
    /// atomic-memory-operation mnemonic.
    pub open spec fn spec_is_atomic(&self) -> bool {
        let s = self.name@;
        s.len() >= 3 && ((s[0] == 'l' && s[1] == 'r' && s[2] == '.') || (s[0] == 's' && s[1] == 'c'
            && s[2] == '.') || (s[0] == 'a' && s[1] == 'm' && s[2] == 'o'))
    }

    pub fn is_atomic(&self) -> (r: bool)
        ensures
            r == self.spec_is_atomic(),
    {
        let mut it = self.name.as_str().chars();
        let c0 = match it.next() {
            Some(c) => c,
            None => {
                return false;
            },
        };
        let c1 = match it.next() {
            Some(c) => c,
            None => {
                return false;
            },
        };
        let c2 = match it.next() {
            Some(c) => c,
            None => {
                return false;
            },
        };
        (c0 == 'l' && c1 == 'r' && c2 == '.') || (c0 == 's' && c1 == 'c' && c2 == '.') || (c0 == 'a'
            && c1 == 'm' && c2 == 'o')
    }
}

} // verus!
