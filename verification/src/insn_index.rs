use vstd::prelude::*;
use crate::dasm::{dasm_walk_in_bounds, disasm_of, word_insn, Dasm};
use crate::insn::Insn;
use crate::prv::Prv;
use std::collections::HashMap;

verus! {

broadcast use vstd::std_specs::hash::group_hash_axioms;

/// One executable section of a binary image, as raw bytes laid out from
/// `base`.
pub struct SectionData {
    pub base: u64,
    pub bytes: Vec<u8>,
}

/// Why the instruction index could not be built.
#[derive(Debug, Clone, Copy, PartialEq, Eq, Structural)]
pub enum IndexBuildError {
    /// The machine-mode image yielded no instructions.
    NoMachineInstructions,
    /// A user image yielded no instructions.
    NoUserInstructions,
    /// The kernel image yielded no instructions.
    NoKernelInstructions,
    /// A section ends in a truncated instruction, or its addresses run past
    /// the 64-bit range; the disassembler cannot walk it.
    TruncatedSection,
}

/// A section the disassembler can walk: its bytes end on an instruction
/// boundary and its last address fits the 64-bit range.
pub open spec fn spec_section_ok(s: &SectionData) -> bool {
    dasm_walk_in_bounds(s.bytes@, 0) && s.base + s.bytes@.len() <= u64::MAX as int + 1
}

pub open spec fn spec_sections_ok(sections: Seq<SectionData>) -> bool {
    forall|i: int| 0 <= i < sections.len() ==> spec_section_ok(&sections[i])
}

/// Check one buffer against the disassembler's greedy two-or-four-byte
/// walk.
pub fn check_dasm_walk(bytes: &[u8]) -> (r: bool)
    ensures
        r == dasm_walk_in_bounds(bytes@, 0),
{
    let n = bytes.len();
    let mut i: usize = 0;
    while i < n
        invariant
            i <= n,
            n == bytes@.len(),
            dasm_walk_in_bounds(bytes@, 0) == dasm_walk_in_bounds(bytes@, i as int),
        decreases n - i,
    {
        if bytes[i] & 3 < 3 {
            if n - i < 2 {
                return false;
            }
            i = i + 2;
        } else {
            if n - i < 4 {
                return false;
            }
            i = i + 4;
        }
    }
    true
}

/// Check a run of sections is walkable.
pub fn sections_ok(sections: &Vec<SectionData>) -> (r: bool)
    ensures
        r == spec_sections_ok(sections@),
{
    let mut k: usize = 0;
    while k < sections.len()
        invariant
            k <= sections@.len(),
            forall|j: int| 0 <= j < k ==> spec_section_ok(&sections@[j]),
        decreases sections@.len() - k,
    {
        let section = &sections[k];
        if !check_dasm_walk(section.bytes.as_slice()) {
            return false;
        }
        let len = section.bytes.len();
        if len > 0 && section.base > u64::MAX - (len as u64 - 1) {
            return false;
        }
        k = k + 1;
    }
    true
}

/// A user binary and the address space it runs in.
pub struct UserBinary {
    pub ctx: u64,
    pub sections: Vec<SectionData>,
}

/// The instructions of a run of sections, disassembled in order on top of
/// `acc`; a later section overrides earlier ones where they overlap.
pub open spec fn sections_union(wide: bool, sections: Seq<SectionData>, acc: Map<u64, Insn>) -> Map<
    u64,
    Insn,
>
    decreases sections.len(),
{
    if sections.len() == 0 {
        acc
    } else {
        sections_union(
            wide,
            sections.skip(1),
            acc.union_prefer_right(disasm_of(wide, sections[0].bytes@, sections[0].base)),
        )
    }
}

/// Disassemble every section into `map`, in order.
fn add_sections(dasm: &Dasm, sections: &Vec<SectionData>, map: &mut HashMap<u64, Insn>)
    requires
        spec_sections_ok(sections@),
    ensures
        final(map)@ == sections_union(dasm.spec_wide(), sections@, old(map)@),
{
    let mut k: usize = 0;
    proof {
        assert(sections@.skip(0) =~= sections@);
    }
    while k < sections.len()
        invariant
            k <= sections@.len(),
            spec_sections_ok(sections@),
            sections_union(dasm.spec_wide(), sections@.skip(k as int), map@) == sections_union(
                dasm.spec_wide(),
                sections@,
                old(map)@,
            ),
        decreases sections@.len() - k,
    {
        let section = &sections[k];
        dasm.disassemble_into(section.bytes.as_slice(), section.base, map);
        k = k + 1;
        proof {
            assert(sections@.skip(k - 1)[0] == sections@[k - 1]);
            assert(sections@.skip(k - 1).skip(1) =~= sections@.skip(k as int));
        }
    }
    proof {
        assert(sections@.skip(sections@.len() as int) =~= Seq::<SectionData>::empty());
    }
}

/// The numeric value of one hexadecimal digit character.
pub open spec fn spec_hex_digit(c: u8) -> Option<u8> {
    if 48 <= c <= 57 {
        Some((c - 48) as u8)
    } else if 97 <= c <= 102 {
        Some((c - 87) as u8)
    } else if 65 <= c <= 70 {
        Some((c - 55) as u8)
    } else {
        None
    }
}

/// Fold hexadecimal digits into `acc`; a non-digit or a value past 64 bits
/// spoils the whole run.
pub open spec fn spec_parse_hex_from(s: Seq<u8>, acc: u64) -> Option<u64>
    decreases s.len(),
{
    if s.len() == 0 {
        Some(acc)
    } else {
        match spec_hex_digit(s[0]) {
            None => None,
            Some(d) => if acc > (u64::MAX - d) / 16 {
                None
            } else {
                spec_parse_hex_from(s.skip(1), (16 * acc + d) as u64)
            },
        }
    }
}

/// The value of a non-empty run of hexadecimal digits, if it fits in 64
/// bits.
pub open spec fn spec_parse_hex(s: Seq<u8>) -> Option<u64> {
    if s.len() == 0 {
        None
    } else {
        spec_parse_hex_from(s, 0)
    }
}

/// Parse a run of hexadecimal digits.
pub fn parse_hex(bytes: &[u8], start: usize, end: usize) -> (r: Option<u64>)
    requires
        start <= end <= bytes@.len(),
    ensures
        r == spec_parse_hex(bytes@.subrange(start as int, end as int)),
{
    if start == end {
        return None;
    }
    let ghost whole = bytes@.subrange(start as int, end as int);
    let mut acc: u64 = 0;
    let mut i: usize = start;
    while i < end
        invariant
            start <= i <= end <= bytes@.len(),
            spec_parse_hex_from(whole, 0) == spec_parse_hex_from(
                bytes@.subrange(i as int, end as int),
                acc,
            ),
            whole == bytes@.subrange(start as int, end as int),
        decreases end - i,
    {
        let c = bytes[i];
        let d: u64 = if 48 <= c && c <= 57 {
            (c - 48) as u64
        } else if 97 <= c && c <= 102 {
            (c - 87) as u64
        } else if 65 <= c && c <= 70 {
            (c - 55) as u64
        } else {
            proof {
                assert(bytes@.subrange(i as int, end as int)[0] == c);
            }
            return None;
        };
        proof {
            assert(bytes@.subrange(i as int, end as int)[0] == c);
            assert(bytes@.subrange(i as int, end as int).skip(1) =~= bytes@.subrange(
                i + 1,
                end as int,
            ));
        }
        if acc > (u64::MAX - d) / 16 {
            return None;
        }
        acc = 16 * acc + d;
        i = i + 1;
    }
    proof {
        assert(bytes@.subrange(end as int, end as int) =~= Seq::<u8>::empty());
    }
    Some(acc)
}

/// Index of the first comma at or after `i`.
pub open spec fn spec_find_comma(s: Seq<u8>, i: int) -> Option<int>
    decreases s.len() - i,
{
    if i < 0 || i >= s.len() {
        None
    } else if s[i] == 44 {
        Some(i)
    } else {
        spec_find_comma(s, i + 1)
    }
}

/// A kernel jump-label patch entry: a hexadecimal address and a hexadecimal
/// 32-bit raw instruction word, separated by the first comma.
pub open spec fn spec_parse_patch_line(s: Seq<u8>) -> Option<(u64, u32)> {
    match spec_find_comma(s, 0) {
        None => None,
        Some(comma) => match (spec_parse_hex(s.subrange(0, comma)), spec_parse_hex(
            s.subrange(comma + 1, s.len() as int),
        )) {
            (Some(addr), Some(raw)) => if raw <= u32::MAX {
                Some((addr, raw as u32))
            } else {
                None
            },
            _ => None,
        },
    }
}

/// Parse one patch-log line; a malformed line gives nothing and is skipped
/// by the caller.
pub fn parse_patch_line(line: &[u8]) -> (r: Option<(u64, u32)>)
    ensures
        r == spec_parse_patch_line(line@),
{
    let mut comma: usize = 0;
    loop
        invariant_except_break
            comma <= line@.len(),
            spec_find_comma(line@, 0) == spec_find_comma(line@, comma as int),
        ensures
            comma < line@.len(),
            spec_find_comma(line@, 0) == Some(comma as int),
        decreases line@.len() - comma,
    {
        if comma >= line.len() {
            return None;
        }
        if line[comma] == 44 {
            break;
        }
        comma = comma + 1;
    }
    let addr = match parse_hex(line, 0, comma) {
        Some(v) => v,
        None => {
            return None;
        },
    };
    let line_len = line.len();
    let raw = match parse_hex(line, comma + 1, line_len) {
        Some(v) => v,
        None => {
            return None;
        },
    };
    if raw <= 0xffff_ffff {
        Some((addr, raw as u32))
    } else {
        None
    }
}

/// The kernel map after a run of patch-log lines: each well-formed line
/// whose raw word disassembles replaces the instruction at its address;
/// malformed lines and undecodable words are skipped.
pub open spec fn spec_apply_patches(wide: bool, lines: Seq<Vec<u8>>, m: Map<u64, Insn>) -> Map<
    u64,
    Insn,
>
    decreases lines.len(),
{
    if lines.len() == 0 {
        m
    } else {
        let m1 = match spec_parse_patch_line(lines[0]@) {
            None => m,
            Some((addr, raw)) => match word_insn(wide, raw) {
                None => m,
                Some(insn) => m.insert(addr, insn),
            },
        };
        spec_apply_patches(wide, lines.skip(1), m1)
    }
}

/// Apply a kernel jump-label patch log to the kernel map.
fn apply_patches(dasm: &Dasm, lines: &Vec<Vec<u8>>, map: &mut HashMap<u64, Insn>)
    ensures
        final(map)@ == spec_apply_patches(dasm.spec_wide(), lines@, old(map)@),
{
    let mut k: usize = 0;
    proof {
        assert(lines@.skip(0) =~= lines@);
    }
    while k < lines.len()
        invariant
            k <= lines@.len(),
            spec_apply_patches(dasm.spec_wide(), lines@.skip(k as int), map@)
                == spec_apply_patches(dasm.spec_wide(), lines@, old(map)@),
        decreases lines@.len() - k,
    {
        let line = &lines[k];
        match parse_patch_line(line.as_slice()) {
            None => {},
            Some((addr, raw)) => {
                match dasm.disassemble_one(raw) {
                    None => {},
                    Some(insn) => {
                        map.insert(addr, insn);
                    },
                }
            },
        }
        k = k + 1;
        proof {
            assert(lines@.skip(k - 1)[0] == lines@[k - 1]);
            assert(lines@.skip(k - 1).skip(1) =~= lines@.skip(k as int));
        }
    }
    proof {
        assert(lines@.skip(lines@.len() as int) =~= Seq::<Vec<u8>>::empty());
    }
}

/// Per-privilege, per-address-space map from address to decoded
/// instruction. User space has one map per address-space identifier;
/// supervisor and machine space have one each. Immutable once built.
pub struct InstructionIndex {
    pub u_insn_maps: HashMap<u64, HashMap<u64, Insn>>,
    pub k_insn_map: HashMap<u64, Insn>,
    pub m_insn_map: HashMap<u64, Insn>,
    pub empty_map: HashMap<u64, Insn>,
}

impl InstructionIndex {
    /// The spare map handed out for unindexed address spaces is empty.
    pub open spec fn wf(&self) -> bool {
        self.empty_map@ == Map::<u64, Insn>::empty()
    }

    /// The instructions visible at one privilege level in one address
    /// space; an unindexed user address space sees no instructions.
    pub open spec fn spec_map_for(&self, space: Prv, ctx: u64) -> Map<u64, Insn> {
        match space {
            Prv::PrvUser => if self.u_insn_maps@.contains_key(ctx) {
                self.u_insn_maps@[ctx]@
            } else {
                Map::<u64, Insn>::empty()
            },
            Prv::PrvSupervisor => self.k_insn_map@,
            Prv::PrvMachine => self.m_insn_map@,
            Prv::PrvHypervisor => Map::<u64, Insn>::empty(),
        }
    }

    /// An index with no instructions at all.
    pub fn new() -> (r: InstructionIndex)
        ensures
            r.wf(),
            r.u_insn_maps@ == Map::<u64, HashMap<u64, Insn>>::empty(),
            r.k_insn_map@ == Map::<u64, Insn>::empty(),
            r.m_insn_map@ == Map::<u64, Insn>::empty(),
    {
        InstructionIndex {
            u_insn_maps: HashMap::new(),
            k_insn_map: HashMap::new(),
            m_insn_map: HashMap::new(),
            empty_map: HashMap::new(),
        }
    }

    /// The instruction map for one privilege level and address space.
    pub fn get(&self, space: Prv, ctx: u64) -> (r: &HashMap<u64, Insn>)
        requires
            self.wf(),
            space != Prv::PrvHypervisor,
        ensures
            r@ == self.spec_map_for(space, ctx),
    {
        match space {
            Prv::PrvUser => {
                match self.u_insn_maps.get(&ctx) {
                    Some(m) => m,
                    None => &self.empty_map,
                }
            },
            Prv::PrvSupervisor => &self.k_insn_map,
            _ => &self.m_insn_map,
        }
    }
}

/// All configured images are walkable by the disassembler.
pub open spec fn spec_images_ok(
    user_binaries: Seq<UserBinary>,
    kernel_sections: Seq<SectionData>,
    driver_sections: Seq<SectionData>,
    machine_sections: Seq<SectionData>,
) -> bool {
    &&& spec_sections_ok(machine_sections)
    &&& (forall|i: int|
        0 <= i < user_binaries.len() ==> spec_sections_ok(
            (#[trigger] user_binaries[i]).sections@,
        ))
    &&& spec_sections_ok(kernel_sections)
    &&& spec_sections_ok(driver_sections)
}

/// Build the instruction index from the executable sections of every
/// configured image: one user image per address space, a kernel image with
/// drivers merged in at their load offsets and a jump-label patch log
/// applied on top, and a machine-mode image. An image with sections that
/// yield no instructions, or whose sections the disassembler cannot walk,
/// is unusable and fatal.
pub fn build_instruction_index(
    wide: bool,
    user_binaries: &Vec<UserBinary>,
    kernel_sections: &Vec<SectionData>,
    driver_sections: &Vec<SectionData>,
    patch_lines: &Vec<Vec<u8>>,
    machine_sections: &Vec<SectionData>,
) -> (r: Result<InstructionIndex, IndexBuildError>)
    requires
        forall|i: int, j: int|
            0 <= i < j < user_binaries@.len() ==> user_binaries@[i].ctx != user_binaries@[j].ctx,
    ensures
        ({
            let m_map = sections_union(wide, machine_sections@, Map::empty());
            let k_base = sections_union(
                wide,
                driver_sections@,
                sections_union(wide, kernel_sections@, Map::empty()),
            );
            let k_map = if kernel_sections@.len() == 0 {
                Map::<u64, Insn>::empty()
            } else {
                spec_apply_patches(wide, patch_lines@, k_base)
            };
            match r {
                Ok(idx) => {
                    &&& spec_images_ok(
                        user_binaries@,
                        kernel_sections@,
                        driver_sections@,
                        machine_sections@,
                    )
                    &&& idx.wf()
                    &&& m_map.len() != 0
                    &&& idx.spec_map_for(Prv::PrvMachine, 0) == m_map
                    &&& idx.spec_map_for(Prv::PrvSupervisor, 0) == k_map
                    &&& forall|i: int|
                        0 <= i < user_binaries@.len() ==> idx.spec_map_for(
                            Prv::PrvUser,
                            user_binaries@[i].ctx,
                        ) == sections_union(wide, user_binaries@[i].sections@, Map::empty())
                    &&& forall|c: u64|
                        idx.u_insn_maps@.contains_key(c) ==> exists|i: int|
                            0 <= i < user_binaries@.len() && user_binaries@[i].ctx == c
                },
                Err(IndexBuildError::NoMachineInstructions) => spec_images_ok(
                    user_binaries@,
                    kernel_sections@,
                    driver_sections@,
                    machine_sections@,
                ) && m_map.len() == 0,
                Err(IndexBuildError::NoUserInstructions) => spec_images_ok(
                    user_binaries@,
                    kernel_sections@,
                    driver_sections@,
                    machine_sections@,
                ) && exists|i: int|
                    0 <= i < user_binaries@.len() && sections_union(
                        wide,
                        user_binaries@[i].sections@,
                        Map::empty(),
                    ).len() == 0,
                Err(IndexBuildError::NoKernelInstructions) => spec_images_ok(
                    user_binaries@,
                    kernel_sections@,
                    driver_sections@,
                    machine_sections@,
                ) && kernel_sections@.len() != 0 && sections_union(
                    wide,
                    kernel_sections@,
                    Map::empty(),
                ).len() == 0,
                Err(IndexBuildError::TruncatedSection) => !spec_images_ok(
                    user_binaries@,
                    kernel_sections@,
                    driver_sections@,
                    machine_sections@,
                ),
            }
        }),
{
    if !sections_ok(machine_sections) || !sections_ok(kernel_sections) || !sections_ok(
        driver_sections,
    ) {
        return Err(IndexBuildError::TruncatedSection);
    }
    let mut p: usize = 0;
    while p < user_binaries.len()
        invariant
            p <= user_binaries@.len(),
            forall|i: int|
                0 <= i < p ==> spec_sections_ok((#[trigger] user_binaries@[i]).sections@),
        decreases user_binaries@.len() - p,
    {
        if !sections_ok(&user_binaries[p].sections) {
            return Err(IndexBuildError::TruncatedSection);
        }
        p = p + 1;
    }
    let dasm = Dasm::new(wide);
    let dasm = &dasm;
    let mut m_insn_map: HashMap<u64, Insn> = HashMap::new();
    add_sections(dasm, machine_sections, &mut m_insn_map);
    if m_insn_map.len() == 0 {
        return Err(IndexBuildError::NoMachineInstructions);
    }
    let mut u_insn_maps: HashMap<u64, HashMap<u64, Insn>> = HashMap::new();
    let mut b: usize = 0;
    while b < user_binaries.len()
        invariant
            b <= user_binaries@.len(),
            dasm.spec_wide() == wide,
            forall|i: int|
                0 <= i < user_binaries@.len() ==> spec_sections_ok(
                    (#[trigger] user_binaries@[i]).sections@,
                ),
            spec_sections_ok(machine_sections@),
            spec_sections_ok(kernel_sections@),
            spec_sections_ok(driver_sections@),
            forall|i: int, j: int|
                0 <= i < j < user_binaries@.len() ==> user_binaries@[i].ctx
                    != user_binaries@[j].ctx,
            forall|i: int|
                0 <= i < b ==> u_insn_maps@.contains_key(#[trigger] user_binaries@[i].ctx)
                    && u_insn_maps@[user_binaries@[i].ctx]@ == sections_union(
                    dasm.spec_wide(),
                    user_binaries@[i].sections@,
                    Map::empty(),
                ),
            forall|c: u64|
                u_insn_maps@.contains_key(c) ==> exists|i: int|
                    0 <= i < b && user_binaries@[i].ctx == c,
        decreases user_binaries@.len() - b,
    {
        let binary = &user_binaries[b];
        let mut u_insn_map: HashMap<u64, Insn> = HashMap::new();
        add_sections(dasm, &binary.sections, &mut u_insn_map);
        if u_insn_map.len() == 0 {
            return Err(IndexBuildError::NoUserInstructions);
        }
        u_insn_maps.insert(binary.ctx, u_insn_map);
        b = b + 1;
    }
    let mut k_insn_map: HashMap<u64, Insn> = HashMap::new();
    if kernel_sections.len() > 0 {
        add_sections(dasm, kernel_sections, &mut k_insn_map);
        if k_insn_map.len() == 0 {
            return Err(IndexBuildError::NoKernelInstructions);
        }
        add_sections(dasm, driver_sections, &mut k_insn_map);
        apply_patches(dasm, patch_lines, &mut k_insn_map);
    }
    Ok(
        InstructionIndex {
            u_insn_maps,
            k_insn_map,
            m_insn_map,
            empty_map: HashMap::new(),
        },
    )
}

} // verus!
