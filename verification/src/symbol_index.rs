use vstd::prelude::*;
use crate::prv::Prv;

verus! {

broadcast use vstd::string::axiom_spec_iter, vstd::string::next_postcondition;

/// Where a symbol's code comes from in the source tree.
#[derive(Debug)]
pub struct SourceLocation {
    pub file: String,
    pub lines: u32,
    pub prv: Prv,
}

impl Clone for SourceLocation {
    fn clone(&self) -> (r: Self)
        ensures
            r == *self,
    {
        SourceLocation { file: self.file.clone(), lines: self.lines, prv: self.prv }
    }
}

/// Everything the sinks need to know about one function symbol.
#[derive(Debug)]
pub struct SymbolInfo {
    pub name: String,
    pub src: SourceLocation,
    pub prv: Prv,
}

impl Clone for SymbolInfo {
    fn clone(&self) -> (r: Self)
        ensures
            r == *self,
    {
        SymbolInfo { name: self.name.clone(), src: self.src.clone(), prv: self.prv }
    }
}

/// One symbol as read out of a binary image, before filtering.
#[derive(Debug)]
pub struct SymbolEntry {
    pub addr: u64,
    pub name: String,
    pub file: String,
    pub line: u32,
}

/// Assembler-local labels are dropped from the index: names beginning with
/// `$x`, `$d` or `.L`.
pub open spec fn spec_is_local_label(s: Seq<char>) -> bool {
    s.len() >= 2 && ((s[0] == '$' && (s[1] == 'x' || s[1] == 'd')) || (s[0] == '.' && s[1] == 'L'))
}

pub fn is_local_label(name: &str) -> (r: bool)
    ensures
        r == spec_is_local_label(name@),
{
    let mut it = name.chars();
    let c0 = match it.next() {
        Some(c) => c,
        None => {
            return false;
        },
    };
    let c1 = match it.next() {
        Some(c) => c,
        None => {
            return false;
        },
    };
    (c0 == '$' && (c1 == 'x' || c1 == 'd')) || (c0 == '.' && c1 == 'L')
}

/// An ordered map from function entry address to symbol, kept as a vector
/// sorted by strictly increasing address.
pub struct SymbolMap {
    pub entries: Vec<(u64, SymbolInfo)>,
}

/// Strictly increasing addresses.
pub open spec fn sorted_entries(s: Seq<(u64, SymbolInfo)>) -> bool {
    forall|i: int, j: int| 0 <= i < j < s.len() ==> s[i].0 < s[j].0
}

pub open spec fn contains_addr(s: Seq<(u64, SymbolInfo)>, addr: u64) -> bool {
    exists|i: int| 0 <= i < s.len() && s[i].0 == addr
}

/// The position of `addr` in a sorted run; meaningful only when present.
pub open spec fn addr_index(s: Seq<(u64, SymbolInfo)>, addr: u64) -> int {
    choose|i: int| 0 <= i < s.len() && s[i].0 == addr
}

/// Where a new address lands in an ordered run: just before the first
/// entry whose address is larger.
pub open spec fn insert_pos(s: Seq<(u64, SymbolInfo)>, addr: u64) -> int
    decreases s.len(),
{
    if s.len() == 0 {
        0
    } else if s[0].0 > addr {
        0
    } else {
        1 + insert_pos(s.skip(1), addr)
    }
}

/// The insertion position splits the run: everything before it is at most
/// the new address, and the entry at it, if any, is larger.
pub proof fn lemma_insert_pos(s: Seq<(u64, SymbolInfo)>, addr: u64)
    ensures
        0 <= insert_pos(s, addr) <= s.len(),
        insert_pos(s, addr) < s.len() ==> s[insert_pos(s, addr)].0 > addr,
        forall|k: int| 0 <= k < insert_pos(s, addr) ==> (#[trigger] s[k]).0 <= addr,
    decreases s.len(),
{
    if s.len() == 0 {
    } else if s[0].0 > addr {
    } else {
        lemma_insert_pos(s.skip(1), addr);
        assert forall|k: int| 0 <= k < insert_pos(s, addr) implies (#[trigger] s[k]).0 <= addr by {
            if k > 0 {
                assert(s.skip(1)[k - 1] == s[k]);
            }
        }
        assert(insert_pos(s, addr) < s.len() ==> s.skip(1)[insert_pos(s.skip(1), addr)] == s[
            insert_pos(s, addr)
        ]);
    }
}

/// A run of entries with one symbol added under the index's alias rule:
/// a new address is inserted in order; at an existing address a non-empty
/// name beats an empty one, and otherwise the first entry wins.
pub open spec fn spec_add_symbol(
    s: Seq<(u64, SymbolInfo)>,
    addr: u64,
    info: SymbolInfo,
) -> Seq<(u64, SymbolInfo)> {
    if contains_addr(s, addr) {
        let i = addr_index(s, addr);
        if s[i].1.name@.len() == 0 && info.name@.len() > 0 {
            s.update(i, (addr, info))
        } else {
            s
        }
    } else {
        s.insert(insert_pos(s, addr), (addr, info))
    }
}

impl SymbolMap {
    pub open spec fn wf(&self) -> bool {
        sorted_entries(self.entries@)
    }

    pub fn new() -> (r: SymbolMap)
        ensures
            r.wf(),
            r.entries@.len() == 0,
    {
        SymbolMap { entries: Vec::new() }
    }

    pub fn len(&self) -> (r: usize)
        ensures
            r == self.entries@.len(),
    {
        self.entries.len()
    }

    /// The position of the entry at `addr`, found by binary search.
    pub fn index_of(&self, addr: u64) -> (r: Option<usize>)
        requires
            self.wf(),
        ensures
            match r {
                Some(i) => i < self.entries@.len() && self.entries@[i as int].0 == addr,
                None => !contains_addr(self.entries@, addr),
            },
    {
        let mut lo: usize = 0;
        let mut hi: usize = self.entries.len();
        while lo < hi
            invariant
                self.wf(),
                lo <= hi <= self.entries@.len(),
                forall|k: int| 0 <= k < lo ==> self.entries@[k].0 < addr,
                forall|k: int| hi <= k < self.entries@.len() ==> self.entries@[k].0 > addr,
            decreases hi - lo,
        {
            let mid = lo + (hi - lo) / 2;
            let a = self.entries[mid].0;
            if a == addr {
                return Some(mid);
            } else if a < addr {
                lo = mid + 1;
            } else {
                hi = mid;
            }
        }
        None
    }

    /// Point lookup: the symbol whose function begins at `addr`.
    pub fn get(&self, addr: u64) -> (r: Option<&SymbolInfo>)
        requires
            self.wf(),
        ensures
            match r {
                Some(info) => contains_addr(self.entries@, addr) && *info == self.entries@[
                    addr_index(self.entries@, addr)
                ].1,
                None => !contains_addr(self.entries@, addr),
            },
    {
        match self.index_of(addr) {
            Some(i) => {
                proof {
                    let j = addr_index(self.entries@, addr);
                    assert(self.entries@[j].0 == addr);
                    assert(j == i);
                }
                Some(&self.entries[i].1)
            },
            None => None,
        }
    }

    pub fn contains_key(&self, addr: u64) -> (r: bool)
        requires
            self.wf(),
        ensures
            r == contains_addr(self.entries@, addr),
    {
        match self.index_of(addr) {
            Some(_) => true,
            None => false,
        }
    }

    /// Range lookup: the half-open address range `[addr, end)` of the
    /// function that begins at `addr`, where `end` is the next symbol's
    /// start, or the largest address for the last symbol.
    pub fn range(&self, addr: u64) -> (r: Option<(u64, u64)>)
        requires
            self.wf(),
        ensures
            match r {
                Some(se) => {
                    let i = addr_index(self.entries@, addr);
                    &&& contains_addr(self.entries@, addr)
                    &&& se.0 == addr
                    &&& se.1 == (if i + 1 < self.entries@.len() {
                        self.entries@[i + 1].0
                    } else {
                        u64::MAX
                    })
                },
                None => !contains_addr(self.entries@, addr),
            },
    {
        match self.index_of(addr) {
            Some(i) => {
                proof {
                    let j = addr_index(self.entries@, addr);
                    assert(self.entries@[j].0 == addr);
                    assert(j == i);
                }
                let n = self.entries.len();
                let end = if i < n - 1 {
                    self.entries[i + 1].0
                } else {
                    u64::MAX
                };
                Some((self.entries[i].0, end))
            },
            None => None,
        }
    }

    /// Add one symbol under the alias rule.
    pub fn add_symbol(&mut self, addr: u64, info: SymbolInfo)
        requires
            old(self).wf(),
        ensures
            final(self).wf(),
            final(self).entries@ == spec_add_symbol(old(self).entries@, addr, info),
    {
        match self.index_of(addr) {
            Some(i) => {
                proof {
                    let j = addr_index(self.entries@, addr);
                    assert(self.entries@[j].0 == addr);
                    assert(j == i);
                }
                let existing_empty = self.entries[i].1.name.as_str().is_empty();
                let new_nonempty = !info.name.as_str().is_empty();
                if existing_empty && new_nonempty {
                    let ghost pre = self.entries@;
                    self.entries.set(i, (addr, info));
                    proof {
                        assert(self.entries@ =~= pre.update(i as int, self.entries@[i as int]));
                    }
                }
            },
            None => {
                let mut p: usize = 0;
                loop
                    invariant_except_break
                        old(self) == self,
                        self.wf(),
                        p <= self.entries@.len(),
                        forall|k: int| 0 <= k < p ==> self.entries@[k].0 < addr,
                        !contains_addr(self.entries@, addr),
                    ensures
                        old(self) == self,
                        self.wf(),
                        p <= self.entries@.len(),
                        forall|k: int| 0 <= k < p ==> self.entries@[k].0 < addr,
                        !contains_addr(self.entries@, addr),
                        p < self.entries@.len() ==> self.entries@[p as int].0 > addr,
                    decreases self.entries@.len() - p,
                {
                    if p >= self.entries.len() {
                        break;
                    }
                    if self.entries[p].0 > addr {
                        break;
                    }
                    proof {
                        assert(self.entries@[p as int].0 != addr);
                    }
                    p = p + 1;
                }
                proof {
                    assert(forall|k: int|
                        p <= k < self.entries@.len() ==> self.entries@[k].0 > addr) by {
                        assert forall|k: int|
                            p <= k < self.entries@.len() implies self.entries@[k].0 > addr by {
                            if k > p {
                                assert(self.entries@[p as int].0 < self.entries@[k].0);
                            }
                        }
                    }
                }
                let ghost pre = self.entries@;
                self.entries.insert(p, (addr, info));
                proof {
                    lemma_insert_pos(pre, addr);
                    let q = insert_pos(pre, addr);
                    if q < p {
                        assert(pre[q].0 < addr && pre[q].0 <= addr);
                        assert(pre[q].0 > addr);
                    }
                    if q > p {
                        assert(pre[p as int].0 > addr && pre[p as int].0 <= addr);
                    }
                    assert(q == p);
                    assert(forall|i: int, j: int|
                        0 <= i < j < self.entries@.len() ==> self.entries@[i].0
                            < self.entries@[j].0) by {
                        assert forall|i: int, j: int|
                            0 <= i < j < self.entries@.len() implies self.entries@[i].0
                            < self.entries@[j].0 by {
                            assert(self.entries@.len() == pre.len() + 1);
                        }
                    }
                }
            },
        }
    }
}

/// The symbol map built from a run of raw symbols for one privilege level:
/// local labels are dropped, the rest are added in order under the alias
/// rule.
pub open spec fn spec_build_symbols(
    s: Seq<SymbolEntry>,
    prv: Prv,
    shift: u64,
    acc: Seq<(u64, SymbolInfo)>,
) -> Seq<(u64, SymbolInfo)>
    decreases s.len(),
{
    if s.len() == 0 {
        acc
    } else {
        let e = s[0];
        let acc1 = if spec_is_local_label(e.name@) {
            acc
        } else {
            spec_add_symbol(
                acc,
                vstd::wrapping::u64_specs::wrapping_add(e.addr, shift),
                SymbolInfo {
                    name: e.name,
                    src: SourceLocation { file: e.file, lines: e.line, prv },
                    prv,
                },
            )
        };
        spec_build_symbols(s.skip(1), prv, shift, acc1)
    }
}

/// Add every non-local symbol of one image to `map`, shifting each address
/// by the image's load offset.
pub fn add_symbols(map: &mut SymbolMap, symbols: &Vec<SymbolEntry>, prv: Prv, shift: u64)
    requires
        old(map).wf(),
    ensures
        final(map).wf(),
        final(map).entries@ == spec_build_symbols(symbols@, prv, shift, old(map).entries@),
{
    let mut k: usize = 0;
    proof {
        assert(symbols@.skip(0) =~= symbols@);
    }
    while k < symbols.len()
        invariant
            map.wf(),
            k <= symbols@.len(),
            spec_build_symbols(symbols@.skip(k as int), prv, shift, map.entries@)
                == spec_build_symbols(symbols@, prv, shift, old(map).entries@),
        decreases symbols@.len() - k,
    {
        let entry = &symbols[k];
        if !is_local_label(entry.name.as_str()) {
            let addr = entry.addr.wrapping_add(shift);
            let info = SymbolInfo {
                name: entry.name.clone(),
                src: SourceLocation {
                    file: entry.file.clone(),
                    lines: entry.line,
                    prv,
                },
                prv,
            };
            map.add_symbol(addr, info);
        }
        k = k + 1;
        proof {
            assert(symbols@.skip(k - 1)[0] == symbols@[k - 1]);
            assert(symbols@.skip(k - 1).skip(1) =~= symbols@.skip(k as int));
        }
    }
    proof {
        assert(symbols@.skip(symbols@.len() as int) =~= Seq::<SymbolEntry>::empty());
    }
}

/// Build the per-privilege symbol map of one image.
pub fn build_single_symbol_index(symbols: &Vec<SymbolEntry>, prv: Prv) -> (r: SymbolMap)
    ensures
        r.wf(),
        r.entries@ == spec_build_symbols(symbols@, prv, 0, Seq::<(u64, SymbolInfo)>::empty()),
{
    let mut map = SymbolMap::new();
    proof {
        assert(map.entries@ =~= Seq::<(u64, SymbolInfo)>::empty());
    }
    add_symbols(&mut map, symbols, prv, 0);
    map
}

/// Per-privilege ordered maps from function entry address to symbol.
pub struct SymbolIndex {
    pub u_symbol_map: SymbolMap,
    pub k_symbol_map: SymbolMap,
    pub m_symbol_map: SymbolMap,
}

impl SymbolIndex {
    pub open spec fn wf(&self) -> bool {
        &&& self.u_symbol_map.wf()
        &&& self.k_symbol_map.wf()
        &&& self.m_symbol_map.wf()
    }

    /// The map for one privilege level.
    pub open spec fn spec_get(&self, prv: Prv) -> &SymbolMap {
        match prv {
            Prv::PrvUser => &self.u_symbol_map,
            Prv::PrvSupervisor => &self.k_symbol_map,
            _ => &self.m_symbol_map,
        }
    }

    pub fn get(&self, prv: Prv) -> (r: &SymbolMap)
        requires
            prv != Prv::PrvHypervisor,
        ensures
            r == self.spec_get(prv),
    {
        match prv {
            Prv::PrvUser => &self.u_symbol_map,
            Prv::PrvSupervisor => &self.k_symbol_map,
            _ => &self.m_symbol_map,
        }
    }

    /// Point lookup by privilege level and address.
    pub fn lookup(&self, prv: Prv, addr: u64) -> (r: Option<&SymbolInfo>)
        requires
            self.wf(),
            prv != Prv::PrvHypervisor,
        ensures
            ({
                let s = self.spec_get(prv).entries@;
                match r {
                    Some(info) => contains_addr(s, addr) && *info == s[addr_index(s, addr)].1,
                    None => !contains_addr(s, addr),
                }
            }),
    {
        self.get(prv).get(addr)
    }

    /// Range lookup by privilege level: `[start, next_start)` of the
    /// function beginning at `addr`.
    pub fn range(&self, prv: Prv, addr: u64) -> (r: Option<(u64, u64)>)
        requires
            self.wf(),
            prv != Prv::PrvHypervisor,
        ensures
            ({
                let s = self.spec_get(prv).entries@;
                match r {
                    Some(se) => {
                        let i = addr_index(s, addr);
                        &&& contains_addr(s, addr)
                        &&& se.0 == addr
                        &&& se.1 == (if i + 1 < s.len() {
                            s[i + 1].0
                        } else {
                            u64::MAX
                        })
                    },
                    None => !contains_addr(s, addr),
                }
            }),
    {
        self.get(prv).range(addr)
    }
}

/// Build the whole symbol index: one map per privilege level, with driver
/// symbols shifted by their configured load offsets and merged into the
/// kernel map.
pub fn build_symbol_index(
    user_symbols: &Vec<SymbolEntry>,
    kernel_symbols: &Vec<SymbolEntry>,
    driver_groups: &Vec<(u64, Vec<SymbolEntry>)>,
    machine_symbols: &Vec<SymbolEntry>,
) -> (r: SymbolIndex)
    ensures
        r.wf(),
        r.u_symbol_map.entries@ == spec_build_symbols(
            user_symbols@,
            Prv::PrvUser,
            0,
            Seq::<(u64, SymbolInfo)>::empty(),
        ),
        r.m_symbol_map.entries@ == spec_build_symbols(
            machine_symbols@,
            Prv::PrvMachine,
            0,
            Seq::<(u64, SymbolInfo)>::empty(),
        ),
        r.k_symbol_map.entries@ == spec_build_drivers(
            driver_groups@,
            spec_build_symbols(
                kernel_symbols@,
                Prv::PrvSupervisor,
                0,
                Seq::<(u64, SymbolInfo)>::empty(),
            ),
        ),
{
    let u_symbol_map = build_single_symbol_index(user_symbols, Prv::PrvUser);
    let mut k_symbol_map = build_single_symbol_index(kernel_symbols, Prv::PrvSupervisor);
    let m_symbol_map = build_single_symbol_index(machine_symbols, Prv::PrvMachine);
    let mut g: usize = 0;
    proof {
        assert(driver_groups@.skip(0) =~= driver_groups@);
    }
    while g < driver_groups.len()
        invariant
            k_symbol_map.wf(),
            g <= driver_groups@.len(),
            spec_build_drivers(driver_groups@.skip(g as int), k_symbol_map.entries@)
                == spec_build_drivers(
                driver_groups@,
                spec_build_symbols(
                    kernel_symbols@,
                    Prv::PrvSupervisor,
                    0,
                    Seq::<(u64, SymbolInfo)>::empty(),
                ),
            ),
        decreases driver_groups@.len() - g,
    {
        let offset = driver_groups[g].0;
        add_symbols(&mut k_symbol_map, &driver_groups[g].1, Prv::PrvSupervisor, offset);
        g = g + 1;
        proof {
            assert(driver_groups@.skip(g - 1)[0] == driver_groups@[g - 1]);
            assert(driver_groups@.skip(g - 1).skip(1) =~= driver_groups@.skip(g as int));
        }
    }
    proof {
        assert(driver_groups@.skip(driver_groups@.len() as int) =~= Seq::<
            (u64, Vec<SymbolEntry>),
        >::empty());
    }
    SymbolIndex { u_symbol_map, k_symbol_map, m_symbol_map }
}

/// Kernel map with every driver group's symbols merged in, shifted by the
/// group's load offset.
pub open spec fn spec_build_drivers(
    groups: Seq<(u64, Vec<SymbolEntry>)>,
    acc: Seq<(u64, SymbolInfo)>,
) -> Seq<(u64, SymbolInfo)>
    decreases groups.len(),
{
    if groups.len() == 0 {
        acc
    } else {
        spec_build_drivers(
            groups.skip(1),
            spec_build_symbols(groups[0].1@, Prv::PrvSupervisor, groups[0].0, acc),
        )
    }
}

} // verus!
