use vstd::prelude::*;
use crate::event::{Entry, EventKind};
use crate::prv::Prv;
use crate::stack_unwinder::{
    ij_post,
    sync_start_post,
    uj_post,
    unwind_trap_post,
    Frame,
    StackUnwinder,
    StackUpdateResult,
};
use crate::symbol_index::SymbolIndex;
use crate::path_profile::{append_str_chars, chars_to_string};
use std::collections::HashMap;

verus! {

broadcast use vstd::std_specs::hash::group_hash_axioms;

/// One frame of the exported profile's frame table.
#[derive(Debug)]
pub struct FrameMeta {
    pub name: String,
    pub file: String,
    pub line: u32,
}

/// One open or close event of the exported profile, keyed by frame id and
/// time.
#[derive(Debug, Clone, Copy, PartialEq, Eq, Structural)]
pub struct ProfileEvent {
    /// An opening event; a closing one otherwise.
    pub open: bool,
    pub frame: u32,
    pub at: u64,
}

/// Address-to-frame-id tables, one per privilege level, plus the synthetic
/// per-address-space parent frames.
pub struct Lookup {
    pub asid_to_binary_id_map: HashMap<u64, usize>,
    pub u_lookup: Vec<HashMap<u64, u32>>,
    pub k_lookup: HashMap<u64, u32>,
    pub m_lookup: HashMap<u64, u32>,
    pub asid_lookup: HashMap<u64, u32>,
}

impl Lookup {
    /// Every mapped address space names a real user table.
    pub open spec fn wf(&self) -> bool {
        forall|c: u64|
            #[trigger] self.asid_to_binary_id_map@.contains_key(c)
                ==> self.asid_to_binary_id_map@[c] < self.u_lookup@.len()
    }

    /// The frame id for an address, resolved per privilege level; user
    /// addresses resolve through their address space's table.
    pub open spec fn spec_lookup(&self, prv: Prv, ctx: u64, addr: u64) -> Option<u32> {
        match prv {
            Prv::PrvUser => {
                if self.asid_to_binary_id_map@.contains_key(ctx) {
                    let id = self.asid_to_binary_id_map@[ctx];
                    if self.u_lookup@[id as int]@.contains_key(addr) {
                        Some(self.u_lookup@[id as int]@[addr])
                    } else {
                        None
                    }
                } else {
                    None
                }
            },
            Prv::PrvSupervisor => if self.k_lookup@.contains_key(addr) {
                Some(self.k_lookup@[addr])
            } else {
                None
            },
            _ => if self.m_lookup@.contains_key(addr) {
                Some(self.m_lookup@[addr])
            } else {
                None
            },
        }
    }

    pub fn lookup(&self, prv: Prv, ctx: u64, addr: u64) -> (r: Option<u32>)
        requires
            self.wf(),
            prv != Prv::PrvHypervisor,
        ensures
            r == self.spec_lookup(prv, ctx, addr),
    {
        match prv {
            Prv::PrvUser => {
                match self.asid_to_binary_id_map.get(&ctx) {
                    Some(binary_id) => {
                        match self.u_lookup[*binary_id].get(&addr) {
                            Some(id) => Some(*id),
                            None => None,
                        }
                    },
                    None => None,
                }
            },
            Prv::PrvSupervisor => {
                match self.k_lookup.get(&addr) {
                    Some(id) => Some(*id),
                    None => None,
                }
            },
            _ => {
                match self.m_lookup.get(&addr) {
                    Some(id) => Some(*id),
                    None => None,
                }
            },
        }
    }
}

/// The character for one decimal digit value.
pub open spec fn spec_dec_char(d: u64) -> char {
    if d == 0 {
        '0'
    } else if d == 1 {
        '1'
    } else if d == 2 {
        '2'
    } else if d == 3 {
        '3'
    } else if d == 4 {
        '4'
    } else if d == 5 {
        '5'
    } else if d == 6 {
        '6'
    } else if d == 7 {
        '7'
    } else if d == 8 {
        '8'
    } else {
        '9'
    }
}

/// The decimal rendering of a value, most significant digit first and
/// without leading zeros.
pub open spec fn spec_dec_seq(v: u64) -> Seq<char>
    decreases v,
{
    if v < 10 {
        seq![spec_dec_char(v)]
    } else {
        spec_dec_seq(v / 10) + seq![spec_dec_char(v % 10)]
    }
}

/// Append the decimal rendering of a value.
fn append_decimal(out: &mut Vec<char>, v: u64)
    ensures
        final(out)@ == old(out)@ + spec_dec_seq(v),
    decreases v,
{
    if v < 10 {
        out.push(digit_char(v));
        proof {
            assert(final(out)@ =~= old(out)@ + spec_dec_seq(v));
        }
    } else {
        proof {
            assert(v / 10 < v) by (nonlinear_arith)
                requires
                    v >= 10,
            ;
        }
        append_decimal(out, v / 10);
        out.push(digit_char(v % 10));
        proof {
            assert(final(out)@ =~= old(out)@ + spec_dec_seq(v));
        }
    }
}

fn digit_char(d: u64) -> (r: char)
    requires
        d < 10,
    ensures
        r == spec_dec_char(d),
{
    if d == 0 {
        '0'
    } else if d == 1 {
        '1'
    } else if d == 2 {
        '2'
    } else if d == 3 {
        '3'
    } else if d == 4 {
        '4'
    } else if d == 5 {
        '5'
    } else if d == 6 {
        '6'
    } else if d == 7 {
        '7'
    } else if d == 8 {
        '8'
    } else {
        '9'
    }
}

/// The frame table label `<prefix><name>`.
fn frame_label(prefix: &str, name: &str) -> (r: String)
    ensures
        r@ == prefix@ + name@,
{
    let mut chars: Vec<char> = Vec::new();
    append_str_chars(&mut chars, prefix);
    append_str_chars(&mut chars, name);
    proof {
        assert(chars@ =~= prefix@ + name@);
    }
    chars_to_string(&chars)
}

/// Build the profile's frame table and the address-to-id tables from the
/// symbol index: supervisor symbols first (labelled `k:`), then machine
/// symbols (labelled `m:`), then user symbols under their own names, then
/// one synthetic `u_<asid>` parent frame per configured address space.
pub fn build_frames(symbols: &SymbolIndex, asids: &Vec<u64>) -> (r: (Vec<FrameMeta>, Lookup))
    requires
        symbols.wf(),
        symbols.spec_get(Prv::PrvSupervisor).entries@.len() + symbols.spec_get(
            Prv::PrvMachine,
        ).entries@.len() + symbols.spec_get(Prv::PrvUser).entries@.len() + asids@.len()
            <= u32::MAX,
    ensures
        r.1.wf(),
        r.0@.len() <= u32::MAX,
        ({
            let k = symbols.spec_get(Prv::PrvSupervisor).entries@;
            let m = symbols.spec_get(Prv::PrvMachine).entries@;
            let u = symbols.spec_get(Prv::PrvUser).entries@;
            &&& (forall|i: int|
                0 <= i < k.len() ==> r.1.k_lookup@.contains_key((#[trigger] k[i]).0)
                    && r.1.k_lookup@[k[i].0] == i as u32 && r.0@[i].name@ == seq!['k', ':']
                    + k[i].1.name@ && r.0@[i].file@ == k[i].1.src.file@ && r.0@[i].line
                    == k[i].1.src.lines)
            &&& (forall|i: int|
                0 <= i < m.len() ==> r.1.m_lookup@.contains_key((#[trigger] m[i]).0)
                    && r.1.m_lookup@[m[i].0] == (k.len() + i) as u32 && r.0@[k.len() + i].name@
                    == seq!['m', ':'] + m[i].1.name@ && r.0@[k.len() + i].file@
                    == m[i].1.src.file@ && r.0@[k.len() + i].line == m[i].1.src.lines)
            &&& r.1.u_lookup@.len() == 1
            &&& (forall|i: int|
                0 <= i < u.len() ==> r.1.u_lookup@[0]@.contains_key((#[trigger] u[i]).0)
                    && r.1.u_lookup@[0]@[u[i].0] == (k.len() + m.len() + i) as u32 && r.0@[k.len()
                    + m.len() + i].name@ == u[i].1.name@ && r.0@[k.len() + m.len() + i].file@
                    == u[i].1.src.file@ && r.0@[k.len() + m.len() + i].line == u[i].1.src.lines)
            &&& (forall|c: u64|
                #[trigger] r.1.asid_to_binary_id_map@.contains_key(c) == asids@.contains(c))
            &&& (forall|i: int|
                0 <= i < asids@.len() ==> r.0@[k.len() + m.len() + u.len() + i].name@
                    == seq!['u', '_'] + spec_dec_seq(#[trigger] asids@[i]) && r.0@[k.len()
                    + m.len() + u.len() + i].file@ == unknown_file() && r.0@[k.len() + m.len()
                    + u.len() + i].line == 0)
            &&& r.0@.len() == k.len() + m.len() + u.len() + asids@.len()
        }),
{
    let mut frames: Vec<FrameMeta> = Vec::new();
    let mut k_lookup: HashMap<u64, u32> = HashMap::new();
    let mut m_lookup: HashMap<u64, u32> = HashMap::new();
    let mut u_map: HashMap<u64, u32> = HashMap::new();
    let mut asid_lookup: HashMap<u64, u32> = HashMap::new();
    let mut asid_to_binary_id_map: HashMap<u64, usize> = HashMap::new();
    let k_entries = &symbols.get(Prv::PrvSupervisor).entries;
    let m_entries = &symbols.get(Prv::PrvMachine).entries;
    let u_entries = &symbols.get(Prv::PrvUser).entries;
    let ghost klen = k_entries@.len();
    let ghost mlen = m_entries@.len();
    let ghost ulen = u_entries@.len();
    let mut i: usize = 0;
    while i < k_entries.len()
        invariant
            i <= k_entries@.len(),
            k_entries@.len() <= u32::MAX,
            crate::symbol_index::sorted_entries(k_entries@),
            frames@.len() == i,
            forall|j: int|
                0 <= j < i ==> k_lookup@.contains_key((#[trigger] k_entries@[j]).0)
                    && k_lookup@[k_entries@[j].0] == j as u32 && frames@[j].name@
                    == seq!['k', ':'] + k_entries@[j].1.name@ && frames@[j].file@
                    == k_entries@[j].1.src.file@ && frames@[j].line == k_entries@[j].1.src.lines,
        decreases k_entries@.len() - i,
    {
        let entry = &k_entries[i];
        frames.push(
            FrameMeta {
                name: frame_label("k:", entry.1.name.as_str()),
                file: entry.1.src.file.clone(),
                line: entry.1.src.lines,
            },
        );
        proof {
            reveal_strlit("k:");
            assert("k:"@ =~= seq!['k', ':']);
        }
        k_lookup.insert(entry.0, i as u32);
        i = i + 1;
    }
    let mut i: usize = 0;
    while i < m_entries.len()
        invariant
            i <= m_entries@.len(),
            k_entries@.len() + m_entries@.len() <= u32::MAX,
            crate::symbol_index::sorted_entries(m_entries@),
            frames@.len() == k_entries@.len() + i,
            forall|j: int|
                0 <= j < k_entries@.len() ==> k_lookup@.contains_key((#[trigger] k_entries@[j]).0)
                    && k_lookup@[k_entries@[j].0] == j as u32 && frames@[j].name@
                    == seq!['k', ':'] + k_entries@[j].1.name@ && frames@[j].file@
                    == k_entries@[j].1.src.file@ && frames@[j].line == k_entries@[j].1.src.lines,
            forall|j: int|
                0 <= j < i ==> m_lookup@.contains_key((#[trigger] m_entries@[j]).0)
                    && m_lookup@[m_entries@[j].0] == (k_entries@.len() + j) as u32 && frames@[
                    k_entries@.len() + j
                ].name@ == seq!['m', ':'] + m_entries@[j].1.name@ && frames@[k_entries@.len()
                    + j].file@ == m_entries@[j].1.src.file@ && frames@[k_entries@.len() + j].line
                    == m_entries@[j].1.src.lines,
        decreases m_entries@.len() - i,
    {
        let entry = &m_entries[i];
        frames.push(
            FrameMeta {
                name: frame_label("m:", entry.1.name.as_str()),
                file: entry.1.src.file.clone(),
                line: entry.1.src.lines,
            },
        );
        proof {
            reveal_strlit("m:");
            assert("m:"@ =~= seq!['m', ':']);
        }
        m_lookup.insert(entry.0, frames.len() as u32 - 1);
        i = i + 1;
    }
    let mut i: usize = 0;
    while i < u_entries.len()
        invariant
            i <= u_entries@.len(),
            k_entries@.len() + m_entries@.len() + u_entries@.len() <= u32::MAX,
            crate::symbol_index::sorted_entries(u_entries@),
            frames@.len() == k_entries@.len() + m_entries@.len() + i,
            forall|j: int|
                0 <= j < k_entries@.len() ==> k_lookup@.contains_key((#[trigger] k_entries@[j]).0)
                    && k_lookup@[k_entries@[j].0] == j as u32 && frames@[j].name@
                    == seq!['k', ':'] + k_entries@[j].1.name@ && frames@[j].file@
                    == k_entries@[j].1.src.file@ && frames@[j].line == k_entries@[j].1.src.lines,
            forall|j: int|
                0 <= j < m_entries@.len() ==> m_lookup@.contains_key((#[trigger] m_entries@[j]).0)
                    && m_lookup@[m_entries@[j].0] == (k_entries@.len() + j) as u32 && frames@[
                    k_entries@.len() + j
                ].name@ == seq!['m', ':'] + m_entries@[j].1.name@ && frames@[k_entries@.len()
                    + j].file@ == m_entries@[j].1.src.file@ && frames@[k_entries@.len() + j].line
                    == m_entries@[j].1.src.lines,
            forall|j: int|
                0 <= j < i ==> u_map@.contains_key((#[trigger] u_entries@[j]).0)
                    && u_map@[u_entries@[j].0] == (k_entries@.len() + m_entries@.len() + j) as u32
                    && frames@[k_entries@.len() + m_entries@.len() + j].name@
                    == u_entries@[j].1.name@ && frames@[k_entries@.len() + m_entries@.len()
                    + j].file@ == u_entries@[j].1.src.file@ && frames@[k_entries@.len()
                    + m_entries@.len() + j].line == u_entries@[j].1.src.lines,
        decreases u_entries@.len() - i,
    {
        let entry = &u_entries[i];
        frames.push(
            FrameMeta {
                name: entry.1.name.clone(),
                file: entry.1.src.file.clone(),
                line: entry.1.src.lines,
            },
        );
        u_map.insert(entry.0, frames.len() as u32 - 1);
        i = i + 1;
    }
    let mut i: usize = 0;
    while i < asids.len()
        invariant
            i <= asids@.len(),
            k_entries@.len() + m_entries@.len() + u_entries@.len() + asids@.len() <= u32::MAX,
            frames@.len() == k_entries@.len() + m_entries@.len() + u_entries@.len() + i,
            forall|j: int|
                0 <= j < k_entries@.len() ==> k_lookup@.contains_key((#[trigger] k_entries@[j]).0)
                    && k_lookup@[k_entries@[j].0] == j as u32 && frames@[j].name@
                    == seq!['k', ':'] + k_entries@[j].1.name@ && frames@[j].file@
                    == k_entries@[j].1.src.file@ && frames@[j].line == k_entries@[j].1.src.lines,
            forall|j: int|
                0 <= j < m_entries@.len() ==> m_lookup@.contains_key((#[trigger] m_entries@[j]).0)
                    && m_lookup@[m_entries@[j].0] == (k_entries@.len() + j) as u32 && frames@[
                    k_entries@.len() + j
                ].name@ == seq!['m', ':'] + m_entries@[j].1.name@ && frames@[k_entries@.len()
                    + j].file@ == m_entries@[j].1.src.file@ && frames@[k_entries@.len() + j].line
                    == m_entries@[j].1.src.lines,
            forall|j: int|
                0 <= j < u_entries@.len() ==> u_map@.contains_key((#[trigger] u_entries@[j]).0)
                    && u_map@[u_entries@[j].0] == (k_entries@.len() + m_entries@.len() + j) as u32
                    && frames@[k_entries@.len() + m_entries@.len() + j].name@
                    == u_entries@[j].1.name@ && frames@[k_entries@.len() + m_entries@.len()
                    + j].file@ == u_entries@[j].1.src.file@ && frames@[k_entries@.len()
                    + m_entries@.len() + j].line == u_entries@[j].1.src.lines,
            forall|j: int|
                0 <= j < i ==> frames@[k_entries@.len() + m_entries@.len() + u_entries@.len()
                    + j].name@ == seq!['u', '_'] + spec_dec_seq(#[trigger] asids@[j]) && frames@[
                    k_entries@.len() + m_entries@.len() + u_entries@.len() + j
                ].file@ == unknown_file() && frames@[k_entries@.len() + m_entries@.len()
                    + u_entries@.len() + j].line == 0,
            forall|c: u64|
                #[trigger] asid_to_binary_id_map@.contains_key(c) == asids@.take(i as int).contains(
                    c,
                ),
            forall|c: u64|
                #[trigger] asid_to_binary_id_map@.contains_key(c)
                    ==> asid_to_binary_id_map@[c] == 0,
        decreases asids@.len() - i,
    {
        let ghost pre_frames = frames@;
        let asid = asids[i];
        let mut label: Vec<char> = Vec::new();
        label.push('u');
        label.push('_');
        proof {
            assert(label@ =~= seq!['u', '_']);
        }
        append_decimal(&mut label, asid);
        proof {
            assert(label@ =~= seq!['u', '_'] + spec_dec_seq(asid));
        }
        frames.push(
            FrameMeta {
                name: chars_to_string(&label),
                file: unknown_label(),
                line: 0,
            },
        );
        asid_lookup.insert(asid, frames.len() as u32 - 1);
        asid_to_binary_id_map.insert(asid, 0);
        i = i + 1;
        proof {
            assert(asids@[i - 1] == asid);
            assert(frames@.len() == k_entries@.len() + m_entries@.len() + u_entries@.len() + i);
            assert(frames@ == pre_frames.push(frames@.last()));
            assert forall|j: int| 0 <= j < i - 1 implies #[trigger] frames@[k_entries@.len()
                + m_entries@.len() + u_entries@.len() + j] == pre_frames[k_entries@.len()
                + m_entries@.len() + u_entries@.len() + j] by {
                assert(k_entries@.len() + m_entries@.len() + u_entries@.len() + j
                    < pre_frames.len());
            }
            assert(frames@[k_entries@.len() + m_entries@.len() + u_entries@.len() + (i - 1)]
                == frames@.last());
            assert(frames@[k_entries@.len() + m_entries@.len() + u_entries@.len() + (i - 1)].name@
                == seq!['u', '_'] + spec_dec_seq(asid));
            assert(frames@[k_entries@.len() + m_entries@.len() + u_entries@.len() + (i - 1)].file@
                == unknown_file());
            assert(frames@[k_entries@.len() + m_entries@.len() + u_entries@.len() + (i - 1)].line
                == 0);
            assert forall|c: u64|
                #[trigger] asid_to_binary_id_map@.contains_key(c) == asids@.take(i as int).contains(
                    c,
                ) by {
                if asids@.take(i as int).contains(c) {
                    let j = choose|j: int| 0 <= j < i && (#[trigger] asids@.take(i as int)[j]) == c;
                    if j < i - 1 {
                        assert(asids@.take(i - 1).contains(c)) by {
                            assert(asids@.take(i - 1)[j] == c);
                        }
                    }
                }
                if asid_to_binary_id_map@.contains_key(c) {
                    if c != asids@[i - 1] {
                        let j = choose|j: int|
                            0 <= j < i - 1 && (#[trigger] asids@.take(i - 1)[j]) == c;
                        assert(asids@.take(i as int)[j] == c);
                    } else {
                        assert(asids@.take(i as int)[i - 1] == c);
                    }
                }
            }
        }
    }
    proof {
        assert(asids@.take(asids@.len() as int) =~= asids@);
    }
    let mut u_lookup: Vec<HashMap<u64, u32>> = Vec::new();
    u_lookup.push(u_map);
    (
        frames,
        Lookup { asid_to_binary_id_map, u_lookup, k_lookup, m_lookup, asid_lookup },
    )
}

/// The placeholder file name of synthetic frames.
pub open spec fn unknown_file() -> Seq<char> {
    seq!['u', 'n', 'k', 'n', 'o', 'w', 'n']
}

fn unknown_label() -> (r: String)
    ensures
        r@ == unknown_file(),
{
    let mut s = String::new();
    s.append("unknown");
    proof {
        reveal_strlit("unknown");
        assert(s@ =~= unknown_file());
    }
    s
}

/// The close events a run of frames produces at `ts`: one per frame with
/// a known id, in order; frames without an id (or of the reserved
/// privilege) are dropped.
pub open spec fn close_events_of(lk: Lookup, frames: Seq<Frame>, ts: u64) -> Seq<ProfileEvent>
    decreases frames.len(),
{
    if frames.len() == 0 {
        Seq::empty()
    } else {
        let head = frames[0];
        let rest = close_events_of(lk, frames.skip(1), ts);
        if head.prv != Prv::PrvHypervisor && lk.spec_lookup(head.prv, head.ctx, head.addr)
            is Some {
            seq![
                ProfileEvent {
                    open: false,
                    frame: lk.spec_lookup(head.prv, head.ctx, head.addr)->Some_0,
                    at: ts,
                },
            ] + rest
        } else {
            rest
        }
    }
}

/// The open events a run of frames produces at `ts`.
pub open spec fn open_events_of(lk: Lookup, frames: Seq<Frame>, ts: u64) -> Seq<ProfileEvent>
    decreases frames.len(),
{
    if frames.len() == 0 {
        Seq::empty()
    } else {
        let head = frames[0];
        let rest = open_events_of(lk, frames.skip(1), ts);
        if head.prv != Prv::PrvHypervisor && lk.spec_lookup(head.prv, head.ctx, head.addr)
            is Some {
            seq![
                ProfileEvent {
                    open: true,
                    frame: lk.spec_lookup(head.prv, head.ctx, head.addr)->Some_0,
                    at: ts,
                },
            ] + rest
        } else {
            rest
        }
    }
}

/// The events one stack update produces: the closures first, then the
/// openings.
pub open spec fn stack_update_events(
    lk: Lookup,
    r: Option<StackUpdateResult>,
    ts: u64,
) -> Seq<ProfileEvent> {
    match r {
        None => Seq::empty(),
        Some(u) => close_events_of(lk, u.frames_closed@, ts) + open_events_of(
            lk,
            u.frames_opened@,
            ts,
        ),
    }
}

/// The events an address-space change produces: nothing when the space is
/// unchanged; otherwise the old synthetic parent frame closes (unless it
/// was the boot space or has no id) and the new one opens (if it has an
/// id).
pub open spec fn asid_switch_events(lk: Lookup, cur: u64, ctx: u64, ts: u64) -> Seq<ProfileEvent> {
    if ctx == cur {
        Seq::empty()
    } else {
        (if cur != 0 && lk.asid_lookup@.contains_key(cur) {
            seq![ProfileEvent { open: false, frame: lk.asid_lookup@[cur], at: ts }]
        } else {
            Seq::<ProfileEvent>::empty()
        }) + (if lk.asid_lookup@.contains_key(ctx) {
            seq![ProfileEvent { open: true, frame: lk.asid_lookup@[ctx], at: ts }]
        } else {
            Seq::<ProfileEvent>::empty()
        })
    }
}

/// The event accumulator behind the flame-graph exporters: it follows the
/// unwinder's stack updates and translates them into open and close events
/// keyed by frame id and timestamp, with a synthetic parent frame per user
/// address space.
pub struct SpeedscopeCore {
    pub frames: Vec<FrameMeta>,
    pub frame_lookup: Lookup,
    pub start: u64,
    pub end: u64,
    pub events: Vec<ProfileEvent>,
    pub unwinder: StackUnwinder,
    pub curr_ctx: u64,
}

impl SpeedscopeCore {
    pub open spec fn wf(&self) -> bool {
        &&& self.unwinder.wf()
        &&& self.frame_lookup.wf()
    }

    pub fn new(unwinder: StackUnwinder, frames: Vec<FrameMeta>, frame_lookup: Lookup) -> (r:
        SpeedscopeCore)
        requires
            unwinder.wf(),
            frame_lookup.wf(),
        ensures
            r.wf(),
            r.start == 0 && r.end == 0 && r.curr_ctx == 0,
            r.events@.len() == 0,
    {
        SpeedscopeCore { frames, frame_lookup, start: 0, end: 0, events: Vec::new(), unwinder, curr_ctx: 0 }
    }

    /// Translate one stack update: closed frames emit close events, then
    /// an opened frame emits an open event; frames without an id are
    /// dropped.
    fn record_stack_update(&mut self, ts: u64, update: &StackUpdateResult)
        requires
            old(self).wf(),
        ensures
            final(self).wf(),
            final(self).unwinder == old(self).unwinder,
            final(self).curr_ctx == old(self).curr_ctx,
            final(self).start == old(self).start && final(self).end == old(self).end,
            final(self).frames == old(self).frames,
            final(self).frame_lookup == old(self).frame_lookup,
            final(self).events@ == old(self).events@ + close_events_of(
                old(self).frame_lookup,
                update.frames_closed@,
                ts,
            ) + open_events_of(old(self).frame_lookup, update.frames_opened@, ts),
    {
        proof {
            assert(update.frames_closed@.skip(0) =~= update.frames_closed@);
        }
        let mut i: usize = 0;
        while i < update.frames_closed.len()
            invariant
                self.wf(),
                self.unwinder == old(self).unwinder,
                self.curr_ctx == old(self).curr_ctx,
                self.start == old(self).start && self.end == old(self).end,
                self.frames == old(self).frames,
                self.frame_lookup == old(self).frame_lookup,
                i <= update.frames_closed@.len(),
                self.events@ + close_events_of(
                    self.frame_lookup,
                    update.frames_closed@.skip(i as int),
                    ts,
                ) == old(self).events@ + close_events_of(
                    self.frame_lookup,
                    update.frames_closed@,
                    ts,
                ),
            decreases update.frames_closed@.len() - i,
        {
            let ghost pre_events = self.events@;
            let ghost rest = update.frames_closed@.skip(i as int);
            let frame = &update.frames_closed[i];
            if frame.prv != Prv::PrvHypervisor {
                match self.frame_lookup.lookup(frame.prv, frame.ctx, frame.addr) {
                    Some(id) => {
                        self.events.push(ProfileEvent { open: false, frame: id, at: ts });
                    },
                    None => {},
                }
            }
            i = i + 1;
            proof {
                assert(rest[0] == update.frames_closed@[i - 1]);
                assert(rest.skip(1) =~= update.frames_closed@.skip(i as int));
                assert(self.events@ + close_events_of(
                    self.frame_lookup,
                    update.frames_closed@.skip(i as int),
                    ts,
                ) =~= pre_events + close_events_of(self.frame_lookup, rest, ts));
            }
        }
        proof {
            assert(update.frames_closed@.skip(update.frames_closed@.len() as int) =~= Seq::<
                Frame,
            >::empty());
            assert(self.events@ + Seq::<ProfileEvent>::empty() =~= self.events@);
            assert(update.frames_opened@.skip(0) =~= update.frames_opened@);
        }
        let ghost after_closes = self.events@;
        let mut i: usize = 0;
        while i < update.frames_opened.len()
            invariant
                self.wf(),
                self.unwinder == old(self).unwinder,
                self.curr_ctx == old(self).curr_ctx,
                self.start == old(self).start && self.end == old(self).end,
                self.frames == old(self).frames,
                self.frame_lookup == old(self).frame_lookup,
                i <= update.frames_opened@.len(),
                after_closes == old(self).events@ + close_events_of(
                    self.frame_lookup,
                    update.frames_closed@,
                    ts,
                ),
                self.events@ + open_events_of(
                    self.frame_lookup,
                    update.frames_opened@.skip(i as int),
                    ts,
                ) == after_closes + open_events_of(
                    self.frame_lookup,
                    update.frames_opened@,
                    ts,
                ),
            decreases update.frames_opened@.len() - i,
        {
            let ghost pre_events = self.events@;
            let ghost rest = update.frames_opened@.skip(i as int);
            let frame = &update.frames_opened[i];
            if frame.prv != Prv::PrvHypervisor {
                match self.frame_lookup.lookup(frame.prv, frame.ctx, frame.addr) {
                    Some(id) => {
                        self.events.push(ProfileEvent { open: true, frame: id, at: ts });
                    },
                    None => {},
                }
            }
            i = i + 1;
            proof {
                assert(rest[0] == update.frames_opened@[i - 1]);
                assert(rest.skip(1) =~= update.frames_opened@.skip(i as int));
                assert(self.events@ + open_events_of(
                    self.frame_lookup,
                    update.frames_opened@.skip(i as int),
                    ts,
                ) =~= pre_events + open_events_of(self.frame_lookup, rest, ts));
            }
        }
        proof {
            assert(update.frames_opened@.skip(update.frames_opened@.len() as int) =~= Seq::<
                Frame,
            >::empty());
            assert(self.events@ + Seq::<ProfileEvent>::empty() =~= self.events@);
        }
    }

    /// On an address-space change, close the old synthetic parent frame
    /// and open the new one.
    fn update_asid_frame(&mut self, ts: u64, ctx: u64)
        requires
            old(self).wf(),
        ensures
            final(self).wf(),
            final(self).unwinder == old(self).unwinder,
            final(self).curr_ctx == ctx,
            final(self).start == old(self).start && final(self).end == old(self).end,
            final(self).frames == old(self).frames,
            final(self).frame_lookup == old(self).frame_lookup,
            final(self).events@ == old(self).events@ + asid_switch_events(
                old(self).frame_lookup,
                old(self).curr_ctx,
                ctx,
                ts,
            ),
    {
        if ctx == self.curr_ctx {
            proof {
                assert(self.events@ + Seq::<ProfileEvent>::empty() =~= self.events@);
            }
            return ;
        }
        if self.curr_ctx != 0 {
            match self.frame_lookup.asid_lookup.get(&self.curr_ctx) {
                Some(id) => {
                    self.events.push(ProfileEvent { open: false, frame: *id, at: ts });
                },
                None => {},
            }
        }
        match self.frame_lookup.asid_lookup.get(&ctx) {
            Some(id) => {
                self.events.push(ProfileEvent { open: true, frame: *id, at: ts });
            },
            None => {},
        }
        self.curr_ctx = ctx;
        proof {
            assert(self.events@ =~= old(self).events@ + asid_switch_events(
                old(self).frame_lookup,
                old(self).curr_ctx,
                ctx,
                ts,
            ));
        }
    }

    /// Feed one entry: the unwinder's stack update becomes open and close
    /// events at the entry's timestamp; sync markers set the profile's
    /// bounds; a sync-start and a trap into user space with a known
    /// address space switch the synthetic parent frame.
    pub fn receive(&mut self, entry: &Entry)
        requires
            old(self).wf(),
            match entry {
                Entry::Event { kind: EventKind::SyncStart { start_prv, .. }, .. } => *start_prv
                    != Prv::PrvHypervisor,
                Entry::Event { kind: EventKind::Trap { prv_arc, .. }, .. } => prv_arc.1
                    != Prv::PrvHypervisor,
                _ => true,
            },
        ensures
            final(self).wf(),
            final(self).frames == old(self).frames,
            final(self).frame_lookup == old(self).frame_lookup,
            match entry {
                Entry::Instruction { .. } => *final(self) == *old(self),
                Entry::Event { timestamp, kind: EventKind::SyncStart { start_prv, start_ctx, .. } } => exists|
                    r: Option<StackUpdateResult>,
                |
                    {
                        &&& #[trigger] sync_start_post(
                            old(self).unwinder,
                            final(self).unwinder,
                            *start_prv,
                            *start_ctx,
                            r,
                        )
                        &&& final(self).events@ == old(self).events@ + stack_update_events(
                            old(self).frame_lookup,
                            r,
                            *timestamp,
                        ) + asid_switch_events(
                            old(self).frame_lookup,
                            old(self).curr_ctx,
                            *start_ctx,
                            *timestamp,
                        )
                        &&& final(self).start == *timestamp
                        &&& final(self).end == old(self).end
                        &&& final(self).curr_ctx == *start_ctx
                    },
                Entry::Event { timestamp, kind: EventKind::SyncEnd { .. } } => {
                    &&& final(self).end == *timestamp
                    &&& final(self).start == old(self).start
                    &&& final(self).curr_ctx == old(self).curr_ctx
                    &&& final(self).events@ == old(self).events@
                    &&& final(self).unwinder == old(self).unwinder
                },
                Entry::Event { timestamp, kind: EventKind::InferrableJump { arc } } => exists|
                    r: Option<StackUpdateResult>,
                |
                    {
                        &&& #[trigger] ij_post(
                            old(self).unwinder,
                            final(self).unwinder,
                            arc.1,
                            r,
                        )
                        &&& final(self).events@ == old(self).events@ + stack_update_events(
                            old(self).frame_lookup,
                            r,
                            *timestamp,
                        )
                        &&& final(self).start == old(self).start
                        &&& final(self).end == old(self).end
                        &&& final(self).curr_ctx == old(self).curr_ctx
                    },
                Entry::Event { timestamp, kind: EventKind::UninferableJump { arc } } => exists|
                    r: Option<StackUpdateResult>,
                |
                    {
                        &&& #[trigger] uj_post(
                            old(self).unwinder,
                            final(self).unwinder,
                            arc.1,
                            r,
                        )
                        &&& final(self).events@ == old(self).events@ + stack_update_events(
                            old(self).frame_lookup,
                            r,
                            *timestamp,
                        )
                        &&& final(self).start == old(self).start
                        &&& final(self).end == old(self).end
                        &&& final(self).curr_ctx == old(self).curr_ctx
                    },
                Entry::Event { timestamp, kind: EventKind::Trap { reason, prv_arc, arc, ctx } } => exists|
                    r: Option<StackUpdateResult>,
                |
                    {
                        &&& #[trigger] unwind_trap_post(
                            old(self).unwinder,
                            final(self).unwinder,
                            *reason,
                            *prv_arc,
                            arc.1,
                            *ctx,
                            r,
                        )
                        &&& final(self).events@ == old(self).events@ + stack_update_events(
                            old(self).frame_lookup,
                            r,
                            *timestamp,
                        ) + (if prv_arc.1 == Prv::PrvUser && (*ctx) is Some {
                            asid_switch_events(
                                old(self).frame_lookup,
                                old(self).curr_ctx,
                                (*ctx)->Some_0,
                                *timestamp,
                            )
                        } else {
                            Seq::<ProfileEvent>::empty()
                        })
                        &&& final(self).curr_ctx == (if prv_arc.1 == Prv::PrvUser && (*ctx)
                            is Some {
                            (*ctx)->Some_0
                        } else {
                            old(self).curr_ctx
                        })
                        &&& final(self).start == old(self).start
                        &&& final(self).end == old(self).end
                    },
                _ => *final(self) == *old(self),
            },
    {
        match entry {
            Entry::Instruction { .. } => {},
            Entry::Event { timestamp, kind } => {
                let update = self.unwinder.step(entry);
                let ghost gupdate = update;
                match update {
                    Some(update) => {
                        self.record_stack_update(*timestamp, &update);
                    },
                    None => {
                        proof {
                            assert(self.events@ + stack_update_events(
                                self.frame_lookup,
                                gupdate,
                                *timestamp,
                            ) =~= self.events@);
                        }
                    },
                }
                match kind {
                    EventKind::SyncStart { start_ctx, .. } => {
                        self.start = *timestamp;
                        self.update_asid_frame(*timestamp, *start_ctx);
                        self.curr_ctx = *start_ctx;
                    },
                    EventKind::SyncEnd { .. } => {
                        self.end = *timestamp;
                    },
                    EventKind::Trap { prv_arc, ctx, .. } => {
                        if prv_arc.1 == Prv::PrvUser {
                            match ctx {
                                Some(c) => {
                                    self.update_asid_frame(*timestamp, *c);
                                },
                                None => {
                                    proof {
                                        assert(self.events@ + Seq::<ProfileEvent>::empty()
                                            =~= self.events@);
                                    }
                                },
                            }
                        } else {
                            proof {
                                assert(self.events@ + Seq::<ProfileEvent>::empty()
                                    =~= self.events@);
                            }
                        }
                    },
                    _ => {},
                }
            },
        }
    }

    /// Close out the profile: settle the end time (the explicit sync end,
    /// else the last event's time, else zero), close every frame still
    /// open at it, and close the synthetic parent frame.
    pub fn finish(&mut self)
        requires
            old(self).wf(),
        ensures
            final(self).wf(),
            final(self).unwinder.frame_stack@.len() == 0,
            final(self).start == old(self).start,
            final(self).curr_ctx == old(self).curr_ctx,
            final(self).frames == old(self).frames,
            final(self).frame_lookup == old(self).frame_lookup,
            ({
                let settled = if old(self).end != 0 {
                    old(self).end
                } else if old(self).events@.len() > 0 {
                    old(self).events@.last().at
                } else {
                    0
                };
                &&& final(self).end == settled
                &&& final(self).events@ == old(self).events@ + close_events_of(
                    old(self).frame_lookup,
                    old(self).unwinder.frame_stack@,
                    settled,
                ) + (if old(self).curr_ctx != 0
                    && old(self).frame_lookup.asid_lookup@.contains_key(old(self).curr_ctx) {
                    seq![
                        ProfileEvent {
                            open: false,
                            frame: old(self).frame_lookup.asid_lookup@[old(self).curr_ctx],
                            at: settled,
                        },
                    ]
                } else {
                    Seq::<ProfileEvent>::empty()
                })
            }),
    {
        if self.end == 0 {
            let n = self.events.len();
            if n > 0 {
                self.end = self.events[n - 1].at;
            }
        }
        let end = self.end;
        let update = self.unwinder.flush();
        match update {
            Some(update) => {
                self.record_stack_update(end, &update);
                proof {
                    assert(open_events_of(self.frame_lookup, update.frames_opened@, end) =~= Seq::<
                        ProfileEvent,
                    >::empty());
                }
            },
            None => {},
        }
        let ghost before_asid = self.events@;
        if self.curr_ctx != 0 {
            match self.frame_lookup.asid_lookup.get(&self.curr_ctx) {
                Some(id) => {
                    let ev = ProfileEvent { open: false, frame: *id, at: end };
                    self.events.push(ev);
                },
                None => {
                    proof {
                        assert(self.events@ + Seq::<ProfileEvent>::empty() =~= self.events@);
                    }
                },
            }
        } else {
            proof {
                assert(self.events@ + Seq::<ProfileEvent>::empty() =~= self.events@);
            }
        }
    }
}

} // verus!
