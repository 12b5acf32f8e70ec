use vstd::prelude::*;
use crate::bp::BpDoubleSaturatingCounter;
use crate::decoder_cache::{cache_contents, BasicBlockStats, DecoderCache};
use crate::error::DecodeError;
use crate::event::{Entry, EventKind, TrapReason};
use crate::headers::FHeader;
use crate::insn::Insn;
use crate::insn_index::InstructionIndex;
use crate::packet::{Packet, SubFunc3};
use crate::pc::{sign_extend_40, spec_refund, refund_addr, ADDR_MASK, PC};
use crate::prv::Prv;
use crate::runtime_cfg::{BrMode, DecoderRuntimeCfg};
use crate::trap_type::TrapType;
use std::collections::HashMap;

verus! {

broadcast use vstd::std_specs::hash::group_hash_axioms;

/// The program counter moved by a pc-relative immediate, with 64-bit wrap.
pub open spec fn add_offset(pc: u64, off: i32) -> u64 {
    vstd::wrapping::u64_specs::wrapping_add_signed(pc, off as i64)
}

/// The program counter moved past one instruction, with 64-bit wrap.
pub open spec fn add_len(pc: u64, len: u8) -> u64 {
    vstd::wrapping::u64_specs::wrapping_add(pc, len as u64)
}

/// Where one straight-line walk ends.
pub enum WalkOutcome {
    /// A stopping instruction was reached at this address.
    Stop(u64),
    /// This address is missing from the instruction map.
    Missing(u64),
    /// The walk did not settle within the given fuel.
    Spin,
}

/// Whether block walking stops at this instruction: in target mode at any
/// control-flow change, in predict mode only at branches and indirect jumps
/// (direct jumps are resolved silently).
pub open spec fn bb_stops(i: Insn, stop_on_ij: bool) -> bool {
    if stop_on_ij {
        i.spec_is_cfc()
    } else {
        i.is_branch || i.is_indirect_jump
    }
}

/// The next address of a block walk: direct jumps are followed in predict
/// mode, everything else falls through.
pub open spec fn bb_next(pc: u64, i: Insn, stop_on_ij: bool) -> u64 {
    if !stop_on_ij && i.is_direct_jump {
        add_offset(pc, i.offset)
    } else {
        add_len(pc, i.len)
    }
}

/// Walk straight-line code from `pc` until a stopping instruction, for at
/// most `fuel` steps.
pub open spec fn walk_bb(m: Map<u64, Insn>, pc: u64, stop_on_ij: bool, fuel: nat) -> WalkOutcome
    decreases fuel,
{
    if !m.contains_key(pc) {
        WalkOutcome::Missing(pc)
    } else if bb_stops(m[pc], stop_on_ij) {
        WalkOutcome::Stop(pc)
    } else if fuel == 0 {
        WalkOutcome::Spin
    } else {
        walk_bb(m, bb_next(pc, m[pc], stop_on_ij), stop_on_ij, (fuel - 1) as nat)
    }
}

/// Whether a walk toward a known target stops at this instruction.
pub open spec fn until_stops(i: Insn) -> bool {
    i.is_branch || i.is_direct_jump
}

/// Walk straight-line code from `pc` until a branch or direct jump, or
/// until `target` is reached, for at most `fuel` steps. The target check
/// comes second: a stopping instruction at the target still stops there.
pub open spec fn walk_until(m: Map<u64, Insn>, pc: u64, target: u64, fuel: nat) -> WalkOutcome
    decreases fuel,
{
    if !m.contains_key(pc) {
        WalkOutcome::Missing(pc)
    } else if until_stops(m[pc]) {
        WalkOutcome::Stop(pc)
    } else if pc == target {
        WalkOutcome::Stop(pc)
    } else if fuel == 0 {
        WalkOutcome::Spin
    } else {
        walk_until(m, add_len(pc, m[pc].len), target, (fuel - 1) as nat)
    }
}

/// Every cached block end is the real end of a walk from its key in the
/// map the cache was filled against.
pub open spec fn cache_ok(c: Map<u64, BasicBlockStats>, m: Map<u64, Insn>, stop_on_ij: bool) -> bool {
    forall|k: u64|
        #[trigger] c.contains_key(k) ==> exists|fuel: nat|
            walk_bb(m, k, stop_on_ij, fuel) == WalkOutcome::Stop(c[k].target_pc)
}

/// Walk to the next stopping instruction, memoizing the result keyed by the
/// starting address. A walk that runs longer than the map has instructions
/// has revisited an address and can never stop, so it is cut off as a
/// desynchronized trace.
pub fn step_bb(map: &HashMap<u64, Insn>, cache: &mut DecoderCache, pc: u64, stop_on_ij: bool) -> (r:
    Result<u64, DecodeError>)
    requires
        cache_ok(cache_contents(*old(cache)), map@, stop_on_ij),
    ensures
        cache_ok(cache_contents(*final(cache)), map@, stop_on_ij),
        match r {
            Ok(end) => cache_contents(*final(cache)).contains_key(pc) && cache_contents(
                *final(cache),
            )[pc].target_pc == end && exists|fuel: nat|
                walk_bb(map@, pc, stop_on_ij, fuel) == WalkOutcome::Stop(end),
            Err(e) => {
                ||| (e == DecodeError::MissingInstruction && exists|fuel: nat, a: u64|
                    walk_bb(map@, pc, stop_on_ij, fuel) == WalkOutcome::Missing(a))
                ||| (e == DecodeError::TraceDesync && exists|fuel: nat|
                    fuel >= map@.len() && walk_bb(map@, pc, stop_on_ij, fuel)
                        == WalkOutcome::Spin)
            },
        },
{
    match cache.get(pc) {
        Some(stats) => {
            return Ok(stats.target_pc);
        },
        None => {},
    }
    let bound: u64 = map.len() as u64;
    let mut cur: u64 = pc;
    let mut steps: u64 = 0;
    loop
        invariant_except_break
            cache_ok(cache_contents(*cache), map@, stop_on_ij),
            steps <= bound,
            bound == map@.len(),
            forall|f: nat|
                #[trigger] walk_bb(map@, cur, stop_on_ij, f) == walk_bb(
                    map@,
                    pc,
                    stop_on_ij,
                    (f + steps) as nat,
                ),
        ensures
            cache_ok(cache_contents(*cache), map@, stop_on_ij),
            map@.contains_key(cur),
            bb_stops(map@[cur], stop_on_ij),
            exists|fuel: nat| walk_bb(map@, pc, stop_on_ij, fuel) == WalkOutcome::Stop(cur),
        decreases bound - steps,
    {
        match map.get(&cur) {
            None => {
                proof {
                    assert(walk_bb(map@, cur, stop_on_ij, 0nat) == WalkOutcome::Missing(cur));
                    assert(walk_bb(map@, pc, stop_on_ij, 0nat + (steps as nat))
                        == WalkOutcome::Missing(cur));
                }
                return Err(DecodeError::MissingInstruction);
            },
            Some(insn) => {
                let stops = if stop_on_ij {
                    insn.is_cfc_insn()
                } else {
                    insn.is_branch || insn.is_indirect_jump
                };
                if stops {
                    proof {
                        assert(walk_bb(map@, cur, stop_on_ij, 0nat) == WalkOutcome::Stop(cur));
                        assert(walk_bb(map@, pc, stop_on_ij, 0nat + (steps as nat))
                            == WalkOutcome::Stop(cur));
                    }
                    break;
                }
                if steps >= bound {
                    proof {
                        assert(walk_bb(map@, cur, stop_on_ij, 0nat) == WalkOutcome::Spin);
                        assert(walk_bb(map@, pc, stop_on_ij, 0nat + (steps as nat))
                            == WalkOutcome::Spin);
                    }
                    return Err(DecodeError::TraceDesync);
                }
                let next = if !stop_on_ij && insn.is_direct_jump {
                    cur.wrapping_add_signed(insn.offset as i64)
                } else {
                    cur.wrapping_add(insn.len as u64)
                };
                proof {
                    assert(next == bb_next(cur, map@[cur], stop_on_ij));
                    assert forall|f: nat|
                        #[trigger] walk_bb(map@, next, stop_on_ij, f) == walk_bb(
                            map@,
                            pc,
                            stop_on_ij,
                            f + ((steps + 1) as nat),
                        ) by {
                        assert(walk_bb(map@, cur, stop_on_ij, (f + 1) as nat) == walk_bb(
                            map@,
                            next,
                            stop_on_ij,
                            f,
                        ));
                        assert(walk_bb(map@, cur, stop_on_ij, (f + 1) as nat) == walk_bb(
                            map@,
                            pc,
                            stop_on_ij,
                            ((f + 1) + steps) as nat,
                        ));
                    }
                }
                cur = next;
                steps = steps + 1;
            },
        }
    }
    cache.insert(pc, BasicBlockStats { target_pc: cur, num_instructions: steps });
    Ok(cur)
}

/// Walk straight-line code until a branch or direct jump is hit or `target`
/// is reached, whichever comes first. As in block walking, a walk longer
/// than the map spins forever and is cut off.
pub fn step_bb_until(map: &HashMap<u64, Insn>, pc: u64, target: u64) -> (r: Result<
    u64,
    DecodeError,
>)
    ensures
        match r {
            Ok(end) => exists|fuel: nat| walk_until(map@, pc, target, fuel) == WalkOutcome::Stop(
                end,
            ),
            Err(e) => {
                ||| (e == DecodeError::MissingInstruction && exists|fuel: nat, a: u64|
                    walk_until(map@, pc, target, fuel) == WalkOutcome::Missing(a))
                ||| (e == DecodeError::TraceDesync && exists|fuel: nat|
                    fuel >= map@.len() && walk_until(map@, pc, target, fuel)
                        == WalkOutcome::Spin)
            },
        },
{
    let bound: u64 = map.len() as u64;
    let mut cur: u64 = pc;
    let mut steps: u64 = 0;
    loop
        invariant_except_break
            steps <= bound,
            bound == map@.len(),
            forall|f: nat|
                #[trigger] walk_until(map@, cur, target, f) == walk_until(
                    map@,
                    pc,
                    target,
                    (f + steps) as nat,
                ),
        ensures
            exists|fuel: nat| walk_until(map@, pc, target, fuel) == WalkOutcome::Stop(cur),
        decreases bound - steps,
    {
        match map.get(&cur) {
            None => {
                proof {
                    assert(walk_until(map@, cur, target, 0nat) == WalkOutcome::Missing(cur));
                    assert(walk_until(map@, pc, target, 0nat + (steps as nat))
                        == WalkOutcome::Missing(cur));
                }
                return Err(DecodeError::MissingInstruction);
            },
            Some(insn) => {
                if insn.is_branch || insn.is_direct_jump {
                    proof {
                        assert(walk_until(map@, cur, target, 0nat) == WalkOutcome::Stop(cur));
                        assert(walk_until(map@, pc, target, 0nat + (steps as nat))
                            == WalkOutcome::Stop(cur));
                    }
                    break;
                }
                if cur == target {
                    proof {
                        assert(walk_until(map@, cur, target, 0nat) == WalkOutcome::Stop(cur));
                        assert(walk_until(map@, pc, target, 0nat + (steps as nat))
                            == WalkOutcome::Stop(cur));
                    }
                    break;
                }
                if steps >= bound {
                    proof {
                        assert(walk_until(map@, cur, target, 0nat) == WalkOutcome::Spin);
                        assert(walk_until(map@, pc, target, 0nat + (steps as nat))
                            == WalkOutcome::Spin);
                    }
                    return Err(DecodeError::TraceDesync);
                }
                let next = cur.wrapping_add(insn.len as u64);
                proof {
                    assert forall|f: nat|
                        #[trigger] walk_until(map@, next, target, f) == walk_until(
                            map@,
                            pc,
                            target,
                            f + ((steps + 1) as nat),
                        ) by {
                        assert(walk_until(map@, cur, target, (f + 1) as nat) == walk_until(
                            map@,
                            next,
                            target,
                            f,
                        ));
                        assert(walk_until(map@, cur, target, (f + 1) as nat) == walk_until(
                            map@,
                            pc,
                            target,
                            ((f + 1) + steps) as nat,
                        ));
                    }
                }
                cur = next;
                steps = steps + 1;
            },
        }
    }
    Ok(cur)
}

/// Whether an address space identifier is configured.
pub fn find_ctx(ctx: u64, known_ctxs: &Vec<u64>) -> (r: bool)
    ensures
        r == known_ctxs@.contains(ctx),
{
    let mut i: usize = 0;
    while i < known_ctxs.len()
        invariant
            i <= known_ctxs@.len(),
            forall|j: int| 0 <= j < i ==> known_ctxs@[j] != ctx,
        decreases known_ctxs@.len() - i,
    {
        if known_ctxs[i] == ctx {
            return true;
        }
        i = i + 1;
    }
    false
}

/// What one packet produced: the events to broadcast in order, whether the
/// trace ended cleanly, and the fatal error if decoding must stop. On a
/// fatal instruction-kind mismatch the events end with a panic marker, as
/// the sinks expect.
pub struct ProcessOutcome {
    pub events: Vec<Entry>,
    pub end: bool,
    pub fatal: Option<DecodeError>,
}

/// The packet-driven frontend: walks the instruction index under a virtual
/// program counter, a branch-prediction model and privilege and context
/// state, and turns each packet into typed events.
pub struct Decoder {
    pub pc: PC,
    pub timestamp: u64,
    pub prv: Prv,
    pub ctx: u64,
    pub u_unknown_ctx: bool,
    pub br_mode: BrMode,
    pub bp_counter: BpDoubleSaturatingCounter,
    pub insn_index: InstructionIndex,
    pub known_ctxs: Vec<u64>,
    pub u_cache: DecoderCache,
    pub k_cache: DecoderCache,
    pub m_cache: DecoderCache,
}

impl Decoder {
    /// In target mode every control-flow change ends a block.
    pub open spec fn stop_on_ij(&self) -> bool {
        self.br_mode == BrMode::BrTarget
    }

    /// The instruction map the decoder currently walks.
    pub open spec fn cur_map(&self) -> Map<u64, Insn> {
        self.insn_index.spec_map_for(self.prv, self.ctx)
    }

    pub open spec fn wf(&self) -> bool {
        &&& self.insn_index.wf()
        &&& self.bp_counter.wf()
        &&& (self.br_mode == BrMode::BrPredict ==> self.bp_counter.spec_entries() > 0)
        &&& self.prv != Prv::PrvHypervisor
        &&& cache_ok(
            cache_contents(self.u_cache),
            self.insn_index.spec_map_for(Prv::PrvUser, self.ctx),
            self.stop_on_ij(),
        )
        &&& cache_ok(
            cache_contents(self.k_cache),
            self.insn_index.spec_map_for(Prv::PrvSupervisor, 0),
            self.stop_on_ij(),
        )
        &&& cache_ok(
            cache_contents(self.m_cache),
            self.insn_index.spec_map_for(Prv::PrvMachine, 0),
            self.stop_on_ij(),
        )
    }

    /// Seed the decoder from the opening sync-start record and hand back the
    /// sync-start event to broadcast.
    pub fn new(
        first_packet: &Packet,
        runtime_cfg: DecoderRuntimeCfg,
        insn_index: InstructionIndex,
        known_ctxs: Vec<u64>,
    ) -> (r: (Decoder, Entry))
        requires
            insn_index.wf(),
            first_packet.target_prv != Prv::PrvHypervisor,
            runtime_cfg.br_mode == BrMode::BrPredict ==> runtime_cfg.bp_entries > 0,
            runtime_cfg.bp_entries <= usize::MAX,
        ensures
            r.0.wf(),
            r.0.pc.addr == first_packet.target_address << 1,
            r.0.timestamp == first_packet.timestamp,
            r.0.prv == first_packet.target_prv,
            r.0.ctx == first_packet.target_ctx,
            !r.0.u_unknown_ctx,
            r.0.br_mode == runtime_cfg.br_mode,
            r.0.known_ctxs == known_ctxs,
            r.0.insn_index == insn_index,
            r.1 == (Entry::Event {
                timestamp: first_packet.timestamp,
                kind: EventKind::SyncStart {
                    runtime_cfg,
                    start_pc: sign_extend_40(first_packet.target_address << 1),
                    start_prv: first_packet.target_prv,
                    start_ctx: first_packet.target_ctx,
                },
            }),
    {
        let mut pc = PC::new(first_packet.target_address);
        let start_pc = pc.get_addr();
        let entry = Entry::event(
            EventKind::sync_start(
                runtime_cfg,
                start_pc,
                first_packet.target_prv,
                first_packet.target_ctx,
            ),
            first_packet.timestamp,
        );
        let decoder = Decoder {
            pc,
            timestamp: first_packet.timestamp,
            prv: first_packet.target_prv,
            ctx: first_packet.target_ctx,
            u_unknown_ctx: false,
            br_mode: runtime_cfg.br_mode,
            bp_counter: BpDoubleSaturatingCounter::new(runtime_cfg.bp_entries),
            insn_index,
            known_ctxs,
            u_cache: DecoderCache::new(),
            k_cache: DecoderCache::new(),
            m_cache: DecoderCache::new(),
        };
        (decoder, entry)
    }
}

/// An event that counts as a branch outcome.
pub open spec fn is_branch_event(e: Entry) -> bool {
    match e {
        Entry::Event { kind: EventKind::TakenBranch { .. }, .. } => true,
        Entry::Event { kind: EventKind::NonTakenBranch { .. }, .. } => true,
        _ => false,
    }
}

/// Number of branch outcome events in a run of entries.
pub open spec fn branch_event_count(s: Seq<Entry>) -> int
    decreases s.len(),
{
    if s.len() == 0 {
        0
    } else {
        branch_event_count(s.drop_last()) + if is_branch_event(s.last()) {
            1int
        } else {
            0int
        }
    }
}

/// Sum of the hit counts carried by prediction-hit events.
pub open spec fn bphit_total(s: Seq<Entry>) -> int
    decreases s.len(),
{
    if s.len() == 0 {
        0
    } else {
        bphit_total(s.drop_last()) + (match s.last() {
            Entry::Event { kind: EventKind::BPHit { hit_count }, .. } => hit_count as int,
            _ => 0int,
        })
    }
}

/// Number of prediction-miss events.
pub open spec fn bpmiss_count(s: Seq<Entry>) -> int
    decreases s.len(),
{
    if s.len() == 0 {
        0
    } else {
        bpmiss_count(s.drop_last()) + (match s.last() {
            Entry::Event { kind: EventKind::BPMiss, .. } => 1int,
            _ => 0int,
        })
    }
}

/// Every branch or jump event agrees with the instruction map it was
/// decoded against: the instruction at the arc's source satisfies the
/// matching predicate, and the arc's target is the one that instruction
/// implies, sign extended on observation. Taken branches and inferrable
/// jumps land at source plus offset; non-taken branches fall through by
/// the instruction's length.
pub open spec fn cf_event_ok(m: Map<u64, Insn>, kind: EventKind) -> bool {
    match kind {
        EventKind::TakenBranch { arc } => m.contains_key(arc.0) && m[arc.0].is_branch && arc.1
            == sign_extend_40(add_offset(arc.0, m[arc.0].offset)),
        EventKind::NonTakenBranch { arc } => m.contains_key(arc.0) && m[arc.0].is_branch && arc.1
            == sign_extend_40(add_len(arc.0, m[arc.0].len)),
        EventKind::InferrableJump { arc } => m.contains_key(arc.0) && m[arc.0].is_direct_jump
            && arc.1 == sign_extend_40(add_offset(arc.0, m[arc.0].offset)),
        EventKind::UninferableJump { arc } => m.contains_key(arc.0) && m[arc.0].is_indirect_jump,
        _ => true,
    }
}

/// The marker broadcast just before the decoder dies, so the sinks can
/// finalize.
pub open spec fn panic_entry() -> Entry {
    Entry::Event { timestamp: 0, kind: EventKind::Panic }
}

/// What processing an `FSync` record guarantees: the decoder walks to the
/// record's refunded target address, emits one sync-end event there, and
/// ends the trace; nothing else changes. On a fatal error the panic marker
/// is the only event.
pub open spec fn sync_end_post(pre: Decoder, post: Decoder, packet: Packet, out: ProcessOutcome) -> bool {
    let m = pre.cur_map();
    let start = sign_extend_40(pre.pc.addr);
    let target = spec_refund(packet.target_address);
    &&& (out.fatal is None ==> {
        &&& out.end
        &&& (exists|fuel: nat| walk_until(m, start, target, fuel) == WalkOutcome::Stop(post.pc.addr))
        &&& out.events@ =~= seq![
            Entry::Event {
                timestamp: packet.timestamp,
                kind: EventKind::SyncEnd { end_pc: sign_extend_40(post.pc.addr) },
            },
        ]
        &&& post == (Decoder { pc: post.pc, ..pre })
        &&& branch_event_count(out.events@) == 0 && bphit_total(out.events@) == 0
            && bpmiss_count(out.events@) == 0
    })
    &&& (out.fatal matches Some(e) ==> {
        &&& !out.end
        &&& out.events@ =~= seq![panic_entry()]
        &&& post == pre
        &&& {
            ||| (e == DecodeError::MissingInstruction && exists|fuel: nat, a: u64|
                walk_until(m, start, target, fuel) == WalkOutcome::Missing(a))
            ||| (e == DecodeError::TraceDesync && exists|fuel: nat|
                fuel >= m.len() && walk_until(m, start, target, fuel) == WalkOutcome::Spin)
        }
    })
}

/// What processing an `FTrap` record guarantees. Unless user code is being
/// skipped in an unknown address space, the decoder walks to the trapping
/// address and checks arrival; it then advances time, adopts the target
/// privilege, decodes the new program counter with the delta-xor codec, and
/// emits exactly one trap event. A return to user space carries the target
/// address space: an indexed one is adopted and reported, an unindexed one
/// puts the decoder into unknown-context mode with no address space
/// reported. On a fatal error the state is untouched and the panic marker
/// is the only event: either the walk hit a missing address, or it stopped
/// somewhere other than the trapping address (or could never stop).
pub open spec fn trap_post(pre: Decoder, post: Decoder, packet: Packet, out: ProcessOutcome) -> bool {
    let tt = packet.func3->TrapType_0;
    let m = pre.cur_map();
    let start = sign_extend_40(pre.pc.addr);
    let trapping = spec_refund(packet.from_address);
    let skip_walk = pre.u_unknown_ctx && pre.prv == Prv::PrvUser;
    let from_rep = sign_extend_40(trapping);
    let xored = (trapping & ADDR_MASK) ^ (packet.target_address << 1);
    let to_rep = sign_extend_40(xored);
    let report_ctx = tt == TrapType::TReturn && packet.target_prv == Prv::PrvUser;
    let known = pre.known_ctxs@.contains(packet.target_ctx);
    let reason = TrapReason::spec_of_trap_type(tt);
    &&& !out.end
    &&& (out.fatal is None ==> {
        &&& (!skip_walk ==> exists|fuel: nat|
            walk_until(m, start, trapping, fuel) == WalkOutcome::Stop(trapping))
        &&& post.timestamp == pre.timestamp.saturating_add(packet.timestamp)
        &&& post.prv == packet.target_prv
        &&& post.pc.addr == xored
        &&& post.ctx == (if report_ctx && known {
            packet.target_ctx
        } else {
            pre.ctx
        })
        &&& post.u_unknown_ctx == (if report_ctx {
            !known
        } else {
            pre.u_unknown_ctx
        })
        &&& out.events@ =~= seq![
            Entry::Event {
                timestamp: post.timestamp,
                kind: EventKind::Trap {
                    reason,
                    prv_arc: (pre.prv, packet.target_prv),
                    arc: (from_rep, to_rep),
                    ctx: if report_ctx && known {
                        Some(packet.target_ctx)
                    } else {
                        None
                    },
                },
            },
        ]
        &&& branch_event_count(out.events@) == 0 && bphit_total(out.events@) == 0
            && bpmiss_count(out.events@) == 0
    })
    &&& (out.fatal matches Some(e) ==> {
        &&& out.events@ =~= seq![panic_entry()]
        &&& post == pre
        &&& !skip_walk
        &&& exists|w: u64| #[trigger] trap_fatal_witness(pre, packet, e, w)
    })
}

/// Why a trap walk died, with its witness: the walk toward the trapping
/// address hit a missing address, or it stopped at `w`, an address other
/// than the trapping one (a walk that can never stop counts as never
/// arriving).
#[verifier::opaque]
pub open spec fn trap_fatal_witness(pre: Decoder, packet: Packet, e: DecodeError, w: u64) -> bool {
    let m = pre.cur_map();
    let start = sign_extend_40(pre.pc.addr);
    let trapping = spec_refund(packet.from_address);
    match e {
        DecodeError::MissingInstruction => exists|fuel: nat, a: u64|
            walk_until(m, start, trapping, fuel) == WalkOutcome::Missing(a),
        DecodeError::TraceDesync => {
            ||| ((exists|fuel: nat| walk_until(m, start, trapping, fuel) == WalkOutcome::Stop(w))
                && w != trapping)
            ||| (exists|fuel: nat|
                #![trigger walk_until(m, start, trapping, fuel)]
                {
                    &&& fuel >= m.len()
                    &&& walk_until(m, start, trapping, fuel) == WalkOutcome::Spin
                })
        },
        _ => false,
    }
}

impl Decoder {
    /// Walk out the trace's final stretch and emit the closing sync event.
    pub fn handle_sync_end(&mut self, packet: &Packet) -> (out: ProcessOutcome)
        requires
            old(self).wf(),
            packet.f_header == FHeader::FSync,
        ensures
            final(self).wf(),
            final(self).timestamp >= old(self).timestamp,
            sync_end_post(*old(self), *final(self), *packet, out),
    {
        let map = self.insn_index.get(self.prv, self.ctx);
        let target = refund_addr(packet.target_address);
        let start = self.pc.get_addr();
        let new_pc = match step_bb_until(map, start, target) {
            Ok(p) => p,
            Err(e) => {
                let mut events: Vec<Entry> = Vec::new();
                events.push(Entry::event(EventKind::panic(), 0));
                return ProcessOutcome { events, end: false, fatal: Some(e) };
            },
        };
        self.pc.set_addr(new_pc);
        let end_pc = self.pc.get_addr();
        let mut events: Vec<Entry> = Vec::new();
        events.push(Entry::event(EventKind::sync_end(end_pc), packet.timestamp));
        proof {
            assert(events@.drop_last() =~= Seq::<Entry>::empty());
            assert(branch_event_count(Seq::<Entry>::empty()) == 0);
            assert(bphit_total(Seq::<Entry>::empty()) == 0);
            assert(bpmiss_count(Seq::<Entry>::empty()) == 0);
        }
        ProcessOutcome { events, end: true, fatal: None }
    }

    /// Cross a privilege boundary: walk to the trapping instruction, adopt
    /// the new privilege and address space, and decode the new program
    /// counter from the xored target address.
    pub fn handle_trap(&mut self, packet: &Packet) -> (out: ProcessOutcome)
        requires
            old(self).wf(),
            packet.f_header == FHeader::FTrap,
            packet.func3 matches SubFunc3::TrapType(tt) && tt != TrapType::TNone,
            packet.target_prv != Prv::PrvHypervisor,
        ensures
            final(self).wf(),
            final(self).timestamp >= old(self).timestamp,
            final(self).br_mode == old(self).br_mode,
            final(self).known_ctxs == old(self).known_ctxs,
            final(self).insn_index == old(self).insn_index,
            trap_post(*old(self), *final(self), *packet, out),
    {
        let trap_type = match packet.func3 {
            SubFunc3::TrapType(t) => t,
            _ => {
                proof {
                    assert(false);
                }
                TrapType::TException
            },
        };
        let trapping_pc = refund_addr(packet.from_address);
        if !(self.u_unknown_ctx && self.prv == Prv::PrvUser) {
            let map = self.insn_index.get(self.prv, self.ctx);
            let start = self.pc.get_addr();
            let new_pc = match step_bb_until(map, start, trapping_pc) {
                Ok(p) => p,
                Err(e) => {
                    let mut events: Vec<Entry> = Vec::new();
                    events.push(Entry::event(EventKind::panic(), 0));
                    proof {
                        assert(trap_fatal_witness(*old(self), *packet, e, 0)) by {
                            reveal(trap_fatal_witness);
                            assert(map@ == old(self).cur_map());
                            assert(start == sign_extend_40(old(self).pc.addr));
                            assert(trapping_pc == spec_refund(packet.from_address));
                        };
                    }
                    return ProcessOutcome { events, end: false, fatal: Some(e) };
                },
            };
            if new_pc != trapping_pc {
                let mut events: Vec<Entry> = Vec::new();
                events.push(Entry::event(EventKind::panic(), 0));
                proof {
                    assert(trap_fatal_witness(
                        *old(self),
                        *packet,
                        DecodeError::TraceDesync,
                        new_pc,
                    )) by {
                        reveal(trap_fatal_witness);
                        assert(map@ == old(self).cur_map());
                        assert(start == sign_extend_40(old(self).pc.addr));
                        assert(trapping_pc == spec_refund(packet.from_address));
                    };
                }
                return ProcessOutcome {
                    events,
                    end: false,
                    fatal: Some(DecodeError::TraceDesync),
                };
            }
        }
        self.timestamp = self.timestamp.saturating_add(packet.timestamp);
        let report_ctx = trap_type == TrapType::TReturn && packet.target_prv == Prv::PrvUser;
        let old_prv = self.prv;
        self.prv = packet.target_prv;
        self.pc.set_addr(trapping_pc);
        let trapping_pc_to_report = self.pc.get_addr();
        let new_pc = self.pc.compute_from_xored_target_addr(packet.target_address);
        self.pc.set_addr(new_pc);
        let new_pc_to_report = self.pc.get_addr();
        let reason = TrapReason::of_trap_type(trap_type);
        let mut events: Vec<Entry> = Vec::new();
        if report_ctx {
            if find_ctx(packet.target_ctx, &self.known_ctxs) {
                if self.ctx != packet.target_ctx {
                    self.u_cache.reset();
                }
                self.ctx = packet.target_ctx;
                self.u_unknown_ctx = false;
                events.push(
                    Entry::event(
                        EventKind::trap_with_ctx(
                            reason,
                            (old_prv, packet.target_prv),
                            (trapping_pc_to_report, new_pc_to_report),
                            packet.target_ctx,
                        ),
                        self.timestamp,
                    ),
                );
            } else {
                self.u_unknown_ctx = true;
                events.push(
                    Entry::event(
                        EventKind::trap(
                            reason,
                            (old_prv, packet.target_prv),
                            (trapping_pc_to_report, new_pc_to_report),
                        ),
                        self.timestamp,
                    ),
                );
            }
        } else {
            events.push(
                Entry::event(
                    EventKind::trap(
                        reason,
                        (old_prv, packet.target_prv),
                        (trapping_pc_to_report, new_pc_to_report),
                    ),
                    self.timestamp,
                ),
            );
        }
        proof {
            assert(events@.drop_last() =~= Seq::<Entry>::empty());
            assert(branch_event_count(Seq::<Entry>::empty()) == 0);
            assert(bphit_total(Seq::<Entry>::empty()) == 0);
            assert(bpmiss_count(Seq::<Entry>::empty()) == 0);
        }
        ProcessOutcome { events, end: false, fatal: None }
    }
}

/// What processing a branch or jump record guarantees outside prediction
/// handling. In an unknown user address space the packet is skipped and
/// only time advances. Otherwise the decoder walks to the end of the
/// current block, requires the instruction kind the family demands, and
/// emits exactly one event whose arc follows that instruction: a taken
/// branch or inferrable jump lands at source plus offset, a non-taken
/// branch falls through, and an uninferable jump's target comes from the
/// delta-xor codec applied to the packet's address — every reported target
/// sign extended on observation, the program counter keeping the raw
/// value. Each fatal error carries its evidence: a missing address on the
/// walk or at its sign-extended endpoint, a walk that can never stop, or a
/// stop instruction without the demanded predicate; the panic marker is
/// broadcast and the privilege, address-space and predictor state are
/// untouched.
pub open spec fn cf_post(pre: Decoder, post: Decoder, packet: Packet, out: ProcessOutcome) -> bool {
    let m = pre.cur_map();
    let start = sign_extend_40(pre.pc.addr);
    let skip = pre.u_unknown_ctx && pre.prv == Prv::PrvUser;
    &&& !out.end
    &&& (skip ==> {
        &&& out.fatal is None
        &&& out.events@.len() == 0
        &&& post == (Decoder { timestamp: pre.timestamp.saturating_add(packet.timestamp), ..pre })
    })
    &&& ((!skip && out.fatal is None) ==> {
        &&& post.timestamp == pre.timestamp.saturating_add(packet.timestamp)
        &&& post.prv == pre.prv && post.ctx == pre.ctx && post.u_unknown_ctx == pre.u_unknown_ctx
        &&& post.bp_counter == pre.bp_counter
        &&& out.events@.len() == 1
        &&& (exists|fuel: nat, end: u64|
            #![trigger walk_bb(m, start, pre.stop_on_ij(), fuel), sign_extend_40(end)]
            {
                let from = sign_extend_40(end);
                &&& walk_bb(m, start, pre.stop_on_ij(), fuel) == WalkOutcome::Stop(end)
                &&& m.contains_key(from)
                &&& match packet.f_header {
                    FHeader::FTb => {
                        let to = add_offset(from, m[from].offset);
                        &&& m[from].is_branch
                        &&& post.pc.addr == to
                        &&& out.events@[0] == (Entry::Event {
                            timestamp: post.timestamp,
                            kind: EventKind::TakenBranch { arc: (from, sign_extend_40(to)) },
                        })
                    },
                    FHeader::FNt => {
                        let to = add_len(from, m[from].len);
                        &&& m[from].is_branch
                        &&& post.pc.addr == to
                        &&& out.events@[0] == (Entry::Event {
                            timestamp: post.timestamp,
                            kind: EventKind::NonTakenBranch { arc: (from, sign_extend_40(to)) },
                        })
                    },
                    FHeader::FIj => {
                        let to = add_offset(from, m[from].offset);
                        &&& m[from].is_direct_jump
                        &&& post.pc.addr == to
                        &&& out.events@[0] == (Entry::Event {
                            timestamp: post.timestamp,
                            kind: EventKind::InferrableJump { arc: (from, sign_extend_40(to)) },
                        })
                    },
                    FHeader::FUj => {
                        let xored = (end & ADDR_MASK) ^ (packet.target_address << 1);
                        let to = sign_extend_40(xored);
                        &&& m[from].is_indirect_jump
                        &&& post.pc.addr == xored
                        &&& to == sign_extend_40((from & ADDR_MASK) ^ (packet.target_address << 1))
                        &&& out.events@[0] == (Entry::Event {
                            timestamp: post.timestamp,
                            kind: EventKind::UninferableJump { arc: (from, to) },
                        })
                    },
                    _ => false,
                }
            })
        &&& branch_event_count(out.events@) == (if packet.f_header == FHeader::FTb
            || packet.f_header == FHeader::FNt {
            1int
        } else {
            0int
        })
        &&& bphit_total(out.events@) == 0 && bpmiss_count(out.events@) == 0
    })
    &&& (out.fatal matches Some(e) ==> !skip && {
        &&& out.events@ =~= seq![panic_entry()]
        &&& post.prv == pre.prv && post.ctx == pre.ctx && post.u_unknown_ctx == pre.u_unknown_ctx
        &&& post.bp_counter == pre.bp_counter
        &&& ((e == DecodeError::WrongInsnKind || e == DecodeError::ReservedHeader)
            ==> post.timestamp == pre.timestamp.saturating_add(packet.timestamp))
        &&& ((e == DecodeError::MissingInstruction || e == DecodeError::TraceDesync)
            ==> post.timestamp == pre.timestamp)
        &&& exists|w: u64| #[trigger] cf_fatal_witness(pre, post, packet, e, w)
    })
}

/// Why a control-flow record died, with its witness: the block walk hit a
/// missing address (directly, or at the sign-extended stop `w`), the walk
/// can never stop, the instruction at the stop `w` lacks the kind the
/// family demands, or the family itself is reserved; the program counter
/// is left where the failure was found.
#[verifier::opaque]
pub open spec fn cf_fatal_witness(
    pre: Decoder,
    post: Decoder,
    packet: Packet,
    e: DecodeError,
    w: u64,
) -> bool {
    let m = pre.cur_map();
    let start = sign_extend_40(pre.pc.addr);
    let stop = pre.stop_on_ij();
    match e {
        DecodeError::MissingInstruction => {
            ||| (post.pc == pre.pc && exists|fuel: nat, a: u64|
                walk_bb(m, start, stop, fuel) == WalkOutcome::Missing(a))
            ||| ((exists|fuel: nat| walk_bb(m, start, stop, fuel) == WalkOutcome::Stop(w))
                && !m.contains_key(sign_extend_40(w)) && post.pc.addr == w)
        },
        DecodeError::TraceDesync => post.pc == pre.pc && exists|fuel: nat|
            #![trigger walk_bb(m, start, stop, fuel)]
            {
                &&& fuel >= m.len()
                &&& walk_bb(m, start, stop, fuel) == WalkOutcome::Spin
            },
        DecodeError::WrongInsnKind => (exists|fuel: nat|
            walk_bb(m, start, stop, fuel) == WalkOutcome::Stop(w)) && m.contains_key(
            sign_extend_40(w),
        ) && post.pc.addr == w && match packet.f_header {
            FHeader::FTb => !m[sign_extend_40(w)].is_branch,
            FHeader::FNt => !m[sign_extend_40(w)].is_branch,
            FHeader::FIj => !m[sign_extend_40(w)].is_direct_jump,
            FHeader::FUj => !m[sign_extend_40(w)].is_indirect_jump,
            _ => false,
        },
        DecodeError::ReservedHeader => (exists|fuel: nat|
            walk_bb(m, start, stop, fuel) == WalkOutcome::Stop(w)) && m.contains_key(
            sign_extend_40(w),
        ) && post.pc.addr == w && packet.f_header != FHeader::FTb && packet.f_header
            != FHeader::FNt && packet.f_header != FHeader::FIj && packet.f_header != FHeader::FUj,
        _ => false,
    }
}

impl Decoder {
    /// Resolve one control-flow record against the instruction at the end
    /// of the current basic block.
    #[verifier::spinoff_prover]
    #[verifier::rlimit(30)]
    pub fn handle_cf(&mut self, packet: &Packet) -> (out: ProcessOutcome)
        requires
            old(self).wf(),
            packet.f_header != FHeader::FSync,
            packet.f_header != FHeader::FTrap,
        ensures
            final(self).wf(),
            final(self).timestamp >= old(self).timestamp,
            final(self).br_mode == old(self).br_mode,
            final(self).known_ctxs == old(self).known_ctxs,
            final(self).insn_index == old(self).insn_index,
            cf_post(*old(self), *final(self), *packet, out),
    {
        if self.u_unknown_ctx && self.prv == Prv::PrvUser {
            self.timestamp = self.timestamp.saturating_add(packet.timestamp);
            return ProcessOutcome { events: Vec::new(), end: false, fatal: None };
        }
        let stop_on_ij = self.br_mode == BrMode::BrTarget;
        let start = self.pc.get_addr();
        let map = self.insn_index.get(self.prv, self.ctx);
        let walk = match self.prv {
            Prv::PrvUser => step_bb(map, &mut self.u_cache, start, stop_on_ij),
            Prv::PrvSupervisor => step_bb(map, &mut self.k_cache, start, stop_on_ij),
            _ => step_bb(map, &mut self.m_cache, start, stop_on_ij),
        };
        let end = match walk {
            Ok(p) => p,
            Err(e) => {
                let mut events: Vec<Entry> = Vec::new();
                events.push(Entry::event(EventKind::panic(), 0));
                proof {
                    assert(cf_fatal_witness(*old(self), *self, *packet, e, 0)) by {
                        reveal(cf_fatal_witness);
                        assert(map@ == old(self).cur_map());
                        assert(start == sign_extend_40(old(self).pc.addr));
                        assert(stop_on_ij == old(self).stop_on_ij());
                    };
                }
                return ProcessOutcome { events, end: false, fatal: Some(e) };
            },
        };
        self.pc.set_addr(end);
        let from = self.pc.get_addr();
        let insn = match map.get(&from) {
            Some(i) => i,
            None => {
                let mut events: Vec<Entry> = Vec::new();
                events.push(Entry::event(EventKind::panic(), 0));
                proof {
                    assert(cf_fatal_witness(
                        *old(self),
                        *self,
                        *packet,
                        DecodeError::MissingInstruction,
                        end,
                    )) by {
                        reveal(cf_fatal_witness);
                        assert(map@ == old(self).cur_map());
                        assert(start == sign_extend_40(old(self).pc.addr));
                        assert(stop_on_ij == old(self).stop_on_ij());
                        assert(from == sign_extend_40(end));
                    };
                }
                return ProcessOutcome {
                    events,
                    end: false,
                    fatal: Some(DecodeError::MissingInstruction),
                };
            },
        };
        self.timestamp = self.timestamp.saturating_add(packet.timestamp);
        let ghost fuel = choose|fuel: nat|
            walk_bb(map@, start, stop_on_ij, fuel) == WalkOutcome::Stop(end);
        match packet.f_header {
            FHeader::FTb => {
                if !insn.is_branch {
                    let mut events: Vec<Entry> = Vec::new();
                    events.push(Entry::event(EventKind::panic(), 0));
                    proof {
                        assert(cf_fatal_witness(
                            *old(self),
                            *self,
                            *packet,
                            DecodeError::WrongInsnKind,
                            end,
                        )) by {
                            reveal(cf_fatal_witness);
                            assert(map@ == old(self).cur_map());
                            assert(start == sign_extend_40(old(self).pc.addr));
                            assert(stop_on_ij == old(self).stop_on_ij());
                            assert(from == sign_extend_40(end));
                        };
                    }
                    return ProcessOutcome {
                        events,
                        end: false,
                        fatal: Some(DecodeError::WrongInsnKind),
                    };
                }
                let to = from.wrapping_add_signed(insn.offset as i64);
                self.pc.set_addr(to);
                let to_rep = self.pc.get_addr();
                let mut events: Vec<Entry> = Vec::new();
                events.push(Entry::event(EventKind::taken_branch((from, to_rep)), self.timestamp));
                proof {
                    lemma_singleton_counts(events@);
                }
                ProcessOutcome { events, end: false, fatal: None }
            },
            FHeader::FNt => {
                if !insn.is_branch {
                    let mut events: Vec<Entry> = Vec::new();
                    events.push(Entry::event(EventKind::panic(), 0));
                    proof {
                        assert(cf_fatal_witness(
                            *old(self),
                            *self,
                            *packet,
                            DecodeError::WrongInsnKind,
                            end,
                        )) by {
                            reveal(cf_fatal_witness);
                            assert(map@ == old(self).cur_map());
                            assert(start == sign_extend_40(old(self).pc.addr));
                            assert(stop_on_ij == old(self).stop_on_ij());
                            assert(from == sign_extend_40(end));
                        };
                    }
                    return ProcessOutcome {
                        events,
                        end: false,
                        fatal: Some(DecodeError::WrongInsnKind),
                    };
                }
                let to = from.wrapping_add(insn.len as u64);
                self.pc.set_addr(to);
                let to_rep = self.pc.get_addr();
                let mut events: Vec<Entry> = Vec::new();
                events.push(
                    Entry::event(EventKind::non_taken_branch((from, to_rep)), self.timestamp),
                );
                proof {
                    lemma_singleton_counts(events@);
                }
                ProcessOutcome { events, end: false, fatal: None }
            },
            FHeader::FIj => {
                if !insn.is_direct_jump {
                    let mut events: Vec<Entry> = Vec::new();
                    events.push(Entry::event(EventKind::panic(), 0));
                    proof {
                        assert(cf_fatal_witness(
                            *old(self),
                            *self,
                            *packet,
                            DecodeError::WrongInsnKind,
                            end,
                        )) by {
                            reveal(cf_fatal_witness);
                            assert(map@ == old(self).cur_map());
                            assert(start == sign_extend_40(old(self).pc.addr));
                            assert(stop_on_ij == old(self).stop_on_ij());
                            assert(from == sign_extend_40(end));
                        };
                    }
                    return ProcessOutcome {
                        events,
                        end: false,
                        fatal: Some(DecodeError::WrongInsnKind),
                    };
                }
                let to = from.wrapping_add_signed(insn.offset as i64);
                self.pc.set_addr(to);
                let to_rep = self.pc.get_addr();
                let mut events: Vec<Entry> = Vec::new();
                events.push(
                    Entry::event(EventKind::inferrable_jump((from, to_rep)), self.timestamp),
                );
                proof {
                    lemma_singleton_counts(events@);
                }
                ProcessOutcome { events, end: false, fatal: None }
            },
            FHeader::FUj => {
                if !insn.is_indirect_jump {
                    let mut events: Vec<Entry> = Vec::new();
                    events.push(Entry::event(EventKind::panic(), 0));
                    proof {
                        assert(cf_fatal_witness(
                            *old(self),
                            *self,
                            *packet,
                            DecodeError::WrongInsnKind,
                            end,
                        )) by {
                            reveal(cf_fatal_witness);
                            assert(map@ == old(self).cur_map());
                            assert(start == sign_extend_40(old(self).pc.addr));
                            assert(stop_on_ij == old(self).stop_on_ij());
                            assert(from == sign_extend_40(end));
                        };
                    }
                    return ProcessOutcome {
                        events,
                        end: false,
                        fatal: Some(DecodeError::WrongInsnKind),
                    };
                }
                let new_pc = self.pc.compute_from_xored_target_addr(packet.target_address);
                let old_pc_to_report = self.pc.get_addr();
                self.pc.set_addr(new_pc);
                let new_pc_to_report = self.pc.get_addr();
                let mut events: Vec<Entry> = Vec::new();
                events.push(
                    Entry::event(
                        EventKind::uninferable_jump((old_pc_to_report, new_pc_to_report)),
                        self.timestamp,
                    ),
                );
                proof {
                    lemma_singleton_counts(events@);
                    let a = end;
                    let t = packet.target_address;
                    assert(sign_extend_40((sign_extend_40(a) & 0xff_ffff_ffffu64) ^ (t << 1))
                        == sign_extend_40((a & 0xff_ffff_ffffu64) ^ (t << 1))) by (bit_vector);
                }
                ProcessOutcome { events, end: false, fatal: None }
            },
            _ => {
                let mut events: Vec<Entry> = Vec::new();
                events.push(Entry::event(EventKind::panic(), 0));
                proof {
                    assert(cf_fatal_witness(
                        *old(self),
                        *self,
                        *packet,
                        DecodeError::ReservedHeader,
                        end,
                    )) by {
                        reveal(cf_fatal_witness);
                        assert(map@ == old(self).cur_map());
                        assert(start == sign_extend_40(old(self).pc.addr));
                        assert(stop_on_ij == old(self).stop_on_ij());
                        assert(from == sign_extend_40(end));
                    };
                }
                ProcessOutcome {
                    events,
                    end: false,
                    fatal: Some(DecodeError::ReservedHeader),
                }
            },
        }
    }
}

/// The three prediction counters of a one-event run.
proof fn lemma_singleton_counts(s: Seq<Entry>)
    requires
        s.len() == 1,
    ensures
        branch_event_count(s) == (if is_branch_event(s[0]) {
            1int
        } else {
            0int
        }),
        bphit_total(s) == (match s[0] {
            Entry::Event { kind: EventKind::BPHit { hit_count }, .. } => hit_count as int,
            _ => 0int,
        }),
        bpmiss_count(s) == (match s[0] {
            Entry::Event { kind: EventKind::BPMiss, .. } => 1int,
            _ => 0int,
        }),
{
    assert(s.drop_last() =~= Seq::<Entry>::empty());
    assert(branch_event_count(Seq::<Entry>::empty()) == 0);
    assert(bphit_total(Seq::<Entry>::empty()) == 0);
    assert(bpmiss_count(Seq::<Entry>::empty()) == 0);
    assert(s.last() == s[0]);
}

/// Pushing one entry moves each prediction counter by that entry's own
/// contribution.
proof fn lemma_counts_push(s: Seq<Entry>, e: Entry)
    ensures
        branch_event_count(s.push(e)) == branch_event_count(s) + (if is_branch_event(e) {
            1int
        } else {
            0int
        }),
        bphit_total(s.push(e)) == bphit_total(s) + (match e {
            Entry::Event { kind: EventKind::BPHit { hit_count }, .. } => hit_count as int,
            _ => 0int,
        }),
        bpmiss_count(s.push(e)) == bpmiss_count(s) + (match e {
            Entry::Event { kind: EventKind::BPMiss, .. } => 1int,
            _ => 0int,
        }),
{
    assert(s.push(e).drop_last() =~= s);
    assert(s.push(e).last() == e);
}

/// Why one prediction-mode step died, pinned at the program counter the
/// decoder was left with: a missing address on the walk from it or at it,
/// a walk that can never stop, or an instruction there that is not a
/// branch.
#[verifier::opaque]
pub open spec fn predict_fatal_witness(pre: Decoder, post: Decoder, e: DecodeError) -> bool {
    let m = pre.cur_map();
    let pc = sign_extend_40(post.pc.addr);
    match e {
        DecodeError::MissingInstruction => {
            ||| (exists|fuel: nat, a: u64| walk_bb(m, pc, false, fuel) == WalkOutcome::Missing(a))
            ||| !m.contains_key(pc)
        },
        DecodeError::TraceDesync => exists|fuel: nat|
            #![trigger walk_bb(m, pc, false, fuel)]
            {
                &&& fuel >= m.len()
                &&& walk_bb(m, pc, false, fuel) == WalkOutcome::Spin
            },
        DecodeError::WrongInsnKind => m.contains_key(pc) && !m[pc].is_branch,
        _ => false,
    }
}

/// One iteration of a predicted-hit run, its walk end given: the walk
/// from the iteration's starting counter reaches the branch at the
/// sign-extended end, whose direction is exactly what the predictor's
/// two-bit counter said before moving toward taken; the event reports the
/// sign-extended target and the next counter keeps the raw one.
#[verifier::opaque]
pub open spec fn predict_hit_iter_ok(
    m: Map<u64, Insn>,
    pc0: u64,
    bp0: BpDoubleSaturatingCounter,
    pc1: u64,
    bp1: BpDoubleSaturatingCounter,
    ev: Entry,
    ts: u64,
    end: u64,
) -> bool {
    let from = sign_extend_40(end);
    let taken = crate::bp::counter_predicts_taken(bp0.counter_at(from));
    let to_raw = if taken {
        add_offset(from, m[from].offset)
    } else {
        add_len(from, m[from].len)
    };
    &&& (exists|fuel: nat| walk_bb(m, sign_extend_40(pc0), false, fuel) == WalkOutcome::Stop(end))
    &&& m.contains_key(from)
    &&& m[from].is_branch
    &&& bp1.counter_at(from) == crate::bp::counter_update(bp0.counter_at(from), true)
    &&& bp1.entries == bp0.entries
    &&& ev == (Entry::Event {
        timestamp: ts,
        kind: if taken {
            EventKind::TakenBranch { arc: (from, sign_extend_40(to_raw)) }
        } else {
            EventKind::NonTakenBranch { arc: (from, sign_extend_40(to_raw)) }
        },
    })
    &&& pc1 == to_raw
}

/// A whole predicted-hit run: a chain of program counters and predictor
/// states starts at the decoder's and ends at its final one, every link a
/// `predict_hit_iter_ok` iteration producing the run's events in order.
#[verifier::opaque]
pub open spec fn predict_hit_chain(
    m: Map<u64, Insn>,
    pc0: u64,
    bp0: BpDoubleSaturatingCounter,
    pc_end: u64,
    bp_end: BpDoubleSaturatingCounter,
    events: Seq<Entry>,
    n: u64,
    ts: u64,
) -> bool {
    exists|pcs: Seq<u64>, bps: Seq<BpDoubleSaturatingCounter>, ends: Seq<u64>|
        #![trigger pcs.len(), bps.len(), ends.len()]
        {
            &&& pcs.len() == n + 1 && bps.len() == n + 1 && ends.len() == n
            &&& pcs[0] == pc0 && bps[0] == bp0
            &&& pc_end == pcs[n as int] && bp_end == bps[n as int]
            &&& (forall|j: int|
                0 <= j < n ==> predict_hit_iter_ok(
                    m,
                    #[trigger] pcs[j],
                    bps[j],
                    pcs[j + 1],
                    bps[j + 1],
                    events[1 + j],
                    ts,
                    ends[j],
                ))
        }
}

/// An entry a prediction run may contain after its opening marker: a
/// branch outcome agreeing with the instruction map and carrying the
/// decoder's time.
pub open spec fn predict_branch_entry_ok(m: Map<u64, Insn>, ts: u64, e: Entry) -> bool {
    match e {
        Entry::Event { timestamp, kind } => (kind matches EventKind::TakenBranch { .. } || kind
            matches EventKind::NonTakenBranch { .. }) && timestamp == ts && cf_event_ok(m, kind),
        _ => false,
    }
}

/// What processing a taken-branch record in prediction mode guarantees:
/// one hit marker carrying the hit count, followed by that many branch
/// outcomes resolved by the shared predictor, each agreeing with the
/// instruction map and reporting a sign-extended target; the decoder's
/// time does not advance, since the record's field is a count rather than
/// a delta. In an unknown user address space the record is skipped. A
/// fatal error carries its evidence at the failing program counter and
/// ends the run with the panic marker.
pub open spec fn predict_hit_post(pre: Decoder, post: Decoder, packet: Packet, out: ProcessOutcome) -> bool {
    let m = pre.cur_map();
    let skip = pre.u_unknown_ctx && pre.prv == Prv::PrvUser;
    let n = packet.timestamp;
    &&& !out.end
    &&& (skip ==> post == pre && out.events@.len() == 0 && out.fatal is None)
    &&& (!skip ==> {
        &&& post.timestamp == pre.timestamp
        &&& post.prv == pre.prv && post.ctx == pre.ctx && post.u_unknown_ctx == pre.u_unknown_ctx
        &&& out.events@.len() >= 1
        &&& out.events@[0] == (Entry::Event {
            timestamp: n,
            kind: EventKind::BPHit { hit_count: n },
        })
        &&& bphit_total(out.events@) == n && bpmiss_count(out.events@) == 0
        &&& (out.fatal is None ==> {
            &&& out.events@.len() == 1 + n
            &&& branch_event_count(out.events@) == n
            &&& (forall|j: int|
                1 <= j < out.events@.len() ==> predict_branch_entry_ok(
                    m,
                    pre.timestamp,
                    #[trigger] out.events@[j],
                ))
            &&& predict_hit_chain(
                m,
                pre.pc.addr,
                pre.bp_counter,
                post.pc.addr,
                post.bp_counter,
                out.events@,
                n,
                pre.timestamp,
            )
        })
        &&& (out.fatal matches Some(e) ==> {
            &&& out.events@.len() >= 2
            &&& out.events@.last() == panic_entry()
            &&& (forall|j: int|
                1 <= j < out.events@.len() - 1 ==> predict_branch_entry_ok(
                    m,
                    pre.timestamp,
                    #[trigger] out.events@[j],
                ))
            &&& predict_fatal_witness(pre, post, e)
        })
    })
}

/// One mispredicted branch resolved against the predictor: the walk from
/// the decoder's program counter reaches a branch (prediction mode never
/// stops at direct jumps, so the walk's flag is fixed), the predictor's
/// counter for it moves toward not-taken, and the emitted outcome is the
/// opposite of what that counter said, its target sign extended on
/// observation while the program counter keeps the raw value.
#[verifier::opaque]
pub open spec fn predict_miss_outcome(pre: Decoder, post: Decoder, ev: Entry, end: u64) -> bool {
    let m = pre.cur_map();
    let start = sign_extend_40(pre.pc.addr);
    let from = sign_extend_40(end);
    let pred = crate::bp::counter_predicts_taken(pre.bp_counter.counter_at(from));
    let to_raw = if pred {
        add_len(from, m[from].len)
    } else {
        add_offset(from, m[from].offset)
    };
    &&& (exists|fuel: nat| walk_bb(m, start, false, fuel) == WalkOutcome::Stop(end))
    &&& m.contains_key(from)
    &&& m[from].is_branch
    &&& post.bp_counter.counter_at(from) == crate::bp::counter_update(
        pre.bp_counter.counter_at(from),
        false,
    )
    &&& post.bp_counter.entries == pre.bp_counter.entries
    &&& ev == (Entry::Event {
        timestamp: post.timestamp,
        kind: if pred {
            EventKind::NonTakenBranch { arc: (from, sign_extend_40(to_raw)) }
        } else {
            EventKind::TakenBranch { arc: (from, sign_extend_40(to_raw)) }
        },
    })
    &&& post.pc.addr == to_raw
}

/// What processing a not-taken record in prediction mode guarantees: time
/// advances by the record's delta, one miss marker is emitted, and one
/// branch outcome follows whose direction is the opposite of what the
/// predictor now returns; the predictor's counter for that branch moves
/// toward not-taken and the reported target is sign extended. In an
/// unknown user address space only time advances. A fatal error carries
/// its evidence at the failing program counter, leaves the predictor
/// untouched, and ends the run with the panic marker.
pub open spec fn predict_miss_post(pre: Decoder, post: Decoder, packet: Packet, out: ProcessOutcome) -> bool {
    let m = pre.cur_map();
    let start = sign_extend_40(pre.pc.addr);
    let skip = pre.u_unknown_ctx && pre.prv == Prv::PrvUser;
    &&& !out.end
    &&& (skip ==> {
        &&& out.fatal is None
        &&& out.events@.len() == 0
        &&& post == (Decoder { timestamp: pre.timestamp.saturating_add(packet.timestamp), ..pre })
    })
    &&& (!skip ==> {
        &&& post.timestamp == pre.timestamp.saturating_add(packet.timestamp)
        &&& post.prv == pre.prv && post.ctx == pre.ctx && post.u_unknown_ctx == pre.u_unknown_ctx
        &&& out.events@.len() >= 1
        &&& out.events@[0] == (Entry::Event {
            timestamp: post.timestamp,
            kind: EventKind::BPMiss,
        })
        &&& bphit_total(out.events@) == 0 && bpmiss_count(out.events@) == 1
        &&& (out.fatal is None ==> {
            &&& out.events@.len() == 2
            &&& branch_event_count(out.events@) == 1
            &&& exists|end: u64| #[trigger] predict_miss_outcome(pre, post, out.events@[1], end)
        })
        &&& (out.fatal matches Some(e) ==> {
            &&& out.events@.len() == 2
            &&& out.events@[1] == panic_entry()
            &&& post.bp_counter == pre.bp_counter
            &&& predict_fatal_witness(pre, post, e)
        })
    })
}

impl Decoder {
    /// Replay a run of predicted-hit branches: the record's field counts
    /// how many consecutive branches the hardware predicted correctly, and
    /// the shared predictor resolves each one's direction.
    pub fn handle_predict_hit(&mut self, packet: &Packet) -> (out: ProcessOutcome)
        requires
            old(self).wf(),
            old(self).br_mode == BrMode::BrPredict,
            packet.f_header == FHeader::FTb,
        ensures
            final(self).wf(),
            final(self).timestamp >= old(self).timestamp,
            final(self).br_mode == old(self).br_mode,
            final(self).known_ctxs == old(self).known_ctxs,
            final(self).insn_index == old(self).insn_index,
            predict_hit_post(*old(self), *final(self), *packet, out),
    {
        if self.u_unknown_ctx && self.prv == Prv::PrvUser {
            return ProcessOutcome { events: Vec::new(), end: false, fatal: None };
        }
        let n = packet.timestamp;
        let mut events: Vec<Entry> = Vec::new();
        events.push(Entry::event(EventKind::bphit(n), n));
        proof {
            lemma_counts_push(Seq::<Entry>::empty(), events@[0]);
            assert(Seq::<Entry>::empty().push(events@[0]) =~= events@);
            assert(branch_event_count(Seq::<Entry>::empty()) == 0);
            assert(bphit_total(Seq::<Entry>::empty()) == 0);
            assert(bpmiss_count(Seq::<Entry>::empty()) == 0);
        }
        let ghost mut pcs: Seq<u64> = seq![old(self).pc.addr];
        let ghost mut bps: Seq<BpDoubleSaturatingCounter> = seq![old(self).bp_counter];
        let ghost mut ends: Seq<u64> = Seq::empty();
        let mut i: u64 = 0;
        while i < n
            invariant
                self.wf(),
                old(self).wf(),
                old(self).br_mode == BrMode::BrPredict,
                !(old(self).u_unknown_ctx && old(self).prv == Prv::PrvUser),
                n == packet.timestamp,
                self.br_mode == old(self).br_mode,
                self.prv == old(self).prv,
                self.ctx == old(self).ctx,
                self.u_unknown_ctx == old(self).u_unknown_ctx,
                self.timestamp == old(self).timestamp,
                self.insn_index == old(self).insn_index,
                self.known_ctxs == old(self).known_ctxs,
                i <= n,
                events@.len() == 1 + i,
                events@[0] == (Entry::Event {
                    timestamp: n,
                    kind: EventKind::BPHit { hit_count: n },
                }),
                forall|j: int|
                    1 <= j < events@.len() ==> predict_branch_entry_ok(
                        old(self).cur_map(),
                        old(self).timestamp,
                        #[trigger] events@[j],
                    ),
                branch_event_count(events@) == i,
                bphit_total(events@) == n,
                bpmiss_count(events@) == 0,
                pcs.len() == i + 1,
                bps.len() == i + 1,
                ends.len() == i,
                pcs[0] == old(self).pc.addr,
                bps[0] == old(self).bp_counter,
                self.pc.addr == pcs[i as int],
                self.bp_counter == bps[i as int],
                forall|j: int|
                    0 <= j < i ==> predict_hit_iter_ok(
                        old(self).cur_map(),
                        #[trigger] pcs[j],
                        bps[j],
                        pcs[j + 1],
                        bps[j + 1],
                        events@[1 + j],
                        old(self).timestamp,
                        ends[j],
                    ),
            decreases n - i,
        {
            let start = self.pc.get_addr();
            let map = self.insn_index.get(self.prv, self.ctx);
            let walk = match self.prv {
                Prv::PrvUser => step_bb(map, &mut self.u_cache, start, false),
                Prv::PrvSupervisor => step_bb(map, &mut self.k_cache, start, false),
                _ => step_bb(map, &mut self.m_cache, start, false),
            };
            let end = match walk {
                Ok(p) => p,
                Err(e) => {
                    let panic_ev = Entry::event(EventKind::panic(), 0);
                    proof {
                        lemma_counts_push(events@, panic_ev);
                        assert(predict_fatal_witness(*old(self), *self, e)) by {
                            reveal(predict_fatal_witness);
                            assert(map@ == old(self).cur_map());
                            assert(start == sign_extend_40(self.pc.addr));
                        };
                    }
                    events.push(panic_ev);
                    return ProcessOutcome { events, end: false, fatal: Some(e) };
                },
            };
            self.pc.set_addr(end);
            let from = self.pc.get_addr();
            let insn = match map.get(&from) {
                Some(x) => x,
                None => {
                    let panic_ev = Entry::event(EventKind::panic(), 0);
                    proof {
                        lemma_counts_push(events@, panic_ev);
                        assert(predict_fatal_witness(
                            *old(self),
                            *self,
                            DecodeError::MissingInstruction,
                        )) by {
                            reveal(predict_fatal_witness);
                            assert(map@ == old(self).cur_map());
                            assert(from == sign_extend_40(self.pc.addr));
                        };
                    }
                    events.push(panic_ev);
                    return ProcessOutcome {
                        events,
                        end: false,
                        fatal: Some(DecodeError::MissingInstruction),
                    };
                },
            };
            if !insn.is_branch {
                let panic_ev = Entry::event(EventKind::panic(), 0);
                proof {
                    lemma_counts_push(events@, panic_ev);
                    assert(predict_fatal_witness(
                        *old(self),
                        *self,
                        DecodeError::WrongInsnKind,
                    )) by {
                        reveal(predict_fatal_witness);
                        assert(map@ == old(self).cur_map());
                        assert(from == sign_extend_40(self.pc.addr));
                    };
                }
                events.push(panic_ev);
                return ProcessOutcome {
                    events,
                    end: false,
                    fatal: Some(DecodeError::WrongInsnKind),
                };
            }
            let offset = insn.offset;
            let len = insn.len;
            let taken = self.bp_counter.predict(from, true);
            let to_raw = if taken {
                from.wrapping_add_signed(offset as i64)
            } else {
                from.wrapping_add(len as u64)
            };
            self.pc.set_addr(to_raw);
            let to_rep = self.pc.get_addr();
            let ev = Entry::event(
                if taken {
                    EventKind::taken_branch((from, to_rep))
                } else {
                    EventKind::non_taken_branch((from, to_rep))
                },
                self.timestamp,
            );
            proof {
                lemma_counts_push(events@, ev);
            }
            events.push(ev);
            proof {
                pcs = pcs.push(to_raw);
                bps = bps.push(self.bp_counter);
                ends = ends.push(end);
                assert(predict_hit_iter_ok(
                    old(self).cur_map(),
                    pcs[i as int],
                    bps[i as int],
                    pcs[i + 1],
                    bps[i + 1],
                    events@[1 + i],
                    old(self).timestamp,
                    end,
                )) by {
                    reveal(predict_hit_iter_ok);
                    assert(map@ == old(self).cur_map());
                    assert(start == sign_extend_40(pcs[i as int]));
                    assert(from == sign_extend_40(end));
                };
            }
            i = i + 1;
        }
        proof {
            assert(predict_hit_chain(
                old(self).cur_map(),
                old(self).pc.addr,
                old(self).bp_counter,
                self.pc.addr,
                self.bp_counter,
                events@,
                n,
                old(self).timestamp,
            )) by {
                reveal(predict_hit_chain);
                assert(pcs.len() == n + 1 && bps.len() == n + 1 && ends.len() == n);
            };
        }
        ProcessOutcome { events, end: false, fatal: None }
    }

    /// Replay one mispredicted branch: the hardware's prediction was wrong,
    /// so the outcome is the opposite of what the predictor now returns.
    pub fn handle_predict_miss(&mut self, packet: &Packet) -> (out: ProcessOutcome)
        requires
            old(self).wf(),
            old(self).br_mode == BrMode::BrPredict,
            packet.f_header == FHeader::FNt,
        ensures
            final(self).wf(),
            final(self).timestamp >= old(self).timestamp,
            final(self).br_mode == old(self).br_mode,
            final(self).known_ctxs == old(self).known_ctxs,
            final(self).insn_index == old(self).insn_index,
            predict_miss_post(*old(self), *final(self), *packet, out),
    {
        if self.u_unknown_ctx && self.prv == Prv::PrvUser {
            self.timestamp = self.timestamp.saturating_add(packet.timestamp);
            return ProcessOutcome { events: Vec::new(), end: false, fatal: None };
        }
        self.timestamp = self.timestamp.saturating_add(packet.timestamp);
        let mut events: Vec<Entry> = Vec::new();
        events.push(Entry::event(EventKind::bpmiss(), self.timestamp));
        proof {
            lemma_counts_push(Seq::<Entry>::empty(), events@[0]);
            assert(Seq::<Entry>::empty().push(events@[0]) =~= events@);
            assert(branch_event_count(Seq::<Entry>::empty()) == 0);
            assert(bphit_total(Seq::<Entry>::empty()) == 0);
            assert(bpmiss_count(Seq::<Entry>::empty()) == 0);
        }
        let start = self.pc.get_addr();
        let map = self.insn_index.get(self.prv, self.ctx);
        let walk = match self.prv {
            Prv::PrvUser => step_bb(map, &mut self.u_cache, start, false),
            Prv::PrvSupervisor => step_bb(map, &mut self.k_cache, start, false),
            _ => step_bb(map, &mut self.m_cache, start, false),
        };
        let end = match walk {
            Ok(p) => p,
            Err(e) => {
                let panic_ev = Entry::event(EventKind::panic(), 0);
                proof {
                    lemma_counts_push(events@, panic_ev);
                    assert(predict_fatal_witness(*old(self), *self, e)) by {
                        reveal(predict_fatal_witness);
                        assert(map@ == old(self).cur_map());
                        assert(start == sign_extend_40(self.pc.addr));
                    };
                }
                events.push(panic_ev);
                return ProcessOutcome { events, end: false, fatal: Some(e) };
            },
        };
        self.pc.set_addr(end);
        let from = self.pc.get_addr();
        let insn = match map.get(&from) {
            Some(x) => x,
            None => {
                let panic_ev = Entry::event(EventKind::panic(), 0);
                proof {
                    lemma_counts_push(events@, panic_ev);
                    assert(predict_fatal_witness(
                        *old(self),
                        *self,
                        DecodeError::MissingInstruction,
                    )) by {
                        reveal(predict_fatal_witness);
                        assert(map@ == old(self).cur_map());
                        assert(from == sign_extend_40(self.pc.addr));
                    };
                }
                events.push(panic_ev);
                return ProcessOutcome {
                    events,
                    end: false,
                    fatal: Some(DecodeError::MissingInstruction),
                };
            },
        };
        if !insn.is_branch {
            let panic_ev = Entry::event(EventKind::panic(), 0);
            proof {
                lemma_counts_push(events@, panic_ev);
                assert(predict_fatal_witness(
                    *old(self),
                    *self,
                    DecodeError::WrongInsnKind,
                )) by {
                    reveal(predict_fatal_witness);
                    assert(map@ == old(self).cur_map());
                    assert(from == sign_extend_40(self.pc.addr));
                };
            }
            events.push(panic_ev);
            return ProcessOutcome {
                events,
                end: false,
                fatal: Some(DecodeError::WrongInsnKind),
            };
        }
        let offset = insn.offset;
        let len = insn.len;
        let taken = self.bp_counter.predict(from, false);
        let to_raw = if !taken {
            from.wrapping_add_signed(offset as i64)
        } else {
            from.wrapping_add(len as u64)
        };
        self.pc.set_addr(to_raw);
        let to_rep = self.pc.get_addr();
        let ev = Entry::event(
            if !taken {
                EventKind::taken_branch((from, to_rep))
            } else {
                EventKind::non_taken_branch((from, to_rep))
            },
            self.timestamp,
        );
        proof {
            lemma_counts_push(events@, ev);
        }
        events.push(ev);
        proof {
            assert(predict_miss_outcome(*old(self), *self, events@[1], end)) by {
                reveal(predict_miss_outcome);
                assert(map@ == old(self).cur_map());
                assert(start == sign_extend_40(old(self).pc.addr));
                assert(sign_extend_40(end) == from);
            };
        }
        ProcessOutcome { events, end: false, fatal: None }
    }
}

/// What the decoder demands of a packet before processing it: trap records
/// carry a real trap sub-function and never name the reserved hypervisor
/// privilege. The packet reader only produces such packets; an unverified
/// caller must check before calling.
pub open spec fn spec_packet_ok(p: Packet) -> bool {
    p.f_header == FHeader::FTrap ==> {
        &&& (p.func3 matches SubFunc3::TrapType(tt) && tt != TrapType::TNone)
        &&& p.target_prv != Prv::PrvHypervisor
    }
}

impl Decoder {
    /// Check a packet satisfies what `process_packet` requires.
    pub fn packet_ok(packet: &Packet) -> (r: bool)
        ensures
            r == spec_packet_ok(*packet),
    {
        if packet.f_header == FHeader::FTrap {
            match packet.func3 {
                SubFunc3::TrapType(tt) => tt != TrapType::TNone && packet.target_prv
                    != Prv::PrvHypervisor,
                _ => false,
            }
        } else {
            true
        }
    }

    /// Consume one packet: dispatch on its family and the branch mode, walk
    /// the instruction index, and produce the events to broadcast.
    ///
    /// The decoder's time never decreases. In prediction mode, every packet
    /// that completes keeps the prediction balance: the branch outcomes it
    /// emits are exactly accounted for by its hit counts and miss markers.
    pub fn process_packet(&mut self, packet: &Packet) -> (out: ProcessOutcome)
        requires
            old(self).wf(),
            spec_packet_ok(*packet),
        ensures
            final(self).wf(),
            final(self).timestamp >= old(self).timestamp,
            final(self).br_mode == old(self).br_mode,
            final(self).known_ctxs == old(self).known_ctxs,
            final(self).insn_index == old(self).insn_index,
            packet.f_header == FHeader::FSync ==> sync_end_post(
                *old(self),
                *final(self),
                *packet,
                out,
            ),
            packet.f_header == FHeader::FTrap ==> trap_post(*old(self), *final(self), *packet, out),
            (old(self).br_mode == BrMode::BrPredict && packet.f_header == FHeader::FTb)
                ==> predict_hit_post(*old(self), *final(self), *packet, out),
            (old(self).br_mode == BrMode::BrPredict && packet.f_header == FHeader::FNt)
                ==> predict_miss_post(*old(self), *final(self), *packet, out),
            (packet.f_header != FHeader::FSync && packet.f_header != FHeader::FTrap && !(
            old(self).br_mode == BrMode::BrPredict && (packet.f_header == FHeader::FTb
                || packet.f_header == FHeader::FNt))) ==> cf_post(
                *old(self),
                *final(self),
                *packet,
                out,
            ),
            (old(self).br_mode == BrMode::BrPredict && out.fatal is None) ==> branch_event_count(
                out.events@,
            ) == bphit_total(out.events@) + bpmiss_count(out.events@),
    {
        if packet.f_header == FHeader::FSync {
            let out = self.handle_sync_end(packet);
            proof {
                if self.br_mode == BrMode::BrPredict && out.fatal is None {
                    assert(branch_event_count(out.events@) == 0);
                }
            }
            out
        } else if packet.f_header == FHeader::FTrap {
            self.handle_trap(packet)
        } else if self.br_mode == BrMode::BrPredict && packet.f_header == FHeader::FTb {
            self.handle_predict_hit(packet)
        } else if self.br_mode == BrMode::BrPredict && packet.f_header == FHeader::FNt {
            self.handle_predict_miss(packet)
        } else {
            let ghost pre = *self;
            let out = self.handle_cf(packet);
            proof {
                if self.br_mode == BrMode::BrPredict && out.fatal is None {
                    if !(pre.u_unknown_ctx && pre.prv == Prv::PrvUser) {
                        assert(branch_event_count(out.events@) == 0);
                    } else {
                        assert(out.events@.len() == 0);
                        assert(out.events@ =~= Seq::<Entry>::empty());
                        assert(branch_event_count(out.events@) == 0);
                        assert(bphit_total(out.events@) == 0);
                        assert(bpmiss_count(out.events@) == 0);
                    }
                }
            }
            out
        }
    }
}

/// Concatenating two event runs adds their prediction counters, so the
/// prediction balance of whole runs follows from the balance of their
/// parts: over any decoded trace, the branch outcomes equal the hit counts
/// plus the miss markers, packet by packet and in total.
pub proof fn lemma_prediction_balance_append(a: Seq<Entry>, b: Seq<Entry>)
    requires
        branch_event_count(a) == bphit_total(a) + bpmiss_count(a),
        branch_event_count(b) == bphit_total(b) + bpmiss_count(b),
    ensures
        branch_event_count(a + b) == bphit_total(a + b) + bpmiss_count(a + b),
{
    lemma_counts_add(a, b);
}

/// Each prediction counter distributes over concatenation.
proof fn lemma_counts_add(a: Seq<Entry>, b: Seq<Entry>)
    ensures
        branch_event_count(a + b) == branch_event_count(a) + branch_event_count(b),
        bphit_total(a + b) == bphit_total(a) + bphit_total(b),
        bpmiss_count(a + b) == bpmiss_count(a) + bpmiss_count(b),
    decreases b.len(),
{
    if b.len() == 0 {
        assert(a + b =~= a);
    } else {
        lemma_counts_add(a, b.drop_last());
        assert((a + b).drop_last() =~= a + b.drop_last());
        assert((a + b).last() == b.last());
        lemma_counts_push(a + b.drop_last(), b.last());
        assert((a + b.drop_last()).push(b.last()) =~= a + b);
        assert(b.drop_last().push(b.last()) =~= b);
        lemma_counts_push(b.drop_last(), b.last());
    }
}


} // verus!
