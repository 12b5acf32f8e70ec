use vstd::prelude::*;
use crate::event::{Entry, EventKind};
use crate::prv::Prv;
use crate::runtime_cfg::BrMode;
use std::collections::HashMap;

verus! {

broadcast use vstd::std_specs::hash::group_hash_axioms;

/// Counts of what the stats sink has seen: packets, replayed instructions,
/// and, in prediction mode, predictor hits and misses.
pub struct StatsCounter {
    pub br_mode: BrMode,
    pub packet_count: u64,
    pub insn_count: u64,
    pub hit_count: u64,
    pub miss_count: u64,
}

impl StatsCounter {
    pub fn new(br_mode: BrMode) -> (r: StatsCounter)
        ensures
            r.br_mode == br_mode,
            r.packet_count == 0 && r.insn_count == 0 && r.hit_count == 0 && r.miss_count == 0,
    {
        StatsCounter { br_mode, packet_count: 0, insn_count: 0, hit_count: 0, miss_count: 0 }
    }

    /// Count one entry: an event counts as a packet, an instruction as an
    /// instruction; hit counts and misses accumulate only in prediction
    /// mode.
    pub fn receive(&mut self, entry: &Entry)
        ensures
            final(self).br_mode == old(self).br_mode,
            match entry {
                Entry::Event { kind, .. } => {
                    &&& final(self).packet_count == old(self).packet_count.saturating_add(1)
                    &&& final(self).insn_count == old(self).insn_count
                    &&& final(self).hit_count == (match kind {
                        EventKind::BPHit { hit_count } => if old(self).br_mode
                            == BrMode::BrPredict {
                            old(self).hit_count.saturating_add(*hit_count)
                        } else {
                            old(self).hit_count
                        },
                        _ => old(self).hit_count,
                    })
                    &&& final(self).miss_count == (match kind {
                        EventKind::BPMiss => if old(self).br_mode == BrMode::BrPredict {
                            old(self).miss_count.saturating_add(1)
                        } else {
                            old(self).miss_count
                        },
                        _ => old(self).miss_count,
                    })
                },
                Entry::Instruction { .. } => {
                    &&& final(self).insn_count == old(self).insn_count.saturating_add(1)
                    &&& final(self).packet_count == old(self).packet_count
                    &&& final(self).hit_count == old(self).hit_count
                    &&& final(self).miss_count == old(self).miss_count
                },
            },
    {
        match entry {
            Entry::Event { kind, .. } => {
                self.packet_count = self.packet_count.saturating_add(1);
                match kind {
                    EventKind::BPHit { hit_count } => {
                        if self.br_mode == BrMode::BrPredict {
                            self.hit_count = self.hit_count.saturating_add(*hit_count);
                        }
                    },
                    EventKind::BPMiss => {
                        if self.br_mode == BrMode::BrPredict {
                            self.miss_count = self.miss_count.saturating_add(1);
                        }
                    },
                    _ => {},
                }
            },
            Entry::Instruction { .. } => {
                self.insn_count = self.insn_count.saturating_add(1);
            },
        }
    }
}

/// Cumulative cycles spent in each privilege level: on every event the time
/// since the previous event is attributed to the current privilege, and a
/// trap then switches to its target privilege.
pub struct PrvBreakdown {
    pub curr_prv: Prv,
    pub u_prv_cycles: u64,
    pub k_prv_cycles: u64,
    pub m_prv_cycles: u64,
    pub prev_timestamp: u64,
}

impl PrvBreakdown {
    pub open spec fn wf(&self) -> bool {
        self.curr_prv != Prv::PrvHypervisor
    }

    pub fn new() -> (r: PrvBreakdown)
        ensures
            r.wf(),
            r.curr_prv == Prv::PrvUser,
            r.u_prv_cycles == 0 && r.k_prv_cycles == 0 && r.m_prv_cycles == 0,
            r.prev_timestamp == 0,
    {
        PrvBreakdown {
            curr_prv: Prv::PrvUser,
            u_prv_cycles: 0,
            k_prv_cycles: 0,
            m_prv_cycles: 0,
            prev_timestamp: 0,
        }
    }

    /// The cycle counter of one privilege level after attributing a span.
    pub open spec fn spec_attributed(pre: PrvBreakdown, timestamp: u64, p: Prv) -> u64 {
        let delta = timestamp.saturating_sub(pre.prev_timestamp);
        if pre.curr_prv == p {
            (match p {
                Prv::PrvUser => pre.u_prv_cycles,
                Prv::PrvSupervisor => pre.k_prv_cycles,
                _ => pre.m_prv_cycles,
            }).saturating_add(delta)
        } else {
            match p {
                Prv::PrvUser => pre.u_prv_cycles,
                Prv::PrvSupervisor => pre.k_prv_cycles,
                _ => pre.m_prv_cycles,
            }
        }
    }

    fn update_prv_cycles(&mut self, timestamp: u64)
        requires
            old(self).wf(),
        ensures
            final(self).wf(),
            final(self).curr_prv == old(self).curr_prv,
            final(self).prev_timestamp == timestamp,
            final(self).u_prv_cycles == PrvBreakdown::spec_attributed(
                *old(self),
                timestamp,
                Prv::PrvUser,
            ),
            final(self).k_prv_cycles == PrvBreakdown::spec_attributed(
                *old(self),
                timestamp,
                Prv::PrvSupervisor,
            ),
            final(self).m_prv_cycles == PrvBreakdown::spec_attributed(
                *old(self),
                timestamp,
                Prv::PrvMachine,
            ),
    {
        let delta = timestamp.saturating_sub(self.prev_timestamp);
        match self.curr_prv {
            Prv::PrvUser => {
                self.u_prv_cycles = self.u_prv_cycles.saturating_add(delta);
            },
            Prv::PrvSupervisor => {
                self.k_prv_cycles = self.k_prv_cycles.saturating_add(delta);
            },
            _ => {
                self.m_prv_cycles = self.m_prv_cycles.saturating_add(delta);
            },
        }
        self.prev_timestamp = timestamp;
    }

    /// Attribute one event's time span. A sync-start seeds the clock and
    /// privilege; a trap attributes the span and then switches privilege;
    /// every other event only attributes; instructions change nothing.
    pub fn receive(&mut self, entry: &Entry)
        requires
            old(self).wf(),
            match entry {
                Entry::Event { kind: EventKind::SyncStart { start_prv, .. }, .. } => *start_prv
                    != Prv::PrvHypervisor,
                Entry::Event { kind: EventKind::Trap { prv_arc, .. }, .. } => prv_arc.1
                    != Prv::PrvHypervisor,
                _ => true,
            },
        ensures
            final(self).wf(),
            match entry {
                Entry::Event { timestamp, kind: EventKind::SyncStart { start_prv, .. } } => *final(self) == (PrvBreakdown {
                    curr_prv: *start_prv,
                    prev_timestamp: *timestamp,
                    ..*old(self)
                }),
                Entry::Event { timestamp, kind: EventKind::Trap { prv_arc, .. } } => {
                    &&& final(self).curr_prv == prv_arc.1
                    &&& final(self).prev_timestamp == timestamp
                    &&& final(self).u_prv_cycles == PrvBreakdown::spec_attributed(
                        *old(self),
                        *timestamp,
                        Prv::PrvUser,
                    )
                    &&& final(self).k_prv_cycles == PrvBreakdown::spec_attributed(
                        *old(self),
                        *timestamp,
                        Prv::PrvSupervisor,
                    )
                    &&& final(self).m_prv_cycles == PrvBreakdown::spec_attributed(
                        *old(self),
                        *timestamp,
                        Prv::PrvMachine,
                    )
                },
                Entry::Event { timestamp, kind: _ } => {
                    &&& final(self).curr_prv == old(self).curr_prv
                    &&& final(self).prev_timestamp == timestamp
                    &&& final(self).u_prv_cycles == PrvBreakdown::spec_attributed(
                        *old(self),
                        *timestamp,
                        Prv::PrvUser,
                    )
                    &&& final(self).k_prv_cycles == PrvBreakdown::spec_attributed(
                        *old(self),
                        *timestamp,
                        Prv::PrvSupervisor,
                    )
                    &&& final(self).m_prv_cycles == PrvBreakdown::spec_attributed(
                        *old(self),
                        *timestamp,
                        Prv::PrvMachine,
                    )
                },
                Entry::Instruction { .. } => *final(self) == *old(self),
            },
    {
        match entry {
            Entry::Event { timestamp, kind } => {
                match kind {
                    EventKind::SyncStart { start_prv, .. } => {
                        self.curr_prv = *start_prv;
                        self.prev_timestamp = *timestamp;
                    },
                    EventKind::Trap { prv_arc, .. } => {
                        self.update_prv_cycles(*timestamp);
                        self.curr_prv = prv_arc.1;
                    },
                    _ => {
                        self.update_prv_cycles(*timestamp);
                    },
                }
            },
            Entry::Instruction { .. } => {},
        }
    }
}

/// Key of a basic block in the histogram: the block's start and end
/// addresses packed into one value.
pub open spec fn spec_bb_key(start_addr: u64, end_addr: u64) -> u128 {
    ((start_addr as u128) << 64) | (end_addr as u128)
}

pub fn bb_key(start_addr: u64, end_addr: u64) -> (r: u128)
    ensures
        r == spec_bb_key(start_addr, end_addr),
{
    ((start_addr as u128) << 64) | (end_addr as u128)
}

/// A basic block, identified by the address the previous control-flow
/// event landed on and the address the next one left from.
#[derive(Debug, Clone, Copy, PartialEq, Eq, Structural)]
pub struct BB {
    pub start_addr: u64,
    pub end_addr: u64,
}

impl BB {
    /// The block's histogram key.
    pub fn key(&self) -> (r: u128)
        ensures
            r == spec_bb_key(self.start_addr, self.end_addr),
    {
        bb_key(self.start_addr, self.end_addr)
    }

    /// The block a histogram key stands for.
    pub fn from_key(key: u128) -> (r: BB)
        ensures
            spec_bb_key(r.start_addr, r.end_addr) == key,
    {
        let start_addr = (key >> 64) as u64;
        let end_addr = #[verifier::truncate] (key as u64);
        proof {
            assert((((key >> 64) as u64 as u128) << 64) | ((key as u64) as u128) == key)
                by (bit_vector);
        }
        BB { start_addr, end_addr }
    }
}

/// Per-basic-block time intervals: for every occurrence of a block, the
/// time elapsed since the previous control-flow event.
pub struct BBRecords {
    pub bb_records: HashMap<u128, Vec<u64>>,
    pub prev_addr: u64,
    pub prev_timestamp: u64,
}

/// What recording one arc does to the histogram: the block from the
/// previous landing address to the arc's source gains the elapsed time,
/// nothing else changes, and the position moves to the arc's target.
pub open spec fn bb_update_post(
    pre: BBRecords,
    post: BBRecords,
    from_addr: u64,
    to_addr: u64,
    timestamp: u64,
) -> bool {
    let key = spec_bb_key(pre.prev_addr, from_addr);
    let delta = timestamp.saturating_sub(pre.prev_timestamp);
    let prior = if pre.bb_records@.contains_key(key) {
        pre.bb_records@[key]@
    } else {
        Seq::<u64>::empty()
    };
    &&& post.prev_addr == to_addr
    &&& post.prev_timestamp == timestamp
    &&& post.bb_records@.contains_key(key)
    &&& post.bb_records@[key]@ == prior.push(delta)
    &&& forall|k: u128|
        k != key ==> (#[trigger] post.bb_records@.contains_key(k) == pre.bb_records@.contains_key(
            k,
        ) && (pre.bb_records@.contains_key(k) ==> post.bb_records@[k] == pre.bb_records@[k]))
}

impl BBRecords {
    pub fn new() -> (r: BBRecords)
        ensures
            r.bb_records@ == Map::<u128, Vec<u64>>::empty(),
            r.prev_addr == 0,
            r.prev_timestamp == 0,
    {
        BBRecords { bb_records: HashMap::new(), prev_addr: 0, prev_timestamp: 0 }
    }

    /// Record one occurrence of the block `(prev_addr, from_addr)`.
    pub fn update_bb_records(&mut self, from_addr: u64, to_addr: u64, timestamp: u64)
        ensures
            bb_update_post(*old(self), *final(self), from_addr, to_addr, timestamp),
    {
        let bb = BB { start_addr: self.prev_addr, end_addr: from_addr };
        let key = bb.key();
        let delta = timestamp.saturating_sub(self.prev_timestamp);
        let mut intervals = match self.bb_records.remove(&key) {
            Some(v) => v,
            None => Vec::new(),
        };
        intervals.push(delta);
        self.bb_records.insert(key, intervals);
        self.prev_addr = to_addr;
        self.prev_timestamp = timestamp;
    }

    /// Feed one entry to the histogram: branches and jumps record their
    /// block; a sync-start seeds the position; a trap drops its block but
    /// moves the position.
    pub fn receive(&mut self, entry: &Entry)
        ensures
            match entry {
                Entry::Event { timestamp, kind: EventKind::SyncStart { start_pc, .. } } => *final(self) == (BBRecords {
                    prev_addr: *start_pc,
                    prev_timestamp: *timestamp,
                    ..*old(self)
                }),
                Entry::Event { timestamp, kind: EventKind::Trap { arc, .. } } => *final(self) == (
                BBRecords { prev_addr: arc.1, prev_timestamp: *timestamp, ..*old(self) }),
                Entry::Event { timestamp, kind: EventKind::TakenBranch { arc } } => bb_update_post(
                    *old(self),
                    *final(self),
                    arc.0,
                    arc.1,
                    *timestamp,
                ),
                Entry::Event { timestamp, kind: EventKind::NonTakenBranch { arc } } => bb_update_post(
                    *old(self),
                    *final(self),
                    arc.0,
                    arc.1,
                    *timestamp,
                ),
                Entry::Event { timestamp, kind: EventKind::InferrableJump { arc } } => bb_update_post(
                    *old(self),
                    *final(self),
                    arc.0,
                    arc.1,
                    *timestamp,
                ),
                Entry::Event { timestamp, kind: EventKind::UninferableJump { arc } } => bb_update_post(
                    *old(self),
                    *final(self),
                    arc.0,
                    arc.1,
                    *timestamp,
                ),
                Entry::Instruction { .. } => *final(self) == *old(self),
                _ => true,
            },
    {
        match entry {
            Entry::Event { timestamp, kind } => {
                match kind {
                    EventKind::SyncStart { start_pc, .. } => {
                        self.prev_addr = *start_pc;
                        self.prev_timestamp = *timestamp;
                    },
                    EventKind::InferrableJump { arc } => {
                        self.update_bb_records(arc.0, arc.1, *timestamp);
                    },
                    EventKind::UninferableJump { arc } => {
                        self.update_bb_records(arc.0, arc.1, *timestamp);
                    },
                    EventKind::TakenBranch { arc } => {
                        self.update_bb_records(arc.0, arc.1, *timestamp);
                    },
                    EventKind::NonTakenBranch { arc } => {
                        self.update_bb_records(arc.0, arc.1, *timestamp);
                    },
                    EventKind::Trap { arc, .. } => {
                        self.prev_addr = arc.1;
                        self.prev_timestamp = *timestamp;
                    },
                    _ => {},
                }
            },
            Entry::Instruction { .. } => {},
        }
    }
}

/// Saturating sum of a run of intervals.
pub open spec fn spec_interval_sum(s: Seq<u64>) -> u64
    decreases s.len(),
{
    if s.len() == 0 {
        0
    } else {
        spec_interval_sum(s.drop_last()).saturating_add(s.last())
    }
}

/// Smallest interval of a non-empty run.
pub open spec fn spec_interval_min(s: Seq<u64>) -> u64
    decreases s.len(),
{
    if s.len() <= 1 {
        if s.len() == 0 {
            0
        } else {
            s[0]
        }
    } else if s.last() < spec_interval_min(s.drop_last()) {
        s.last()
    } else {
        spec_interval_min(s.drop_last())
    }
}

/// A product clamped to the 64-bit range.
pub open spec fn spec_clamped_mul(a: u64, b: u64) -> u64 {
    if a * b > u64::MAX {
        u64::MAX
    } else {
        (a * b) as u64
    }
}

/// The per-block summary the histogram reports: occurrence count, interval
/// sum, smallest interval, and the net variation
/// `sum - count * min` (saturating).
pub fn bb_summary(intervals: &Vec<u64>) -> (r: (u64, u64, u64, u64))
    requires
        intervals@.len() > 0,
        intervals@.len() <= u64::MAX,
    ensures
        r.0 == intervals@.len(),
        r.1 == spec_interval_sum(intervals@),
        r.2 == spec_interval_min(intervals@),
        r.3 == spec_interval_sum(intervals@).saturating_sub(
            spec_clamped_mul(intervals@.len() as u64, spec_interval_min(intervals@)),
        ),
{
    let mut sum: u64 = 0;
    let mut min: u64 = intervals[0];
    let mut i: usize = 0;
    proof {
        assert(intervals@.take(0) =~= Seq::<u64>::empty());
    }
    while i < intervals.len()
        invariant
            i <= intervals@.len(),
            intervals@.len() > 0,
            sum == spec_interval_sum(intervals@.take(i as int)),
            i > 0 ==> min == spec_interval_min(intervals@.take(i as int)),
            i == 0 ==> min == intervals@[0],
        decreases intervals@.len() - i,
    {
        let v = intervals[i];
        sum = sum.saturating_add(v);
        if i == 0 {
            min = v;
        } else if v < min {
            min = v;
        }
        i = i + 1;
        proof {
            assert(intervals@.take(i as int).drop_last() =~= intervals@.take(i - 1));
            assert(intervals@.take(i as int).last() == intervals@[i - 1]);
            if i == 1 {
                assert(spec_interval_min(intervals@.take(1)) == intervals@[0]);
            }
        }
    }
    proof {
        assert(intervals@.take(intervals@.len() as int) =~= intervals@);
    }
    let count = intervals.len() as u64;
    let prod: u64 = if min == 0 {
        0
    } else if count <= u64::MAX / min {
        proof {
            assert(count * min <= u64::MAX) by (nonlinear_arith)
                requires
                    min >= 1,
                    count <= u64::MAX as int / min as int,
            ;
        }
        count * min
    } else {
        proof {
            assert(count * min > u64::MAX) by (nonlinear_arith)
                requires
                    min >= 1,
                    count > u64::MAX as int / min as int,
            ;
        }
        u64::MAX
    };
    let netvar = sum.saturating_sub(prod);
    (count, sum, min, netvar)
}

/// The two profiles the AFDO exporter maintains: how often execution
/// entered each address range, keyed by the previous landing address and
/// the current target, and how often each branch arc was taken.
pub struct AfdoCounters {
    pub range_map: HashMap<u128, u64>,
    pub branch_map: HashMap<u128, u64>,
    pub last_record: (u64, u64),
    pub elf_start: u64,
}

/// What counting one arc does to the profiles: the range from the previous
/// landing address to the target and the branch arc itself each gain one,
/// and the landing position moves to the target.
pub open spec fn afdo_update_post(
    pre: AfdoCounters,
    post: AfdoCounters,
    from_addr: u64,
    to_addr: u64,
    timestamp: u64,
) -> bool {
    let rkey = spec_bb_key(pre.last_record.1, to_addr);
    let bkey = spec_bb_key(from_addr, to_addr);
    let rprior = if pre.range_map@.contains_key(rkey) {
        pre.range_map@[rkey]
    } else {
        0u64
    };
    let bprior = if pre.branch_map@.contains_key(bkey) {
        pre.branch_map@[bkey]
    } else {
        0u64
    };
    &&& post.elf_start == pre.elf_start
    &&& post.last_record == (to_addr, timestamp)
    &&& post.range_map@ == pre.range_map@.insert(rkey, rprior.saturating_add(1))
    &&& post.branch_map@ == pre.branch_map@.insert(bkey, bprior.saturating_add(1))
}

impl AfdoCounters {
    pub fn new(elf_start: u64) -> (r: AfdoCounters)
        ensures
            r.range_map@ == Map::<u128, u64>::empty(),
            r.branch_map@ == Map::<u128, u64>::empty(),
            r.last_record == (0u64, 0u64),
            r.elf_start == elf_start,
    {
        AfdoCounters {
            range_map: HashMap::new(),
            branch_map: HashMap::new(),
            last_record: (0, 0),
            elf_start,
        }
    }

    /// Count one arc in both profiles and remember where it landed.
    pub fn update_records(&mut self, from_addr: u64, to_addr: u64, timestamp: u64)
        ensures
            afdo_update_post(*old(self), *final(self), from_addr, to_addr, timestamp),
    {
        let rkey = bb_key(self.last_record.1, to_addr);
        let rprior = match self.range_map.get(&rkey) {
            Some(v) => *v,
            None => 0,
        };
        self.range_map.insert(rkey, rprior.saturating_add(1));
        let bkey = bb_key(from_addr, to_addr);
        let bprior = match self.branch_map.get(&bkey) {
            Some(v) => *v,
            None => 0,
        };
        self.branch_map.insert(bkey, bprior.saturating_add(1));
        self.last_record = (to_addr, timestamp);
    }

    /// Feed one entry to the profiles: taken branches and jumps count; a
    /// sync-start seeds the landing position.
    pub fn receive(&mut self, entry: &Entry)
        ensures
            final(self).elf_start == old(self).elf_start,
            match entry {
                Entry::Event { kind: EventKind::SyncStart { start_pc, .. }, .. } => *final(self)
                    == (AfdoCounters { last_record: (0u64, *start_pc), ..*old(self) }),
                Entry::Event { timestamp, kind: EventKind::TakenBranch { arc } } => afdo_update_post(
                    *old(self),
                    *final(self),
                    arc.0,
                    arc.1,
                    *timestamp,
                ),
                Entry::Event { timestamp, kind: EventKind::InferrableJump { arc } } => afdo_update_post(
                    *old(self),
                    *final(self),
                    arc.0,
                    arc.1,
                    *timestamp,
                ),
                Entry::Event { timestamp, kind: EventKind::UninferableJump { arc } } => afdo_update_post(
                    *old(self),
                    *final(self),
                    arc.0,
                    arc.1,
                    *timestamp,
                ),
                Entry::Instruction { .. } => *final(self) == *old(self),
                _ => *final(self) == *old(self),
            },
    {
        match entry {
            Entry::Event { timestamp, kind } => {
                match kind {
                    EventKind::SyncStart { start_pc, .. } => {
                        self.last_record = (0, *start_pc);
                    },
                    EventKind::TakenBranch { arc } => {
                        self.update_records(arc.0, arc.1, *timestamp);
                    },
                    EventKind::InferrableJump { arc } => {
                        self.update_records(arc.0, arc.1, *timestamp);
                    },
                    EventKind::UninferableJump { arc } => {
                        self.update_records(arc.0, arc.1, *timestamp);
                    },
                    _ => {},
                }
            },
            Entry::Instruction { .. } => {},
        }
    }
}

} // verus!
