use vstd::prelude::*;
use crate::insn::Insn;
use crate::prv::Prv;
use crate::runtime_cfg::DecoderRuntimeCfg;
use crate::trap_type::TrapType;

verus! {

/// One element of the decoded stream: either a replayed instruction or a
/// timed control-flow event.
#[derive(Debug)]
pub enum Entry {
    Instruction { insn: Insn, pc: u64 },
    Event { timestamp: u64, kind: EventKind },
}

/// A control-flow event reconstructed from the trace. Every `arc` is a
/// `(from_pc, to_pc)` pair of sign-extended addresses.
#[derive(Debug)]
pub enum EventKind {
    TakenBranch { arc: (u64, u64) },
    NonTakenBranch { arc: (u64, u64) },
    UninferableJump { arc: (u64, u64) },
    InferrableJump { arc: (u64, u64) },
    Trap {
        reason: TrapReason,
        prv_arc: (Prv, Prv),
        arc: (u64, u64),
        /// Populated on a return to user space with an indexed address space.
        ctx: Option<u64>,
    },
    SyncStart {
        runtime_cfg: DecoderRuntimeCfg,
        start_pc: u64,
        start_prv: Prv,
        start_ctx: u64,
    },
    SyncEnd { end_pc: u64 },
    SyncPeriodic,
    BPHit { hit_count: u64 },
    BPMiss,
    Panic,
}

/// Why a trap record was emitted.
#[derive(Debug, Clone, Copy, PartialEq, Eq, Structural)]
pub enum TrapReason {
    Exception,
    Interrupt,
    Return,
}

impl Clone for EventKind {
    fn clone(&self) -> (r: Self)
        ensures
            r == *self,
    {
        match self {
            EventKind::TakenBranch { arc } => EventKind::TakenBranch { arc: *arc },
            EventKind::NonTakenBranch { arc } => EventKind::NonTakenBranch { arc: *arc },
            EventKind::UninferableJump { arc } => EventKind::UninferableJump { arc: *arc },
            EventKind::InferrableJump { arc } => EventKind::InferrableJump { arc: *arc },
            EventKind::Trap { reason, prv_arc, arc, ctx } => EventKind::Trap {
                reason: *reason,
                prv_arc: *prv_arc,
                arc: *arc,
                ctx: *ctx,
            },
            EventKind::SyncStart { runtime_cfg, start_pc, start_prv, start_ctx } => {
                EventKind::SyncStart {
                    runtime_cfg: *runtime_cfg,
                    start_pc: *start_pc,
                    start_prv: *start_prv,
                    start_ctx: *start_ctx,
                }
            },
            EventKind::SyncEnd { end_pc } => EventKind::SyncEnd { end_pc: *end_pc },
            EventKind::SyncPeriodic => EventKind::SyncPeriodic,
            EventKind::BPHit { hit_count } => EventKind::BPHit { hit_count: *hit_count },
            EventKind::BPMiss => EventKind::BPMiss,
            EventKind::Panic => EventKind::Panic,
        }
    }
}

impl Clone for Entry {
    fn clone(&self) -> (r: Self)
        ensures
            r == *self,
    {
        match self {
            Entry::Instruction { insn, pc } => Entry::Instruction {
                insn: insn.clone(),
                pc: *pc,
            },
            Entry::Event { timestamp, kind } => Entry::Event {
                timestamp: *timestamp,
                kind: kind.clone(),
            },
        }
    }
}

impl Entry {
    pub fn event(event: EventKind, timestamp: u64) -> (r: Self)
        ensures
            r == (Entry::Event { timestamp, kind: event }),
    {
        Entry::Event { timestamp, kind: event }
    }

    pub fn instruction(insn: &Insn, pc: u64) -> (r: Self)
        ensures
            r == (Entry::Instruction { insn: *insn, pc }),
    {
        Entry::Instruction { insn: insn.clone(), pc }
    }
}

impl EventKind {
    pub fn taken_branch(arc: (u64, u64)) -> (r: Self)
        ensures
            r == (EventKind::TakenBranch { arc }),
    {
        EventKind::TakenBranch { arc }
    }

    pub fn non_taken_branch(arc: (u64, u64)) -> (r: Self)
        ensures
            r == (EventKind::NonTakenBranch { arc }),
    {
        EventKind::NonTakenBranch { arc }
    }

    pub fn uninferable_jump(arc: (u64, u64)) -> (r: Self)
        ensures
            r == (EventKind::UninferableJump { arc }),
    {
        EventKind::UninferableJump { arc }
    }

    pub fn inferrable_jump(arc: (u64, u64)) -> (r: Self)
        ensures
            r == (EventKind::InferrableJump { arc }),
    {
        EventKind::InferrableJump { arc }
    }

    pub fn trap(reason: TrapReason, prv_arc: (Prv, Prv), arc: (u64, u64)) -> (r: Self)
        ensures
            r == (EventKind::Trap { reason, prv_arc, arc, ctx: None }),
    {
        EventKind::Trap { reason, prv_arc, arc, ctx: None }
    }

    pub fn trap_with_ctx(reason: TrapReason, prv_arc: (Prv, Prv), arc: (u64, u64), ctx: u64) -> (r:
        Self)
        ensures
            r == (EventKind::Trap { reason, prv_arc, arc, ctx: Some(ctx) }),
    {
        EventKind::Trap { reason, prv_arc, arc, ctx: Some(ctx) }
    }

    pub fn sync_start(
        runtime_cfg: DecoderRuntimeCfg,
        start_pc: u64,
        start_prv: Prv,
        start_ctx: u64,
    ) -> (r: Self)
        ensures
            r == (EventKind::SyncStart { runtime_cfg, start_pc, start_prv, start_ctx }),
    {
        EventKind::SyncStart { runtime_cfg, start_pc, start_prv, start_ctx }
    }

    pub fn sync_end(end_pc: u64) -> (r: Self)
        ensures
            r == (EventKind::SyncEnd { end_pc }),
    {
        EventKind::SyncEnd { end_pc }
    }

    pub fn bphit(hit_count: u64) -> (r: Self)
        ensures
            r == (EventKind::BPHit { hit_count }),
    {
        EventKind::BPHit { hit_count }
    }

    pub fn bpmiss() -> (r: Self)
        ensures
            r == EventKind::BPMiss,
    {
        EventKind::BPMiss
    }

    pub fn panic() -> (r: Self)
        ensures
            r == EventKind::Panic,
    {
        EventKind::Panic
    }
}

impl TrapReason {
    /// The reason a trap sub-function stands for; the idle sub-function
    /// never reaches an event.
    pub open spec fn spec_of_trap_type(trap_type: TrapType) -> TrapReason
        recommends
            trap_type != TrapType::TNone,
    {
        match trap_type {
            TrapType::TException => TrapReason::Exception,
            TrapType::TInterrupt => TrapReason::Interrupt,
            TrapType::TReturn => TrapReason::Return,
            TrapType::TNone => TrapReason::Exception,
        }
    }

    pub fn of_trap_type(trap_type: TrapType) -> (r: TrapReason)
        requires
            trap_type != TrapType::TNone,
        ensures
            r == TrapReason::spec_of_trap_type(trap_type),
    {
        match trap_type {
            TrapType::TException => TrapReason::Exception,
            TrapType::TInterrupt => TrapReason::Interrupt,
            TrapType::TReturn => TrapReason::Return,
            TrapType::TNone => TrapReason::Exception,
        }
    }
}

} // verus!
