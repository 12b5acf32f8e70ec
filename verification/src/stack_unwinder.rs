use vstd::prelude::*;
use crate::event::{Entry, EventKind, TrapReason};
use crate::prv::Prv;
use crate::symbol_index::{addr_index, contains_addr, SymbolIndex, SymbolInfo};

verus! {

/// A symbol-resolved call record on the synthetic stack.
#[derive(Debug)]
pub struct Frame {
    pub prv: Prv,
    pub ctx: u64,
    pub addr: u64,
    pub symbol: SymbolInfo,
}

impl Clone for Frame {
    fn clone(&self) -> (r: Self)
        ensures
            r == *self,
    {
        Frame { prv: self.prv, ctx: self.ctx, addr: self.addr, symbol: self.symbol.clone() }
    }
}

/// The frames one event opened and closed, with the stack's depth after.
pub struct StackUpdateResult {
    pub frame_stack_size: usize,
    pub frames_opened: Vec<Frame>,
    pub frames_closed: Vec<Frame>,
}

/// The half-open range of the function beginning at `addr` in one
/// privilege level's symbol map, when `addr` is a known function entry.
pub open spec fn spec_frame_range(index: &SymbolIndex, prv: Prv, addr: u64) -> Option<(u64, u64)> {
    let s = index.spec_get(prv).entries@;
    if contains_addr(s, addr) {
        let i = addr_index(s, addr);
        Some(
            (
                addr,
                if i + 1 < s.len() {
                    s[i + 1].0
                } else {
                    u64::MAX
                },
            ),
        )
    } else {
        None
    }
}

/// Whether the function starting at `addr` covers `target`.
pub open spec fn frame_covers(index: &SymbolIndex, prv: Prv, addr: u64, target: u64) -> bool {
    match spec_frame_range(index, prv, addr) {
        Some(se) => se.0 <= target && target < se.1,
        None => false,
    }
}

/// Observes the decoded event stream and maintains a synthetic call stack
/// from jump kinds and symbol-table boundaries. It is heuristic and never
/// rejects a trace.
pub struct StackUnwinder {
    pub func_symbol_map: SymbolIndex,
    pub frame_stack: Vec<Frame>,
    pub curr_prv: Prv,
    pub curr_ctx: u64,
}

/// What a sync-start does to the stack: it only adopts the starting
/// privilege and address space.
pub open spec fn sync_start_post(
    pre: StackUnwinder,
    post: StackUnwinder,
    start_prv: Prv,
    start_ctx: u64,
    r: Option<StackUpdateResult>,
) -> bool {
    &&& r is None
    &&& post == (StackUnwinder { curr_prv: start_prv, curr_ctx: start_ctx, ..pre })
}

/// What a direct jump does to the stack: a jump to a known function entry
/// in the current privilege level is a call and opens a frame for it; any
/// other direct jump changes nothing.
pub open spec fn ij_post(
    pre: StackUnwinder,
    post: StackUnwinder,
    to_addr: u64,
    r: Option<StackUpdateResult>,
) -> bool {
    let s = pre.func_symbol_map.spec_get(pre.curr_prv).entries@;
    &&& post.curr_prv == pre.curr_prv
    &&& post.curr_ctx == pre.curr_ctx
    &&& post.func_symbol_map == pre.func_symbol_map
    &&& if contains_addr(s, to_addr) {
        let frame = pre.spec_frame_at(pre.curr_prv, to_addr);
        &&& post.frame_stack@ == pre.frame_stack@.push(frame)
        &&& r matches Some(u) && u.frames_opened@ =~= seq![frame] && u.frames_closed@.len() == 0
            && u.frame_stack_size == post.frame_stack@.len()
    } else {
        &&& post.frame_stack@ == pre.frame_stack@
        &&& r is None
    }
}

/// What an indirect jump does to the stack: a jump to a known function
/// entry is an indirect call and opens a frame. Anything else is treated
/// as a return: frames whose range does not cover the target are popped,
/// top first, until the surviving top frame covers it or the stack
/// empties. The top frame is peeked before any pop, so a target inside
/// the current function closes nothing.
pub open spec fn uj_post(
    pre: StackUnwinder,
    post: StackUnwinder,
    to_addr: u64,
    r: Option<StackUpdateResult>,
) -> bool {
    let s = pre.func_symbol_map.spec_get(pre.curr_prv).entries@;
    let stack = pre.frame_stack@;
    &&& post.curr_prv == pre.curr_prv
    &&& post.curr_ctx == pre.curr_ctx
    &&& post.func_symbol_map == pre.func_symbol_map
    &&& if contains_addr(s, to_addr) {
        let frame = pre.spec_frame_at(pre.curr_prv, to_addr);
        &&& post.frame_stack@ == stack.push(frame)
        &&& r matches Some(u) && u.frames_opened@ =~= seq![frame] && u.frames_closed@.len() == 0
            && u.frame_stack_size == post.frame_stack@.len()
    } else {
        exists|k: int|
            #![trigger stack.take(stack.len() - k)]
            {
                &&& 0 <= k <= stack.len()
                &&& post.frame_stack@ == stack.take(stack.len() - k)
                &&& (forall|i: int|
                    0 <= i < k ==> !frame_covers(
                        &pre.func_symbol_map,
                        pre.curr_prv,
                        (#[trigger] stack[stack.len() - 1 - i]).addr,
                        to_addr,
                    ))
                &&& (post.frame_stack@.len() > 0 ==> frame_covers(
                    &pre.func_symbol_map,
                    pre.curr_prv,
                    post.frame_stack@.last().addr,
                    to_addr,
                ))
                &&& r matches Some(u) && u.frames_opened@.len() == 0 && u.frames_closed@.len() == k
                    && (forall|i: int|
                    0 <= i < k ==> u.frames_closed@[i] == stack[stack.len() - 1 - i])
                    && u.frame_stack_size == post.frame_stack@.len()
            }
    }
}

/// What a trap does to the stack. An exception or interrupt adopts the
/// target privilege and opens a frame for the handler if it is a known
/// function entry; no frames close, since the matching return closes them
/// later. A return first adopts the privilege being returned to, then
/// closes every frame of any other privilege down to the caller — at least
/// one when a higher-privileged callee is on top — and, on a return to a
/// known user address space, adopts that address space.
pub open spec fn unwind_trap_post(
    pre: StackUnwinder,
    post: StackUnwinder,
    reason: TrapReason,
    prv_arc: (Prv, Prv),
    to_addr: u64,
    ctx: Option<u64>,
    r: Option<StackUpdateResult>,
) -> bool {
    let stack = pre.frame_stack@;
    &&& post.func_symbol_map == pre.func_symbol_map
    &&& post.curr_prv == prv_arc.1
    &&& match reason {
        TrapReason::Exception | TrapReason::Interrupt => {
            let s = pre.func_symbol_map.spec_get(prv_arc.1).entries@;
            &&& post.curr_ctx == pre.curr_ctx
            &&& if contains_addr(s, to_addr) {
                let frame = pre.spec_frame_at(prv_arc.1, to_addr);
                &&& post.frame_stack@ == stack.push(frame)
                &&& r matches Some(u) && u.frames_opened@ =~= seq![frame]
                    && u.frames_closed@.len() == 0 && u.frame_stack_size
                    == post.frame_stack@.len()
            } else {
                &&& post.frame_stack@ == stack
                &&& r is None
            }
        },
        TrapReason::Return => {
            &&& post.curr_ctx == (match ctx {
                Some(c) => c,
                None => pre.curr_ctx,
            })
            &&& exists|k: int|
                #![trigger stack.take(stack.len() - k)]
                {
                    &&& 0 <= k <= stack.len()
                    &&& post.frame_stack@ == stack.take(stack.len() - k)
                    &&& (forall|i: int|
                        0 <= i < k ==> (#[trigger] stack[stack.len() - 1 - i]).prv != prv_arc.1)
                    &&& (post.frame_stack@.len() > 0 ==> post.frame_stack@.last().prv
                        == prv_arc.1)
                    &&& (stack.len() > 0 && stack.last().prv != prv_arc.1 ==> k >= 1)
                    &&& r matches Some(u) && u.frames_opened@.len() == 0 && u.frames_closed@.len()
                        == k && (forall|i: int|
                        0 <= i < k ==> u.frames_closed@[i] == stack[stack.len() - 1 - i])
                        && u.frame_stack_size == post.frame_stack@.len()
                }
        },
    }
}

impl StackUnwinder {
    pub open spec fn wf(&self) -> bool {
        &&& self.func_symbol_map.wf()
        &&& self.curr_prv != Prv::PrvHypervisor
        &&& forall|i: int|
            0 <= i < self.frame_stack@.len() ==> (#[trigger] self.frame_stack@[i]).prv
                != Prv::PrvHypervisor
    }

    /// The frame pushed for a known function entry at `addr`.
    pub open spec fn spec_frame_at(&self, prv: Prv, addr: u64) -> Frame {
        let s = self.func_symbol_map.spec_get(prv).entries@;
        Frame { prv, ctx: self.curr_ctx, addr, symbol: s[addr_index(s, addr)].1 }
    }

    /// An empty stack observing from machine mode.
    pub fn new(func_symbol_map: SymbolIndex) -> (r: StackUnwinder)
        requires
            func_symbol_map.wf(),
        ensures
            r.wf(),
            r.func_symbol_map == func_symbol_map,
            r.frame_stack@.len() == 0,
            r.curr_prv == Prv::PrvMachine,
            r.curr_ctx == 0,
    {
        StackUnwinder {
            func_symbol_map,
            frame_stack: Vec::new(),
            curr_prv: Prv::PrvMachine,
            curr_ctx: 0,
        }
    }

    /// Push a frame for `addr` if it is a known function entry in `prv`.
    fn push_frame(&mut self, prv: Prv, addr: u64) -> (r: Option<Frame>)
        requires
            old(self).wf(),
            prv != Prv::PrvHypervisor,
        ensures
            final(self).wf(),
            final(self).curr_prv == old(self).curr_prv,
            final(self).curr_ctx == old(self).curr_ctx,
            final(self).func_symbol_map == old(self).func_symbol_map,
            ({
                let s = old(self).func_symbol_map.spec_get(prv).entries@;
                if contains_addr(s, addr) {
                    let frame = old(self).spec_frame_at(prv, addr);
                    &&& r == Some(frame)
                    &&& final(self).frame_stack@ == old(self).frame_stack@.push(frame)
                } else {
                    &&& r is None
                    &&& final(self).frame_stack@ == old(self).frame_stack@
                }
            }),
    {
        let symbol = match self.func_symbol_map.get(prv).get(addr) {
            Some(info) => info.clone(),
            None => {
                return None;
            },
        };
        let frame = Frame { prv, ctx: self.curr_ctx, addr, symbol };
        self.frame_stack.push(frame.clone());
        Some(frame)
    }

    fn pop_frame(&mut self) -> (r: Option<Frame>)
        requires
            old(self).wf(),
        ensures
            final(self).wf(),
            final(self).curr_prv == old(self).curr_prv,
            final(self).curr_ctx == old(self).curr_ctx,
            final(self).func_symbol_map == old(self).func_symbol_map,
            if old(self).frame_stack@.len() > 0 {
                &&& r == Some(old(self).frame_stack@.last())
                &&& final(self).frame_stack@ == old(self).frame_stack@.drop_last()
            } else {
                &&& r is None
                &&& final(self).frame_stack@ == old(self).frame_stack@
            },
    {
        self.frame_stack.pop()
    }

    /// A sync-start only adopts the starting privilege and address space.
    pub fn step_sync_start(&mut self, start_prv: Prv, start_ctx: u64) -> (r: Option<
        StackUpdateResult,
    >)
        requires
            old(self).wf(),
            start_prv != Prv::PrvHypervisor,
        ensures
            final(self).wf(),
            sync_start_post(*old(self), *final(self), start_prv, start_ctx, r),
    {
        self.curr_prv = start_prv;
        self.curr_ctx = start_ctx;
        None
    }

    /// A direct jump to a known function entry is a call and opens a frame;
    /// to anything else it is a non-call jump and changes nothing.
    pub fn step_ij(&mut self, to_addr: u64) -> (r: Option<StackUpdateResult>)
        requires
            old(self).wf(),
        ensures
            final(self).wf(),
            ij_post(*old(self), *final(self), to_addr, r),
    {
        let frame = self.push_frame(self.curr_prv, to_addr);
        match frame {
            Some(frame) => {
                let size = self.frame_stack.len();
                let mut opened: Vec<Frame> = Vec::new();
                opened.push(frame);
                Some(
                    StackUpdateResult {
                        frame_stack_size: size,
                        frames_opened: opened,
                        frames_closed: Vec::new(),
                    },
                )
            },
            None => None,
        }
    }

    /// An indirect jump: a call to a known function entry, or a return by
    /// unwinding to the frame that covers the target.
    pub fn step_uj(&mut self, to_addr: u64) -> (r: Option<StackUpdateResult>)
        requires
            old(self).wf(),
        ensures
            final(self).wf(),
            uj_post(*old(self), *final(self), to_addr, r),
    {
        let ghost pre = *self;
        let is_call = self.func_symbol_map.get(self.curr_prv).contains_key(to_addr);
        if is_call {
            let frame = match self.push_frame(self.curr_prv, to_addr) {
                Some(f) => f,
                None => {
                    proof {
                        assert(false);
                    }
                    return None;
                },
            };
            let size = self.frame_stack.len();
            let mut opened: Vec<Frame> = Vec::new();
            opened.push(frame);
            return Some(
                StackUpdateResult {
                    frame_stack_size: size,
                    frames_opened: opened,
                    frames_closed: Vec::new(),
                },
            );
        }
        let mut closed: Vec<Frame> = Vec::new();
        loop
            invariant_except_break
                self.wf(),
                self.curr_prv == pre.curr_prv,
                self.curr_ctx == pre.curr_ctx,
                self.func_symbol_map == pre.func_symbol_map,
                closed@.len() <= pre.frame_stack@.len(),
                self.frame_stack@ == pre.frame_stack@.take(
                    pre.frame_stack@.len() - closed@.len(),
                ),
                forall|i: int|
                    0 <= i < closed@.len() ==> closed@[i] == pre.frame_stack@[pre.frame_stack@.len()
                        - 1 - i],
                forall|i: int|
                    0 <= i < closed@.len() ==> !frame_covers(
                        &pre.func_symbol_map,
                        pre.curr_prv,
                        (#[trigger] pre.frame_stack@[pre.frame_stack@.len() - 1 - i]).addr,
                        to_addr,
                    ),
            ensures
                self.wf(),
                self.curr_prv == pre.curr_prv,
                self.curr_ctx == pre.curr_ctx,
                self.func_symbol_map == pre.func_symbol_map,
                closed@.len() <= pre.frame_stack@.len(),
                self.frame_stack@ == pre.frame_stack@.take(
                    pre.frame_stack@.len() - closed@.len(),
                ),
                forall|i: int|
                    0 <= i < closed@.len() ==> closed@[i] == pre.frame_stack@[pre.frame_stack@.len()
                        - 1 - i],
                forall|i: int|
                    0 <= i < closed@.len() ==> !frame_covers(
                        &pre.func_symbol_map,
                        pre.curr_prv,
                        (#[trigger] pre.frame_stack@[pre.frame_stack@.len() - 1 - i]).addr,
                        to_addr,
                    ),
                self.frame_stack@.len() > 0 ==> frame_covers(
                    &pre.func_symbol_map,
                    pre.curr_prv,
                    self.frame_stack@.last().addr,
                    to_addr,
                ),
            decreases pre.frame_stack@.len() - closed@.len(),
        {
            let n = self.frame_stack.len();
            if n == 0 {
                break;
            }
            let top_addr = self.frame_stack[n - 1].addr;
            let covered = match self.func_symbol_map.get(self.curr_prv).range(top_addr) {
                Some((start, end)) => start <= to_addr && to_addr < end,
                None => false,
            };
            if covered {
                break;
            }
            match self.pop_frame() {
                Some(frame) => {
                    closed.push(frame);
                },
                None => {
                    proof {
                        assert(false);
                    }
                },
            }
            proof {
                assert(self.frame_stack@ =~= pre.frame_stack@.take(
                    pre.frame_stack@.len() - closed@.len(),
                ));
            }
        }
        let size = self.frame_stack.len();
        let out = Some(
            StackUpdateResult {
                frame_stack_size: size,
                frames_opened: Vec::new(),
                frames_closed: closed,
            },
        );
        proof {
            let stack = pre.frame_stack@;
            let k = stack.len() - self.frame_stack@.len();
            assert(stack.take(stack.len() - k) == self.frame_stack@);
        }
        out
    }

    /// Cross a privilege boundary on the stack: open a handler frame on the
    /// way up, close abandoned callee frames on the way back.
    pub fn step_trap(
        &mut self,
        reason: &TrapReason,
        prv_arc: (Prv, Prv),
        to_addr: u64,
        ctx: Option<u64>,
    ) -> (r: Option<StackUpdateResult>)
        requires
            old(self).wf(),
            prv_arc.1 != Prv::PrvHypervisor,
        ensures
            final(self).wf(),
            unwind_trap_post(*old(self), *final(self), *reason, prv_arc, to_addr, ctx, r),
    {
        let ghost pre = *self;
        match reason {
            TrapReason::Exception | TrapReason::Interrupt => {
                self.curr_prv = prv_arc.1;
                let frame = self.push_frame(prv_arc.1, to_addr);
                match frame {
                    Some(frame) => {
                        let size = self.frame_stack.len();
                        let mut opened: Vec<Frame> = Vec::new();
                        opened.push(frame);
                        Some(
                            StackUpdateResult {
                                frame_stack_size: size,
                                frames_opened: opened,
                                frames_closed: Vec::new(),
                            },
                        )
                    },
                    None => None,
                }
            },
            TrapReason::Return => {
                self.curr_prv = prv_arc.1;
                let mut closed: Vec<Frame> = Vec::new();
                loop
                    invariant_except_break
                        self.wf(),
                        self.curr_prv == prv_arc.1,
                        self.curr_ctx == pre.curr_ctx,
                        self.func_symbol_map == pre.func_symbol_map,
                        closed@.len() <= pre.frame_stack@.len(),
                        self.frame_stack@ == pre.frame_stack@.take(
                            pre.frame_stack@.len() - closed@.len(),
                        ),
                        forall|i: int|
                            0 <= i < closed@.len() ==> closed@[i] == pre.frame_stack@[
                                pre.frame_stack@.len() - 1 - i
                            ],
                        forall|i: int|
                            0 <= i < closed@.len() ==> (#[trigger] pre.frame_stack@[
                                pre.frame_stack@.len() - 1 - i
                            ]).prv != prv_arc.1,
                    ensures
                        self.wf(),
                        self.curr_prv == prv_arc.1,
                        self.curr_ctx == pre.curr_ctx,
                        self.func_symbol_map == pre.func_symbol_map,
                        closed@.len() <= pre.frame_stack@.len(),
                        self.frame_stack@ == pre.frame_stack@.take(
                            pre.frame_stack@.len() - closed@.len(),
                        ),
                        forall|i: int|
                            0 <= i < closed@.len() ==> closed@[i] == pre.frame_stack@[
                                pre.frame_stack@.len() - 1 - i
                            ],
                        forall|i: int|
                            0 <= i < closed@.len() ==> (#[trigger] pre.frame_stack@[
                                pre.frame_stack@.len() - 1 - i
                            ]).prv != prv_arc.1,
                        self.frame_stack@.len() > 0 ==> self.frame_stack@.last().prv
                            == prv_arc.1,
                        pre.frame_stack@.len() > 0 && pre.frame_stack@.last().prv != prv_arc.1
                            ==> closed@.len() >= 1,
                    decreases pre.frame_stack@.len() - closed@.len(),
                {
                    let n = self.frame_stack.len();
                    if n == 0 {
                        break;
                    }
                    let same = self.frame_stack[n - 1].prv == self.curr_prv;
                    if same {
                        break;
                    }
                    match self.pop_frame() {
                        Some(frame) => {
                            closed.push(frame);
                        },
                        None => {
                            proof {
                                assert(false);
                            }
                        },
                    }
                    proof {
                        assert(self.frame_stack@ =~= pre.frame_stack@.take(
                            pre.frame_stack@.len() - closed@.len(),
                        ));
                    }
                }
                let size = self.frame_stack.len();
                match ctx {
                    Some(c) => {
                        self.curr_ctx = c;
                    },
                    None => {},
                }
                let out = Some(
                    StackUpdateResult {
                        frame_stack_size: size,
                        frames_opened: Vec::new(),
                        frames_closed: closed,
                    },
                );
                proof {
                    let stack = pre.frame_stack@;
                    let k = stack.len() - self.frame_stack@.len();
                    assert(stack.take(stack.len() - k) == self.frame_stack@);
                }
                out
            },
        }
    }

    /// Dispatch one decoded entry to the matching transition; entries
    /// without stack meaning change nothing.
    pub fn step(&mut self, entry: &Entry) -> (r: Option<StackUpdateResult>)
        requires
            old(self).wf(),
            match entry {
                Entry::Event { kind: EventKind::SyncStart { start_prv, .. }, .. } => *start_prv
                    != Prv::PrvHypervisor,
                Entry::Event { kind: EventKind::Trap { prv_arc, .. }, .. } => prv_arc.1
                    != Prv::PrvHypervisor,
                _ => true,
            },
        ensures
            final(self).wf(),
            match entry {
                Entry::Event { kind, .. } => match kind {
                    EventKind::SyncStart { start_prv, start_ctx, .. } => sync_start_post(
                        *old(self),
                        *final(self),
                        *start_prv,
                        *start_ctx,
                        r,
                    ),
                    EventKind::InferrableJump { arc } => ij_post(
                        *old(self),
                        *final(self),
                        arc.1,
                        r,
                    ),
                    EventKind::UninferableJump { arc } => uj_post(
                        *old(self),
                        *final(self),
                        arc.1,
                        r,
                    ),
                    EventKind::Trap { reason, prv_arc, arc, ctx } => unwind_trap_post(
                        *old(self),
                        *final(self),
                        *reason,
                        *prv_arc,
                        arc.1,
                        *ctx,
                        r,
                    ),
                    _ => r is None && *final(self) == *old(self),
                },
                _ => r is None && *final(self) == *old(self),
            },
    {
        match entry {
            Entry::Event { kind, .. } => {
                match kind {
                    EventKind::SyncStart { start_prv, start_ctx, .. } => self.step_sync_start(
                        *start_prv,
                        *start_ctx,
                    ),
                    EventKind::InferrableJump { arc } => self.step_ij(arc.1),
                    EventKind::UninferableJump { arc } => self.step_uj(arc.1),
                    EventKind::Trap { reason, prv_arc, arc, ctx } => self.step_trap(
                        reason,
                        *prv_arc,
                        arc.1,
                        *ctx,
                    ),
                    _ => None,
                }
            },
            _ => None,
        }
    }

    /// Close every remaining frame; the stack is empty afterwards.
    pub fn flush(&mut self) -> (r: Option<StackUpdateResult>)
        requires
            old(self).wf(),
        ensures
            final(self).wf(),
            final(self).frame_stack@.len() == 0,
            final(self).curr_prv == old(self).curr_prv,
            final(self).curr_ctx == old(self).curr_ctx,
            final(self).func_symbol_map == old(self).func_symbol_map,
            r matches Some(u) && u.frames_opened@.len() == 0 && u.frames_closed@ == old(
                self,
            ).frame_stack@ && u.frame_stack_size == old(self).frame_stack@.len(),
    {
        let size = self.frame_stack.len();
        let closed = self.peek_all_frames();
        self.frame_stack.clear();
        Some(
            StackUpdateResult {
                frame_stack_size: size,
                frames_opened: Vec::new(),
                frames_closed: closed,
            },
        )
    }

    /// A snapshot of the whole stack, bottom first.
    pub fn peek_all_frames(&self) -> (r: Vec<Frame>)
        ensures
            r@ == self.frame_stack@,
    {
        let mut out: Vec<Frame> = Vec::new();
        let mut i: usize = 0;
        while i < self.frame_stack.len()
            invariant
                i <= self.frame_stack@.len(),
                out@ =~= self.frame_stack@.take(i as int),
            decreases self.frame_stack@.len() - i,
        {
            out.push(self.frame_stack[i].clone());
            proof {
                assert(out@ =~= self.frame_stack@.take(i + 1));
            }
            i = i + 1;
        }
        proof {
            assert(self.frame_stack@.take(self.frame_stack@.len() as int) =~= self.frame_stack@);
        }
        out
    }

    /// The top frame, if any.
    pub fn peek_head_frames(&self) -> (r: Option<Frame>)
        ensures
            match r {
                Some(f) => self.frame_stack@.len() > 0 && f == self.frame_stack@.last(),
                None => self.frame_stack@.len() == 0,
            },
    {
        let n = self.frame_stack.len();
        if n == 0 {
            None
        } else {
            Some(self.frame_stack[n - 1].clone())
        }
    }
}

/// Trap events balance across privilege boundaries: when an exception or
/// interrupt into a higher privilege level opened a handler frame, the
/// matching return to the original privilege closes at least one frame of
/// the higher-privileged callee, and the handler frame itself is the first
/// to close.
pub proof fn lemma_trap_round_trip(
    s0: StackUnwinder,
    s1: StackUnwinder,
    s2: StackUnwinder,
    reason: TrapReason,
    p_lo: Prv,
    p_hi: Prv,
    handler: u64,
    ret_to: u64,
    ctx: Option<u64>,
    r1: Option<StackUpdateResult>,
    r2: Option<StackUpdateResult>,
)
    requires
        reason == TrapReason::Exception || reason == TrapReason::Interrupt,
        p_hi != p_lo,
        contains_addr(s0.func_symbol_map.spec_get(p_hi).entries@, handler),
        unwind_trap_post(s0, s1, reason, (p_lo, p_hi), handler, None, r1),
        unwind_trap_post(s1, s2, TrapReason::Return, (p_hi, p_lo), ret_to, ctx, r2),
    ensures
        r2 matches Some(u) && u.frames_closed@.len() >= 1,
        (r2->Some_0).frames_closed@[0] == s0.spec_frame_at(p_hi, handler),
        (r2->Some_0).frames_closed@[0].prv == p_hi,
{
    let handler_frame = s0.spec_frame_at(p_hi, handler);
    assert(s1.frame_stack@ == s0.frame_stack@.push(handler_frame));
    assert(s1.frame_stack@.last() == handler_frame);
    let stack = s1.frame_stack@;
    assert(stack.len() > 0 && stack.last().prv != p_lo);
}

} // verus!
