use vstd::prelude::*;
use crate::event::{Entry, EventKind};
use crate::prv::Prv;
use crate::stack_unwinder::{
    ij_post,
    sync_start_post,
    uj_post,
    unwind_trap_post,
    StackUnwinder,
    StackUpdateResult,
};
use vstd::std_specs::iter::IteratorSpec;

verus! {

broadcast use vstd::string::axiom_spec_iter, vstd::string::next_postcondition;

/// The character for one hexadecimal digit value.
pub open spec fn spec_hex_char(d: u64) -> char {
    if d == 0 {
        '0'
    } else if d == 1 {
        '1'
    } else if d == 2 {
        '2'
    } else if d == 3 {
        '3'
    } else if d == 4 {
        '4'
    } else if d == 5 {
        '5'
    } else if d == 6 {
        '6'
    } else if d == 7 {
        '7'
    } else if d == 8 {
        '8'
    } else if d == 9 {
        '9'
    } else if d == 10 {
        'a'
    } else if d == 11 {
        'b'
    } else if d == 12 {
        'c'
    } else if d == 13 {
        'd'
    } else if d == 14 {
        'e'
    } else {
        'f'
    }
}

/// The hexadecimal rendering of a value, most significant digit first and
/// without leading zeros.
pub open spec fn spec_hex_seq(v: u64) -> Seq<char>
    decreases v,
{
    if v < 16 {
        seq![spec_hex_char(v)]
    } else {
        spec_hex_seq(v / 16) + seq![spec_hex_char(v % 16)]
    }
}

/// One branch per character: taken is `1`, not taken is `0`.
pub open spec fn spec_bits_seq(s: Seq<bool>) -> Seq<char> {
    Seq::new(s.len(), |i: int| if s[i] {
        '1'
    } else {
        '0'
    })
}

/// The digit character for a hexadecimal digit value.
fn hex_char(d: u64) -> (r: char)
    requires
        d < 16,
    ensures
        r == spec_hex_char(d),
{
    if d == 0 {
        '0'
    } else if d == 1 {
        '1'
    } else if d == 2 {
        '2'
    } else if d == 3 {
        '3'
    } else if d == 4 {
        '4'
    } else if d == 5 {
        '5'
    } else if d == 6 {
        '6'
    } else if d == 7 {
        '7'
    } else if d == 8 {
        '8'
    } else if d == 9 {
        '9'
    } else if d == 10 {
        'a'
    } else if d == 11 {
        'b'
    } else if d == 12 {
        'c'
    } else if d == 13 {
        'd'
    } else if d == 14 {
        'e'
    } else {
        'f'
    }
}

/// Append the hexadecimal rendering of `v`.
fn append_hex(out: &mut Vec<char>, v: u64)
    ensures
        final(out)@ == old(out)@ + spec_hex_seq(v),
    decreases v,
{
    if v < 16 {
        out.push(hex_char(v));
        proof {
            assert(final(out)@ =~= old(out)@ + spec_hex_seq(v));
        }
    } else {
        proof {
            assert(v / 16 < v) by (nonlinear_arith)
                requires
                    v >= 16,
            ;
        }
        append_hex(out, v / 16);
        out.push(hex_char(v % 16));
        proof {
            assert(final(out)@ =~= old(out)@ + spec_hex_seq(v));
        }
    }
}

/// A path through one function: its entry point, its name, and the branch
/// outcomes observed along it.
#[derive(Debug)]
pub struct Path {
    pub entry_point: u64,
    pub name: String,
    pub branches: Vec<bool>,
}

impl Clone for Path {
    fn clone(&self) -> (r: Self)
        ensures
            r.entry_point == self.entry_point,
            r.name@ == self.name@,
            r.branches@ == self.branches@,
    {
        let mut branches: Vec<bool> = Vec::new();
        let mut i: usize = 0;
        while i < self.branches.len()
            invariant
                i <= self.branches@.len(),
                branches@ =~= self.branches@.take(i as int),
            decreases self.branches@.len() - i,
        {
            branches.push(self.branches[i]);
            proof {
                assert(branches@ =~= self.branches@.take(i + 1));
            }
            i = i + 1;
        }
        proof {
            assert(self.branches@.take(self.branches@.len() as int) =~= self.branches@);
        }
        Path { entry_point: self.entry_point, name: self.name.clone(), branches }
    }
}

/// The text key of a path: name, entry point in hexadecimal, and the
/// branch outcomes as a run of bits.
pub open spec fn spec_path_string(p: &Path) -> Seq<char> {
    p.name@ + seq!['-', '0', 'x'] + spec_hex_seq(p.entry_point) + seq!['-'] + spec_bits_seq(
        p.branches@,
    )
}

/// What closing the current traversal at `ts` does to the records: no
/// traversal leaves them alone; one under an existing key pushes its
/// duration onto that key's samples; one under a new key appends the key
/// with that single sample.
pub open spec fn dump_effect(
    pre_records: Seq<(Path, Vec<u64>)>,
    pre_current: Option<Path>,
    pre_start: u64,
    post_records: Seq<(Path, Vec<u64>)>,
    ts: u64,
) -> bool {
    match pre_current {
        None => post_records == pre_records,
        Some(p) => {
            let duration = ts.saturating_sub(pre_start);
            match spec_find_path(pre_records, &p, 0) {
                Some(i) => {
                    &&& post_records.len() == pre_records.len()
                    &&& post_records[i].0 == pre_records[i].0
                    &&& post_records[i].1@ == pre_records[i].1@.push(duration)
                    &&& (forall|j: int|
                        0 <= j < pre_records.len() && j != i ==> post_records[j]
                            == pre_records[j])
                },
                None => {
                    &&& post_records.len() == pre_records.len() + 1
                    &&& (forall|j: int|
                        0 <= j < pre_records.len() ==> post_records[j] == pre_records[j])
                    &&& Path::spec_same(&post_records.last().0, &p)
                    &&& post_records.last().1@ =~= seq![duration]
                },
            }
        },
    }
}

/// The suffix marking a path resumed after a closure, part of which ran
/// before.
pub open spec fn dirty_suffix() -> Seq<char> {
    seq!['-', 'd', 'i', 'r', 't', 'y']
}

/// What a stack update does to the profiler, the unwinder's own move
/// aside. A closing update credits the traversal being built and starts a
/// dirty one at the frame the closure exposed, if any; an opening update
/// starts a fresh traversal at the opened frame; an empty update and a
/// stack-neutral event change nothing.
pub open spec fn path_stack_effect(
    mid: PathProfiler,
    post: PathProfiler,
    r: Option<StackUpdateResult>,
    ts: u64,
) -> bool {
    match r {
        None => {
            &&& post.path_records@ == mid.path_records@
            &&& post.current_path == mid.current_path
            &&& post.current_start_time == mid.current_start_time
        },
        Some(u) => {
            if u.frames_closed@.len() > 0 {
                &&& dump_effect(
                    mid.path_records@,
                    mid.current_path,
                    mid.current_start_time,
                    post.path_records@,
                    ts,
                )
                &&& (post.unwinder.frame_stack@.len() > 0 ==> {
                    let top = post.unwinder.frame_stack@.last();
                    &&& post.current_path matches Some(q) && q.entry_point == top.addr
                        && q.branches@.len() == 0 && q.name@ == top.symbol.name@ + dirty_suffix()
                    &&& post.current_start_time == ts
                })
                &&& (post.unwinder.frame_stack@.len() == 0 ==> post.current_path is None
                    && post.current_start_time == 0)
            } else if u.frames_opened@.len() > 0 {
                &&& post.path_records@ == mid.path_records@
                &&& post.current_path matches Some(q) && q.entry_point
                    == u.frames_opened@[0].addr && q.branches@.len() == 0 && q.name@
                    == u.frames_opened@[0].symbol.name@
                &&& post.current_start_time == ts
            } else {
                &&& post.path_records@ == mid.path_records@
                &&& post.current_path == mid.current_path
                &&& post.current_start_time == mid.current_start_time
            }
        },
    }
}

/// The first record whose path key matches, scanning from `i`.
pub open spec fn spec_find_path(s: Seq<(Path, Vec<u64>)>, p: &Path, i: int) -> Option<int>
    decreases s.len() - i,
{
    if i < 0 || i >= s.len() {
        None
    } else if Path::spec_same(&s[i].0, p) {
        Some(i)
    } else {
        spec_find_path(s, p, i + 1)
    }
}

impl Path {
    /// Two paths are the same profile key when every part matches.
    pub open spec fn spec_same(a: &Path, b: &Path) -> bool {
        a.entry_point == b.entry_point && a.name@ == b.name@ && a.branches@ == b.branches@
    }

    pub fn same(&self, other: &Path) -> (r: bool)
        ensures
            r == Path::spec_same(self, other),
    {
        if self.entry_point != other.entry_point {
            return false;
        }
        if !(self.name == other.name) {
            return false;
        }
        if self.branches.len() != other.branches.len() {
            return false;
        }
        let mut i: usize = 0;
        while i < self.branches.len()
            invariant
                i <= self.branches@.len(),
                self.branches@.len() == other.branches@.len(),
                forall|j: int| 0 <= j < i ==> self.branches@[j] == other.branches@[j],
            decreases self.branches@.len() - i,
        {
            if self.branches[i] != other.branches[i] {
                return false;
            }
            i = i + 1;
        }
        proof {
            assert(self.branches@ =~= other.branches@);
        }
        true
    }

    /// Render the path's text key.
    pub fn to_string(&self) -> (r: String)
        ensures
            r@ == spec_path_string(self),
    {
        let mut chars: Vec<char> = Vec::new();
        let ghost mut gi: int = 0;
        let name = self.name.as_str();
        let mut it = name.chars();
        loop
            invariant_except_break
                0 <= gi <= name@.len(),
                chars@ =~= name@.take(gi),
                it.remaining() == name@.skip(gi),
            ensures
                chars@ =~= name@,
            decreases name@.len() - gi,
        {
            match it.next() {
                Some(c) => {
                    chars.push(c);
                    proof {
                        assert(name@.skip(gi)[0] == name@[gi]);
                        assert(chars@ =~= name@.take(gi + 1));
                        assert(name@.skip(gi).drop_first() =~= name@.skip(gi + 1));
                        gi = gi + 1;
                    }
                },
                None => {
                    proof {
                        assert(name@.skip(gi).len() == 0);
                        assert(chars@ =~= name@);
                    }
                    break;
                },
            }
        }
        chars.push('-');
        chars.push('0');
        chars.push('x');
        proof {
            assert(chars@ =~= name@ + seq!['-', '0', 'x']);
        }
        append_hex(&mut chars, self.entry_point);
        chars.push('-');
        let ghost before_bits = chars@;
        let mut b: usize = 0;
        while b < self.branches.len()
            invariant
                b <= self.branches@.len(),
                chars@ =~= before_bits + spec_bits_seq(self.branches@.take(b as int)),
            decreases self.branches@.len() - b,
        {
            if self.branches[b] {
                chars.push('1');
            } else {
                chars.push('0');
            }
            b = b + 1;
            proof {
                assert(chars@ =~= before_bits + spec_bits_seq(self.branches@.take(b as int)));
            }
        }
        proof {
            assert(self.branches@.take(self.branches@.len() as int) =~= self.branches@);
            assert(chars@ =~= spec_path_string(self));
        }
        chars_to_string(&chars)
    }
}

/// Relies on String's FromIterator over characters: collecting chars gives
/// the string of exactly those characters.
#[verifier::external_body]
pub(crate) fn chars_to_string(chars: &Vec<char>) -> (r: String)
    ensures
        r@ == chars@,
{
    chars.iter().collect()
}

/// Append every character of a string slice.
pub(crate) fn append_str_chars(out: &mut Vec<char>, s: &str)
    ensures
        final(out)@ == old(out)@ + s@,
{
    let ghost mut gi: int = 0;
    let mut it = s.chars();
    loop
        invariant_except_break
            0 <= gi <= s@.len(),
            out@ =~= old(out)@ + s@.take(gi),
            it.remaining() == s@.skip(gi),
        ensures
            out@ =~= old(out)@ + s@,
        decreases s@.len() - gi,
    {
        match it.next() {
            Some(c) => {
                out.push(c);
                proof {
                    assert(s@.skip(gi)[0] == s@[gi]);
                    assert(out@ =~= old(out)@ + s@.take(gi + 1));
                    assert(s@.skip(gi).drop_first() =~= s@.skip(gi + 1));
                    gi = gi + 1;
                }
            },
            None => {
                proof {
                    assert(s@.skip(gi).len() == 0);
                    assert(out@ =~= old(out)@ + s@);
                }
                break;
            },
        }
    }
}

/// Per-path time records: for every completed traversal of a path, how
/// long it took.
pub struct PathProfiler {
    pub path_records: Vec<(Path, Vec<u64>)>,
    pub unwinder: StackUnwinder,
    pub current_path: Option<Path>,
    pub current_start_time: u64,
}

impl PathProfiler {
    pub open spec fn wf(&self) -> bool {
        self.unwinder.wf()
    }

    pub fn new(unwinder: StackUnwinder) -> (r: PathProfiler)
        requires
            unwinder.wf(),
        ensures
            r.wf(),
            r.path_records@.len() == 0,
            r.current_path is None,
            r.current_start_time == 0,
            r.unwinder == unwinder,
    {
        PathProfiler { path_records: Vec::new(), unwinder, current_path: None, current_start_time: 0 }
    }

    /// Append one branch outcome to the path being traversed, if any.
    fn record_branch(&mut self, taken: bool)
        ensures
            final(self).path_records@ == old(self).path_records@,
            final(self).unwinder == old(self).unwinder,
            final(self).current_start_time == old(self).current_start_time,
            match old(self).current_path {
                Some(p) => final(self).current_path matches Some(q) && q.entry_point
                    == p.entry_point && q.name@ == p.name@ && q.branches@ == p.branches@.push(
                    taken,
                ),
                None => final(self).current_path is None,
            },
    {
        match &mut self.current_path {
            Some(path) => {
                path.branches.push(taken);
            },
            None => {},
        }
    }

    /// Close the current traversal, crediting its duration to its path's
    /// record list: an existing key gains one sample, a new key opens one.
    fn dump_current_path(&mut self, end_timestamp: u64)
        ensures
            final(self).unwinder == old(self).unwinder,
            final(self).current_path is None,
            final(self).current_start_time == 0,
            dump_effect(
                old(self).path_records@,
                old(self).current_path,
                old(self).current_start_time,
                final(self).path_records@,
                end_timestamp,
            ),
    {
        let path = match self.current_path.take() {
            Some(p) => p,
            None => {
                self.current_start_time = 0;
                return ;
            },
        };
        let duration = end_timestamp.saturating_sub(self.current_start_time);
        let ghost pre = self.path_records@;
        let mut i: usize = 0;
        let n = self.path_records.len();
        while i < n
            invariant
                n == self.path_records@.len(),
                i <= n,
                self.path_records@ == pre,
                pre == old(self).path_records@,
                self.current_path is None,
                self.unwinder == old(self).unwinder,
                self.current_start_time == old(self).current_start_time,
                duration == end_timestamp.saturating_sub(old(self).current_start_time),
                old(self).current_path matches Some(q) && q == path,
                spec_find_path(pre, &path, 0) == spec_find_path(pre, &path, i as int),
            decreases n - i,
        {
            if self.path_records[i].0.same(&path) {
                let (key, mut records) = self.path_records.remove(i);
                records.push(duration);
                self.path_records.insert(i, (key, records));
                self.current_start_time = 0;
                proof {
                    let x = self.path_records@[i as int];
                    assert(pre.remove(i as int).insert(i as int, x) =~= pre.update(i as int, x));
                    assert(spec_find_path(pre, &path, i as int) == Some(i as int));
                }
                return ;
            }
            i = i + 1;
        }
        proof {
            assert(spec_find_path(pre, &path, n as int) is None);
        }
        let mut records: Vec<u64> = Vec::new();
        records.push(duration);
        self.path_records.push((path, records));
        self.current_start_time = 0;
        proof {
            assert(self.path_records@.last().1@ =~= seq![duration]);
        }
    }

    /// Feed one entry: branch outcomes extend the path being traversed,
    /// and stack updates close it (crediting its duration) or open a new
    /// one at the frame the stack update exposed. A path resumed after a
    /// closure is marked dirty, since part of it ran before.
    pub fn receive(&mut self, entry: &Entry)
        requires
            old(self).wf(),
            match entry {
                Entry::Event { kind: EventKind::SyncStart { start_prv, .. }, .. } => *start_prv
                    != Prv::PrvHypervisor,
                Entry::Event { kind: EventKind::Trap { prv_arc, .. }, .. } => prv_arc.1
                    != Prv::PrvHypervisor,
                _ => true,
            },
        ensures
            final(self).wf(),
            match entry {
                Entry::Event { kind: EventKind::TakenBranch { .. }, .. } => {
                    &&& final(self).path_records@ == old(self).path_records@
                    &&& final(self).unwinder == old(self).unwinder
                    &&& (old(self).current_path matches Some(p) ==> final(self).current_path matches Some(q) && q.branches@ == p.branches@.push(true))
                    &&& (old(self).current_path is None ==> final(self).current_path is None)
                },
                Entry::Event { kind: EventKind::NonTakenBranch { .. }, .. } => {
                    &&& final(self).path_records@ == old(self).path_records@
                    &&& final(self).unwinder == old(self).unwinder
                    &&& (old(self).current_path matches Some(p) ==> final(self).current_path matches Some(q) && q.branches@ == p.branches@.push(false))
                    &&& (old(self).current_path is None ==> final(self).current_path is None)
                },
                Entry::Instruction { .. } => *final(self) == *old(self),
                Entry::Event { timestamp, kind: EventKind::SyncStart { start_prv, start_ctx, .. } } => exists|
                    r: Option<StackUpdateResult>,
                |
                    {
                        &&& #[trigger] sync_start_post(
                            old(self).unwinder,
                            final(self).unwinder,
                            *start_prv,
                            *start_ctx,
                            r,
                        )
                        &&& path_stack_effect(*old(self), *final(self), r, *timestamp)
                    },
                Entry::Event { timestamp, kind: EventKind::InferrableJump { arc } } => exists|
                    r: Option<StackUpdateResult>,
                |
                    {
                        &&& #[trigger] ij_post(
                            old(self).unwinder,
                            final(self).unwinder,
                            arc.1,
                            r,
                        )
                        &&& path_stack_effect(*old(self), *final(self), r, *timestamp)
                    },
                Entry::Event { timestamp, kind: EventKind::UninferableJump { arc } } => exists|
                    r: Option<StackUpdateResult>,
                |
                    {
                        &&& #[trigger] uj_post(
                            old(self).unwinder,
                            final(self).unwinder,
                            arc.1,
                            r,
                        )
                        &&& path_stack_effect(*old(self), *final(self), r, *timestamp)
                    },
                Entry::Event { timestamp, kind: EventKind::Trap { reason, prv_arc, arc, ctx } } => exists|
                    r: Option<StackUpdateResult>,
                |
                    {
                        &&& #[trigger] unwind_trap_post(
                            old(self).unwinder,
                            final(self).unwinder,
                            *reason,
                            *prv_arc,
                            arc.1,
                            *ctx,
                            r,
                        )
                        &&& path_stack_effect(*old(self), *final(self), r, *timestamp)
                    },
                _ => *final(self) == *old(self),
            },
    {
        match entry {
            Entry::Instruction { .. } => {},
            Entry::Event { timestamp, kind } => {
                let timestamp = *timestamp;
                match kind {
                    EventKind::TakenBranch { .. } => {
                        self.record_branch(true);
                    },
                    EventKind::NonTakenBranch { .. } => {
                        self.record_branch(false);
                    },
                    _ => {},
                }
                let update = self.unwinder.step(entry);
                match &update {
                    Some(u) => {
                        if u.frames_closed.len() > 0 {
                            self.dump_current_path(timestamp);
                            match self.unwinder.peek_head_frames() {
                                Some(frame) => {
                                    let mut name = frame.symbol.name.clone();
                                    name.append("-dirty");
                                    proof {
                                        reveal_strlit("-dirty");
                                        assert("-dirty"@ =~= dirty_suffix());
                                    }
                                    self.current_path = Some(
                                        Path {
                                            name,
                                            entry_point: frame.addr,
                                            branches: Vec::new(),
                                        },
                                    );
                                    self.current_start_time = timestamp;
                                },
                                None => {},
                            }
                        } else if u.frames_opened.len() > 0 {
                            let frame = &u.frames_opened[0];
                            self.current_path = Some(
                                Path {
                                    name: frame.symbol.name.clone(),
                                    entry_point: frame.addr,
                                    branches: Vec::new(),
                                },
                            );
                            self.current_start_time = timestamp;
                        }
                    },
                    None => {},
                }
            },
        }
    }
}

} // verus!