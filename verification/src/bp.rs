use vstd::prelude::*;

verus! {

/// Direct-mapped table of two-bit saturating counters, indexed by
/// `pc mod entries`. Every counter starts weakly-not-taken.
pub struct BpDoubleSaturatingCounter {
    pub counters: Vec<u8>,
    pub entries: u64,
}

/// A two-bit counter predicts taken when its high bit is set.
pub open spec fn counter_predicts_taken(c: u8) -> bool {
    c >= 2
}

/// Saturating increment on hint taken, saturating decrement otherwise.
pub open spec fn counter_update(c: u8, hint_taken: bool) -> u8 {
    if hint_taken {
        if c >= 3 {
            3
        } else {
            (c + 1) as u8
        }
    } else {
        if c == 0 {
            0
        } else {
            (c - 1) as u8
        }
    }
}

impl BpDoubleSaturatingCounter {
    /// All counters fit in two bits and the table has exactly `entries`
    /// slots.
    pub open spec fn wf(&self) -> bool {
        &&& self.counters@.len() == self.entries
        &&& self.entries <= usize::MAX
        &&& forall|i: int| 0 <= i < self.counters@.len() ==> self.counters@[i] <= 3
    }

    pub open spec fn spec_entries(&self) -> u64 {
        self.entries
    }

    pub open spec fn counter_at(&self, pc: u64) -> u8
        recommends
            self.entries > 0,
    {
        self.counters@[(pc as int) % (self.entries as int)]
    }

    /// A predictor with `entries` counters, each starting weakly-not-taken.
    pub fn new(entries: u64) -> (r: BpDoubleSaturatingCounter)
        requires
            entries <= usize::MAX,
        ensures
            r.wf(),
            r.spec_entries() == entries,
            forall|i: int| 0 <= i < r.spec_entries() ==> #[trigger] r.counters@[i] == 1,
    {
        let mut counters: Vec<u8> = Vec::new();
        let mut i: u64 = 0;
        while i < entries
            invariant
                i <= entries,
                entries <= usize::MAX,
                counters@.len() == i,
                forall|j: int| 0 <= j < i ==> #[trigger] counters@[j] == 1,
            decreases entries - i,
        {
            counters.push(1);
            i = i + 1;
        }
        BpDoubleSaturatingCounter { counters, entries }
    }

    /// Read the prediction for `pc`, then move its counter toward the
    /// hinted outcome: the returned direction is what the counter held
    /// before the update.
    pub fn predict(&mut self, pc: u64, hint_taken: bool) -> (taken: bool)
        requires
            old(self).wf(),
            old(self).spec_entries() > 0,
        ensures
            final(self).wf(),
            final(self).spec_entries() == old(self).spec_entries(),
            taken == counter_predicts_taken(old(self).counter_at(pc)),
            final(self).counter_at(pc) == counter_update(old(self).counter_at(pc), hint_taken),
            forall|i: int|
                0 <= i < old(self).counters@.len() && i != (pc as int) % (
                old(self).spec_entries() as int) ==> final(self).counters@[i]
                    == old(self).counters@[i],
    {
        let idx = (pc % self.entries) as usize;
        let c = self.counters[idx];
        let taken = c >= 2;
        let updated = if hint_taken {
            if c >= 3 {
                3
            } else {
                c + 1
            }
        } else {
            if c == 0 {
                0
            } else {
                c - 1
            }
        };
        self.counters.set(idx, updated);
        taken
    }
}

} // verus!
