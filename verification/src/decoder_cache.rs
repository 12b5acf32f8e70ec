use vstd::prelude::*;
use rustc_data_structures::fx::FxHashMap;

verus! {

/// What the decoder memoizes for a basic-block start: where the block ends
/// and how many instructions it walked to get there.
#[derive(Debug, Clone, Copy, PartialEq, Eq, Structural)]
pub struct BasicBlockStats {
    pub target_pc: u64,
    pub num_instructions: u64,
}

/// Memoizes the end of the basic block starting at each program counter.
/// The table is a hash map with the compiler data structures' fast hasher;
/// its contents are named by `cache_contents`.
#[verifier::external_body]
pub struct DecoderCache {
    cache: FxHashMap<u64, BasicBlockStats>,
}

/// The entries the cache holds, keyed by block-start program counter.
pub uninterp spec fn cache_contents(c: DecoderCache) -> Map<u64, BasicBlockStats>;

impl DecoderCache {
    /// Relies on the standard hash map's `default`: a fresh map is empty.
    #[verifier::external_body]
    pub fn new() -> (r: DecoderCache)
        ensures
            forall|pc: u64| !cache_contents(r).contains_key(pc),
    {
        DecoderCache { cache: FxHashMap::default() }
    }

    /// Relies on the standard hash map's `get`: the value stored under the
    /// key, if any.
    #[verifier::external_body]
    pub fn get(&self, pc: u64) -> (r: Option<&BasicBlockStats>)
        ensures
            match r {
                Some(stats) => cache_contents(*self).contains_key(pc) && *stats == cache_contents(
                    *self,
                )[pc],
                None => !cache_contents(*self).contains_key(pc),
            },
    {
        self.cache.get(&pc)
    }

    /// Relies on the standard hash map's `insert`: the key now holds this
    /// value and nothing else changes.
    #[verifier::external_body]
    pub fn insert(&mut self, pc: u64, basic_block_stats: BasicBlockStats)
        ensures
            cache_contents(*final(self)) == cache_contents(*old(self)).insert(
                pc,
                basic_block_stats,
            ),
    {
        self.cache.insert(pc, basic_block_stats);
    }

    /// Relies on the standard hash map's `contains_key`.
    #[verifier::external_body]
    pub fn contains_key(&self, pc: u64) -> (r: bool)
        ensures
            r == cache_contents(*self).contains_key(pc),
    {
        self.cache.contains_key(&pc)
    }

    /// Relies on the standard hash map's `clear`: the map is empty after.
    #[verifier::external_body]
    pub fn reset(&mut self)
        ensures
            forall|pc: u64| !cache_contents(*final(self)).contains_key(pc),
    {
        self.cache.clear();
    }
}

} // verus!
