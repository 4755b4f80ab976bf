//! `PoolCache`: the watcher's pool snapshots and its chain-head state
//! machine.
//!
//! Heads are expected one block at a time, each naming its predecessor's
//! hash as parent. A gap in block numbers or a parent hash that does not
//! match marks the cache stale; an out-of-order or repeated head is
//! ignored.
use crate::curves::stableswap::copy_vec;
use crate::decimal::{ov, Dec};
use vstd::prelude::*;

verus! {

/// A pool's synchronized state.
#[derive(Debug)]
pub struct PoolState {
    /// Pool identifier.
    pub pool_id: String,
    /// Block number at which the state was read.
    pub last_block_number: u64,
    /// Token reserves.
    pub reserves: Vec<Dec>,
    /// Current `sqrt(price)`, for concentrated liquidity.
    pub sqrt_price_current: Option<Dec>,
    /// Update time, epoch milliseconds.
    pub timestamp_ms: u64,
}

/// Two pool states hold the same data.
pub open spec fn same_state(a: PoolState, b: PoolState) -> bool {
    &&& a.pool_id@ == b.pool_id@
    &&& a.last_block_number == b.last_block_number
    &&& a.reserves@ == b.reserves@
    &&& ov(a.sqrt_price_current) == ov(b.sqrt_price_current)
    &&& a.timestamp_ms == b.timestamp_ms
}

impl PoolState {
    /// A copy of this state.
    pub fn copy(&self) -> (r: PoolState)
        ensures
            same_state(r, *self),
    {
        PoolState {
            pool_id: self.pool_id.clone(),
            last_block_number: self.last_block_number,
            reserves: copy_vec(self.reserves.as_slice()),
            sqrt_price_current: match &self.sqrt_price_current {
                Some(d) => Some(d.copy()),
                None => None,
            },
            timestamp_ms: self.timestamp_ms,
        }
    }
}

impl Clone for PoolState {
    fn clone(&self) -> (r: PoolState)
        ensures
            same_state(r, *self),
    {
        self.copy()
    }
}

/// How far the cache trusts its view of the chain.
#[derive(Debug, Clone, Copy, PartialEq, Eq, Structural)]
pub enum SyncStatus {
    /// In step with the chain head.
    Synchronized,
    /// A block was missed or the chain reorganized.
    Stale,
}

impl SyncStatus {
    /// `Synchronized`, the status of a fresh cache.
    pub fn default_status() -> (r: SyncStatus)
        ensures
            r == SyncStatus::Synchronized,
    {
        SyncStatus::Synchronized
    }
}

/// Block `block_number` with parent `parent_hash` reorganizes the chain
/// whose latest head is `last` with hash `last_hash`: it is the next block,
/// a hash is known, and its parent is another block.
pub open spec fn is_reorg(last: u64, last_hash: Seq<char>, block_number: u64, parent_hash: Seq<char>) -> bool {
    last != 0 && block_number == last + 1 && last_hash.len() != 0 && parent_hash != last_hash
}

/// The watcher's cache of pool states and of the chain head.
#[derive(Debug)]
pub struct PoolCache {
    states: Vec<PoolState>,
    last_block_number: u64,
    last_block_hash: String,
    status: SyncStatus,
}

/// The index of the state of pool `id` among the first `n` of `s`, if any.
pub open spec fn find(s: Seq<PoolState>, id: Seq<char>, n: nat) -> Option<int>
    decreases n,
{
    if n == 0 {
        None
    } else if s[n - 1].pool_id@ == id {
        Some(n - 1)
    } else {
        find(s, id, (n - 1) as nat)
    }
}

/// No two states share a pool id.
pub open spec fn ids_unique(s: Seq<PoolState>) -> bool {
    forall|i: int, j: int| 0 <= i < j < s.len() ==> s[i].pool_id@ != s[j].pool_id@
}

proof fn lemma_find_some(s: Seq<PoolState>, id: Seq<char>, n: nat)
    requires
        n <= s.len(),
    ensures
        find(s, id, n) matches Some(k) ==> 0 <= k < n && s[k].pool_id@ == id,
        find(s, id, n) is None ==> forall|k: int| 0 <= k < n ==> s[k].pool_id@ != id,
    decreases n,
{
    if n > 0 {
        lemma_find_some(s, id, (n - 1) as nat);
    }
}

proof fn lemma_find_unique(s: Seq<PoolState>, id: Seq<char>, k: int)
    requires
        ids_unique(s),
        0 <= k < s.len(),
        s[k].pool_id@ == id,
    ensures
        find(s, id, s.len()) == Some(k),
{
    lemma_find_from(s, id, k, s.len());
}

proof fn lemma_find_from(s: Seq<PoolState>, id: Seq<char>, k: int, n: nat)
    requires
        ids_unique(s),
        0 <= k < n <= s.len(),
        s[k].pool_id@ == id,
    ensures
        find(s, id, n) == Some(k),
    decreases n,
{
    if n - 1 > k {
        assert(s[n - 1].pool_id@ != s[k].pool_id@);
        lemma_find_from(s, id, k, (n - 1) as nat);
    }
}

impl PoolCache {
    /// The state of pool `id`, if the cache holds one.
    pub closed spec fn lookup(&self, id: Seq<char>) -> Option<PoolState> {
        match find(self.states@, id, self.states@.len()) {
            Some(k) => Some(self.states@[k]),
            None => None,
        }
    }

    /// The latest block number seen (0 before the first head).
    pub closed spec fn block_spec(&self) -> u64 {
        self.last_block_number
    }

    /// The hash of the latest head seen (empty before the first head).
    pub closed spec fn hash_spec(&self) -> Seq<char> {
        self.last_block_hash@
    }

    /// The synchronization status.
    pub closed spec fn status_spec(&self) -> SyncStatus {
        self.status
    }

    #[verifier::type_invariant]
    closed spec fn wf(&self) -> bool {
        ids_unique(self.states@)
    }

    /// An empty cache: no pools, no head seen, synchronized.
    pub fn new() -> (r: PoolCache)
        ensures
            forall|id: Seq<char>| #[trigger] r.lookup(id) is None,
            r.block_spec() == 0,
            r.hash_spec() == Seq::<char>::empty(),
            r.status_spec() == SyncStatus::Synchronized,
    {
        PoolCache {
            states: Vec::new(),
            last_block_number: 0,
            last_block_hash: String::new(),
            status: SyncStatus::Synchronized,
        }
    }

    /// The index of the state of pool `id`.
    fn position(&self, id: &String) -> (r: Option<usize>)
        ensures
            match r {
                Some(k) => k < self.states@.len() && find(self.states@, id@, self.states@.len())
                    == Some(k as int),
                None => find(self.states@, id@, self.states@.len()) is None,
            },
    {
        proof {
            use_type_invariant(self);
        }
        let mut i: usize = 0;
        while i < self.states.len()
            invariant
                i <= self.states@.len(),
                ids_unique(self.states@),
                forall|k: int| 0 <= k < i ==> self.states@[k].pool_id@ != id@,
            decreases self.states@.len() - i,
        {
            if self.states[i].pool_id == *id {
                proof {
                    lemma_find_unique(self.states@, id@, i as int);
                }
                return Some(i);
            }
            i = i + 1;
        }
        proof {
            lemma_find_some(self.states@, id@, self.states@.len());
            if let Some(k) = find(self.states@, id@, self.states@.len()) {
                assert(self.states@[k].pool_id@ != id@);
            }
        }
        None
    }

    /// Stores `state` as the state of its pool, replacing any earlier one;
    /// other pools and the head state are unchanged.
    pub fn update_pool(&mut self, state: PoolState)
        ensures
            final(self).lookup(state.pool_id@) == Some(state),
            forall|id: Seq<char>|
                id != state.pool_id@ ==> #[trigger] final(self).lookup(id) == old(self).lookup(id),
            final(self).block_spec() == old(self).block_spec(),
            final(self).hash_spec() == old(self).hash_spec(),
            final(self).status_spec() == old(self).status_spec(),
    {
        proof {
            use_type_invariant(&*self);
        }
        let ghost id = state.pool_id@;
        let ghost old_states = self.states@;
        let n = self.states.len();
        match self.position(&state.pool_id) {
            Some(i) => {
                let ghost new_states = old_states.update(i as int, state);
                proof {
                    lemma_find_some(old_states, id, n as nat);
                    assert forall|a: int, b: int| 0 <= a < b < new_states.len() implies new_states[a].pool_id@
                        != new_states[b].pool_id@ by {
                        if a != i && b != i {
                            assert(old_states[a].pool_id@ != old_states[b].pool_id@);
                        } else if a == i {
                            assert(old_states[i as int].pool_id@ != old_states[b].pool_id@);
                        } else {
                            assert(old_states[a].pool_id@ != old_states[i as int].pool_id@);
                        }
                    }
                    lemma_find_unique(new_states, id, i as int);
                    assert forall|other: Seq<char>| other != id implies find(
                        new_states,
                        other,
                        new_states.len(),
                    ) == find(old_states, other, old_states.len()) by {
                        lemma_find_some(new_states, other, new_states.len());
                        lemma_find_some(old_states, other, old_states.len());
                        match find(old_states, other, old_states.len()) {
                            Some(k) => {
                                assert(old_states[k].pool_id@ == other);
                                assert(k != i);
                                assert(new_states[k] == old_states[k]);
                                lemma_find_unique(new_states, other, k);
                            },
                            None => {
                                if let Some(k) = find(new_states, other, new_states.len()) {
                                    assert(new_states[k] == old_states[k]);
                                }
                            },
                        }
                    }
                }
                let mut states = Vec::new();
                std::mem::swap(&mut states, &mut self.states);
                states.set(i, state);
                assert(states@ == new_states);
                self.states = states;
                assert forall|other: Seq<char>| other != id implies #[trigger] self.lookup(other)
                    == old(self).lookup(other) by {
                    lemma_find_some(old_states, other, old_states.len());
                    if let Some(k) = find(old_states, other, old_states.len()) {
                        assert(old_states[k].pool_id@ == other);
                        assert(k != i);
                    }
                }
            },
            None => {
                let ghost new_states = old_states.push(state);
                proof {
                    lemma_find_some(old_states, id, n as nat);
                    assert forall|a: int, b: int| 0 <= a < b < new_states.len() implies new_states[a].pool_id@
                        != new_states[b].pool_id@ by {
                        if b < n {
                            assert(old_states[a].pool_id@ != old_states[b].pool_id@);
                        }
                    }
                    lemma_find_unique(new_states, id, n as int);
                    assert forall|other: Seq<char>| other != id implies find(
                        new_states,
                        other,
                        new_states.len(),
                    ) == find(old_states, other, old_states.len()) by {
                        lemma_find_some(new_states, other, new_states.len());
                        lemma_find_some(old_states, other, old_states.len());
                        match find(old_states, other, old_states.len()) {
                            Some(k) => {
                                assert(new_states[k] == old_states[k]);
                                lemma_find_unique(old_states, other, k);
                                lemma_find_unique(new_states, other, k);
                            },
                            None => {
                                if let Some(k) = find(new_states, other, new_states.len()) {
                                    assert(k < n);
                                    assert(new_states[k] == old_states[k]);
                                }
                            },
                        }
                    }
                }
                let mut states = Vec::new();
                std::mem::swap(&mut states, &mut self.states);
                states.push(state);
                assert(states@ == new_states);
                self.states = states;
                assert forall|other: Seq<char>| other != id implies #[trigger] self.lookup(other)
                    == old(self).lookup(other) by {
                    lemma_find_some(old_states, other, old_states.len());
                    if let Some(k) = find(old_states, other, old_states.len()) {
                        assert(k < n);
                        assert(new_states[k] == old_states[k]);
                    }
                }
            },
        }
    }

    /// A copy of the state of pool `pool_id`, if the cache holds one.
    pub fn get_pool(&self, pool_id: &str) -> (r: Option<PoolState>)
        ensures
            match (r, self.lookup(pool_id@)) {
                (Some(a), Some(b)) => same_state(a, b),
                (None, None) => true,
                _ => false,
            },
    {
        proof {
            use_type_invariant(self);
        }
        let key = String::from_str(pool_id);
        let mut i: usize = 0;
        while i < self.states.len()
            invariant
                i <= self.states@.len(),
                ids_unique(self.states@),
                key@ == pool_id@,
                forall|k: int| 0 <= k < i ==> self.states@[k].pool_id@ != pool_id@,
            decreases self.states@.len() - i,
        {
            if self.states[i].pool_id == key {
                proof {
                    lemma_find_unique(self.states@, pool_id@, i as int);
                }
                return Some(self.states[i].copy());
            }
            i = i + 1;
        }
        proof {
            lemma_find_some(self.states@, pool_id@, self.states@.len());
        }
        None
    }

    /// Handles a new chain head. The first head is accepted as is. After
    /// that, the next block whose parent is the current head (or any next
    /// block while no hash is known) is accepted, synchronized; a next
    /// block with another parent is a reorganization, which also evicts every
    /// cached pool state, and a later block a gap: both are recorded as the
    /// new head, stale. An older or repeated
    /// block changes nothing. Returns whether the head was accepted in
    /// sequence.
    pub fn handle_new_head(&mut self, block_number: u64, block_hash: String, parent_hash: String) -> (r: bool)
        requires
            old(self).block_spec() < u64::MAX,
        ensures
            ({
                let last = old(self).block_spec();
                let last_hash = old(self).hash_spec();
                if last == 0 {
                    &&& r
                    &&& final(self).block_spec() == block_number
                    &&& final(self).hash_spec() == block_hash@
                    &&& final(self).status_spec() == SyncStatus::Synchronized
                } else if block_number == last + 1 {
                    let reorg = last_hash.len() != 0 && parent_hash@ != last_hash;
                    &&& r == !reorg
                    &&& final(self).block_spec() == block_number
                    &&& final(self).hash_spec() == block_hash@
                    &&& final(self).status_spec() == (if reorg {
                        SyncStatus::Stale
                    } else {
                        SyncStatus::Synchronized
                    })
                } else if block_number > last + 1 {
                    &&& !r
                    &&& final(self).block_spec() == block_number
                    &&& final(self).hash_spec() == block_hash@
                    &&& final(self).status_spec() == SyncStatus::Stale
                } else {
                    &&& !r
                    &&& final(self).block_spec() == last
                    &&& final(self).hash_spec() == last_hash
                    &&& final(self).status_spec() == old(self).status_spec()
                }
            }),
            forall|id: Seq<char>|
                #[trigger] final(self).lookup(id) == if is_reorg(
                    old(self).block_spec(),
                    old(self).hash_spec(),
                    block_number,
                    parent_hash@,
                ) {
                    None
                } else {
                    old(self).lookup(id)
                },
            old(self).block_spec() != 0 ==> final(self).block_spec() >= old(self).block_spec(),
            r ==> final(self).status_spec() == SyncStatus::Synchronized,
    {
        proof {
            use_type_invariant(&*self);
        }
        if self.last_block_number == 0 {
            self.last_block_number = block_number;
            self.last_block_hash = block_hash;
            self.status = SyncStatus::Synchronized;
            return true;
        }
        if block_number == self.last_block_number + 1 {
            if self.last_block_hash.unicode_len() != 0 && parent_hash != self.last_block_hash {
                self.states = Vec::new();
                self.status = SyncStatus::Stale;
                self.last_block_number = block_number;
                self.last_block_hash = block_hash;
                return false;
            }
            self.last_block_number = block_number;
            self.last_block_hash = block_hash;
            self.status = SyncStatus::Synchronized;
            true
        } else if block_number > self.last_block_number + 1 {
            self.status = SyncStatus::Stale;
            self.last_block_number = block_number;
            self.last_block_hash = block_hash;
            false
        } else {
            false
        }
    }

    /// The synchronization status.
    pub fn sync_status(&self) -> (r: SyncStatus)
        ensures
            r == self.status_spec(),
    {
        self.status
    }

    /// The latest block number seen (0 before the first head).
    pub fn latest_block(&self) -> (r: u64)
        ensures
            r == self.block_spec(),
    {
        self.last_block_number
    }
}

} // verus!
