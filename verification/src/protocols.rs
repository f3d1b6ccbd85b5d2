//! Plain-data vocabulary shared by the routing modules.
use vstd::prelude::*;

verus! {

/// One data-parallel rank of one serving worker.
#[derive(Clone, Copy, Debug, PartialEq, Eq, Structural)]
pub struct WorkerWithDpRank {
    pub worker_id: u64,
    pub dp_rank: u32,
}

impl WorkerWithDpRank {
    pub fn new(worker_id: u64, dp_rank: u32) -> (worker: Self)
        ensures
            worker == (WorkerWithDpRank { worker_id, dp_rank }),
    {
        WorkerWithDpRank { worker_id, dp_rank }
    }
}

/// The stable owner of a cache, which may outlive the workers attached to it.
#[derive(Clone, Copy, Debug, PartialEq, Eq, Structural)]
pub struct CacheOwnerId {
    /// Interned id of the indexer domain that the owner's pool belongs to.
    pub indexer_domain: u64,
    /// Interned id of the owner within that domain.
    pub slot: u64,
}

/// Physical tier on which a block is stored.
#[derive(Clone, Copy, Debug, PartialEq, Eq, Structural)]
pub enum StorageTier {
    Device,
    HostPinned,
    Disk,
    /// Another tier, by number.
    Other(u32),
}

/// The lifetime that a cached block is tied to.
#[derive(Clone, Copy, Debug, PartialEq, Eq, Structural)]
pub enum ResidencyDomain {
    /// The block dies with the worker that holds it.
    Worker,
    /// The block belongs to a cache owner and outlives any one worker.
    CacheOwner,
}

/// What a reset wipes.
#[derive(Clone, Copy, Debug, PartialEq, Eq, Structural)]
pub enum ResetScope {
    All,
    Domain(ResidencyDomain),
}

/// How an event's residency was resolved when it was decoded.
#[derive(Clone, Copy, Debug, PartialEq, Eq, Structural)]
pub struct EventResidency {
    /// `None` when the producer named a domain that this router does not know.
    pub domain: Option<ResidencyDomain>,
    /// Set on an event that wipes state; `None` on every other event.
    pub reset_scope: Option<ResetScope>,
    /// Whether the event addresses the primary index; `None` when unsupported.
    pub targets_primary: Option<bool>,
}

/// One block of a store event.
#[derive(Clone, Copy, Debug, PartialEq, Eq, Structural)]
pub struct StoredBlock {
    pub block_hash: u64,
    pub tokens_hash: u64,
    /// Interned id of what the block holds of other media.
    pub mm_extra_info: Option<u64>,
}

/// What an event does to the cache of its rank.
#[derive(Debug, PartialEq, Eq)]
pub enum KvCacheEventData {
    Stored {
        parent_hash: Option<u64>,
        /// Where in the sequence the first block stands.
        start_position: Option<u64>,
        blocks: Vec<StoredBlock>,
    },
    Removed { block_hashes: Vec<u64> },
    Cleared,
}

/// One KV cache event of one rank.
#[derive(Debug, PartialEq, Eq)]
pub struct RouterEvent {
    pub worker_id: u64,
    pub dp_rank: u32,
    pub event_id: u64,
    pub data: KvCacheEventData,
    pub storage_tier: StorageTier,
    pub residency: EventResidency,
    /// The cache owner whose state agent published the event.
    pub state_source: Option<CacheOwnerId>,
    /// Interned id of what else the event came with, for the index that it is handed to.
    pub details: u64,
}

impl RouterEvent {
    pub open spec fn rank(self) -> WorkerWithDpRank {
        WorkerWithDpRank { worker_id: self.worker_id, dp_rank: self.dp_rank }
    }

    /// Whether the event wipes everything its rank holds.
    pub open spec fn clears_everything(self) -> bool {
        self.residency.reset_scope == Some(ResetScope::All)
    }
}

pub open spec fn spec_max(a: u64, b: u64) -> u64 {
    if a >= b {
        a
    } else {
        b
    }
}

pub fn max_u64(a: u64, b: u64) -> (m: u64)
    ensures
        m == spec_max(a, b),
{
    if a >= b {
        a
    } else {
        b
    }
}

/// `value`, or zero when there is none.
pub open spec fn or_zero(value: Option<u64>) -> u64 {
    match value {
        Some(v) => v,
        None => 0,
    }
}

/// The larger of two ids is one of them and below neither; no id counts as zero.
pub proof fn law_max_and_default(a: u64, b: u64)
    ensures
        spec_max(a, b) >= a,
        spec_max(a, b) >= b,
        spec_max(a, b) == a || spec_max(a, b) == b,
        or_zero(Some(a)) == a,
        or_zero(None) == 0,
{
}

/// An event belongs to the rank that it names, and wipes that rank exactly when its reset spans
/// everything.
pub proof fn law_event_names_its_rank(event: RouterEvent)
    ensures
        event.rank().worker_id == event.worker_id,
        event.rank().dp_rank == event.dp_rank,
        event.clears_everything() <==> event.residency.reset_scope == Some(ResetScope::All),
{
}

/// The larger of two numbers is one of them, and no smaller than either.
pub proof fn law_larger_of_two(a: u64, b: u64, larger: u64)
    requires
        call_ensures(max_u64, (a, b), larger),
    ensures
        larger >= a,
        larger >= b,
        larger == a || larger == b,
{
}

} // verus!
