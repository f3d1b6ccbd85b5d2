//! Prefix lookup: which indexes answer, in what order, and how their answers are joined.
use vstd::prelude::*;

use crate::indexer::Indexer;
use crate::protocols::WorkerWithDpRank;
use crate::table::{has_entry, Table};

verus! {

/// Block hashes that a lookup borrows or owns.
pub enum HashInput<'a> {
    Borrowed(&'a [u64]),
    Owned(Vec<u64>),
}

impl<'a> HashInput<'a> {
    pub open spec fn hashes(self) -> Seq<u64> {
        match self {
            HashInput::Borrowed(sequence) => sequence@,
            HashInput::Owned(sequence) => sequence@,
        }
    }

    pub fn as_slice(&self) -> (slice: &[u64])
        ensures
            slice@ == self.hashes(),
    {
        match self {
            HashInput::Borrowed(sequence) => sequence,
            HashInput::Owned(sequence) => sequence.as_slice(),
        }
    }

    pub fn clone_for_boundary(&self) -> (hashes: Vec<u64>)
        ensures
            hashes@ == self.hashes(),
    {
        copy_hashes(self.as_slice())
    }

    pub fn into_owned_at_boundary(self) -> (hashes: Vec<u64>)
        ensures
            hashes@ == self.hashes(),
    {
        match self {
            HashInput::Borrowed(sequence) => copy_hashes(sequence),
            HashInput::Owned(sequence) => sequence,
        }
    }
}

fn copy_hashes(slice: &[u64]) -> (hashes: Vec<u64>)
    ensures
        hashes@ == slice@,
{
    let mut hashes: Vec<u64> = Vec::new();
    let mut i: usize = 0;
    while i < slice.len()
        invariant
            i <= slice.len(),
            hashes@ == slice@.subrange(0, i as int),
        decreases slice.len() - i,
    {
        hashes.push(slice[i]);
        proof {
            assert(hashes@ =~= slice@.subrange(0, i + 1));
        }
        i = i + 1;
    }
    proof {
        assert(slice@.subrange(0, i as int) =~= slice@);
    }
    hashes
}

/// Matched blocks per rank.
pub type Scores = Table<WorkerWithDpRank, u32>;

#[derive(Debug)]
pub struct OverlapScores {
    pub scores: Scores,
    pub frequencies: Vec<usize>,
    pub tree_sizes: Table<WorkerWithDpRank, usize>,
}

/// What an index found for a prefix. What else it was asked to retain, such as a transfer chain,
/// is carried as it came.
#[derive(Debug)]
pub struct MatchDetails<C> {
    pub overlap_scores: OverlapScores,
    /// Per rank: the hash of the last block that matched.
    pub last_matched_hashes: Table<WorkerWithDpRank, u64>,
    pub retained: C,
}

/// What all tiers found for a prefix. The lower tiers' answer is carried as it came.
#[derive(Debug)]
pub struct TieredMatchDetails<C, L> {
    pub device: MatchDetails<C>,
    pub lower_tier: L,
}

pub open spec fn better_score(left: u32, right: u32) -> u32 {
    if right > left {
        right
    } else {
        left
    }
}

/// Per rank the longer of two matches.
pub open spec fn merged_scores(
    primary: Map<WorkerWithDpRank, u32>,
    side: Map<WorkerWithDpRank, u32>,
) -> Map<WorkerWithDpRank, u32> {
    Map::new(
        |worker: WorkerWithDpRank| primary.dom().contains(worker) || side.dom().contains(worker),
        |worker: WorkerWithDpRank|
            if primary.dom().contains(worker) && side.dom().contains(worker) {
                better_score(primary[worker], side[worker])
            } else if primary.dom().contains(worker) {
                primary[worker]
            } else {
                side[worker]
            },
    )
}

/// Only the scores differ.
pub open spec fn same_but_scores<C>(left: MatchDetails<C>, right: MatchDetails<C>) -> bool {
    &&& left.overlap_scores.frequencies@ == right.overlap_scores.frequencies@
    &&& left.overlap_scores.tree_sizes@ == right.overlap_scores.tree_sizes@
    &&& left.last_matched_hashes@ == right.last_matched_hashes@
    &&& left.retained == right.retained
}

/// Raise the scores of the primary index to those of the side index where these are higher.
///
/// Everything else comes from the primary alone. A rank that only the side index knows gains a
/// score without a hash, so the result must not seed a lower-tier lookup.
pub fn merge_overlap_scores<C>(primary: MatchDetails<C>, side: &Scores) -> (merged: MatchDetails<C>)
    ensures
        merged.overlap_scores.scores@ == merged_scores(
            primary.overlap_scores.scores@,
            side@,
        ),
        same_but_scores(merged, primary),
{
    let MatchDetails { overlap_scores, last_matched_hashes, retained } = primary;
    let OverlapScores { scores, frequencies, tree_sizes } = overlap_scores;
    let ghost before = scores@;
    let mut scores = scores;
    let len: usize = side.len();
    let ghost listing = side.listing();
    let mut i: usize = 0;
    while i < len
        invariant
            i <= len,
            len == listing.len(),
            listing == side.listing(),
            crate::table::distinct_keys(listing),
            forall|j: int|
                0 <= j < len ==> side@.dom().contains((#[trigger] listing[j]).0)
                    && side@[listing[j].0] == listing[j].1,
            forall|worker: WorkerWithDpRank| #[trigger]
                scores@.dom().contains(worker) ==> merged_scores(before, side@).dom().contains(
                    worker,
                ),
            forall|worker: WorkerWithDpRank|
                before.dom().contains(worker) ==> #[trigger] scores@.dom().contains(worker),
            forall|worker: WorkerWithDpRank| #[trigger]
                scores@.dom().contains(worker) ==> scores@[worker] == if has_entry(
                    listing.subrange(0, i as int),
                    worker,
                ) {
                    merged_scores(before, side@)[worker]
                } else {
                    before[worker]
                },
            forall|worker: WorkerWithDpRank|
                has_entry(listing.subrange(0, i as int), worker)
                    ==> #[trigger] scores@.dom().contains(worker),
            forall|worker: WorkerWithDpRank| #[trigger]
                scores@.dom().contains(worker) ==> before.dom().contains(worker) || has_entry(
                    listing.subrange(0, i as int),
                    worker,
                ),
        decreases len - i,
    {
        let worker = side.key_at(i);
        let side_score: u32 = *side.value_at(i);
        proof {
            crate::membership::lemma_prefix_entry(listing, i as int);
            let prefix = listing.subrange(0, i as int);
            if has_entry(prefix, worker) {
                let j = choose|j: int| 0 <= j < prefix.len() && (#[trigger] prefix[j]).0 == worker;
                assert(listing[j].0 == listing[i as int].0);
            }
            assert(side@.dom().contains(listing[i as int].0));
        }
        let score: u32 = match scores.get(&worker) {
            Some(score) => if side_score > *score {
                side_score
            } else {
                *score
            },
            None => side_score,
        };
        scores.insert(worker, score);
        i = i + 1;
    }
    proof {
        assert(listing.subrange(0, i as int) =~= listing);
        assert forall|worker: WorkerWithDpRank| #[trigger]
            merged_scores(before, side@).dom().contains(worker) implies scores@.dom().contains(
            worker,
        ) && scores@[worker] == merged_scores(before, side@)[worker] by {
            if side@.dom().contains(worker) {
                assert(has_entry(listing, worker));
            }
            if has_entry(listing, worker) {
                assert(scores@.dom().contains(worker));
            }
        }
        assert(scores@ =~= merged_scores(before, side@));
    }
    MatchDetails {
        overlap_scores: OverlapScores { scores, frequencies, tree_sizes },
        last_matched_hashes,
        retained,
    }
}

/// The side index could not be asked.
#[derive(Clone, Copy, Debug, PartialEq, Eq, Structural)]
pub struct SideQueryFailed;

/// Join the answer of the side index, if there is one; a failed side query changes nothing.
pub fn merge_side_or_warn<C>(
    primary: MatchDetails<C>,
    side: Option<Result<Scores, SideQueryFailed>>,
) -> (device: MatchDetails<C>)
    ensures
        same_but_scores(device, primary),
        device.overlap_scores.scores@ == match side {
            Some(Ok(scores)) => merged_scores(primary.overlap_scores.scores@, scores@),
            _ => primary.overlap_scores.scores@,
        },
{
    match side {
        Some(Ok(scores)) => merge_overlap_scores(primary, &scores),
        Some(Err(_)) => primary,
        None => primary,
    }
}

/// Join what the tiers found. The lower tiers were asked on the primary's answer alone, and
/// their answer stays as it came.
pub fn join_tiers<C, L>(
    primary: MatchDetails<C>,
    lower_tier: L,
    side: Option<Result<Scores, SideQueryFailed>>,
) -> (tiered: TieredMatchDetails<C, L>)
    ensures
        tiered.lower_tier == lower_tier,
        same_but_scores(tiered.device, primary),
        tiered.device.overlap_scores.scores@ == match side {
            Some(Ok(scores)) => merged_scores(primary.overlap_scores.scores@, scores@),
            _ => primary.overlap_scores.scores@,
        },
{
    TieredMatchDetails { device: merge_side_or_warn(primary, side), lower_tier }
}

/// The index that a lookup starts with.
#[derive(Clone, Copy, Debug, PartialEq, Eq, Structural)]
pub enum PrimaryLookup {
    KvIndexer,
    Concurrent,
    Remote,
    Disabled,
}

#[derive(Clone, Copy, Debug, PartialEq, Eq, Structural)]
pub struct LookupPipeline {
    pub primary: PrimaryLookup,
    /// Whether lower tiers are asked on this router.
    pub lower_tier: bool,
    /// Whether a side index is asked.
    pub side: bool,
}

/// How the primary index is asked for its own matches.
#[derive(Clone, Copy, Debug, PartialEq, Eq, Structural)]
pub enum PrimaryQuery {
    /// Hand the hashes over to the engine's task.
    KvIndexer { retain_kv_transfer_chain: bool },
    /// Ask the shared tree in place, to the end of the sequence.
    Concurrent { retain_kv_transfer_chain: bool },
    /// Ask the remote index for its device tier alone; it keeps no transfer chains.
    Remote,
    /// There is nothing to ask, and nothing matches.
    Empty,
}

impl PrimaryLookup {
    /// Plan a lookup in the primary index.
    pub fn plan_match_details(&self, retain_kv_transfer_chain: bool) -> (query: PrimaryQuery)
        ensures
            query == match self {
                PrimaryLookup::KvIndexer => PrimaryQuery::KvIndexer { retain_kv_transfer_chain },
                PrimaryLookup::Concurrent => PrimaryQuery::Concurrent {
                    retain_kv_transfer_chain,
                },
                PrimaryLookup::Remote => PrimaryQuery::Remote,
                PrimaryLookup::Disabled => PrimaryQuery::Empty,
            },
    {
        match self {
            PrimaryLookup::KvIndexer => PrimaryQuery::KvIndexer { retain_kv_transfer_chain },
            PrimaryLookup::Concurrent => PrimaryQuery::Concurrent { retain_kv_transfer_chain },
            PrimaryLookup::Remote => PrimaryQuery::Remote,
            PrimaryLookup::Disabled => PrimaryQuery::Empty,
        }
    }
}

/// How a tiered lookup runs.
#[derive(Clone, Copy, Debug, PartialEq, Eq, Structural)]
pub enum TieredLookup {
    /// Ask the primary, seed the lower tiers from its answer, then merge the side index.
    Local { merge_side: bool, retain_kv_transfer_chain: bool },
    /// Ask the remote index for all tiers, then merge the side index.
    Remote { merge_side: bool, warn_no_retention: bool },
    /// There is nothing to ask.
    Empty,
}

impl LookupPipeline {
    pub open spec fn of(indexer: Indexer) -> LookupPipeline {
        match indexer {
            Indexer::KvIndexer { approx, .. } => LookupPipeline {
                primary: PrimaryLookup::KvIndexer,
                lower_tier: true,
                side: approx is Some,
            },
            Indexer::Concurrent { approx, .. } => LookupPipeline {
                primary: PrimaryLookup::Concurrent,
                lower_tier: true,
                side: approx is Some,
            },
            Indexer::Remote { approx, .. } => LookupPipeline {
                primary: PrimaryLookup::Remote,
                lower_tier: false,
                side: approx is Some,
            },
            Indexer::Disabled => LookupPipeline {
                primary: PrimaryLookup::Disabled,
                lower_tier: false,
                side: false,
            },
        }
    }

    pub open spec fn is_local(self) -> bool {
        self.primary == PrimaryLookup::KvIndexer || self.primary == PrimaryLookup::Concurrent
    }

    /// Plan a lookup over all tiers.
    pub fn plan_matches_by_tier(&self, retain_kv_transfer_chain: bool) -> (plan: TieredLookup)
        ensures
            plan == if self.is_local() {
                if self.lower_tier {
                    TieredLookup::Local { merge_side: self.side, retain_kv_transfer_chain }
                } else {
                    TieredLookup::Empty
                }
            } else if self.primary == PrimaryLookup::Remote {
                TieredLookup::Remote {
                    merge_side: self.side,
                    warn_no_retention: retain_kv_transfer_chain,
                }
            } else {
                TieredLookup::Empty
            },
    {
        match self.primary {
            PrimaryLookup::KvIndexer | PrimaryLookup::Concurrent => {
                if self.lower_tier {
                    TieredLookup::Local { merge_side: self.side, retain_kv_transfer_chain }
                } else {
                    TieredLookup::Empty
                }
            },
            PrimaryLookup::Remote => TieredLookup::Remote {
                merge_side: self.side,
                warn_no_retention: retain_kv_transfer_chain,
            },
            PrimaryLookup::Disabled => TieredLookup::Empty,
        }
    }

    /// Plan a lookup over all tiers that leaves the side index out.
    pub fn plan_primary_matches_by_tier(&self) -> (plan: TieredLookup)
        ensures
            plan == if self.is_local() {
                if self.lower_tier {
                    TieredLookup::Local { merge_side: false, retain_kv_transfer_chain: false }
                } else {
                    TieredLookup::Empty
                }
            } else if self.primary == PrimaryLookup::Remote {
                TieredLookup::Remote { merge_side: false, warn_no_retention: false }
            } else {
                TieredLookup::Empty
            },
    {
        let primary_only = LookupPipeline {
            primary: self.primary,
            lower_tier: self.lower_tier,
            side: false,
        };
        primary_only.plan_matches_by_tier(false)
    }
}

/// A side index can only raise what the primary found: no rank loses blocks, and every score
/// was found by one of the two.
pub proof fn law_side_scores_only_raise(
    primary: Map<WorkerWithDpRank, u32>,
    side: Map<WorkerWithDpRank, u32>,
    worker: WorkerWithDpRank,
)
    requires
        merged_scores(primary, side).dom().contains(worker),
    ensures
        primary.dom().contains(worker) ==> merged_scores(primary, side)[worker]
            >= primary[worker],
        side.dom().contains(worker) ==> merged_scores(primary, side)[worker] >= side[worker],
        (primary.dom().contains(worker) && merged_scores(primary, side)[worker] == primary[worker])
            || (side.dom().contains(worker) && merged_scores(primary, side)[worker]
            == side[worker]),
{
}

/// A lookup sees the hashes it is given, whether it borrows or owns them, and takes the same over
/// a boundary.
pub proof fn law_hashes_are_handed_on_unchanged<'a>(
    input: &HashInput<'a>,
    slice: &[u64],
    cloned: Vec<u64>,
    owned: Vec<u64>,
)
    requires
        call_ensures(HashInput::<'a>::as_slice, (input,), slice),
        call_ensures(HashInput::<'a>::clone_for_boundary, (input,), cloned),
        call_ensures(HashInput::<'a>::into_owned_at_boundary, (*input,), owned),
    ensures
        match *input {
            HashInput::Borrowed(sequence) => slice@ == sequence@ && cloned@ == sequence@
                && owned@ == sequence@,
            HashInput::Owned(sequence) => slice@ == sequence@ && cloned@ == sequence@ && owned@
                == sequence@,
        },
{
}

/// A rank has a merged score exactly if one of the two indexes scored it. The score of a rank that
/// both scored is the higher of the two; that of one that only one scored is that one's. Nothing
/// but the scores changes.
pub proof fn law_merge_takes_the_higher_score<C>(
    primary: MatchDetails<C>,
    side: &Scores,
    merged: MatchDetails<C>,
    worker: WorkerWithDpRank,
)
    requires
        call_ensures(merge_overlap_scores::<C>, (primary, side), merged),
    ensures
        ({
            let own = primary.overlap_scores.scores@;
            let all = merged.overlap_scores.scores@;
            &&& all.dom().contains(worker) <==> own.dom().contains(worker) || side@.dom().contains(
                worker,
            )
            &&& own.dom().contains(worker) && side@.dom().contains(worker) && own[worker]
                >= side@[worker] ==> all[worker] == own[worker]
            &&& own.dom().contains(worker) && side@.dom().contains(worker) && own[worker]
                < side@[worker] ==> all[worker] == side@[worker]
            &&& own.dom().contains(worker) && !side@.dom().contains(worker) ==> all[worker]
                == own[worker]
            &&& !own.dom().contains(worker) && side@.dom().contains(worker) ==> all[worker]
                == side@[worker]
        }),
        merged.overlap_scores.frequencies@ == primary.overlap_scores.frequencies@,
        merged.overlap_scores.tree_sizes@ == primary.overlap_scores.tree_sizes@,
        merged.last_matched_hashes@ == primary.last_matched_hashes@,
        merged.retained == primary.retained,
{
}

/// A side index that failed, or was not asked, leaves the scores as the primary found them; one
/// that answered raises them. The lower tiers' answer stays as it came.
pub proof fn law_failed_side_query_changes_nothing<C, L>(
    primary: MatchDetails<C>,
    lower_tier: L,
    side: Option<Result<Scores, SideQueryFailed>>,
    device: MatchDetails<C>,
    tiered: TieredMatchDetails<C, L>,
    worker: WorkerWithDpRank,
)
    requires
        call_ensures(merge_side_or_warn::<C>, (primary, side), device),
        call_ensures(join_tiers::<C, L>, (primary, lower_tier, side), tiered),
    ensures
        tiered.lower_tier == lower_tier,
        ({
            let own = primary.overlap_scores.scores@;
            let all = tiered.device.overlap_scores.scores@;
            &&& device.overlap_scores.scores@ == all
            &&& !(side is Some && side->0 is Ok) ==> all == own
            &&& side is Some && side->0 is Ok ==> {
                let found = side->0->Ok_0@;
                &&& all.dom().contains(worker) <==> own.dom().contains(worker)
                    || found.dom().contains(worker)
                &&& own.dom().contains(worker) ==> all[worker] >= own[worker]
                &&& found.dom().contains(worker) ==> all[worker] >= found[worker]
                &&& all.dom().contains(worker) ==> (own.dom().contains(worker) && all[worker]
                    == own[worker]) || (found.dom().contains(worker) && all[worker]
                    == found[worker])
            }
        }),
        tiered.device.last_matched_hashes@ == primary.last_matched_hashes@,
        tiered.device.overlap_scores.frequencies@ == primary.overlap_scores.frequencies@,
        tiered.device.overlap_scores.tree_sizes@ == primary.overlap_scores.tree_sizes@,
        tiered.device.retained == primary.retained,
        device.last_matched_hashes@ == primary.last_matched_hashes@,
        device.retained == primary.retained,
{
}

/// Each kind of primary index is asked in its own way, and a local one is told whether to retain
/// transfer chains; a disabled one is not asked.
pub proof fn law_primary_is_asked_in_its_own_way(
    primary: &PrimaryLookup,
    retain_kv_transfer_chain: bool,
    query: PrimaryQuery,
)
    requires
        call_ensures(
            PrimaryLookup::plan_match_details,
            (primary, retain_kv_transfer_chain),
            query,
        ),
    ensures
        query is KvIndexer <==> *primary is KvIndexer,
        query is Concurrent <==> *primary is Concurrent,
        query is Remote <==> *primary is Remote,
        query is Empty <==> *primary is Disabled,
        query is KvIndexer ==> query->KvIndexer_retain_kv_transfer_chain
            == retain_kv_transfer_chain,
        query is Concurrent ==> query->Concurrent_retain_kv_transfer_chain
            == retain_kv_transfer_chain,
{
}

/// A local primary with lower tiers is looked up on this router, a remote one there; the side
/// index joins in where there is one, and chains are retained only locally. What leaves the side
/// index out asks the same index otherwise, and retains nothing.
pub proof fn law_tiers_are_asked_where_they_live(
    pipeline: &LookupPipeline,
    retain_kv_transfer_chain: bool,
    plan: TieredLookup,
    primary_only: TieredLookup,
)
    requires
        call_ensures(
            LookupPipeline::plan_matches_by_tier,
            (pipeline, retain_kv_transfer_chain),
            plan,
        ),
        call_ensures(LookupPipeline::plan_primary_matches_by_tier, (pipeline,), primary_only),
    ensures
        plan is Local <==> (pipeline.primary is KvIndexer || pipeline.primary is Concurrent)
            && pipeline.lower_tier,
        plan is Remote <==> pipeline.primary is Remote,
        plan is Local ==> plan->Local_merge_side == pipeline.side
            && plan->retain_kv_transfer_chain == retain_kv_transfer_chain,
        plan is Remote ==> plan->Remote_merge_side == pipeline.side && plan->warn_no_retention
            == retain_kv_transfer_chain,
        primary_only is Local <==> plan is Local,
        primary_only is Remote <==> plan is Remote,
        primary_only is Local ==> !primary_only->Local_merge_side
            && !primary_only->retain_kv_transfer_chain,
        primary_only is Remote ==> !primary_only->Remote_merge_side
            && !primary_only->warn_no_retention,
{
}

} // verus!
