//! The shape of the index: how it is put together, and where events and resets go.
pub mod lookup;
pub mod recovery;

use vstd::prelude::*;

use crate::indexer::lookup::{LookupPipeline, PrimaryLookup};
use crate::protocols::{KvCacheEventData, RouterEvent, StorageTier};

verus! {

/// How long a primary index without events keeps what it predicts.
#[derive(Clone, Copy, Debug, PartialEq, Eq, Structural)]
pub enum ApproximateCachePolicyKind {
    Ttl,
    Lru,
}

#[derive(Clone, Copy, Debug, PartialEq, Eq, Structural)]
pub enum ResolvedApproximatePrimaryPolicy {
    Disabled,
    Ttl,
    Lru,
    /// Least-recently-used was asked for, but the primary is not local to this router.
    TtlRemoteFallback,
}

/// What of the router's configuration shapes its index.
#[derive(Clone, Copy, Debug, PartialEq, Eq, Structural)]
pub struct IndexerConfig {
    pub use_kv_events: bool,
    pub router_approximate_cache_policy: ApproximateCachePolicyKind,
    /// Whether overlap earns no credit: the configured weight is zero or less.
    pub overlap_earns_no_credit: bool,
    pub use_remote_indexer: bool,
    pub serve_indexer: bool,
    /// Whether a lifetime is set for predicted blocks.
    pub predicts_on_route: bool,
    pub router_event_threads: u32,
}

#[derive(Clone, Copy, Debug, PartialEq, Eq, Structural)]
pub enum IndexerConfigError {
    LruNeedsEventsOff,
    PredictionNeedsEvents,
    RemoteNeedsModelName,
}

impl IndexerConfigError {
    /// The error in words.
    pub fn message(&self) -> (message: &'static str)
        ensures
            message@ == match self {
                IndexerConfigError::LruNeedsEventsOff =>
                "router_approximate_cache_policy=lru requires use_kv_events=false; the local side indexer is TTL-only"@,
                IndexerConfigError::PredictionNeedsEvents =>
                "router_predicted_ttl_secs requires use_kv_events=true; do not combine a primary approximate indexer with a side approximate indexer"@,
                IndexerConfigError::RemoteNeedsModelName =>
                "model_name is required when use_remote_indexer is configured"@,
            },
    {
        match self {
            IndexerConfigError::LruNeedsEventsOff =>
            "router_approximate_cache_policy=lru requires use_kv_events=false; the local side indexer is TTL-only",
            IndexerConfigError::PredictionNeedsEvents =>
            "router_predicted_ttl_secs requires use_kv_events=true; do not combine a primary approximate indexer with a side approximate indexer",
            IndexerConfigError::RemoteNeedsModelName =>
            "model_name is required when use_remote_indexer is configured",
        }
    }
}

/// How a primary index without events forgets.
#[derive(Clone, Copy, Debug, PartialEq, Eq, Structural)]
pub enum Retention {
    Ttl,
    /// Bounded by capacity, with a lifetime where the capacity is unknown.
    LruWithTtlFallback,
}

/// An index to be built. `side` asks for a predict-on-route index beside the primary.
#[derive(Clone, Copy, Debug, PartialEq, Eq, Structural)]
pub enum IndexerPlan {
    Disabled,
    Remote { side: bool, primary_records_routing_decisions: bool },
    Concurrent {
        threads: u32,
        retention: Option<Retention>,
        side: bool,
        primary_records_routing_decisions: bool,
    },
    KvIndexer {
        retention: Option<Retention>,
        side: bool,
        primary_records_routing_decisions: bool,
    },
}

pub open spec fn resolved_policy(config: IndexerConfig) -> Result<
    ResolvedApproximatePrimaryPolicy,
    IndexerConfigError,
> {
    let wants_lru = config.router_approximate_cache_policy == ApproximateCachePolicyKind::Lru;
    if config.use_kv_events && wants_lru {
        Err(IndexerConfigError::LruNeedsEventsOff)
    } else if config.overlap_earns_no_credit {
        Ok(ResolvedApproximatePrimaryPolicy::Disabled)
    } else if !wants_lru {
        Ok(ResolvedApproximatePrimaryPolicy::Ttl)
    } else if config.use_remote_indexer || config.serve_indexer {
        Ok(ResolvedApproximatePrimaryPolicy::TtlRemoteFallback)
    } else {
        Ok(ResolvedApproximatePrimaryPolicy::Lru)
    }
}

pub fn resolve_approximate_primary_policy(config: &IndexerConfig) -> (policy: Result<
    ResolvedApproximatePrimaryPolicy,
    IndexerConfigError,
>)
    ensures
        policy == resolved_policy(*config),
{
    if config.use_kv_events && config.router_approximate_cache_policy
        == ApproximateCachePolicyKind::Lru {
        return Err(IndexerConfigError::LruNeedsEventsOff);
    }
    if config.overlap_earns_no_credit {
        return Ok(ResolvedApproximatePrimaryPolicy::Disabled);
    }
    if config.use_kv_events || config.router_approximate_cache_policy
        == ApproximateCachePolicyKind::Ttl {
        return Ok(ResolvedApproximatePrimaryPolicy::Ttl);
    }
    if config.use_remote_indexer || config.serve_indexer {
        return Ok(ResolvedApproximatePrimaryPolicy::TtlRemoteFallback);
    }
    Ok(ResolvedApproximatePrimaryPolicy::Lru)
}

/// The index that a configuration asks for.
pub open spec fn indexer_plan(config: IndexerConfig, has_model_name: bool) -> Result<
    IndexerPlan,
    IndexerConfigError,
> {
    match resolved_policy(config) {
        Err(error) => Err(error),
        Ok(ResolvedApproximatePrimaryPolicy::Disabled) => Ok(IndexerPlan::Disabled),
        Ok(policy) => if config.predicts_on_route && !config.use_kv_events {
            Err(IndexerConfigError::PredictionNeedsEvents)
        } else if config.use_remote_indexer {
            if has_model_name {
                Ok(
                    IndexerPlan::Remote {
                        side: true,
                        primary_records_routing_decisions: !config.use_kv_events,
                    },
                )
            } else {
                Err(IndexerConfigError::RemoteNeedsModelName)
            }
        } else {
            let predicts = !config.use_kv_events;
            let retention = if !predicts {
                None
            } else if policy == ResolvedApproximatePrimaryPolicy::Lru {
                Some(Retention::LruWithTtlFallback)
            } else {
                Some(Retention::Ttl)
            };
            if config.router_event_threads > 1 {
                Ok(
                    IndexerPlan::Concurrent {
                        threads: config.router_event_threads,
                        retention,
                        side: !predicts,
                        primary_records_routing_decisions: predicts,
                    },
                )
            } else {
                Ok(
                    IndexerPlan::KvIndexer {
                        retention,
                        side: !predicts,
                        primary_records_routing_decisions: predicts,
                    },
                )
            }
        },
    }
}

/// Decide which index to build.
pub fn plan_indexer(config: &IndexerConfig, has_model_name: bool) -> (plan: Result<
    IndexerPlan,
    IndexerConfigError,
>)
    ensures
        plan == indexer_plan(*config, has_model_name),
{
    let policy = match resolve_approximate_primary_policy(config) {
        Ok(policy) => policy,
        Err(error) => return Err(error),
    };
    if policy == ResolvedApproximatePrimaryPolicy::Disabled {
        return Ok(IndexerPlan::Disabled);
    }
    if config.predicts_on_route && !config.use_kv_events {
        return Err(IndexerConfigError::PredictionNeedsEvents);
    }
    if config.use_remote_indexer {
        if !has_model_name {
            return Err(IndexerConfigError::RemoteNeedsModelName);
        }
        return Ok(
            IndexerPlan::Remote {
                side: true,
                primary_records_routing_decisions: !config.use_kv_events,
            },
        );
    }
    if !config.use_kv_events {
        let retention = if policy == ResolvedApproximatePrimaryPolicy::Lru {
            Retention::LruWithTtlFallback
        } else {
            Retention::Ttl
        };
        if config.router_event_threads > 1 {
            return Ok(
                IndexerPlan::Concurrent {
                    threads: config.router_event_threads,
                    retention: Some(retention),
                    side: false,
                    primary_records_routing_decisions: true,
                },
            );
        }
        return Ok(
            IndexerPlan::KvIndexer {
                retention: Some(retention),
                side: false,
                primary_records_routing_decisions: true,
            },
        );
    }
    if config.router_event_threads > 1 {
        return Ok(
            IndexerPlan::Concurrent {
                threads: config.router_event_threads,
                retention: None,
                side: true,
                primary_records_routing_decisions: false,
            },
        );
    }
    Ok(
        IndexerPlan::KvIndexer {
            retention: None,
            side: true,
            primary_records_routing_decisions: false,
        },
    )
}

/// A running index. The engines behind it are named by handles.
#[derive(Clone, Copy, Debug, PartialEq, Eq, Structural)]
pub enum Indexer {
    KvIndexer {
        primary: u64,
        approximate_lru: bool,
        /// The side index that holds predictions of routed requests.
        approx: Option<u64>,
        primary_records_routing_decisions: bool,
    },
    Concurrent {
        primary: u64,
        approximate_lru: bool,
        approx: Option<u64>,
        primary_records_routing_decisions: bool,
    },
    Remote { primary: u64, approx: Option<u64>, primary_records_routing_decisions: bool },
    /// Overlap earns nothing, so nothing is indexed.
    Disabled,
}

/// Where an event goes.
#[derive(Clone, Copy, Debug, PartialEq, Eq, Structural)]
pub enum EventRoute {
    /// Count it as unsupported, on the lower tiers' counter where there are any.
    RecordUnsupported { on_lower_tiers: bool },
    /// Clear the primary where so marked, and wait; then apply it to every lower tier, and wait.
    /// A single-threaded primary is reset for the rank, a concurrent one applies the event.
    Clear { primary: ClearPrimary },
    Primary,
    LowerTier { tier: StorageTier },
    /// Nothing is indexed here.
    Drop,
}

#[derive(Clone, Copy, Debug, PartialEq, Eq, Structural)]
pub enum ClearPrimary {
    Untouched,
    ResetRank,
    ApplyEvent,
}

/// One part of an index that a reset goes through.
#[derive(Clone, Copy, Debug, PartialEq, Eq, Structural)]
pub enum IndexLane {
    Primary,
    LowerTier(StorageTier),
    Side,
}

/// What a dump of all events is made of.
#[derive(Clone, Copy, Debug, PartialEq, Eq, Structural)]
pub enum DumpPlan {
    /// The primary's events, then those of every lower tier under its tier.
    Local,
    Empty,
    Unsupported,
}

impl Indexer {
    pub open spec fn is_local(self) -> bool {
        self is KvIndexer || self is Concurrent
    }

    pub open spec fn side(self) -> Option<u64> {
        match self {
            Indexer::KvIndexer { approx, .. } => approx,
            Indexer::Concurrent { approx, .. } => approx,
            Indexer::Remote { approx, .. } => approx,
            Indexer::Disabled => None,
        }
    }

    /// Whether projections are published to this index: only local tiers use them.
    pub fn takes_residency_routing(&self) -> (takes: bool)
        ensures
            takes == self.is_local(),
    {
        match self {
            Indexer::KvIndexer { .. } => true,
            Indexer::Concurrent { .. } => true,
            _ => false,
        }
    }

    pub fn supports_overlap_refresh(&self) -> (supported: bool)
        ensures
            supported == self.is_local(),
    {
        match self {
            Indexer::KvIndexer { .. } => true,
            Indexer::Concurrent { .. } => true,
            _ => false,
        }
    }

    /// Only a local index that events alone feed can say which chain a block belongs to.
    pub fn supports_kv_transfer_chain_retention(&self) -> (supported: bool)
        ensures
            supported == match *self {
                Indexer::KvIndexer { approx, primary_records_routing_decisions, .. } => approx
                    is None && !primary_records_routing_decisions,
                Indexer::Concurrent { approx, primary_records_routing_decisions, .. } => approx
                    is None && !primary_records_routing_decisions,
                _ => false,
            },
    {
        match self {
            Indexer::KvIndexer { approx, primary_records_routing_decisions, .. } => approx.is_none()
                && !*primary_records_routing_decisions,
            Indexer::Concurrent { approx, primary_records_routing_decisions, .. } =>
            approx.is_none() && !*primary_records_routing_decisions,
            _ => false,
        }
    }

    pub fn uses_approximate_lru(&self) -> (uses: bool)
        ensures
            uses == match self {
                Indexer::KvIndexer { approximate_lru, .. } => *approximate_lru,
                Indexer::Concurrent { approximate_lru, .. } => *approximate_lru,
                _ => false,
            },
    {
        match self {
            Indexer::KvIndexer { approximate_lru, .. } => *approximate_lru,
            Indexer::Concurrent { approximate_lru, .. } => *approximate_lru,
            _ => false,
        }
    }

    /// The primary engine on this router: capacities are set on it, and statistics of the
    /// approximate index are asked of it. Elsewhere the one is dropped and the other is empty.
    pub fn local_primary(&self) -> (primary: Option<u64>)
        ensures
            primary == match self {
                Indexer::KvIndexer { primary, .. } => Some(*primary),
                Indexer::Concurrent { primary, .. } => Some(*primary),
                _ => None,
            },
    {
        match self {
            Indexer::KvIndexer { primary, .. } => Some(*primary),
            Indexer::Concurrent { primary, .. } => Some(*primary),
            _ => None,
        }
    }

    pub fn lookup_pipeline(&self) -> (pipeline: LookupPipeline)
        ensures
            pipeline == LookupPipeline::of(*self),
    {
        match self {
            Indexer::KvIndexer { approx, .. } => LookupPipeline {
                primary: PrimaryLookup::KvIndexer,
                lower_tier: true,
                side: approx.is_some(),
            },
            Indexer::Concurrent { approx, .. } => LookupPipeline {
                primary: PrimaryLookup::Concurrent,
                lower_tier: true,
                side: approx.is_some(),
            },
            Indexer::Remote { approx, .. } => LookupPipeline {
                primary: PrimaryLookup::Remote,
                lower_tier: false,
                side: approx.is_some(),
            },
            Indexer::Disabled => LookupPipeline {
                primary: PrimaryLookup::Disabled,
                lower_tier: false,
                side: false,
            },
        }
    }

    pub fn plan_dump(&self) -> (plan: DumpPlan)
        ensures
            plan == match self {
                Indexer::KvIndexer { .. } | Indexer::Concurrent { .. } => DumpPlan::Local,
                Indexer::Remote { .. } => DumpPlan::Empty,
                Indexer::Disabled => DumpPlan::Unsupported,
            },
    {
        match self {
            Indexer::KvIndexer { .. } => DumpPlan::Local,
            Indexer::Concurrent { .. } => DumpPlan::Local,
            Indexer::Remote { .. } => DumpPlan::Empty,
            Indexer::Disabled => DumpPlan::Unsupported,
        }
    }

    pub open spec fn route(self, event: RouterEvent) -> EventRoute {
        match event.residency.targets_primary {
            None => EventRoute::RecordUnsupported { on_lower_tiers: self.is_local() },
            Some(targets_primary) => if !self.is_local() {
                EventRoute::Drop
            } else if event.data is Cleared {
                EventRoute::Clear {
                    primary: if !targets_primary {
                        ClearPrimary::Untouched
                    } else if self is KvIndexer {
                        ClearPrimary::ResetRank
                    } else {
                        ClearPrimary::ApplyEvent
                    },
                }
            } else if targets_primary {
                EventRoute::Primary
            } else {
                EventRoute::LowerTier { tier: event.storage_tier }
            },
        }
    }

    /// Decide where an event goes.
    pub fn route_event(&self, event: &RouterEvent) -> (route: EventRoute)
        ensures
            route == self.route(*event),
    {
        let local: bool = self.takes_residency_routing();
        let targets_primary: bool = match event.residency.targets_primary {
            Some(targets_primary) => targets_primary,
            None => return EventRoute::RecordUnsupported { on_lower_tiers: local },
        };
        if !local {
            return EventRoute::Drop;
        }
        let is_clear: bool = match event.data {
            KvCacheEventData::Cleared => true,
            _ => false,
        };
        if is_clear {
            let primary = if !targets_primary {
                ClearPrimary::Untouched
            } else {
                match self {
                    Indexer::KvIndexer { .. } => ClearPrimary::ResetRank,
                    _ => ClearPrimary::ApplyEvent,
                }
            };
            return EventRoute::Clear { primary };
        }
        if targets_primary {
            EventRoute::Primary
        } else {
            EventRoute::LowerTier { tier: event.storage_tier }
        }
    }

    /// The lanes of a rank reset, in the order in which they are waited for.
    pub open spec fn reset_lanes(self, tiers: Seq<StorageTier>) -> Seq<IndexLane> {
        let local = if self.is_local() {
            seq![IndexLane::Primary] + tiers.map_values(|tier: StorageTier| IndexLane::LowerTier(tier))
        } else {
            Seq::empty()
        };
        if self.side() is Some {
            local.push(IndexLane::Side)
        } else {
            local
        }
    }

    /// Plan the reset of one rank over the allocated lower tiers: every local lane, then the
    /// side index.
    pub fn plan_rank_reset(&self, tiers: &Vec<StorageTier>) -> (lanes: Vec<IndexLane>)
        ensures
            lanes@ == self.reset_lanes(tiers@),
    {
        let mut lanes: Vec<IndexLane> = Vec::new();
        let approx: Option<u64> = match self {
            Indexer::KvIndexer { approx, .. } => *approx,
            Indexer::Concurrent { approx, .. } => *approx,
            Indexer::Remote { approx, .. } => *approx,
            Indexer::Disabled => None,
        };
        let ghost lower = tiers@.map_values(|tier: StorageTier| IndexLane::LowerTier(tier));
        if self.takes_residency_routing() {
            lanes.push(IndexLane::Primary);
            let mut i: usize = 0;
            proof {
                assert(lanes@ =~= seq![IndexLane::Primary] + lower.subrange(0, 0));
            }
            while i < tiers.len()
                invariant
                    i <= tiers.len(),
                    lower == tiers@.map_values(|tier: StorageTier| IndexLane::LowerTier(tier)),
                    lanes@ == seq![IndexLane::Primary] + lower.subrange(0, i as int),
                decreases tiers.len() - i,
            {
                lanes.push(IndexLane::LowerTier(tiers[i]));
                proof {
                    assert(lanes@ =~= seq![IndexLane::Primary] + lower.subrange(0, i + 1));
                }
                i = i + 1;
            }
            proof {
                assert(lower.subrange(0, i as int) =~= lower);
            }
        }
        if approx.is_some() {
            lanes.push(IndexLane::Side);
        }
        proof {
            assert(lanes@ =~= self.reset_lanes(tiers@));
        }
        lanes
    }
}

pub open spec fn on_tier(event: RouterEvent, tier: StorageTier) -> RouterEvent {
    RouterEvent { storage_tier: tier, ..event }
}

/// Put the events that a lower tier dumped behind the others, each marked with its tier.
pub fn append_tier_events(
    events: &mut Vec<RouterEvent>,
    tier: StorageTier,
    dumped: Vec<RouterEvent>,
)
    ensures
        final(events)@ == old(events)@ + dumped@.map_values(
            |event: RouterEvent| on_tier(event, tier),
        ),
{
    let ghost before = events@;
    let ghost marked = dumped@.map_values(|event: RouterEvent| on_tier(event, tier));
    let mut rest = dumped;
    let ghost total = rest@.len();
    let mut tail: Vec<RouterEvent> = Vec::new();
    while rest.len() > 0
        invariant
            total == dumped@.len(),
            rest@ == dumped@.subrange(0, rest@.len() as int),
            rest@.len() + tail@.len() == total,
            marked == dumped@.map_values(|event: RouterEvent| on_tier(event, tier)),
            forall|j: int| 0 <= j < tail@.len() ==> #[trigger] tail@[j] == marked[total - 1 - j],
        decreases rest.len(),
    {
        if let Some(event) = rest.pop() {
            let mut event: RouterEvent = event;
            event.storage_tier = tier;
            tail.push(event);
            proof {
                assert(rest@ =~= dumped@.subrange(0, rest@.len() as int));
            }
        }
    }
    proof {
        assert(events@ =~= before + marked.subrange(0, 0));
    }
    while tail.len() > 0
        invariant
            tail@.len() <= total,
            total == marked.len(),
            forall|j: int| 0 <= j < tail@.len() ==> #[trigger] tail@[j] == marked[total - 1 - j],
            events@ == before + marked.subrange(0, total - tail@.len()),
        decreases tail.len(),
    {
        let ghost n = tail@.len();
        if let Some(event) = tail.pop() {
            events.push(event);
            proof {
                assert(event == marked[total - n]);
                assert(events@ =~= before + marked.subrange(0, total - n + 1));
            }
        }
    }
    proof {
        assert(marked.subrange(0, total as int) =~= marked);
    }
}

/// A configuration never builds two indexes that predict: where the primary records routing
/// decisions, no local side index is asked for.
pub proof fn law_one_predicting_index(config: IndexerConfig, has_model_name: bool)
    ensures
        match indexer_plan(config, has_model_name) {
            Ok(IndexerPlan::Concurrent { side, primary_records_routing_decisions, retention, .. })
            | Ok(IndexerPlan::KvIndexer { side, primary_records_routing_decisions, retention }) => {
                &&& side == !primary_records_routing_decisions
                &&& primary_records_routing_decisions == !config.use_kv_events
                &&& retention is Some == primary_records_routing_decisions
            },
            Ok(IndexerPlan::Remote { primary_records_routing_decisions, .. }) => {
                &&& primary_records_routing_decisions == !config.use_kv_events
                &&& config.predicts_on_route ==> !primary_records_routing_decisions
            },
            _ => true,
        },
{
}

/// A reset reaches every lane that a clear of the same rank reaches, and the side index too.
pub proof fn law_reset_reaches_every_tier(indexer: Indexer, tiers: Seq<StorageTier>, i: int)
    requires
        indexer.is_local(),
        0 <= i < tiers.len(),
    ensures
        indexer.reset_lanes(tiers).contains(IndexLane::Primary),
        indexer.reset_lanes(tiers).contains(IndexLane::LowerTier(tiers[i])),
        indexer.side() is Some ==> indexer.reset_lanes(tiers).last() == IndexLane::Side,
{
    let lanes = indexer.reset_lanes(tiers);
    assert(lanes[0] == IndexLane::Primary);
    assert(lanes[i + 1] == IndexLane::LowerTier(tiers[i]));
}

/// An event that is no clear goes where it says: to the primary index, or to the lower tier that
/// it names itself, for every tier and every kind of local index.
pub proof fn law_event_reaches_its_own_tier(indexer: Indexer, event: RouterEvent)
    requires
        indexer is KvIndexer || indexer is Concurrent,
        !(event.data is Cleared),
    ensures
        event.residency.targets_primary == Some(true) ==> indexer.route(event)
            == EventRoute::Primary,
        event.residency.targets_primary == Some(false) ==> indexer.route(event) == (
        EventRoute::LowerTier { tier: event.storage_tier }),
        event.residency.targets_primary is None ==> indexer.route(event) == (
        EventRoute::RecordUnsupported { on_lower_tiers: true }),
{
}

/// A clear reaches the lower tiers of a local index whatever it addresses, and the primary exactly
/// where it addresses that: a single-threaded one is reset, a concurrent one applies the event.
pub proof fn law_clear_spares_an_unaddressed_primary(indexer: Indexer, event: RouterEvent)
    requires
        indexer is KvIndexer || indexer is Concurrent,
        event.data is Cleared,
    ensures
        event.residency.targets_primary == Some(false) ==> indexer.route(event) == (
        EventRoute::Clear { primary: ClearPrimary::Untouched }),
        event.residency.targets_primary == Some(true) && indexer is KvIndexer ==> indexer.route(
            event,
        ) == (EventRoute::Clear { primary: ClearPrimary::ResetRank }),
        event.residency.targets_primary == Some(true) && indexer is Concurrent ==> indexer.route(
            event,
        ) == (EventRoute::Clear { primary: ClearPrimary::ApplyEvent }),
        event.residency.targets_primary is None ==> indexer.route(event) == (
        EventRoute::RecordUnsupported { on_lower_tiers: true }),
{
}

/// An index that is not on this router takes no event; one that cannot be placed is counted.
pub proof fn law_remote_index_takes_no_event(indexer: Indexer, event: RouterEvent)
    requires
        indexer is Remote || indexer is Disabled,
    ensures
        event.residency.targets_primary is Some ==> indexer.route(event) == EventRoute::Drop,
        event.residency.targets_primary is None ==> indexer.route(event) == (
        EventRoute::RecordUnsupported { on_lower_tiers: false }),
{
}

/// The route of an event depends on what it addresses, on its tier and on whether it is a clear:
/// events that agree in these go the same way.
pub proof fn law_route_ignores_contents(indexer: Indexer, left: RouterEvent, right: RouterEvent)
    requires
        left.residency.targets_primary == right.residency.targets_primary,
        left.storage_tier == right.storage_tier,
        left.data is Cleared == right.data is Cleared,
    ensures
        indexer.route(left) == indexer.route(right),
{
}

/// How a planned local index forgets: not at all where events feed it; by capacity exactly where
/// that is asked for on an index that is neither remote nor served; by lifetime otherwise. The
/// number of threads has no part in it.
pub proof fn law_retention_follows_the_policy(config: IndexerConfig, has_model_name: bool)
    requires
        indexer_plan(config, has_model_name) is Ok,
        !(indexer_plan(config, has_model_name)->Ok_0 is Disabled),
        !config.use_remote_indexer,
    ensures
        ({
            let retention = match indexer_plan(config, has_model_name)->Ok_0 {
                IndexerPlan::Concurrent { retention, .. } => retention,
                IndexerPlan::KvIndexer { retention, .. } => retention,
                _ => None,
            };
            &&& retention is None <==> config.use_kv_events
            &&& retention == Some(Retention::LruWithTtlFallback) <==> !config.use_kv_events
                && config.router_approximate_cache_policy == ApproximateCachePolicyKind::Lru
                && !config.serve_indexer
            &&& retention == Some(Retention::Ttl) <==> !config.use_kv_events && (
            config.router_approximate_cache_policy == ApproximateCachePolicyKind::Ttl
                || config.serve_indexer)
        }),
{
}

/// More than one event thread asks for a concurrent index with just so many, and nothing else of
/// the plan depends on their number.
pub proof fn law_threads_choose_the_engine_alone(
    config: IndexerConfig,
    threads: u32,
    has_model_name: bool,
)
    ensures
        match indexer_plan(config, has_model_name) {
            Ok(IndexerPlan::Concurrent { threads: built, .. }) => built
                == config.router_event_threads && built > 1,
            Ok(IndexerPlan::KvIndexer { .. }) => config.router_event_threads <= 1,
            _ => true,
        },
        ({
            let other = indexer_plan(
                IndexerConfig { router_event_threads: threads, ..config },
                has_model_name,
            );
            match indexer_plan(config, has_model_name) {
                Ok(
                    IndexerPlan::Concurrent {
                        retention,
                        side,
                        primary_records_routing_decisions,
                        ..
                    },
                )
                | Ok(
                    IndexerPlan::KvIndexer { retention, side, primary_records_routing_decisions },
                ) => if threads > 1 {
                    other == Ok::<IndexerPlan, IndexerConfigError>(
                        IndexerPlan::Concurrent {
                            threads,
                            retention,
                            side,
                            primary_records_routing_decisions,
                        },
                    )
                } else {
                    other == Ok::<IndexerPlan, IndexerConfigError>(
                        IndexerPlan::KvIndexer {
                            retention,
                            side,
                            primary_records_routing_decisions,
                        },
                    )
                },
                plan => other == plan,
            }
        }),
{
}

/// Every configuration is either refused for one of three reasons, in this order of precedence
/// with the disabled index between the first two, or builds the index that it names.
pub proof fn law_plan_is_decided_by_the_configuration(config: IndexerConfig, has_model_name: bool)
    ensures
        ({
            let plan = indexer_plan(config, has_model_name);
            let lru_with_events = config.use_kv_events && config.router_approximate_cache_policy
                == ApproximateCachePolicyKind::Lru;
            let off = config.overlap_earns_no_credit;
            let predicts_without_events = config.predicts_on_route && !config.use_kv_events;
            &&& plan == Err::<IndexerPlan, IndexerConfigError>(
                IndexerConfigError::LruNeedsEventsOff,
            ) <==> lru_with_events
            &&& plan == Ok::<IndexerPlan, IndexerConfigError>(IndexerPlan::Disabled) <==> off
                && !lru_with_events
            &&& plan == Err::<IndexerPlan, IndexerConfigError>(
                IndexerConfigError::PredictionNeedsEvents,
            ) <==> predicts_without_events && !off && !lru_with_events
            &&& plan == Err::<IndexerPlan, IndexerConfigError>(
                IndexerConfigError::RemoteNeedsModelName,
            ) <==> config.use_remote_indexer && !has_model_name && !predicts_without_events && !off
                && !lru_with_events
            &&& plan == Ok::<IndexerPlan, IndexerConfigError>(
                IndexerPlan::Remote {
                    side: true,
                    primary_records_routing_decisions: !config.use_kv_events,
                },
            ) <==> config.use_remote_indexer && has_model_name && !predicts_without_events && !off
                && !lru_with_events
        }),
{
}

/// A local index that events feed has a side index for predictions and records no decisions in
/// its primary; one without events is the other way round.
pub proof fn law_events_decide_who_predicts(config: IndexerConfig, has_model_name: bool)
    ensures
        match indexer_plan(config, has_model_name) {
            Ok(IndexerPlan::Concurrent { side, primary_records_routing_decisions, .. })
            | Ok(IndexerPlan::KvIndexer { side, primary_records_routing_decisions, .. }) => side
                == config.use_kv_events && primary_records_routing_decisions
                != config.use_kv_events,
            _ => true,
        },
{
}

/// The policy that a configuration resolves to: refused with events, off without credit for
/// overlap, and least-recently-used only where the primary is this router's own.
pub proof fn law_policy_needs_a_local_primary(config: IndexerConfig)
    ensures
        ({
            let lru = config.router_approximate_cache_policy == ApproximateCachePolicyKind::Lru;
            let policy = resolved_policy(config);
            &&& policy is Err <==> lru && config.use_kv_events
            &&& policy is Err ==> policy->Err_0 == IndexerConfigError::LruNeedsEventsOff
            &&& policy is Ok && config.overlap_earns_no_credit ==> policy->Ok_0
                == ResolvedApproximatePrimaryPolicy::Disabled
            &&& policy is Ok && !config.overlap_earns_no_credit ==> policy->Ok_0 == if !lru {
                ResolvedApproximatePrimaryPolicy::Ttl
            } else if config.use_remote_indexer || config.serve_indexer {
                ResolvedApproximatePrimaryPolicy::TtlRemoteFallback
            } else {
                ResolvedApproximatePrimaryPolicy::Lru
            }
        }),
{
}

/// A rank reset goes through the primary, then each lower tier in its place, then the side index
/// where there is one, and through nothing else; a remote index has its side index alone.
pub proof fn law_reset_lanes_in_order(indexer: Indexer, tiers: Seq<StorageTier>)
    ensures
        ({
            let lanes = indexer.reset_lanes(tiers);
            let local = indexer is KvIndexer || indexer is Concurrent;
            let side = match indexer {
                Indexer::KvIndexer { approx, .. } => approx is Some,
                Indexer::Concurrent { approx, .. } => approx is Some,
                Indexer::Remote { approx, .. } => approx is Some,
                Indexer::Disabled => false,
            };
            let before_side = if local {
                tiers.len() + 1
            } else {
                0
            };
            &&& lanes.len() == before_side + if side {
                1int
            } else {
                0int
            }
            &&& local ==> lanes[0] == IndexLane::Primary
            &&& local ==> forall|i: int|
                0 <= i < tiers.len() ==> lanes[i + 1] == IndexLane::LowerTier(#[trigger] tiers[i])
            &&& side ==> lanes[before_side as int] == IndexLane::Side
        }),
{
}

/// Marking an event with its tier changes nothing else of it.
pub proof fn law_dumped_event_keeps_its_contents(event: RouterEvent, tier: StorageTier)
    ensures
        on_tier(event, tier).storage_tier == tier,
        on_tier(event, tier).worker_id == event.worker_id,
        on_tier(event, tier).dp_rank == event.dp_rank,
        on_tier(event, tier).event_id == event.event_id,
        on_tier(event, tier).data == event.data,
        on_tier(event, tier).residency == event.residency,
        on_tier(event, tier).state_source == event.state_source,
        on_tier(event, tier).details == event.details,
{
}

/// On a local index an event that is no clear goes to the primary where it addresses it, and else
/// to the lower tier that the event itself names; one that addresses nothing is only counted.
pub proof fn law_event_is_sent_to_the_tier_it_names(
    indexer: &Indexer,
    event: &RouterEvent,
    route: EventRoute,
)
    requires
        call_ensures(Indexer::route_event, (indexer, event), route),
    ensures
        route is LowerTier ==> route->tier == event.storage_tier,
        route is LowerTier <==> (*indexer is KvIndexer || *indexer is Concurrent) && !(event.data
            is Cleared) && event.residency.targets_primary == Some(false),
        route is Primary <==> (*indexer is KvIndexer || *indexer is Concurrent) && !(event.data
            is Cleared) && event.residency.targets_primary == Some(true),
        route is Clear <==> (*indexer is KvIndexer || *indexer is Concurrent) && event.data
            is Cleared && event.residency.targets_primary is Some,
        route is Clear ==> {
            &&& route->primary is Untouched <==> event.residency.targets_primary == Some(false)
            &&& route->primary is ResetRank <==> event.residency.targets_primary == Some(true)
                && *indexer is KvIndexer
            &&& route->primary is ApplyEvent <==> event.residency.targets_primary == Some(true)
                && *indexer is Concurrent
        },
        route is RecordUnsupported <==> event.residency.targets_primary is None,
        route is RecordUnsupported ==> (route->on_lower_tiers <==> *indexer is KvIndexer
            || *indexer is Concurrent),
        route is Drop <==> (*indexer is Remote || *indexer is Disabled)
            && event.residency.targets_primary is Some,
{
    match event.residency.targets_primary {
        Some(targets) => assert(targets || !targets),
        None => {},
    }
}

/// A planned index forgets as its policy says, whichever engine its threads ask for: not at all
/// where events feed it, by capacity where that was asked for on an index that this router keeps
/// for itself, and by lifetime otherwise. More than one thread makes it concurrent, with so many.
pub proof fn law_planned_index_follows_its_configuration(
    config: &IndexerConfig,
    has_model_name: bool,
    plan: Result<IndexerPlan, IndexerConfigError>,
)
    requires
        call_ensures(plan_indexer, (config, has_model_name), plan),
    ensures
        ({
            let lru = config.router_approximate_cache_policy == ApproximateCachePolicyKind::Lru;
            let refused = (config.use_kv_events && lru) || (!config.overlap_earns_no_credit
                && config.predicts_on_route && !config.use_kv_events) || (
            !config.overlap_earns_no_credit && config.use_remote_indexer && !has_model_name);
            &&& plan is Err <==> refused
            &&& plan is Ok ==> match plan->Ok_0 {
                IndexerPlan::Disabled => config.overlap_earns_no_credit,
                IndexerPlan::Remote { side, primary_records_routing_decisions } => {
                    &&& !config.overlap_earns_no_credit && config.use_remote_indexer
                    &&& side
                    &&& primary_records_routing_decisions == !config.use_kv_events
                },
                IndexerPlan::Concurrent {
                    threads,
                    retention,
                    side,
                    primary_records_routing_decisions,
                } => {
                    &&& !config.overlap_earns_no_credit && !config.use_remote_indexer
                    &&& threads == config.router_event_threads && threads > 1
                    &&& retention is None <==> config.use_kv_events
                    &&& retention == Some(Retention::LruWithTtlFallback) <==> !config.use_kv_events
                        && lru && !config.serve_indexer
                    &&& side == config.use_kv_events
                    &&& primary_records_routing_decisions == !config.use_kv_events
                },
                IndexerPlan::KvIndexer { retention, side, primary_records_routing_decisions } => {
                    &&& !config.overlap_earns_no_credit && !config.use_remote_indexer
                    &&& config.router_event_threads <= 1
                    &&& retention is None <==> config.use_kv_events
                    &&& retention == Some(Retention::LruWithTtlFallback) <==> !config.use_kv_events
                        && lru && !config.serve_indexer
                    &&& side == config.use_kv_events
                    &&& primary_records_routing_decisions == !config.use_kv_events
                },
            }
        }),
{
}

/// The policy of a configuration: refused for capacity with events, off without credit for
/// overlap, by capacity only on an index that this router keeps for itself.
pub proof fn law_policy_is_resolved_from_the_configuration(
    config: &IndexerConfig,
    policy: Result<ResolvedApproximatePrimaryPolicy, IndexerConfigError>,
)
    requires
        call_ensures(resolve_approximate_primary_policy, (config,), policy),
    ensures
        ({
            let lru = config.router_approximate_cache_policy == ApproximateCachePolicyKind::Lru;
            &&& policy is Err <==> lru && config.use_kv_events
            &&& policy is Ok ==> {
                &&& policy->Ok_0 is Disabled <==> config.overlap_earns_no_credit
                &&& policy->Ok_0 is Ttl <==> !config.overlap_earns_no_credit && !lru
                &&& policy->Ok_0 is TtlRemoteFallback <==> !config.overlap_earns_no_credit && lru
                    && (config.use_remote_indexer || config.serve_indexer)
                &&& policy->Ok_0 is Lru <==> !config.overlap_earns_no_credit && lru
                    && !config.use_remote_indexer && !config.serve_indexer
            }
        }),
{
}

/// What a running index can do: residency routing, overlap refreshes, a local primary and a dump
/// need one on this router; chains are retained only where events alone feed it; capacity is
/// bounded where it was built so.
pub proof fn law_local_index_does_more(
    indexer: &Indexer,
    takes: bool,
    refreshes: bool,
    retains: bool,
    uses_lru: bool,
    primary: Option<u64>,
    dump: DumpPlan,
)
    requires
        call_ensures(Indexer::takes_residency_routing, (indexer,), takes),
        call_ensures(Indexer::supports_overlap_refresh, (indexer,), refreshes),
        call_ensures(Indexer::supports_kv_transfer_chain_retention, (indexer,), retains),
        call_ensures(Indexer::uses_approximate_lru, (indexer,), uses_lru),
        call_ensures(Indexer::local_primary, (indexer,), primary),
        call_ensures(Indexer::plan_dump, (indexer,), dump),
    ensures
        match *indexer {
            Indexer::KvIndexer {
                primary: engine,
                approximate_lru,
                approx,
                primary_records_routing_decisions,
            }
            | Indexer::Concurrent {
                primary: engine,
                approximate_lru,
                approx,
                primary_records_routing_decisions,
            } => {
                &&& takes && refreshes
                &&& primary == Some(engine)
                &&& dump is Local
                &&& uses_lru == approximate_lru
                &&& retains <==> approx is None && !primary_records_routing_decisions
            },
            Indexer::Remote { .. } => !takes && !refreshes && !retains && !uses_lru && primary
                is None && dump is Empty,
            Indexer::Disabled => !takes && !refreshes && !retains && !uses_lru && primary is None
                && dump is Unsupported,
        },
{
}

/// A lookup starts at the kind of primary that the index has, asks lower tiers exactly on a local
/// one, and asks a side index exactly where there is one.
pub proof fn law_lookup_follows_the_index(indexer: &Indexer, pipeline: LookupPipeline)
    requires
        call_ensures(Indexer::lookup_pipeline, (indexer,), pipeline),
    ensures
        pipeline.primary is KvIndexer <==> *indexer is KvIndexer,
        pipeline.primary is Concurrent <==> *indexer is Concurrent,
        pipeline.primary is Remote <==> *indexer is Remote,
        pipeline.primary is Disabled <==> *indexer is Disabled,
        pipeline.lower_tier <==> *indexer is KvIndexer || *indexer is Concurrent,
        match *indexer {
            Indexer::KvIndexer { approx, .. } => pipeline.side == (approx is Some),
            Indexer::Concurrent { approx, .. } => pipeline.side == (approx is Some),
            Indexer::Remote { approx, .. } => pipeline.side == (approx is Some),
            Indexer::Disabled => !pipeline.side,
        },
{
}

/// A rank is reset on the primary of a local index first, then on every lower tier in the order
/// given, and on the side index last, where there is one.
pub proof fn law_rank_reset_visits_every_lane(
    indexer: &Indexer,
    tiers: &Vec<StorageTier>,
    lanes: Vec<IndexLane>,
    i: int,
)
    requires
        call_ensures(Indexer::plan_rank_reset, (indexer, tiers), lanes),
    ensures
        ({
            let local = *indexer is KvIndexer || *indexer is Concurrent;
            let side = match *indexer {
                Indexer::KvIndexer { approx, .. } => approx is Some,
                Indexer::Concurrent { approx, .. } => approx is Some,
                Indexer::Remote { approx, .. } => approx is Some,
                Indexer::Disabled => false,
            };
            &&& lanes@.len() == (if local {
                1 + tiers@.len()
            } else {
                0
            }) + (if side {
                1int
            } else {
                0int
            })
            &&& local ==> lanes@[0] == IndexLane::Primary
            &&& local && 0 <= i < tiers@.len() ==> lanes@[i + 1] == IndexLane::LowerTier(tiers@[i])
            &&& side ==> lanes@.last() == IndexLane::Side
        }),
{
}

/// What a lower tier dumped comes behind what is there, in its order; each event is marked with
/// that tier and otherwise kept as it is.
pub proof fn law_dumped_events_are_appended(
    events: &mut Vec<RouterEvent>,
    tier: StorageTier,
    dumped: Vec<RouterEvent>,
    i: int,
)
    requires
        call_ensures(append_tier_events, (events, tier, dumped), ()),
    ensures
        final(events)@.len() == old(events)@.len() + dumped@.len(),
        0 <= i < old(events)@.len() ==> final(events)@[i] == old(events)@[i],
        0 <= i < dumped@.len() ==> final(events)@[old(events)@.len() + i] == (RouterEvent {
            storage_tier: tier,
            ..dumped@[i]
        }),
{
}

/// Each error of a configuration is told in its own words.
pub proof fn law_config_error_is_told_in_words(error: &IndexerConfigError, message: &'static str)
    requires
        call_ensures(IndexerConfigError::message, (error,), message),
    ensures
        *error is LruNeedsEventsOff ==> message@
            == "router_approximate_cache_policy=lru requires use_kv_events=false; the local side indexer is TTL-only"@,
        *error is PredictionNeedsEvents ==> message@
            == "router_predicted_ttl_secs requires use_kv_events=true; do not combine a primary approximate indexer with a side approximate indexer"@,
        *error is RemoteNeedsModelName ==> message@
            == "model_name is required when use_remote_indexer is configured"@,
{
}

} // verus!
