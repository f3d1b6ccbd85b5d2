//! Which cache owners a router takes state for, and how each of them is scheduled, recovered
//! and projected.
//!
//! A reconciliation runs as follows: [`StateAgent::begin_schedule`] withdraws every owner and
//! names the owners to visit; for each of them [`plan_owner`] says what to clear and what
//! follows; once the clears were applied, the outcome is committed by
//! [`StateAgent::contest_owner`], [`StateAgent::retire_owner`] or [`StateAgent::adopt_owner`].
use vstd::prelude::*;

use crate::lists::{lemma_prefix_grows, lemma_push_contains, push_unique};
use crate::membership::{lemma_prefix_entry, KvSourceMembershipView, KvSourceStatus};
use crate::indexer::recovery::owner_runtime::OwnerRuntime;
use crate::protocols::{CacheOwnerId, ResidencyDomain, StorageTier, WorkerWithDpRank};
use crate::indexer::recovery::rank_state::{RankState, RankView};
use crate::indexer::recovery::state_sources::{
    attachment_fits_source, fits_source, is_compatible, is_owner_attachment, is_owner_source,
    is_recognized_rank, list_owner_attachments, list_owner_sources, owner_has_source,
    recognized_ranks, source_is_compatible, KvStateAttachmentAdvertisement,
    KvStateIngressProtocol, KvStateProtocolVersion, KvStateSourceAdvertisement, KvStateTopic,
    SourceExpectation,
};
use crate::table::{distinct_keys, has_entry, lemma_listed_pairs, lookup, Table};

verus! {

/// Whom a state agent speaks for.
#[derive(Clone, Copy, Debug, PartialEq, Eq, Structural)]
pub struct KvStateAgentIdentity {
    pub cache_owner_id: CacheOwnerId,
    pub publisher_id: u64,
    pub protocol_version: KvStateProtocolVersion,
}

/// State to wipe from the index.
#[derive(Clone, Copy, Debug, PartialEq, Eq, Structural)]
pub enum StateClear {
    Worker { worker: WorkerWithDpRank, owner: CacheOwnerId },
    CacheOwner { owner: CacheOwnerId, event_id: u64 },
}

/// The event that wipes state: a clear on the device tier under an explicit residency domain.
#[derive(Clone, Copy, Debug, PartialEq, Eq, Structural)]
pub struct ClearEvent {
    pub worker_id: u64,
    pub dp_rank: u32,
    pub event_id: u64,
    pub storage_tier: StorageTier,
    pub domain: ResidencyDomain,
    pub state_source: CacheOwnerId,
}

impl StateClear {
    pub open spec fn as_event(self) -> ClearEvent {
        match self {
            StateClear::Worker { worker, owner } => ClearEvent {
                worker_id: worker.worker_id,
                dp_rank: worker.dp_rank,
                event_id: 0,
                storage_tier: StorageTier::Device,
                domain: ResidencyDomain::Worker,
                state_source: owner,
            },
            StateClear::CacheOwner { owner, event_id } => ClearEvent {
                worker_id: 0,
                dp_rank: 0,
                event_id,
                storage_tier: StorageTier::Device,
                domain: ResidencyDomain::CacheOwner,
                state_source: owner,
            },
        }
    }

    /// The event to hand to the index. One for a cache owner names no worker.
    pub fn event(&self) -> (event: ClearEvent)
        ensures
            event == self.as_event(),
    {
        match self {
            StateClear::Worker { worker, owner } => ClearEvent {
                worker_id: worker.worker_id,
                dp_rank: worker.dp_rank,
                event_id: 0,
                storage_tier: StorageTier::Device,
                domain: ResidencyDomain::Worker,
                state_source: *owner,
            },
            StateClear::CacheOwner { owner, event_id } => ClearEvent {
                worker_id: 0,
                dp_rank: 0,
                event_id: *event_id,
                storage_tier: StorageTier::Device,
                domain: ResidencyDomain::CacheOwner,
                state_source: *owner,
            },
        }
    }
}

/// A recovery to run for an owner.
#[derive(Clone, Copy, Debug, PartialEq, Eq, Structural)]
pub struct OwnerRecoveryPlan {
    pub owner: CacheOwnerId,
    pub source: KvStateSourceAdvertisement,
    pub attachment: Option<KvStateAttachmentAdvertisement>,
    pub expected: KvStateAgentIdentity,
    pub recognized_worker: Option<WorkerWithDpRank>,
    pub previous_publisher_id: Option<u64>,
    pub previous_cursor: u64,
    pub recovery_required: bool,
    pub observation_revision: u64,
    pub schedule_generation: u64,
}

/// What a reconciliation does with one owner.
#[derive(Debug, PartialEq, Eq)]
pub enum OwnerStep {
    /// Several sources compete: keep what is there, unprojected and unfed.
    Contest,
    /// No source is left: forget the owner, then clear.
    Retire { clears: Vec<StateClear> },
    /// One source: clear, then adopt the plan and run its recovery.
    Adopt { clears: Vec<StateClear>, plan: OwnerRecoveryPlan },
}

/// Events that arrive while an owner is being recovered.
#[derive(Debug)]
pub struct OwnerRecoveryTail {
    pub publisher_id: u64,
    pub attachment_generation: Option<u64>,
    pub schedule_generation: u64,
    pub rank: RankState,
}

pub type LiveRanks = Map<WorkerWithDpRank, KvSourceStatus>;

pub open spec fn generation_of(attachment: Option<KvStateAttachmentAdvertisement>) -> Option<u64> {
    match attachment {
        Some(attachment) => Some(attachment.attachment_generation),
        None => None,
    }
}

pub fn attachment_generation_of(attachment: &Option<KvStateAttachmentAdvertisement>) -> (generation:
    Option<u64>)
    ensures
        generation == generation_of(*attachment),
{
    match attachment {
        Some(attachment) => Some(attachment.attachment_generation),
        None => None,
    }
}

/// A worker clear for every attachment whose rank is live, in order.
pub open spec fn attachment_clears(
    attachments: Seq<KvStateAttachmentAdvertisement>,
    live: LiveRanks,
    owner: CacheOwnerId,
) -> Seq<StateClear>
    decreases attachments.len(),
{
    if attachments.len() == 0 {
        Seq::empty()
    } else {
        let front = attachment_clears(attachments.drop_last(), live, owner);
        if live.dom().contains(attachments.last().worker) {
            front.push(StateClear::Worker { worker: attachments.last().worker, owner })
        } else {
            front
        }
    }
}

pub open spec fn worker_clear(worker: Option<WorkerWithDpRank>, owner: CacheOwnerId) -> Seq<
    StateClear,
> {
    match worker {
        Some(worker) => seq![StateClear::Worker { worker, owner }],
        None => Seq::empty(),
    }
}

/// What goes when an owner has no source any more.
pub open spec fn retire_clears(
    owner: CacheOwnerId,
    previous: Option<OwnerRuntime>,
    attachments: Seq<KvStateAttachmentAdvertisement>,
    live: LiveRanks,
) -> Seq<StateClear> {
    (match previous {
        Some(previous) => worker_clear(previous.last_worker, owner).push(
            StateClear::CacheOwner { owner, event_id: 0 },
        ),
        None => Seq::empty(),
    }) + attachment_clears(attachments, live, owner)
}

/// The attachment that a source is activated with: the only one, if it fits.
pub open spec fn selected_attachment(
    source: KvStateSourceAdvertisement,
    attachments: Seq<KvStateAttachmentAdvertisement>,
) -> Option<KvStateAttachmentAdvertisement> {
    if attachments.len() == 1 && fits_source(attachments[0], source) {
        Some(attachments[0])
    } else {
        None
    }
}

pub open spec fn last_worker_of(
    attachment: Option<KvStateAttachmentAdvertisement>,
    previous: Option<OwnerRuntime>,
) -> Option<WorkerWithDpRank> {
    match attachment {
        Some(attachment) => Some(attachment.worker),
        None => match previous {
            Some(previous) => previous.last_worker,
            None => None,
        },
    }
}

pub open spec fn if_live(worker: Option<WorkerWithDpRank>, live: LiveRanks) -> Option<
    WorkerWithDpRank,
> {
    if worker is Some && live.dom().contains(worker->0) {
        worker
    } else {
        None
    }
}

/// Whether the owner was fed by another source, or by another attachment to it.
pub open spec fn incarnation_changed(
    previous: OwnerRuntime,
    source: KvStateSourceAdvertisement,
    generation: Option<u64>,
) -> bool {
    previous.publisher_id != Some(source.publisher_id) || previous.attachment_generation
        != generation
}

/// What must go before a source is adopted.
pub open spec fn adopt_clears(
    owner: CacheOwnerId,
    previous: Option<OwnerRuntime>,
    source: KvStateSourceAdvertisement,
    attachments: Seq<KvStateAttachmentAdvertisement>,
    live: LiveRanks,
) -> Seq<StateClear> {
    let attachment = selected_attachment(source, attachments);
    let last_worker = last_worker_of(attachment, previous);
    let unattached = if attachment is None {
        attachment_clears(attachments, live, owner)
    } else {
        Seq::empty()
    };
    let replaced = if previous is Some && incarnation_changed(
        previous->0,
        source,
        generation_of(attachment),
    ) {
        worker_clear(previous->0.last_worker, owner)
    } else {
        Seq::empty()
    };
    let departed = if last_worker is Some && !live.dom().contains(last_worker->0) && previous
        is Some && previous->0.last_worker == last_worker {
        worker_clear(last_worker, owner)
    } else {
        Seq::empty()
    };
    let taken_over = if previous is None {
        worker_clear(if_live(last_worker, live), owner)
    } else {
        Seq::empty()
    };
    unattached + replaced + departed + taken_over
}

/// The recovery that an adopted source runs.
pub open spec fn adopt_plan(
    owner: CacheOwnerId,
    previous: Option<OwnerRuntime>,
    source: KvStateSourceAdvertisement,
    attachments: Seq<KvStateAttachmentAdvertisement>,
    live: LiveRanks,
    observation_revision: u64,
    schedule_generation: u64,
) -> OwnerRecoveryPlan {
    let attachment = selected_attachment(source, attachments);
    OwnerRecoveryPlan {
        owner,
        source,
        attachment,
        expected: KvStateAgentIdentity {
            cache_owner_id: owner,
            publisher_id: source.publisher_id,
            protocol_version: source.protocol_version,
        },
        recognized_worker: if_live(last_worker_of(attachment, previous), live),
        previous_publisher_id: match previous {
            Some(previous) => previous.publisher_id,
            None => None,
        },
        previous_cursor: if previous is Some && previous->0.publisher_id == Some(
            source.publisher_id,
        ) {
            previous->0.recovered_cursor
        } else {
            0
        },
        recovery_required: previous is None || incarnation_changed(
            previous->0,
            source,
            generation_of(attachment),
        ) || previous->0.recovery_required,
        observation_revision,
        schedule_generation,
    }
}

fn push_worker_clear(clears: &mut Vec<StateClear>, worker: Option<WorkerWithDpRank>, owner: CacheOwnerId)
    ensures
        final(clears)@ == old(clears)@ + worker_clear(worker, owner),
{
    if let Some(worker) = worker {
        clears.push(StateClear::Worker { worker, owner });
    }
    proof {
        assert(clears@ =~= old(clears)@ + worker_clear(worker, owner));
    }
}

fn push_attachment_clears(
    clears: &mut Vec<StateClear>,
    attachments: &Vec<KvStateAttachmentAdvertisement>,
    live: &Table<WorkerWithDpRank, KvSourceStatus>,
    owner: CacheOwnerId,
)
    ensures
        final(clears)@ == old(clears)@ + attachment_clears(attachments@, live@, owner),
{
    let ghost before = clears@;
    let mut i: usize = 0;
    proof {
        assert(clears@ =~= before + attachment_clears(attachments@.subrange(0, 0), live@, owner));
    }
    while i < attachments.len()
        invariant
            i <= attachments.len(),
            clears@ == before + attachment_clears(
                attachments@.subrange(0, i as int),
                live@,
                owner,
            ),
        decreases attachments.len() - i,
    {
        let worker = attachments[i].worker;
        proof {
            let next = attachments@.subrange(0, i + 1);
            assert(next.drop_last() =~= attachments@.subrange(0, i as int));
            assert(next.last() == attachments@[i as int]);
        }
        if live.contains_key(&worker) {
            clears.push(StateClear::Worker { worker, owner });
        }
        proof {
            assert(clears@ =~= before + attachment_clears(
                attachments@.subrange(0, i + 1),
                live@,
                owner,
            ));
        }
        i = i + 1;
    }
    proof {
        assert(attachments@.subrange(0, i as int) =~= attachments@);
    }
}

/// Decide on one owner, given its compatible sources and valid attachments.
pub fn plan_owner(
    owner: CacheOwnerId,
    previous: Option<OwnerRuntime>,
    sources: &Vec<KvStateSourceAdvertisement>,
    attachments: &Vec<KvStateAttachmentAdvertisement>,
    live: &Table<WorkerWithDpRank, KvSourceStatus>,
    observation_revision: u64,
    schedule_generation: u64,
) -> (step: OwnerStep)
    ensures
        sources@.len() > 1 ==> step == OwnerStep::Contest,
        sources@.len() == 0 ==> step is Retire && step->Retire_clears@ == retire_clears(
            owner,
            previous,
            attachments@,
            live@,
        ),
        sources@.len() == 1 ==> {
            &&& step is Adopt
            &&& step->Adopt_clears@ == adopt_clears(
                owner,
                previous,
                sources@[0],
                attachments@,
                live@,
            )
            &&& step->plan == adopt_plan(
                owner,
                previous,
                sources@[0],
                attachments@,
                live@,
                observation_revision,
                schedule_generation,
            )
        },
{
    if sources.len() > 1 {
        return OwnerStep::Contest;
    }
    let mut clears: Vec<StateClear> = Vec::new();
    if sources.len() == 0 {
        if let Some(previous) = previous {
            push_worker_clear(&mut clears, previous.last_worker, owner);
            clears.push(StateClear::CacheOwner { owner, event_id: 0 });
        }
        let ghost kept = clears@;
        proof {
            assert(kept =~= (match previous {
                Some(previous) => worker_clear(previous.last_worker, owner).push(
                    StateClear::CacheOwner { owner, event_id: 0 },
                ),
                None => Seq::empty(),
            }));
        }
        push_attachment_clears(&mut clears, attachments, live, owner);
        return OwnerStep::Retire { clears };
    }
    let source = sources[0];
    let attachment: Option<KvStateAttachmentAdvertisement> = if attachments.len() == 1
        && attachment_fits_source(&attachments[0], &source) {
        Some(attachments[0])
    } else {
        None
    };
    let generation: Option<u64> = attachment_generation_of(&attachment);
    if attachment.is_none() {
        push_attachment_clears(&mut clears, attachments, live, owner);
    }
    let ghost unattached = clears@;
    let last_worker: Option<WorkerWithDpRank> = match attachment {
        Some(attachment) => Some(attachment.worker),
        None => match previous {
            Some(previous) => previous.last_worker,
            None => None,
        },
    };
    let is_live: bool = match last_worker {
        Some(worker) => live.contains_key(&worker),
        None => false,
    };
    let recognized_worker: Option<WorkerWithDpRank> = if is_live {
        last_worker
    } else {
        None
    };
    let changed: bool = match previous {
        Some(previous) => previous.publisher_id != Some(source.publisher_id)
            || previous.attachment_generation != generation,
        None => false,
    };
    if let Some(previous) = previous {
        if changed {
            push_worker_clear(&mut clears, previous.last_worker, owner);
        }
    }
    let ghost replaced = clears@;
    if let (Some(worker), Some(previous)) = (last_worker, previous) {
        if !is_live && previous.last_worker == Some(worker) {
            push_worker_clear(&mut clears, last_worker, owner);
        }
    }
    let ghost departed = clears@;
    if previous.is_none() {
        push_worker_clear(&mut clears, recognized_worker, owner);
    }
    let (previous_publisher_id, previous_cursor, recovery_required): (Option<u64>, u64, bool) =
        match previous {
        Some(previous) => (
            previous.publisher_id,
            if previous.publisher_id == Some(source.publisher_id) {
                previous.recovered_cursor
            } else {
                0
            },
            changed || previous.recovery_required,
        ),
        None => (None, 0, true),
    };
    proof {
        assert(clears@ =~= adopt_clears(owner, previous, source, attachments@, live@));
    }
    OwnerStep::Adopt {
        clears,
        plan: OwnerRecoveryPlan {
            owner,
            source,
            attachment,
            expected: KvStateAgentIdentity {
                cache_owner_id: owner,
                publisher_id: source.publisher_id,
                protocol_version: source.protocol_version,
            },
            recognized_worker,
            previous_publisher_id,
            previous_cursor,
            recovery_required,
            observation_revision,
            schedule_generation,
        },
    }
}

/// The owners, their sources and attachments, and the recoveries under way.
#[derive(Debug)]
pub struct StateAgent {
    pub sources: Table<u64, KvStateSourceAdvertisement>,
    pub attachments: Table<u64, KvStateAttachmentAdvertisement>,
    pub runtime: Table<CacheOwnerId, OwnerRuntime>,
    pub recovery_tails: Table<CacheOwnerId, OwnerRecoveryTail>,
    pub recovering_publishers: Table<u64, CacheOwnerId>,
}

/// What a projection tells the index: the worker of each ready owner, and the owners that may
/// be hinted at, with their metadata and attached worker.
#[derive(Debug)]
pub struct ResidencyRouting {
    pub projection: Vec<(CacheOwnerId, WorkerWithDpRank)>,
    pub hint_sources: Vec<(CacheOwnerId, u64, Option<WorkerWithDpRank>)>,
}

impl ResidencyRouting {
    /// What is set on the index, given whether it accepts the projection: one that it refuses is
    /// left out whole, and the hint sources stand either way.
    pub fn projected_if(self, accepted: bool) -> (routing: Self)
        ensures
            routing.hint_sources@ == self.hint_sources@,
            routing.projection@ == if accepted {
                self.projection@
            } else {
                Seq::empty()
            },
    {
        if accepted {
            return self;
        }
        ResidencyRouting { projection: Vec::new(), hint_sources: self.hint_sources }
    }
}

/// Whether an owner has anything to be reconciled.
pub open spec fn is_known_owner(
    agent: StateAgent,
    expected: SourceExpectation,
    owner: CacheOwnerId,
) -> bool {
    ||| agent.runtime@.dom().contains(owner)
    ||| owner_has_source(agent.sources@, expected, owner)
    ||| exists|attachment: KvStateAttachmentAdvertisement| #[trigger]
        is_owner_attachment(agent.attachments@, owner, attachment)
}

/// A recovery tail stays while its publisher is one of the owner's sources.
pub open spec fn keeps_tail(
    agent: StateAgent,
    expected: SourceExpectation,
    owner: CacheOwnerId,
) -> bool {
    exists|source: KvStateSourceAdvertisement| #[trigger]
        is_owner_source(agent.sources@, expected, owner, source) && source.publisher_id
            == agent.recovery_tails@[owner].publisher_id
}

/// A publisher whose recovery tail is dropped.
pub open spec fn drops_tail_of(
    agent: StateAgent,
    expected: SourceExpectation,
    publisher_id: u64,
) -> bool {
    exists|owner: CacheOwnerId|
        #[trigger] agent.recovery_tails@.dom().contains(owner) && !keeps_tail(
            agent,
            expected,
            owner,
        ) && agent.recovery_tails@[owner].publisher_id == publisher_id
}

/// The tails whose publisher is no source of their owner any more are gone, and nothing else.
pub open spec fn retains_tails(
    after: StateAgent,
    before: StateAgent,
    expected: SourceExpectation,
) -> bool {
    &&& forall|owner: CacheOwnerId| #[trigger]
        after.recovery_tails@.dom().contains(owner) <==> before.recovery_tails@.dom().contains(
            owner,
        ) && keeps_tail(before, expected, owner)
    &&& forall|owner: CacheOwnerId| #[trigger]
        after.recovery_tails@.dom().contains(owner) ==> after.recovery_tails@[owner]
            == before.recovery_tails@[owner]
    &&& forall|publisher_id: u64| #[trigger]
        after.recovering_publishers@.dom().contains(publisher_id)
            <==> before.recovering_publishers@.dom().contains(publisher_id) && !drops_tail_of(
            before,
            expected,
            publisher_id,
        )
    &&& forall|publisher_id: u64| #[trigger]
        after.recovering_publishers@.dom().contains(publisher_id)
            ==> after.recovering_publishers@[publisher_id]
            == before.recovering_publishers@[publisher_id]
}

/// The publishers without the one of this tail.
pub open spec fn without_tail_publisher(
    publishers: Map<u64, CacheOwnerId>,
    tails: Map<CacheOwnerId, OwnerRecoveryTail>,
    owner: CacheOwnerId,
) -> Map<u64, CacheOwnerId> {
    if tails.dom().contains(owner) {
        publishers.remove(tails[owner].publisher_id)
    } else {
        publishers
    }
}

/// The state of an owner right after its source was adopted.
pub open spec fn adopted_runtime(plan: OwnerRecoveryPlan) -> OwnerRuntime {
    OwnerRuntime {
        publisher_id: Some(plan.source.publisher_id),
        recovered_cursor: plan.previous_cursor,
        attachment_generation: generation_of(plan.attachment),
        last_worker: plan.recognized_worker,
        ready: false,
        attached_worker: if plan.attachment is Some {
            plan.recognized_worker
        } else {
            None
        },
        router_hint_source: plan.source.router_hint_source,
        hint_ready: false,
        recovery_required: plan.recovery_required,
    }
}

/// Several sources compete for the owner: it stays, unfed, and what was held back is dropped.
pub open spec fn is_contested(after: StateAgent, before: StateAgent, owner: CacheOwnerId) -> bool {
    &&& after.sources == before.sources
    &&& after.attachments == before.attachments
    &&& after.runtime@ == if before.runtime@.dom().contains(owner) {
        before.runtime@.insert(owner, before.runtime@[owner].contested())
    } else {
        before.runtime@
    }
    &&& after.recovery_tails@ == before.recovery_tails@.remove(owner)
    &&& after.recovering_publishers@ == without_tail_publisher(
        before.recovering_publishers@,
        before.recovery_tails@,
        owner,
    )
}

/// The owner is forgotten.
pub open spec fn is_retired(after: StateAgent, before: StateAgent, owner: CacheOwnerId) -> bool {
    &&& after.sources == before.sources
    &&& after.attachments == before.attachments
    &&& after.runtime@ == before.runtime@.remove(owner)
    &&& after.recovery_tails@ == before.recovery_tails@.remove(owner)
    &&& after.recovering_publishers@ == without_tail_publisher(
        before.recovering_publishers@,
        before.recovery_tails@,
        owner,
    )
}

/// The plan's source feeds the owner, which is not ready yet. From here on its live events are
/// held back; what was held back for the same incarnation stays.
pub open spec fn is_adopted(after: StateAgent, before: StateAgent, plan: OwnerRecoveryPlan) -> bool {
    let kept = before.recovery_tails@.dom().contains(plan.owner) && tail_fits_plan(
        before.recovery_tails@[plan.owner],
        plan,
    );
    let tail = after.recovery_tails@[plan.owner];
    &&& after.sources == before.sources
    &&& after.attachments == before.attachments
    &&& after.runtime@ == before.runtime@.insert(plan.owner, adopted_runtime(plan))
    &&& after.recovery_tails@ == before.recovery_tails@.insert(plan.owner, tail)
    &&& tail_fits_plan(tail, plan)
    &&& tail.schedule_generation == plan.schedule_generation
    &&& tail.rank@ == if kept {
        before.recovery_tails@[plan.owner].rank@
    } else {
        RankView::fresh(false)
    }
    &&& after.recovering_publishers@ == (if kept {
        before.recovering_publishers@
    } else {
        without_tail_publisher(before.recovering_publishers@, before.recovery_tails@, plan.owner)
    }).insert(plan.source.publisher_id, plan.owner)
}

/// No owner is routed by or hinted at.
pub open spec fn nothing_published(runtime: Map<CacheOwnerId, OwnerRuntime>) -> bool {
    forall|owner: CacheOwnerId| #[trigger]
        runtime.dom().contains(owner) ==> !runtime[owner].ready && !runtime[owner].hint_ready
}

/// Whether a recovery tail belongs to the incarnation that a plan selects.
pub open spec fn tail_fits_plan(tail: OwnerRecoveryTail, plan: OwnerRecoveryPlan) -> bool {
    tail.publisher_id == plan.source.publisher_id && tail.attachment_generation == generation_of(
        plan.attachment,
    )
}

impl StateAgent {
    pub fn new() -> (agent: Self)
        ensures
            agent.sources@.dom().is_empty(),
            agent.attachments@.dom().is_empty(),
            agent.runtime@.dom().is_empty(),
            agent.recovery_tails@.dom().is_empty(),
            agent.recovering_publishers@.dom().is_empty(),
    {
        StateAgent {
            sources: Table::new(),
            attachments: Table::new(),
            runtime: Table::new(),
            recovery_tails: Table::new(),
            recovering_publishers: Table::new(),
        }
    }

    /// Every owner with a state, a source or an attachment, once.
    pub fn known_owners(&self, expected: &SourceExpectation) -> (owners: Vec<CacheOwnerId>)
        ensures
            owners@.no_duplicates(),
            forall|owner: CacheOwnerId| #[trigger]
                owners@.contains(owner) <==> is_known_owner(*self, *expected, owner),
    {
        let mut owners = self.runtime.keys();
        let ghost base = owners@;
        let sources: usize = self.sources.len();
        let ghost source_listing = self.sources.listing();
        let mut i: usize = 0;
        proof {
            lemma_listed_pairs(source_listing);
        }
        while i < sources
            invariant
                i <= sources,
                sources == source_listing.len(),
                source_listing == self.sources.listing(),
                forall|pair: (u64, KvStateSourceAdvertisement)| #[trigger]
                    source_listing.contains(pair) <==> self.sources@.dom().contains(pair.0)
                        && self.sources@[pair.0] == pair.1,
                owners@.no_duplicates(),
                forall|owner: CacheOwnerId|
                    base.contains(owner) ==> #[trigger] owners@.contains(owner),
                forall|owner: CacheOwnerId| #[trigger]
                    owners@.contains(owner) ==> base.contains(owner) || owner_has_source(
                        self.sources@,
                        *expected,
                        owner,
                    ),
                forall|j: int|
                    0 <= j < i && is_compatible(
                        (#[trigger] source_listing[j]).1,
                        source_listing[j].0,
                        *expected,
                    ) ==> owners@.contains(source_listing[j].1.cache_owner_id),
            decreases sources - i,
        {
            let source = *self.sources.value_at(i);
            let key: u64 = self.sources.key_at(i);
            if source_is_compatible(&source, key, expected) {
                proof {
                    assert(source_listing.contains(source_listing[i as int]));
                    assert(is_owner_source(
                        self.sources@,
                        *expected,
                        source.cache_owner_id,
                        source,
                    ));
                }
                push_unique(&mut owners, source.cache_owner_id);
            }
            i = i + 1;
        }
        let ghost with_sources = owners@;
        proof {
            assert forall|owner: CacheOwnerId| owner_has_source(
                self.sources@,
                *expected,
                owner,
            ) implies #[trigger] with_sources.contains(owner) by {
                let source = choose|source: KvStateSourceAdvertisement| #[trigger]
                    is_owner_source(self.sources@, *expected, owner, source);
                assert(source_listing.contains((source.publisher_id, source)));
                let j = choose|j: int|
                    0 <= j < source_listing.len() && source_listing[j] == (
                        source.publisher_id,
                        source,
                    );
                assert(source_listing[j].1 == source);
            }
        }
        let attachments: usize = self.attachments.len();
        let ghost attachment_listing = self.attachments.listing();
        proof {
            lemma_listed_pairs(attachment_listing);
        }
        i = 0;
        while i < attachments
            invariant
                i <= attachments,
                attachments == attachment_listing.len(),
                attachment_listing == self.attachments.listing(),
                forall|pair: (u64, KvStateAttachmentAdvertisement)| #[trigger]
                    attachment_listing.contains(pair) <==> self.attachments@.dom().contains(pair.0)
                        && self.attachments@[pair.0] == pair.1,
                owners@.no_duplicates(),
                forall|owner: CacheOwnerId|
                    with_sources.contains(owner) ==> #[trigger] owners@.contains(owner),
                forall|owner: CacheOwnerId| #[trigger]
                    owners@.contains(owner) ==> with_sources.contains(owner) || exists|
                        attachment: KvStateAttachmentAdvertisement,
                    | #[trigger]
                        is_owner_attachment(self.attachments@, owner, attachment),
                forall|j: int|
                    0 <= j < i && (#[trigger] attachment_listing[j]).1.record_id
                        == attachment_listing[j].0 && attachment_listing[j].1.protocol_version
                        == KvStateProtocolVersion::V2 ==> owners@.contains(
                        attachment_listing[j].1.cache_owner_id,
                    ),
            decreases attachments - i,
        {
            let attachment = *self.attachments.value_at(i);
            let key: u64 = self.attachments.key_at(i);
            if attachment.record_id == key && attachment.protocol_version
                == KvStateProtocolVersion::V2 {
                proof {
                    assert(attachment_listing.contains(attachment_listing[i as int]));
                    assert(is_owner_attachment(
                        self.attachments@,
                        attachment.cache_owner_id,
                        attachment,
                    ));
                }
                push_unique(&mut owners, attachment.cache_owner_id);
            }
            i = i + 1;
        }
        proof {
            assert forall|owner: CacheOwnerId| is_known_owner(
                *self,
                *expected,
                owner,
            ) implies #[trigger] owners@.contains(owner) by {
                if !with_sources.contains(owner) {
                    let attachment = choose|attachment: KvStateAttachmentAdvertisement| #[trigger]
                        is_owner_attachment(self.attachments@, owner, attachment);
                    let pair = (attachment.record_id, attachment);
                    assert(attachment_listing.contains(pair));
                    let j = choose|j: int|
                        0 <= j < attachment_listing.len() && attachment_listing[j] == pair;
                    assert(attachment_listing[j].1 == attachment);
                }
            }
        }
        owners
    }

    /// Drop the recovery tails whose publisher is no source of their owner any more.
    fn retain_tails(&mut self, expected: &SourceExpectation)
        ensures
            final(self).sources == old(self).sources,
            final(self).attachments == old(self).attachments,
            final(self).runtime == old(self).runtime,
            retains_tails(*final(self), *old(self), *expected),
    {
        let owners = self.recovery_tails.keys();
        let ghost before = *self;
        let mut i: usize = 0;
        while i < owners.len()
            invariant
                i <= owners.len(),
                before == *old(self),
                owners@.no_duplicates(),
                forall|owner: CacheOwnerId| #[trigger]
                    owners@.contains(owner) <==> before.recovery_tails@.dom().contains(owner),
                self.sources == before.sources,
                self.attachments == before.attachments,
                self.runtime == before.runtime,
                forall|owner: CacheOwnerId| #[trigger]
                    self.recovery_tails@.dom().contains(owner)
                        <==> before.recovery_tails@.dom().contains(owner) && !(owners@.subrange(
                        0,
                        i as int,
                    ).contains(owner) && !keeps_tail(before, *expected, owner)),
                forall|owner: CacheOwnerId| #[trigger]
                    self.recovery_tails@.dom().contains(owner) ==> self.recovery_tails@[owner]
                        == before.recovery_tails@[owner],
                forall|publisher_id: u64| #[trigger]
                    self.recovering_publishers@.dom().contains(publisher_id)
                        <==> before.recovering_publishers@.dom().contains(publisher_id)
                        && !(exists|owner: CacheOwnerId|
                        #[trigger] owners@.subrange(0, i as int).contains(owner) && !keeps_tail(
                            before,
                            *expected,
                            owner,
                        ) && before.recovery_tails@[owner].publisher_id == publisher_id),
                forall|publisher_id: u64| #[trigger]
                    self.recovering_publishers@.dom().contains(publisher_id)
                        ==> self.recovering_publishers@[publisher_id]
                        == before.recovering_publishers@[publisher_id],
            decreases owners.len() - i,
        {
            let owner = owners[i];
            let ghost done = owners@.subrange(0, i as int);
            proof {
                assert(owners@.contains(owner));
                lemma_prefix_grows(owners@, i as int);
                lemma_push_contains(done, owner);
                assert(self.recovery_tails@.dom().contains(owner));
            }
            let publisher_id: u64 = match self.recovery_tails.get(&owner) {
                Some(tail) => tail.publisher_id,
                None => 0,
            };
            let sources = list_owner_sources(&self.sources, expected, owner);
            let mut keep: bool = false;
            let mut j: usize = 0;
            while j < sources.len()
                invariant
                    j <= sources.len(),
                    keep == exists|k: int|
                        0 <= k < j && (#[trigger] sources@[k]).publisher_id == publisher_id,
                decreases sources.len() - j,
            {
                if sources[j].publisher_id == publisher_id {
                    keep = true;
                }
                j = j + 1;
            }
            proof {
                if keep {
                    let k = choose|k: int|
                        0 <= k < sources@.len() && (#[trigger] sources@[k]).publisher_id
                            == publisher_id;
                    assert(sources@.contains(sources@[k]));
                    assert(keeps_tail(before, *expected, owner));
                } else if keeps_tail(before, *expected, owner) {
                    let source = choose|source: KvStateSourceAdvertisement| #[trigger]
                        is_owner_source(before.sources@, *expected, owner, source)
                            && source.publisher_id == publisher_id;
                    assert(sources@.contains(source));
                    let k = choose|k: int| 0 <= k < sources@.len() && sources@[k] == source;
                    assert(sources@[k].publisher_id == publisher_id);
                }
                assert(keep == keeps_tail(before, *expected, owner));
            }
            if !keep {
                let _ = self.recovery_tails.remove(&owner);
                let _ = self.recovering_publishers.remove(&publisher_id);
                proof {
                    assert(done.push(owner).contains(owner));
                    assert forall|other: u64| #[trigger]
                        self.recovering_publishers@.dom().contains(other)
                            <==> before.recovering_publishers@.dom().contains(other) && !(exists|
                            owner: CacheOwnerId,
                        |
                            #[trigger] done.push(owners@[i as int]).contains(owner) && !keeps_tail(
                                before,
                                *expected,
                                owner,
                            ) && before.recovery_tails@[owner].publisher_id == other) by {
                        if exists|owner: CacheOwnerId|
                            #[trigger] done.contains(owner) && !keeps_tail(
                                before,
                                *expected,
                                owner,
                            ) && before.recovery_tails@[owner].publisher_id == other {
                            let gone = choose|owner: CacheOwnerId|
                                #[trigger] done.contains(owner) && !keeps_tail(
                                    before,
                                    *expected,
                                    owner,
                                ) && before.recovery_tails@[owner].publisher_id == other;
                            assert(done.push(owners@[i as int]).contains(gone));
                        }
                    }
                }
            } else {
                proof {
                    assert forall|other: u64| #[trigger]
                        self.recovering_publishers@.dom().contains(other)
                            <==> before.recovering_publishers@.dom().contains(other) && !(exists|
                            owner: CacheOwnerId,
                        |
                            #[trigger] done.push(owners@[i as int]).contains(owner) && !keeps_tail(
                                before,
                                *expected,
                                owner,
                            ) && before.recovery_tails@[owner].publisher_id == other) by {
                        if exists|owner: CacheOwnerId|
                            #[trigger] done.contains(owner) && !keeps_tail(
                                before,
                                *expected,
                                owner,
                            ) && before.recovery_tails@[owner].publisher_id == other {
                            let gone = choose|owner: CacheOwnerId|
                                #[trigger] done.contains(owner) && !keeps_tail(
                                    before,
                                    *expected,
                                    owner,
                                ) && before.recovery_tails@[owner].publisher_id == other;
                            assert(done.push(owners@[i as int]).contains(gone));
                        }
                    }
                }
            }
            i = i + 1;
        }
        proof {
            assert(owners@.subrange(0, i as int) =~= owners@);
            assert forall|publisher_id: u64| drops_tail_of(before, *expected, publisher_id) == (
            exists|owner: CacheOwnerId|
                #[trigger] owners@.contains(owner) && !keeps_tail(before, *expected, owner)
                    && before.recovery_tails@[owner].publisher_id == publisher_id) by {
                if drops_tail_of(before, *expected, publisher_id) {
                    let owner = choose|owner: CacheOwnerId|
                        #[trigger] before.recovery_tails@.dom().contains(owner) && !keeps_tail(
                            before,
                            *expected,
                            owner,
                        ) && before.recovery_tails@[owner].publisher_id == publisher_id;
                    assert(owners@.contains(owner));
                }
            }
        }
    }

    /// Withdraw every owner.
    fn withdraw_all(&mut self)
        ensures
            final(self).sources == old(self).sources,
            final(self).attachments == old(self).attachments,
            final(self).recovery_tails == old(self).recovery_tails,
            final(self).recovering_publishers == old(self).recovering_publishers,
            final(self).runtime@ == old(self).runtime@.map_values(
                |state: OwnerRuntime| state.withdrawn(),
            ),
    {
        let owners = self.runtime.keys();
        let ghost before = self.runtime@;
        let mut i: usize = 0;
        while i < owners.len()
            invariant
                i <= owners.len(),
                before == old(self).runtime@,
                owners@.no_duplicates(),
                forall|owner: CacheOwnerId| #[trigger]
                    owners@.contains(owner) <==> before.dom().contains(owner),
                self.sources == old(self).sources,
                self.attachments == old(self).attachments,
                self.recovery_tails == old(self).recovery_tails,
                self.recovering_publishers == old(self).recovering_publishers,
                self.runtime@.dom() == before.dom(),
                forall|owner: CacheOwnerId| #[trigger]
                    before.dom().contains(owner) ==> self.runtime@[owner] == if owners@.subrange(
                        0,
                        i as int,
                    ).contains(owner) {
                        before[owner].withdrawn()
                    } else {
                        before[owner]
                    },
            decreases owners.len() - i,
        {
            let owner = owners[i];
            proof {
                assert(owners@.contains(owner));
                lemma_prefix_grows(owners@, i as int);
                lemma_push_contains(owners@.subrange(0, i as int), owner);
            }
            if let Some(state) = self.runtime.get(&owner) {
                let mut state: OwnerRuntime = *state;
                state.withdraw();
                self.runtime.insert(owner, state);
                proof {
                    assert(self.runtime@.dom() =~= before.dom());
                }
            }
            i = i + 1;
        }
        proof {
            assert(owners@.subrange(0, i as int) =~= owners@);
            assert(self.runtime@ =~= before.map_values(
                |state: OwnerRuntime| state.withdrawn(),
            ));
        }
    }

    /// Start a reconciliation: nothing stays projected, and tails without a source are dropped.
    /// The first list holds the ranks to suppress, the second the owners to visit.
    pub fn begin_schedule(
        &mut self,
        view: &KvSourceMembershipView,
        expected: &SourceExpectation,
    ) -> (start: (Vec<WorkerWithDpRank>, Vec<CacheOwnerId>))
        ensures
            start.0@.no_duplicates(),
            forall|worker: WorkerWithDpRank| #[trigger]
                start.0@.contains(worker) <==> is_recognized_rank(
                    old(self).sources@,
                    old(self).attachments@,
                    *expected,
                    view.sources@,
                    view.kv_event_source_mode@,
                    old(self).runtime@,
                    worker,
                ),
            start.1@.no_duplicates(),
            forall|owner: CacheOwnerId| #[trigger]
                start.1@.contains(owner) <==> is_known_owner(*old(self), *expected, owner),
            final(self).sources == old(self).sources,
            final(self).attachments == old(self).attachments,
            final(self).runtime@ == old(self).runtime@.map_values(
                |state: OwnerRuntime| state.withdrawn(),
            ),
            nothing_published(final(self).runtime@),
            retains_tails(*final(self), *old(self), *expected),
    {
        let recognized = recognized_ranks(
            view,
            &self.sources,
            &self.attachments,
            expected,
            &self.runtime,
        );
        let owners = self.known_owners(expected);
        self.retain_tails(expected);
        self.withdraw_all();
        (recognized, owners)
    }

    /// Decide on one owner from what is advertised for it.
    pub fn plan_known_owner(
        &self,
        owner: CacheOwnerId,
        expected: &SourceExpectation,
        live: &Table<WorkerWithDpRank, KvSourceStatus>,
        observation_revision: u64,
        schedule_generation: u64,
    ) -> (step: OwnerStep)
        ensures
            exists|
                sources: Seq<KvStateSourceAdvertisement>,
                attachments: Seq<KvStateAttachmentAdvertisement>,
            | #[trigger]
                lists_owner(*self, *expected, owner, sources, attachments) && planned_owner(
                    step,
                    owner,
                    lookup(self.runtime@, owner),
                    sources,
                    attachments,
                    live@,
                    observation_revision,
                    schedule_generation,
                ),
    {
        let sources = list_owner_sources(&self.sources, expected, owner);
        let attachments = list_owner_attachments(&self.attachments, owner);
        let previous: Option<OwnerRuntime> = match self.runtime.get(&owner) {
            Some(state) => Some(*state),
            None => None,
        };
        proof {
            assert(lists_owner(*self, *expected, owner, sources@, attachments@));
        }
        plan_owner(
            owner,
            previous,
            &sources,
            &attachments,
            live,
            observation_revision,
            schedule_generation,
        )
    }

    /// Drop the recovery tail of an owner.
    fn drop_tail(&mut self, owner: CacheOwnerId)
        ensures
            final(self).sources == old(self).sources,
            final(self).attachments == old(self).attachments,
            final(self).runtime == old(self).runtime,
            final(self).recovery_tails@ == old(self).recovery_tails@.remove(owner),
            final(self).recovering_publishers@ == without_tail_publisher(
                old(self).recovering_publishers@,
                old(self).recovery_tails@,
                owner,
            ),
    {
        if let Some(tail) = self.recovery_tails.remove(&owner) {
            let _ = self.recovering_publishers.remove(&tail.publisher_id);
        }
    }

    /// Several sources compete for an owner: none of them is authoritative.
    pub fn contest_owner(&mut self, owner: CacheOwnerId)
        ensures
            is_contested(*final(self), *old(self), owner),
    {
        self.drop_tail(owner);
        if let Some(state) = self.runtime.get(&owner) {
            let mut state: OwnerRuntime = *state;
            state.contest();
            self.runtime.insert(owner, state);
        }
    }

    /// An owner has no source any more.
    pub fn retire_owner(&mut self, owner: CacheOwnerId)
        ensures
            is_retired(*final(self), *old(self), owner),
    {
        self.drop_tail(owner);
        let _ = self.runtime.remove(&owner);
    }

    /// Take on a source.
    pub fn adopt_owner(&mut self, plan: &OwnerRecoveryPlan)
        ensures
            is_adopted(*final(self), *old(self), *plan),
    {
        let generation: Option<u64> = attachment_generation_of(&plan.attachment);
        let attached_worker: Option<WorkerWithDpRank> = if plan.attachment.is_some() {
            plan.recognized_worker
        } else {
            None
        };
        self.runtime.insert(
            plan.owner,
            OwnerRuntime {
                publisher_id: Some(plan.source.publisher_id),
                recovered_cursor: plan.previous_cursor,
                attachment_generation: generation,
                last_worker: plan.recognized_worker,
                ready: false,
                attached_worker,
                router_hint_source: plan.source.router_hint_source,
                hint_ready: false,
                recovery_required: plan.recovery_required,
            },
        );
        let fresh = OwnerRecoveryTail {
            publisher_id: plan.source.publisher_id,
            attachment_generation: generation,
            schedule_generation: plan.schedule_generation,
            rank: RankState::default(),
        };
        let tail = match self.recovery_tails.remove(&plan.owner) {
            Some(mut tail) => if tail.publisher_id != plan.source.publisher_id
                || tail.attachment_generation != generation {
                let _ = self.recovering_publishers.remove(&tail.publisher_id);
                fresh
            } else {
                tail.schedule_generation = plan.schedule_generation;
                tail
            },
            None => fresh,
        };
        self.recovery_tails.insert(plan.owner, tail);
        self.recovering_publishers.insert(plan.source.publisher_id, plan.owner);
        proof {
            assert(self.recovery_tails@ =~= old(self).recovery_tails@.insert(
                plan.owner,
                self.recovery_tails@[plan.owner],
            ));
        }
    }

    /// The ranks to suppress once every owner was visited.
    pub fn final_recognized(&self, provisional: Vec<WorkerWithDpRank>) -> (workers: Vec<
        WorkerWithDpRank,
    >)
        ensures
            provisional@.no_duplicates() ==> workers@.no_duplicates(),
            forall|worker: WorkerWithDpRank| #[trigger]
                workers@.contains(worker) <==> provisional@.contains(worker) || exists|
                    owner: CacheOwnerId,
                |
                    #[trigger] self.runtime@.dom().contains(owner)
                        && self.runtime@[owner].last_worker == Some(worker),
    {
        let mut workers = provisional;
        let len: usize = self.runtime.len();
        let ghost listing = self.runtime.listing();
        let mut i: usize = 0;
        while i < len
            invariant
                i <= len,
                len == listing.len(),
                listing == self.runtime.listing(),
                forall|j: int|
                    0 <= j < len ==> self.runtime@.dom().contains((#[trigger] listing[j]).0)
                        && self.runtime@[listing[j].0] == listing[j].1,
                provisional@.no_duplicates() ==> workers@.no_duplicates(),
                forall|worker: WorkerWithDpRank|
                    provisional@.contains(worker) ==> #[trigger] workers@.contains(worker),
                forall|worker: WorkerWithDpRank| #[trigger]
                    workers@.contains(worker) ==> provisional@.contains(worker) || exists|
                        owner: CacheOwnerId,
                    |
                        #[trigger] self.runtime@.dom().contains(owner)
                            && self.runtime@[owner].last_worker == Some(worker),
                forall|j: int|
                    0 <= j < i && (#[trigger] listing[j]).1.last_worker is Some
                        ==> workers@.contains(listing[j].1.last_worker->0),
            decreases len - i,
        {
            if let Some(worker) = self.runtime.value_at(i).last_worker {
                proof {
                    assert(self.runtime@.dom().contains(listing[i as int].0));
                }
                push_unique(&mut workers, worker);
            }
            i = i + 1;
        }
        proof {
            assert forall|worker: WorkerWithDpRank|
                (exists|owner: CacheOwnerId|
                    #[trigger] self.runtime@.dom().contains(owner)
                        && self.runtime@[owner].last_worker == Some(
                        worker,
                    )) implies #[trigger] workers@.contains(worker) by {
                let owner = choose|owner: CacheOwnerId|
                    #[trigger] self.runtime@.dom().contains(owner)
                        && self.runtime@[owner].last_worker == Some(worker);
                assert(has_entry(listing, owner));
                let j = choose|j: int| 0 <= j < listing.len() && (#[trigger] listing[j]).0 == owner;
                assert(listing[j].1.last_worker == Some(worker));
            }
        }
        workers
    }

    /// What the index may route by: ready owners with their workers, and hint sources.
    pub fn residency_routing(&self) -> (routing: ResidencyRouting)
        ensures
            routing.projection@.no_duplicates(),
            routing.hint_sources@.no_duplicates(),
            forall|owner: CacheOwnerId, worker: WorkerWithDpRank| #[trigger]
                routing.projection@.contains((owner, worker)) <==> projects(
                    self.runtime@,
                    owner,
                    worker,
                ),
            forall|owner: CacheOwnerId, metadata: u64, worker: Option<WorkerWithDpRank>| #[trigger]
                routing.hint_sources@.contains((owner, metadata, worker)) <==> hints_at(
                    self.runtime@,
                    owner,
                    metadata,
                    worker,
                ),
    {
        let mut projection: Vec<(CacheOwnerId, WorkerWithDpRank)> = Vec::new();
        let mut hint_sources: Vec<(CacheOwnerId, u64, Option<WorkerWithDpRank>)> = Vec::new();
        let len: usize = self.runtime.len();
        let ghost listing = self.runtime.listing();
        let mut i: usize = 0;
        while i < len
            invariant
                i <= len,
                len == listing.len(),
                listing == self.runtime.listing(),
                distinct_keys(listing),
                projection@.no_duplicates(),
                hint_sources@.no_duplicates(),
                forall|k: int|
                    0 <= k < projection@.len() ==> has_entry(
                        listing.subrange(0, i as int),
                        (#[trigger] projection@[k]).0,
                    ),
                forall|k: int|
                    0 <= k < hint_sources@.len() ==> has_entry(
                        listing.subrange(0, i as int),
                        (#[trigger] hint_sources@[k]).0,
                    ),
                forall|j: int|
                    0 <= j < len ==> self.runtime@.dom().contains((#[trigger] listing[j]).0)
                        && self.runtime@[listing[j].0] == listing[j].1,
                forall|owner: CacheOwnerId, worker: WorkerWithDpRank| #[trigger]
                    projection@.contains((owner, worker)) ==> projects(
                        self.runtime@,
                        owner,
                        worker,
                    ),
                forall|j: int|
                    0 <= j < i && (#[trigger] listing[j]).1.ready && listing[j].1.last_worker
                        is Some ==> projection@.contains(
                        (listing[j].0, listing[j].1.last_worker->0),
                    ),
                forall|owner: CacheOwnerId, metadata: u64, worker: Option<WorkerWithDpRank>|
                    #[trigger]
                    hint_sources@.contains((owner, metadata, worker)) ==> hints_at(
                        self.runtime@,
                        owner,
                        metadata,
                        worker,
                    ),
                forall|j: int|
                    0 <= j < i && (#[trigger] listing[j]).1.hint_ready
                        && listing[j].1.router_hint_source is Some ==> hint_sources@.contains(
                        (
                            listing[j].0,
                            listing[j].1.router_hint_source->0,
                            listing[j].1.attached_worker,
                        ),
                    ),
            decreases len - i,
        {
            let owner = self.runtime.key_at(i);
            let state: OwnerRuntime = *self.runtime.value_at(i);
            proof {
                assert(self.runtime@.dom().contains(listing[i as int].0));
                lemma_prefix_entry(listing, i as int);
                let prefix = listing.subrange(0, i as int);
                if has_entry(prefix, owner) {
                    let j = choose|j: int|
                        0 <= j < prefix.len() && (#[trigger] prefix[j]).0 == owner;
                    assert(listing[j].0 == listing[i as int].0);
                }
            }
            if state.ready {
                if let Some(worker) = state.last_worker {
                    proof {
                        lemma_push_contains(projection@, (owner, worker));
                    }
                    projection.push((owner, worker));
                }
            }
            if state.hint_ready {
                if let Some(metadata) = state.router_hint_source {
                    proof {
                        lemma_push_contains(
                            hint_sources@,
                            (owner, metadata, state.attached_worker),
                        );
                    }
                    hint_sources.push((owner, metadata, state.attached_worker));
                }
            }
            i = i + 1;
        }
        proof {
            assert forall|owner: CacheOwnerId, worker: WorkerWithDpRank| projects(
                self.runtime@,
                owner,
                worker,
            ) implies #[trigger] projection@.contains((owner, worker)) by {
                assert(has_entry(listing, owner));
                let j = choose|j: int| 0 <= j < listing.len() && (#[trigger] listing[j]).0 == owner;
                assert(listing[j].1.ready);
            }
            assert forall|
                owner: CacheOwnerId,
                metadata: u64,
                worker: Option<WorkerWithDpRank>,
            | hints_at(self.runtime@, owner, metadata, worker) implies #[trigger]
                hint_sources@.contains((owner, metadata, worker)) by {
                assert(has_entry(listing, owner));
                let j = choose|j: int| 0 <= j < listing.len() && (#[trigger] listing[j]).0 == owner;
                assert(listing[j].1.hint_ready);
            }
        }
        ResidencyRouting { projection, hint_sources }
    }
}

/// Lists of all the sources and attachments of an owner.
pub open spec fn lists_owner(
    agent: StateAgent,
    expected: SourceExpectation,
    owner: CacheOwnerId,
    sources: Seq<KvStateSourceAdvertisement>,
    attachments: Seq<KvStateAttachmentAdvertisement>,
) -> bool {
    &&& sources.no_duplicates()
    &&& forall|source: KvStateSourceAdvertisement| #[trigger]
        sources.contains(source) <==> is_owner_source(agent.sources@, expected, owner, source)
    &&& attachments.no_duplicates()
    &&& forall|attachment: KvStateAttachmentAdvertisement| #[trigger]
        attachments.contains(attachment) <==> is_owner_attachment(
            agent.attachments@,
            owner,
            attachment,
        )
}

/// What [`plan_owner`] comes to.
pub open spec fn planned_owner(
    step: OwnerStep,
    owner: CacheOwnerId,
    previous: Option<OwnerRuntime>,
    sources: Seq<KvStateSourceAdvertisement>,
    attachments: Seq<KvStateAttachmentAdvertisement>,
    live: LiveRanks,
    observation_revision: u64,
    schedule_generation: u64,
) -> bool {
    if sources.len() > 1 {
        step == OwnerStep::Contest
    } else if sources.len() == 0 {
        step is Retire && step->Retire_clears@ == retire_clears(owner, previous, attachments, live)
    } else {
        &&& step is Adopt
        &&& step->Adopt_clears@ == adopt_clears(owner, previous, sources[0], attachments, live)
        &&& step->plan == adopt_plan(
            owner,
            previous,
            sources[0],
            attachments,
            live,
            observation_revision,
            schedule_generation,
        )
    }
}

/// The owner's blocks count for this worker.
pub open spec fn projects(
    runtime: Map<CacheOwnerId, OwnerRuntime>,
    owner: CacheOwnerId,
    worker: WorkerWithDpRank,
) -> bool {
    runtime.dom().contains(owner) && runtime[owner].ready && runtime[owner].last_worker == Some(
        worker,
    )
}

/// The owner may be hinted at under this metadata.
pub open spec fn hints_at(
    runtime: Map<CacheOwnerId, OwnerRuntime>,
    owner: CacheOwnerId,
    metadata: u64,
    worker: Option<WorkerWithDpRank>,
) -> bool {
    &&& runtime.dom().contains(owner)
    &&& runtime[owner].hint_ready
    &&& runtime[owner].router_hint_source == Some(metadata)
    &&& runtime[owner].attached_worker == worker
}

/// From the start of a reconciliation until an owner has recovered again, nothing of it is
/// projected or hinted at.
pub proof fn law_reconciliation_withdraws_first(
    runtime: Map<CacheOwnerId, OwnerRuntime>,
    owner: CacheOwnerId,
    worker: WorkerWithDpRank,
    metadata: u64,
    attached: Option<WorkerWithDpRank>,
)
    ensures
        ({
            let after = runtime.map_values(|state: OwnerRuntime| state.withdrawn());
            !projects(after, owner, worker) && !hints_at(after, owner, metadata, attached)
        }),
{
}

/// Adopting a source projects nothing, and an owner whose incarnation changed must recover.
pub proof fn law_adoption_waits_for_recovery(
    owner: CacheOwnerId,
    previous: OwnerRuntime,
    source: KvStateSourceAdvertisement,
    attachments: Seq<KvStateAttachmentAdvertisement>,
    live: LiveRanks,
    observation_revision: u64,
    schedule_generation: u64,
)
    ensures
        ({
            let plan = adopt_plan(
                owner,
                Some(previous),
                source,
                attachments,
                live,
                observation_revision,
                schedule_generation,
            );
            let after = adopted_runtime(plan);
            &&& !after.ready && !after.hint_ready
            &&& incarnation_changed(previous, source, generation_of(plan.attachment))
                ==> plan.recovery_required && after.recovery_required
            &&& previous.publisher_id != Some(source.publisher_id) ==> after.recovered_cursor == 0
            &&& after.last_worker is Some ==> live.dom().contains(after.last_worker->0)
        }),
{
}

/// When an owner's incarnation changes, the worker state of the old one is cleared first.
pub proof fn law_replacement_clears_old_worker(
    owner: CacheOwnerId,
    previous: OwnerRuntime,
    source: KvStateSourceAdvertisement,
    attachments: Seq<KvStateAttachmentAdvertisement>,
    live: LiveRanks,
)
    requires
        previous.last_worker is Some,
        incarnation_changed(
            previous,
            source,
            generation_of(selected_attachment(source, attachments)),
        ),
    ensures
        adopt_clears(owner, Some(previous), source, attachments, live).contains(
            StateClear::Worker { worker: previous.last_worker->0, owner },
        ),
{
    let attachment = selected_attachment(source, attachments);
    let unattached = if attachment is None {
        attachment_clears(attachments, live, owner)
    } else {
        Seq::empty()
    };
    let clears = adopt_clears(owner, Some(previous), source, attachments, live);
    assert(clears[unattached.len() as int] == StateClear::Worker {
        worker: previous.last_worker->0,
        owner,
    });
}

/// The event of a worker's clear names that worker and no id; the event of an owner's clear names
/// no worker and carries the id of the clear. Both stand on the device tier, in the domain of what
/// they clear, and name the owner as their source.
pub proof fn law_clear_event_names_what_it_clears(clear: &StateClear, event: ClearEvent)
    requires
        call_ensures(StateClear::event, (clear,), event),
    ensures
        event.storage_tier == StorageTier::Device,
        match *clear {
            StateClear::Worker { worker, owner } => {
                &&& event.domain == ResidencyDomain::Worker
                &&& event.worker_id == worker.worker_id && event.dp_rank == worker.dp_rank
                &&& event.event_id == 0
                &&& event.state_source == owner
            },
            StateClear::CacheOwner { owner, event_id } => {
                &&& event.domain == ResidencyDomain::CacheOwner
                &&& event.worker_id == 0 && event.dp_rank == 0
                &&& event.event_id == event_id
                &&& event.state_source == owner
            },
        },
{
}

/// What is cleared for a list of attachments is the worker of each that is live, once for each,
/// under the owner.
proof fn lemma_attachment_clears(
    attachments: Seq<KvStateAttachmentAdvertisement>,
    live: LiveRanks,
    owner: CacheOwnerId,
)
    ensures
        forall|clear: StateClear| #[trigger]
            attachment_clears(attachments, live, owner).contains(clear) <==> exists|i: int|
                0 <= i < attachments.len() && live.dom().contains(
                    (#[trigger] attachments[i]).worker,
                ) && clear == (StateClear::Worker { worker: attachments[i].worker, owner }),
    decreases attachments.len(),
{
    let all = attachment_clears(attachments, live, owner);
    if attachments.len() > 0 {
        let short = attachments.drop_last();
        lemma_attachment_clears(short, live, owner);
        let front = attachment_clears(short, live, owner);
        lemma_push_contains(
            front,
            StateClear::Worker { worker: attachments.last().worker, owner },
        );
        assert forall|clear: StateClear| #[trigger] all.contains(clear) <==> exists|i: int|
            0 <= i < attachments.len() && live.dom().contains((#[trigger] attachments[i]).worker)
                && clear == (StateClear::Worker { worker: attachments[i].worker, owner }) by {
            if all.contains(clear) {
                if front.contains(clear) {
                    let i = choose|i: int|
                        0 <= i < short.len() && live.dom().contains((#[trigger] short[i]).worker)
                            && clear == (StateClear::Worker { worker: short[i].worker, owner });
                    assert(attachments[i] == short[i]);
                } else {
                    assert(attachments[attachments.len() - 1] == attachments.last());
                }
            }
            if exists|i: int|
                0 <= i < attachments.len() && live.dom().contains(
                    (#[trigger] attachments[i]).worker,
                ) && clear == (StateClear::Worker { worker: attachments[i].worker, owner }) {
                let i = choose|i: int|
                    0 <= i < attachments.len() && live.dom().contains(
                        (#[trigger] attachments[i]).worker,
                    ) && clear == (StateClear::Worker { worker: attachments[i].worker, owner });
                if i < short.len() {
                    assert(short[i] == attachments[i]);
                    assert(front.contains(clear));
                }
            }
        }
    }
}

/// An owner with several sources is contested, one with none is retired, and one with a single
/// source is adopted.
pub proof fn law_one_source_is_adopted(
    owner: CacheOwnerId,
    previous: Option<OwnerRuntime>,
    sources: &Vec<KvStateSourceAdvertisement>,
    attachments: &Vec<KvStateAttachmentAdvertisement>,
    live: &Table<WorkerWithDpRank, KvSourceStatus>,
    observation_revision: u64,
    schedule_generation: u64,
    step: OwnerStep,
)
    requires
        call_ensures(
            plan_owner,
            (
                owner,
                previous,
                sources,
                attachments,
                live,
                observation_revision,
                schedule_generation,
            ),
            step,
        ),
    ensures
        step is Contest <==> sources@.len() > 1,
        step is Retire <==> sources@.len() == 0,
        step is Adopt <==> sources@.len() == 1,
{
}

/// The plan of an adopted owner carries the source, the identity that the source's agent must
/// answer under, and the numbers of the observation and the schedule. Its attachment is the only
/// one there is, where that agrees with the source in publisher, protocol, data-parallel rank,
/// recovery target and ingress; its worker is the attachment's, or else the owner's last, as long
/// as that is live.
pub proof fn law_plan_of_an_adopted_owner(
    owner: CacheOwnerId,
    previous: Option<OwnerRuntime>,
    sources: &Vec<KvStateSourceAdvertisement>,
    attachments: &Vec<KvStateAttachmentAdvertisement>,
    live: &Table<WorkerWithDpRank, KvSourceStatus>,
    observation_revision: u64,
    schedule_generation: u64,
    step: OwnerStep,
)
    requires
        call_ensures(
            plan_owner,
            (
                owner,
                previous,
                sources,
                attachments,
                live,
                observation_revision,
                schedule_generation,
            ),
            step,
        ),
        sources@.len() == 1,
    ensures
        ({
            let plan = step->plan;
            let source = sources@[0];
            &&& plan.owner == owner && plan.source == source
            &&& plan.expected.cache_owner_id == owner
            &&& plan.expected.publisher_id == source.publisher_id
            &&& plan.expected.protocol_version == source.protocol_version
            &&& plan.observation_revision == observation_revision
            &&& plan.schedule_generation == schedule_generation
            &&& plan.attachment is Some ==> attachments@.len() == 1 && plan.attachment->0
                == attachments@[0]
            &&& attachments@.len() == 1 ==> (plan.attachment is Some
                <==> attachments@[0].publisher_id == source.publisher_id
                && attachments@[0].protocol_version == source.protocol_version
                && attachments@[0].worker.dp_rank == source.global_dp_rank
                && attachments@[0].recovery_control_target == source.recovery_control_target
                && attachments@[0].ingress_protocol == source.ingress_protocol)
            &&& plan.recognized_worker is Some ==> live@.dom().contains(plan.recognized_worker->0)
            &&& plan.attachment is Some ==> (if live@.dom().contains(plan.attachment->0.worker) {
                plan.recognized_worker == Some(plan.attachment->0.worker)
            } else {
                plan.recognized_worker is None
            })
            &&& plan.attachment is None && previous is Some && previous->0.last_worker is Some
                && live@.dom().contains(previous->0.last_worker->0) ==> plan.recognized_worker
                == previous->0.last_worker
            &&& plan.attachment is None && previous is None ==> plan.recognized_worker is None
        }),
{
}

/// An adopted owner goes on from where it stood exactly if the same publisher fed it before;
/// otherwise it starts from zero. It needs no recovery exactly if it was known, was fed by the
/// same publisher under the same attachment, and wanted none.
pub proof fn law_same_incarnation_goes_on(
    owner: CacheOwnerId,
    previous: Option<OwnerRuntime>,
    sources: &Vec<KvStateSourceAdvertisement>,
    attachments: &Vec<KvStateAttachmentAdvertisement>,
    live: &Table<WorkerWithDpRank, KvSourceStatus>,
    observation_revision: u64,
    schedule_generation: u64,
    step: OwnerStep,
)
    requires
        call_ensures(
            plan_owner,
            (
                owner,
                previous,
                sources,
                attachments,
                live,
                observation_revision,
                schedule_generation,
            ),
            step,
        ),
        sources@.len() == 1,
    ensures
        previous is None ==> step->plan.recovery_required && step->plan.previous_cursor == 0
            && step->plan.previous_publisher_id is None,
        previous is Some ==> {
            let before = previous->0;
            let same_publisher = before.publisher_id == Some(sources@[0].publisher_id);
            let same_attachment = match step->plan.attachment {
                Some(attachment) => before.attachment_generation == Some(
                    attachment.attachment_generation,
                ),
                None => before.attachment_generation is None,
            };
            &&& step->plan.previous_publisher_id == before.publisher_id
            &&& same_publisher ==> step->plan.previous_cursor == before.recovered_cursor
            &&& !same_publisher ==> step->plan.previous_cursor == 0
            &&& !step->plan.recovery_required <==> same_publisher && same_attachment
                && !before.recovery_required
        },
{
}

/// Before an owner is adopted its workers are cleared, and nothing but workers under this owner:
/// those of live attachments where none is activated, the last worker where the publisher or the
/// attachment changed or that worker is gone, and the live worker of an owner that is new.
pub proof fn law_adoption_clears_workers_that_lose_it(
    owner: CacheOwnerId,
    previous: Option<OwnerRuntime>,
    sources: &Vec<KvStateSourceAdvertisement>,
    attachments: &Vec<KvStateAttachmentAdvertisement>,
    live: &Table<WorkerWithDpRank, KvSourceStatus>,
    observation_revision: u64,
    schedule_generation: u64,
    step: OwnerStep,
    clear: StateClear,
    worker: WorkerWithDpRank,
)
    requires
        call_ensures(
            plan_owner,
            (
                owner,
                previous,
                sources,
                attachments,
                live,
                observation_revision,
                schedule_generation,
            ),
            step,
        ),
        sources@.len() == 1,
    ensures
        step->Adopt_clears@.contains(clear) ==> clear is Worker && clear->Worker_owner == owner,
        step->Adopt_clears@.contains(StateClear::Worker { worker, owner }) <==> {
            let plan = step->plan;
            ||| plan.attachment is None && live@.dom().contains(worker) && exists|i: int|
                0 <= i < attachments@.len() && (#[trigger] attachments@[i]).worker == worker
            ||| previous is Some && previous->0.last_worker == Some(worker) && (
            previous->0.publisher_id != Some(sources@[0].publisher_id) || match plan.attachment {
                Some(attachment) => previous->0.attachment_generation != Some(
                    attachment.attachment_generation,
                ),
                None => previous->0.attachment_generation is Some,
            })
            ||| previous is Some && previous->0.last_worker == Some(worker)
                && !live@.dom().contains(worker) && (plan.attachment is None
                || plan.attachment->0.worker == worker)
            ||| previous is None && plan.recognized_worker == Some(worker)
        },
{
    let source = sources@[0];
    let attachment = selected_attachment(source, attachments@);
    let last_worker = last_worker_of(attachment, previous);
    let generation = generation_of(attachment);
    let unattached = if attachment is None {
        attachment_clears(attachments@, live@, owner)
    } else {
        Seq::empty()
    };
    let replaced = if previous is Some && incarnation_changed(previous->0, source, generation) {
        worker_clear(previous->0.last_worker, owner)
    } else {
        Seq::empty()
    };
    let departed = if last_worker is Some && !live@.dom().contains(last_worker->0) && previous
        is Some && previous->0.last_worker == last_worker {
        worker_clear(last_worker, owner)
    } else {
        Seq::empty()
    };
    let taken_over = if previous is None {
        worker_clear(if_live(last_worker, live@), owner)
    } else {
        Seq::empty()
    };
    lemma_attachment_clears(attachments@, live@, owner);
    lemma_concat_contains(unattached, replaced);
    lemma_concat_contains(unattached + replaced, departed);
    lemma_concat_contains(unattached + replaced + departed, taken_over);
    lemma_worker_clear(
        if previous is Some {
            previous->0.last_worker
        } else {
            None
        },
        owner,
    );
    lemma_worker_clear(last_worker, owner);
    lemma_worker_clear(if_live(last_worker, live@), owner);
    assert(step->Adopt_clears@ == unattached + replaced + departed + taken_over);
}

proof fn lemma_concat_contains<T>(left: Seq<T>, right: Seq<T>)
    ensures
        forall|item: T| #[trigger]
            (left + right).contains(item) <==> left.contains(item) || right.contains(item),
{
    assert forall|item: T| #[trigger] (left + right).contains(item) <==> left.contains(item)
        || right.contains(item) by {
        if left.contains(item) {
            let i = choose|i: int| 0 <= i < left.len() && left[i] == item;
            assert((left + right)[i] == item);
        }
        if right.contains(item) {
            let i = choose|i: int| 0 <= i < right.len() && right[i] == item;
            assert((left + right)[left.len() + i] == item);
        }
        if (left + right).contains(item) {
            let i = choose|i: int| 0 <= i < (left + right).len() && (left + right)[i] == item;
            if i < left.len() {
                assert(left[i] == item);
            } else {
                assert(right[i - left.len()] == item);
            }
        }
    }
}

proof fn lemma_worker_clear(worker: Option<WorkerWithDpRank>, owner: CacheOwnerId)
    ensures
        forall|clear: StateClear| #[trigger]
            worker_clear(worker, owner).contains(clear) <==> worker is Some && clear == (
            StateClear::Worker { worker: worker->0, owner }),
{
    if worker is Some {
        assert(worker_clear(worker, owner)[0] == (StateClear::Worker { worker: worker->0, owner }));
    }
}

/// An owner that is retired is cleared whole if it was known, after its last worker; the live
/// workers of its attachments are cleared in any case, and nothing else is.
pub proof fn law_retirement_clears_all_of_the_owner(
    owner: CacheOwnerId,
    previous: Option<OwnerRuntime>,
    sources: &Vec<KvStateSourceAdvertisement>,
    attachments: &Vec<KvStateAttachmentAdvertisement>,
    live: &Table<WorkerWithDpRank, KvSourceStatus>,
    observation_revision: u64,
    schedule_generation: u64,
    step: OwnerStep,
    clear: StateClear,
    worker: WorkerWithDpRank,
)
    requires
        call_ensures(
            plan_owner,
            (
                owner,
                previous,
                sources,
                attachments,
                live,
                observation_revision,
                schedule_generation,
            ),
            step,
        ),
        sources@.len() == 0,
    ensures
        step->Retire_clears@.contains(clear) ==> match clear {
            StateClear::Worker { owner: named, .. } => named == owner,
            StateClear::CacheOwner { owner: named, event_id } => named == owner && event_id == 0,
        },
        step->Retire_clears@.contains(StateClear::CacheOwner { owner, event_id: 0 })
            <==> previous is Some,
        step->Retire_clears@.contains(StateClear::Worker { worker, owner }) <==> {
            ||| previous is Some && previous->0.last_worker == Some(worker)
            ||| live@.dom().contains(worker) && exists|i: int|
                0 <= i < attachments@.len() && (#[trigger] attachments@[i]).worker == worker
        },
        previous is Some && previous->0.last_worker is Some ==> step->Retire_clears@[0] == (
        StateClear::Worker { worker: previous->0.last_worker->0, owner }),
{
    let all = StateClear::CacheOwner { owner, event_id: 0 };
    let known = match previous {
        Some(previous) => worker_clear(previous.last_worker, owner).push(all),
        None => Seq::empty(),
    };
    lemma_attachment_clears(attachments@, live@, owner);
    lemma_concat_contains(known, attachment_clears(attachments@, live@, owner));
    if previous is Some {
        lemma_worker_clear(previous->0.last_worker, owner);
        lemma_push_contains(worker_clear(previous->0.last_worker, owner), all);
    }
}

/// An index that accepts a projection is set to it; one that refuses it gets none. The hint
/// sources are set either way.
pub proof fn law_refused_projection_is_left_out(
    routing: ResidencyRouting,
    accepted: bool,
    projected: ResidencyRouting,
)
    requires
        call_ensures(ResidencyRouting::projected_if, (routing, accepted), projected),
    ensures
        projected.hint_sources@ == routing.hint_sources@,
        accepted ==> projected.projection@ == routing.projection@,
        !accepted ==> projected.projection@.len() == 0,
{
}

/// The projection pairs each ready owner with its last worker and holds nothing else; the hint
/// sources are the owners ready for hints that have metadata, with it and their attached worker.
pub proof fn law_routing_follows_the_owners(
    agent: &StateAgent,
    routing: ResidencyRouting,
    owner: CacheOwnerId,
    worker: WorkerWithDpRank,
    metadata: u64,
    attached: Option<WorkerWithDpRank>,
)
    requires
        call_ensures(StateAgent::residency_routing, (agent,), routing),
    ensures
        routing.projection@.contains((owner, worker)) <==> agent.runtime@.dom().contains(owner)
            && agent.runtime@[owner].ready && agent.runtime@[owner].last_worker == Some(worker),
        routing.hint_sources@.contains((owner, metadata, attached))
            <==> agent.runtime@.dom().contains(owner) && agent.runtime@[owner].hint_ready
            && agent.runtime@[owner].router_hint_source == Some(metadata)
            && agent.runtime@[owner].attached_worker == attached,
        routing.projection@.no_duplicates(),
        routing.hint_sources@.no_duplicates(),
{
}

/// Every owner that has a state, a compatible source or a valid attachment is visited, once.
pub proof fn law_known_owners_are_visited(
    agent: &StateAgent,
    expected: &SourceExpectation,
    owners: Vec<CacheOwnerId>,
    owner: CacheOwnerId,
    source: KvStateSourceAdvertisement,
    attachment: KvStateAttachmentAdvertisement,
)
    requires
        call_ensures(StateAgent::known_owners, (agent, expected), owners),
    ensures
        owners@.no_duplicates(),
        agent.runtime@.dom().contains(owner) ==> owners@.contains(owner),
        is_owner_source(agent.sources@, *expected, owner, source) ==> owners@.contains(owner),
        is_owner_attachment(agent.attachments@, owner, attachment) ==> owners@.contains(owner),
        owners@.contains(owner) && !agent.runtime@.dom().contains(owner) ==> (exists|id: u64|
            #[trigger]
            agent.sources@.dom().contains(id) && is_owner_source(
                agent.sources@,
                *expected,
                owner,
                agent.sources@[id],
            )) || (exists|id: u64| #[trigger]
            agent.attachments@.dom().contains(id) && is_owner_attachment(
                agent.attachments@,
                owner,
                agent.attachments@[id],
            )),
{
    if owner_has_source(agent.sources@, *expected, owner) {
        let found = choose|found: KvStateSourceAdvertisement| #[trigger]
            is_owner_source(agent.sources@, *expected, owner, found);
        assert(agent.sources@.dom().contains(found.publisher_id));
    }
    if exists|found: KvStateAttachmentAdvertisement| #[trigger]
        is_owner_attachment(agent.attachments@, owner, found) {
        let found = choose|found: KvStateAttachmentAdvertisement| #[trigger]
            is_owner_attachment(agent.attachments@, owner, found);
        assert(agent.attachments@.dom().contains(found.record_id));
    }
}

/// A contested owner that was known stays, without a publisher, withdrawn and in want of a
/// recovery; an unknown one stays unknown. What was held back for it is dropped with its publisher,
/// and no other owner is touched.
pub proof fn law_contested_owner_is_kept_unfed(
    agent: &mut StateAgent,
    owner: CacheOwnerId,
    other: CacheOwnerId,
)
    requires
        call_ensures(StateAgent::contest_owner, (agent, owner), ()),
    ensures
        final(agent).runtime@.dom().contains(owner) <==> old(agent).runtime@.dom().contains(owner),
        old(agent).runtime@.dom().contains(owner) ==> {
            let (before, after) = (old(agent).runtime@[owner], final(agent).runtime@[owner]);
            &&& after.publisher_id is None && after.attachment_generation is None
            &&& !after.ready && !after.hint_ready && after.attached_worker is None
            &&& after.recovery_required
            &&& after.recovered_cursor == before.recovered_cursor
            &&& after.last_worker == before.last_worker
        },
        !final(agent).recovery_tails@.dom().contains(owner),
        old(agent).recovery_tails@.dom().contains(owner)
            ==> !final(agent).recovering_publishers@.dom().contains(
            old(agent).recovery_tails@[owner].publisher_id,
        ),
        other != owner ==> {
            &&& lookup(final(agent).runtime@, other) == lookup(old(agent).runtime@, other)
            &&& lookup(final(agent).recovery_tails@, other) == lookup(
                old(agent).recovery_tails@,
                other,
            )
        },
        final(agent).sources == old(agent).sources,
        final(agent).attachments == old(agent).attachments,
{
}

/// A retired owner is forgotten with all that was held back for it, and no other owner is.
pub proof fn law_retired_owner_is_forgotten(
    agent: &mut StateAgent,
    owner: CacheOwnerId,
    other: CacheOwnerId,
)
    requires
        call_ensures(StateAgent::retire_owner, (agent, owner), ()),
    ensures
        !final(agent).runtime@.dom().contains(owner),
        !final(agent).recovery_tails@.dom().contains(owner),
        old(agent).recovery_tails@.dom().contains(owner)
            ==> !final(agent).recovering_publishers@.dom().contains(
            old(agent).recovery_tails@[owner].publisher_id,
        ),
        other != owner ==> {
            &&& lookup(final(agent).runtime@, other) == lookup(old(agent).runtime@, other)
            &&& lookup(final(agent).recovery_tails@, other) == lookup(
                old(agent).recovery_tails@,
                other,
            )
        },
        final(agent).sources == old(agent).sources,
        final(agent).attachments == old(agent).attachments,
{
}

/// An adopted owner is fed by the plan's source from the plan's cursor, on the plan's worker, and
/// is attached to it where the plan has an attachment. It is not ready, and from here on the
/// publisher's events are held back for it.
pub proof fn law_adopted_owner_follows_its_plan(
    agent: &mut StateAgent,
    plan: &OwnerRecoveryPlan,
    other: CacheOwnerId,
)
    requires
        call_ensures(StateAgent::adopt_owner, (agent, plan), ()),
    ensures
        final(agent).runtime@.dom().contains(plan.owner),
        ({
            let state = final(agent).runtime@[plan.owner];
            &&& !state.ready && !state.hint_ready
            &&& state.publisher_id == Some(plan.source.publisher_id)
            &&& state.recovered_cursor == plan.previous_cursor
            &&& state.last_worker == plan.recognized_worker
            &&& state.router_hint_source == plan.source.router_hint_source
            &&& state.recovery_required == plan.recovery_required
            &&& plan.attachment is Some ==> state.attachment_generation == Some(
                plan.attachment->0.attachment_generation,
            ) && state.attached_worker == plan.recognized_worker
            &&& plan.attachment is None ==> state.attachment_generation is None
                && state.attached_worker is None
        }),
        final(agent).recovery_tails@.dom().contains(plan.owner),
        final(agent).recovery_tails@[plan.owner].publisher_id == plan.source.publisher_id,
        final(agent).recovery_tails@[plan.owner].schedule_generation == plan.schedule_generation,
        final(agent).recovering_publishers@.dom().contains(plan.source.publisher_id),
        final(agent).recovering_publishers@[plan.source.publisher_id] == plan.owner,
        other != plan.owner ==> {
            &&& lookup(final(agent).runtime@, other) == lookup(old(agent).runtime@, other)
            &&& lookup(final(agent).recovery_tails@, other) == lookup(
                old(agent).recovery_tails@,
                other,
            )
        },
        final(agent).sources == old(agent).sources,
        final(agent).attachments == old(agent).attachments,
{
}

/// What was held back for the same publisher and attachment is still held back after the owner is
/// adopted anew; anything else that was held back for it is dropped.
pub proof fn law_readoption_keeps_what_was_held_back(
    agent: &mut StateAgent,
    plan: &OwnerRecoveryPlan,
)
    requires
        call_ensures(StateAgent::adopt_owner, (agent, plan), ()),
    ensures
        ({
            let before = old(agent).recovery_tails@[plan.owner];
            let after = final(agent).recovery_tails@[plan.owner];
            let same = old(agent).recovery_tails@.dom().contains(plan.owner)
                && before.publisher_id == plan.source.publisher_id && match plan.attachment {
                Some(attachment) => before.attachment_generation == Some(
                    attachment.attachment_generation,
                ),
                None => before.attachment_generation is None,
            };
            &&& same ==> after.rank@ == before.rank@
            &&& !same ==> after.rank@.pending.len() == 0 && after.rank@.cursor.last() is None
                && !after.rank@.recovery_inflight && after.rank@.max_seen is None
            &&& old(agent).recovery_tails@.dom().contains(plan.owner) && before.publisher_id
                != plan.source.publisher_id
                ==> !final(agent).recovering_publishers@.dom().contains(before.publisher_id)
        }),
{
}

/// A reconciliation starts with nothing ready, hinted at or attached, and leaves everything else
/// of each owner as it was. What is held back for an owner stays exactly while its publisher is
/// one of the owner's sources.
pub proof fn law_reconciliation_starts_withdrawn(
    agent: &mut StateAgent,
    view: &KvSourceMembershipView,
    expected: &SourceExpectation,
    start: (Vec<WorkerWithDpRank>, Vec<CacheOwnerId>),
    owner: CacheOwnerId,
)
    requires
        call_ensures(StateAgent::begin_schedule, (agent, view, expected), start),
    ensures
        final(agent).sources == old(agent).sources,
        final(agent).attachments == old(agent).attachments,
        final(agent).runtime@.dom().contains(owner) <==> old(agent).runtime@.dom().contains(owner),
        old(agent).runtime@.dom().contains(owner) ==> {
            let (before, after) = (old(agent).runtime@[owner], final(agent).runtime@[owner]);
            &&& !after.ready && !after.hint_ready && after.attached_worker is None
            &&& after.publisher_id == before.publisher_id
            &&& after.recovered_cursor == before.recovered_cursor
            &&& after.attachment_generation == before.attachment_generation
            &&& after.last_worker == before.last_worker
            &&& after.recovery_required == before.recovery_required
        },
        old(agent).runtime@.dom().contains(owner) ==> start.1@.contains(owner),
        old(agent).recovery_tails@.dom().contains(owner) ==> {
            let publisher_id = old(agent).recovery_tails@[owner].publisher_id;
            let source = old(agent).sources@[publisher_id];
            let stays = {
                &&& old(agent).sources@.dom().contains(publisher_id)
                &&& source.publisher_id == publisher_id
                &&& source.cache_owner_id == owner
                &&& source.protocol_version == KvStateProtocolVersion::V2
                &&& source.event_topic == KvStateTopic::EventV2
                &&& source.kv_state_endpoint == expected.kv_state_endpoint
                &&& source.kv_block_size == expected.kv_block_size
                &&& source.ingress_protocol == KvStateIngressProtocol::VllmResidencyV1
                &&& source.cache_owner_id.indexer_domain == source.indexer_domain_id
            };
            &&& final(agent).recovery_tails@.dom().contains(owner) <==> stays
            &&& stays ==> final(agent).recovery_tails@[owner] == old(agent).recovery_tails@[owner]
            &&& !stays ==> !final(agent).recovering_publishers@.dom().contains(publisher_id)
        },
        !old(agent).recovery_tails@.dom().contains(owner)
            ==> !final(agent).recovery_tails@.dom().contains(owner),
{
    let before = *old(agent);
    if before.recovery_tails@.dom().contains(owner) {
        let publisher_id = before.recovery_tails@[owner].publisher_id;
        if is_owner_source(before.sources@, *expected, owner, before.sources@[publisher_id])
            && before.sources@[publisher_id].publisher_id == publisher_id {
            assert(keeps_tail(before, *expected, owner));
        }
        if !keeps_tail(before, *expected, owner) {
            assert(drops_tail_of(before, *expected, publisher_id));
        }
    }
}

/// The ranks to suppress in the end are those that were to be suppressed already, and the last
/// worker of every owner.
pub proof fn law_recognized_ranks_end_with_the_last_workers(
    agent: &StateAgent,
    provisional: Vec<WorkerWithDpRank>,
    workers: Vec<WorkerWithDpRank>,
    owner: CacheOwnerId,
    worker: WorkerWithDpRank,
)
    requires
        call_ensures(StateAgent::final_recognized, (agent, provisional), workers),
    ensures
        provisional@.contains(worker) ==> workers@.contains(worker),
        agent.runtime@.dom().contains(owner) && agent.runtime@[owner].last_worker == Some(worker)
            ==> workers@.contains(worker),
        workers@.contains(worker) && !provisional@.contains(worker) ==> exists|known: CacheOwnerId|
            #[trigger] agent.runtime@.dom().contains(known) && agent.runtime@[known].last_worker
                == Some(worker),
{
}

/// An owner without any advertised source is retired, and one with two that differ is contested;
/// what is adopted is one of its own sources, under the numbers given.
pub proof fn law_known_owner_is_planned_from_its_sources(
    agent: &StateAgent,
    owner: CacheOwnerId,
    expected: &SourceExpectation,
    live: &Table<WorkerWithDpRank, KvSourceStatus>,
    observation_revision: u64,
    schedule_generation: u64,
    step: OwnerStep,
    source: KvStateSourceAdvertisement,
    rival: KvStateSourceAdvertisement,
)
    requires
        call_ensures(
            StateAgent::plan_known_owner,
            (agent, owner, expected, live, observation_revision, schedule_generation),
            step,
        ),
    ensures
        (forall|id: u64| #[trigger]
            agent.sources@.dom().contains(id) ==> agent.sources@[id].cache_owner_id != owner)
            ==> step is Retire,
        is_owner_source(agent.sources@, *expected, owner, source) && is_owner_source(
            agent.sources@,
            *expected,
            owner,
            rival,
        ) && source != rival ==> step is Contest,
        step is Adopt ==> is_owner_source(agent.sources@, *expected, owner, step->plan.source)
            && step->plan.owner == owner && step->plan.observation_revision
            == observation_revision && step->plan.schedule_generation == schedule_generation,
        step is Retire ==> !is_owner_source(agent.sources@, *expected, owner, source),
{
    let (sources, attachments) = choose|
        sources: Seq<KvStateSourceAdvertisement>,
        attachments: Seq<KvStateAttachmentAdvertisement>,
    | #[trigger]
        lists_owner(*agent, *expected, owner, sources, attachments) && planned_owner(
            step,
            owner,
            lookup(agent.runtime@, owner),
            sources,
            attachments,
            live@,
            observation_revision,
            schedule_generation,
        );
    if sources.len() > 0 {
        assert(sources.contains(sources[0]));
        assert(agent.sources@.dom().contains(sources[0].publisher_id));
    }
    if is_owner_source(agent.sources@, *expected, owner, source) {
        assert(sources.contains(source));
    }
    if is_owner_source(agent.sources@, *expected, owner, rival) {
        assert(sources.contains(rival));
    }
}

/// The generation of an attachment is the one that it advertises; without one there is none.
pub proof fn law_generation_is_the_advertised_one(
    attachment: &Option<KvStateAttachmentAdvertisement>,
    generation: Option<u64>,
)
    requires
        call_ensures(attachment_generation_of, (attachment,), generation),
    ensures
        attachment is Some <==> generation is Some,
        attachment is Some ==> generation->0 == attachment->0.attachment_generation,
{
}

} // verus!
