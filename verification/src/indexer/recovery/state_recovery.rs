//! Recovery of one cache owner: what an answer comes to, and when the owner is ready.
use vstd::prelude::*;
use vstd::string::*;

use crate::lists::into_queue;
use crate::membership::KvSourceStatus;
use crate::indexer::recovery::owner_runtime::{
    event_is_attributed, is_attributed, OwnerRuntime, StateEventStep,
};
use crate::protocols::{
    max_u64, spec_max, CacheOwnerId, ResetScope, ResidencyDomain, RouterEvent, WorkerWithDpRank,
};
use crate::indexer::recovery::rank_state::{is_ordered_suffix, law_suffix_is_complete, RankView};
use crate::indexer::recovery::source_slot::{last_id_or, WorkerKvQueryResponse};
use crate::indexer::recovery::state_agent::{
    attachment_generation_of, generation_of, hints_at, if_live, projects, tail_fits_plan,
    worker_clear,
    KvStateAgentIdentity, LiveRanks, OwnerRecoveryPlan, OwnerRecoveryTail, ResidencyRouting,
    StateAgent, StateClear,
};
use crate::indexer::recovery::state_sources::KvStateAttachmentAdvertisement;
use crate::table::{has_entry, lookup, Table};

verus! {

#[derive(Clone, Copy, Debug, PartialEq, Eq, Structural)]
pub struct KvStateAttachmentStatus {
    pub generation: u64,
    pub worker: WorkerWithDpRank,
    pub ready: bool,
    pub ready_at_outbound_cursor: u64,
}

/// What a state agent says of itself.
#[derive(Clone, Copy, Debug, PartialEq, Eq, Structural)]
pub struct KvStateAgentStatus {
    pub identity: KvStateAgentIdentity,
    pub attachment: Option<KvStateAttachmentStatus>,
    pub cache_owner_ready: bool,
    pub outbound_cursor: u64,
}

/// Whose state an answer carries, and how far it reaches.
#[derive(Clone, Copy, Debug, PartialEq, Eq, Structural)]
pub struct KvStateRecoveryReceipt {
    pub identity: KvStateAgentIdentity,
    pub attachment_generation: Option<u64>,
    pub recovered_through_cursor: u64,
}

#[derive(Debug, PartialEq, Eq)]
pub enum StateAgentResponse {
    StateAgentRecovery { response: WorkerKvQueryResponse, receipt: KvStateRecoveryReceipt },
    Unexpected,
}

/// Why an answer was not applied.
#[derive(Debug, PartialEq, Eq)]
pub enum StateRecoveryError {
    UnexpectedResponse,
    /// The receipt names another incarnation.
    ReceiptMismatch,
    /// An event belongs to neither the owner nor its worker.
    ForeignOwnership,
    SnapshotFailed(String),
    Failed(String),
    NoState,
}

impl StateRecoveryError {
    /// The error in words.
    pub fn message(&self) -> (message: String)
        ensures
            message@ == match self {
                StateRecoveryError::UnexpectedResponse =>
                "state-agent recovery returned an unexpected response"@,
                StateRecoveryError::ReceiptMismatch =>
                "state-agent recovery receipt does not match the selected incarnation"@,
                StateRecoveryError::ForeignOwnership =>
                "state-agent recovery contains ownership outside the selected source or attachment"@,
                StateRecoveryError::SnapshotFailed(detail) => "state-agent snapshot failed: "@
                    + detail@,
                StateRecoveryError::Failed(detail) => "state-agent recovery failed: "@ + detail@,
                StateRecoveryError::NoState =>
                "state-agent recovery returned no applicable state"@,
            },
    {
        match self {
            StateRecoveryError::UnexpectedResponse =>
            "state-agent recovery returned an unexpected response".to_owned(),
            StateRecoveryError::ReceiptMismatch =>
            "state-agent recovery receipt does not match the selected incarnation".to_owned(),
            StateRecoveryError::ForeignOwnership =>
            "state-agent recovery contains ownership outside the selected source or attachment".to_owned(),
            StateRecoveryError::SnapshotFailed(
                detail,
            ) => "state-agent snapshot failed: ".to_owned().concat(detail.as_str()),
            StateRecoveryError::Failed(
                detail,
            ) => "state-agent recovery failed: ".to_owned().concat(detail.as_str()),
            StateRecoveryError::NoState =>
            "state-agent recovery returned no applicable state".to_owned(),
        }
    }
}

/// What to do to the index: first the clears, then the events.
#[derive(Debug, PartialEq, Eq)]
pub struct RecoveryApplication {
    pub clears: Vec<StateClear>,
    pub events: Vec<RouterEvent>,
    pub recovered_cursor: u64,
}

/// Whether an owner has state to fetch.
pub open spec fn recovery_is_needed(plan: OwnerRecoveryPlan, status: KvStateAgentStatus) -> bool {
    plan.recovery_required || plan.previous_cursor < (match plan.attachment {
        Some(attachment) => attachment.ready_at_outbound_cursor,
        None => status.outbound_cursor,
    })
}

/// Whether to query for state after the status came in: a source that is behind its barrier,
/// or must be recovered anyway, is queried.
pub fn needs_recovery(plan: &OwnerRecoveryPlan, status: &KvStateAgentStatus) -> (needed: bool)
    ensures
        needed == recovery_is_needed(*plan, *status),
{
    let barrier: u64 = match plan.attachment {
        Some(attachment) => attachment.ready_at_outbound_cursor,
        None => status.outbound_cursor,
    };
    plan.recovery_required || plan.previous_cursor < barrier
}

/// The worker id that status and recovery queries name: none has id zero.
pub fn query_worker_id(plan: &OwnerRecoveryPlan) -> (worker_id: u64)
    ensures
        worker_id == match plan.attachment {
            Some(attachment) => attachment.worker.worker_id,
            None => 0,
        },
{
    match plan.attachment {
        Some(attachment) => attachment.worker.worker_id,
        None => 0,
    }
}

pub open spec fn clears_before_recovery(plan: OwnerRecoveryPlan) -> Seq<StateClear> {
    (if plan.recovery_required && plan.previous_publisher_id != Some(plan.source.publisher_id) {
        seq![StateClear::CacheOwner { owner: plan.owner, event_id: 0 }]
    } else {
        Seq::empty()
    }) + worker_clear(plan.recognized_worker, plan.owner)
}

/// What goes before recovered state is applied: all of the owner's when its publisher is new,
/// and its worker's in any case.
pub fn pre_recovery_clears(plan: &OwnerRecoveryPlan) -> (clears: Vec<StateClear>)
    ensures
        clears@ == clears_before_recovery(*plan),
{
    let mut clears: Vec<StateClear> = Vec::new();
    if plan.recovery_required && plan.previous_publisher_id != Some(plan.source.publisher_id) {
        clears.push(StateClear::CacheOwner { owner: plan.owner, event_id: 0 });
    }
    if let Some(worker) = plan.recognized_worker {
        clears.push(StateClear::Worker { worker, owner: plan.owner });
    }
    proof {
        assert(clears@ =~= clears_before_recovery(*plan));
    }
    clears
}

pub open spec fn all_attributed(
    events: Seq<RouterEvent>,
    owner: CacheOwnerId,
    worker: Option<WorkerWithDpRank>,
) -> bool {
    forall|i: int| 0 <= i < events.len() ==> is_attributed(#[trigger] events[i], owner, worker)
}

/// Every event must belong to the owner or to its worker.
pub fn validate_recovery_events(
    events: &Vec<RouterEvent>,
    owner: CacheOwnerId,
    worker: Option<WorkerWithDpRank>,
) -> (ok: bool)
    ensures
        ok == all_attributed(events@, owner, worker),
{
    let mut i: usize = 0;
    while i < events.len()
        invariant
            i <= events.len(),
            forall|j: int| 0 <= j < i ==> is_attributed(#[trigger] events@[j], owner, worker),
        decreases events.len() - i,
    {
        if !event_is_attributed(&events[i], owner, worker) {
            return false;
        }
        i = i + 1;
    }
    true
}

/// The clears that a snapshot's scope asks for.
pub open spec fn scope_clears(
    scope: ResetScope,
    owner: CacheOwnerId,
    worker: Option<WorkerWithDpRank>,
    last_event_id: u64,
) -> Seq<StateClear> {
    match scope {
        ResetScope::All => worker_clear(worker, owner).push(
            StateClear::CacheOwner { owner, event_id: last_event_id },
        ),
        ResetScope::Domain(ResidencyDomain::CacheOwner) => seq![
            StateClear::CacheOwner { owner, event_id: last_event_id },
        ],
        ResetScope::Domain(ResidencyDomain::Worker) => worker_clear(worker, owner),
    }
}

/// What an answer comes to.
pub open spec fn is_application_of(
    result: Result<RecoveryApplication, StateRecoveryError>,
    plan: OwnerRecoveryPlan,
    response: StateAgentResponse,
) -> bool {
    match response {
        StateAgentResponse::Unexpected => result == Err::<RecoveryApplication, _>(
            StateRecoveryError::UnexpectedResponse,
        ),
        StateAgentResponse::StateAgentRecovery { response, receipt } => if receipt.identity
            != plan.expected || receipt.attachment_generation != generation_of(plan.attachment) {
            result == Err::<RecoveryApplication, _>(StateRecoveryError::ReceiptMismatch)
        } else {
            match response {
                WorkerKvQueryResponse::TreeDump { events, last_event_id, reset_scope } =>
                if all_attributed(events@, plan.owner, plan.recognized_worker) {
                    &&& result is Ok
                    &&& result->Ok_0.clears@ == scope_clears(
                        reset_scope,
                        plan.owner,
                        plan.recognized_worker,
                        last_event_id,
                    )
                    &&& result->Ok_0.events == events
                    &&& result->Ok_0.recovered_cursor == spec_max(
                        receipt.recovered_through_cursor,
                        last_event_id,
                    )
                } else {
                    result == Err::<RecoveryApplication, _>(StateRecoveryError::ForeignOwnership)
                },
                WorkerKvQueryResponse::Events { events, last_event_id } => if all_attributed(
                    events@,
                    plan.owner,
                    plan.recognized_worker,
                ) {
                    &&& result is Ok
                    &&& result->Ok_0.clears@.len() == 0
                    &&& result->Ok_0.events == events
                    &&& result->Ok_0.recovered_cursor == spec_max(
                        receipt.recovered_through_cursor,
                        last_event_id,
                    )
                } else {
                    result == Err::<RecoveryApplication, _>(StateRecoveryError::ForeignOwnership)
                },
                WorkerKvQueryResponse::TreeDumpFailed { message, .. } => result == Err::<
                    RecoveryApplication,
                    _,
                >(StateRecoveryError::SnapshotFailed(message)),
                WorkerKvQueryResponse::Error { message } => result == Err::<
                    RecoveryApplication,
                    _,
                >(StateRecoveryError::Failed(message)),
                WorkerKvQueryResponse::NoState => result == Err::<RecoveryApplication, _>(
                    StateRecoveryError::NoState,
                ),
            }
        },
    }
}

/// Check an answer against the plan that asked for it, before anything is applied.
pub fn check_recovery_response(plan: &OwnerRecoveryPlan, response: StateAgentResponse) -> (result:
    Result<RecoveryApplication, StateRecoveryError>)
    ensures
        is_application_of(result, *plan, response),
{
    match response {
        StateAgentResponse::Unexpected => Err(StateRecoveryError::UnexpectedResponse),
        StateAgentResponse::StateAgentRecovery { response, receipt } => {
            let generation: Option<u64> = attachment_generation_of(&plan.attachment);
            if receipt.identity != plan.expected || receipt.attachment_generation != generation {
                return Err(StateRecoveryError::ReceiptMismatch);
            }
            let through: u64 = receipt.recovered_through_cursor;
            let owner = plan.owner;
            let worker = plan.recognized_worker;
            match response {
                WorkerKvQueryResponse::TreeDump { events, last_event_id, reset_scope } => {
                    if !validate_recovery_events(&events, owner, worker) {
                        return Err(StateRecoveryError::ForeignOwnership);
                    }
                    let mut clears: Vec<StateClear> = Vec::new();
                    let of_worker: bool = match reset_scope {
                        ResetScope::Domain(ResidencyDomain::CacheOwner) => false,
                        _ => true,
                    };
                    let of_owner: bool = match reset_scope {
                        ResetScope::Domain(ResidencyDomain::Worker) => false,
                        _ => true,
                    };
                    if of_worker {
                        if let Some(worker) = worker {
                            clears.push(StateClear::Worker { worker, owner });
                        }
                    }
                    if of_owner {
                        clears.push(StateClear::CacheOwner { owner, event_id: last_event_id });
                    }
                    proof {
                        assert(clears@ =~= scope_clears(
                            reset_scope,
                            owner,
                            worker,
                            last_event_id,
                        ));
                    }
                    Ok(
                        RecoveryApplication {
                            clears,
                            events,
                            recovered_cursor: max_u64(through, last_event_id),
                        },
                    )
                },
                WorkerKvQueryResponse::Events { events, last_event_id } => {
                    if !validate_recovery_events(&events, owner, worker) {
                        return Err(StateRecoveryError::ForeignOwnership);
                    }
                    Ok(
                        RecoveryApplication {
                            clears: Vec::new(),
                            events,
                            recovered_cursor: max_u64(through, last_event_id),
                        },
                    )
                },
                WorkerKvQueryResponse::TreeDumpFailed { message, .. } => Err(
                    StateRecoveryError::SnapshotFailed(message),
                ),
                WorkerKvQueryResponse::Error { message } => Err(
                    StateRecoveryError::Failed(message),
                ),
                WorkerKvQueryResponse::NoState => Err(StateRecoveryError::NoState),
            }
        },
    }
}

/// Whether a recovery still belongs to what is observed and advertised now.
pub open spec fn is_current_recovery(
    agent: StateAgent,
    plan: OwnerRecoveryPlan,
    live: LiveRanks,
    observation_revision: u64,
) -> bool {
    &&& observation_revision == plan.observation_revision
    &&& lookup(agent.sources@, plan.source.publisher_id) == Some(plan.source)
    &&& plan.recognized_worker is Some ==> live.dom().contains(plan.recognized_worker->0)
    &&& plan.attachment is Some ==> lookup(agent.attachments@, plan.attachment->0.record_id)
        == plan.attachment
    &&& agent.recovery_tails@.dom().contains(plan.owner)
    &&& agent.recovery_tails@[plan.owner].schedule_generation == plan.schedule_generation
}

/// The state of an owner that is created when its recovery finds none.
pub open spec fn recovered_runtime(plan: OwnerRecoveryPlan) -> OwnerRuntime {
    OwnerRuntime {
        publisher_id: Some(plan.source.publisher_id),
        recovered_cursor: 0,
        attachment_generation: generation_of(plan.attachment),
        last_worker: plan.recognized_worker,
        ready: false,
        attached_worker: match plan.attachment {
            Some(attachment) => Some(attachment.worker),
            None => None,
        },
        router_hint_source: plan.source.router_hint_source,
        hint_ready: false,
        recovery_required: false,
    }
}

/// The status confirms the attachment that the plan was made for.
pub open spec fn confirms_attachment(
    status: KvStateAgentStatus,
    attachment: KvStateAttachmentAdvertisement,
) -> bool {
    &&& status.attachment is Some
    &&& status.attachment->0.ready
    &&& status.attachment->0.generation == attachment.attachment_generation
    &&& status.attachment->0.worker == attachment.worker
    &&& status.attachment->0.ready_at_outbound_cursor == attachment.ready_at_outbound_cursor
}

/// The owner's blocks may count for its worker.
pub open spec fn is_ready(
    plan: OwnerRecoveryPlan,
    status: KvStateAgentStatus,
    recovered_cursor: u64,
    live: LiveRanks,
) -> bool {
    &&& plan.attachment is Some
    &&& live.dom().contains(plan.attachment->0.worker)
    &&& status.cache_owner_ready
    &&& status.identity == plan.expected
    &&& confirms_attachment(status, plan.attachment->0)
    &&& recovered_cursor >= plan.attachment->0.ready_at_outbound_cursor
}

/// The owner may be hinted at, attached or not.
pub open spec fn is_hint_ready(
    plan: OwnerRecoveryPlan,
    status: KvStateAgentStatus,
    recovered_cursor: u64,
) -> bool {
    &&& status.identity == plan.expected
    &&& status.cache_owner_ready
    &&& recovered_cursor >= status.outbound_cursor
    &&& plan.source.router_hint_source is Some
}

/// The state of an owner whose recovery has finished.
pub open spec fn finished_runtime(
    plan: OwnerRecoveryPlan,
    status: KvStateAgentStatus,
    recovered_cursor: u64,
    live: LiveRanks,
) -> OwnerRuntime {
    OwnerRuntime {
        publisher_id: Some(plan.source.publisher_id),
        recovered_cursor,
        attachment_generation: generation_of(plan.attachment),
        last_worker: plan.recognized_worker,
        ready: is_ready(plan, status, recovered_cursor, live),
        attached_worker: if_live(
            match plan.attachment {
                Some(attachment) => Some(attachment.worker),
                None => None,
            },
            live,
        ),
        router_hint_source: plan.source.router_hint_source,
        hint_ready: is_hint_ready(plan, status, recovered_cursor),
        recovery_required: false,
    }
}

/// The recovery of an owner is over: the owner is in this state, and nothing is held back for it
/// any more.
pub open spec fn is_closed_recovery(
    after: StateAgent,
    before: StateAgent,
    owner: CacheOwnerId,
    publisher_id: u64,
    state: OwnerRuntime,
) -> bool {
    &&& after.sources == before.sources
    &&& after.attachments == before.attachments
    &&& after.runtime@ == before.runtime@.insert(owner, state)
    &&& after.recovery_tails@ == before.recovery_tails@.remove(owner)
    &&& after.recovering_publishers@ == before.recovering_publishers@.remove(publisher_id)
}

/// Withdrawn, and to be recovered anew.
pub open spec fn failed_runtime(state: OwnerRuntime) -> OwnerRuntime {
    OwnerRuntime { recovery_required: true, ..state.withdrawn() }
}

/// The agent after the recovery of an owner failed.
pub open spec fn is_failed_recovery(
    after: StateAgent,
    before: StateAgent,
    owner: CacheOwnerId,
    publisher_id: u64,
) -> bool {
    if before.runtime@.dom().contains(owner) {
        is_closed_recovery(
            after,
            before,
            owner,
            publisher_id,
            failed_runtime(before.runtime@[owner]),
        )
    } else {
        &&& after.sources == before.sources
        &&& after.attachments == before.attachments
        &&& after.runtime@ == before.runtime@
        &&& after.recovery_tails@ == before.recovery_tails@.remove(owner)
        &&& after.recovering_publishers@ == before.recovering_publishers@.remove(publisher_id)
    }
}

/// The owner stands at a recovered prefix, and `events` is what was held back above it.
pub open spec fn takes_tail(
    after: StateAgent,
    before: StateAgent,
    plan: OwnerRecoveryPlan,
    recovered_cursor: u64,
    events: Seq<RouterEvent>,
) -> bool {
    &&& after.sources == before.sources
    &&& after.attachments == before.attachments
    &&& after.recovering_publishers == before.recovering_publishers
    &&& after.runtime@ == before.runtime@.insert(
        plan.owner,
        OwnerRuntime {
            recovered_cursor,
            recovery_required: false,
            ..match lookup(before.runtime@, plan.owner) {
                Some(state) => state,
                None => recovered_runtime(plan),
            }
        },
    )
    &&& if before.recovery_tails@.dom().contains(plan.owner) {
        let held = before.recovery_tails@[plan.owner];
        let left = after.recovery_tails@[plan.owner];
        &&& after.recovery_tails@ == before.recovery_tails@.insert(plan.owner, left)
        &&& left.publisher_id == held.publisher_id
        &&& left.attachment_generation == held.attachment_generation
        &&& left.schedule_generation == held.schedule_generation
        &&& if tail_fits_plan(held, plan) {
            &&& is_ordered_suffix(events, held.rank@.pending, recovered_cursor)
            &&& left.rank@ == RankView::fresh(false).tail_committed(
                Some(last_id_or(events, recovered_cursor)),
            )
        } else {
            events.len() == 0 && left.rank@ == held.rank@
        }
    } else {
        after.recovery_tails@ == before.recovery_tails@ && events.len() == 0
    }
}

/// Hold back a run of events, one after the other.
pub open spec fn buffered_all(rank: RankView, events: Seq<RouterEvent>) -> RankView
    decreases events.len(),
{
    if events.len() == 0 {
        rank
    } else {
        buffered_all(rank, events.drop_last()).recovering().buffer(events.last())
    }
}

/// The recovering owner that a publisher's events are held back for.
pub open spec fn holds_back(agent: StateAgent, publisher_id: u64) -> Option<CacheOwnerId> {
    match lookup(agent.recovering_publishers@, publisher_id) {
        Some(owner) => if agent.recovery_tails@.dom().contains(owner)
            && agent.recovery_tails@[owner].publisher_id == publisher_id {
            Some(owner)
        } else {
            None
        },
        None => None,
    }
}

impl StateAgent {
    /// Whether the result of a recovery may still be applied.
    pub fn owner_recovery_is_current(
        &self,
        plan: &OwnerRecoveryPlan,
        live: &Table<WorkerWithDpRank, KvSourceStatus>,
        observation_revision: u64,
    ) -> (current: bool)
        ensures
            current == is_current_recovery(*self, *plan, live@, observation_revision),
    {
        if observation_revision != plan.observation_revision {
            return false;
        }
        match self.sources.get(&plan.source.publisher_id) {
            Some(source) => if *source != plan.source {
                return false;
            },
            None => return false,
        }
        if let Some(worker) = plan.recognized_worker {
            if !live.contains_key(&worker) {
                return false;
            }
        }
        if let Some(attachment) = plan.attachment {
            match self.attachments.get(&attachment.record_id) {
                Some(current) => if *current != attachment {
                    return false;
                },
                None => return false,
            }
        }
        match self.recovery_tails.get(&plan.owner) {
            Some(tail) => tail.schedule_generation == plan.schedule_generation,
            None => false,
        }
    }

    /// A recovery failed: the owner is withdrawn and must be recovered anew.
    pub fn fail_owner_recovery(&mut self, owner: CacheOwnerId, publisher_id: u64)
        ensures
            is_failed_recovery(*final(self), *old(self), owner, publisher_id),
    {
        if let Some(state) = self.runtime.get(&owner) {
            let mut state: OwnerRuntime = *state;
            state.withdraw();
            state.recovery_required = true;
            self.runtime.insert(owner, state);
        }
        let _ = self.recovery_tails.remove(&owner);
        let _ = self.recovering_publishers.remove(&publisher_id);
    }

    /// The recovered prefix is in: move the owner to it and take what was held back above it.
    ///
    /// The events go through [`StateAgent::begin_owner_event`] next.
    pub fn take_recovery_tail(&mut self, plan: &OwnerRecoveryPlan, recovered_cursor: u64) -> (events:
        Vec<RouterEvent>)
        ensures
            takes_tail(*final(self), *old(self), *plan, recovered_cursor, events@),
    {
        let mut events: Vec<RouterEvent> = Vec::new();
        let generation: Option<u64> = attachment_generation_of(&plan.attachment);
        if let Some(mut tail) = self.recovery_tails.remove(&plan.owner) {
            if tail.publisher_id == plan.source.publisher_id && tail.attachment_generation
                == generation {
                events = tail.rank.drain_advisory_tail_after(recovered_cursor);
            }
            self.recovery_tails.insert(plan.owner, tail);
        }
        proof {
            let tails = old(self).recovery_tails@;
            if tails.dom().contains(plan.owner) {
                assert(self.recovery_tails@ =~= tails.insert(
                    plan.owner,
                    self.recovery_tails@[plan.owner],
                ));
            } else {
                assert(self.recovery_tails@ =~= tails);
            }
        }
        let mut state: OwnerRuntime = match self.runtime.get(&plan.owner) {
            Some(state) => *state,
            None => OwnerRuntime {
                publisher_id: Some(plan.source.publisher_id),
                recovered_cursor,
                attachment_generation: generation,
                last_worker: plan.recognized_worker,
                ready: false,
                attached_worker: match plan.attachment {
                    Some(attachment) => Some(attachment.worker),
                    None => None,
                },
                router_hint_source: plan.source.router_hint_source,
                hint_ready: false,
                recovery_required: false,
            },
        };
        state.recovered_cursor = recovered_cursor;
        state.recovery_required = false;
        self.runtime.insert(plan.owner, state);
        events
    }

    /// Decide on the next event of an owner; nothing is taken for an owner without a state.
    pub fn begin_owner_event(&mut self, owner: CacheOwnerId, event: &RouterEvent) -> (step:
        StateEventStep)
        ensures
            final(self).sources == old(self).sources,
            final(self).attachments == old(self).attachments,
            final(self).recovery_tails == old(self).recovery_tails,
            final(self).recovering_publishers == old(self).recovering_publishers,
            if old(self).runtime@.dom().contains(owner) {
                let (after, expected) = old(self).runtime@[owner].on_event(owner, *event);
                step == expected && final(self).runtime@ == old(self).runtime@.insert(owner, after)
            } else {
                step == StateEventStep::Stop && final(self).runtime@ == old(self).runtime@
            },
    {
        match self.runtime.get(&owner) {
            Some(state) => {
                let mut state: OwnerRuntime = *state;
                let step = state.begin_event(owner, event);
                self.runtime.insert(owner, state);
                step
            },
            None => StateEventStep::Stop,
        }
    }

    /// Take the outcome of applying an event of an owner.
    pub fn finish_owner_event(
        &mut self,
        owner: CacheOwnerId,
        event_id: u64,
        is_clear: bool,
        applied: bool,
    )
        ensures
            final(self).sources == old(self).sources,
            final(self).attachments == old(self).attachments,
            final(self).recovery_tails == old(self).recovery_tails,
            final(self).recovering_publishers == old(self).recovering_publishers,
            final(self).runtime@ == if old(self).runtime@.dom().contains(owner) {
                old(self).runtime@.insert(
                    owner,
                    old(self).runtime@[owner].on_applied(event_id, is_clear, applied),
                )
            } else {
                old(self).runtime@
            },
    {
        if let Some(state) = self.runtime.get(&owner) {
            let mut state: OwnerRuntime = *state;
            state.finish_event(event_id, is_clear, applied);
            self.runtime.insert(owner, state);
        }
    }

    /// How far an owner got after its tail was applied; `None` when the tail was rejected.
    pub fn tail_outcome(&self, owner: CacheOwnerId) -> (cursor: Option<u64>)
        ensures
            cursor == match lookup(self.runtime@, owner) {
                Some(state) => if state.recovery_required {
                    None
                } else {
                    Some(state.recovered_cursor)
                },
                None => None,
            },
    {
        match self.runtime.get(&owner) {
            Some(state) => if state.recovery_required {
                None
            } else {
                Some(state.recovered_cursor)
            },
            None => None,
        }
    }

    /// A recovery is complete: decide what the owner may be used for.
    pub fn finish_owner_readiness(
        &mut self,
        plan: &OwnerRecoveryPlan,
        status: &KvStateAgentStatus,
        recovered_cursor: u64,
        live: &Table<WorkerWithDpRank, KvSourceStatus>,
    )
        ensures
            is_closed_recovery(
                *final(self),
                *old(self),
                plan.owner,
                plan.source.publisher_id,
                finished_runtime(*plan, *status, recovered_cursor, live@),
            ),
    {
        let identity_matches: bool = status.identity == plan.expected;
        let hint_ready: bool = identity_matches && status.cache_owner_ready && recovered_cursor
            >= status.outbound_cursor && plan.source.router_hint_source.is_some();
        let mut ready: bool = false;
        let mut attached_worker: Option<WorkerWithDpRank> = None;
        if let Some(attachment) = plan.attachment {
            if live.contains_key(&attachment.worker) {
                attached_worker = Some(attachment.worker);
                if let Some(confirmed) = status.attachment {
                    ready = status.cache_owner_ready && identity_matches && confirmed.ready
                        && confirmed.generation == attachment.attachment_generation
                        && confirmed.worker == attachment.worker
                        && confirmed.ready_at_outbound_cursor
                        == attachment.ready_at_outbound_cursor && recovered_cursor
                        >= attachment.ready_at_outbound_cursor;
                }
            }
        }
        self.runtime.insert(
            plan.owner,
            OwnerRuntime {
                publisher_id: Some(plan.source.publisher_id),
                recovered_cursor,
                attachment_generation: attachment_generation_of(&plan.attachment),
                last_worker: plan.recognized_worker,
                ready,
                attached_worker,
                router_hint_source: plan.source.router_hint_source,
                hint_ready,
                recovery_required: false,
            },
        );
        let _ = self.recovery_tails.remove(&plan.owner);
        let _ = self.recovering_publishers.remove(&plan.source.publisher_id);
    }

    /// An owner that this publisher feeds.
    pub fn owner_of_publisher(&self, publisher_id: u64) -> (found: Option<CacheOwnerId>)
        ensures
            match found {
                Some(owner) => self.runtime@.dom().contains(owner)
                    && self.runtime@[owner].publisher_id == Some(publisher_id),
                None => forall|owner: CacheOwnerId|
                    #![trigger self.runtime@.dom().contains(owner)]
                    self.runtime@.dom().contains(owner) ==> self.runtime@[owner].publisher_id
                        != Some(publisher_id),
            },
    {
        let len: usize = self.runtime.len();
        let ghost listing = self.runtime.listing();
        let mut i: usize = 0;
        while i < len
            invariant
                i <= len,
                len == listing.len(),
                listing == self.runtime.listing(),
                forall|j: int|
                    0 <= j < len ==> self.runtime@.dom().contains((#[trigger] listing[j]).0)
                        && self.runtime@[listing[j].0] == listing[j].1,
                forall|j: int|
                    0 <= j < i ==> (#[trigger] listing[j]).1.publisher_id != Some(publisher_id),
            decreases len - i,
        {
            if self.runtime.value_at(i).publisher_id == Some(publisher_id) {
                proof {
                    assert(self.runtime@.dom().contains(listing[i as int].0));
                }
                return Some(self.runtime.key_at(i));
            }
            i = i + 1;
        }
        proof {
            assert forall|owner: CacheOwnerId| #[trigger]
                self.runtime@.dom().contains(owner) implies self.runtime@[owner].publisher_id
                != Some(publisher_id) by {
                assert(has_entry(listing, owner));
                let j = choose|j: int| 0 <= j < listing.len() && (#[trigger] listing[j]).0 == owner;
                assert(listing[j].1.publisher_id != Some(publisher_id));
            }
        }
        None
    }

    /// Hold a batch back while its publisher is being recovered; otherwise hand it on.
    pub fn route_events(&mut self, publisher_id: u64, events: Vec<RouterEvent>) -> (passed: Option<
        Vec<RouterEvent>,
    >)
        ensures
            final(self).sources == old(self).sources,
            final(self).attachments == old(self).attachments,
            final(self).runtime == old(self).runtime,
            final(self).recovering_publishers == old(self).recovering_publishers,
            match holds_back(*old(self), publisher_id) {
                Some(owner) => {
                    let before = old(self).recovery_tails@[owner];
                    let after = final(self).recovery_tails@[owner];
                    &&& passed is None
                    &&& final(self).recovery_tails@.dom() == old(self).recovery_tails@.dom()
                    &&& final(self).recovery_tails@ == old(self).recovery_tails@.insert(
                        owner,
                        after,
                    )
                    &&& after.publisher_id == before.publisher_id
                    &&& after.attachment_generation == before.attachment_generation
                    &&& after.schedule_generation == before.schedule_generation
                    &&& after.rank@ == buffered_all(before.rank@, events@)
                },
                None => {
                    &&& passed == Some(events)
                    &&& final(self).recovery_tails@ == old(self).recovery_tails@
                },
            },
    {
        let owner: CacheOwnerId = match self.recovering_publishers.get(&publisher_id) {
            Some(owner) => *owner,
            None => return Some(events),
        };
        match self.recovery_tails.remove(&owner) {
            Some(tail) => {
                if tail.publisher_id != publisher_id {
                    self.recovery_tails.insert(owner, tail);
                    proof {
                        assert(self.recovery_tails@ =~= old(self).recovery_tails@);
                    }
                    return Some(events);
                }
                let mut tail = tail;
                buffer_all(&mut tail, events);
                self.recovery_tails.insert(owner, tail);
                proof {
                    assert(self.recovery_tails@.dom() =~= old(self).recovery_tails@.dom());
                    assert(self.recovery_tails@ =~= old(self).recovery_tails@.insert(
                        owner,
                        self.recovery_tails@[owner],
                    ));
                }
                None
            },
            None => {
                proof {
                    assert(self.recovery_tails@ =~= old(self).recovery_tails@);
                }
                Some(events)
            },
        }
    }
}

fn buffer_all(tail: &mut OwnerRecoveryTail, events: Vec<RouterEvent>)
    ensures
        final(tail).publisher_id == old(tail).publisher_id,
        final(tail).attachment_generation == old(tail).attachment_generation,
        final(tail).schedule_generation == old(tail).schedule_generation,
        final(tail).rank@ == buffered_all(old(tail).rank@, events@),
{
    let ghost all = events@;
    let ghost mut done: int = 0;
    let mut rest: std::collections::VecDeque<RouterEvent> = into_queue(events);
    while rest.len() > 0
        invariant
            0 <= done <= all.len(),
            rest@ == all.subrange(done, all.len() as int),
            tail.publisher_id == old(tail).publisher_id,
            tail.attachment_generation == old(tail).attachment_generation,
            tail.schedule_generation == old(tail).schedule_generation,
            tail.rank@ == buffered_all(old(tail).rank@, all.subrange(0, done)),
        decreases rest.len(),
    {
        if let Some(event) = rest.pop_front() {
            proof {
                let next = all.subrange(0, done + 1);
                assert(next.drop_last() =~= all.subrange(0, done));
                assert(next.last() == event);
                assert(rest@ =~= all.subrange(done + 1, all.len() as int));
            }
            tail.rank.buffer_recovery_tail(event);
            proof {
                done = done + 1;
            }
        }
    }
    proof {
        assert(all.subrange(0, done) =~= all);
    }
}

/// A ready owner has caught up with the barrier of its attachment, on a live rank, and its
/// agent vouches for exactly this incarnation.
pub proof fn law_readiness_implies_caught_up(
    plan: OwnerRecoveryPlan,
    status: KvStateAgentStatus,
    recovered_cursor: u64,
    live: LiveRanks,
)
    requires
        finished_runtime(plan, status, recovered_cursor, live).ready,
    ensures
        plan.attachment is Some,
        recovered_cursor >= plan.attachment->0.ready_at_outbound_cursor,
        live.dom().contains(plan.attachment->0.worker),
        status.identity == plan.expected,
        finished_runtime(plan, status, recovered_cursor, live).attached_worker == Some(
            plan.attachment->0.worker,
        ),
{
}

/// An answer for another incarnation, or with another's events, leads to no application.
pub proof fn law_foreign_state_is_not_applied(
    result: Result<RecoveryApplication, StateRecoveryError>,
    plan: OwnerRecoveryPlan,
    response: WorkerKvQueryResponse,
    receipt: KvStateRecoveryReceipt,
)
    requires
        is_application_of(
            result,
            plan,
            StateAgentResponse::StateAgentRecovery { response, receipt },
        ),
        result is Ok,
    ensures
        receipt.identity == plan.expected,
        receipt.attachment_generation == generation_of(plan.attachment),
        all_attributed(result->Ok_0.events@, plan.owner, plan.recognized_worker),
        result->Ok_0.recovered_cursor >= receipt.recovered_through_cursor,
{
}

/// A recovery that failed leaves its owner unused, and in want of another.
pub proof fn law_failed_recovery_withdraws_owner(
    after: StateAgent,
    before: StateAgent,
    owner: CacheOwnerId,
    publisher_id: u64,
    worker: WorkerWithDpRank,
    metadata: u64,
    attached: Option<WorkerWithDpRank>,
)
    requires
        is_failed_recovery(after, before, owner, publisher_id),
    ensures
        !projects(after.runtime@, owner, worker),
        !hints_at(after.runtime@, owner, metadata, attached),
        after.runtime@.dom().contains(owner) ==> after.runtime@[owner].recovery_required,
        holds_back(after, publisher_id) is None,
        forall|other: CacheOwnerId|
            other != owner && #[trigger] before.runtime@.dom().contains(other)
                ==> after.runtime@[other] == before.runtime@[other],
{
}

/// A recovery is stale as soon as anything new was observed.
pub proof fn law_observation_makes_recovery_stale(
    agent: StateAgent,
    plan: OwnerRecoveryPlan,
    live: LiveRanks,
    observation_revision: u64,
)
    requires
        observation_revision != plan.observation_revision,
    ensures
        !is_current_recovery(agent, plan, live, observation_revision),
{
}

/// An owner is ready after its recovery exactly if its plan has an attachment on a live rank, its
/// agent says that the cache owner is ready, under the identity that was asked for, the agent has
/// a ready attachment of the same generation, worker and barrier, and the recovered state has
/// reached that barrier.
pub proof fn law_owner_is_ready_only_when_all_agree(
    agent: &mut StateAgent,
    plan: &OwnerRecoveryPlan,
    status: &KvStateAgentStatus,
    recovered_cursor: u64,
    live: &Table<WorkerWithDpRank, KvSourceStatus>,
    attachment: KvStateAttachmentAdvertisement,
    confirmed: KvStateAttachmentStatus,
)
    requires
        call_ensures(
            StateAgent::finish_owner_readiness,
            (agent, plan, status, recovered_cursor, live),
            (),
        ),
    ensures
        final(agent).runtime@.dom().contains(plan.owner),
        final(agent).runtime@[plan.owner].ready ==> {
            &&& status.cache_owner_ready
            &&& status.identity.cache_owner_id == plan.expected.cache_owner_id
            &&& status.identity.publisher_id == plan.expected.publisher_id
            &&& status.identity.protocol_version == plan.expected.protocol_version
            &&& plan.attachment is Some
            &&& status.attachment is Some
        },
        plan.attachment == Some(attachment) && status.attachment == Some(confirmed) ==> (
        final(agent).runtime@[plan.owner].ready <==> {
            &&& status.cache_owner_ready
            &&& status.identity == plan.expected
            &&& live@.dom().contains(attachment.worker)
            &&& confirmed.ready
            &&& confirmed.generation == attachment.attachment_generation
            &&& confirmed.worker == attachment.worker
            &&& confirmed.ready_at_outbound_cursor == attachment.ready_at_outbound_cursor
            &&& attachment.ready_at_outbound_cursor <= recovered_cursor
        }),
{
}

/// An owner that is not ready after its recovery adds no rank to the projection: none of its
/// blocks counts for a worker unless its agent says that the cache owner is ready.
pub proof fn law_unready_owner_is_not_projected(
    agent: &mut StateAgent,
    plan: &OwnerRecoveryPlan,
    status: &KvStateAgentStatus,
    recovered_cursor: u64,
    live: &Table<WorkerWithDpRank, KvSourceStatus>,
    routed: &StateAgent,
    routing: ResidencyRouting,
    worker: WorkerWithDpRank,
    metadata: u64,
    attached: Option<WorkerWithDpRank>,
)
    requires
        call_ensures(
            StateAgent::finish_owner_readiness,
            (agent, plan, status, recovered_cursor, live),
            (),
        ),
        *routed == *final(agent),
        call_ensures(StateAgent::residency_routing, (routed,), routing),
        !status.cache_owner_ready || status.identity != plan.expected,
    ensures
        !routing.projection@.contains((plan.owner, worker)),
        !routing.hint_sources@.contains((plan.owner, metadata, attached)),
{
}

/// An owner may be hinted at after its recovery exactly if its agent vouches for it under the
/// identity that was asked for, the recovered state has reached all that the agent has sent, and
/// its source gives metadata for hints; whether a worker is attached does not matter.
pub proof fn law_owner_is_hinted_at_when_caught_up(
    agent: &mut StateAgent,
    plan: &OwnerRecoveryPlan,
    status: &KvStateAgentStatus,
    recovered_cursor: u64,
    live: &Table<WorkerWithDpRank, KvSourceStatus>,
)
    requires
        call_ensures(
            StateAgent::finish_owner_readiness,
            (agent, plan, status, recovered_cursor, live),
            (),
        ),
    ensures
        final(agent).runtime@[plan.owner].hint_ready <==> {
            &&& status.cache_owner_ready
            &&& status.identity == plan.expected
            &&& status.outbound_cursor <= recovered_cursor
            &&& plan.source.router_hint_source is Some
        },
        final(agent).runtime@[plan.owner].router_hint_source == plan.source.router_hint_source,
{
}

/// A finished recovery leaves its owner at the recovered cursor, fed by the plan's source and
/// attachment, on the plan's worker, and in no want of another recovery; nothing is held back for
/// it any more, and the other owners stay as they were.
pub proof fn law_finished_recovery_settles_the_owner(
    agent: &mut StateAgent,
    plan: &OwnerRecoveryPlan,
    status: &KvStateAgentStatus,
    recovered_cursor: u64,
    live: &Table<WorkerWithDpRank, KvSourceStatus>,
    other: CacheOwnerId,
    other_publisher: u64,
)
    requires
        call_ensures(
            StateAgent::finish_owner_readiness,
            (agent, plan, status, recovered_cursor, live),
            (),
        ),
    ensures
        ({
            let state = final(agent).runtime@[plan.owner];
            &&& state.publisher_id == Some(plan.source.publisher_id)
            &&& state.recovered_cursor == recovered_cursor
            &&& state.last_worker == plan.recognized_worker
            &&& !state.recovery_required
            &&& plan.attachment is None ==> state.attachment_generation is None
                && state.attached_worker is None
            &&& plan.attachment is Some ==> {
                &&& state.attachment_generation == Some(plan.attachment->0.attachment_generation)
                &&& live@.dom().contains(plan.attachment->0.worker) ==> state.attached_worker
                    == Some(plan.attachment->0.worker)
                &&& !live@.dom().contains(plan.attachment->0.worker) ==> state.attached_worker
                    is None
            }
        }),
        !final(agent).recovery_tails@.dom().contains(plan.owner),
        !final(agent).recovering_publishers@.dom().contains(plan.source.publisher_id),
        final(agent).sources == old(agent).sources,
        final(agent).attachments == old(agent).attachments,
        other != plan.owner ==> {
            &&& lookup(final(agent).runtime@, other) == lookup(old(agent).runtime@, other)
            &&& final(agent).recovery_tails@.dom().contains(other)
                == old(agent).recovery_tails@.dom().contains(other)
            &&& final(agent).recovery_tails@.dom().contains(other)
                ==> final(agent).recovery_tails@[other] == old(agent).recovery_tails@[other]
        },
        other_publisher != plan.source.publisher_id ==> lookup(
            final(agent).recovering_publishers@,
            other_publisher,
        ) == lookup(old(agent).recovering_publishers@, other_publisher),
{
}

/// An owner is queried for its state unless nothing calls for a recovery and it stands at its
/// barrier: that of its attachment, or all that its agent has sent where there is none.
pub proof fn law_recovery_is_asked_for_below_the_barrier(
    plan: &OwnerRecoveryPlan,
    status: &KvStateAgentStatus,
    needed: bool,
)
    requires
        call_ensures(needs_recovery, (plan, status), needed),
    ensures
        plan.recovery_required ==> needed,
        plan.attachment is Some && !plan.recovery_required ==> needed == (plan.previous_cursor
            < plan.attachment->0.ready_at_outbound_cursor),
        plan.attachment is None && !plan.recovery_required ==> needed == (plan.previous_cursor
            < status.outbound_cursor),
{
}

/// Queries for an attached owner name the id of the attached worker; those for a detached one
/// name id zero.
pub proof fn law_queries_name_the_attached_worker(plan: &OwnerRecoveryPlan, worker_id: u64)
    requires
        call_ensures(query_worker_id, (plan,), worker_id),
    ensures
        plan.attachment is Some ==> worker_id == plan.attachment->0.worker.worker_id,
        plan.attachment is None ==> worker_id == 0,
{
}

/// Before recovered state goes in, the worker of the plan is cleared, and with it the whole owner
/// exactly if the recovery is required and the owner was not fed by this publisher before; where
/// both are cleared, the owner comes first.
pub proof fn law_recovery_clears_what_it_replaces(
    plan: &OwnerRecoveryPlan,
    clears: Vec<StateClear>,
    clear: StateClear,
)
    requires
        call_ensures(pre_recovery_clears, (plan,), clears),
    ensures
        clears@.contains(clear) ==> clear == (StateClear::CacheOwner {
            owner: plan.owner,
            event_id: 0,
        }) || (plan.recognized_worker is Some && clear == StateClear::Worker {
            worker: plan.recognized_worker->0,
            owner: plan.owner,
        }),
        clears@.contains(StateClear::CacheOwner { owner: plan.owner, event_id: 0 })
            <==> plan.recovery_required && plan.previous_publisher_id != Some(
            plan.source.publisher_id,
        ),
        plan.recognized_worker is Some ==> clears@.len() > 0 && clears@.last()
            == (StateClear::Worker { worker: plan.recognized_worker->0, owner: plan.owner }),
        clears@.len() <= 2,
        clears@.no_duplicates(),
{
    let owner = StateClear::CacheOwner { owner: plan.owner, event_id: 0 };
    if plan.recovery_required && plan.previous_publisher_id != Some(plan.source.publisher_id) {
        assert(clears@[0] == owner);
    }
}

/// A batch of recovered events is valid exactly if each of them belongs to the owner, by its
/// source, or to the owner's worker, by its rank: one event of no domain, of another source or of
/// another rank spoils the batch.
pub proof fn law_one_foreign_event_spoils_the_batch(
    events: &Vec<RouterEvent>,
    owner: CacheOwnerId,
    worker: Option<WorkerWithDpRank>,
    ok: bool,
    i: int,
)
    requires
        call_ensures(validate_recovery_events, (events, owner, worker), ok),
        0 <= i < events@.len(),
    ensures
        ok ==> {
            &&& events@[i].residency.domain == Some(ResidencyDomain::CacheOwner)
                ==> events@[i].state_source == Some(owner)
            &&& events@[i].residency.domain == Some(ResidencyDomain::Worker) ==> worker is Some
                && worker->0.worker_id == events@[i].worker_id && worker->0.dp_rank
                == events@[i].dp_rank
            &&& events@[i].residency.domain is Some
        },
        (forall|j: int|
            0 <= j < events@.len() ==> (#[trigger] events@[j]).residency.domain == Some(
                ResidencyDomain::CacheOwner,
            ) && events@[j].state_source == Some(owner)) ==> ok,
        (worker is Some && forall|j: int|
            0 <= j < events@.len() ==> (#[trigger] events@[j]).residency.domain == Some(
                ResidencyDomain::Worker,
            ) && events@[j].worker_id == worker->0.worker_id && events@[j].dp_rank
                == worker->0.dp_rank) ==> ok,
{
    assert(ok ==> is_attributed(events@[i], owner, worker));
}

/// An answer is applied exactly if it carries events or a snapshot, its receipt names the
/// incarnation that was asked for, and every event belongs to the owner or its worker. All the
/// events are applied, in their order, and the cursor is the higher of the two that came.
pub proof fn law_fitting_answer_is_applied_whole(
    plan: &OwnerRecoveryPlan,
    response: WorkerKvQueryResponse,
    receipt: KvStateRecoveryReceipt,
    result: Result<RecoveryApplication, StateRecoveryError>,
)
    requires
        call_ensures(
            check_recovery_response,
            (plan, StateAgentResponse::StateAgentRecovery { response, receipt }),
            result,
        ),
    ensures
        ({
            let named = receipt.identity == plan.expected && match plan.attachment {
                Some(attachment) => receipt.attachment_generation == Some(
                    attachment.attachment_generation,
                ),
                None => receipt.attachment_generation is None,
            };
            &&& !named ==> result == Err::<RecoveryApplication, _>(
                StateRecoveryError::ReceiptMismatch,
            )
            &&& named ==> match response {
                WorkerKvQueryResponse::Events { events, last_event_id } => {
                    &&& all_attributed(events@, plan.owner, plan.recognized_worker)
                        <==> result is Ok
                    &&& result is Err ==> result->Err_0 == StateRecoveryError::ForeignOwnership
                    &&& result is Ok ==> {
                        &&& result->Ok_0.events@ == events@
                        &&& result->Ok_0.clears@.len() == 0
                        &&& result->Ok_0.recovered_cursor >= last_event_id
                        &&& result->Ok_0.recovered_cursor >= receipt.recovered_through_cursor
                        &&& result->Ok_0.recovered_cursor == last_event_id
                            || result->Ok_0.recovered_cursor == receipt.recovered_through_cursor
                    }
                },
                WorkerKvQueryResponse::TreeDump { events, last_event_id, .. } => {
                    &&& all_attributed(events@, plan.owner, plan.recognized_worker)
                        <==> result is Ok
                    &&& result is Err ==> result->Err_0 == StateRecoveryError::ForeignOwnership
                    &&& result is Ok ==> {
                        &&& result->Ok_0.events@ == events@
                        &&& result->Ok_0.recovered_cursor >= last_event_id
                        &&& result->Ok_0.recovered_cursor >= receipt.recovered_through_cursor
                        &&& result->Ok_0.recovered_cursor == last_event_id
                            || result->Ok_0.recovered_cursor == receipt.recovered_through_cursor
                    }
                },
                WorkerKvQueryResponse::TreeDumpFailed { message, .. } => result is Err
                    && result->Err_0 == StateRecoveryError::SnapshotFailed(message),
                WorkerKvQueryResponse::Error { message } => result is Err && result->Err_0
                    == StateRecoveryError::Failed(message),
                WorkerKvQueryResponse::NoState => result is Err && result->Err_0
                    == StateRecoveryError::NoState,
            }
        }),
{
}

/// A snapshot clears what it covers and nothing else: the owner at the snapshot's last event
/// unless it covers the worker alone, and the worker unless it covers the owner alone.
pub proof fn law_snapshot_clears_its_scope(
    plan: &OwnerRecoveryPlan,
    events: Vec<RouterEvent>,
    last_event_id: u64,
    reset_scope: ResetScope,
    receipt: KvStateRecoveryReceipt,
    result: Result<RecoveryApplication, StateRecoveryError>,
    clear: StateClear,
)
    requires
        call_ensures(
            check_recovery_response,
            (
                plan,
                StateAgentResponse::StateAgentRecovery {
                    response: WorkerKvQueryResponse::TreeDump {
                        events,
                        last_event_id,
                        reset_scope,
                    },
                    receipt,
                },
            ),
            result,
        ),
        result is Ok,
    ensures
        result->Ok_0.clears@.contains(clear) ==> clear == (StateClear::CacheOwner {
            owner: plan.owner,
            event_id: last_event_id,
        }) || (plan.recognized_worker is Some && clear == StateClear::Worker {
            worker: plan.recognized_worker->0,
            owner: plan.owner,
        }),
        result->Ok_0.clears@.contains(
            StateClear::CacheOwner { owner: plan.owner, event_id: last_event_id },
        ) <==> reset_scope != ResetScope::Domain(ResidencyDomain::Worker),
        plan.recognized_worker is Some ==> (result->Ok_0.clears@.contains(
            StateClear::Worker { worker: plan.recognized_worker->0, owner: plan.owner },
        ) <==> reset_scope != ResetScope::Domain(ResidencyDomain::CacheOwner)),
        result->Ok_0.clears@.no_duplicates(),
{
    let clears = result->Ok_0.clears@;
    let owner = StateClear::CacheOwner { owner: plan.owner, event_id: last_event_id };
    if reset_scope != ResetScope::Domain(ResidencyDomain::Worker) {
        assert(clears.last() == owner);
    }
    if plan.recognized_worker is Some && reset_scope != ResetScope::Domain(
        ResidencyDomain::CacheOwner,
    ) {
        assert(clears[0] == StateClear::Worker {
            worker: plan.recognized_worker->0,
            owner: plan.owner,
        });
    }
}

/// The result of a recovery may be applied exactly while nothing new was observed, its source and
/// attachment are advertised as they were, its worker is live, and the schedule that started it
/// still holds back the owner's events.
pub proof fn law_recovery_is_applied_only_while_nothing_moved(
    agent: &StateAgent,
    plan: &OwnerRecoveryPlan,
    live: &Table<WorkerWithDpRank, KvSourceStatus>,
    observation_revision: u64,
    current: bool,
)
    requires
        call_ensures(
            StateAgent::owner_recovery_is_current,
            (agent, plan, live, observation_revision),
            current,
        ),
    ensures
        current <==> {
            &&& observation_revision == plan.observation_revision
            &&& agent.sources@.dom().contains(plan.source.publisher_id)
            &&& agent.sources@[plan.source.publisher_id] == plan.source
            &&& plan.recognized_worker is Some ==> live@.dom().contains(
                plan.recognized_worker->0,
            )
            &&& plan.attachment is Some ==> agent.attachments@.dom().contains(
                plan.attachment->0.record_id,
            ) && agent.attachments@[plan.attachment->0.record_id] == plan.attachment->0
            &&& agent.recovery_tails@.dom().contains(plan.owner)
            &&& agent.recovery_tails@[plan.owner].schedule_generation == plan.schedule_generation
        },
{
}

/// A failed recovery leaves its owner where it was, neither ready nor hinted at nor attached, in
/// want of another recovery and with nothing held back; other owners stay as they were.
pub proof fn law_failed_recovery_keeps_the_place(
    agent: &mut StateAgent,
    owner: CacheOwnerId,
    publisher_id: u64,
    other: CacheOwnerId,
    other_publisher: u64,
)
    requires
        call_ensures(StateAgent::fail_owner_recovery, (agent, owner, publisher_id), ()),
    ensures
        final(agent).runtime@.dom() == old(agent).runtime@.dom(),
        old(agent).runtime@.dom().contains(owner) ==> {
            let (before, after) = (old(agent).runtime@[owner], final(agent).runtime@[owner]);
            &&& !after.ready && !after.hint_ready
            &&& after.attached_worker is None
            &&& after.recovery_required
            &&& after.recovered_cursor == before.recovered_cursor
            &&& after.publisher_id == before.publisher_id
            &&& after.attachment_generation == before.attachment_generation
            &&& after.last_worker == before.last_worker
            &&& after.router_hint_source == before.router_hint_source
        },
        !final(agent).recovery_tails@.dom().contains(owner),
        !final(agent).recovering_publishers@.dom().contains(publisher_id),
        final(agent).sources == old(agent).sources,
        final(agent).attachments == old(agent).attachments,
        other != owner ==> {
            &&& lookup(final(agent).runtime@, other) == lookup(old(agent).runtime@, other)
            &&& lookup(final(agent).recovery_tails@, other) == lookup(
                old(agent).recovery_tails@,
                other,
            )
        },
        other_publisher != publisher_id ==> lookup(
            final(agent).recovering_publishers@,
            other_publisher,
        ) == lookup(old(agent).recovering_publishers@, other_publisher),
{
}

/// Once the recovered prefix is in, the owner stands at it, and what comes out is what was held
/// back above it for this publisher and attachment: every such event, in ascending order of ids,
/// and no other.
pub proof fn law_held_back_events_come_out_above_the_prefix(
    agent: &mut StateAgent,
    plan: &OwnerRecoveryPlan,
    recovered_cursor: u64,
    events: Vec<RouterEvent>,
    id: u64,
)
    requires
        call_ensures(StateAgent::take_recovery_tail, (agent, plan, recovered_cursor), events),
    ensures
        final(agent).runtime@.dom().contains(plan.owner),
        final(agent).runtime@[plan.owner].recovered_cursor == recovered_cursor,
        !final(agent).runtime@[plan.owner].recovery_required,
        old(agent).runtime@.dom().contains(plan.owner) ==> {
            let (before, after) = (
                old(agent).runtime@[plan.owner],
                final(agent).runtime@[plan.owner],
            );
            &&& after.ready == before.ready && after.hint_ready == before.hint_ready
            &&& after.publisher_id == before.publisher_id
            &&& after.attachment_generation == before.attachment_generation
            &&& after.last_worker == before.last_worker
            &&& after.attached_worker == before.attached_worker
        },
        !old(agent).runtime@.dom().contains(plan.owner) ==> {
            let after = final(agent).runtime@[plan.owner];
            &&& !after.ready && !after.hint_ready
            &&& after.publisher_id == Some(plan.source.publisher_id)
            &&& after.last_worker == plan.recognized_worker
            &&& after.router_hint_source == plan.source.router_hint_source
        },
        ({
            let held = old(agent).recovery_tails@[plan.owner];
            let fits = old(agent).recovery_tails@.dom().contains(plan.owner) && held.publisher_id
                == plan.source.publisher_id && match plan.attachment {
                Some(attachment) => held.attachment_generation == Some(
                    attachment.attachment_generation,
                ),
                None => held.attachment_generation is None,
            };
            &&& !fits ==> events@.len() == 0
            &&& fits ==> {
                &&& (exists|i: int| 0 <= i < events@.len() && (#[trigger] events@[i]).event_id == id)
                    <==> id > recovered_cursor && (exists|j: int|
                    0 <= j < held.rank@.pending.len() && (
                    #[trigger] held.rank@.pending[j]).event_id == id)
                &&& forall|i: int|
                    0 <= i < events@.len() ==> held.rank@.pending.contains(#[trigger] events@[i])
                &&& forall|i: int, j: int|
                    0 <= i < j < events@.len() ==> (#[trigger] events@[i]).event_id < (
                    #[trigger] events@[j]).event_id
            }
        }),
{
    let held = old(agent).recovery_tails@[plan.owner];
    if old(agent).recovery_tails@.dom().contains(plan.owner) && tail_fits_plan(held, *plan) {
        law_suffix_is_complete(events@, held.rank@.pending, recovered_cursor, id);
    }
}

/// An owner that wants no recovery is handed its source's next event, whatever it holds: the one
/// right above its cursor without a gap, a higher one with the id that was expected. One at or
/// below the cursor is skipped, and neither moves the owner.
pub proof fn law_next_event_of_an_owner_is_applied(
    agent: &mut StateAgent,
    owner: CacheOwnerId,
    event: &RouterEvent,
    step: StateEventStep,
)
    requires
        call_ensures(StateAgent::begin_owner_event, (agent, owner, event), step),
        old(agent).runtime@.dom().contains(owner),
        !old(agent).runtime@[owner].recovery_required,
        event.residency.domain == Some(ResidencyDomain::CacheOwner),
        event.state_source == Some(owner),
    ensures
        final(agent).runtime@ == old(agent).runtime@,
        event.event_id == old(agent).runtime@[owner].recovered_cursor + 1 ==> step
            == (StateEventStep::Apply { gap: None }),
        event.event_id > old(agent).runtime@[owner].recovered_cursor + 1 ==> step is Apply
            && step->gap is Some && step->gap->0 == old(agent).runtime@[owner].recovered_cursor
            + 1,
        event.event_id <= old(agent).runtime@[owner].recovered_cursor ==> step
            == StateEventStep::Skip,
{
    assert(final(agent).runtime@ =~= old(agent).runtime@);
}

/// The same of an event of the worker that an owner is attached to, where the event names the
/// rank of the owner's worker; one that names another rank faults the owner.
pub proof fn law_next_event_of_an_attached_worker_is_applied(
    agent: &mut StateAgent,
    owner: CacheOwnerId,
    event: &RouterEvent,
    step: StateEventStep,
    worker: WorkerWithDpRank,
)
    requires
        call_ensures(StateAgent::begin_owner_event, (agent, owner, event), step),
        old(agent).runtime@.dom().contains(owner),
        !old(agent).runtime@[owner].recovery_required,
        old(agent).runtime@[owner].attachment_generation is Some,
        old(agent).runtime@[owner].last_worker == Some(worker),
        event.residency.domain == Some(ResidencyDomain::Worker),
        event.event_id > old(agent).runtime@[owner].recovered_cursor,
    ensures
        event.worker_id == worker.worker_id && event.dp_rank == worker.dp_rank ==> {
            &&& step is Apply
            &&& step->gap is None <==> event.event_id
                == old(agent).runtime@[owner].recovered_cursor + 1
            &&& final(agent).runtime@ == old(agent).runtime@
        },
        event.worker_id != worker.worker_id || event.dp_rank != worker.dp_rank ==> {
            &&& step is Stop
            &&& final(agent).runtime@[owner].recovery_required
            &&& !final(agent).runtime@[owner].ready
            &&& !final(agent).runtime@[owner].hint_ready
            &&& final(agent).runtime@[owner].recovered_cursor
                == old(agent).runtime@[owner].recovered_cursor
        },
{
    assert(event.worker_id == worker.worker_id && event.dp_rank == worker.dp_rank
        ==> final(agent).runtime@ =~= old(agent).runtime@);
}

/// An owner that waits for a recovery, or that is not known, takes no event and stays as it is.
pub proof fn law_waiting_owner_takes_no_event(
    agent: &mut StateAgent,
    owner: CacheOwnerId,
    event: &RouterEvent,
    step: StateEventStep,
    other: CacheOwnerId,
)
    requires
        call_ensures(StateAgent::begin_owner_event, (agent, owner, event), step),
    ensures
        !old(agent).runtime@.dom().contains(owner) || old(agent).runtime@[owner].recovery_required
            ==> step is Stop && final(agent).runtime@ == old(agent).runtime@,
        other != owner ==> lookup(final(agent).runtime@, other) == lookup(
            old(agent).runtime@,
            other,
        ),
        final(agent).sources == old(agent).sources,
        final(agent).attachments == old(agent).attachments,
        final(agent).recovery_tails == old(agent).recovery_tails,
        final(agent).recovering_publishers == old(agent).recovering_publishers,
{
    assert(!old(agent).runtime@.dom().contains(owner)
        || old(agent).runtime@[owner].recovery_required ==> final(agent).runtime@
        =~= old(agent).runtime@);
}

/// An event that was applied moves its owner to it and changes nothing else; so does one that was
/// lost, unless it was a clear: a lost clear leaves the cursor and asks for a recovery.
pub proof fn law_applied_event_moves_its_owner(
    agent: &mut StateAgent,
    owner: CacheOwnerId,
    event_id: u64,
    is_clear: bool,
    applied: bool,
    other: CacheOwnerId,
)
    requires
        call_ensures(
            StateAgent::finish_owner_event,
            (agent, owner, event_id, is_clear, applied),
            (),
        ),
    ensures
        final(agent).runtime@.dom() == old(agent).runtime@.dom(),
        old(agent).runtime@.dom().contains(owner) ==> {
            let (before, after) = (old(agent).runtime@[owner], final(agent).runtime@[owner]);
            &&& applied || !is_clear ==> after.recovered_cursor == event_id && after.ready
                == before.ready && after.hint_ready == before.hint_ready
                && after.recovery_required == before.recovery_required
            &&& is_clear && !applied ==> after.recovered_cursor == before.recovered_cursor
                && !after.ready && !after.hint_ready && after.recovery_required
            &&& after.publisher_id == before.publisher_id
            &&& after.attachment_generation == before.attachment_generation
            &&& after.last_worker == before.last_worker
            &&& after.attached_worker == before.attached_worker
            &&& after.router_hint_source == before.router_hint_source
        },
        other != owner ==> lookup(final(agent).runtime@, other) == lookup(
            old(agent).runtime@,
            other,
        ),
        final(agent).recovery_tails == old(agent).recovery_tails,
        final(agent).recovering_publishers == old(agent).recovering_publishers,
{
    assert(final(agent).runtime@.dom() =~= old(agent).runtime@.dom());
}

/// A tail went in up to the owner's cursor, unless the owner is unknown or wants a recovery.
pub proof fn law_tail_ends_at_the_cursor(
    agent: &StateAgent,
    owner: CacheOwnerId,
    cursor: Option<u64>,
)
    requires
        call_ensures(StateAgent::tail_outcome, (agent, owner), cursor),
    ensures
        cursor is Some <==> agent.runtime@.dom().contains(owner)
            && !agent.runtime@[owner].recovery_required,
        cursor is Some ==> cursor->0 == agent.runtime@[owner].recovered_cursor,
{
}

/// A batch is handed on unchanged unless its publisher is the one whose events a recovery holds
/// back; then none of it is handed on, and only that recovery's buffer changes.
pub proof fn law_batch_is_held_back_or_handed_on_whole(
    agent: &mut StateAgent,
    publisher_id: u64,
    events: Vec<RouterEvent>,
    passed: Option<Vec<RouterEvent>>,
    owner: CacheOwnerId,
)
    requires
        call_ensures(StateAgent::route_events, (agent, publisher_id, events), passed),
    ensures
        passed is Some ==> passed->0@ == events@ && final(agent).recovery_tails@
            == old(agent).recovery_tails@,
        !old(agent).recovering_publishers@.dom().contains(publisher_id) ==> passed is Some,
        old(agent).recovering_publishers@.dom().contains(publisher_id)
            && old(agent).recovering_publishers@[publisher_id] == owner ==> (passed is None
            <==> old(agent).recovery_tails@.dom().contains(owner)
            && old(agent).recovery_tails@[owner].publisher_id == publisher_id),
        !(old(agent).recovering_publishers@.dom().contains(publisher_id)
            && old(agent).recovering_publishers@[publisher_id] == owner) ==> lookup(
            final(agent).recovery_tails@,
            owner,
        ) == lookup(old(agent).recovery_tails@, owner),
        final(agent).runtime == old(agent).runtime,
        final(agent).sources == old(agent).sources,
        final(agent).attachments == old(agent).attachments,
        final(agent).recovering_publishers == old(agent).recovering_publishers,
{
}

/// What is held back during a recovery stays in the order it came in, after what was held back
/// before; of more than 1024 events the newest stay.
pub proof fn law_held_back_batch_is_kept_in_order(rank: RankView, events: Seq<RouterEvent>)
    requires
        rank.pending.len() <= 1024,
    ensures
        ({
            let all = rank.pending + events;
            let kept = buffered_all(rank, events);
            &&& all.len() <= 1024 ==> kept.pending == all
            &&& all.len() > 1024 ==> kept.pending == all.subrange(
                all.len() - 1024,
                all.len() as int,
            )
            &&& kept.cursor == rank.cursor
            &&& events.len() > 0 ==> kept.recovery_inflight
            &&& events.len() == 0 ==> kept == rank
        }),
    decreases events.len(),
{
    let all = rank.pending + events;
    if events.len() == 0 {
        assert(all =~= rank.pending);
    } else {
        let front = events.drop_last();
        law_held_back_batch_is_kept_in_order(rank, front);
        assert(all =~= (rank.pending + front).push(events.last()));
        let kept = buffered_all(rank, events);
        if all.len() > 1024 {
            assert(kept.pending =~= all.subrange(all.len() - 1024, all.len() as int));
        } else {
            assert(kept.pending =~= all);
        }
    }
}

/// The buffer of a recovery takes a held back batch in, under the same publisher, attachment and
/// schedule.
pub proof fn law_held_back_batch_goes_to_its_recovery(
    agent: &mut StateAgent,
    publisher_id: u64,
    events: Vec<RouterEvent>,
    passed: Option<Vec<RouterEvent>>,
    owner: CacheOwnerId,
)
    requires
        call_ensures(StateAgent::route_events, (agent, publisher_id, events), passed),
        passed is None,
        old(agent).recovering_publishers@[publisher_id] == owner,
        old(agent).recovery_tails@[owner].rank@.pending.len() + events@.len() <= 1024,
    ensures
        final(agent).recovery_tails@.dom() == old(agent).recovery_tails@.dom(),
        ({
            let (before, after) = (
                old(agent).recovery_tails@[owner],
                final(agent).recovery_tails@[owner],
            );
            &&& after.rank@.pending == before.rank@.pending + events@
            &&& after.publisher_id == publisher_id
            &&& after.attachment_generation == before.attachment_generation
            &&& after.schedule_generation == before.schedule_generation
        }),
{
    law_held_back_batch_is_kept_in_order(old(agent).recovery_tails@[owner].rank@, events@);
}

/// An owner is found for a publisher exactly if the publisher feeds one, and what is found is an
/// owner that it feeds.
pub proof fn law_fed_owner_is_found(
    agent: &StateAgent,
    publisher_id: u64,
    found: Option<CacheOwnerId>,
    owner: CacheOwnerId,
)
    requires
        call_ensures(StateAgent::owner_of_publisher, (agent, publisher_id), found),
    ensures
        found is Some ==> agent.runtime@.dom().contains(found->0)
            && agent.runtime@[found->0].publisher_id == Some(publisher_id),
        agent.runtime@.dom().contains(owner) && agent.runtime@[owner].publisher_id == Some(
            publisher_id,
        ) ==> found is Some,
{
}

/// Each error is told in its own words, and one with a detail ends on the detail.
pub proof fn law_recovery_error_is_told_in_words(error: &StateRecoveryError, message: String)
    requires
        call_ensures(StateRecoveryError::message, (error,), message),
    ensures
        *error is UnexpectedResponse ==> message@
            == "state-agent recovery returned an unexpected response"@,
        *error is ReceiptMismatch ==> message@
            == "state-agent recovery receipt does not match the selected incarnation"@,
        *error is ForeignOwnership ==> message@
            == "state-agent recovery contains ownership outside the selected source or attachment"@,
        *error is NoState ==> message@ == "state-agent recovery returned no applicable state"@,
        *error is SnapshotFailed ==> {
            let detail = error->SnapshotFailed_0@;
            let lead = "state-agent snapshot failed: "@;
            message@ == lead + detail
        },
        *error is Failed ==> {
            let detail = error->Failed_0@;
            let lead = "state-agent recovery failed: "@;
            message@ == lead + detail
        },
{
}

} // verus!
