//! The control loop of the state agents: what each input leads to, and when to try again.
use vstd::prelude::*;

use crate::lists::push_unique;
use crate::membership::{
    declares_other_mode, source_mode_suppressed_workers, KvSourceMembershipView, KvSourceStatus,
};
use crate::indexer::recovery::owner_runtime::OwnerRuntime;
use crate::protocols::{CacheOwnerId, WorkerWithDpRank};
use crate::indexer::recovery::source_slot::WorkerKvQueryResponse;
use crate::indexer::recovery::state_agent::{OwnerRecoveryPlan, StateAgent, StateClear};
use crate::indexer::recovery::state_recovery::{
    check_recovery_response, clears_before_recovery, is_application_of, is_current_recovery,
    is_failed_recovery,
    pre_recovery_clears, KvStateAgentStatus, KvStateRecoveryReceipt, RecoveryApplication,
    StateAgentResponse, StateRecoveryError,
};
use crate::indexer::recovery::state_sources::{
    KvStateAttachmentAdvertisement, KvStateSourceAdvertisement,
};
use crate::table::{has_entry, lookup, Table};

verus! {

pub const RECONCILE_RETRY_INITIAL_BACKOFF_MS: u64 = 100;

pub const RECONCILE_RETRY_MAX_BACKOFF_MS: u64 = 5000;

/// Reconciliation was overtaken by a newer observation.
#[derive(Clone, Copy, Debug, PartialEq, Eq, Structural)]
pub struct Superseded;

impl Superseded {
    /// The error in words.
    pub fn message(&self) -> (message: &'static str)
        ensures
            message@ == "KV state reconciliation was superseded by a newer observation"@,
    {
        "KV state reconciliation was superseded by a newer observation"
    }
}

/// Count an observation. The count stops at its maximum.
pub fn advance_observation_revision(revision: &mut u64) -> (next: u64)
    ensures
        next == *final(revision),
        *final(revision) == if *old(revision) == u64::MAX {
            u64::MAX
        } else {
            (*old(revision) + 1) as u64
        },
{
    if *revision < u64::MAX {
        *revision = *revision + 1;
    }
    *revision
}

pub fn ensure_observation_revision(revision: u64, expected: u64) -> (current: Result<(), Superseded>)
    ensures
        current == if revision == expected {
            Ok::<(), Superseded>(())
        } else {
            Err(Superseded)
        },
{
    if revision != expected {
        return Err(Superseded);
    }
    Ok(())
}

/// What must still hold for a scheduled retry to make sense.
#[derive(Clone, Copy, Debug, PartialEq, Eq, Structural)]
pub struct RecoveryRetryFence {
    pub source: KvStateSourceAdvertisement,
    pub attachment: Option<KvStateAttachmentAdvertisement>,
    pub observation_revision: u64,
    pub activation_expected: bool,
}

/// At most one retry at a time, ever further apart.
#[derive(Clone, Copy, Debug, PartialEq, Eq, Structural)]
pub struct RecoveryRetry {
    pub fence: Option<RecoveryRetryFence>,
    pub armed: bool,
    pub next_delay_ms: u64,
}

pub open spec fn doubled_backoff(delay_ms: u64, max_ms: u64) -> u64 {
    if delay_ms * 2 > max_ms {
        max_ms
    } else {
        (delay_ms * 2) as u64
    }
}

impl RecoveryRetry {
    pub open spec fn wf(self) -> bool {
        RECONCILE_RETRY_INITIAL_BACKOFF_MS <= self.next_delay_ms <= RECONCILE_RETRY_MAX_BACKOFF_MS
    }

    pub open spec fn idle() -> RecoveryRetry {
        RecoveryRetry {
            fence: None,
            armed: false,
            next_delay_ms: RECONCILE_RETRY_INITIAL_BACKOFF_MS,
        }
    }

    /// The retry after a schedule request.
    pub open spec fn scheduled(self, fence: RecoveryRetryFence) -> RecoveryRetry {
        if self.armed {
            self
        } else {
            RecoveryRetry {
                fence: Some(fence),
                armed: true,
                next_delay_ms: doubled_backoff(self.next_delay_ms, RECONCILE_RETRY_MAX_BACKOFF_MS),
            }
        }
    }

    pub fn new() -> (retry: Self)
        ensures
            retry == RecoveryRetry::idle(),
            retry.wf(),
    {
        RecoveryRetry {
            fence: None,
            armed: false,
            next_delay_ms: RECONCILE_RETRY_INITIAL_BACKOFF_MS,
        }
    }

    /// Arm the timer unless it runs already; `Some` is the delay to arm it with.
    pub fn schedule(&mut self, fence: RecoveryRetryFence) -> (delay_ms: Option<u64>)
        requires
            old(self).wf(),
        ensures
            final(self).wf(),
            *final(self) == old(self).scheduled(fence),
            delay_ms == if old(self).armed {
                None
            } else {
                Some(old(self).next_delay_ms)
            },
    {
        if self.armed {
            return None;
        }
        let delay_ms: u64 = self.next_delay_ms;
        self.fence = Some(fence);
        self.armed = true;
        self.next_delay_ms = if delay_ms * 2 > RECONCILE_RETRY_MAX_BACKOFF_MS {
            RECONCILE_RETRY_MAX_BACKOFF_MS
        } else {
            delay_ms * 2
        };
        Some(delay_ms)
    }

    pub fn take_due(&mut self) -> (fence: Option<RecoveryRetryFence>)
        ensures
            fence == old(self).fence,
            *final(self) == (RecoveryRetry { fence: None, armed: false, ..*old(self) }),
    {
        let fence = self.fence;
        self.armed = false;
        self.fence = None;
        fence
    }

    pub fn reset(&mut self)
        ensures
            *final(self) == RecoveryRetry::idle(),
    {
        self.fence = None;
        self.armed = false;
        self.next_delay_ms = RECONCILE_RETRY_INITIAL_BACKOFF_MS;
    }
}

/// The fence of a reconciliation that failed as a whole: the source of the lowest publisher.
pub fn source_retry_fence(
    sources: &Table<u64, KvStateSourceAdvertisement>,
    observation_revision: u64,
) -> (fence: Option<RecoveryRetryFence>)
    ensures
        match fence {
            Some(fence) => exists|publisher_id: u64|
                is_least_key(sources@, publisher_id) && fence == (RecoveryRetryFence {
                    source: sources@[publisher_id],
                    attachment: None,
                    observation_revision,
                    activation_expected: false,
                }),
            None => sources@.dom().is_empty(),
        },
{
    let len: usize = sources.len();
    if len == 0 {
        proof {
            assert(sources@.dom() =~= Set::empty()) by {
                assert forall|key: u64| !sources@.dom().contains(key) by {}
            }
        }
        return None;
    }
    let ghost listing = sources.listing();
    let mut best: usize = 0;
    let mut i: usize = 1;
    while i < len
        invariant
            1 <= i <= len,
            best < i,
            len == listing.len(),
            listing == sources.listing(),
            forall|j: int| 0 <= j < i ==> listing[best as int].0 <= (#[trigger] listing[j]).0,
        decreases len - i,
    {
        if sources.key_at(i) < sources.key_at(best) {
            best = i;
        }
        i = i + 1;
    }
    proof {
        let least = listing[best as int].0;
        assert(sources@.dom().contains(least));
        assert forall|key: u64| #[trigger] sources@.dom().contains(key) implies least <= key by {
            assert(has_entry(listing, key));
            let j = choose|j: int| 0 <= j < listing.len() && (#[trigger] listing[j]).0 == key;
            assert(least <= listing[j].0);
        }
        assert(is_least_key(sources@, least));
    }
    Some(
        RecoveryRetryFence {
            source: *sources.value_at(best),
            attachment: None,
            observation_revision,
            activation_expected: false,
        },
    )
}

pub open spec fn is_least_key<V>(map: Map<u64, V>, key: u64) -> bool {
    map.dom().contains(key) && forall|other: u64| #[trigger]
        map.dom().contains(other) ==> key <= other
}

/// Whether what a retry was fenced with is still advertised and observed.
pub open spec fn retry_is_current(
    fence: RecoveryRetryFence,
    sources: Map<u64, KvStateSourceAdvertisement>,
    attachments: Map<u64, KvStateAttachmentAdvertisement>,
    observation_revision: u64,
) -> bool {
    &&& observation_revision == fence.observation_revision
    &&& lookup(sources, fence.source.publisher_id) == Some(fence.source)
    &&& fence.attachment is Some ==> lookup(attachments, fence.attachment->0.record_id)
        == fence.attachment
}

pub fn recovery_retry_is_current(
    fence: &RecoveryRetryFence,
    sources: &Table<u64, KvStateSourceAdvertisement>,
    attachments: &Table<u64, KvStateAttachmentAdvertisement>,
    observation_revision: u64,
) -> (current: bool)
    ensures
        current == retry_is_current(*fence, sources@, attachments@, observation_revision),
{
    if observation_revision != fence.observation_revision {
        return false;
    }
    match sources.get(&fence.source.publisher_id) {
        Some(source) => if *source != fence.source {
            return false;
        },
        None => return false,
    }
    match fence.attachment {
        Some(attachment) => match attachments.get(&attachment.record_id) {
            Some(current) => *current == attachment,
            None => false,
        },
        None => true,
    }
}

/// The result of a recovery. A status or answer of `None` could not be had.
#[derive(Debug, PartialEq, Eq)]
pub enum OwnerRecoveryResult {
    Initial {
        plan: OwnerRecoveryPlan,
        status: Option<KvStateAgentStatus>,
        /// Outer `None` when no state was needed.
        recovery: Option<Option<StateAgentResponse>>,
    },
    PostStatus {
        plan: OwnerRecoveryPlan,
        recovered_cursor: u64,
        status: Option<KvStateAgentStatus>,
    },
}

impl OwnerRecoveryResult {
    pub open spec fn spec_plan(self) -> OwnerRecoveryPlan {
        match self {
            OwnerRecoveryResult::Initial { plan, .. } => plan,
            OwnerRecoveryResult::PostStatus { plan, .. } => plan,
        }
    }

    pub fn plan(&self) -> (plan: OwnerRecoveryPlan)
        ensures
            plan == self.spec_plan(),
    {
        match self {
            OwnerRecoveryResult::Initial { plan, .. } => *plan,
            OwnerRecoveryResult::PostStatus { plan, .. } => *plan,
        }
    }

    pub fn owner(&self) -> (owner: CacheOwnerId)
        ensures
            owner == self.spec_plan().owner,
    {
        self.plan().owner
    }

    pub fn publisher_id(&self) -> (publisher_id: u64)
        ensures
            publisher_id == self.spec_plan().source.publisher_id,
    {
        self.plan().source.publisher_id
    }

    pub fn schedule_generation(&self) -> (generation: u64)
        ensures
            generation == self.spec_plan().schedule_generation,
    {
        self.plan().schedule_generation
    }

    /// The fence for a retry of this recovery.
    pub fn retry_fence(&self) -> (fence: RecoveryRetryFence)
        ensures
            fence == fence_of(self.spec_plan()),
    {
        let plan = self.plan();
        RecoveryRetryFence {
            source: plan.source,
            attachment: plan.attachment,
            observation_revision: plan.observation_revision,
            activation_expected: plan.attachment.is_some() && plan.recognized_worker.is_some(),
        }
    }
}

pub open spec fn fence_of(plan: OwnerRecoveryPlan) -> RecoveryRetryFence {
    RecoveryRetryFence {
        source: plan.source,
        attachment: plan.attachment,
        observation_revision: plan.observation_revision,
        activation_expected: plan.attachment is Some && plan.recognized_worker is Some,
    }
}

/// What a finished recovery asks for.
#[derive(Debug, PartialEq, Eq)]
pub enum OwnerRecoveryStep {
    /// Overtaken: nothing to do.
    Stale,
    /// The owner was withdrawn and must be recovered anew.
    Failed,
    /// Apply the clears and the answer, then the tail, then ask for the status again.
    Apply { clears: Vec<StateClear>, application: RecoveryApplication },
    /// Apply the clears; the answer itself is refused.
    Refuse { clears: Vec<StateClear>, error: StateRecoveryError },
    /// Nothing to fetch: apply the tail above the cursor and decide on readiness.
    Settle { status: KvStateAgentStatus, recovered_cursor: u64 },
}

/// What a current recovery result comes to.
pub open spec fn is_step_of(step: OwnerRecoveryStep, result: OwnerRecoveryResult) -> bool {
    match result {
        OwnerRecoveryResult::Initial { plan, status, recovery } => match status {
            None => step == OwnerRecoveryStep::Failed,
            Some(status) => match recovery {
                None => step == (OwnerRecoveryStep::Settle {
                    status,
                    recovered_cursor: plan.previous_cursor,
                }),
                Some(None) => step == OwnerRecoveryStep::Failed,
                Some(Some(response)) => match step {
                    OwnerRecoveryStep::Apply { clears, application } => clears@
                        == clears_before_recovery(plan) && is_application_of(
                        Ok(application),
                        plan,
                        response,
                    ),
                    OwnerRecoveryStep::Refuse { clears, error } => clears@
                        == clears_before_recovery(plan) && is_application_of(
                        Err(error),
                        plan,
                        response,
                    ),
                    _ => false,
                },
            },
        },
        OwnerRecoveryResult::PostStatus { plan, recovered_cursor, status } => match status {
            None => step == OwnerRecoveryStep::Failed,
            Some(status) => step == (OwnerRecoveryStep::Settle { status, recovered_cursor }),
        },
    }
}

/// Same sources, attachments, states and recoveries.
pub open spec fn same_agent(left: StateAgent, right: StateAgent) -> bool {
    &&& left.sources@ == right.sources@
    &&& left.attachments@ == right.attachments@
    &&& left.runtime@ == right.runtime@
    &&& left.recovery_tails@ == right.recovery_tails@
    &&& left.recovering_publishers@ == right.recovering_publishers@
}

/// What an input to the control loop is.
#[derive(Clone, Copy, Debug, PartialEq, Eq, Structural)]
pub enum RouterInput {
    Membership,
    Observation,
    /// A source or attachment change was taken in, or not.
    Advertised { changed: bool },
    /// A discovery or event stream ended.
    StreamEnded,
    RetryDue,
    Cancelled,
}

#[derive(Clone, Copy, Debug, PartialEq, Eq, Structural)]
pub enum RouterTurn {
    Wait,
    Reconcile,
    /// Withdraw everything and wait for the end.
    FailClosed,
    Stop,
}

/// Whether a reconciliation can run.
#[derive(Clone, Copy, Debug, PartialEq, Eq, Structural)]
pub enum ReconcileGate {
    /// There are sources, but nothing listens to them yet.
    StartConsumers,
    Idle,
    Schedule { schedule_generation: u64 },
    /// No schedule generation is left.
    Exhausted,
}

#[derive(Debug)]
pub struct StateRouter {
    pub agent: StateAgent,
    pub retry: RecoveryRetry,
    pub consumers_started: bool,
    pub next_recovery_schedule: u64,
    pub committed_revision: Option<u64>,
}

impl StateRouter {
    pub fn new() -> (router: Self)
        ensures
            router.retry == RecoveryRetry::idle(),
            router.retry.wf(),
            !router.consumers_started,
            router.next_recovery_schedule == 0,
            router.committed_revision is None,
            router.agent.sources@.dom().is_empty(),
            router.agent.attachments@.dom().is_empty(),
            router.agent.runtime@.dom().is_empty(),
            router.agent.recovery_tails@.dom().is_empty(),
            router.agent.recovering_publishers@.dom().is_empty(),
    {
        StateRouter {
            agent: StateAgent::new(),
            retry: RecoveryRetry::new(),
            consumers_started: false,
            next_recovery_schedule: 0,
            committed_revision: None,
        }
    }

    /// Decide what an input leads to. Whatever is new ends a pending retry.
    pub fn on_input(&mut self, input: RouterInput, observation_revision: u64) -> (turn: RouterTurn)
        requires
            old(self).retry.wf(),
        ensures
            final(self).retry.wf(),
            same_agent(final(self).agent, old(self).agent),
            final(self).consumers_started == old(self).consumers_started,
            final(self).next_recovery_schedule == old(self).next_recovery_schedule,
            final(self).committed_revision == old(self).committed_revision,
            match input {
                RouterInput::Cancelled => {
                    &&& turn == RouterTurn::Stop
                    &&& final(self).retry == old(self).retry
                },
                RouterInput::StreamEnded => turn == RouterTurn::FailClosed && final(self).retry
                    == old(self).retry,
                RouterInput::Membership | RouterInput::Observation => turn
                    == RouterTurn::Reconcile && final(self).retry == RecoveryRetry::idle(),
                RouterInput::Advertised { changed } => if changed {
                    turn == RouterTurn::Reconcile && final(self).retry == RecoveryRetry::idle()
                } else {
                    turn == RouterTurn::Wait && final(self).retry == old(self).retry
                },
                RouterInput::RetryDue => match old(self).retry.fence {
                    None => turn == RouterTurn::Wait && final(self).retry == (RecoveryRetry {
                        fence: None,
                        armed: false,
                        ..old(self).retry
                    }),
                    Some(fence) => if retry_is_current(
                        fence,
                        old(self).agent.sources@,
                        old(self).agent.attachments@,
                        observation_revision,
                    ) {
                        turn == RouterTurn::Reconcile && final(self).retry == (RecoveryRetry {
                            fence: None,
                            armed: false,
                            ..old(self).retry
                        })
                    } else {
                        turn == RouterTurn::Wait && final(self).retry == RecoveryRetry::idle()
                    },
                },
            },
    {
        match input {
            RouterInput::Cancelled => RouterTurn::Stop,
            RouterInput::StreamEnded => RouterTurn::FailClosed,
            RouterInput::Membership => {
                self.retry.reset();
                RouterTurn::Reconcile
            },
            RouterInput::Observation => {
                self.retry.reset();
                RouterTurn::Reconcile
            },
            RouterInput::Advertised { changed } => {
                if changed {
                    self.retry.reset();
                    RouterTurn::Reconcile
                } else {
                    RouterTurn::Wait
                }
            },
            RouterInput::RetryDue => match self.retry.take_due() {
                None => RouterTurn::Wait,
                Some(fence) => {
                    if recovery_retry_is_current(
                        &fence,
                        &self.agent.sources,
                        &self.agent.attachments,
                        observation_revision,
                    ) {
                        RouterTurn::Reconcile
                    } else {
                        self.retry.reset();
                        RouterTurn::Wait
                    }
                },
            },
        }
    }

    /// Decide whether a reconciliation can run, and number it.
    pub fn open_reconcile(&mut self) -> (gate: ReconcileGate)
        ensures
            same_agent(final(self).agent, old(self).agent),
            final(self).retry == old(self).retry,
            final(self).consumers_started == old(self).consumers_started,
            final(self).committed_revision == old(self).committed_revision,
            gate == if !old(self).consumers_started {
                if old(self).agent.sources@.dom().is_empty() {
                    ReconcileGate::Idle
                } else {
                    ReconcileGate::StartConsumers
                }
            } else if old(self).next_recovery_schedule == u64::MAX {
                ReconcileGate::Exhausted
            } else {
                ReconcileGate::Schedule {
                    schedule_generation: (old(self).next_recovery_schedule + 1) as u64,
                }
            },
            final(self).next_recovery_schedule == match gate {
                ReconcileGate::Schedule { schedule_generation } => schedule_generation,
                _ => old(self).next_recovery_schedule,
            },
    {
        if !self.consumers_started {
            let len: usize = self.agent.sources.len();
            proof {
                if len == 0 {
                    assert(self.agent.sources@.dom() =~= Set::empty());
                } else {
                    assert(self.agent.sources@.dom().contains(
                        self.agent.sources.listing()[0].0,
                    ));
                }
            }
            return if len == 0 {
                ReconcileGate::Idle
            } else {
                ReconcileGate::StartConsumers
            };
        }
        if self.next_recovery_schedule == u64::MAX {
            return ReconcileGate::Exhausted;
        }
        self.next_recovery_schedule = self.next_recovery_schedule + 1;
        ReconcileGate::Schedule { schedule_generation: self.next_recovery_schedule }
    }

    /// The consumers run, or could not be started; `Some` is the delay of the retry to arm.
    pub fn on_consumers_started(&mut self, started: bool, observation_revision: u64) -> (delay_ms:
        Option<u64>)
        requires
            old(self).retry.wf(),
        ensures
            final(self).retry.wf(),
            same_agent(final(self).agent, old(self).agent),
            final(self).consumers_started == (old(self).consumers_started || started),
            final(self).next_recovery_schedule == old(self).next_recovery_schedule,
            final(self).committed_revision == old(self).committed_revision,
            if started {
                delay_ms is None && final(self).retry == RecoveryRetry::idle()
            } else {
                is_source_retry(
                    *old(self),
                    final(self).retry,
                    delay_ms,
                    observation_revision,
                )
            },
    {
        if started {
            self.consumers_started = true;
            self.retry.reset();
            None
        } else {
            self.schedule_source_retry(observation_revision)
        }
    }

    fn schedule_source_retry(&mut self, observation_revision: u64) -> (delay_ms: Option<u64>)
        requires
            old(self).retry.wf(),
        ensures
            final(self).retry.wf(),
            same_agent(final(self).agent, old(self).agent),
            final(self).consumers_started == old(self).consumers_started,
            final(self).next_recovery_schedule == old(self).next_recovery_schedule,
            final(self).committed_revision == old(self).committed_revision,
            is_source_retry(*old(self), final(self).retry, delay_ms, observation_revision),
    {
        match source_retry_fence(&self.agent.sources, observation_revision) {
            Some(fence) => {
                proof {
                    let publisher_id = choose|publisher_id: u64|
                        is_least_key(self.agent.sources@, publisher_id) && fence == (
                        RecoveryRetryFence {
                            source: self.agent.sources@[publisher_id],
                            attachment: None,
                            observation_revision,
                            activation_expected: false,
                        });
                    assert(self.agent.sources@.dom().contains(publisher_id));
                }
                self.retry.schedule(fence)
            },
            None => None,
        }
    }

    /// A reconciliation ended. Only a complete one may be published under later.
    pub fn finish_schedule(&mut self, revision: u64, complete: bool) -> (delay_ms: Option<u64>)
        requires
            old(self).retry.wf(),
        ensures
            final(self).retry.wf(),
            same_agent(final(self).agent, old(self).agent),
            final(self).consumers_started == old(self).consumers_started,
            final(self).next_recovery_schedule == old(self).next_recovery_schedule,
            if complete {
                &&& delay_ms is None
                &&& final(self).retry == old(self).retry
                &&& final(self).committed_revision == Some(revision)
            } else {
                &&& final(self).committed_revision is None
                &&& is_source_retry(*old(self), final(self).retry, delay_ms, revision)
            },
    {
        if complete {
            self.committed_revision = Some(revision);
            None
        } else {
            self.committed_revision = None;
            self.schedule_source_retry(revision)
        }
    }

    /// What a finished recovery comes to. A failed one withdraws its owner at once.
    pub fn begin_finish_recovery(
        &mut self,
        result: OwnerRecoveryResult,
        live: &Table<WorkerWithDpRank, KvSourceStatus>,
        observation_revision: u64,
    ) -> (step: OwnerRecoveryStep)
        ensures
            final(self).retry == old(self).retry,
            final(self).consumers_started == old(self).consumers_started,
            final(self).next_recovery_schedule == old(self).next_recovery_schedule,
            final(self).committed_revision == old(self).committed_revision,
            if !is_current_recovery(
                old(self).agent,
                result.spec_plan(),
                live@,
                observation_revision,
            ) {
                step == OwnerRecoveryStep::Stale && same_agent(final(self).agent, old(self).agent)
            } else {
                &&& is_step_of(step, result)
                &&& if step == OwnerRecoveryStep::Failed {
                    is_failed_recovery(
                        final(self).agent,
                        old(self).agent,
                        result.spec_plan().owner,
                        result.spec_plan().source.publisher_id,
                    )
                } else {
                    same_agent(final(self).agent, old(self).agent)
                }
            },
    {
        let plan = result.plan();
        if !self.agent.owner_recovery_is_current(&plan, live, observation_revision) {
            return OwnerRecoveryStep::Stale;
        }
        match result {
            OwnerRecoveryResult::Initial { plan, status, recovery } => {
                let status = match status {
                    Some(status) => status,
                    None => {
                        self.agent.fail_owner_recovery(plan.owner, plan.source.publisher_id);
                        return OwnerRecoveryStep::Failed;
                    },
                };
                match recovery {
                    None => OwnerRecoveryStep::Settle {
                        status,
                        recovered_cursor: plan.previous_cursor,
                    },
                    Some(None) => {
                        self.agent.fail_owner_recovery(plan.owner, plan.source.publisher_id);
                        OwnerRecoveryStep::Failed
                    },
                    Some(Some(response)) => {
                        let clears = pre_recovery_clears(&plan);
                        match check_recovery_response(&plan, response) {
                            Ok(application) => OwnerRecoveryStep::Apply { clears, application },
                            Err(error) => OwnerRecoveryStep::Refuse { clears, error },
                        }
                    },
                }
            },
            OwnerRecoveryResult::PostStatus { plan, recovered_cursor, status } => match status {
                Some(status) => OwnerRecoveryStep::Settle { status, recovered_cursor },
                None => {
                    self.agent.fail_owner_recovery(plan.owner, plan.source.publisher_id);
                    OwnerRecoveryStep::Failed
                },
            },
        }
    }

    /// After a recovery was finished: arm a retry where the owner is still not where it should
    /// be; `Some` is the delay to arm it with.
    pub fn after_recovery(
        &mut self,
        owner: CacheOwnerId,
        publisher_id: u64,
        fence: RecoveryRetryFence,
    ) -> (delay_ms: Option<u64>)
        requires
            old(self).retry.wf(),
        ensures
            final(self).retry.wf(),
            same_agent(final(self).agent, old(self).agent),
            final(self).consumers_started == old(self).consumers_started,
            final(self).next_recovery_schedule == old(self).next_recovery_schedule,
            final(self).committed_revision == old(self).committed_revision,
            if wants_retry(old(self).agent.runtime@, owner, publisher_id, fence) {
                &&& final(self).retry == old(self).retry.scheduled(fence)
                &&& delay_ms == if old(self).retry.armed {
                    None
                } else {
                    Some(old(self).retry.next_delay_ms)
                }
            } else {
                final(self).retry == old(self).retry && delay_ms is None
            },
    {
        let wanted: bool = match self.agent.runtime.get(&owner) {
            Some(state) => state.publisher_id == Some(publisher_id) && (state.recovery_required || (
            fence.activation_expected && !state.ready)),
            None => false,
        };
        if wanted {
            self.retry.schedule(fence)
        } else {
            None
        }
    }

    /// Live events changed what an owner may be used for: under which revision to publish.
    pub fn publication_revision(&self, changed: bool) -> (revision: Option<u64>)
        ensures
            revision == if changed {
                self.committed_revision
            } else {
                None
            },
    {
        if changed {
            self.committed_revision
        } else {
            None
        }
    }

    /// A publication came too late.
    pub fn on_publication_superseded(&mut self)
        ensures
            same_agent(final(self).agent, old(self).agent),
            final(self).retry == old(self).retry,
            final(self).consumers_started == old(self).consumers_started,
            final(self).next_recovery_schedule == old(self).next_recovery_schedule,
            final(self).committed_revision is None,
    {
        self.committed_revision = None;
    }
}

/// Whether an owner is still unrecovered, or unready although it was to be activated.
pub open spec fn wants_retry(
    runtime: Map<CacheOwnerId, OwnerRuntime>,
    owner: CacheOwnerId,
    publisher_id: u64,
    fence: RecoveryRetryFence,
) -> bool {
    &&& runtime.dom().contains(owner)
    &&& runtime[owner].publisher_id == Some(publisher_id)
    &&& runtime[owner].recovery_required || (fence.activation_expected && !runtime[owner].ready)
}

/// A retry for the source of the lowest publisher, where there is a source.
pub open spec fn is_source_retry(
    before: StateRouter,
    after: RecoveryRetry,
    delay_ms: Option<u64>,
    observation_revision: u64,
) -> bool {
    if before.agent.sources@.dom().is_empty() {
        after == before.retry && delay_ms is None
    } else {
        exists|publisher_id: u64|
            {
                &&& is_least_key(before.agent.sources@, publisher_id)
                &&& after == before.retry.scheduled(
                    RecoveryRetryFence {
                        source: before.agent.sources@[publisher_id],
                        attachment: None,
                        observation_revision,
                        activation_expected: false,
                    },
                )
                &&& delay_ms == if before.retry.armed {
                    None
                } else {
                    Some(before.retry.next_delay_ms)
                }
            }
    }
}

/// The ranks to suppress after a membership change: those that declare another source mode, and
/// those recognized before that are still listed.
pub fn recognized_after_membership(
    view: &KvSourceMembershipView,
    recognized: &Vec<WorkerWithDpRank>,
) -> (workers: Vec<WorkerWithDpRank>)
    ensures
        workers@.no_duplicates(),
        forall|worker: WorkerWithDpRank| #[trigger]
            workers@.contains(worker) <==> view.sources@.dom().contains(worker) && (
            declares_other_mode(view.kv_event_source_mode@, worker.worker_id)
                || recognized@.contains(worker)),
{
    let mut workers = source_mode_suppressed_workers(view);
    let ghost declared = workers@;
    let mut i: usize = 0;
    while i < recognized.len()
        invariant
            i <= recognized.len(),
            workers@.no_duplicates(),
            forall|worker: WorkerWithDpRank| #[trigger]
                declared.contains(worker) <==> view.sources@.dom().contains(worker)
                    && declares_other_mode(view.kv_event_source_mode@, worker.worker_id),
            forall|worker: WorkerWithDpRank|
                declared.contains(worker) ==> #[trigger] workers@.contains(worker),
            forall|worker: WorkerWithDpRank| #[trigger]
                workers@.contains(worker) ==> declared.contains(worker) || (
                view.sources@.dom().contains(worker) && recognized@.contains(worker)),
            forall|j: int|
                0 <= j < i && view.sources@.dom().contains(#[trigger] recognized@[j])
                    ==> workers@.contains(recognized@[j]),
        decreases recognized.len() - i,
    {
        let worker = recognized[i];
        if view.sources.contains_key(&worker) {
            proof {
                assert(recognized@.contains(worker));
            }
            push_unique(&mut workers, worker);
        }
        i = i + 1;
    }
    workers
}

/// Retries come ever later, but never later than the longest pause.
pub proof fn law_retry_delay_is_bounded(retry: RecoveryRetry, fence: RecoveryRetryFence)
    requires
        retry.wf(),
    ensures
        retry.scheduled(fence).wf(),
        retry.next_delay_ms <= retry.scheduled(fence).next_delay_ms
            <= RECONCILE_RETRY_MAX_BACKOFF_MS,
{
}

/// A retry whose source or attachment was replaced meanwhile is not run.
pub proof fn law_retry_is_fenced_by_replacement(
    fence: RecoveryRetryFence,
    sources: Map<u64, KvStateSourceAdvertisement>,
    attachments: Map<u64, KvStateAttachmentAdvertisement>,
    observation_revision: u64,
)
    requires
        lookup(sources, fence.source.publisher_id) != Some(fence.source) || (fence.attachment
            is Some && lookup(attachments, fence.attachment->0.record_id) != fence.attachment)
            || observation_revision != fence.observation_revision,
    ensures
        !retry_is_current(fence, sources, attachments, observation_revision),
{
}

/// Each observation gets a higher number than the one before it, until the numbers run out.
pub proof fn law_observations_are_counted(revision: &mut u64, next: u64)
    requires
        call_ensures(advance_observation_revision, (revision,), next),
    ensures
        next == *final(revision),
        *old(revision) < u64::MAX ==> next == *old(revision) + 1,
        *old(revision) == u64::MAX ==> next == *old(revision),
{
}

/// A revision is superseded exactly if another one is current.
pub proof fn law_only_the_current_revision_stands(
    revision: u64,
    expected: u64,
    current: Result<(), Superseded>,
)
    requires
        call_ensures(ensure_observation_revision, (revision, expected), current),
    ensures
        current is Ok <==> revision == expected,
{
}

/// The first retry comes after 100 ms; each further one is armed with twice the delay of the one
/// before, up to 5000 ms, and only while none is armed.
pub proof fn law_retries_come_ever_later(
    retry: &mut RecoveryRetry,
    fence: RecoveryRetryFence,
    delay_ms: Option<u64>,
)
    requires
        old(retry).next_delay_ms <= 5000,
        call_ensures(RecoveryRetry::schedule, (retry, fence), delay_ms),
    ensures
        old(retry).armed ==> delay_ms is None && *final(retry) == *old(retry),
        !old(retry).armed ==> {
            &&& delay_ms == Some(old(retry).next_delay_ms)
            &&& final(retry).armed
            &&& final(retry).fence == Some(fence)
            &&& old(retry).next_delay_ms <= 2500 ==> final(retry).next_delay_ms == 2
                * old(retry).next_delay_ms
            &&& old(retry).next_delay_ms > 2500 ==> final(retry).next_delay_ms == 5000
        },
{
}

/// A retry that is due is taken once, with its fence; the next delay stays. A reset forgets the
/// retry and starts over at 100 ms, as a new one does.
pub proof fn law_due_retry_is_taken_once(
    fresh: RecoveryRetry,
    retry: &mut RecoveryRetry,
    fence: Option<RecoveryRetryFence>,
    reset: &mut RecoveryRetry,
)
    requires
        call_ensures(RecoveryRetry::new, (), fresh),
        call_ensures(RecoveryRetry::take_due, (retry,), fence),
        call_ensures(RecoveryRetry::reset, (reset,), ()),
    ensures
        fence == old(retry).fence,
        final(retry).fence is None && !final(retry).armed,
        final(retry).next_delay_ms == old(retry).next_delay_ms,
        final(reset).fence is None && !final(reset).armed && final(reset).next_delay_ms == 100,
        fresh.fence is None && !fresh.armed && fresh.next_delay_ms == 100,
{
}

/// A retry is run exactly if nothing was observed since, its source is advertised as it was, and
/// so is its attachment, where it has one.
pub proof fn law_retry_runs_only_while_nothing_moved(
    fence: &RecoveryRetryFence,
    sources: &Table<u64, KvStateSourceAdvertisement>,
    attachments: &Table<u64, KvStateAttachmentAdvertisement>,
    observation_revision: u64,
    current: bool,
)
    requires
        call_ensures(
            recovery_retry_is_current,
            (fence, sources, attachments, observation_revision),
            current,
        ),
    ensures
        current <==> {
            &&& fence.observation_revision == observation_revision
            &&& sources@.dom().contains(fence.source.publisher_id)
            &&& sources@[fence.source.publisher_id] == fence.source
            &&& fence.attachment is Some ==> attachments@.dom().contains(
                fence.attachment->0.record_id,
            ) && attachments@[fence.attachment->0.record_id] == fence.attachment->0
        },
{
}

/// A recovery result speaks for the owner, publisher and schedule of its plan; the fence of its
/// retry holds the plan's source, attachment and observation, and expects an activation exactly
/// if the plan has an attachment and a worker.
pub proof fn law_result_speaks_for_its_plan(
    result: &OwnerRecoveryResult,
    plan: OwnerRecoveryPlan,
    owner: CacheOwnerId,
    publisher_id: u64,
    generation: u64,
    fence: RecoveryRetryFence,
)
    requires
        call_ensures(OwnerRecoveryResult::plan, (result,), plan),
        call_ensures(OwnerRecoveryResult::owner, (result,), owner),
        call_ensures(OwnerRecoveryResult::publisher_id, (result,), publisher_id),
        call_ensures(OwnerRecoveryResult::schedule_generation, (result,), generation),
        call_ensures(OwnerRecoveryResult::retry_fence, (result,), fence),
    ensures
        match *result {
            OwnerRecoveryResult::Initial { plan: made, .. } => plan == made,
            OwnerRecoveryResult::PostStatus { plan: made, .. } => plan == made,
        },
        owner == plan.owner,
        publisher_id == plan.source.publisher_id,
        generation == plan.schedule_generation,
        fence.source == plan.source,
        fence.attachment == plan.attachment,
        fence.observation_revision == plan.observation_revision,
        fence.activation_expected <==> plan.attachment is Some && plan.recognized_worker is Some,
{
}

/// Membership, an observation and an advertisement that was taken in lead to a reconciliation and
/// end a pending retry; the end of a stream fails closed; a cancellation stops.
pub proof fn law_news_leads_to_reconciliation(
    router: &mut StateRouter,
    input: RouterInput,
    observation_revision: u64,
    turn: RouterTurn,
)
    requires
        old(router).retry.wf(),
        call_ensures(StateRouter::on_input, (router, input, observation_revision), turn),
    ensures
        input == RouterInput::Membership || input == RouterInput::Observation || input == (
        RouterInput::Advertised { changed: true }) ==> {
            &&& turn is Reconcile
            &&& final(router).retry.fence is None && !final(router).retry.armed
            &&& final(router).retry.next_delay_ms == 100
        },
        input == (RouterInput::Advertised { changed: false }) ==> turn is Wait
            && final(router).retry == old(router).retry,
        input is StreamEnded ==> turn is FailClosed && final(router).retry == old(router).retry,
        input is Cancelled ==> turn is Stop && final(router).retry == old(router).retry,
        final(router).consumers_started == old(router).consumers_started,
        final(router).next_recovery_schedule == old(router).next_recovery_schedule,
        final(router).committed_revision == old(router).committed_revision,
{
}

/// A due retry leads to a reconciliation exactly if there is a fence and all that it holds still
/// stands; one that was overtaken starts the delays over.
pub proof fn law_due_retry_leads_to_reconciliation(
    router: &mut StateRouter,
    observation_revision: u64,
    turn: RouterTurn,
    fence: RecoveryRetryFence,
)
    requires
        old(router).retry.wf(),
        call_ensures(
            StateRouter::on_input,
            (router, RouterInput::RetryDue, observation_revision),
            turn,
        ),
    ensures
        old(router).retry.fence is None ==> turn is Wait && final(router).retry.next_delay_ms
            == old(router).retry.next_delay_ms,
        old(router).retry.fence == Some(fence) ==> {
            let stands = {
                &&& fence.observation_revision == observation_revision
                &&& old(router).agent.sources@.dom().contains(fence.source.publisher_id)
                &&& old(router).agent.sources@[fence.source.publisher_id] == fence.source
                &&& fence.attachment is Some ==> old(router).agent.attachments@.dom().contains(
                    fence.attachment->0.record_id,
                ) && old(router).agent.attachments@[fence.attachment->0.record_id]
                    == fence.attachment->0
            };
            &&& stands ==> turn is Reconcile && final(router).retry.next_delay_ms
                == old(router).retry.next_delay_ms
            &&& !stands ==> turn is Wait && final(router).retry.next_delay_ms == 100
        },
        final(router).retry.fence is None && !final(router).retry.armed,
{
}

/// A reconciliation runs only once consumers are started, which they are to be as soon as there is
/// a source; each gets the next number, and none once the numbers are used up.
pub proof fn law_reconciliations_are_numbered(router: &mut StateRouter, gate: ReconcileGate)
    requires
        call_ensures(StateRouter::open_reconcile, (router,), gate),
    ensures
        !old(router).consumers_started ==> {
            &&& gate is StartConsumers || gate is Idle
            &&& gate is Idle <==> old(router).agent.sources@.dom() == Set::<u64>::empty()
            &&& final(router).next_recovery_schedule == old(router).next_recovery_schedule
        },
        old(router).consumers_started && old(router).next_recovery_schedule < u64::MAX ==> {
            &&& gate is Schedule
            &&& gate->schedule_generation == old(router).next_recovery_schedule + 1
            &&& final(router).next_recovery_schedule == gate->schedule_generation
        },
        old(router).consumers_started && old(router).next_recovery_schedule == u64::MAX ==> gate
            is Exhausted && final(router).next_recovery_schedule == u64::MAX,
        final(router).retry == old(router).retry,
        final(router).committed_revision == old(router).committed_revision,
        final(router).consumers_started == old(router).consumers_started,
{
    assert(old(router).agent.sources@.dom().is_empty() ==> old(router).agent.sources@.dom()
        =~= Set::<u64>::empty());
}

/// A start of the consumers is remembered and ends a pending retry; a failed one is tried again
/// while there is a source, unless a retry is armed already.
pub proof fn law_failed_start_is_tried_again(
    router: &mut StateRouter,
    started: bool,
    observation_revision: u64,
    delay_ms: Option<u64>,
)
    requires
        old(router).retry.wf(),
        call_ensures(
            StateRouter::on_consumers_started,
            (router, started, observation_revision),
            delay_ms,
        ),
    ensures
        started ==> final(router).consumers_started && delay_ms is None
            && !final(router).retry.armed && final(router).retry.fence is None
            && final(router).retry.next_delay_ms == 100,
        !started ==> {
            &&& final(router).consumers_started == old(router).consumers_started
            &&& delay_ms is Some <==> !old(router).agent.sources@.dom().is_empty()
                && !old(router).retry.armed
            &&& delay_ms is Some ==> delay_ms->0 == old(router).retry.next_delay_ms
                && final(router).retry.armed
            &&& delay_ms is None ==> final(router).retry == old(router).retry
        },
        final(router).committed_revision == old(router).committed_revision,
{
}

/// A failed reconciliation is retried under a fence that holds the advertised source with the
/// lowest publisher id, no attachment, and the observation at hand.
pub proof fn law_failed_reconciliation_is_fenced_by_the_first_source(
    router: &mut StateRouter,
    revision: u64,
    delay_ms: Option<u64>,
    publisher_id: u64,
)
    requires
        old(router).retry.wf(),
        call_ensures(StateRouter::finish_schedule, (router, revision, false), delay_ms),
        old(router).agent.sources@.dom().contains(publisher_id),
        !old(router).retry.armed,
        forall|other: u64| #[trigger]
            old(router).agent.sources@.dom().contains(other) ==> publisher_id <= other,
    ensures
        delay_ms == Some(old(router).retry.next_delay_ms),
        final(router).retry.fence is Some,
        ({
            let fence = final(router).retry.fence->0;
            &&& fence.source == old(router).agent.sources@[publisher_id]
            &&& fence.attachment is None
            &&& fence.observation_revision == revision
            &&& !fence.activation_expected
        }),
{
    let sources = old(router).agent.sources@;
    assert(is_least_key(sources, publisher_id));
    let least = choose|least: u64|
        {
            &&& is_least_key(sources, least)
            &&& final(router).retry == old(router).retry.scheduled(
                RecoveryRetryFence {
                    source: sources[least],
                    attachment: None,
                    observation_revision: revision,
                    activation_expected: false,
                },
            )
            &&& delay_ms == if old(router).retry.armed {
                None
            } else {
                Some(old(router).retry.next_delay_ms)
            }
        };
    assert(sources.dom().contains(least));
    assert(least == publisher_id);
}

/// Only a reconciliation that completed can be published under: its revision is committed, and a
/// failed one withdraws the commitment. What changed is published under the commitment, and
/// nothing is where nothing changed; a publication that came too late ends the commitment.
pub proof fn law_only_a_complete_reconciliation_is_published(
    router: &mut StateRouter,
    revision: u64,
    complete: bool,
    delay_ms: Option<u64>,
    asked: &StateRouter,
    changed: bool,
    published: Option<u64>,
    late: &mut StateRouter,
)
    requires
        old(router).retry.wf(),
        call_ensures(StateRouter::finish_schedule, (router, revision, complete), delay_ms),
        call_ensures(StateRouter::publication_revision, (asked, changed), published),
        call_ensures(StateRouter::on_publication_superseded, (late,), ()),
    ensures
        complete ==> final(router).committed_revision == Some(revision) && delay_ms is None
            && final(router).retry == old(router).retry,
        !complete ==> final(router).committed_revision is None,
        changed ==> published == asked.committed_revision,
        !changed ==> published is None,
        final(late).committed_revision is None,
        final(late).retry == old(late).retry,
        final(late).consumers_started == old(late).consumers_started,
        final(late).next_recovery_schedule == old(late).next_recovery_schedule,
{
}

/// The result of a recovery that anything overtook is dropped; a status or an answer that could
/// not be had fails the recovery; without a need for state, and after the second status, the
/// owner is settled at its cursor.
pub proof fn law_finished_recovery_is_settled_or_failed(
    router: &mut StateRouter,
    result: OwnerRecoveryResult,
    live: &Table<WorkerWithDpRank, KvSourceStatus>,
    observation_revision: u64,
    step: OwnerRecoveryStep,
)
    requires
        call_ensures(
            StateRouter::begin_finish_recovery,
            (router, result, live, observation_revision),
            step,
        ),
    ensures
        ({
            let plan = match result {
                OwnerRecoveryResult::Initial { plan, .. } => plan,
                OwnerRecoveryResult::PostStatus { plan, .. } => plan,
            };
            let agent = old(router).agent;
            let current = {
                &&& observation_revision == plan.observation_revision
                &&& agent.sources@.dom().contains(plan.source.publisher_id)
                &&& agent.sources@[plan.source.publisher_id] == plan.source
                &&& plan.recognized_worker is Some ==> live@.dom().contains(
                    plan.recognized_worker->0,
                )
                &&& plan.attachment is Some ==> agent.attachments@.dom().contains(
                    plan.attachment->0.record_id,
                ) && agent.attachments@[plan.attachment->0.record_id] == plan.attachment->0
                &&& agent.recovery_tails@.dom().contains(plan.owner)
                &&& agent.recovery_tails@[plan.owner].schedule_generation
                    == plan.schedule_generation
            };
            &&& !current <==> step is Stale
            &&& !current ==> final(router).agent.runtime@ == agent.runtime@
                && final(router).agent.recovery_tails@ == agent.recovery_tails@
            &&& current ==> match result {
                OwnerRecoveryResult::Initial { status, recovery, .. } => {
                    &&& step is Failed <==> status is None || recovery == Some(
                        None::<StateAgentResponse>,
                    )
                    &&& step is Settle <==> status is Some && recovery is None
                    &&& step is Settle ==> step->status == status->0 && step->recovered_cursor
                        == plan.previous_cursor
                    &&& step is Apply || step is Refuse <==> status is Some && recovery is Some
                        && recovery->0 is Some
                },
                OwnerRecoveryResult::PostStatus { recovered_cursor, status, .. } => {
                    &&& step is Settle <==> status is Some
                    &&& step is Settle ==> step->status == status->0 && step->recovered_cursor
                        == recovered_cursor
                    &&& step is Failed <==> status is None
                },
            }
            &&& step is Failed && agent.runtime@.dom().contains(plan.owner) ==> {
                &&& final(router).agent.runtime@[plan.owner].recovery_required
                &&& !final(router).agent.runtime@[plan.owner].ready
                &&& !final(router).agent.runtime@[plan.owner].hint_ready
            }
        }),
{
}

/// After a recovery a retry is asked for exactly if the publisher still feeds the owner and the
/// owner either wants a recovery or is unready although it was to be activated.
pub proof fn law_unfinished_owner_is_retried(
    router: &mut StateRouter,
    owner: CacheOwnerId,
    publisher_id: u64,
    fence: RecoveryRetryFence,
    delay_ms: Option<u64>,
    state: OwnerRuntime,
)
    requires
        old(router).retry.wf(),
        call_ensures(
            StateRouter::after_recovery,
            (router, owner, publisher_id, fence),
            delay_ms,
        ),
    ensures
        lookup(old(router).agent.runtime@, owner) is None ==> delay_ms is None
            && final(router).retry == old(router).retry,
        lookup(old(router).agent.runtime@, owner) == Some(state) ==> {
            let wanted = state.publisher_id == Some(publisher_id) && (state.recovery_required
                || fence.activation_expected && !state.ready);
            &&& delay_ms is Some <==> wanted && !old(router).retry.armed
            &&& delay_ms is Some ==> delay_ms->0 == old(router).retry.next_delay_ms
                && final(router).retry.fence == Some(fence) && final(router).retry.armed
            &&& delay_ms is None ==> final(router).retry == old(router).retry
        },
        final(router).committed_revision == old(router).committed_revision,
        final(router).agent.runtime@ == old(router).agent.runtime@,
{
}

/// After a membership change a rank stays suppressed while it is listed, and one whose worker
/// declares another mode is suppressed; an unlisted rank is not.
pub proof fn law_suppression_ends_with_membership(
    view: &KvSourceMembershipView,
    recognized: &Vec<WorkerWithDpRank>,
    workers: Vec<WorkerWithDpRank>,
    worker: WorkerWithDpRank,
)
    requires
        call_ensures(recognized_after_membership, (view, recognized), workers),
    ensures
        !view.sources@.dom().contains(worker) ==> !workers@.contains(worker),
        view.sources@.dom().contains(worker) && recognized@.contains(worker) ==> workers@.contains(
            worker,
        ),
        view.sources@.dom().contains(worker) && view.kv_event_source_mode@.dom().contains(
            worker.worker_id,
        ) && view.kv_event_source_mode@[worker.worker_id]@ != "framework_v1"@ ==> workers@.contains(
            worker,
        ),
        workers@.contains(worker) && !recognized@.contains(worker)
            ==> view.kv_event_source_mode@.dom().contains(worker.worker_id)
            && view.kv_event_source_mode@[worker.worker_id]@ != "framework_v1"@,
        workers@.no_duplicates(),
{
}

/// An answer that is applied brings its own events in, after the clears that make room for them:
/// the worker of the plan is cleared last, and before it the owner where its publisher is new.
pub proof fn law_answer_is_applied_after_its_clears(
    router: &mut StateRouter,
    plan: OwnerRecoveryPlan,
    status: KvStateAgentStatus,
    response: WorkerKvQueryResponse,
    receipt: KvStateRecoveryReceipt,
    live: &Table<WorkerWithDpRank, KvSourceStatus>,
    observation_revision: u64,
    step: OwnerRecoveryStep,
)
    requires
        call_ensures(
            StateRouter::begin_finish_recovery,
            (
                router,
                OwnerRecoveryResult::Initial {
                    plan,
                    status: Some(status),
                    recovery: Some(
                        Some(StateAgentResponse::StateAgentRecovery { response, receipt }),
                    ),
                },
                live,
                observation_revision,
            ),
            step,
        ),
    ensures
        step is Apply ==> {
            &&& match response {
                WorkerKvQueryResponse::Events { events, last_event_id } => {
                    &&& step->application.events@ == events@
                    &&& step->application.recovered_cursor >= last_event_id
                },
                WorkerKvQueryResponse::TreeDump { events, last_event_id, .. } => {
                    &&& step->application.events@ == events@
                    &&& step->application.recovered_cursor >= last_event_id
                },
                _ => false,
            }
            &&& receipt.identity == plan.expected
            &&& step->application.recovered_cursor >= receipt.recovered_through_cursor
        },
        step is Apply || step is Refuse ==> {
            let clears = if step is Apply {
                step->Apply_clears@
            } else {
                step->Refuse_clears@
            };
            &&& plan.recognized_worker is Some ==> clears.len() > 0 && clears.last() == (
            StateClear::Worker { worker: plan.recognized_worker->0, owner: plan.owner })
            &&& plan.recovery_required && plan.previous_publisher_id != Some(
                plan.source.publisher_id,
            ) ==> clears.len() > 0 && clears[0] == (StateClear::CacheOwner {
                owner: plan.owner,
                event_id: 0,
            })
            &&& !plan.recovery_required && plan.recognized_worker is None ==> clears.len() == 0
        },
        final(router).agent.runtime@ == old(router).agent.runtime@,
{
}

/// The fence of a reconciliation that failed as a whole holds the source with the lowest publisher
/// id; without a source there is none.
pub proof fn law_first_source_fences_the_retry(
    sources: &Table<u64, KvStateSourceAdvertisement>,
    observation_revision: u64,
    fence: Option<RecoveryRetryFence>,
    publisher_id: u64,
)
    requires
        call_ensures(source_retry_fence, (sources, observation_revision), fence),
        sources@.dom().contains(publisher_id),
        forall|other: u64| #[trigger] sources@.dom().contains(other) ==> publisher_id <= other,
    ensures
        fence is Some,
        fence->0.source == sources@[publisher_id],
        fence->0.attachment is None,
        fence->0.observation_revision == observation_revision,
        !fence->0.activation_expected,
{
    if fence is Some {
        let least = choose|least: u64|
            is_least_key(sources@, least) && fence->0 == (RecoveryRetryFence {
                source: sources@[least],
                attachment: None,
                observation_revision,
                activation_expected: false,
            });
        assert(sources@.dom().contains(least));
        assert(least == publisher_id);
    }
}

/// A reconciliation that was overtaken says so.
pub proof fn law_superseded_is_told_in_words(error: &Superseded, message: &'static str)
    requires
        call_ensures(Superseded::message, (error,), message),
    ensures
        message@ == "KV state reconciliation was superseded by a newer observation"@,
{
}

} // verus!
