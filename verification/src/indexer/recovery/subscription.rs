//! Subscription to the event plane: which ingress to use, when to subscribe again, and how many
//! serving ranks lack the event source they need.
use vstd::prelude::*;

use crate::membership::{KvSourceMembershipView, KvSourceStatus};
use crate::protocols::WorkerWithDpRank;
use crate::table::{distinct_keys, has_entry, lookup};

verus! {

pub const SUBSCRIPTION_INITIAL_BACKOFF_MS: u64 = 100;

pub const SUBSCRIPTION_MAX_BACKOFF_MS: u64 = 5000;

/// Pauses that double from attempt to attempt, up to a limit.
#[derive(Clone, Copy, Debug, PartialEq, Eq, Structural)]
pub struct Backoff {
    pub delay_ms: u64,
}

impl Backoff {
    pub open spec fn wf(self) -> bool {
        SUBSCRIPTION_INITIAL_BACKOFF_MS <= self.delay_ms <= SUBSCRIPTION_MAX_BACKOFF_MS
    }

    pub open spec fn initial() -> Backoff {
        Backoff { delay_ms: SUBSCRIPTION_INITIAL_BACKOFF_MS }
    }

    pub open spec fn next(self) -> Backoff {
        Backoff {
            delay_ms: if self.delay_ms * 2 > SUBSCRIPTION_MAX_BACKOFF_MS {
                SUBSCRIPTION_MAX_BACKOFF_MS
            } else {
                (self.delay_ms * 2) as u64
            },
        }
    }

    pub fn new() -> (backoff: Self)
        ensures
            backoff == Backoff::initial(),
            backoff.wf(),
    {
        Backoff { delay_ms: SUBSCRIPTION_INITIAL_BACKOFF_MS }
    }

    pub fn reset(&mut self)
        ensures
            *final(self) == Backoff::initial(),
            final(self).wf(),
    {
        self.delay_ms = SUBSCRIPTION_INITIAL_BACKOFF_MS;
    }

    /// The pause to take now; the next one is longer.
    pub fn take(&mut self) -> (delay_ms: u64)
        requires
            old(self).wf(),
        ensures
            delay_ms == old(self).delay_ms,
            *final(self) == old(self).next(),
            final(self).wf(),
    {
        let delay_ms: u64 = self.delay_ms;
        self.delay_ms = if delay_ms * 2 > SUBSCRIPTION_MAX_BACKOFF_MS {
            SUBSCRIPTION_MAX_BACKOFF_MS
        } else {
            delay_ms * 2
        };
        delay_ms
    }
}

/// A pause never exceeds the limit and never shrinks while attempts keep failing.
pub proof fn law_backoff_is_bounded(backoff: Backoff)
    requires
        backoff.wf(),
    ensures
        backoff.delay_ms <= backoff.next().delay_ms <= SUBSCRIPTION_MAX_BACKOFF_MS,
        backoff.next().delay_ms == backoff.delay_ms ==> backoff.delay_ms
            == SUBSCRIPTION_MAX_BACKOFF_MS,
{
}

/// Why a subscription to one endpoint ended.
#[derive(Clone, Copy, Debug, PartialEq, Eq, Structural)]
pub enum ScopeExit {
    /// Membership moved to another endpoint.
    Rebind,
    Retry,
    Stop,
}

/// What wakes a subscription to one endpoint.
#[derive(Clone, Copy, Debug, PartialEq, Eq, Structural)]
pub enum ScopeWake {
    Cancelled,
    MembershipClosed,
    /// Membership changed; the endpoint on which it agrees now.
    MembershipChanged { resolved: Option<u64> },
    /// The task that follows membership ended on its own.
    MembershipTaskEnded,
    StreamEnded,
    /// An envelope came, readable or not.
    Envelope,
}

pub open spec fn scope_exit(wake: ScopeWake, bound_endpoint: u64) -> Option<ScopeExit> {
    match wake {
        ScopeWake::Cancelled | ScopeWake::MembershipClosed => Some(ScopeExit::Stop),
        ScopeWake::MembershipChanged { resolved } => if resolved == Some(bound_endpoint) {
            None
        } else {
            Some(ScopeExit::Rebind)
        },
        ScopeWake::MembershipTaskEnded | ScopeWake::StreamEnded => Some(ScopeExit::Retry),
        ScopeWake::Envelope => None,
    }
}

/// What follows once a subscription was made, or could not be made for want of an endpoint.
#[derive(Clone, Copy, Debug, PartialEq, Eq, Structural)]
pub enum SubscribedStep {
    /// Membership moved on meanwhile: start over.
    Restart,
    /// No endpoint is agreed on: wait for membership.
    AwaitMembership { announce_startup: bool },
    Consume { announce_startup: bool },
}

/// What follows the end of a subscription.
#[derive(Clone, Copy, Debug, PartialEq, Eq, Structural)]
pub enum SupervisorStep {
    Again,
    /// Report the failure, wait, and subscribe again.
    RetryAfter { delay_ms: u64 },
    Stop,
}

/// Keeps one subscription alive across endpoint changes and failures.
#[derive(Clone, Copy, Debug, PartialEq, Eq, Structural)]
pub struct SubscriptionSupervisor {
    pub backoff: Backoff,
    /// Whether the start is still to be announced.
    pub startup_pending: bool,
}

impl SubscriptionSupervisor {
    pub fn new() -> (supervisor: Self)
        ensures
            supervisor.backoff == Backoff::initial(),
            supervisor.backoff.wf(),
            supervisor.startup_pending,
    {
        SubscriptionSupervisor { backoff: Backoff::new(), startup_pending: true }
    }

    fn take_startup(&mut self) -> (announce: bool)
        ensures
            announce == old(self).startup_pending,
            *final(self) == (SubscriptionSupervisor { startup_pending: false, ..*old(self) }),
    {
        let announce: bool = self.startup_pending;
        self.startup_pending = false;
        announce
    }

    /// Subscribing failed: whether to announce the start all the same, and how long to wait.
    pub fn on_subscribe_failed(&mut self) -> (step: (bool, u64))
        requires
            old(self).backoff.wf(),
        ensures
            step == (old(self).startup_pending, old(self).backoff.delay_ms),
            *final(self) == (SubscriptionSupervisor {
                startup_pending: false,
                backoff: old(self).backoff.next(),
            }),
            final(self).backoff.wf(),
    {
        let announce: bool = self.take_startup();
        let delay_ms: u64 = self.backoff.take();
        (announce, delay_ms)
    }

    /// A subscription was made for `subscribed`; `resolved` is what membership agrees on now.
    pub fn on_subscribed(&mut self, subscribed: Option<u64>, resolved: Option<u64>) -> (step:
        SubscribedStep)
        ensures
            step == if resolved != subscribed {
                SubscribedStep::Restart
            } else if subscribed is None {
                SubscribedStep::AwaitMembership { announce_startup: old(self).startup_pending }
            } else {
                SubscribedStep::Consume { announce_startup: old(self).startup_pending }
            },
            *final(self) == if resolved != subscribed {
                *old(self)
            } else {
                SubscriptionSupervisor { startup_pending: false, ..*old(self) }
            },
    {
        if resolved != subscribed {
            return SubscribedStep::Restart;
        }
        let announce_startup: bool = self.take_startup();
        if subscribed.is_none() {
            SubscribedStep::AwaitMembership { announce_startup }
        } else {
            SubscribedStep::Consume { announce_startup }
        }
    }

    /// Decide whether the subscription to `bound_endpoint` goes on. Every envelope, readable or
    /// not, shows that the transport works.
    pub fn on_wake(&mut self, wake: ScopeWake, bound_endpoint: u64) -> (exit: Option<ScopeExit>)
        ensures
            exit == scope_exit(wake, bound_endpoint),
            *final(self) == if wake == ScopeWake::Envelope {
                SubscriptionSupervisor { backoff: Backoff::initial(), ..*old(self) }
            } else {
                *old(self)
            },
            old(self).backoff.wf() ==> final(self).backoff.wf(),
    {
        match wake {
            ScopeWake::Cancelled => Some(ScopeExit::Stop),
            ScopeWake::MembershipClosed => Some(ScopeExit::Stop),
            ScopeWake::MembershipChanged { resolved } => {
                if resolved == Some(bound_endpoint) {
                    None
                } else {
                    Some(ScopeExit::Rebind)
                }
            },
            ScopeWake::MembershipTaskEnded => Some(ScopeExit::Retry),
            ScopeWake::StreamEnded => Some(ScopeExit::Retry),
            ScopeWake::Envelope => {
                self.backoff.reset();
                None
            },
        }
    }

    pub fn on_scope_exit(&mut self, exit: ScopeExit) -> (step: SupervisorStep)
        requires
            old(self).backoff.wf(),
        ensures
            final(self).backoff.wf(),
            final(self).startup_pending == old(self).startup_pending,
            match exit {
                ScopeExit::Rebind => step == SupervisorStep::Again && final(self).backoff
                    == Backoff::initial(),
                ScopeExit::Retry => step == (SupervisorStep::RetryAfter {
                    delay_ms: old(self).backoff.delay_ms,
                }) && final(self).backoff == old(self).backoff.next(),
                ScopeExit::Stop => {
                    &&& step == SupervisorStep::Stop
                    &&& final(self).backoff == old(self).backoff
                },
            },
    {
        match exit {
            ScopeExit::Rebind => {
                self.backoff.reset();
                SupervisorStep::Again
            },
            ScopeExit::Retry => SupervisorStep::RetryAfter { delay_ms: self.backoff.take() },
            ScopeExit::Stop => SupervisorStep::Stop,
        }
    }
}

/// How events reach the router.
#[derive(Clone, Copy, Debug, PartialEq, Eq, Structural)]
pub enum EventTransportKind {
    Zmq,
    Other,
}

#[derive(Clone, Copy, Debug, PartialEq, Eq, Structural)]
pub enum KvEventIngress {
    BrokeredZmq,
    Aggregated,
    DirectZmq,
}

/// The ingress that a subscriber starts on a transport.
pub fn select_ingress(transport_kind: EventTransportKind, direct_zmq: bool) -> (ingress:
    KvEventIngress)
    ensures
        ingress == if direct_zmq {
            KvEventIngress::DirectZmq
        } else if transport_kind == EventTransportKind::Zmq {
            KvEventIngress::BrokeredZmq
        } else {
            KvEventIngress::Aggregated
        },
{
    if transport_kind == EventTransportKind::Zmq && !direct_zmq {
        return KvEventIngress::BrokeredZmq;
    }
    if !direct_zmq {
        return KvEventIngress::Aggregated;
    }
    KvEventIngress::DirectZmq
}

/// What the router needs event sources for.
#[derive(Clone, Copy, Debug, PartialEq, Eq, Structural)]
pub enum KvEventSourceRequirement {
    NotRequired,
    Unknown,
    CacheAwareRouting,
    Other { requires_source: bool },
}

impl KvEventSourceRequirement {
    /// Whether a source is known to be required.
    pub open spec fn needs_source(self) -> bool {
        match self {
            KvEventSourceRequirement::CacheAwareRouting => true,
            KvEventSourceRequirement::Other { requires_source } => requires_source,
            _ => false,
        }
    }

    pub fn requires_source(&self) -> (required: bool)
        ensures
            required == self.needs_source(),
    {
        match self {
            KvEventSourceRequirement::CacheAwareRouting => true,
            KvEventSourceRequirement::Other { requires_source } => *requires_source,
            _ => false,
        }
    }
}

#[derive(Clone, Copy, Debug, PartialEq, Eq, Structural)]
pub enum MismatchMetricScope {
    Generic,
    Router(KvEventSourceRequirement),
}

/// Whether a rank lacks the source that is expected of it.
pub open spec fn is_mismatch(
    recovery_expected: Map<WorkerWithDpRank, bool>,
    worker: WorkerWithDpRank,
    status: KvSourceStatus,
) -> bool {
    match status {
        KvSourceStatus::Missing | KvSourceStatus::Ambiguous(_) => true,
        KvSourceStatus::Suppressed => false,
        KvSourceStatus::ActiveLiveOnly(_) => lookup(recovery_expected, worker) == Some(true),
        KvSourceStatus::ActiveRecoverable(_) => false,
    }
}

pub fn source_status_is_mismatch(
    view: &KvSourceMembershipView,
    worker: &WorkerWithDpRank,
    status: &KvSourceStatus,
) -> (mismatch: bool)
    ensures
        mismatch == is_mismatch(view.recovery_expected@, *worker, *status),
{
    match status {
        KvSourceStatus::Missing => true,
        KvSourceStatus::Ambiguous(_) => true,
        KvSourceStatus::Suppressed => false,
        KvSourceStatus::ActiveLiveOnly(_) => match view.recovery_expected.get(worker) {
            Some(expected) => *expected,
            None => false,
        },
        KvSourceStatus::ActiveRecoverable(_) => false,
    }
}

/// The ranks that count as mismatched under a strict or a lenient reading: a strict one also
/// counts workers that declare not to publish events.
pub open spec fn mismatched_ranks(view: KvSourceMembershipView, strict: bool) -> Set<
    WorkerWithDpRank,
> {
    Set::new(|worker: WorkerWithDpRank| counts_as_mismatch(view, strict, worker))
}

pub open spec fn counts_as_mismatch(
    view: KvSourceMembershipView,
    strict: bool,
    worker: WorkerWithDpRank,
) -> bool {
    view.sources@.dom().contains(worker) && (is_mismatch(
        view.recovery_expected@,
        worker,
        view.sources@[worker],
    ) || (strict && lookup(view.kv_event_publishing_enabled@, worker.worker_id) == Some(false)))
}

fn count_mismatches(view: &KvSourceMembershipView, strict: bool) -> (count: usize)
    ensures
        mismatched_ranks(*view, strict).finite(),
        count == mismatched_ranks(*view, strict).len(),
{
    let len: usize = view.sources.len();
    let ghost listing = view.sources.listing();
    let ghost mut counted: Set<WorkerWithDpRank> = Set::empty();
    let mut count: usize = 0;
    let mut i: usize = 0;
    while i < len
        invariant
            i <= len,
            len == listing.len(),
            listing == view.sources.listing(),
            distinct_keys(listing),
            forall|j: int|
                0 <= j < len ==> view.sources@.dom().contains((#[trigger] listing[j]).0)
                    && view.sources@[listing[j].0] == listing[j].1,
            counted.finite(),
            count == counted.len(),
            count <= i,
            forall|worker: WorkerWithDpRank| #[trigger]
                counted.contains(worker) ==> counts_as_mismatch(*view, strict, worker) && has_entry(
                    listing.subrange(0, i as int),
                    worker,
                ),
            forall|j: int|
                0 <= j < i && counts_as_mismatch(*view, strict, (#[trigger] listing[j]).0)
                    ==> counted.contains(listing[j].0),
        decreases len - i,
    {
        let worker = view.sources.key_at(i);
        let status: KvSourceStatus = *view.sources.value_at(i);
        let silent: bool = match view.kv_event_publishing_enabled.get(&worker.worker_id) {
            Some(enabled) => !*enabled,
            None => false,
        };
        proof {
            assert(view.sources@.dom().contains(listing[i as int].0));
            crate::membership::lemma_prefix_entry(listing, i as int);
            if counted.contains(worker) {
                let prefix = listing.subrange(0, i as int);
                let j = choose|j: int| 0 <= j < prefix.len() && (#[trigger] prefix[j]).0 == worker;
                assert(listing[j].0 == listing[i as int].0);
            }
        }
        if source_status_is_mismatch(view, &worker, &status) || (strict && silent) {
            count = count + 1;
            proof {
                counted = counted.insert(worker);
            }
        }
        i = i + 1;
    }
    proof {
        assert forall|worker: WorkerWithDpRank| counts_as_mismatch(*view, strict, worker) implies
            counted.contains(worker) by {
            assert(has_entry(listing, worker));
            let j = choose|j: int| 0 <= j < listing.len() && (#[trigger] listing[j]).0 == worker;
            assert(counts_as_mismatch(*view, strict, listing[j].0));
        }
        assert(counted =~= mismatched_ranks(*view, strict));
    }
    count
}

/// The number of ranks without the source that is expected of them, as far as one is required.
pub fn mismatch_count(view: &KvSourceMembershipView, metric_scope: MismatchMetricScope) -> (count:
    usize)
    ensures
        count == match metric_scope {
            MismatchMetricScope::Router(KvEventSourceRequirement::Unknown)
            | MismatchMetricScope::Generic => mismatched_ranks(*view, false).len(),
            MismatchMetricScope::Router(requirement) => if requirement.needs_source() {
                mismatched_ranks(*view, true).len()
            } else {
                0
            },
        },
{
    match metric_scope {
        MismatchMetricScope::Router(KvEventSourceRequirement::Unknown) => legacy_mismatch_count(
            view,
        ),
        MismatchMetricScope::Generic => legacy_mismatch_count(view),
        MismatchMetricScope::Router(requirement) => {
            if requirement.requires_source() {
                count_mismatches(view, true)
            } else {
                0
            }
        },
    }
}

pub fn legacy_mismatch_count(view: &KvSourceMembershipView) -> (count: usize)
    ensures
        count == mismatched_ranks(*view, false).len(),
{
    count_mismatches(view, false)
}

/// The count to report while the subscription is down: every rank, where sources matter.
pub fn subscription_failure_count(
    view: &KvSourceMembershipView,
    metric_scope: MismatchMetricScope,
) -> (count: usize)
    ensures
        count == if metric_scope == MismatchMetricScope::Router(
            KvEventSourceRequirement::NotRequired,
        ) {
            0
        } else {
            view.sources@.dom().len()
        },
{
    match metric_scope {
        MismatchMetricScope::Router(KvEventSourceRequirement::NotRequired) => 0,
        _ => view.sources.len(),
    }
}

/// A suppressed rank is never reported as mismatched on account of its source.
pub proof fn law_suppressed_rank_is_no_mismatch(
    recovery_expected: Map<WorkerWithDpRank, bool>,
    worker: WorkerWithDpRank,
)
    ensures
        !is_mismatch(recovery_expected, worker, KvSourceStatus::Suppressed),
{
}

/// Whatever the reading, no more ranks are mismatched than there are, and a strict reading
/// finds every mismatch that a lenient one finds.
pub proof fn law_strict_count_covers_lenient(view: KvSourceMembershipView)
    requires
        view.sources@.dom().finite(),
    ensures
        mismatched_ranks(view, false).len() <= mismatched_ranks(view, true).len()
            <= view.sources@.dom().len(),
{
    assert(mismatched_ranks(view, true).subset_of(view.sources@.dom()));
    vstd::set_lib::lemma_len_subset(mismatched_ranks(view, true), view.sources@.dom());
    assert(mismatched_ranks(view, false).subset_of(mismatched_ranks(view, true)));
    vstd::set_lib::lemma_len_subset(mismatched_ranks(view, false), mismatched_ranks(view, true));
}

/// The first pause is 100 ms; each pause that is taken doubles the next one, up to 5000 ms; a
/// reset starts over.
pub proof fn law_pauses_double_up_to_the_limit(
    fresh: Backoff,
    backoff: &mut Backoff,
    delay_ms: u64,
    reset: &mut Backoff,
)
    requires
        call_ensures(Backoff::new, (), fresh),
        old(backoff).wf(),
        call_ensures(Backoff::take, (backoff,), delay_ms),
        call_ensures(Backoff::reset, (reset,), ()),
    ensures
        fresh.delay_ms == 100,
        delay_ms == old(backoff).delay_ms,
        old(backoff).delay_ms <= 2500 ==> final(backoff).delay_ms == 2 * old(backoff).delay_ms,
        old(backoff).delay_ms > 2500 ==> final(backoff).delay_ms == 5000,
        final(reset).delay_ms == 100,
{
}

/// A failed subscription announces the start where that is still to be done, once, waits for the
/// pause at hand, and makes the next one longer.
pub proof fn law_failed_subscription_waits(
    supervisor: &mut SubscriptionSupervisor,
    step: (bool, u64),
)
    requires
        old(supervisor).backoff.wf(),
        call_ensures(SubscriptionSupervisor::on_subscribe_failed, (supervisor,), step),
    ensures
        step.0 == old(supervisor).startup_pending,
        step.1 == old(supervisor).backoff.delay_ms,
        !final(supervisor).startup_pending,
        old(supervisor).backoff.delay_ms <= 2500 ==> final(supervisor).backoff.delay_ms == 2
            * old(supervisor).backoff.delay_ms,
        old(supervisor).backoff.delay_ms > 2500 ==> final(supervisor).backoff.delay_ms == 5000,
{
}

/// A subscription is used only for the endpoint that membership still agrees on; without one the
/// supervisor waits for membership. Where it does not start over, the start is announced, once.
pub proof fn law_subscription_serves_the_agreed_endpoint(
    supervisor: &mut SubscriptionSupervisor,
    subscribed: Option<u64>,
    resolved: Option<u64>,
    step: SubscribedStep,
)
    requires
        call_ensures(
            SubscriptionSupervisor::on_subscribed,
            (supervisor, subscribed, resolved),
            step,
        ),
    ensures
        step is Restart <==> subscribed != resolved,
        step is Consume <==> subscribed == resolved && resolved is Some,
        step is AwaitMembership <==> subscribed is None && resolved is None,
        step is Consume ==> step->Consume_announce_startup == old(supervisor).startup_pending,
        step is AwaitMembership ==> step->AwaitMembership_announce_startup
            == old(supervisor).startup_pending,
        step is Restart ==> *final(supervisor) == *old(supervisor),
        !(step is Restart) ==> !final(supervisor).startup_pending && final(supervisor).backoff
            == old(supervisor).backoff,
{
}

/// A subscription stops when it is cancelled or membership closes, binds anew when membership
/// moves off its endpoint, is retried when its stream or the membership task ends, and goes on
/// otherwise; an envelope starts the pauses over, and nothing else does.
pub proof fn law_wake_ends_the_scope_for_a_reason(
    supervisor: &mut SubscriptionSupervisor,
    wake: ScopeWake,
    bound_endpoint: u64,
    exit: Option<ScopeExit>,
)
    requires
        call_ensures(SubscriptionSupervisor::on_wake, (supervisor, wake, bound_endpoint), exit),
    ensures
        wake is Cancelled || wake is MembershipClosed ==> exit == Some(ScopeExit::Stop),
        wake is StreamEnded || wake is MembershipTaskEnded ==> exit == Some(ScopeExit::Retry),
        wake is Envelope ==> exit is None && final(supervisor).backoff.delay_ms == 100,
        !(wake is Envelope) ==> final(supervisor).backoff == old(supervisor).backoff,
        wake is MembershipChanged && wake->resolved == Some(bound_endpoint) ==> exit is None,
        wake is MembershipChanged && wake->resolved != Some(bound_endpoint) ==> exit == Some(
            ScopeExit::Rebind,
        ),
        final(supervisor).startup_pending == old(supervisor).startup_pending,
{
}

/// After a rebind the supervisor subscribes again at once and starts the pauses over; after a
/// failure it waits for the pause at hand; after a stop it is over.
pub proof fn law_exit_says_how_to_go_on(
    supervisor: &mut SubscriptionSupervisor,
    exit: ScopeExit,
    step: SupervisorStep,
)
    requires
        old(supervisor).backoff.wf(),
        call_ensures(SubscriptionSupervisor::on_scope_exit, (supervisor, exit), step),
    ensures
        exit is Rebind ==> step is Again && final(supervisor).backoff.delay_ms == 100,
        exit is Retry ==> step == (SupervisorStep::RetryAfter {
            delay_ms: old(supervisor).backoff.delay_ms,
        }) && final(supervisor).backoff.delay_ms >= old(supervisor).backoff.delay_ms,
        exit is Retry && old(supervisor).backoff.delay_ms <= 2500
            ==> final(supervisor).backoff.delay_ms == 2 * old(supervisor).backoff.delay_ms,
        exit is Retry && old(supervisor).backoff.delay_ms > 2500
            ==> final(supervisor).backoff.delay_ms == 5000,
        exit is Stop ==> step is Stop,
        final(supervisor).startup_pending == old(supervisor).startup_pending,
{
}

/// A new supervisor has its start to announce and the shortest pause to take.
pub proof fn law_new_supervisor_announces_its_start(supervisor: SubscriptionSupervisor)
    requires
        call_ensures(SubscriptionSupervisor::new, (), supervisor),
    ensures
        supervisor.startup_pending,
        supervisor.backoff.delay_ms == 100,
{
}

/// Direct connections are used wherever they are asked for; otherwise ZMQ goes through a broker,
/// and any other transport is aggregated.
pub proof fn law_ingress_follows_the_transport(
    transport_kind: EventTransportKind,
    direct_zmq: bool,
    ingress: KvEventIngress,
)
    requires
        call_ensures(select_ingress, (transport_kind, direct_zmq), ingress),
    ensures
        ingress is DirectZmq <==> direct_zmq,
        ingress is BrokeredZmq <==> !direct_zmq && transport_kind is Zmq,
        ingress is Aggregated <==> !direct_zmq && transport_kind is Other,
{
}

/// Cache-aware routing requires a source, any other use where it says so; what needs none, or is
/// not known, does not.
pub proof fn law_requirement_names_its_need(
    requirement: &KvEventSourceRequirement,
    required: bool,
)
    requires
        call_ensures(KvEventSourceRequirement::requires_source, (requirement,), required),
    ensures
        *requirement is CacheAwareRouting ==> required,
        *requirement is NotRequired || *requirement is Unknown ==> !required,
        *requirement is Other ==> required == requirement->requires_source,
{
}

/// A rank without a source, or with several, is mismatched; one with a live-only source is where
/// its recovery is expected; one with a recoverable source, or that is suppressed, is not.
pub proof fn law_rank_is_mismatched_without_its_source(
    view: &KvSourceMembershipView,
    worker: &WorkerWithDpRank,
    status: &KvSourceStatus,
    mismatch: bool,
)
    requires
        call_ensures(source_status_is_mismatch, (view, worker, status), mismatch),
    ensures
        *status is Missing || *status is Ambiguous ==> mismatch,
        *status is ActiveRecoverable || *status is Suppressed ==> !mismatch,
        *status is ActiveLiveOnly ==> (mismatch <==> view.recovery_expected@.dom().contains(
            *worker,
        ) && view.recovery_expected@[*worker]),
{
}

/// The mismatch count is the number of listed ranks that lack their source. A router that requires
/// sources counts in addition the ranks whose workers publish no events; one that requires none
/// counts nothing; where that is not known, or no router asks, silent workers are not counted.
pub proof fn law_mismatched_ranks_are_counted(
    view: &KvSourceMembershipView,
    metric_scope: MismatchMetricScope,
    count: usize,
    lacking: Set<WorkerWithDpRank>,
    silent: Set<WorkerWithDpRank>,
)
    requires
        call_ensures(mismatch_count, (view, metric_scope), count),
        forall|worker: WorkerWithDpRank| #[trigger]
            lacking.contains(worker) <==> view.sources@.dom().contains(worker) && match view.sources@[worker] {
                KvSourceStatus::Missing => true,
                KvSourceStatus::Ambiguous(_) => true,
                KvSourceStatus::ActiveLiveOnly(_) => view.recovery_expected@.dom().contains(worker)
                    && view.recovery_expected@[worker],
                KvSourceStatus::ActiveRecoverable(_) => false,
                KvSourceStatus::Suppressed => false,
            },
        forall|worker: WorkerWithDpRank| #[trigger]
            silent.contains(worker) <==> view.sources@.dom().contains(worker)
                && view.kv_event_publishing_enabled@.dom().contains(worker.worker_id)
                && !view.kv_event_publishing_enabled@[worker.worker_id],
    ensures
        match metric_scope {
            MismatchMetricScope::Generic => count == lacking.len(),
            MismatchMetricScope::Router(KvEventSourceRequirement::Unknown) => count
                == lacking.len(),
            MismatchMetricScope::Router(KvEventSourceRequirement::NotRequired) => count == 0,
            MismatchMetricScope::Router(KvEventSourceRequirement::CacheAwareRouting) => count
                == lacking.union(silent).len(),
            MismatchMetricScope::Router(KvEventSourceRequirement::Other { requires_source }) =>
            count == if requires_source {
                lacking.union(silent).len()
            } else {
                0
            },
        },
{
    assert(mismatched_ranks(*view, false) =~= lacking);
    assert(mismatched_ranks(*view, true) =~= lacking.union(silent));
}

/// The count without a router is the number of listed ranks that lack their source.
pub proof fn law_legacy_count_ignores_silence(
    view: &KvSourceMembershipView,
    count: usize,
    scoped: usize,
)
    requires
        call_ensures(legacy_mismatch_count, (view,), count),
        call_ensures(mismatch_count, (view, MismatchMetricScope::Generic), scoped),
    ensures
        count == scoped,
{
}

/// While the subscription is down every listed rank is reported, unless the router needs no
/// sources.
pub proof fn law_outage_counts_every_rank(
    view: &KvSourceMembershipView,
    metric_scope: MismatchMetricScope,
    count: usize,
)
    requires
        call_ensures(subscription_failure_count, (view, metric_scope), count),
    ensures
        metric_scope == MismatchMetricScope::Router(KvEventSourceRequirement::NotRequired)
            ==> count == 0,
        metric_scope != MismatchMetricScope::Router(KvEventSourceRequirement::NotRequired)
            ==> count == view.sources@.dom().len(),
{
}

} // verus!
