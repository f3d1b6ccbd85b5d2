//! What a router knows of one cache owner, and how the owner's events move it.
use vstd::prelude::*;

use crate::protocols::{CacheOwnerId, ResidencyDomain, RouterEvent, WorkerWithDpRank};

verus! {

#[derive(Clone, Copy, Debug, PartialEq, Eq, Structural)]
pub struct OwnerRuntime {
    /// The one source that may feed the owner; `None` while several compete.
    pub publisher_id: Option<u64>,
    pub recovered_cursor: u64,
    pub attachment_generation: Option<u64>,
    pub last_worker: Option<WorkerWithDpRank>,
    /// Whether the owner's blocks count for its worker.
    pub ready: bool,
    pub attached_worker: Option<WorkerWithDpRank>,
    pub router_hint_source: Option<u64>,
    /// Whether the owner may be hinted at as a transfer source.
    pub hint_ready: bool,
    pub recovery_required: bool,
}

/// What an owner may be used for.
#[derive(Clone, Copy, Debug, PartialEq, Eq, Structural)]
pub struct OwnerUse {
    pub ready: bool,
    pub hint_ready: bool,
}

/// What a state event asks for.
#[derive(Clone, Copy, Debug, PartialEq, Eq, Structural)]
pub enum StateEventStep {
    /// Take no further event.
    Stop,
    /// Go on to the next event.
    Skip,
    /// Apply the event; `gap` is the id that was expected where ids are missing.
    Apply { gap: Option<u64> },
}

/// Whether an event belongs to the owner, or to the worker attached to it.
pub open spec fn is_attributed(
    event: RouterEvent,
    owner: CacheOwnerId,
    worker: Option<WorkerWithDpRank>,
) -> bool {
    match event.residency.domain {
        Some(ResidencyDomain::CacheOwner) => event.state_source == Some(owner),
        Some(ResidencyDomain::Worker) => worker == Some(event.rank()),
        None => false,
    }
}

pub fn event_is_attributed(
    event: &RouterEvent,
    owner: CacheOwnerId,
    worker: Option<WorkerWithDpRank>,
) -> (ok: bool)
    ensures
        ok == is_attributed(*event, owner, worker),
{
    match event.residency.domain {
        Some(ResidencyDomain::CacheOwner) => match event.state_source {
            Some(source) => source == owner,
            None => false,
        },
        Some(ResidencyDomain::Worker) => match worker {
            Some(worker) => worker.worker_id == event.worker_id && worker.dp_rank == event.dp_rank,
            None => false,
        },
        None => false,
    }
}

impl OwnerRuntime {
    pub open spec fn use_of(self) -> OwnerUse {
        OwnerUse { ready: self.ready, hint_ready: self.hint_ready }
    }

    /// Neither routed to nor hinted at.
    pub open spec fn withdrawn(self) -> OwnerRuntime {
        OwnerRuntime { ready: false, attached_worker: None, hint_ready: false, ..self }
    }

    /// Not to be fed until it was recovered anew.
    pub open spec fn faulted(self) -> OwnerRuntime {
        OwnerRuntime { ready: false, hint_ready: false, recovery_required: true, ..self }
    }

    /// No source is authoritative.
    pub open spec fn contested(self) -> OwnerRuntime {
        OwnerRuntime {
            publisher_id: None,
            attachment_generation: None,
            recovery_required: true,
            ..self.withdrawn()
        }
    }

    pub open spec fn advanced(self, event_id: u64) -> OwnerRuntime {
        OwnerRuntime { recovered_cursor: event_id, ..self }
    }

    /// The step taken on an event: the state after it, and what is to be done.
    pub open spec fn on_event(self, owner: CacheOwnerId, event: RouterEvent) -> (
        OwnerRuntime,
        StateEventStep,
    ) {
        if self.recovery_required {
            (self, StateEventStep::Stop)
        } else if event.event_id <= self.recovered_cursor {
            (self, StateEventStep::Skip)
        } else if event.residency.domain == Some(ResidencyDomain::Worker)
            && self.attachment_generation is None {
            (self.advanced(event.event_id), StateEventStep::Skip)
        } else if !is_attributed(event, owner, self.last_worker) {
            (self.faulted(), StateEventStep::Stop)
        } else {
            (
                self,
                StateEventStep::Apply {
                    gap: if event.event_id > self.recovered_cursor + 1 {
                        Some((self.recovered_cursor + 1) as u64)
                    } else {
                        None
                    },
                },
            )
        }
    }

    /// The outcome of applying an event. A lost clear is a fault; any other loss is advisory.
    pub open spec fn on_applied(self, event_id: u64, is_clear: bool, applied: bool) -> OwnerRuntime {
        if !applied && is_clear {
            self.faulted()
        } else {
            self.advanced(event_id)
        }
    }

    pub fn withdraw(&mut self)
        ensures
            *final(self) == old(self).withdrawn(),
    {
        self.ready = false;
        self.attached_worker = None;
        self.hint_ready = false;
    }

    pub fn fault(&mut self)
        ensures
            *final(self) == old(self).faulted(),
    {
        self.ready = false;
        self.hint_ready = false;
        self.recovery_required = true;
    }

    pub fn contest(&mut self)
        ensures
            *final(self) == old(self).contested(),
    {
        self.publisher_id = None;
        self.attachment_generation = None;
        self.withdraw();
        self.recovery_required = true;
    }

    /// Decide on the next event of the owner's source.
    pub fn begin_event(&mut self, owner: CacheOwnerId, event: &RouterEvent) -> (step: StateEventStep)
        ensures
            (*final(self), step) == old(self).on_event(owner, *event),
    {
        if self.recovery_required {
            return StateEventStep::Stop;
        }
        let event_id: u64 = event.event_id;
        if event_id <= self.recovered_cursor {
            return StateEventStep::Skip;
        }
        let of_worker: bool = match event.residency.domain {
            Some(ResidencyDomain::Worker) => true,
            _ => false,
        };
        if of_worker && self.attachment_generation.is_none() {
            self.recovered_cursor = event_id;
            return StateEventStep::Skip;
        }
        if !event_is_attributed(event, owner, self.last_worker) {
            self.fault();
            return StateEventStep::Stop;
        }
        let expected: u64 = self.recovered_cursor + 1;
        StateEventStep::Apply {
            gap: if event_id > expected {
                Some(expected)
            } else {
                None
            },
        }
    }

    /// Take the outcome of applying an event.
    pub fn finish_event(&mut self, event_id: u64, is_clear: bool, applied: bool)
        ensures
            *final(self) == old(self).on_applied(event_id, is_clear, applied),
    {
        if !applied && is_clear {
            self.fault();
        } else {
            self.recovered_cursor = event_id;
        }
    }
}

/// Whatever an event does, the cursor of its owner never moves back.
pub proof fn law_owner_cursor_never_falls(
    state: OwnerRuntime,
    owner: CacheOwnerId,
    event: RouterEvent,
    applied: bool,
)
    ensures
        state.on_event(owner, event).0.recovered_cursor >= state.recovered_cursor,
        state.on_event(owner, event).1 is Apply ==> state.on_event(owner, event).0.on_applied(
            event.event_id,
            event.data is Cleared,
            applied,
        ).recovered_cursor >= state.recovered_cursor,
{
}

/// An event that belongs to someone else is not applied, does not move the cursor, withdraws
/// the owner, and ends ingestion until the owner is recovered.
pub proof fn law_misattributed_event_withdraws_owner(
    state: OwnerRuntime,
    owner: CacheOwnerId,
    event: RouterEvent,
    later: RouterEvent,
)
    requires
        !state.recovery_required,
        event.event_id > state.recovered_cursor,
        !is_attributed(event, owner, state.last_worker),
        event.residency.domain == Some(ResidencyDomain::Worker) ==> state.attachment_generation
            is Some,
    ensures
        ({
            let (after, step) = state.on_event(owner, event);
            &&& step == StateEventStep::Stop
            &&& !after.ready && !after.hint_ready && after.recovery_required
            &&& after.recovered_cursor == state.recovered_cursor
            &&& after.on_event(owner, later) == (after, StateEventStep::Stop)
        }),
{
}

/// A detached owner takes no worker events.
pub proof fn law_detached_owner_ignores_worker_events(
    state: OwnerRuntime,
    owner: CacheOwnerId,
    event: RouterEvent,
)
    requires
        state.attachment_generation is None,
        event.residency.domain == Some(ResidencyDomain::Worker),
    ensures
        !(state.on_event(owner, event).1 is Apply),
        state.on_event(owner, event).0.ready == state.ready,
        state.on_event(owner, event).0.hint_ready == state.hint_ready,
{
}

/// An event that stands in the cache owner's domain belongs to the owner it names; one in a
/// worker's domain belongs to the worker whose id and rank it carries; one in none to nobody.
pub proof fn law_event_belongs_to_whom_it_names(
    event: &RouterEvent,
    owner: CacheOwnerId,
    worker: Option<WorkerWithDpRank>,
    ok: bool,
)
    requires
        call_ensures(event_is_attributed, (event, owner, worker), ok),
    ensures
        event.residency.domain == Some(ResidencyDomain::CacheOwner) ==> ok == (event.state_source
            == Some(owner)),
        event.residency.domain == Some(ResidencyDomain::Worker) && worker is Some ==> ok == (
        event.worker_id == worker->0.worker_id && event.dp_rank == worker->0.dp_rank),
        event.residency.domain == Some(ResidencyDomain::Worker) && worker is None ==> !ok,
        event.residency.domain is None ==> !ok,
{
}

/// To withdraw an owner takes away its readiness, its hints and its attached worker, and leaves
/// the rest: where it stands, who feeds it, and whether it wants a recovery.
pub proof fn law_withdrawal_keeps_the_state(state: &mut OwnerRuntime)
    requires
        call_ensures(OwnerRuntime::withdraw, (state,), ()),
    ensures
        !final(state).ready && !final(state).hint_ready,
        final(state).attached_worker is None,
        final(state).publisher_id == old(state).publisher_id,
        final(state).recovered_cursor == old(state).recovered_cursor,
        final(state).attachment_generation == old(state).attachment_generation,
        final(state).last_worker == old(state).last_worker,
        final(state).router_hint_source == old(state).router_hint_source,
        final(state).recovery_required == old(state).recovery_required,
{
}

/// A fault takes away readiness and hints, asks for a recovery, and leaves the rest.
pub proof fn law_fault_asks_for_recovery(state: &mut OwnerRuntime)
    requires
        call_ensures(OwnerRuntime::fault, (state,), ()),
    ensures
        !final(state).ready && !final(state).hint_ready,
        final(state).recovery_required,
        final(state).attached_worker == old(state).attached_worker,
        final(state).publisher_id == old(state).publisher_id,
        final(state).recovered_cursor == old(state).recovered_cursor,
        final(state).attachment_generation == old(state).attachment_generation,
        final(state).last_worker == old(state).last_worker,
        final(state).router_hint_source == old(state).router_hint_source,
{
}

/// An owner that several sources compete for has no publisher and no attachment, is withdrawn and
/// wants a recovery; its cursor and its last worker stay.
pub proof fn law_contest_unbinds_the_owner(state: &mut OwnerRuntime)
    requires
        call_ensures(OwnerRuntime::contest, (state,), ()),
    ensures
        final(state).publisher_id is None,
        final(state).attachment_generation is None,
        !final(state).ready && !final(state).hint_ready,
        final(state).attached_worker is None,
        final(state).recovery_required,
        final(state).recovered_cursor == old(state).recovered_cursor,
        final(state).last_worker == old(state).last_worker,
        final(state).router_hint_source == old(state).router_hint_source,
{
}

/// An owner's own event right above its cursor is applied without a gap, whatever the event
/// holds; one further up is applied with the id that was expected; one at or below the cursor is
/// skipped. None of these changes the owner before the event went in.
pub proof fn law_owner_event_is_applied_in_its_place(
    state: &mut OwnerRuntime,
    owner: CacheOwnerId,
    event: &RouterEvent,
    step: StateEventStep,
)
    requires
        call_ensures(OwnerRuntime::begin_event, (state, owner, event), step),
        !old(state).recovery_required,
        event.residency.domain == Some(ResidencyDomain::CacheOwner),
        event.state_source == Some(owner),
    ensures
        *final(state) == *old(state),
        event.event_id <= old(state).recovered_cursor <==> step is Skip,
        event.event_id > old(state).recovered_cursor <==> step is Apply,
        event.event_id == old(state).recovered_cursor + 1 ==> step->gap is None,
        event.event_id > old(state).recovered_cursor + 1 ==> step->gap is Some && step->gap->0
            == old(state).recovered_cursor + 1,
{
}

/// An event of a worker above the cursor of an owner that has no attachment is passed over: the
/// cursor moves to it, and nothing else changes.
pub proof fn law_worker_event_of_a_detached_owner_is_passed_over(
    state: &mut OwnerRuntime,
    owner: CacheOwnerId,
    event: &RouterEvent,
    step: StateEventStep,
)
    requires
        call_ensures(OwnerRuntime::begin_event, (state, owner, event), step),
        !old(state).recovery_required,
        old(state).attachment_generation is None,
        event.residency.domain == Some(ResidencyDomain::Worker),
        event.event_id > old(state).recovered_cursor,
    ensures
        step is Skip,
        final(state).recovered_cursor == event.event_id,
        *final(state) == (OwnerRuntime {
            recovered_cursor: final(state).recovered_cursor,
            ..*old(state)
        }),
{
}

/// An owner that wants a recovery takes no event of any kind.
pub proof fn law_owner_in_want_of_recovery_stops(
    state: &mut OwnerRuntime,
    owner: CacheOwnerId,
    event: &RouterEvent,
    step: StateEventStep,
)
    requires
        call_ensures(OwnerRuntime::begin_event, (state, owner, event), step),
        old(state).recovery_required,
    ensures
        step is Stop,
        *final(state) == *old(state),
{
}

/// A run of an owner's own events with consecutive ids goes in whole: each is applied without a
/// gap where the one before it went in.
pub proof fn law_consecutive_events_go_in_without_gaps(
    state: &mut OwnerRuntime,
    owner: CacheOwnerId,
    event: &RouterEvent,
    is_clear: bool,
    next: &mut OwnerRuntime,
    later: &RouterEvent,
    step: StateEventStep,
)
    requires
        call_ensures(OwnerRuntime::finish_event, (state, event.event_id, is_clear, true), ()),
        *old(next) == *final(state),
        call_ensures(OwnerRuntime::begin_event, (next, owner, later), step),
        !old(state).recovery_required,
        later.event_id == event.event_id + 1,
        later.residency.domain == Some(ResidencyDomain::CacheOwner),
        later.state_source == Some(owner),
    ensures
        step == (StateEventStep::Apply { gap: None }),
        final(next).ready == old(state).ready,
        final(next).hint_ready == old(state).hint_ready,
        final(next).recovered_cursor == event.event_id,
{
}

} // verus!
