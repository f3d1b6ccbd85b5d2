//! A run of events of one cache owner on its way into the index.
use std::collections::VecDeque;
use vstd::prelude::*;

use crate::lists::into_queue;
use crate::indexer::recovery::owner_runtime::{
    is_attributed, OwnerRuntime, OwnerUse, StateEventStep,
};
use crate::indexer::recovery::rank_state::ids_increase;
use crate::protocols::{
    CacheOwnerId, KvCacheEventData, ResidencyDomain, RouterEvent, WorkerWithDpRank,
};
use crate::indexer::recovery::state_agent::StateAgent;

verus! {

/// An event to apply; `gap` is the id that was expected where ids are missing.
#[derive(Debug, PartialEq, Eq)]
pub struct OwnerApply {
    pub event: RouterEvent,
    pub gap: Option<u64>,
}

/// What is kept of an event whose application is awaited.
#[derive(Clone, Copy, Debug, PartialEq, Eq, Structural)]
pub struct AwaitedEvent {
    pub event_id: u64,
    pub is_clear: bool,
}

/// The events of an owner that are still to be looked at, in their order.
#[derive(Debug)]
pub struct OwnerEvents {
    pub owner: CacheOwnerId,
    pub rest: VecDeque<RouterEvent>,
    pub awaited: Option<AwaitedEvent>,
}

/// The next event to apply: the owner after it, the event, and what is left.
pub open spec fn next_owner_step(
    state: OwnerRuntime,
    owner: CacheOwnerId,
    events: Seq<RouterEvent>,
) -> (OwnerRuntime, Option<OwnerApply>, Seq<RouterEvent>)
    decreases events.len(),
{
    if events.len() == 0 {
        (state, None, events)
    } else {
        let (after, step) = state.on_event(owner, events[0]);
        let rest = events.subrange(1, events.len() as int);
        match step {
            StateEventStep::Stop => (after, None, Seq::empty()),
            StateEventStep::Skip => next_owner_step(after, owner, rest),
            StateEventStep::Apply { gap } => (
                after,
                Some(OwnerApply { event: events[0], gap }),
                rest,
            ),
        }
    }
}

pub open spec fn awaited_event(step: Option<OwnerApply>) -> Option<AwaitedEvent> {
    match step {
        Some(apply) => Some(
            AwaitedEvent {
                event_id: apply.event.event_id,
                is_clear: apply.event.data is Cleared,
            },
        ),
        None => None,
    }
}

/// Only the state of one owner differs.
pub open spec fn same_but_owner(
    left: StateAgent,
    right: StateAgent,
    owner: CacheOwnerId,
    state: OwnerRuntime,
) -> bool {
    &&& left.sources == right.sources
    &&& left.attachments == right.attachments
    &&& left.recovery_tails == right.recovery_tails
    &&& left.recovering_publishers == right.recovering_publishers
    &&& left.runtime@ == right.runtime@.insert(owner, state)
}

impl OwnerEvents {
    pub fn new(owner: CacheOwnerId, events: Vec<RouterEvent>) -> (run: Self)
        ensures
            run.owner == owner,
            run.rest@ == events@,
            run.awaited is None,
    {
        OwnerEvents { owner, rest: into_queue(events), awaited: None }
    }

    /// Go on to the next event to apply; `None` ends the run.
    pub fn next(&mut self, agent: &mut StateAgent) -> (step: Option<OwnerApply>)
        requires
            old(self).awaited is None,
            old(agent).runtime@.dom().contains(old(self).owner),
        ensures
            final(self).owner == old(self).owner,
            final(self).awaited == awaited_event(step),
            ({
                let (after, expected, rest) = next_owner_step(
                    old(agent).runtime@[old(self).owner],
                    old(self).owner,
                    old(self).rest@,
                );
                &&& step == expected
                &&& final(self).rest@ == rest
                &&& same_but_owner(*final(agent), *old(agent), old(self).owner, after)
            }),
    {
        let ghost owner = self.owner;
        let ghost start = *agent;
        let ghost total = next_owner_step(agent.runtime@[owner], owner, self.rest@);
        proof {
            assert(agent.runtime@ =~= start.runtime@.insert(owner, agent.runtime@[owner]));
        }
        while self.rest.len() > 0
            invariant
                owner == old(self).owner,
                self.owner == owner,
                self.awaited is None,
                start == *old(agent),
                start.runtime@.dom().contains(owner),
                same_but_owner(*agent, start, owner, agent.runtime@[owner]),
                total == next_owner_step(agent.runtime@[owner], owner, self.rest@),
                total == next_owner_step(start.runtime@[owner], owner, old(self).rest@),
            decreases self.rest.len(),
        {
            let ghost before = agent.runtime@;
            let ghost queued = self.rest@;
            if let Some(event) = self.rest.pop_front() {
                proof {
                    assert(self.rest@ =~= queued.subrange(1, queued.len() as int));
                    assert(before.dom().contains(owner));
                }
                let step = agent.begin_owner_event(self.owner, &event);
                proof {
                    assert(agent.runtime@ =~= start.runtime@.insert(
                        owner,
                        agent.runtime@[owner],
                    ));
                }
                match step {
                    StateEventStep::Stop => {
                        self.rest.clear();
                        proof {
                            assert(self.rest@ =~= Seq::empty());
                        }
                        return None;
                    },
                    StateEventStep::Skip => {},
                    StateEventStep::Apply { gap } => {
                        let is_clear: bool = match event.data {
                            KvCacheEventData::Cleared => true,
                            _ => false,
                        };
                        self.awaited = Some(AwaitedEvent { event_id: event.event_id, is_clear });
                        return Some(OwnerApply { event, gap });
                    },
                }
            }
        }
        None
    }

    /// Take the outcome of applying the awaited event.
    pub fn outcome(&mut self, agent: &mut StateAgent, applied: bool)
        requires
            old(self).awaited is Some,
            old(agent).runtime@.dom().contains(old(self).owner),
        ensures
            final(self).owner == old(self).owner,
            final(self).rest@ == old(self).rest@,
            final(self).awaited is None,
            same_but_owner(
                *final(agent),
                *old(agent),
                old(self).owner,
                old(agent).runtime@[old(self).owner].on_applied(
                    old(self).awaited->0.event_id,
                    old(self).awaited->0.is_clear,
                    applied,
                ),
            ),
    {
        if let Some(awaited) = self.awaited {
            agent.finish_owner_event(self.owner, awaited.event_id, awaited.is_clear, applied);
        }
        self.awaited = None;
    }
}

/// A live batch of an owner's source, and what the owner could be used for when it came.
#[derive(Debug)]
pub struct LiveOwnerEvents {
    pub run: OwnerEvents,
    pub use_before: OwnerUse,
}

impl LiveOwnerEvents {
    /// Start on a batch; `None` where the publisher feeds no owner.
    pub fn open(agent: &StateAgent, publisher_id: u64, events: Vec<RouterEvent>) -> (batch: Option<
        Self,
    >)
        ensures
            match batch {
                Some(batch) => {
                    let owner = batch.run.owner;
                    &&& agent.runtime@.dom().contains(owner)
                    &&& agent.runtime@[owner].publisher_id == Some(publisher_id)
                    &&& batch.run.rest@ == events@
                    &&& batch.run.awaited is None
                    &&& batch.use_before == agent.runtime@[owner].use_of()
                },
                None => forall|owner: CacheOwnerId|
                    #![trigger agent.runtime@.dom().contains(owner)]
                    agent.runtime@.dom().contains(owner) ==> agent.runtime@[owner].publisher_id
                        != Some(publisher_id),
            },
    {
        match agent.owner_of_publisher(publisher_id) {
            Some(owner) => match agent.runtime.get(&owner) {
                Some(state) => {
                    let use_before = OwnerUse {
                        ready: state.ready,
                        hint_ready: state.hint_ready,
                    };
                    Some(LiveOwnerEvents { run: OwnerEvents::new(owner, events), use_before })
                },
                None => None,
            },
            None => None,
        }
    }

    /// Whether the batch changed what its owner may be used for, so that it must be published.
    pub fn changed_use(&self, agent: &StateAgent) -> (changed: bool)
        requires
            agent.runtime@.dom().contains(self.run.owner),
        ensures
            changed == (agent.runtime@[self.run.owner].use_of() != self.use_before),
    {
        match agent.runtime.get(&self.run.owner) {
            Some(state) => state.ready != self.use_before.ready || state.hint_ready
                != self.use_before.hint_ready,
            None => false,
        }
    }
}

/// Events of an owner are applied in ascending order of their ids, each above all before it.
pub proof fn law_owner_events_ascend(
    state: OwnerRuntime,
    owner: CacheOwnerId,
    events: Seq<RouterEvent>,
)
    ensures
        ({
            let (after, step, rest) = next_owner_step(state, owner, events);
            &&& after.recovered_cursor >= state.recovered_cursor
            &&& step is Some ==> step->0.event.event_id > after.recovered_cursor
                && !after.recovery_required
            &&& rest.len() <= events.len()
        }),
    decreases events.len(),
{
    if events.len() > 0 {
        let (after, step) = state.on_event(owner, events[0]);
        if step == StateEventStep::Skip {
            law_owner_events_ascend(after, owner, events.subrange(1, events.len() as int));
        }
    }
}

/// The events of an owner that are handed to the index when a run of them is worked off;
/// `applied` says of each whether the index takes it.
pub open spec fn handed_over(
    state: OwnerRuntime,
    owner: CacheOwnerId,
    events: Seq<RouterEvent>,
    applied: spec_fn(RouterEvent) -> bool,
) -> Seq<RouterEvent>
    decreases events.len(),
{
    if events.len() == 0 {
        Seq::empty()
    } else {
        let event = events[0];
        let rest = events.drop_first();
        let (after, step) = state.on_event(owner, event);
        match step {
            StateEventStep::Stop => Seq::empty(),
            StateEventStep::Skip => handed_over(after, owner, rest, applied),
            StateEventStep::Apply { .. } => seq![event] + handed_over(
                after.on_applied(event.event_id, event.data is Cleared, applied(event)),
                owner,
                rest,
                applied,
            ),
        }
    }
}

/// However the events of an owner arrive, they are handed to the index in strictly ascending
/// order of their ids, each belongs to the owner or to its worker, and all lie above the cursor
/// that the owner started from.
pub proof fn law_handed_over_events_ascend(
    state: OwnerRuntime,
    owner: CacheOwnerId,
    events: Seq<RouterEvent>,
    applied: spec_fn(RouterEvent) -> bool,
)
    ensures
        ids_increase(handed_over(state, owner, events, applied)),
        forall|i: int|
            0 <= i < handed_over(state, owner, events, applied).len() ==> {
                let event = #[trigger] handed_over(state, owner, events, applied)[i];
                event.event_id > state.recovered_cursor && is_attributed(
                    event,
                    owner,
                    state.last_worker,
                )
            },
    decreases events.len(),
{
    if events.len() > 0 {
        let event = events[0];
        let rest = events.drop_first();
        let (after, step) = state.on_event(owner, event);
        let all = handed_over(state, owner, events, applied);
        match step {
            StateEventStep::Stop => {},
            StateEventStep::Skip => {
                law_handed_over_events_ascend(after, owner, rest, applied);
            },
            StateEventStep::Apply { .. } => {
                let next = after.on_applied(
                    event.event_id,
                    event.data is Cleared,
                    applied(event),
                );
                law_handed_over_events_ascend(next, owner, rest, applied);
                let later = handed_over(next, owner, rest, applied);
                assert(all =~= seq![event] + later);
                if next.recovery_required {
                    assert(later.len() == 0);
                }
                assert forall|i: int, j: int| 0 <= i < j < all.len() implies (
                #[trigger] all[i]).event_id < (#[trigger] all[j]).event_id by {
                    assert(all[j] == later[j - 1]);
                    if i > 0 {
                        assert(all[i] == later[i - 1]);
                    }
                }
                assert forall|i: int| 0 <= i < all.len() implies (#[trigger] all[i]).event_id
                    > state.recovered_cursor && is_attributed(all[i], owner, state.last_worker) by {
                    if i > 0 {
                        assert(all[i] == later[i - 1]);
                    }
                }
            },
        }
    }
}

/// A run of an owner's own events with consecutive ids right above its cursor is handed over in
/// full, each without a gap, as long as the index takes them.
pub proof fn law_consecutive_run_is_handed_over_in_full(
    state: OwnerRuntime,
    owner: CacheOwnerId,
    events: Seq<RouterEvent>,
    applied: spec_fn(RouterEvent) -> bool,
)
    requires
        !state.recovery_required,
        forall|i: int|
            0 <= i < events.len() ==> (#[trigger] events[i]).event_id == state.recovered_cursor + 1
                + i && events[i].residency.domain == Some(ResidencyDomain::CacheOwner)
                && events[i].state_source == Some(owner) && applied(events[i]),
    ensures
        handed_over(state, owner, events, applied) == events,
    decreases events.len(),
{
    if events.len() > 0 {
        let event = events[0];
        let rest = events.drop_first();
        let (after, step) = state.on_event(owner, event);
        assert(step is Apply);
        let next = after.on_applied(event.event_id, event.data is Cleared, applied(event));
        assert forall|i: int| 0 <= i < rest.len() implies (#[trigger] rest[i]).event_id
            == next.recovered_cursor + 1 + i && rest[i].residency.domain == Some(
            ResidencyDomain::CacheOwner,
        ) && rest[i].state_source == Some(owner) && applied(rest[i]) by {
            assert(rest[i] == events[i + 1]);
        }
        law_consecutive_run_is_handed_over_in_full(next, owner, rest, applied);
        assert(seq![event] + rest =~= events);
    }
}

/// The next event of a run, where it stands above the owner's cursor and is its own, is the one
/// handed out; its id and whether it clears are what the outcome is awaited for, and the rest
/// stays in its order.
pub proof fn law_head_of_the_run_is_handed_out(
    run: &mut OwnerEvents,
    agent: &mut StateAgent,
    step: Option<OwnerApply>,
)
    requires
        old(run).awaited is None,
        old(agent).runtime@.dom().contains(old(run).owner),
        call_ensures(OwnerEvents::next, (run, agent), step),
        old(run).rest@.len() > 0,
        !old(agent).runtime@[old(run).owner].recovery_required,
        old(run).rest@[0].event_id > old(agent).runtime@[old(run).owner].recovered_cursor,
        old(run).rest@[0].residency.domain == Some(ResidencyDomain::CacheOwner),
        old(run).rest@[0].state_source == Some(old(run).owner),
    ensures
        step is Some,
        step->0.event == old(run).rest@[0],
        step->0.gap is None <==> old(run).rest@[0].event_id
            == old(agent).runtime@[old(run).owner].recovered_cursor + 1,
        final(run).rest@ == old(run).rest@.drop_first(),
        final(run).owner == old(run).owner,
        final(run).awaited is Some,
        final(run).awaited->0.event_id == old(run).rest@[0].event_id,
        final(run).awaited->0.is_clear <==> old(run).rest@[0].data is Cleared,
        final(agent).runtime@ == old(agent).runtime@,
{
    assert(final(run).rest@ =~= old(run).rest@.drop_first());
    assert(final(agent).runtime@ =~= old(agent).runtime@);
}

/// A run that is at its end, or whose owner wants a recovery, hands nothing out; where its owner
/// wants one, what is left of the run is dropped.
pub proof fn law_run_ends_with_its_events_or_its_owner(
    run: &mut OwnerEvents,
    agent: &mut StateAgent,
    step: Option<OwnerApply>,
)
    requires
        old(run).awaited is None,
        old(agent).runtime@.dom().contains(old(run).owner),
        call_ensures(OwnerEvents::next, (run, agent), step),
        old(run).rest@.len() == 0 || old(agent).runtime@[old(run).owner].recovery_required,
    ensures
        step is None,
        final(run).awaited is None,
        final(run).rest@.len() == 0,
        final(agent).runtime@ == old(agent).runtime@,
{
    assert(final(agent).runtime@ =~= old(agent).runtime@);
}

/// The outcome of an event moves its owner to the event, but for a clear that was lost: that one
/// leaves the owner where it was, unready and in want of a recovery.
pub proof fn law_outcome_moves_the_owner(
    run: &mut OwnerEvents,
    agent: &mut StateAgent,
    applied: bool,
)
    requires
        old(run).awaited is Some,
        old(agent).runtime@.dom().contains(old(run).owner),
        call_ensures(OwnerEvents::outcome, (run, agent, applied), ()),
    ensures
        final(run).awaited is None,
        final(run).rest@ == old(run).rest@,
        ({
            let owner = old(run).owner;
            let awaited = old(run).awaited->0;
            let (before, after) = (old(agent).runtime@[owner], final(agent).runtime@[owner]);
            &&& applied || !awaited.is_clear ==> after.recovered_cursor == awaited.event_id
                && after.ready == before.ready && after.hint_ready == before.hint_ready
                && after.recovery_required == before.recovery_required
            &&& !applied && awaited.is_clear ==> after.recovered_cursor == before.recovered_cursor
                && !after.ready && !after.hint_ready && after.recovery_required
        }),
{
}

/// A new run holds all the events it is given, in their order, and awaits nothing.
pub proof fn law_new_run_holds_all_events(
    owner: CacheOwnerId,
    events: Vec<RouterEvent>,
    run: OwnerEvents,
)
    requires
        call_ensures(OwnerEvents::new, (owner, events), run),
    ensures
        run.owner == owner,
        run.rest@ == events@,
        run.awaited is None,
{
}

/// A batch must be published exactly if its owner's readiness or its hints differ from what they
/// were when the batch came.
pub proof fn law_changed_use_is_noticed(
    batch: &LiveOwnerEvents,
    agent: &StateAgent,
    changed: bool,
)
    requires
        agent.runtime@.dom().contains(batch.run.owner),
        call_ensures(LiveOwnerEvents::changed_use, (batch, agent), changed),
    ensures
        !changed <==> agent.runtime@[batch.run.owner].ready == batch.use_before.ready
            && agent.runtime@[batch.run.owner].hint_ready == batch.use_before.hint_ready,
{
}

/// The next event of a run, where it stands above the owner's cursor and belongs to the worker that
/// the owner is attached to, is the one handed out, as one of the owner's own is.
pub proof fn law_worker_event_of_the_run_is_handed_out(
    run: &mut OwnerEvents,
    agent: &mut StateAgent,
    step: Option<OwnerApply>,
    worker: WorkerWithDpRank,
)
    requires
        old(run).awaited is None,
        old(agent).runtime@.dom().contains(old(run).owner),
        call_ensures(OwnerEvents::next, (run, agent), step),
        old(run).rest@.len() > 0,
        !old(agent).runtime@[old(run).owner].recovery_required,
        old(agent).runtime@[old(run).owner].attachment_generation is Some,
        old(agent).runtime@[old(run).owner].last_worker == Some(worker),
        old(run).rest@[0].event_id > old(agent).runtime@[old(run).owner].recovered_cursor,
        old(run).rest@[0].residency.domain == Some(ResidencyDomain::Worker),
        old(run).rest@[0].worker_id == worker.worker_id,
        old(run).rest@[0].dp_rank == worker.dp_rank,
    ensures
        step is Some,
        step->0.event == old(run).rest@[0],
        step->0.gap is None <==> old(run).rest@[0].event_id
            == old(agent).runtime@[old(run).owner].recovered_cursor + 1,
        final(run).rest@ == old(run).rest@.drop_first(),
        final(run).awaited is Some,
        final(run).awaited->0.event_id == old(run).rest@[0].event_id,
        final(run).awaited->0.is_clear <==> old(run).rest@[0].data is Cleared,
        final(agent).runtime@ == old(agent).runtime@,
{
    assert(final(run).rest@ =~= old(run).rest@.drop_first());
    assert(final(agent).runtime@ =~= old(agent).runtime@);
}

/// An event at or below the owner's cursor makes no difference: a run that starts with one hands
/// out what it would hand out without it.
pub proof fn law_covered_event_makes_no_difference(
    run: &mut OwnerEvents,
    agent: &mut StateAgent,
    step: Option<OwnerApply>,
    shorter: &mut OwnerEvents,
    same: &mut StateAgent,
    same_step: Option<OwnerApply>,
)
    requires
        old(run).awaited is None,
        old(shorter).awaited is None,
        old(agent).runtime@.dom().contains(old(run).owner),
        *old(same) == *old(agent),
        old(shorter).owner == old(run).owner,
        old(run).rest@.len() > 0,
        old(shorter).rest@ == old(run).rest@.drop_first(),
        !old(agent).runtime@[old(run).owner].recovery_required,
        old(run).rest@[0].event_id <= old(agent).runtime@[old(run).owner].recovered_cursor,
        call_ensures(OwnerEvents::next, (run, agent), step),
        call_ensures(OwnerEvents::next, (shorter, same), same_step),
    ensures
        step == same_step,
        final(run).rest@ == final(shorter).rest@,
        final(run).awaited == final(shorter).awaited,
        final(agent).runtime@ == final(same).runtime@,
{
    let events = old(run).rest@;
    assert(events.subrange(1, events.len() as int) =~= events.drop_first());
}

/// A batch is taken up exactly if its publisher feeds an owner. It is then that owner's, holds all
/// events in their order with none awaited, and remembers what the owner could be used for.
pub proof fn law_batch_is_taken_up_for_the_fed_owner(
    agent: &StateAgent,
    publisher_id: u64,
    events: Vec<RouterEvent>,
    batch: Option<LiveOwnerEvents>,
    owner: CacheOwnerId,
)
    requires
        call_ensures(LiveOwnerEvents::open, (agent, publisher_id, events), batch),
    ensures
        agent.runtime@.dom().contains(owner) && agent.runtime@[owner].publisher_id == Some(
            publisher_id,
        ) ==> batch is Some,
        batch is Some ==> {
            let fed = batch->0.run.owner;
            &&& agent.runtime@.dom().contains(fed)
            &&& agent.runtime@[fed].publisher_id == Some(publisher_id)
            &&& batch->0.run.rest@ == events@
            &&& batch->0.run.awaited is None
            &&& batch->0.use_before.ready == agent.runtime@[fed].ready
            &&& batch->0.use_before.hint_ready == agent.runtime@[fed].hint_ready
        },
{
}

} // verus!
