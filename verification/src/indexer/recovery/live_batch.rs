//! One envelope of live events on its way into the index, event by event.
use std::collections::VecDeque;
use vstd::prelude::*;

use crate::lists::into_queue;
use crate::membership::KvSourceStatus;
use crate::protocols::{ResetScope, RouterEvent, WorkerWithDpRank};
use crate::indexer::recovery::cursor::CursorState;
use crate::indexer::recovery::source_slot::{LiveStep, SlotView};
use crate::table::Table;
use crate::indexer::recovery::worker_query::{
    ClientView, LiveBatchVerdict, RecoveryKey, WorkerQueryClient,
};

verus! {

/// The events of an accepted envelope that are still to be looked at, in their order.
#[derive(Debug)]
pub struct LiveBatch {
    pub key: RecoveryKey,
    pub generation: u64,
    pub rest: VecDeque<RouterEvent>,
    /// The id of the event whose admission is awaited.
    pub awaited: Option<u64>,
}

/// The next event that asks for anything: the slot after it, what it asks for, and what is left.
pub open spec fn next_live_step(slot: SlotView, events: Seq<RouterEvent>, recoverable: bool) -> (
    SlotView,
    Option<LiveStep>,
    Seq<RouterEvent>,
)
    decreases events.len(),
{
    if events.len() == 0 {
        (slot, None, events)
    } else {
        let (after, step) = slot.on_live_event(events[0], recoverable);
        let rest = events.subrange(1, events.len() as int);
        if step == LiveStep::Ignore {
            next_live_step(after, rest, recoverable)
        } else {
            (after, Some(step), rest)
        }
    }
}

/// The id of the event that a step wants admitted.
pub open spec fn awaited_id(step: Option<LiveStep>) -> Option<u64> {
    match step {
        Some(LiveStep::Admit { event, .. }) => Some(event.event_id),
        _ => None,
    }
}

impl LiveBatch {
    /// Whether the slot is still bound by the activation that accepted the envelope.
    pub open spec fn is_current(self, client: ClientView) -> bool {
        client.is_bound(self.key, self.generation)
    }

    /// Let an envelope in, or say why not.
    pub fn open(
        client: &mut WorkerQueryClient,
        publisher_id: u64,
        events: Vec<RouterEvent>,
        sources: &Table<WorkerWithDpRank, KvSourceStatus>,
    ) -> (batch: Result<Self, LiveBatchVerdict>)
        requires
            old(client)@.wf(),
        ensures
            final(client)@ == old(client)@,
            match old(client)@.batch_verdict(publisher_id, events@, sources@) {
                LiveBatchVerdict::Accept { key, binding } => {
                    &&& batch is Ok
                    &&& batch->Ok_0.key == key
                    &&& batch->Ok_0.generation == binding.generation
                    &&& batch->Ok_0.rest@ == events@
                    &&& batch->Ok_0.awaited is None
                    &&& batch->Ok_0.is_current(final(client)@)
                },
                verdict => batch == Err::<LiveBatch, LiveBatchVerdict>(verdict),
            },
    {
        match client.open_live_batch(publisher_id, &events, sources) {
            LiveBatchVerdict::Accept { key, binding } => {
                proof {
                    crate::indexer::recovery::worker_query::law_accepted_batch_matches_binding(
                        client@,
                        publisher_id,
                        events@,
                        sources@,
                    );
                }
                Ok(
                    LiveBatch {
                        key,
                        generation: binding.generation,
                        rest: into_queue(events),
                        awaited: None,
                    },
                )
            },
            verdict => Err(verdict),
        }
    }

    /// Go on to the next event that asks for anything; `None` ends the envelope.
    pub fn next(&mut self, client: &mut WorkerQueryClient) -> (step: Option<LiveStep>)
        requires
            old(client)@.wf(),
            old(self).awaited is None,
        ensures
            final(client)@.wf(),
            final(self).key == old(self).key,
            final(self).generation == old(self).generation,
            final(self).awaited == awaited_id(step),
            if old(self).is_current(old(client)@) {
                let before = old(client)@.slots[old(self).key];
                let (after, expected, rest) = next_live_step(
                    before,
                    old(self).rest@,
                    before.active->0.source.recovery_target is Some,
                );
                &&& step == expected
                &&& final(self).rest@ == rest
                &&& final(client)@ == old(client)@.with_slot(old(self).key, after)
                &&& final(self).is_current(final(client)@)
            } else {
                step is None && final(self).rest@.len() == 0 && final(client)@ == old(client)@
            },
    {
        let ghost start = client@;
        let ghost current = self.is_current(client@);
        let ghost recoverable = client@.slots[self.key].active->0.source.recovery_target is Some;
        let ghost total = next_live_step(client@.slots[self.key], self.rest@, recoverable);
        proof {
            if current {
                assert(client@.slots =~= start.slots.insert(self.key, client@.slots[self.key]));
            }
        }
        while self.rest.len() > 0
            invariant
                client@.wf(),
                self.key == old(self).key,
                self.generation == old(self).generation,
                self.awaited is None,
                start == old(client)@,
                current == old(self).is_current(old(client)@),
                current ==> {
                    &&& self.is_current(client@)
                    &&& client@ == start.with_slot(self.key, client@.slots[self.key])
                    &&& client@.slots[self.key].active == start.slots[self.key].active
                    &&& recoverable == (start.slots[self.key].active->0.source.recovery_target
                        is Some)
                    &&& total == next_live_step(client@.slots[self.key], self.rest@, recoverable)
                    &&& total == next_live_step(
                        start.slots[self.key],
                        old(self).rest@,
                        recoverable,
                    )
                },
                !current ==> client@ == start,
            decreases self.rest.len(),
        {
            let ghost before = client@;
            let ghost queued = self.rest@;
            if let Some(event) = self.rest.pop_front() {
                proof {
                    assert(self.rest@ =~= queued.subrange(1, queued.len() as int));
                }
                let step = client.begin_live_event(self.key, self.generation, event);
                proof {
                    if current {
                        let slot = before.slots[self.key].on_live_event(event, recoverable).0;
                        assert(client@.slots =~= start.slots.insert(self.key, slot));
                        assert(client@.slots[self.key] == slot);
                    }
                }
                match step {
                    LiveStep::Ignore => {},
                    LiveStep::Admit { event, cancel_recovery, reset_first } => {
                        self.awaited = Some(event.event_id);
                        return Some(LiveStep::Admit { event, cancel_recovery, reset_first });
                    },
                    LiveStep::Recover { start_event_id, end_event_id } => {
                        return Some(LiveStep::Recover { start_event_id, end_event_id });
                    },
                }
            }
        }
        None
    }

    /// Take the outcome of the awaited admission. A refusal ends the envelope.
    pub fn outcome(&mut self, client: &mut WorkerQueryClient, accepted: bool)
        requires
            old(client)@.wf(),
            old(self).awaited is Some,
        ensures
            final(client)@.wf(),
            final(self).key == old(self).key,
            final(self).generation == old(self).generation,
            final(self).awaited is None,
            if old(self).is_current(old(client)@) {
                let before = old(client)@.slots[old(self).key];
                &&& final(client)@ == old(client)@.with_slot(
                    old(self).key,
                    if accepted {
                        SlotView {
                            rank: before.rank.committed(old(self).awaited->0),
                            ..before
                        }
                    } else {
                        before.fenced(before.active->0.source_id)
                    },
                )
                &&& final(self).rest@ == if accepted {
                    old(self).rest@
                } else {
                    Seq::empty()
                }
                &&& final(self).is_current(final(client)@)
            } else {
                final(client)@ == old(client)@ && final(self).rest@.len() == 0
            },
    {
        let event_id: u64 = match self.awaited {
            Some(event_id) => event_id,
            None => 0,
        };
        self.awaited = None;
        if !client.finish_live_event(self.key, self.generation, event_id, accepted) {
            self.rest.clear();
        }
    }
}

/// Events come out of an envelope in the order in which they went in, and none is passed over
/// but those that ask for nothing: what is left is always the tail of what there was.
pub proof fn law_batch_order_is_kept(slot: SlotView, events: Seq<RouterEvent>, recoverable: bool)
    ensures
        ({
            let (_, step, rest) = next_live_step(slot, events, recoverable);
            &&& rest.len() <= events.len()
            &&& rest == events.subrange(events.len() - rest.len(), events.len() as int)
            &&& step is None ==> rest.len() == 0
            &&& step is Some && step->0 is Admit ==> rest.len() < events.len()
                && step->0->Admit_event == events[events.len() - rest.len() - 1]
        }),
    decreases events.len(),
{
    let (_, step, rest) = next_live_step(slot, events, recoverable);
    if events.len() == 0 {
        assert(rest =~= events.subrange(0, 0));
    } else {
        let (after, first) = slot.on_live_event(events[0], recoverable);
        let tail = events.subrange(1, events.len() as int);
        if first == LiveStep::Ignore {
            law_batch_order_is_kept(after, tail, recoverable);
            assert(tail.subrange(tail.len() - rest.len(), tail.len() as int) =~= events.subrange(
                events.len() - rest.len(),
                events.len() as int,
            ));
        } else {
            assert(rest =~= events.subrange(1, events.len() as int));
        }
    }
}

/// A new contiguous event at the head of an envelope is the next one to be admitted, as it came,
/// and the rest waits behind it.
pub proof fn law_contiguous_head_is_admitted_next(
    slot: SlotView,
    last: u64,
    events: Seq<RouterEvent>,
    recoverable: bool,
)
    requires
        slot.rank.cursor == CursorState::Live(last),
        !slot.rank.recovery_inflight,
        events.len() > 0,
        events[0].event_id == last + 1,
        events[0].residency.reset_scope != Some(ResetScope::All),
    ensures
        next_live_step(slot, events, recoverable) == (
            slot,
            Some(
                LiveStep::Admit { event: events[0], cancel_recovery: false, reset_first: false },
            ),
            events.drop_first(),
        ),
{
    assert(events.subrange(1, events.len() as int) =~= events.drop_first());
}

/// An envelope of events that the cursor covers asks for nothing and changes nothing.
pub proof fn law_covered_envelope_asks_for_nothing(
    slot: SlotView,
    last: u64,
    events: Seq<RouterEvent>,
    recoverable: bool,
)
    requires
        slot.rank.cursor == CursorState::Live(last),
        forall|i: int| 0 <= i < events.len() ==> (#[trigger] events[i]).event_id <= last,
    ensures
        ({
            let (after, step, rest) = next_live_step(slot, events, recoverable);
            after == slot && step is None && rest.len() == 0
        }),
    decreases events.len(),
{
    if events.len() > 0 {
        assert(events[0].event_id <= last);
        law_covered_envelope_asks_for_nothing(
            slot,
            last,
            events.subrange(1, events.len() as int),
            recoverable,
        );
    }
}

/// An envelope is let in whole, for the activation that feeds its publisher's rank, or turned away
/// with a reason; either way nothing has changed yet.
pub proof fn law_envelope_is_let_in_whole(
    client: &mut WorkerQueryClient,
    publisher_id: u64,
    events: Vec<RouterEvent>,
    sources: &Table<WorkerWithDpRank, KvSourceStatus>,
    batch: Result<LiveBatch, LiveBatchVerdict>,
)
    requires
        old(client)@.wf(),
        call_ensures(LiveBatch::open, (client, publisher_id, events, sources), batch),
    ensures
        final(client)@ == old(client)@,
        batch is Ok ==> {
            let entry = old(client)@.bindings[publisher_id];
            let slot = old(client)@.slots[(entry.0, entry.1)];
            &&& old(client)@.bindings.dom().contains(publisher_id)
            &&& batch->Ok_0.key == (entry.0, entry.1)
            &&& batch->Ok_0.generation == slot.active->0.generation
            &&& batch->Ok_0.rest@ == events@
            &&& batch->Ok_0.awaited is None
            &&& events@.len() > 0
            &&& slot.pending_reset is None
        },
        batch is Err ==> !(batch->Err_0 is Accept),
        !old(client)@.bindings.dom().contains(publisher_id) ==> batch == Err::<
            LiveBatch,
            LiveBatchVerdict,
        >(LiveBatchVerdict::UnknownPublisher),
{
}

/// What is awaited after a step is the admission of the event that the step hands out, and the
/// envelope of an activation that has ended gives nothing more.
pub proof fn law_awaited_event_is_the_one_handed_out(
    batch: &mut LiveBatch,
    client: &mut WorkerQueryClient,
    step: Option<LiveStep>,
)
    requires
        old(client)@.wf(),
        old(batch).awaited is None,
        call_ensures(LiveBatch::next, (batch, client), step),
    ensures
        ({
            let key = old(batch).key;
            let slots = old(client)@.slots;
            let bound = slots.dom().contains(key) && slots[key].active is Some
                && slots[key].active->0.generation == old(batch).generation;
            &&& final(batch).key == key
            &&& final(batch).generation == old(batch).generation
            &&& step is Some && step->0 is Admit ==> final(batch).awaited == Some(
                step->0->Admit_event.event_id,
            )
            &&& step is None || !(step->0 is Admit) ==> final(batch).awaited is None
            &&& !bound ==> step is None && final(batch).rest@.len() == 0 && final(client)@
                == old(client)@
            &&& step is None ==> final(batch).rest@.len() == 0
            &&& final(client)@.bindings == old(client)@.bindings
        }),
{
    let key = old(batch).key;
    if old(batch).is_current(old(client)@) {
        let before = old(client)@.slots[key];
        law_batch_order_is_kept(
            before,
            old(batch).rest@,
            before.active->0.source.recovery_target is Some,
        );
    }
}

/// An accepted event moves the cursor to it and leaves the rest of the envelope; a refused one
/// fences the rank for the source that it is bound to, and the rest is dropped.
pub proof fn law_refusal_ends_the_envelope(
    batch: &mut LiveBatch,
    client: &mut WorkerQueryClient,
    accepted: bool,
)
    requires
        old(client)@.wf(),
        old(batch).awaited is Some,
        call_ensures(LiveBatch::outcome, (batch, client, accepted), ()),
    ensures
        ({
            let key = old(batch).key;
            let slots = old(client)@.slots;
            let after = final(client)@.slots[key];
            let bound = slots.dom().contains(key) && slots[key].active is Some
                && slots[key].active->0.generation == old(batch).generation;
            &&& final(batch).awaited is None
            &&& bound && accepted ==> after.rank.cursor == CursorState::Live(old(batch).awaited->0)
                && final(batch).rest@ == old(batch).rest@ && after.pending_reset
                == slots[key].pending_reset
            &&& bound && !accepted ==> after.rank.cursor == slots[key].rank.cursor
                && after.pending_reset == Some(slots[key].active->0.source_id)
                && final(batch).rest@.len() == 0
            &&& !bound ==> final(client)@ == old(client)@ && final(batch).rest@.len() == 0
        }),
{
}

} // verus!
