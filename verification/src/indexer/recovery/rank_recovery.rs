//! The answer to a recovery query of one rank on its way into the index, step by step.
//!
//! The cursor of the rank moves once the whole group was admitted, and not before.
use std::collections::VecDeque;
use vstd::prelude::*;

use crate::indexer::recovery::cursor::CursorState;
use crate::indexer::recovery::source_slot::{
    admission_after, events_match_rank, law_snapshot_is_followed_by_the_tail, recovery_planned,
    RecoveryAdmission, RecoveryFailure, RecoveryStep, SkippedIds, SlotView, WorkerKvQueryResponse,
};
use crate::indexer::recovery::worker_query::{
    completes_initial_recovery, ClientView, RecoveryKey, WorkerQueryClient,
};
use crate::lists::into_queue;
use crate::protocols::{or_zero, spec_max, RouterEvent, WorkerWithDpRank};

verus! {

/// What is to be done next.
#[derive(Debug, PartialEq, Eq)]
pub enum RankRecoveryWork {
    /// Reset the rank, and wait.
    Reset,
    /// Replace the rank by this snapshot, as a whole or not at all.
    Replace(Vec<RouterEvent>),
    Admit(RouterEvent),
    Done,
}

#[derive(Clone, Copy, Debug, PartialEq, Eq, Structural)]
pub enum RankRecoveryStage {
    /// The answer spoke of another rank.
    Fencing,
    Replacing { last_event_id: u64 },
    /// `cursor` is where the rank stands once everything was admitted.
    Admitting { cursor: Option<u64> },
    Ended,
}

#[derive(Debug)]
pub struct RankRecovery {
    pub key: RecoveryKey,
    pub generation: u64,
    pub stage: RankRecoveryStage,
    /// The snapshot that replaces the rank.
    pub snapshot: Vec<RouterEvent>,
    /// What is still to be admitted.
    pub rest: VecDeque<RouterEvent>,
    /// The ids that were gone past without an event.
    pub skipped: Vec<SkippedIds>,
    pub awaiting: bool,
    /// Whether the end of this recovery is the end of the rank's initial recovery.
    pub completes_initial: bool,
}

fn join_events(first: Vec<RouterEvent>, second: Vec<RouterEvent>) -> (joined: VecDeque<RouterEvent>)
    ensures
        joined@ == first@ + second@,
{
    let mut joined = into_queue(first);
    let mut rest = into_queue(second);
    let ghost mut moved: int = 0;
    proof {
        assert(joined@ =~= first@ + second@.subrange(0, 0));
        assert(rest@ =~= second@.subrange(0, second@.len() as int));
    }
    while rest.len() > 0
        invariant
            0 <= moved <= second@.len(),
            joined@ == first@ + second@.subrange(0, moved),
            rest@ == second@.subrange(moved, second@.len() as int),
        decreases rest.len(),
    {
        if let Some(event) = rest.pop_front() {
            joined.push_back(event);
            proof {
                assert(joined@ =~= first@ + second@.subrange(0, moved + 1));
                assert(rest@ =~= second@.subrange(moved + 1, second@.len() as int));
                moved = moved + 1;
            }
        }
    }
    proof {
        assert(second@.subrange(0, moved) =~= second@);
    }
    joined
}

/// The run admits this group next: first what was recovered, then what was held back.
pub open spec fn admits_group(run: RankRecovery, admission: RecoveryAdmission) -> bool {
    &&& run.stage == (RankRecoveryStage::Admitting { cursor: admission.cursor })
    &&& run.rest@ == admission.recovered@ + admission.tail@
    &&& run.skipped@ == admission.skipped@
}

/// The run starts on what an answer came to.
pub open spec fn starts_on(run: RankRecovery, step: RecoveryStep) -> bool {
    match step {
        RecoveryStep::Retry => run.stage is Ended && run.skipped@.len() == 0,
        RecoveryStep::Fence => run.stage is Fencing && run.skipped@.len() == 0,
        RecoveryStep::Replace { events, last_event_id } => {
            &&& run.stage == (RankRecoveryStage::Replacing { last_event_id })
            &&& run.snapshot == events
            &&& run.skipped@.len() == 0
        },
        RecoveryStep::Admit(admission) => admits_group(run, admission),
    }
}

impl RankRecovery {
    pub open spec fn is_current(self, client: ClientView) -> bool {
        client.is_bound(self.key, self.generation)
    }

    pub open spec fn same_terms(self, other: RankRecovery) -> bool {
        &&& self.key == other.key
        &&& self.generation == other.generation
        &&& self.completes_initial == other.completes_initial
    }

    /// Start on an answer; `None` where the recovery was cancelled or its binding has ended.
    pub fn open(
        client: &mut WorkerQueryClient,
        key: RecoveryKey,
        generation: u64,
        start_event_id: Option<u64>,
        cancelled: bool,
        result: Result<WorkerKvQueryResponse, RecoveryFailure>,
    ) -> (run: Option<Self>)
        requires
            old(client)@.wf(),
        ensures
            final(client)@.wf(),
            run is None <==> cancelled || !old(client)@.is_bound(key, generation),
            match run {
                Some(run) => {
                    &&& run.key == key
                    &&& run.generation == generation
                    &&& !run.awaiting
                    &&& final(client)@ == old(client)@.with_slot(key, final(client)@.slots[key])
                    &&& exists|step: RecoveryStep|
                        {
                            &&& #[trigger] starts_on(run, step)
                            &&& recovery_planned(
                                old(client)@.slots[key],
                                WorkerWithDpRank { worker_id: key.0, dp_rank: key.1 },
                                result,
                                step,
                                final(client)@.slots[key],
                            )
                            &&& run.completes_initial == (start_event_id is None && step
                                != RecoveryStep::Retry)
                        }
                },
                None => final(client)@ == old(client)@,
            },
    {
        let planned = client.plan_recovery(key, generation, cancelled, result);
        let completes_initial: bool = completes_initial_recovery(start_event_id, &planned);
        let step = match planned {
            Some(step) => step,
            None => return None,
        };
        let mut run = RankRecovery {
            key,
            generation,
            stage: RankRecoveryStage::Ended,
            snapshot: Vec::new(),
            rest: VecDeque::new(),
            skipped: Vec::new(),
            awaiting: false,
            completes_initial,
        };
        let ghost expected = step;
        match step {
            RecoveryStep::Retry => {},
            RecoveryStep::Fence => {
                run.stage = RankRecoveryStage::Fencing;
            },
            RecoveryStep::Replace { events, last_event_id } => {
                run.stage = RankRecoveryStage::Replacing { last_event_id };
                run.snapshot = events;
            },
            RecoveryStep::Admit(admission) => run.admit_group(admission),
        }
        proof {
            assert(starts_on(run, expected));
        }
        Some(run)
    }

    fn admit_group(&mut self, admission: RecoveryAdmission)
        ensures
            admits_group(*final(self), admission),
            final(self).same_terms(*old(self)),
            final(self).awaiting == old(self).awaiting,
    {
        let RecoveryAdmission { recovered, tail, cursor, skipped } = admission;
        self.stage = RankRecoveryStage::Admitting { cursor };
        self.rest = join_events(recovered, tail);
        self.skipped = skipped;
    }

    /// Go on.
    pub fn next(&mut self, client: &mut WorkerQueryClient) -> (work: RankRecoveryWork)
        requires
            old(client)@.wf(),
            !old(self).awaiting,
        ensures
            final(client)@.wf(),
            final(self).same_terms(*old(self)),
            final(self).skipped@ == old(self).skipped@,
            match old(self).stage {
                RankRecoveryStage::Ended => {
                    &&& work == RankRecoveryWork::Done
                    &&& final(self).stage is Ended && !final(self).awaiting
                    &&& final(client)@ == old(client)@
                },
                RankRecoveryStage::Fencing => {
                    &&& work == RankRecoveryWork::Reset
                    &&& final(self).stage == old(self).stage && final(self).awaiting
                    &&& final(client)@ == old(client)@
                },
                RankRecoveryStage::Replacing { .. } => {
                    &&& work == RankRecoveryWork::Replace(old(self).snapshot)
                    &&& final(self).stage == old(self).stage && final(self).awaiting
                    &&& final(client)@ == old(client)@
                },
                RankRecoveryStage::Admitting { cursor } => if old(self).rest@.len() > 0 {
                    &&& work == RankRecoveryWork::Admit(old(self).rest@[0])
                    &&& final(self).rest@ == old(self).rest@.drop_first()
                    &&& final(self).stage == old(self).stage && final(self).awaiting
                    &&& final(client)@ == old(client)@
                } else {
                    &&& work == RankRecoveryWork::Done
                    &&& final(self).stage is Ended && !final(self).awaiting
                    &&& final(client)@ == if old(self).is_current(old(client)@) {
                        let before = old(client)@.slots[old(self).key];
                        old(client)@.with_slot(
                            old(self).key,
                            SlotView { rank: before.rank.tail_committed(cursor), ..before },
                        )
                    } else {
                        old(client)@
                    }
                },
            },
    {
        match self.stage {
            RankRecoveryStage::Ended => RankRecoveryWork::Done,
            RankRecoveryStage::Fencing => {
                self.awaiting = true;
                RankRecoveryWork::Reset
            },
            RankRecoveryStage::Replacing { .. } => {
                let mut snapshot: Vec<RouterEvent> = Vec::new();
                std::mem::swap(&mut snapshot, &mut self.snapshot);
                self.awaiting = true;
                RankRecoveryWork::Replace(snapshot)
            },
            RankRecoveryStage::Admitting { cursor } => {
                let ghost queued = self.rest@;
                match self.rest.pop_front() {
                    Some(event) => {
                        proof {
                            assert(self.rest@ =~= queued.drop_first());
                        }
                        self.awaiting = true;
                        RankRecoveryWork::Admit(event)
                    },
                    None => {
                        self.stage = RankRecoveryStage::Ended;
                        client.finish_recovery_admission(self.key, self.generation, cursor, true);
                        RankRecoveryWork::Done
                    },
                }
            },
        }
    }

    /// Take the outcome of the awaited step. A refusal fences the rank and ends the run; a reset
    /// after a foreign answer fences it whatever it came to.
    pub fn outcome(&mut self, client: &mut WorkerQueryClient, succeeded: bool)
        requires
            old(client)@.wf(),
            old(self).awaiting,
        ensures
            final(client)@.wf(),
            final(self).same_terms(*old(self)),
            !final(self).awaiting,
            !(old(self).stage is Replacing && succeeded && old(self).is_current(old(client)@))
                ==> final(self).skipped@ == old(self).skipped@,
            ({
                let current = old(self).is_current(old(client)@);
                let before = old(client)@.slots[old(self).key];
                let fenced = if current {
                    old(client)@.with_slot(
                        old(self).key,
                        before.fenced(before.active->0.source_id),
                    )
                } else {
                    old(client)@
                };
                match old(self).stage {
                    RankRecoveryStage::Ended => final(self).stage is Ended && final(client)@
                        == old(client)@,
                    RankRecoveryStage::Fencing => final(self).stage is Ended && final(client)@
                        == fenced,
                    RankRecoveryStage::Replacing { last_event_id } => if succeeded && current {
                        &&& final(client)@ == old(client)@.with_slot(
                            old(self).key,
                            before.buffer_taken(),
                        )
                        &&& exists|admission: RecoveryAdmission|
                            #[trigger] admits_group(*final(self), admission) && admission_after(
                                admission,
                                Seq::<RouterEvent>::empty(),
                                before.rank,
                                last_event_id,
                            )
                    } else {
                        final(self).stage is Ended && final(client)@ == fenced
                    },
                    RankRecoveryStage::Admitting { .. } => if succeeded {
                        &&& final(self).stage == old(self).stage
                        &&& final(self).rest@ == old(self).rest@
                        &&& final(client)@ == old(client)@
                    } else {
                        final(self).stage is Ended && final(client)@ == fenced
                    },
                }
            }),
    {
        self.awaiting = false;
        match self.stage {
            RankRecoveryStage::Ended => {},
            RankRecoveryStage::Fencing => {
                self.stage = RankRecoveryStage::Ended;
                client.finish_corrupt_recovery(self.key, self.generation);
            },
            RankRecoveryStage::Replacing { last_event_id } => {
                self.stage = RankRecoveryStage::Ended;
                match client.finish_replace(self.key, self.generation, last_event_id, succeeded) {
                    Some(admission) => self.admit_group(admission),
                    None => {},
                }
            },
            RankRecoveryStage::Admitting { cursor } => {
                if !succeeded {
                    self.stage = RankRecoveryStage::Ended;
                    client.finish_recovery_admission(self.key, self.generation, cursor, false);
                }
            },
        }
    }
}

/// What a run hands out next: a reset after a foreign answer, the snapshot as it came, the events
/// of a group one by one and in their order, and in the end nothing. The cursor moves with the end
/// of a group and not before.
pub proof fn law_run_hands_out_in_order(
    run: &mut RankRecovery,
    client: &mut WorkerQueryClient,
    work: RankRecoveryWork,
)
    requires
        old(client)@.wf(),
        !old(run).awaiting,
        call_ensures(RankRecovery::next, (run, client), work),
    ensures
        ({
            let key = old(run).key;
            let slots = old(client)@.slots;
            let after = final(client)@.slots[key];
            let bound = slots.dom().contains(key) && slots[key].active is Some
                && slots[key].active->0.generation == old(run).generation;
            let stage = old(run).stage;
            &&& final(run).key == key
            &&& final(run).generation == old(run).generation
            &&& stage is Fencing <==> work is Reset
            &&& stage is Replacing ==> work == RankRecoveryWork::Replace(old(run).snapshot)
            &&& stage is Admitting && old(run).rest@.len() > 0 ==> work == RankRecoveryWork::Admit(
                old(run).rest@[0],
            ) && final(run).rest@ == old(run).rest@.drop_first()
            &&& work is Done <==> stage is Ended || (stage is Admitting && old(run).rest@.len()
                == 0)
            &&& final(run).awaiting <==> !(work is Done)
            &&& !(work is Done) ==> final(client)@ == old(client)@ && final(run).stage == stage
            &&& work is Done ==> final(run).stage is Ended
            &&& stage is Admitting && work is Done && bound && stage->cursor is Some
                ==> after.rank.cursor == CursorState::Live(stage->cursor->0)
                && !after.rank.recovery_inflight
            &&& stage is Admitting && work is Done && bound && stage->cursor is None
                ==> after.rank.cursor == slots[key].rank.cursor && !after.rank.recovery_inflight
            &&& stage is Ended || !bound ==> final(client)@ == old(client)@
        }),
{
}

/// A step that fails fences the rank for the source that it is bound to and ends the run; so does
/// the reset after a foreign answer, whatever it came to. A step that succeeds moves no cursor.
pub proof fn law_failed_step_fences_and_ends(
    run: &mut RankRecovery,
    client: &mut WorkerQueryClient,
    succeeded: bool,
)
    requires
        old(client)@.wf(),
        old(run).awaiting,
        call_ensures(RankRecovery::outcome, (run, client, succeeded), ()),
    ensures
        ({
            let key = old(run).key;
            let slots = old(client)@.slots;
            let after = final(client)@.slots[key];
            let bound = slots.dom().contains(key) && slots[key].active is Some
                && slots[key].active->0.generation == old(run).generation;
            let stage = old(run).stage;
            let fences = stage is Fencing || ((stage is Replacing || stage is Admitting)
                && !succeeded);
            &&& !final(run).awaiting
            &&& fences ==> final(run).stage is Ended
            &&& fences && bound ==> after.pending_reset == Some(slots[key].active->0.source_id)
                && after.rank.cursor == slots[key].rank.cursor && !after.rank.recovery_inflight
            &&& !bound ==> final(client)@ == old(client)@
            &&& stage is Replacing && !bound ==> final(run).stage is Ended
            &&& stage is Replacing && succeeded && bound ==> {
                &&& final(run).stage is Admitting
                &&& final(run).stage->cursor is Some
                &&& final(run).stage->cursor->0 >= stage->last_event_id
                &&& final(run).rest@.len() == 0 ==> final(run).stage->cursor->0
                    == stage->last_event_id
                &&& forall|i: int|
                    0 <= i < final(run).rest@.len() ==> (#[trigger] final(run).rest@[i]).event_id
                        > stage->last_event_id && slots[key].rank.pending.contains(
                        final(run).rest@[i],
                    )
                &&& after.rank.cursor == slots[key].rank.cursor
                &&& after.pending_reset == slots[key].pending_reset
            }
            &&& stage is Admitting && succeeded ==> final(run).stage == stage && final(run).rest@
                == old(run).rest@ && final(client)@ == old(client)@
        }),
{
    let key = old(run).key;
    let slots = old(client)@.slots;
    let stage = old(run).stage;
    if stage is Replacing && succeeded && old(run).is_current(old(client)@) {
        let admission = choose|admission: RecoveryAdmission|
            #[trigger] admits_group(*final(run), admission) && admission_after(
                admission,
                Seq::<RouterEvent>::empty(),
                slots[key].rank,
                stage->last_event_id,
            );
        let tail = admission.tail@;
        assert(Seq::<RouterEvent>::empty() + tail =~= tail);
        assert(final(run).rest@ == tail);
        if tail.len() > 0 {
            assert(tail[tail.len() - 1].event_id > stage->last_event_id);
        }
        assert forall|i: int| 0 <= i < tail.len() implies (#[trigger] tail[i]).event_id
            > stage->last_event_id && slots[key].rank.pending.contains(tail[i]) by {}
    }
}

/// A run starts for the activation that asked, on what the answer came to: nothing to do for one
/// that is asked for again, a reset for a foreign one, the snapshot as it came, or the recovered
/// events with what was held back behind them.
pub proof fn law_run_starts_on_its_answer(
    client: &mut WorkerQueryClient,
    key: RecoveryKey,
    generation: u64,
    start_event_id: Option<u64>,
    cancelled: bool,
    result: Result<WorkerKvQueryResponse, RecoveryFailure>,
    run: Option<RankRecovery>,
)
    requires
        old(client)@.wf(),
        call_ensures(
            RankRecovery::open,
            (client, key, generation, start_event_id, cancelled, result),
            run,
        ),
    ensures
        ({
            let slots = old(client)@.slots;
            let bound = slots.dom().contains(key) && slots[key].active is Some
                && slots[key].active->0.generation == generation;
            let own = |events: Seq<RouterEvent>|
                forall|i: int|
                    0 <= i < events.len() ==> (#[trigger] events[i]).worker_id == key.0
                        && events[i].dp_rank == key.1;
            &&& run is Some <==> bound && !cancelled
            &&& run is None ==> final(client)@ == old(client)@
            &&& run is Some ==> {
                &&& run->0.key == key
                &&& run->0.generation == generation
                &&& !run->0.awaiting
                &&& run->0.completes_initial ==> start_event_id is None
                &&& match result {
                    Ok(WorkerKvQueryResponse::Events { events, .. }) => if own(events@) {
                        &&& run->0.stage is Admitting
                        &&& run->0.rest@.len() >= events@.len()
                        &&& run->0.rest@.subrange(0, events@.len() as int) == events@
                        &&& run->0.completes_initial == (start_event_id is None)
                    } else {
                        run->0.stage is Fencing
                    },
                    Ok(WorkerKvQueryResponse::TreeDump { events, last_event_id, reset_scope }) =>
                    if reset_scope is Domain {
                        run->0.stage is Ended && !run->0.completes_initial
                    } else if own(events@) {
                        &&& run->0.stage == (RankRecoveryStage::Replacing { last_event_id })
                        &&& run->0.snapshot@ == events@
                        &&& run->0.completes_initial == (start_event_id is None)
                    } else {
                        run->0.stage is Fencing
                    },
                    Ok(WorkerKvQueryResponse::TreeDumpFailed { .. }) | Err(
                        RecoveryFailure::NonAuthoritative,
                    ) => run->0.stage is Ended && !run->0.completes_initial,
                    _ => run->0.stage is Admitting && run->0.completes_initial == (start_event_id
                        is None),
                }
            }
        }),
{
    if run is Some {
        let worker = WorkerWithDpRank { worker_id: key.0, dp_rank: key.1 };
        let before = old(client)@.slots[key];
        let after = final(client)@.slots[key];
        let step = choose|step: RecoveryStep|
            {
                &&& #[trigger] starts_on(run->0, step)
                &&& recovery_planned(before, worker, result, step, after)
                &&& run->0.completes_initial == (start_event_id is None && step
                    != RecoveryStep::Retry)
            };
        let own = |events: Seq<RouterEvent>|
            forall|i: int|
                0 <= i < events.len() ==> (#[trigger] events[i]).worker_id == key.0
                    && events[i].dp_rank == key.1;
        match result {
            Ok(WorkerKvQueryResponse::Events { events, .. }) => {
                if own(events@) {
                    assert(crate::indexer::recovery::source_slot::events_match_rank(
                        worker,
                        events@,
                    ));
                    assert(run->0.rest@.subrange(0, events@.len() as int) =~= events@);
                } else {
                    let i = choose|i: int|
                        0 <= i < events@.len() && !((#[trigger] events@[i]).worker_id == key.0
                            && events@[i].dp_rank == key.1);
                    assert(events@[i].rank() != worker);
                }
            },
            Ok(WorkerKvQueryResponse::TreeDump { events, .. }) => {
                if own(events@) {
                    assert(crate::indexer::recovery::source_slot::events_match_rank(
                        worker,
                        events@,
                    ));
                } else {
                    let i = choose|i: int|
                        0 <= i < events@.len() && !((#[trigger] events@[i]).worker_id == key.0
                            && events@[i].dp_rank == key.1);
                    assert(events@[i].rank() != worker);
                }
            },
            _ => {},
        }
    }
}

/// After events that end at an id, a run admits what was held back above both that id and the
/// cursor. It stops at the last id that it admits, and of the ids on the way to there, or to the
/// highest one that was seen, it reports exactly those without an event.
pub proof fn law_run_reports_what_it_skips(
    client: &mut WorkerQueryClient,
    key: RecoveryKey,
    generation: u64,
    start_event_id: Option<u64>,
    result: Result<WorkerKvQueryResponse, RecoveryFailure>,
    run: Option<RankRecovery>,
    id: u64,
)
    requires
        old(client)@.wf(),
        call_ensures(
            RankRecovery::open,
            (client, key, generation, start_event_id, false, result),
            run,
        ),
        run is Some,
        result is Ok,
        result->Ok_0 is Events,
        forall|i: int|
            0 <= i < result->Ok_0->Events_events@.len() ==> (
            #[trigger] result->Ok_0->Events_events@[i]).worker_id == key.0
                && result->Ok_0->Events_events@[i].dp_rank == key.1,
    ensures
        ({
            let events = result->Ok_0->Events_events@;
            let rank = old(client)@.slots[key].rank;
            let stood = match rank.cursor.last() {
                Some(last) => last,
                None => 0,
            };
            let through = if stood >= result->Ok_0->Events_last_event_id {
                stood
            } else {
                result->Ok_0->Events_last_event_id
            };
            let rest = run->0.rest@;
            let held_back = exists|i: int|
                events.len() <= i < rest.len() && (#[trigger] rest[i]).event_id == id;
            let reported = exists|k: int|
                0 <= k < run->0.skipped@.len() && (#[trigger] run->0.skipped@[k]).start <= id
                    <= run->0.skipped@[k].end;
            &&& run->0.stage is Admitting
            &&& run->0.stage->cursor == Some(
                if rest.len() > events.len() {
                    rest[rest.len() - 1].event_id
                } else {
                    through
                },
            )
            &&& held_back <==> id > through && (exists|j: int|
                0 <= j < rank.pending.len() && (#[trigger] rank.pending[j]).event_id == id)
            &&& id > through && (id <= run->0.stage->cursor->0 || (rank.max_seen is Some && id
                <= rank.max_seen->0)) ==> (reported <==> !held_back)
            &&& reported ==> id > through && (id <= run->0.stage->cursor->0 || (rank.max_seen is Some
                && id <= rank.max_seen->0))
        }),
{
    let worker = WorkerWithDpRank { worker_id: key.0, dp_rank: key.1 };
    let before = old(client)@.slots[key];
    let step = choose|step: RecoveryStep|
        {
            &&& #[trigger] starts_on(run->0, step)
            &&& recovery_planned(before, worker, result, step, final(client)@.slots[key])
            &&& run->0.completes_initial == (start_event_id is None && step != RecoveryStep::Retry)
        };
    let events = result->Ok_0->Events_events@;
    let rest = run->0.rest@;
    assert(events_match_rank(worker, events));
    let admission = step->Admit_0;
    let tail = admission.tail@;
    let through = spec_max(or_zero(before.rank.cursor.last()), result->Ok_0->Events_last_event_id);
    law_snapshot_is_followed_by_the_tail(admission, events, before.rank, through, id);
    assert(rest == events + tail);
    if exists|i: int| 0 <= i < tail.len() && (#[trigger] tail[i]).event_id == id {
        let i = choose|i: int| 0 <= i < tail.len() && (#[trigger] tail[i]).event_id == id;
        assert(rest[events.len() + i] == tail[i]);
    }
    if exists|i: int| events.len() <= i < rest.len() && (#[trigger] rest[i]).event_id == id {
        let i = choose|i: int| events.len() <= i < rest.len() && (#[trigger] rest[i]).event_id == id;
        assert(tail[i - events.len()] == rest[i]);
    }
}

/// Once a snapshot is in, a run admits what was held back above it, and of the ids from there to
/// the last that it admits, or to the highest one that was seen, it reports exactly those without
/// an event.
pub proof fn law_replaced_rank_reports_what_it_skips(
    run: &mut RankRecovery,
    client: &mut WorkerQueryClient,
    id: u64,
)
    requires
        old(client)@.wf(),
        old(run).awaiting,
        call_ensures(RankRecovery::outcome, (run, client, true), ()),
        old(run).stage is Replacing,
        old(client)@.slots.dom().contains(old(run).key),
        old(client)@.slots[old(run).key].active is Some,
        old(client)@.slots[old(run).key].active->0.generation == old(run).generation,
    ensures
        ({
            let rank = old(client)@.slots[old(run).key].rank;
            let through = old(run).stage->last_event_id;
            let rest = final(run).rest@;
            let cursor = final(run).stage->cursor->0;
            let held_back = exists|i: int|
                0 <= i < rest.len() && (#[trigger] rest[i]).event_id == id;
            let reported = exists|k: int|
                0 <= k < final(run).skipped@.len() && (#[trigger] final(run).skipped@[k]).start <= id
                    <= final(run).skipped@[k].end;
            &&& held_back <==> id > through && (exists|j: int|
                0 <= j < rank.pending.len() && (#[trigger] rank.pending[j]).event_id == id)
            &&& rest.len() > 0 ==> cursor == rest[rest.len() - 1].event_id
            &&& id > through && (id <= cursor || (rank.max_seen is Some && id <= rank.max_seen->0))
                ==> (reported <==> !held_back)
            &&& reported ==> id > through && (id <= cursor || (rank.max_seen is Some && id
                <= rank.max_seen->0))
        }),
{
    let rank = old(client)@.slots[old(run).key].rank;
    let through = old(run).stage->last_event_id;
    let admission = choose|admission: RecoveryAdmission|
        #[trigger] admits_group(*final(run), admission) && admission_after(
            admission,
            Seq::<RouterEvent>::empty(),
            rank,
            through,
        );
    assert(Seq::<RouterEvent>::empty() + admission.tail@ =~= admission.tail@);
    law_snapshot_is_followed_by_the_tail(
        admission,
        Seq::<RouterEvent>::empty(),
        rank,
        through,
        id,
    );
}

/// What a run reports, and whether it ends the rank's first recovery, stays as it was while the run
/// goes on; only a snapshot that went in brings a new report.
pub proof fn law_report_of_a_run_stays(
    run: &mut RankRecovery,
    client: &mut WorkerQueryClient,
    work: RankRecoveryWork,
    stepped: &mut RankRecovery,
    same: &mut WorkerQueryClient,
    succeeded: bool,
)
    requires
        old(client)@.wf(),
        !old(run).awaiting,
        call_ensures(RankRecovery::next, (run, client), work),
        old(same)@.wf(),
        old(stepped).awaiting,
        call_ensures(RankRecovery::outcome, (stepped, same, succeeded), ()),
    ensures
        final(run).skipped@ == old(run).skipped@,
        final(run).completes_initial == old(run).completes_initial,
        final(stepped).completes_initial == old(stepped).completes_initial,
        final(stepped).key == old(stepped).key,
        final(stepped).generation == old(stepped).generation,
        !(old(stepped).stage is Replacing && succeeded) ==> final(stepped).skipped@
            == old(stepped).skipped@,
{
}

} // verus!
