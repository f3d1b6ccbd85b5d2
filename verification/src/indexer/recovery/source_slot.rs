//! Source binding, reset fence and recovery of one rank.
//!
//! Each operation that waits on the index or on a worker comes in two parts: a `begin_..` or
//! `plan_..` that says what to do, and a `finish_..` that takes the outcome.
use vstd::prelude::*;

use crate::membership::{KvEventSource, KvSourceId, KvSourceStatus};
use crate::protocols::{max_u64, or_zero, spec_max, ResetScope, RouterEvent, WorkerWithDpRank};
use crate::indexer::recovery::cursor::CursorState;
use crate::indexer::recovery::rank_state::{
    holds_id, ids_increase, is_ordered_suffix, law_suffix_is_complete, LiveEventAction, RankState,
    RankView,
};

verus! {

/// One activation of a source, told apart from the ones before it by its generation.
#[derive(Clone, Copy, Debug, PartialEq, Eq, Structural)]
pub struct SourceBinding {
    pub source: KvEventSource,
    pub source_id: KvSourceId,
    pub generation: u64,
}

impl SourceBinding {
    pub open spec fn of(source: KvEventSource, generation: u64) -> SourceBinding {
        SourceBinding { source, source_id: source.id(), generation }
    }

    pub fn is_recoverable(&self) -> (recoverable: bool)
        ensures
            recoverable == (self.source.recovery_target is Some),
    {
        self.source.recovery_target.is_some()
    }
}

#[derive(Debug)]
pub struct SourceSlot {
    pub active: Option<SourceBinding>,
    pub rank: RankState,
    /// The source whose acknowledged reset must complete before the next activation.
    pub pending_reset: Option<KvSourceId>,
    /// A source that broke the protocol stays out until its exact identity changes.
    pub rejected_source: Option<KvSourceId>,
}

/// What a [`SourceSlot`] holds.
pub struct SlotView {
    pub active: Option<SourceBinding>,
    pub rank: RankView,
    pub pending_reset: Option<KvSourceId>,
    pub rejected_source: Option<KvSourceId>,
}

impl View for SourceSlot {
    type V = SlotView;

    open spec fn view(&self) -> SlotView {
        SlotView {
            active: self.active,
            rank: self.rank@,
            pending_reset: self.pending_reset,
            rejected_source: self.rejected_source,
        }
    }
}

/// A reconciliation of one rank with its membership status.
#[derive(Clone, Copy, Debug, PartialEq, Eq, Structural)]
pub enum ReconcileStep {
    /// The active source is the selected one: nothing to do.
    Unchanged,
    /// End the retired binding and its recovery, reset the rank for `reset`, and go on.
    Proceed { retired: Option<SourceBinding>, reset: Option<KvSourceId> },
}

/// What a live event asks for.
#[derive(Debug, PartialEq, Eq)]
pub enum LiveStep {
    Ignore,
    /// Admit the event; before that cancel the recovery, and reset the rank, where so marked.
    Admit { event: RouterEvent, cancel_recovery: bool, reset_first: bool },
    Recover { start_event_id: Option<u64>, end_event_id: Option<u64> },
}

/// An answer to a recovery query.
#[derive(Debug, PartialEq, Eq)]
pub enum WorkerKvQueryResponse {
    Events { events: Vec<RouterEvent>, last_event_id: u64 },
    TreeDump { events: Vec<RouterEvent>, last_event_id: u64, reset_scope: ResetScope },
    TreeDumpFailed { last_event_id: u64, message: String },
    Error { message: String },
    /// Any other answer: it carries no state.
    NoState,
}

/// Why a recovery got no usable answer.
#[derive(Clone, Copy, Debug, PartialEq, Eq, Structural)]
pub enum RecoveryFailure {
    /// The worker answered, but never with an authoritative snapshot.
    NonAuthoritative,
    Failed,
}

/// Event ids, both ends inclusive, that a recovery went past without an event.
#[derive(Clone, Copy, Debug, PartialEq, Eq, Structural)]
pub struct SkippedIds {
    pub start: u64,
    pub end: u64,
}

/// Events to admit, first `recovered`, then `tail`, as one group.
#[derive(Debug, PartialEq, Eq)]
pub struct RecoveryAdmission {
    pub recovered: Vec<RouterEvent>,
    pub tail: Vec<RouterEvent>,
    /// Where the cursor goes once the whole group was admitted; `None` leaves it.
    pub cursor: Option<u64>,
    pub skipped: Vec<SkippedIds>,
}

#[derive(Debug, PartialEq, Eq)]
pub enum RecoveryStep {
    /// Nothing usable came; wait for the next live event.
    Retry,
    /// The answer speaks of another rank: reset this one and keep it fenced.
    Fence,
    /// Replace the rank by a snapshot taken at `last_event_id`.
    Replace { events: Vec<RouterEvent>, last_event_id: u64 },
    Admit(RecoveryAdmission),
}

pub open spec fn last_id_or(events: Seq<RouterEvent>, default: u64) -> u64 {
    if events.len() > 0 {
        events.last().event_id
    } else {
        default
    }
}

pub open spec fn gap_between(after: u64, through: u64) -> Seq<SkippedIds> {
    if through > after {
        seq![SkippedIds { start: (after + 1) as u64, end: through }]
    } else {
        Seq::empty()
    }
}

/// The gaps from `after` up to the last event of `tail`.
pub open spec fn gaps_before(after: u64, tail: Seq<RouterEvent>) -> Seq<SkippedIds>
    decreases tail.len(),
{
    if tail.len() == 0 {
        Seq::empty()
    } else {
        let front = tail.drop_last();
        gaps_before(after, front) + gap_between(
            last_id_or(front, after),
            (tail.last().event_id - 1) as u64,
        )
    }
}

/// The ids above `after` that `tail` lacks, up to `watermark` or the last event of `tail`.
pub open spec fn skipped_ids(after: u64, tail: Seq<RouterEvent>, watermark: u64) -> Seq<
    SkippedIds,
> {
    gaps_before(after, tail) + gap_between(last_id_or(tail, after), watermark)
}

pub open spec fn is_skipped(skipped: Seq<SkippedIds>, id: u64) -> bool {
    exists|k: int| 0 <= k < skipped.len() && (#[trigger] skipped[k]).start <= id <= skipped[k].end
}

pub open spec fn events_match_rank(worker: WorkerWithDpRank, events: Seq<RouterEvent>) -> bool {
    forall|i: int| 0 <= i < events.len() ==> (#[trigger] events[i]).rank() == worker
}

/// The group that goes in after a recovery through `through`: the recovered events, then all
/// that was held back above it.
pub open spec fn admission_after(
    admission: RecoveryAdmission,
    recovered: Seq<RouterEvent>,
    rank: RankView,
    through: u64,
) -> bool {
    &&& admission.recovered@ == recovered
    &&& is_ordered_suffix(admission.tail@, rank.pending, through)
    &&& admission.cursor == Some(last_id_or(admission.tail@, through))
    &&& admission.skipped@ == skipped_ids(
        through,
        admission.tail@,
        match rank.max_seen {
            Some(seen) => spec_max(seen, through),
            None => through,
        },
    )
}

/// The group that goes in when recovery gave nothing: all that was held back above the cursor.
pub open spec fn admission_degraded(admission: RecoveryAdmission, rank: RankView) -> bool {
    &&& admission.recovered@.len() == 0
    &&& is_ordered_suffix(admission.tail@, rank.pending, or_zero(rank.cursor.last()))
    &&& admission.cursor == if admission.tail@.len() > 0 {
        Some(admission.tail@.last().event_id)
    } else {
        None
    }
    &&& admission.skipped@.len() == 0
}

/// What a recovery answer comes to: the step, and the slot after it.
pub open spec fn recovery_planned(
    before: SlotView,
    worker: WorkerWithDpRank,
    result: Result<WorkerKvQueryResponse, RecoveryFailure>,
    step: RecoveryStep,
    after: SlotView,
) -> bool {
    match result {
        Ok(WorkerKvQueryResponse::Events { events, last_event_id }) => if events_match_rank(
            worker,
            events@,
        ) {
            &&& step is Admit
            &&& admission_after(
                step->Admit_0,
                events@,
                before.rank,
                spec_max(or_zero(before.rank.cursor.last()), last_event_id),
            )
            &&& after == before.buffer_taken()
        } else {
            step == RecoveryStep::Fence && after == before
        },
        Ok(WorkerKvQueryResponse::TreeDump { events, last_event_id, reset_scope }) =>
        if reset_scope != ResetScope::All {
            step == RecoveryStep::Retry && after == before.retry_later()
        } else if events_match_rank(worker, events@) {
            step == (RecoveryStep::Replace { events, last_event_id }) && after == before
        } else {
            step == RecoveryStep::Fence && after == before
        },
        Ok(WorkerKvQueryResponse::TreeDumpFailed { .. }) => step == RecoveryStep::Retry && after
            == before.retry_later(),
        Err(RecoveryFailure::NonAuthoritative) => step == RecoveryStep::Retry && after
            == before.retry_later(),
        Ok(WorkerKvQueryResponse::Error { .. }) | Ok(WorkerKvQueryResponse::NoState) | Err(
            RecoveryFailure::Failed,
        ) => {
            &&& step is Admit
            &&& admission_degraded(step->Admit_0, before.rank)
            &&& after == before.buffer_taken()
        },
    }
}

impl SlotView {
    pub open spec fn empty() -> SlotView {
        SlotView {
            active: None,
            rank: RankView::fresh(false),
            pending_reset: None,
            rejected_source: None,
        }
    }

    pub open spec fn fenced(self, source_id: KvSourceId) -> SlotView {
        SlotView { pending_reset: Some(source_id), rank: self.rank.recovery_dropped(), ..self }
    }

    /// The source for which the rank must be reset before anything else is bound.
    pub open spec fn owed_reset(self) -> Option<KvSourceId> {
        match self.pending_reset {
            Some(id) => Some(id),
            None => match self.active {
                Some(binding) => Some(binding.source_id),
                None => None,
            },
        }
    }

    pub open spec fn unbound(self) -> SlotView {
        SlotView { active: None, pending_reset: None, ..self }
    }

    pub open spec fn deactivated(self) -> SlotView {
        SlotView { active: None, ..self }
    }

    pub open spec fn rank_cleared(self) -> SlotView {
        SlotView { rank: RankView::fresh(false), ..self }
    }

    pub open spec fn keeps_source(self, status: KvSourceStatus) -> bool {
        &&& self.active is Some
        &&& status.active() is Some
        &&& self.active->0.source_id == status.active()->0.id()
        &&& self.pending_reset is None
    }

    /// The slot after a reset that was owed for `reset` and ended with `reset_ok`.
    pub open spec fn settled(
        self,
        status: KvSourceStatus,
        reset: Option<KvSourceId>,
        reset_ok: bool,
        generation: u64,
    ) -> SlotView {
        if reset is Some && !reset_ok {
            self.fenced(reset->0)
        } else {
            match status.active() {
                Some(source) => if self.rejected_source == Some(source.id()) {
                    self.rank_cleared()
                } else {
                    SlotView {
                        active: Some(SourceBinding::of(source, generation)),
                        rank: RankView::fresh(source.recovery_target is Some),
                        rejected_source: None,
                        ..self
                    }
                },
                None => self.rank_cleared(),
            }
        }
    }

    /// Whether [`SlotView::settled`] binds a source.
    pub open spec fn settles_on_source(
        self,
        status: KvSourceStatus,
        reset: Option<KvSourceId>,
        reset_ok: bool,
    ) -> bool {
        &&& !(reset is Some && !reset_ok)
        &&& status.active() is Some
        &&& self.rejected_source != Some(status.active()->0.id())
    }

    /// The step taken on a live event: the slot after it, and what is to be done.
    pub open spec fn on_live_event(self, event: RouterEvent, recoverable: bool) -> (
        SlotView,
        LiveStep,
    ) {
        let (rank, action) = self.rank.on_live_event(event, recoverable);
        match action {
            LiveEventAction::Ignore => (SlotView { rank, ..self }, LiveStep::Ignore),
            LiveEventAction::Apply { event, .. } => (
                SlotView { rank, ..self },
                LiveStep::Admit { event, cancel_recovery: false, reset_first: false },
            ),
            LiveEventAction::Clear { event, .. } => (
                SlotView { rank: rank.recovery_dropped(), ..self },
                LiveStep::Admit { event, cancel_recovery: true, reset_first: false },
            ),
            LiveEventAction::Recover { start_event_id, end_event_id } => (
                SlotView { rank, ..self },
                LiveStep::Recover { start_event_id, end_event_id },
            ),
            LiveEventAction::ResetDegraded { event } => (
                SlotView { rank, ..self },
                LiveStep::Admit { event, cancel_recovery: true, reset_first: true },
            ),
        }
    }

    pub open spec fn buffer_taken(self) -> SlotView {
        SlotView { rank: RankView { pending: Seq::empty(), ..self.rank }, ..self }
    }

    pub open spec fn retry_later(self) -> SlotView {
        SlotView { rank: self.rank.snapshot_failed(), ..self }
    }
}

impl Default for SourceSlot {
    fn default() -> (slot: Self)
        ensures
            slot@ == SlotView::empty(),
    {
        SourceSlot {
            active: None,
            rank: RankState::default(),
            pending_reset: None,
            rejected_source: None,
        }
    }
}

/// Record the gap from `after` to `through`, if there is one.
fn push_gap(skipped: &mut Vec<SkippedIds>, after: u64, through: u64)
    ensures
        final(skipped)@ == old(skipped)@ + gap_between(after, through),
{
    if through > after {
        skipped.push(SkippedIds { start: after + 1, end: through });
    }
    proof {
        assert(skipped@ =~= old(skipped)@ + gap_between(after, through));
    }
}

fn list_skipped_ids(after: u64, tail: &Vec<RouterEvent>, watermark: u64) -> (skipped: Vec<
    SkippedIds,
>)
    requires
        ids_increase(tail@),
        forall|i: int| 0 <= i < tail@.len() ==> (#[trigger] tail@[i]).event_id > after,
    ensures
        skipped@ == skipped_ids(after, tail@, watermark),
{
    let mut skipped: Vec<SkippedIds> = Vec::new();
    let mut last: u64 = after;
    let mut i: usize = 0;
    proof {
        assert(tail@.subrange(0, 0) =~= Seq::empty());
        assert(skipped@ =~= gaps_before(after, tail@.subrange(0, 0)));
    }
    while i < tail.len()
        invariant
            i <= tail.len(),
            last == last_id_or(tail@.subrange(0, i as int), after),
            skipped@ == gaps_before(after, tail@.subrange(0, i as int)),
            forall|i: int| 0 <= i < tail@.len() ==> (#[trigger] tail@[i]).event_id > after,
        decreases tail.len() - i,
    {
        let id: u64 = tail[i].event_id;
        push_gap(&mut skipped, last, id - 1);
        proof {
            let next = tail@.subrange(0, i + 1);
            assert(next.drop_last() =~= tail@.subrange(0, i as int));
            assert(next.last() == tail@[i as int]);
        }
        last = id;
        i = i + 1;
    }
    proof {
        assert(tail@.subrange(0, i as int) =~= tail@);
    }
    push_gap(&mut skipped, last, watermark);
    skipped
}

pub fn recovery_events_match_source(worker: WorkerWithDpRank, events: &Vec<RouterEvent>) -> (ok:
    bool)
    ensures
        ok == events_match_rank(worker, events@),
{
    let mut i: usize = 0;
    while i < events.len()
        invariant
            i <= events.len(),
            forall|j: int| 0 <= j < i ==> (#[trigger] events@[j]).rank() == worker,
        decreases events.len() - i,
    {
        if events[i].worker_id != worker.worker_id || events[i].dp_rank != worker.dp_rank {
            proof {
                assert(events@[i as int].rank() != worker);
            }
            return false;
        }
        i = i + 1;
    }
    true
}

impl SourceSlot {
    /// Refuse live events until a reset for `source_id` has completed.
    pub fn fence_for_reset(&mut self, source_id: KvSourceId)
        ensures
            final(self)@ == old(self)@.fenced(source_id),
    {
        self.pending_reset = Some(source_id);
        self.rank.finish_failed_recovery();
    }

    fn owed_reset(&self) -> (reset: Option<KvSourceId>)
        ensures
            reset == self@.owed_reset(),
    {
        match self.pending_reset {
            Some(id) => Some(id),
            None => match self.active {
                Some(binding) => Some(binding.source_id),
                None => None,
            },
        }
    }

    /// Take the active binding and the owed reset out of the slot.
    pub fn unbind(&mut self) -> (taken: (Option<SourceBinding>, Option<KvSourceId>))
        ensures
            taken == (old(self)@.active, old(self)@.owed_reset()),
            final(self)@ == old(self)@.unbound(),
    {
        let reset = self.owed_reset();
        let retired = self.active;
        self.active = None;
        self.pending_reset = None;
        (retired, reset)
    }

    /// Take the active binding out of the slot; an owed reset stays owed.
    pub fn deactivate(&mut self) -> (retired: Option<SourceBinding>)
        ensures
            retired == old(self)@.active,
            final(self)@ == old(self)@.deactivated(),
    {
        let retired = self.active;
        self.active = None;
        retired
    }

    pub fn begin_reconcile(&mut self, status: &KvSourceStatus) -> (step: ReconcileStep)
        ensures
            old(self)@.keeps_source(*status) ==> step == ReconcileStep::Unchanged && final(self)@
                == old(self)@,
            !old(self)@.keeps_source(*status) ==> step == (ReconcileStep::Proceed {
                retired: old(self)@.active,
                reset: old(self)@.owed_reset(),
            }) && final(self)@ == old(self)@.unbound(),
    {
        if let (Some(active), Some(selected)) = (self.active, status.active_source()) {
            if active.source_id == selected.source_id() && self.pending_reset.is_none() {
                return ReconcileStep::Unchanged;
            }
        }
        let (retired, reset) = self.unbind();
        ReconcileStep::Proceed { retired, reset }
    }

    /// Go on after the reset for `reset`; `generation` names the activation, if it comes to one.
    pub fn finish_reconcile(
        &mut self,
        status: &KvSourceStatus,
        reset: Option<KvSourceId>,
        reset_ok: bool,
        generation: u64,
    ) -> (bound: Option<SourceBinding>)
        ensures
            final(self)@ == old(self)@.settled(*status, reset, reset_ok, generation),
            bound == if old(self)@.settles_on_source(*status, reset, reset_ok) {
                Some(SourceBinding::of(status.active()->0, generation))
            } else {
                None
            },
    {
        if let Some(source_id) = reset {
            if !reset_ok {
                self.fence_for_reset(source_id);
                return None;
            }
        }
        self.rank = RankState::default();
        match status.active_source() {
            Some(source) => {
                let source_id = source.source_id();
                if let Some(rejected) = self.rejected_source {
                    if rejected == source_id {
                        return None;
                    }
                }
                self.rejected_source = None;
                let binding = SourceBinding { source, source_id, generation };
                self.rank.activate(binding.is_recoverable());
                self.active = Some(binding);
                Some(binding)
            },
            None => None,
        }
    }

    /// The outcome of a reset after the binding was given up: the rank starts anew either way,
    /// and a failed reset stays owed.
    pub fn finish_unbound_reset(&mut self, source_id: KvSourceId, reset_ok: bool)
        ensures
            final(self)@ == (if reset_ok {
                old(self)@
            } else {
                old(self)@.fenced(source_id)
            }).rank_cleared(),
    {
        if !reset_ok {
            self.fence_for_reset(source_id);
        }
        self.rank = RankState::default();
    }

    /// Keep a source that broke the protocol out until its exact identity changes.
    pub fn finish_reject(&mut self, source_id: KvSourceId, reset_ok: bool)
        ensures
            final(self)@ == (SlotView {
                rejected_source: Some(source_id),
                ..(if reset_ok {
                    old(self)@
                } else {
                    old(self)@.fenced(source_id)
                }).rank_cleared()
            }),
    {
        self.finish_unbound_reset(source_id, reset_ok);
        self.rejected_source = Some(source_id);
    }

    pub fn begin_live_event(&mut self, event: RouterEvent, recoverable: bool) -> (step: LiveStep)
        ensures
            (final(self)@, step) == old(self)@.on_live_event(event, recoverable),
    {
        match self.rank.observe_live_event(event, recoverable) {
            LiveEventAction::Ignore => LiveStep::Ignore,
            LiveEventAction::Apply { event, .. } => LiveStep::Admit {
                event,
                cancel_recovery: false,
                reset_first: false,
            },
            LiveEventAction::Clear { event, .. } => {
                self.rank.discard_recovery_before_clear();
                LiveStep::Admit { event, cancel_recovery: true, reset_first: false }
            },
            LiveEventAction::Recover { start_event_id, end_event_id } => LiveStep::Recover {
                start_event_id,
                end_event_id,
            },
            LiveEventAction::ResetDegraded { event } => LiveStep::Admit {
                event,
                cancel_recovery: true,
                reset_first: true,
            },
        }
    }

    /// The outcome of an admission: the cursor moves only when the queue took the event.
    pub fn finish_live_event(&mut self, source_id: KvSourceId, event_id: u64, accepted: bool)
        ensures
            final(self)@ == if accepted {
                SlotView { rank: old(self)@.rank.committed(event_id), ..old(self)@ }
            } else {
                old(self)@.fenced(source_id)
            },
    {
        if accepted {
            self.rank.commit_live_admission(event_id);
        } else {
            self.fence_for_reset(source_id);
        }
    }

    fn admission_through(&mut self, recovered: Vec<RouterEvent>, through: u64) -> (admission:
        RecoveryAdmission)
        ensures
            final(self)@ == old(self)@.buffer_taken(),
            admission_after(admission, recovered@, old(self)@.rank, through),
    {
        let watermark: u64 = match self.rank.pending_live_watermark() {
            Some(seen) => max_u64(seen, through),
            None => through,
        };
        let tail = self.rank.take_pending_above(through);
        let skipped = list_skipped_ids(through, &tail, watermark);
        let last: u64 = if tail.len() > 0 {
            tail[tail.len() - 1].event_id
        } else {
            through
        };
        RecoveryAdmission { recovered, tail, cursor: Some(last), skipped }
    }

    fn degraded_admission(&mut self) -> (admission: RecoveryAdmission)
        ensures
            final(self)@ == old(self)@.buffer_taken(),
            admission_degraded(admission, old(self)@.rank),
    {
        let tail = self.rank.take_failed_recovery_degraded();
        let cursor: Option<u64> = if tail.len() > 0 {
            Some(tail[tail.len() - 1].event_id)
        } else {
            None
        };
        RecoveryAdmission { recovered: Vec::new(), tail, cursor, skipped: Vec::new() }
    }

    /// What to do with the answer to a recovery query for `worker`.
    ///
    /// The answering worker chooses between retained events and a snapshot; nothing is reset
    /// ahead of its choice. The cursor stays until the outcome is known.
    pub fn plan_recovery(
        &mut self,
        worker: WorkerWithDpRank,
        result: Result<WorkerKvQueryResponse, RecoveryFailure>,
    ) -> (step: RecoveryStep)
        ensures
            recovery_planned(old(self)@, worker, result, step, final(self)@),
    {
        match result {
            Ok(WorkerKvQueryResponse::Events { events, last_event_id }) => {
                if !recovery_events_match_source(worker, &events) {
                    return RecoveryStep::Fence;
                }
                let last: u64 = match self.rank.last_admitted_id() {
                    Some(last) => last,
                    None => 0,
                };
                RecoveryStep::Admit(self.admission_through(events, max_u64(last, last_event_id)))
            },
            Ok(WorkerKvQueryResponse::TreeDump { events, last_event_id, reset_scope }) => {
                if reset_scope != ResetScope::All {
                    self.rank.retry_after_failed_snapshot();
                    return RecoveryStep::Retry;
                }
                if !recovery_events_match_source(worker, &events) {
                    return RecoveryStep::Fence;
                }
                RecoveryStep::Replace { events, last_event_id }
            },
            Ok(WorkerKvQueryResponse::TreeDumpFailed { .. }) => {
                self.rank.retry_after_failed_snapshot();
                RecoveryStep::Retry
            },
            Err(RecoveryFailure::NonAuthoritative) => {
                self.rank.retry_after_failed_snapshot();
                RecoveryStep::Retry
            },
            Ok(WorkerKvQueryResponse::Error { .. }) => RecoveryStep::Admit(
                self.degraded_admission(),
            ),
            Ok(WorkerKvQueryResponse::NoState) => RecoveryStep::Admit(self.degraded_admission()),
            Err(RecoveryFailure::Failed) => RecoveryStep::Admit(self.degraded_admission()),
        }
    }

    /// The outcome of replacing the rank by a snapshot; `Some` is what to admit on top of it.
    pub fn finish_replace(
        &mut self,
        source_id: KvSourceId,
        last_event_id: u64,
        replaced: bool,
    ) -> (admission: Option<RecoveryAdmission>)
        ensures
            !replaced ==> admission is None && final(self)@ == old(self)@.fenced(source_id),
            replaced ==> {
                &&& admission is Some
                &&& admission_after(
                    admission->0,
                    Seq::<RouterEvent>::empty(),
                    old(self)@.rank,
                    last_event_id,
                )
                &&& final(self)@ == old(self)@.buffer_taken()
            },
    {
        if !replaced {
            self.fence_for_reset(source_id);
            return None;
        }
        let none: Vec<RouterEvent> = Vec::new();
        Some(self.admission_through(none, last_event_id))
    }

    /// The outcome of admitting a recovery group. The cursor moves only with the whole group.
    pub fn finish_recovery_admission(
        &mut self,
        source_id: KvSourceId,
        cursor: Option<u64>,
        accepted: bool,
    )
        ensures
            final(self)@ == if accepted {
                SlotView { rank: old(self)@.rank.tail_committed(cursor), ..old(self)@ }
            } else {
                old(self)@.fenced(source_id)
            },
    {
        if accepted {
            self.rank.commit_failed_recovery_degraded(cursor);
        } else {
            self.fence_for_reset(source_id);
        }
    }
}

/// The whole handling of one live event: the step, and the outcome of an admission it asks for.
pub open spec fn after_live_event(
    slot: SlotView,
    event: RouterEvent,
    recoverable: bool,
    source_id: KvSourceId,
    accepted: bool,
) -> SlotView {
    let (next, step) = slot.on_live_event(event, recoverable);
    match step {
        LiveStep::Admit { event, .. } => if accepted {
            SlotView { rank: next.rank.committed(event.event_id), ..next }
        } else {
            next.fenced(source_id)
        },
        _ => next,
    }
}

/// The live path never admits an event that the cursor already covers.
pub proof fn law_live_admissions_are_new(slot: SlotView, event: RouterEvent, recoverable: bool)
    requires
        slot.on_live_event(event, recoverable).1 is Admit,
        slot.rank.cursor.last() is Some,
    ensures
        slot.on_live_event(event, recoverable).1->event == event,
        event.event_id > slot.rank.cursor.last()->0,
{
}

/// Live events never move the cursor back, whether their admission succeeds or fails.
pub proof fn law_live_cursor_never_falls(
    slot: SlotView,
    event: RouterEvent,
    recoverable: bool,
    source_id: KvSourceId,
    accepted: bool,
)
    requires
        slot.rank.cursor.last() is Some,
    ensures
        ({
            let after = after_live_event(slot, event, recoverable, source_id, accepted);
            after.rank.cursor.last() is Some && after.rank.cursor.last()->0
                >= slot.rank.cursor.last()->0
        }),
{
}

/// The live events that get into the index when a run of them is handled one after the other;
/// `accepted` says of each whether the queue takes it, and a refusal ends the run.
pub open spec fn admitted_events(
    slot: SlotView,
    events: Seq<RouterEvent>,
    recoverable: bool,
    source_id: KvSourceId,
    accepted: spec_fn(RouterEvent) -> bool,
) -> Seq<RouterEvent>
    decreases events.len(),
{
    if events.len() == 0 {
        Seq::empty()
    } else {
        let event = events[0];
        let rest = events.drop_first();
        let taken = accepted(event);
        let after = after_live_event(slot, event, recoverable, source_id, taken);
        if !(slot.on_live_event(event, recoverable).1 is Admit) {
            admitted_events(after, rest, recoverable, source_id, accepted)
        } else if taken {
            seq![event] + admitted_events(after, rest, recoverable, source_id, accepted)
        } else {
            Seq::empty()
        }
    }
}

/// However live events arrive, early, late, twice or out of order, those that get into the index
/// do so in strictly ascending order of their ids, and above the cursor they started from.
pub proof fn law_live_admissions_ascend(
    slot: SlotView,
    events: Seq<RouterEvent>,
    recoverable: bool,
    source_id: KvSourceId,
    accepted: spec_fn(RouterEvent) -> bool,
)
    ensures
        ids_increase(admitted_events(slot, events, recoverable, source_id, accepted)),
        slot.rank.cursor.last() is Some ==> forall|i: int|
            0 <= i < admitted_events(slot, events, recoverable, source_id, accepted).len() ==> (
            #[trigger] admitted_events(
                slot,
                events,
                recoverable,
                source_id,
                accepted,
            )[i]).event_id > slot.rank.cursor.last()->0,
    decreases events.len(),
{
    if events.len() > 0 {
        let event = events[0];
        let rest = events.drop_first();
        let taken = accepted(event);
        let after = after_live_event(slot, event, recoverable, source_id, taken);
        law_live_admissions_ascend(after, rest, recoverable, source_id, accepted);
        let later = admitted_events(after, rest, recoverable, source_id, accepted);
        let all = admitted_events(slot, events, recoverable, source_id, accepted);
        if slot.on_live_event(event, recoverable).1 is Admit {
            if taken {
                assert(after.rank.cursor.last() == Some(event.event_id));
                assert(all =~= seq![event] + later);
                assert forall|i: int, j: int| 0 <= i < j < all.len() implies (
                #[trigger] all[i]).event_id < (#[trigger] all[j]).event_id by {
                    assert(all[j] == later[j - 1]);
                    if i > 0 {
                        assert(all[i] == later[i - 1]);
                    }
                }
                assert forall|i: int|
                    slot.rank.cursor.last() is Some && 0 <= i < all.len() implies (
                #[trigger] all[i]).event_id > slot.rank.cursor.last()->0 by {
                    if i > 0 {
                        assert(all[i] == later[i - 1]);
                    }
                }
            }
        } else {
            assert(after.rank.cursor == slot.rank.cursor);
        }
    }
}

/// A refused admission leaves the cursor where it was and fences the rank.
pub proof fn law_refused_admission_fences(
    slot: SlotView,
    event: RouterEvent,
    recoverable: bool,
    source_id: KvSourceId,
)
    requires
        slot.on_live_event(event, recoverable).1 is Admit,
    ensures
        ({
            let after = after_live_event(slot, event, recoverable, source_id, false);
            &&& after.rank.cursor == slot.rank.cursor
            &&& after.pending_reset == Some(source_id)
            &&& !after.rank.recovery_inflight
            &&& after.rank.pending.len() == 0
        }),
{
}

/// A gap in a recoverable stream is answered by a query for the next expected id. The rank is
/// not reset, nothing is admitted, and the cursor stays.
pub proof fn law_gap_recovers_without_reset(slot: SlotView, event: RouterEvent)
    requires
        !event.clears_everything(),
        !slot.rank.recovery_inflight,
        slot.rank.cursor.last() is Some,
        event.event_id > slot.rank.cursor.last()->0 + 1,
    ensures
        ({
            let (after, step) = slot.on_live_event(event, true);
            &&& step == (LiveStep::Recover {
                start_event_id: Some((slot.rank.cursor.last()->0 + 1) as u64),
                end_event_id: None,
            })
            &&& after.rank.cursor == slot.rank.cursor
            &&& after.pending_reset == slot.pending_reset
            &&& after.rank.recovery_inflight
            &&& after.rank.pending.len() > 0 && after.rank.pending.last() == event
        }),
{
}

/// While a recovery runs, live events other than a full clear are held back, not admitted.
pub proof fn law_recovery_holds_live_events_back(
    slot: SlotView,
    event: RouterEvent,
    recoverable: bool,
)
    requires
        slot.rank.recovery_inflight,
        !event.clears_everything(),
    ensures
        slot.on_live_event(event, recoverable).1 == LiveStep::Ignore,
        slot.on_live_event(event, recoverable).0.rank.cursor == slot.rank.cursor,
{
}

/// The recovery buffer stays within its limit whatever live event comes.
pub proof fn law_recovery_buffer_is_bounded(
    slot: SlotView,
    event: RouterEvent,
    recoverable: bool,
    source_id: KvSourceId,
    accepted: bool,
)
    requires
        slot.rank.bounded(),
    ensures
        after_live_event(slot, event, recoverable, source_id, accepted).rank.bounded(),
{
}

/// No other operation lets the recovery buffer outgrow its limit either.
pub proof fn law_recovery_keeps_buffer_bounded(
    slot: SlotView,
    worker: WorkerWithDpRank,
    result: Result<WorkerKvQueryResponse, RecoveryFailure>,
    step: RecoveryStep,
    planned: SlotView,
    status: KvSourceStatus,
    reset: Option<KvSourceId>,
    reset_ok: bool,
    generation: u64,
    source_id: KvSourceId,
    cursor: Option<u64>,
)
    requires
        slot.rank.bounded(),
        recovery_planned(slot, worker, result, step, planned),
    ensures
        planned.rank.bounded(),
        slot.settled(status, reset, reset_ok, generation).rank.bounded(),
        slot.fenced(source_id).rank.bounded(),
        slot.rank_cleared().rank.bounded(),
        slot.rank.tail_committed(cursor).bounded(),
{
}

/// Recovered events never move the cursor back, and what follows them is above both.
pub proof fn law_recovered_events_keep_cursor_order(
    admission: RecoveryAdmission,
    recovered: Seq<RouterEvent>,
    rank: RankView,
    last_event_id: u64,
)
    requires
        admission_after(
            admission,
            recovered,
            rank,
            spec_max(or_zero(rank.cursor.last()), last_event_id),
        ),
    ensures
        admission.cursor is Some,
        admission.cursor->0 >= or_zero(rank.cursor.last()),
        admission.cursor->0 >= last_event_id,
        forall|i: int|
            0 <= i < admission.tail@.len() ==> {
                &&& (#[trigger] admission.tail@[i]).event_id > or_zero(rank.cursor.last())
                &&& last_event_id < admission.tail@[i].event_id <= admission.cursor->0
            },
{
    let tail = admission.tail@;
    assert forall|i: int| 0 <= i < tail.len() implies (#[trigger] tail[i]).event_id
        <= admission.cursor->0 by {
        if i < tail.len() - 1 {
            assert(tail[i].event_id < tail[tail.len() - 1].event_id);
        }
    }
}

/// A full clear that is new supersedes the recovery of its own rank: what was held back is
/// dropped, and the clear itself goes in.
pub proof fn law_clear_supersedes_recovery(slot: SlotView, event: RouterEvent, recoverable: bool)
    requires
        event.clears_everything(),
        slot.rank.cursor.last() is Some ==> event.event_id > slot.rank.cursor.last()->0,
    ensures
        ({
            let (after, step) = slot.on_live_event(event, recoverable);
            &&& step == (LiveStep::Admit { event, cancel_recovery: true, reset_first: false })
            &&& !after.rank.recovery_inflight
            &&& after.rank.pending.len() == 0
            &&& after.rank.cursor == slot.rank.cursor
        }),
{
}

/// Another source never takes over a rank without a reset for the one before it.
pub proof fn law_replacement_owes_reset(slot: SlotView, status: KvSourceStatus)
    requires
        slot.active is Some,
        !slot.keeps_source(status),
    ensures
        slot.owed_reset() is Some,
        slot.pending_reset is None ==> slot.owed_reset() == Some(slot.active->0.source_id),
        slot.unbound().active is None,
{
}

/// A failed reset stays owed: nothing is bound until a reset for that source succeeds.
pub proof fn law_failed_reset_stays_owed(
    slot: SlotView,
    status: KvSourceStatus,
    reset: KvSourceId,
    generation: u64,
)
    requires
        slot.active is None,
    ensures
        ({
            let after = slot.settled(status, Some(reset), false, generation);
            &&& after.active is None
            &&& after.owed_reset() == Some(reset)
            &&& !after.keeps_source(status)
        }),
{
}

/// A rejected source is not bound again while its identity is the same, and another is.
pub proof fn law_rejected_source_stays_out(
    slot: SlotView,
    source: KvEventSource,
    status: KvSourceStatus,
    reset: Option<KvSourceId>,
    generation: u64,
)
    requires
        slot.active is None,
        slot.rejected_source == Some(source.id()),
        status.active() is Some,
    ensures
        ({
            let after = slot.settled(status, reset, true, generation);
            if status.active()->0.id() == source.id() {
                after.active is None && after.rejected_source == Some(source.id())
            } else {
                after.active == Some(SourceBinding::of(status.active()->0, generation))
                    && after.rejected_source is None
            }
        }),
{
}

proof fn lemma_gap_between(after: u64, through: u64, id: u64)
    ensures
        is_skipped(gap_between(after, through), id) <==> after < id <= through,
{
    if after < id <= through {
        assert(gap_between(after, through)[0].start <= id);
    }
}

proof fn lemma_skipped_join(left: Seq<SkippedIds>, right: Seq<SkippedIds>, id: u64)
    ensures
        is_skipped(left + right, id) <==> is_skipped(left, id) || is_skipped(right, id),
{
    let both = left + right;
    if is_skipped(both, id) {
        let k = choose|k: int|
            0 <= k < both.len() && (#[trigger] both[k]).start <= id <= both[k].end;
        if k < left.len() {
            assert(left[k] == both[k]);
        } else {
            assert(right[k - left.len()] == both[k]);
        }
    }
    if is_skipped(left, id) {
        let k = choose|k: int|
            0 <= k < left.len() && (#[trigger] left[k]).start <= id <= left[k].end;
        assert(both[k] == left[k]);
    }
    if is_skipped(right, id) {
        let k = choose|k: int|
            0 <= k < right.len() && (#[trigger] right[k]).start <= id <= right[k].end;
        assert(both[k + left.len()] == right[k]);
    }
}

proof fn lemma_gaps_before(after: u64, tail: Seq<RouterEvent>, id: u64)
    requires
        ids_increase(tail),
        forall|i: int| 0 <= i < tail.len() ==> (#[trigger] tail[i]).event_id > after,
    ensures
        is_skipped(gaps_before(after, tail), id) <==> after < id <= last_id_or(tail, after)
            && !holds_id(tail, id),
    decreases tail.len(),
{
    if tail.len() > 0 {
        let front = tail.drop_last();
        let last = tail.last().event_id;
        let reached = last_id_or(front, after);
        assert forall|i: int, j: int| 0 <= i < j < front.len() implies (#[trigger] front[i]).event_id
            < (#[trigger] front[j]).event_id by {
            assert(tail[i].event_id < tail[j].event_id);
        }
        lemma_gaps_before(after, front, id);
        lemma_gap_between(reached, (last - 1) as u64, id);
        lemma_skipped_join(
            gaps_before(after, front),
            gap_between(reached, (last - 1) as u64),
            id,
        );
        if front.len() > 0 {
            assert(tail[front.len() - 1].event_id < tail[tail.len() - 1].event_id);
        }
        assert(reached < last);
        assert(holds_id(tail, id) <==> holds_id(front, id) || id == last) by {
            if holds_id(tail, id) {
                let i = choose|i: int| 0 <= i < tail.len() && (#[trigger] tail[i]).event_id == id;
                if i < front.len() {
                    assert(front[i].event_id == id);
                }
            }
            if holds_id(front, id) {
                let i = choose|i: int| 0 <= i < front.len() && (#[trigger] front[i]).event_id == id;
                assert(tail[i].event_id == id);
            }
            if id == last {
                assert(tail[tail.len() - 1].event_id == id);
            }
        }
        assert forall|i: int| 0 <= i < front.len() implies (#[trigger] front[i]).event_id
            <= reached by {
            if i < front.len() - 1 {
                assert(tail[i].event_id < tail[front.len() - 1].event_id);
            }
        }
    }
}

/// Nothing is skipped in silence: of the ids above the recovered prefix, up to the highest id
/// that was seen live, each is either in the tail or reported as skipped, and never both.
pub proof fn law_skipped_ids_are_reported(
    after: u64,
    tail: Seq<RouterEvent>,
    watermark: u64,
    id: u64,
)
    requires
        ids_increase(tail),
        forall|i: int| 0 <= i < tail.len() ==> (#[trigger] tail[i]).event_id > after,
        after < id,
        id <= watermark || id <= last_id_or(tail, after),
    ensures
        is_skipped(skipped_ids(after, tail, watermark), id) <==> !holds_id(tail, id),
{
    lemma_gaps_before(after, tail, id);
    lemma_gap_between(last_id_or(tail, after), watermark, id);
    lemma_skipped_join(
        gaps_before(after, tail),
        gap_between(last_id_or(tail, after), watermark),
        id,
    );
    if holds_id(tail, id) {
        let i = choose|i: int| 0 <= i < tail.len() && (#[trigger] tail[i]).event_id == id;
        if i < tail.len() - 1 {
            assert(tail[i].event_id < tail[tail.len() - 1].event_id);
        }
    }
}

/// An answer that speaks of another rank is never applied: no event goes in, no snapshot
/// replaces the rank, and the cursor stays.
pub proof fn law_foreign_recovery_is_not_applied(
    before: SlotView,
    worker: WorkerWithDpRank,
    events: Vec<RouterEvent>,
    last_event_id: u64,
    step: RecoveryStep,
    after: SlotView,
)
    requires
        !events_match_rank(worker, events@),
        recovery_planned(
            before,
            worker,
            Ok(WorkerKvQueryResponse::Events { events, last_event_id }),
            step,
            after,
        ) || recovery_planned(
            before,
            worker,
            Ok(
                WorkerKvQueryResponse::TreeDump {
                    events,
                    last_event_id,
                    reset_scope: ResetScope::All,
                },
            ),
            step,
            after,
        ),
    ensures
        step == RecoveryStep::Fence,
        after == before,
{
}

/// A snapshot that is not authoritative leaves the cursor and everything held back alone.
pub proof fn law_failed_snapshot_changes_nothing(
    before: SlotView,
    worker: WorkerWithDpRank,
    last_event_id: u64,
    message: String,
    step: RecoveryStep,
    after: SlotView,
)
    requires
        recovery_planned(
            before,
            worker,
            Ok(WorkerKvQueryResponse::TreeDumpFailed { last_event_id, message }),
            step,
            after,
        ) || recovery_planned(before, worker, Err(RecoveryFailure::NonAuthoritative), step, after),
    ensures
        step == RecoveryStep::Retry,
        after.rank.cursor == before.rank.cursor,
        after.rank.pending == before.rank.pending,
        after.active == before.active,
        after.pending_reset == before.pending_reset,
{
}

/// A live event that follows on the cursor goes into the index as it came, with nothing cancelled
/// and nothing reset; once accepted, the cursor stands at it and the binding is as it was.
pub proof fn law_contiguous_event_is_admitted(
    slot: SlotView,
    last: u64,
    event: RouterEvent,
    recoverable: bool,
    source_id: KvSourceId,
)
    requires
        slot.rank.cursor == CursorState::Live(last),
        !slot.rank.recovery_inflight,
        event.residency.reset_scope != Some(ResetScope::All),
        event.event_id == last + 1,
    ensures
        slot.on_live_event(event, recoverable) == (
            slot,
            LiveStep::Admit { event, cancel_recovery: false, reset_first: false },
        ),
        ({
            let after = after_live_event(slot, event, recoverable, source_id, true);
            &&& after.rank.cursor == CursorState::Live(event.event_id)
            &&& !after.rank.recovery_inflight
            &&& after.rank.pending == slot.rank.pending
            &&& after.active == slot.active
            &&& after.pending_reset == slot.pending_reset
            &&& after.rejected_source == slot.rejected_source
        }),
{
}

/// A run of accepted events without a gap goes into the index in full and in order.
pub proof fn law_contiguous_run_is_admitted_in_full(
    slot: SlotView,
    last: u64,
    events: Seq<RouterEvent>,
    recoverable: bool,
    source_id: KvSourceId,
    accepted: spec_fn(RouterEvent) -> bool,
)
    requires
        slot.rank.cursor == CursorState::Live(last),
        !slot.rank.recovery_inflight,
        forall|i: int|
            0 <= i < events.len() ==> (#[trigger] events[i]).event_id == last + 1 + i
                && events[i].residency.reset_scope != Some(ResetScope::All) && accepted(events[i]),
    ensures
        admitted_events(slot, events, recoverable, source_id, accepted) == events,
    decreases events.len(),
{
    if events.len() > 0 {
        let event = events[0];
        let rest = events.drop_first();
        law_contiguous_event_is_admitted(slot, last, event, recoverable, source_id);
        let after = after_live_event(slot, event, recoverable, source_id, true);
        assert forall|i: int| 0 <= i < rest.len() implies (#[trigger] rest[i]).event_id
            == event.event_id + 1 + i && rest[i].residency.reset_scope != Some(ResetScope::All)
            && accepted(rest[i]) by {
            assert(rest[i] == events[i + 1]);
        }
        law_contiguous_run_is_admitted_in_full(
            after,
            event.event_id,
            rest,
            recoverable,
            source_id,
            accepted,
        );
        assert(seq![event] + rest =~= events);
    } else {
        assert(admitted_events(slot, events, recoverable, source_id, accepted) =~= events);
    }
}

/// An event that the cursor covers changes nothing and asks for nothing.
pub proof fn law_covered_event_changes_nothing(
    slot: SlotView,
    last: u64,
    event: RouterEvent,
    recoverable: bool,
)
    requires
        slot.rank.cursor == CursorState::Live(last),
        event.event_id <= last,
    ensures
        slot.on_live_event(event, recoverable) == (slot, LiveStep::Ignore),
{
}

/// A source without recovery begins with the first event that comes, and after a gap starts over
/// from the event, with the rank reset before it.
pub proof fn law_source_without_recovery_goes_on(slot: SlotView, event: RouterEvent)
    requires
        !slot.rank.recovery_inflight,
        event.residency.reset_scope != Some(ResetScope::All),
    ensures
        slot.rank.cursor is Initial ==> slot.on_live_event(event, false) == (
            slot,
            LiveStep::Admit { event, cancel_recovery: false, reset_first: false },
        ),
        slot.rank.cursor matches CursorState::Live(last) ==> event.event_id > last + 1
            ==> slot.on_live_event(event, false) == (
            slot,
            LiveStep::Admit { event, cancel_recovery: true, reset_first: true },
        ),
{
}

/// A recovery is asked for only by a source that has one and runs none: from the first missing id
/// on, or from the start where nothing was admitted. The event waits in the buffer meanwhile.
pub proof fn law_recovery_starts_at_the_first_missing_id(slot: SlotView, event: RouterEvent)
    requires
        !slot.rank.recovery_inflight,
        event.residency.reset_scope != Some(ResetScope::All),
        slot.rank.cursor matches CursorState::Live(last) ==> event.event_id > last + 1,
    ensures
        ({
            let (after, step) = slot.on_live_event(event, true);
            &&& step is Recover
            &&& step->end_event_id is None
            &&& slot.rank.cursor is Initial ==> step->start_event_id is None
            &&& slot.rank.cursor matches CursorState::Live(last) ==> step->start_event_id is Some
                && step->start_event_id->0 == last + 1
            &&& after.rank.recovery_inflight
            &&& after.rank.cursor == slot.rank.cursor
            &&& after.rank.pending.len() > 0
            &&& after.rank.pending.last() == event
            &&& after.active == slot.active
            &&& after.pending_reset == slot.pending_reset
            &&& after.rejected_source == slot.rejected_source
        }),
{
}

/// No live event touches the binding, the fence or the rejection of its slot before the outcome of
/// its admission is known, and what is handed out is the event that came.
pub proof fn law_live_event_leaves_the_binding(
    slot: SlotView,
    event: RouterEvent,
    recoverable: bool,
)
    ensures
        ({
            let (after, step) = slot.on_live_event(event, recoverable);
            &&& after.active == slot.active
            &&& after.pending_reset == slot.pending_reset
            &&& after.rejected_source == slot.rejected_source
            &&& after.rank.cursor == slot.rank.cursor
            &&& step is Admit ==> step->event == event
            &&& step is Admit && step->reset_first ==> step->cancel_recovery && !recoverable
        }),
{
}

/// A fence names the source whose reset is owed, forgets the recovery, and keeps the cursor, the
/// binding and the rejection.
pub proof fn law_fence_keeps_the_cursor(slot: SlotView, source_id: KvSourceId)
    ensures
        slot.fenced(source_id).pending_reset == Some(source_id),
        slot.fenced(source_id).active == slot.active,
        slot.fenced(source_id).rejected_source == slot.rejected_source,
        slot.fenced(source_id).rank.cursor == slot.rank.cursor,
        !slot.fenced(source_id).rank.recovery_inflight,
        slot.fenced(source_id).rank.pending.len() == 0,
        slot.fenced(source_id).rank.max_seen is None,
{
}

/// A reset that is already owed comes first; else one is owed for the active source, if there is
/// one. Unbinding takes both out of the slot and leaves the rank and the rejection alone.
pub proof fn law_unbinding_hands_over_what_is_owed(slot: SlotView)
    ensures
        slot.pending_reset is Some ==> slot.owed_reset() == slot.pending_reset,
        slot.pending_reset is None && slot.active is Some ==> slot.owed_reset() == Some(
            slot.active->0.source_id,
        ),
        slot.pending_reset is None && slot.active is None ==> slot.owed_reset() is None,
        slot.unbound().active is None,
        slot.unbound().pending_reset is None,
        slot.unbound().rank == slot.rank,
        slot.unbound().rejected_source == slot.rejected_source,
        slot.deactivated().active is None,
        slot.deactivated().pending_reset == slot.pending_reset,
        slot.deactivated().rank == slot.rank,
        slot.deactivated().rejected_source == slot.rejected_source,
        slot.rank_cleared().rank.cursor is Initial,
        !slot.rank_cleared().rank.recovery_inflight,
        slot.rank_cleared().rank.pending.len() == 0,
        slot.rank_cleared().active == slot.active,
        slot.rank_cleared().pending_reset == slot.pending_reset,
        slot.rank_cleared().rejected_source == slot.rejected_source,
{
}

/// A slot goes on with its source exactly where the very same source is selected again, with all
/// of its identity, and no reset is owed.
pub proof fn law_same_source_is_kept(slot: SlotView, status: KvSourceStatus)
    ensures
        slot.keeps_source(status) <==> {
            let selected = match status {
                KvSourceStatus::ActiveRecoverable(source) => Some(source),
                KvSourceStatus::ActiveLiveOnly(source) => Some(source),
                _ => None,
            };
            &&& slot.pending_reset is None
            &&& slot.active is Some
            &&& selected is Some
            &&& slot.active->0.source_id.kv_state_endpoint == selected->0.kv_state_endpoint
            &&& slot.active->0.source_id.worker == selected->0.worker
            &&& slot.active->0.source_id.publisher_id == selected->0.publisher_id
        },
{
}

/// A binding is made of the selected source under its own identity and the given generation, on a
/// rank that starts anew and recovers where the source can; the rejection of another is forgotten.
pub proof fn law_selected_source_is_bound(
    slot: SlotView,
    source: KvEventSource,
    recoverable: bool,
    reset: Option<KvSourceId>,
    reset_ok: bool,
    generation: u64,
)
    requires
        reset is Some ==> reset_ok,
        slot.rejected_source matches Some(rejected) ==> rejected.kv_state_endpoint
            != source.kv_state_endpoint || rejected.worker != source.worker
            || rejected.publisher_id != source.publisher_id,
    ensures
        ({
            let status = if recoverable {
                KvSourceStatus::ActiveRecoverable(source)
            } else {
                KvSourceStatus::ActiveLiveOnly(source)
            };
            let after = slot.settled(status, reset, reset_ok, generation);
            &&& slot.settles_on_source(status, reset, reset_ok)
            &&& after.active is Some
            &&& after.active->0.source == source
            &&& after.active->0.generation == generation
            &&& after.active->0.source_id.kv_state_endpoint == source.kv_state_endpoint
            &&& after.active->0.source_id.worker == source.worker
            &&& after.active->0.source_id.publisher_id == source.publisher_id
            &&& after.rank.cursor is Initial
            &&& after.rank.recovery_inflight == (source.recovery_target is Some)
            &&& after.rank.pending.len() == 0
            &&& after.rejected_source is None
            &&& after.pending_reset == slot.pending_reset
            &&& after.active == Some(SourceBinding::of(source, generation))
        }),
{
}

/// Nothing is bound where no source is active, where the reset that was owed failed, or where the
/// selected source is the rejected one; only the failed reset is owed again.
pub proof fn law_nothing_is_bound_without_a_source(
    slot: SlotView,
    status: KvSourceStatus,
    reset: Option<KvSourceId>,
    generation: u64,
)
    requires
        slot.active is None,
    ensures
        status is Missing || status is Ambiguous || status is Suppressed ==> {
            let after = slot.settled(status, reset, true, generation);
            &&& !slot.settles_on_source(status, reset, true)
            &&& after.active is None
            &&& after.pending_reset == slot.pending_reset
            &&& after.rejected_source == slot.rejected_source
            &&& after.rank.cursor is Initial
            &&& !after.rank.recovery_inflight
        },
        reset is Some ==> {
            let after = slot.settled(status, reset, false, generation);
            &&& !slot.settles_on_source(status, reset, false)
            &&& after.active is None
            &&& after.pending_reset == reset
            &&& after.rejected_source == slot.rejected_source
            &&& after.rank.cursor == slot.rank.cursor
        },
{
}

/// What goes in after a recovery by events of its own rank: those events, then every event that
/// was held back above both the cursor and the answer, each id once and in order. The cursor is to
/// go to the last of them, and stays until the whole group is in.
pub proof fn law_recovered_events_go_in_before_the_tail(
    before: SlotView,
    worker: WorkerWithDpRank,
    events: Vec<RouterEvent>,
    last_event_id: u64,
    step: RecoveryStep,
    after: SlotView,
    id: u64,
)
    requires
        forall|i: int|
            0 <= i < events@.len() ==> (#[trigger] events@[i]).worker_id == worker.worker_id
                && events@[i].dp_rank == worker.dp_rank,
        recovery_planned(
            before,
            worker,
            Ok(WorkerKvQueryResponse::Events { events, last_event_id }),
            step,
            after,
        ),
    ensures
        ({
            let admitted = match before.rank.cursor {
                CursorState::Live(last) => last,
                CursorState::Initial => 0,
            };
            let through = if admitted > last_event_id {
                admitted
            } else {
                last_event_id
            };
            let tail = step->Admit_0.tail@;
            &&& step is Admit
            &&& step->Admit_0.recovered@ == events@
            &&& (exists|i: int| 0 <= i < tail.len() && (#[trigger] tail[i]).event_id == id) <==> id
                > through && (exists|j: int|
                0 <= j < before.rank.pending.len() && (
                #[trigger] before.rank.pending[j]).event_id == id)
            &&& forall|i: int|
                0 <= i < tail.len() ==> before.rank.pending.contains(#[trigger] tail[i])
            &&& forall|i: int, j: int|
                0 <= i < j < tail.len() ==> (#[trigger] tail[i]).event_id < (
                #[trigger] tail[j]).event_id
            &&& step->Admit_0.cursor == Some(
                if tail.len() > 0 {
                    tail[tail.len() - 1].event_id
                } else {
                    through
                },
            )
            &&& after.rank.cursor == before.rank.cursor
            &&& after.rank.pending.len() == 0
            &&& after.rank.recovery_inflight == before.rank.recovery_inflight
            &&& after.rank.max_seen == before.rank.max_seen
            &&& after.active == before.active
            &&& after.pending_reset == before.pending_reset
            &&& after.rejected_source == before.rejected_source
        }),
{
    assert(events_match_rank(worker, events@));
    law_suffix_is_complete(
        step->Admit_0.tail@,
        before.rank.pending,
        spec_max(or_zero(before.rank.cursor.last()), last_event_id),
        id,
    );
}

/// A snapshot of the whole rank takes its place as it came, and the slot waits for the outcome;
/// one of a part of it, or a failed one, is asked for again and changes nothing but that.
pub proof fn law_whole_snapshot_replaces_the_rank(
    before: SlotView,
    worker: WorkerWithDpRank,
    events: Vec<RouterEvent>,
    last_event_id: u64,
    reset_scope: ResetScope,
    step: RecoveryStep,
    after: SlotView,
)
    requires
        recovery_planned(
            before,
            worker,
            Ok(WorkerKvQueryResponse::TreeDump { events, last_event_id, reset_scope }),
            step,
            after,
        ),
    ensures
        reset_scope != ResetScope::All ==> {
            &&& step == RecoveryStep::Retry
            &&& !after.rank.recovery_inflight
            &&& after.rank.pending == before.rank.pending
            &&& after.rank.cursor == before.rank.cursor
            &&& after.active == before.active
            &&& after.pending_reset == before.pending_reset
        },
        reset_scope == ResetScope::All && (forall|i: int|
            0 <= i < events@.len() ==> (#[trigger] events@[i]).worker_id == worker.worker_id
                && events@[i].dp_rank == worker.dp_rank) ==> step == (RecoveryStep::Replace {
            events,
            last_event_id,
        }) && after == before,
        reset_scope == ResetScope::All && (exists|i: int|
            0 <= i < events@.len() && ((#[trigger] events@[i]).worker_id != worker.worker_id
                || events@[i].dp_rank != worker.dp_rank)) ==> step == RecoveryStep::Fence && after
            == before,
{
    if forall|i: int|
        0 <= i < events@.len() ==> (#[trigger] events@[i]).worker_id == worker.worker_id
            && events@[i].dp_rank == worker.dp_rank {
        assert(events_match_rank(worker, events@));
    }
    if exists|i: int|
        0 <= i < events@.len() && ((#[trigger] events@[i]).worker_id != worker.worker_id
            || events@[i].dp_rank != worker.dp_rank) {
        let i = choose|i: int|
            0 <= i < events@.len() && ((#[trigger] events@[i]).worker_id != worker.worker_id
                || events@[i].dp_rank != worker.dp_rank);
        assert(events@[i].rank() != worker);
    }
}

/// An answer that speaks of another rank in any one of its events fences this one.
pub proof fn law_one_foreign_event_fences(
    before: SlotView,
    worker: WorkerWithDpRank,
    events: Vec<RouterEvent>,
    last_event_id: u64,
    step: RecoveryStep,
    after: SlotView,
    i: int,
)
    requires
        0 <= i < events@.len(),
        events@[i].worker_id != worker.worker_id || events@[i].dp_rank != worker.dp_rank,
        recovery_planned(
            before,
            worker,
            Ok(WorkerKvQueryResponse::Events { events, last_event_id }),
            step,
            after,
        ),
    ensures
        step == RecoveryStep::Fence,
        after == before,
{
    assert(events@[i].rank() != worker);
}

/// Where recovery gave nothing, the events that were held back above the cursor go in, each id
/// once and in order, and the cursor goes to the last of them or stays.
pub proof fn law_failed_recovery_admits_what_was_held_back(
    before: SlotView,
    worker: WorkerWithDpRank,
    result: Result<WorkerKvQueryResponse, RecoveryFailure>,
    step: RecoveryStep,
    after: SlotView,
    id: u64,
)
    requires
        result matches Ok(response) ==> response is Error || response is NoState,
        result matches Err(failure) ==> failure is Failed,
        recovery_planned(before, worker, result, step, after),
    ensures
        ({
            let admitted = match before.rank.cursor {
                CursorState::Live(last) => last,
                CursorState::Initial => 0,
            };
            let tail = step->Admit_0.tail@;
            &&& step is Admit
            &&& step->Admit_0.recovered@.len() == 0
            &&& step->Admit_0.skipped@.len() == 0
            &&& (exists|i: int| 0 <= i < tail.len() && (#[trigger] tail[i]).event_id == id) <==> id
                > admitted && (exists|j: int|
                0 <= j < before.rank.pending.len() && (
                #[trigger] before.rank.pending[j]).event_id == id)
            &&& forall|i: int|
                0 <= i < tail.len() ==> before.rank.pending.contains(#[trigger] tail[i])
            &&& forall|i: int, j: int|
                0 <= i < j < tail.len() ==> (#[trigger] tail[i]).event_id < (
                #[trigger] tail[j]).event_id
            &&& tail.len() > 0 ==> step->Admit_0.cursor == Some(tail[tail.len() - 1].event_id)
            &&& tail.len() == 0 ==> step->Admit_0.cursor is None
            &&& after.rank.cursor == before.rank.cursor
            &&& after.rank.pending.len() == 0
            &&& after.active == before.active
            &&& after.pending_reset == before.pending_reset
        }),
{
    law_suffix_is_complete(
        step->Admit_0.tail@,
        before.rank.pending,
        or_zero(before.rank.cursor.last()),
        id,
    );
}

/// After a snapshot taken at an id, everything that was held back above it goes in, and nothing at
/// or below it; of the ids between it and the highest one that was seen, those without an event
/// are reported.
pub proof fn law_snapshot_is_followed_by_the_tail(
    admission: RecoveryAdmission,
    recovered: Seq<RouterEvent>,
    rank: RankView,
    through: u64,
    id: u64,
)
    requires
        admission_after(admission, recovered, rank, through),
    ensures
        ({
            let tail = admission.tail@;
            let in_tail = exists|i: int| 0 <= i < tail.len() && (#[trigger] tail[i]).event_id == id;
            let reported = exists|k: int|
                0 <= k < admission.skipped@.len() && (#[trigger] admission.skipped@[k]).start <= id
                    <= admission.skipped@[k].end;
            &&& admission.recovered@ == recovered
            &&& in_tail <==> id > through && (exists|j: int|
                0 <= j < rank.pending.len() && (#[trigger] rank.pending[j]).event_id == id)
            &&& admission.cursor == Some(
                if tail.len() > 0 {
                    tail[tail.len() - 1].event_id
                } else {
                    through
                },
            )
            &&& id > through && (id <= admission.cursor->0 || (rank.max_seen is Some && id
                <= rank.max_seen->0)) ==> (reported <==> !in_tail)
            &&& reported ==> id > through && (id <= admission.cursor->0 || (rank.max_seen is Some
                && id <= rank.max_seen->0))
        }),
{
    let tail = admission.tail@;
    let watermark = match rank.max_seen {
        Some(seen) => spec_max(seen, through),
        None => through,
    };
    law_suffix_is_complete(tail, rank.pending, through, id);
    lemma_gaps_before(through, tail, id);
    lemma_gap_between(last_id_or(tail, through), watermark, id);
    lemma_skipped_join(
        gaps_before(through, tail),
        gap_between(last_id_or(tail, through), watermark),
        id,
    );
    assert(is_skipped(admission.skipped@, id) <==> exists|k: int|
        0 <= k < admission.skipped@.len() && (#[trigger] admission.skipped@[k]).start <= id
            <= admission.skipped@[k].end);
    assert(holds_id(tail, id) <==> exists|i: int|
        0 <= i < tail.len() && (#[trigger] tail[i]).event_id == id);
    if id > through && id <= watermark || id <= last_id_or(tail, through) && id > through {
        law_skipped_ids_are_reported(through, tail, watermark, id);
    }
    if tail.len() > 0 {
        assert(tail[tail.len() - 1].event_id > through);
    }
}

/// A slot that was never bound owes nothing and rejects nobody.
pub proof fn law_new_slot_is_free()
    ensures
        SlotView::empty().active is None,
        SlotView::empty().pending_reset is None,
        SlotView::empty().rejected_source is None,
        SlotView::empty().rank.cursor is Initial,
        !SlotView::empty().rank.recovery_inflight,
        SlotView::empty().rank.pending.len() == 0,
{
}

/// A live event that is no full clear and whose id is the very next one is admitted as it is,
/// whatever it holds, with no reset and no recovery given up for it; once accepted, the cursor
/// stands at it.
pub proof fn law_next_live_event_is_admitted(
    slot: &mut SourceSlot,
    event: RouterEvent,
    recoverable: bool,
    step: LiveStep,
    accepting: &mut SourceSlot,
    source_id: KvSourceId,
    last: u64,
)
    requires
        call_ensures(SourceSlot::begin_live_event, (slot, event, recoverable), step),
        old(slot)@.rank.cursor == CursorState::Live(last),
        !old(slot)@.rank.recovery_inflight,
        event.residency.reset_scope != Some(ResetScope::All),
        event.event_id == last + 1,
        *old(accepting) == *final(slot),
        call_ensures(
            SourceSlot::finish_live_event,
            (accepting, source_id, event.event_id, true),
            (),
        ),
    ensures
        step == (LiveStep::Admit { event, cancel_recovery: false, reset_first: false }),
        final(slot)@ == old(slot)@,
        final(accepting)@.rank.cursor == CursorState::Live(event.event_id),
        !final(accepting)@.rank.recovery_inflight,
        final(accepting)@.active == old(slot)@.active,
        final(accepting)@.pending_reset == old(slot)@.pending_reset,
        final(accepting)@.rejected_source == old(slot)@.rejected_source,
{
}

/// A live event that is refused fences its source: a reset is owed to it, any recovery is over,
/// and the cursor stays.
pub proof fn law_refused_live_event_owes_a_reset(
    slot: &mut SourceSlot,
    source_id: KvSourceId,
    event_id: u64,
)
    requires
        call_ensures(SourceSlot::finish_live_event, (slot, source_id, event_id, false), ()),
    ensures
        final(slot)@.pending_reset == Some(source_id),
        !final(slot)@.rank.recovery_inflight,
        final(slot)@.rank.pending.len() == 0,
        final(slot)@.rank.cursor == old(slot)@.rank.cursor,
        final(slot)@.active == old(slot)@.active,
{
}

/// A slot keeps the very source that is selected again, as long as no reset is owed; otherwise it
/// lets its source go and hands over the reset that is owed: the pending one, or that of the source
/// that leaves.
pub proof fn law_slot_keeps_only_the_same_source(
    slot: &mut SourceSlot,
    status: &KvSourceStatus,
    step: ReconcileStep,
    source: KvEventSource,
)
    requires
        call_ensures(SourceSlot::begin_reconcile, (slot, status), step),
    ensures
        (*status == KvSourceStatus::ActiveRecoverable(source) || *status
            == KvSourceStatus::ActiveLiveOnly(source)) ==> (step is Unchanged
            <==> old(slot)@.active is Some && old(slot)@.pending_reset is None
            && old(slot)@.active->0.source_id.kv_state_endpoint == source.kv_state_endpoint
            && old(slot)@.active->0.source_id.worker == source.worker
            && old(slot)@.active->0.source_id.publisher_id == source.publisher_id),
        *status is Missing || *status is Ambiguous || *status is Suppressed ==> step is Proceed,
        step is Unchanged ==> final(slot)@ == old(slot)@,
        step is Proceed ==> {
            &&& step->retired == old(slot)@.active
            &&& old(slot)@.pending_reset is Some ==> step->reset == old(slot)@.pending_reset
            &&& old(slot)@.pending_reset is None && old(slot)@.active is Some ==> step->reset
                == Some(old(slot)@.active->0.source_id)
            &&& old(slot)@.pending_reset is None && old(slot)@.active is None ==> step->reset
                is None
            &&& final(slot)@.active is None && final(slot)@.pending_reset is None
            &&& final(slot)@.rank == old(slot)@.rank
        },
{
}

/// A source that broke the protocol is kept out, whether or not its reset went through; a reset
/// that failed stays owed, and the rank is clear either way.
pub proof fn law_rejected_slot_starts_clear(
    slot: &mut SourceSlot,
    source_id: KvSourceId,
    reset_ok: bool,
    unbound: &mut SourceSlot,
)
    requires
        call_ensures(SourceSlot::finish_reject, (slot, source_id, reset_ok), ()),
        call_ensures(SourceSlot::finish_unbound_reset, (unbound, source_id, reset_ok), ()),
    ensures
        final(slot)@.rejected_source == Some(source_id),
        final(slot)@.rank.cursor is Initial && final(slot)@.rank.pending.len() == 0,
        !reset_ok ==> final(slot)@.pending_reset == Some(source_id),
        reset_ok ==> final(slot)@.pending_reset == old(slot)@.pending_reset,
        final(unbound)@.rejected_source == old(unbound)@.rejected_source,
        final(unbound)@.rank.cursor is Initial && final(unbound)@.rank.pending.len() == 0,
        !reset_ok ==> final(unbound)@.pending_reset == Some(source_id),
        reset_ok ==> final(unbound)@.pending_reset == old(unbound)@.pending_reset,
{
}

/// A selected source is bound under its generation where no reset stands against it and it is not
/// the one kept out; it starts with a clear rank, in recovery exactly if it can be recovered. With
/// a failed reset, or without a source, nothing is bound, and the failed reset stays owed.
pub proof fn law_settled_slot_is_bound_or_free(
    slot: &mut SourceSlot,
    status: &KvSourceStatus,
    reset: Option<KvSourceId>,
    reset_ok: bool,
    generation: u64,
    bound: Option<SourceBinding>,
    source: KvEventSource,
)
    requires
        call_ensures(
            SourceSlot::finish_reconcile,
            (slot, status, reset, reset_ok, generation),
            bound,
        ),
    ensures
        final(slot)@.active is Some && old(slot)@.active is None ==> final(slot)@.active == bound,
        reset is Some && !reset_ok ==> bound is None && final(slot)@.pending_reset == reset,
        *status is Missing || *status is Ambiguous || *status is Suppressed ==> bound is None,
        bound is Some ==> {
            &&& final(slot)@.active == bound
            &&& bound->0.generation == generation
            &&& final(slot)@.rank.cursor is Initial
            &&& final(slot)@.rank.pending.len() == 0
            &&& final(slot)@.rank.recovery_inflight == (bound->0.source.recovery_target is Some)
        },
        bound is Some && (*status == KvSourceStatus::ActiveRecoverable(source) || *status
            == KvSourceStatus::ActiveLiveOnly(source)) ==> bound->0.source == source,
{
}

/// To unbind a slot hands over its source and the reset that is owed, and leaves it free; to
/// deactivate it leaves the reset owed.
pub proof fn law_unbound_slot_is_free(
    slot: &mut SourceSlot,
    taken: (Option<SourceBinding>, Option<KvSourceId>),
    idle: &mut SourceSlot,
    retired: Option<SourceBinding>,
)
    requires
        call_ensures(SourceSlot::unbind, (slot,), taken),
        call_ensures(SourceSlot::deactivate, (idle,), retired),
    ensures
        taken.0 == old(slot)@.active,
        old(slot)@.pending_reset is Some ==> taken.1 == old(slot)@.pending_reset,
        old(slot)@.pending_reset is None && old(slot)@.active is Some ==> taken.1 == Some(
            old(slot)@.active->0.source_id,
        ),
        final(slot)@.active is None && final(slot)@.pending_reset is None,
        final(slot)@.rank == old(slot)@.rank,
        retired == old(idle)@.active,
        final(idle)@.active is None,
        final(idle)@.pending_reset == old(idle)@.pending_reset,
        final(idle)@.rank == old(idle)@.rank,
{
}

/// A binding can be recovered exactly if its source has a recovery target, and recovered events
/// belong to a rank exactly if each of them names it.
pub proof fn law_recovery_is_for_one_rank(
    binding: &SourceBinding,
    recoverable: bool,
    worker: WorkerWithDpRank,
    events: &Vec<RouterEvent>,
    ok: bool,
    i: int,
)
    requires
        call_ensures(SourceBinding::is_recoverable, (binding,), recoverable),
        call_ensures(recovery_events_match_source, (worker, events), ok),
    ensures
        recoverable <==> binding.source.recovery_target is Some,
        ok && 0 <= i < events@.len() ==> events@[i].worker_id == worker.worker_id
            && events@[i].dp_rank == worker.dp_rank,
        (forall|j: int|
            0 <= j < events@.len() ==> (#[trigger] events@[j]).worker_id == worker.worker_id
                && events@[j].dp_rank == worker.dp_rank) ==> ok,
{
    if ok && 0 <= i < events@.len() {
        assert(events@[i].rank() == worker);
    }
}

/// Fencing a slot leaves what is bound and what is rejected, ends its recovery, and owes a reset for
/// the very source that it was fenced for.
pub proof fn law_fence_owes_a_reset(slot: &mut SourceSlot, source_id: KvSourceId)
    requires
        call_ensures(SourceSlot::fence_for_reset, (slot, source_id), ()),
    ensures
        final(slot).pending_reset == Some(source_id),
        final(slot).active == old(slot).active,
        final(slot).rejected_source == old(slot).rejected_source,
        !final(slot).rank.recovery_inflight,
        final(slot).rank.pending_live_events@.len() == 0,
        final(slot).rank.cursor == old(slot).rank.cursor,
{
    assert(final(slot)@.pending_reset == Some(source_id));
}

} // verus!
