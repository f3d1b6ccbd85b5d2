//! Admission cursor and recovery buffer of one rank.
//!
//! The cursor is the last event handed to the index queue of the rank. It moves only after
//! the whole group of events that it covers was accepted.
use std::collections::VecDeque;
use vstd::prelude::*;

use crate::indexer::recovery::cursor::{CursorObservation, CursorState};
use crate::protocols::{max_u64, or_zero, spec_max, ResetScope, RouterEvent};

verus! {

/// Number of live events that a recovering rank holds back; older arrivals make room.
pub const RECOVERY_PENDING_LIVE_EVENT_LIMIT: usize = 1024;

/// What to do with a live event.
#[derive(Debug, PartialEq, Eq)]
pub enum LiveEventAction {
    Ignore,
    Apply { event_id: u64, event: RouterEvent },
    Clear { event_id: u64, event: RouterEvent },
    Recover { start_event_id: Option<u64>, end_event_id: Option<u64> },
    ResetDegraded { event: RouterEvent },
}

#[derive(Debug)]
pub struct RankState {
    pub cursor: CursorState,
    pub recovery_inflight: bool,
    pub pending_live_events: VecDeque<RouterEvent>,
    pub max_seen_live_id: Option<u64>,
}

/// What a [`RankState`] holds.
pub struct RankView {
    pub cursor: CursorState,
    pub recovery_inflight: bool,
    pub pending: Seq<RouterEvent>,
    pub max_seen: Option<u64>,
}

impl View for RankState {
    type V = RankView;

    open spec fn view(&self) -> RankView {
        RankView {
            cursor: self.cursor,
            recovery_inflight: self.recovery_inflight,
            pending: self.pending_live_events@,
            max_seen: self.max_seen_live_id,
        }
    }
}

/// The last `limit` elements, in order.
pub open spec fn newest<T>(events: Seq<T>, limit: nat) -> Seq<T> {
    if events.len() > limit {
        events.subrange(events.len() - limit, events.len() as int)
    } else {
        events
    }
}

pub open spec fn ids_increase(events: Seq<RouterEvent>) -> bool {
    forall|i: int, j: int|
        0 <= i < j < events.len() ==> (#[trigger] events[i]).event_id < (
        #[trigger] events[j]).event_id
}

pub open spec fn holds_id(events: Seq<RouterEvent>, id: u64) -> bool {
    exists|i: int| 0 <= i < events.len() && (#[trigger] events[i]).event_id == id
}

/// `suffix` is the part of `buffered` above `after`: strictly ascending ids, every buffered id
/// above `after` once, and nothing that was not buffered.
///
/// Of several buffered events with one id any one may stand.
pub open spec fn is_ordered_suffix(
    suffix: Seq<RouterEvent>,
    buffered: Seq<RouterEvent>,
    after: u64,
) -> bool {
    &&& ids_increase(suffix)
    &&& forall|i: int|
        0 <= i < suffix.len() ==> (#[trigger] suffix[i]).event_id > after && buffered.contains(
            suffix[i],
        )
    &&& forall|j: int|
        0 <= j < buffered.len() && (#[trigger] buffered[j]).event_id > after ==> holds_id(
            suffix,
            buffered[j].event_id,
        )
}

impl RankView {
    pub open spec fn fresh(recoverable: bool) -> RankView {
        RankView {
            cursor: CursorState::Initial,
            recovery_inflight: recoverable,
            pending: Seq::empty(),
            max_seen: None,
        }
    }

    /// The buffer never outgrows its limit.
    pub open spec fn bounded(self) -> bool {
        self.pending.len() <= RECOVERY_PENDING_LIVE_EVENT_LIMIT
    }

    pub open spec fn buffer(self, event: RouterEvent) -> RankView {
        RankView {
            pending: newest(
                self.pending.push(event),
                RECOVERY_PENDING_LIVE_EVENT_LIMIT as nat,
            ),
            max_seen: Some(spec_max(or_zero(self.max_seen), event.event_id)),
            ..self
        }
    }

    pub open spec fn recovering(self) -> RankView {
        RankView { recovery_inflight: true, ..self }
    }

    pub open spec fn committed(self, event_id: u64) -> RankView {
        RankView {
            cursor: CursorState::Live(event_id),
            max_seen: match self.max_seen {
                Some(seen) => if seen <= event_id {
                    None
                } else {
                    Some(seen)
                },
                None => None,
            },
            ..self
        }
    }

    pub open spec fn recovery_dropped(self) -> RankView {
        RankView { recovery_inflight: false, pending: Seq::empty(), max_seen: None, ..self }
    }

    pub open spec fn snapshot_failed(self) -> RankView {
        RankView { recovery_inflight: false, ..self }
    }

    /// The cursor at `last` when there is one, and no recovery.
    pub open spec fn tail_committed(self, last: Option<u64>) -> RankView {
        RankView {
            cursor: match last {
                Some(id) => CursorState::Live(id),
                None => self.cursor,
            },
            recovery_inflight: false,
            max_seen: None,
            ..self
        }
    }

    /// The step taken on a live event: the state after it, and what is to be done.
    pub open spec fn on_live_event(self, event: RouterEvent, recoverable: bool) -> (
        RankView,
        LiveEventAction,
    ) {
        let id = event.event_id;
        if event.clears_everything() {
            if self.cursor.last() is Some && id <= self.cursor.last()->0 {
                (self, LiveEventAction::Ignore)
            } else {
                (self, LiveEventAction::Clear { event_id: id, event })
            }
        } else {
            match self.cursor.observation(id) {
                CursorObservation::Stale { .. } => (self, LiveEventAction::Ignore),
                CursorObservation::Initial { .. } => if self.recovery_inflight {
                    (self.buffer(event), LiveEventAction::Ignore)
                } else if recoverable {
                    (
                        self.buffer(event).recovering(),
                        LiveEventAction::Recover { start_event_id: None, end_event_id: None },
                    )
                } else {
                    (self, LiveEventAction::Apply { event_id: id, event })
                },
                CursorObservation::Contiguous { .. } => if self.recovery_inflight {
                    (self.buffer(event), LiveEventAction::Ignore)
                } else {
                    (self, LiveEventAction::Apply { event_id: id, event })
                },
                CursorObservation::Gap { expected, .. } => if self.recovery_inflight {
                    (self.buffer(event), LiveEventAction::Ignore)
                } else if recoverable {
                    (
                        self.buffer(event).recovering(),
                        LiveEventAction::Recover {
                            start_event_id: Some(expected),
                            end_event_id: None,
                        },
                    )
                } else {
                    (self, LiveEventAction::ResetDegraded { event })
                },
            }
        }
    }
}

impl Default for RankState {
    fn default() -> (state: Self)
        ensures
            state@ == RankView::fresh(false),
    {
        RankState {
            cursor: CursorState::Initial,
            recovery_inflight: false,
            pending_live_events: VecDeque::new(),
            max_seen_live_id: None,
        }
    }
}

impl RankState {
    pub fn activate(&mut self, recoverable: bool)
        ensures
            final(self)@ == RankView::fresh(recoverable),
    {
        self.cursor = CursorState::Initial;
        self.recovery_inflight = recoverable;
        self.pending_live_events = VecDeque::new();
        self.max_seen_live_id = None;
    }

    pub fn last_admitted_id(&self) -> (last: Option<u64>)
        ensures
            last == self@.cursor.last(),
    {
        self.cursor.last_applied_id()
    }

    pub fn pending_live_event_count(&self) -> (count: usize)
        ensures
            count == self@.pending.len(),
    {
        self.pending_live_events.len()
    }

    pub fn pending_live_watermark(&self) -> (watermark: Option<u64>)
        ensures
            watermark == self@.max_seen,
    {
        self.max_seen_live_id
    }

    pub fn observe_live_event(&mut self, event: RouterEvent, recoverable: bool) -> (action:
        LiveEventAction)
        ensures
            (final(self)@, action) == old(self)@.on_live_event(event, recoverable),
    {
        let event_id: u64 = event.event_id;
        let clears: bool = match event.residency.reset_scope {
            Some(ResetScope::All) => true,
            _ => false,
        };
        if clears {
            if let Some(last) = self.last_admitted_id() {
                if event_id <= last {
                    return LiveEventAction::Ignore;
                }
            }
            return LiveEventAction::Clear { event_id, event };
        }
        match self.cursor.observe(event_id) {
            CursorObservation::Stale { .. } => LiveEventAction::Ignore,
            CursorObservation::Initial { .. } => {
                if self.recovery_inflight {
                    self.observe_and_buffer(event);
                    LiveEventAction::Ignore
                } else if recoverable {
                    self.observe_and_buffer(event);
                    self.recovery_inflight = true;
                    LiveEventAction::Recover { start_event_id: None, end_event_id: None }
                } else {
                    LiveEventAction::Apply { event_id, event }
                }
            },
            CursorObservation::Contiguous { .. } => {
                if self.recovery_inflight {
                    self.observe_and_buffer(event);
                    LiveEventAction::Ignore
                } else {
                    LiveEventAction::Apply { event_id, event }
                }
            },
            CursorObservation::Gap { expected, .. } => {
                if self.recovery_inflight {
                    self.observe_and_buffer(event);
                    LiveEventAction::Ignore
                } else if recoverable {
                    // A gap asks for the next expected id and leaves index and cursor alone:
                    // only the answering worker knows whether its history still reaches back.
                    self.observe_and_buffer(event);
                    self.recovery_inflight = true;
                    LiveEventAction::Recover { start_event_id: Some(expected), end_event_id: None }
                } else {
                    LiveEventAction::ResetDegraded { event }
                }
            },
        }
    }

    pub fn commit_live_admission(&mut self, event_id: u64)
        ensures
            final(self)@ == old(self)@.committed(event_id),
    {
        self.cursor = self.cursor.advance_to(event_id);
        if let Some(seen) = self.max_seen_live_id {
            if seen <= event_id {
                self.max_seen_live_id = None;
            }
        }
    }

    pub fn discard_recovery_before_clear(&mut self)
        ensures
            final(self)@ == old(self)@.recovery_dropped(),
    {
        self.recovery_inflight = false;
        self.pending_live_events.clear();
        self.max_seen_live_id = None;
    }

    pub fn finish_failed_recovery(&mut self)
        ensures
            final(self)@ == old(self)@.recovery_dropped(),
    {
        self.recovery_inflight = false;
        self.pending_live_events.clear();
        self.max_seen_live_id = None;
    }

    /// Give up on a snapshot that was not authoritative. Buffer and cursor stay as they are,
    /// and the next live event decides.
    pub fn retry_after_failed_snapshot(&mut self)
        ensures
            final(self)@ == old(self)@.snapshot_failed(),
    {
        self.recovery_inflight = false;
    }

    /// Hold back a live event behind a snapshot that is being fetched.
    pub fn buffer_recovery_tail(&mut self, event: RouterEvent)
        ensures
            final(self)@ == old(self)@.recovering().buffer(event),
    {
        self.recovery_inflight = true;
        self.observe_and_buffer(event);
    }

    /// Take the buffered suffix above a recovered prefix. Missing ids do not hold it up.
    pub fn drain_advisory_tail_after(&mut self, recovered_through: u64) -> (events: Vec<
        RouterEvent,
    >)
        ensures
            is_ordered_suffix(events@, old(self)@.pending, recovered_through),
            final(self)@ == RankView::fresh(false).tail_committed(
                Some(
                    if events@.len() > 0 {
                        events@.last().event_id
                    } else {
                        recovered_through
                    },
                ),
            ),
    {
        self.cursor = CursorState::Initial.advance_to(recovered_through);
        let events = self.take_failed_recovery_degraded();
        let last_event_id: Option<u64> = if events.len() > 0 {
            Some(events[events.len() - 1].event_id)
        } else {
            None
        };
        self.commit_failed_recovery_degraded(last_event_id);
        proof {
            assert(self@.pending =~= Seq::empty());
        }
        events
    }

    /// Empty the buffer, in id order, without what the cursor already covers.
    pub fn take_failed_recovery_degraded(&mut self) -> (events: Vec<RouterEvent>)
        ensures
            is_ordered_suffix(events@, old(self)@.pending, or_zero(old(self)@.cursor.last())),
            final(self)@ == (RankView { pending: Seq::empty(), ..old(self)@ }),
    {
        let after: u64 = match self.last_admitted_id() {
            Some(last) => last,
            None => 0,
        };
        self.take_pending_above(after)
    }

    /// Empty the buffer: what is above `after` comes out in id order, the rest is dropped.
    pub fn take_pending_above(&mut self, after: u64) -> (events: Vec<RouterEvent>)
        ensures
            is_ordered_suffix(events@, old(self)@.pending, after),
            final(self)@ == (RankView { pending: Seq::empty(), ..old(self)@ }),
    {
        let ghost buffered = self.pending_live_events@;
        let mut events: Vec<RouterEvent> = Vec::new();
        let ghost mut taken: int = 0;
        while self.pending_live_events.len() > 0
            invariant
                0 <= taken <= buffered.len(),
                self.pending_live_events@ == buffered.subrange(taken, buffered.len() as int),
                is_ordered_suffix(events@, buffered.subrange(0, taken), after),
                self.cursor == old(self).cursor,
                self.recovery_inflight == old(self).recovery_inflight,
                self.max_seen_live_id == old(self).max_seen_live_id,
            decreases self.pending_live_events.len(),
        {
            if let Some(event) = self.pending_live_events.pop_front() {
                proof {
                    assert(event == buffered[taken]);
                    assert(buffered.subrange(0, taken + 1) =~= buffered.subrange(0, taken).push(
                        event,
                    ));
                    assert(self.pending_live_events@ =~= buffered.subrange(
                        taken + 1,
                        buffered.len() as int,
                    ));
                }
                insert_in_order(&mut events, event, after, Ghost(buffered.subrange(0, taken)));
                proof {
                    taken = taken + 1;
                }
            }
        }
        proof {
            assert(buffered.subrange(0, taken) =~= buffered);
            assert(self.pending_live_events@ =~= Seq::empty());
        }
        events
    }

    pub fn commit_failed_recovery_degraded(&mut self, last_event_id: Option<u64>)
        ensures
            final(self)@ == old(self)@.tail_committed(last_event_id),
    {
        if let Some(last) = last_event_id {
            self.cursor = self.cursor.advance_to(last);
        }
        self.recovery_inflight = false;
        self.max_seen_live_id = None;
    }

    fn observe_and_buffer(&mut self, event: RouterEvent)
        ensures
            final(self)@ == old(self)@.buffer(event),
    {
        let seen: u64 = match self.max_seen_live_id {
            Some(seen) => seen,
            None => 0,
        };
        self.max_seen_live_id = Some(max_u64(seen, event.event_id));
        let ghost all = self.pending_live_events@.push(event);
        self.pending_live_events.push_back(event);
        let ghost mut dropped: int = 0;
        proof {
            assert(self.pending_live_events@ =~= all.subrange(0, all.len() as int));
        }
        while self.pending_live_events.len() > RECOVERY_PENDING_LIVE_EVENT_LIMIT
            invariant
                0 <= dropped <= all.len(),
                dropped == 0 || all.len() - dropped >= RECOVERY_PENDING_LIVE_EVENT_LIMIT,
                self.pending_live_events@ == all.subrange(dropped, all.len() as int),
                self.cursor == old(self).cursor,
                self.recovery_inflight == old(self).recovery_inflight,
                self.max_seen_live_id == Some(
                    spec_max(or_zero(old(self).max_seen_live_id), event.event_id),
                ),
            decreases self.pending_live_events.len(),
        {
            let _ = self.pending_live_events.pop_front();
            proof {
                assert(self.pending_live_events@ =~= all.subrange(
                    dropped + 1,
                    all.len() as int,
                ));
                dropped = dropped + 1;
            }
        }
        proof {
            assert(self.pending_live_events@ =~= newest(
                all,
                RECOVERY_PENDING_LIVE_EVENT_LIMIT as nat,
            ));
        }
    }
}

/// Put `event` into its place, unless it is not above `after` or its id is there already.
fn insert_in_order(
    events: &mut Vec<RouterEvent>,
    event: RouterEvent,
    after: u64,
    Ghost(buffered): Ghost<Seq<RouterEvent>>,
)
    requires
        is_ordered_suffix(old(events)@, buffered, after),
    ensures
        is_ordered_suffix(final(events)@, buffered.push(event), after),
{
    let ghost before = events@;
    let ghost all = buffered.push(event);
    proof {
        assert forall|i: int| 0 <= i < before.len() implies all.contains(#[trigger] before[i]) by {
            let k = choose|k: int| 0 <= k < buffered.len() && buffered[k] == before[i];
            assert(all[k] == before[i]);
        }
        assert(all[buffered.len() as int] == event);
        assert forall|j: int| 0 <= j < buffered.len() implies all[j] == #[trigger] buffered[j] by {}
    }
    if event.event_id <= after {
        return;
    }
    let mut at: usize = events.len();
    while at > 0 && events[at - 1].event_id > event.event_id
        invariant
            at <= events.len(),
            events@ == before,
            ids_increase(before),
            forall|i: int| at <= i < before.len() ==> (#[trigger] before[i]).event_id > event.event_id,
        decreases at,
    {
        at = at - 1;
    }
    if at > 0 && events[at - 1].event_id == event.event_id {
        proof {
            assert(before[at - 1].event_id == event.event_id);
            assert(holds_id(before, event.event_id));
        }
        return;
    }
    proof {
        assert forall|i: int| 0 <= i < at implies (#[trigger] before[i]).event_id
            < event.event_id by {
            if i < at - 1 {
                assert(before[i].event_id < before[at - 1].event_id);
            }
        }
    }
    events.insert(at, event);
    proof {
        let now = events@;
        assert(now =~= before.insert(at as int, event));
        assert(now[at as int] == event);
        assert forall|j: int| 0 <= j < all.len() && (#[trigger] all[j]).event_id
            > after implies holds_id(now, all[j].event_id) by {
            if j < buffered.len() {
                assert(holds_id(before, buffered[j].event_id));
                let i = choose|i: int|
                    0 <= i < before.len() && before[i].event_id == buffered[j].event_id;
                if i < at {
                    assert(now[i] == before[i]);
                } else {
                    assert(now[i + 1] == before[i]);
                }
            }
        }
    }
}

/// A live event that follows on the cursor is applied, whatever it says: the same event is handed
/// out, nothing is held back, and once it is admitted the cursor stands at it.
pub proof fn law_contiguous_event_is_applied(
    rank: RankView,
    last: u64,
    event: RouterEvent,
    recoverable: bool,
)
    requires
        rank.cursor == CursorState::Live(last),
        !rank.recovery_inflight,
        event.residency.reset_scope != Some(ResetScope::All),
        event.event_id == last + 1,
    ensures
        rank.on_live_event(event, recoverable).1 == (LiveEventAction::Apply {
            event_id: event.event_id,
            event,
        }),
        rank.on_live_event(event, recoverable).0 == rank,
        rank.on_live_event(event, recoverable).0.committed(event.event_id).cursor
            == CursorState::Live(event.event_id),
{
}

/// An event that the cursor covers is ignored and leaves no trace, be it a clear or not.
pub proof fn law_covered_event_is_ignored(
    rank: RankView,
    last: u64,
    event: RouterEvent,
    recoverable: bool,
)
    requires
        rank.cursor == CursorState::Live(last),
        event.event_id <= last,
    ensures
        rank.on_live_event(event, recoverable) == (rank, LiveEventAction::Ignore),
{
}

/// Before anything was admitted, a source without recovery starts with whatever comes first; one
/// with recovery asks for everything and holds the event back.
pub proof fn law_first_event_starts_the_rank(rank: RankView, event: RouterEvent)
    requires
        rank.cursor == CursorState::Initial,
        !rank.recovery_inflight,
        event.residency.reset_scope != Some(ResetScope::All),
    ensures
        rank.on_live_event(event, false) == (
            rank,
            LiveEventAction::Apply { event_id: event.event_id, event },
        ),
        ({
            let (after, action) = rank.on_live_event(event, true);
            &&& action == (LiveEventAction::Recover { start_event_id: None, end_event_id: None })
            &&& after.recovery_inflight
            &&& after.cursor == CursorState::Initial
            &&& after.pending.len() > 0
            &&& after.pending.last() == event
        }),
{
}

/// An event beyond the next id asks a source with recovery for what lies between, from the next id
/// on, and is held back; a source without recovery starts over from the event.
pub proof fn law_gap_is_recovered_or_reset(rank: RankView, last: u64, event: RouterEvent)
    requires
        rank.cursor == CursorState::Live(last),
        !rank.recovery_inflight,
        event.residency.reset_scope != Some(ResetScope::All),
        event.event_id > last + 1,
    ensures
        rank.on_live_event(event, false) == (rank, LiveEventAction::ResetDegraded { event }),
        ({
            let (after, action) = rank.on_live_event(event, true);
            &&& action is Recover
            &&& action->start_event_id is Some
            &&& action->start_event_id->0 == last + 1
            &&& action->end_event_id is None
            &&& after.recovery_inflight
            &&& after.cursor == rank.cursor
            &&& after.pending.len() > 0
            &&& after.pending.last() == event
        }),
{
}

/// While a recovery runs, every new event that is no full clear is held back as the newest one,
/// and what was held back before it keeps its order; only the oldest make room.
pub proof fn law_recovering_rank_holds_back(rank: RankView, event: RouterEvent, recoverable: bool)
    requires
        rank.recovery_inflight,
        rank.cursor matches CursorState::Live(last) ==> event.event_id > last,
        event.residency.reset_scope != Some(ResetScope::All),
    ensures
        ({
            let (after, action) = rank.on_live_event(event, recoverable);
            let kept = rank.pending.len() < 1024;
            &&& action == LiveEventAction::Ignore
            &&& after.recovery_inflight
            &&& after.cursor == rank.cursor
            &&& after.pending.len() == if kept {
                rank.pending.len() + 1
            } else {
                1024
            }
            &&& after.pending.last() == event
            &&& forall|i: int|
                1 <= i < after.pending.len() ==> #[trigger] after.pending[after.pending.len() - 1
                    - i] == rank.pending[rank.pending.len() - i]
        }),
{
}

/// A full clear above the cursor is handed out as a clear, recovery or not, and changes nothing
/// before it is admitted.
pub proof fn law_new_clear_is_handed_out(rank: RankView, event: RouterEvent, recoverable: bool)
    requires
        rank.cursor matches CursorState::Live(last) ==> event.event_id > last,
        event.residency.reset_scope == Some(ResetScope::All),
    ensures
        rank.on_live_event(event, recoverable) == (
            rank,
            LiveEventAction::Clear { event_id: event.event_id, event },
        ),
{
}

/// Every event that comes is either covered by the cursor, handed out as it came, or held back:
/// none is lost, and none is handed out as another.
pub proof fn law_no_live_event_is_lost(rank: RankView, event: RouterEvent, recoverable: bool)
    ensures
        ({
            let (after, action) = rank.on_live_event(event, recoverable);
            let held = after.pending.len() > 0 && after.pending.last() == event;
            match action {
                LiveEventAction::Apply { event_id, event: out } => out == event && event_id
                    == event.event_id && after == rank,
                LiveEventAction::Clear { event_id, event: out } => out == event && event_id
                    == event.event_id && after == rank,
                LiveEventAction::ResetDegraded { event: out } => out == event && after == rank,
                LiveEventAction::Recover { .. } => held && after.recovery_inflight
                    && !rank.recovery_inflight && recoverable,
                LiveEventAction::Ignore => {
                    ||| rank.cursor matches CursorState::Live(last) && event.event_id <= last
                        && after == rank
                    ||| rank.recovery_inflight && held
                },
            }
        }),
{
}

/// Holding an event back keeps the cursor, and the watermark of what was seen never falls below
/// it or below what it was.
pub proof fn law_buffer_keeps_the_watermark(rank: RankView, event: RouterEvent)
    ensures
        ({
            let after = rank.buffer(event);
            &&& after.cursor == rank.cursor
            &&& after.recovery_inflight == rank.recovery_inflight
            &&& after.max_seen is Some
            &&& after.max_seen->0 >= event.event_id
            &&& rank.max_seen is Some ==> after.max_seen->0 >= rank.max_seen->0
            &&& after.max_seen->0 == event.event_id || after.max_seen == rank.max_seen
            &&& after.pending.len() > 0
            &&& after.pending.last() == event
            &&& after.pending.len() <= 1024
            &&& rank.pending.len() < 1024 ==> after.pending == rank.pending.push(event)
        }),
{
}

/// An admission moves the cursor to the admitted id and touches nothing else, but for a watermark
/// that it has reached.
pub proof fn law_admission_moves_the_cursor(rank: RankView, event_id: u64)
    ensures
        rank.committed(event_id).cursor == CursorState::Live(event_id),
        rank.committed(event_id).recovery_inflight == rank.recovery_inflight,
        rank.committed(event_id).pending == rank.pending,
        rank.max_seen is Some && rank.max_seen->0 > event_id ==> rank.committed(event_id).max_seen
            == rank.max_seen,
        rank.max_seen is None || rank.max_seen->0 <= event_id ==> rank.committed(
            event_id,
        ).max_seen is None,
{
}

/// The ends of a recovery differ in what they keep: giving it up forgets what was held back, a
/// failed snapshot keeps it, and a finished group moves the cursor where it says so.
pub proof fn law_ends_of_a_recovery(rank: RankView, last: Option<u64>)
    ensures
        !rank.recovery_dropped().recovery_inflight,
        rank.recovery_dropped().pending.len() == 0,
        rank.recovery_dropped().max_seen is None,
        rank.recovery_dropped().cursor == rank.cursor,
        !rank.snapshot_failed().recovery_inflight,
        rank.snapshot_failed().pending == rank.pending,
        rank.snapshot_failed().max_seen == rank.max_seen,
        rank.snapshot_failed().cursor == rank.cursor,
        rank.recovering().recovery_inflight,
        rank.recovering().pending == rank.pending,
        rank.recovering().max_seen == rank.max_seen,
        rank.recovering().cursor == rank.cursor,
        !rank.tail_committed(last).recovery_inflight,
        rank.tail_committed(last).max_seen is None,
        rank.tail_committed(last).pending == rank.pending,
        last is Some ==> rank.tail_committed(last).cursor == CursorState::Live(last->0),
        last is None ==> rank.tail_committed(last).cursor == rank.cursor,
{
}

/// A new activation knows nothing of the one before it, and recovers at once where it can.
pub proof fn law_activation_starts_anew(recoverable: bool)
    ensures
        RankView::fresh(recoverable).cursor == CursorState::Initial,
        RankView::fresh(recoverable).recovery_inflight == recoverable,
        RankView::fresh(recoverable).pending.len() == 0,
        RankView::fresh(recoverable).max_seen is None,
{
}

/// What is taken of a buffer above an id: each buffered id above it once and in ascending order,
/// no id at or below it, and no event that was not buffered.
pub proof fn law_suffix_is_complete(
    suffix: Seq<RouterEvent>,
    buffered: Seq<RouterEvent>,
    after: u64,
    id: u64,
)
    requires
        is_ordered_suffix(suffix, buffered, after),
    ensures
        (exists|i: int| 0 <= i < suffix.len() && (#[trigger] suffix[i]).event_id == id) <==> id
            > after && (exists|j: int|
            0 <= j < buffered.len() && (#[trigger] buffered[j]).event_id == id),
        forall|i: int, j: int|
            0 <= i < j < suffix.len() ==> (#[trigger] suffix[i]).event_id < (
            #[trigger] suffix[j]).event_id,
        forall|i: int| 0 <= i < suffix.len() ==> buffered.contains(#[trigger] suffix[i]),
{
    if exists|i: int| 0 <= i < suffix.len() && (#[trigger] suffix[i]).event_id == id {
        let i = choose|i: int| 0 <= i < suffix.len() && (#[trigger] suffix[i]).event_id == id;
        assert(buffered.contains(suffix[i]));
        let j = choose|j: int| 0 <= j < buffered.len() && buffered[j] == suffix[i];
        assert(buffered[j].event_id == id);
    }
    if id > after && (exists|j: int|
        0 <= j < buffered.len() && (#[trigger] buffered[j]).event_id == id) {
        let j = choose|j: int| 0 <= j < buffered.len() && (#[trigger] buffered[j]).event_id == id;
        assert(holds_id(suffix, buffered[j].event_id));
    }
}

/// A live event that is no full clear and whose id is the very next one is applied, whatever it
/// holds, while no recovery runs; the rank stays as it is until the admission is committed.
pub proof fn law_next_live_event_is_applied(
    rank: &mut RankState,
    event: RouterEvent,
    recoverable: bool,
    action: LiveEventAction,
    last: u64,
)
    requires
        call_ensures(RankState::observe_live_event, (rank, event, recoverable), action),
        old(rank)@.cursor == CursorState::Live(last),
        !old(rank)@.recovery_inflight,
        event.residency.reset_scope != Some(ResetScope::All),
        event.event_id == last + 1,
    ensures
        action == (LiveEventAction::Apply { event_id: event.event_id, event }),
        final(rank)@ == old(rank)@,
{
}

/// What a rank does with a live event that is no full clear depends on its id alone: at or below
/// the cursor it is ignored, above it it is held back while a recovery runs, and where ids are
/// missing a recoverable rank starts one from the first missing id and any other is reset.
pub proof fn law_live_event_is_judged_by_its_id(
    rank: &mut RankState,
    event: RouterEvent,
    recoverable: bool,
    action: LiveEventAction,
    last: u64,
)
    requires
        call_ensures(RankState::observe_live_event, (rank, event, recoverable), action),
        old(rank)@.cursor == CursorState::Live(last),
        event.residency.reset_scope != Some(ResetScope::All),
    ensures
        event.event_id <= last ==> action is Ignore && final(rank)@ == old(rank)@,
        event.event_id > last && old(rank)@.recovery_inflight ==> action is Ignore
            && final(rank)@.pending.len() > 0 && final(rank)@.pending.last() == event
            && final(rank)@.recovery_inflight && final(rank)@.cursor == old(rank)@.cursor,
        event.event_id > last + 1 && !old(rank)@.recovery_inflight && recoverable ==> action
            is Recover && action->start_event_id is Some && action->start_event_id->0 == last + 1
            && action->end_event_id is None && final(rank)@.recovery_inflight
            && final(rank)@.pending.len() > 0 && final(rank)@.pending.last() == event,
        event.event_id > last + 1 && !old(rank)@.recovery_inflight && !recoverable ==> action == (
        LiveEventAction::ResetDegraded { event }) && final(rank)@ == old(rank)@,
{
}

/// A full clear above the cursor is handed out, whatever else is going on; one at or below it is
/// ignored.
pub proof fn law_full_clear_is_handed_out(
    rank: &mut RankState,
    event: RouterEvent,
    recoverable: bool,
    action: LiveEventAction,
)
    requires
        call_ensures(RankState::observe_live_event, (rank, event, recoverable), action),
        event.residency.reset_scope == Some(ResetScope::All),
    ensures
        final(rank)@ == old(rank)@,
        old(rank)@.cursor is Initial ==> action == (LiveEventAction::Clear {
            event_id: event.event_id,
            event,
        }),
        old(rank)@.cursor is Live && event.event_id > old(rank)@.cursor->Live_0 ==> action == (
        LiveEventAction::Clear { event_id: event.event_id, event }),
        old(rank)@.cursor is Live && event.event_id <= old(rank)@.cursor->Live_0 ==> action
            is Ignore,
{
}

/// The first event of a rank is applied where nothing can be recovered; otherwise it is held back
/// behind a recovery of everything.
pub proof fn law_first_live_event_asks_for_everything(
    rank: &mut RankState,
    event: RouterEvent,
    recoverable: bool,
    action: LiveEventAction,
)
    requires
        call_ensures(RankState::observe_live_event, (rank, event, recoverable), action),
        event.residency.reset_scope != Some(ResetScope::All),
        old(rank)@.cursor is Initial,
        !old(rank)@.recovery_inflight,
    ensures
        !recoverable ==> action == (LiveEventAction::Apply { event_id: event.event_id, event })
            && final(rank)@ == old(rank)@,
        recoverable ==> action == (LiveEventAction::Recover {
            start_event_id: None,
            end_event_id: None,
        }) && final(rank)@.recovery_inflight && final(rank)@.pending.len() > 0
            && final(rank)@.pending.last() == event,
{
}

/// A committed admission moves the cursor to the event and leaves what is held back; ending a
/// recovery, for whatever reason, leaves the cursor, and drops what is held back unless the
/// snapshot alone failed.
pub proof fn law_cursor_moves_with_admissions_alone(
    admitted: &mut RankState,
    event_id: u64,
    discarded: &mut RankState,
    failed: &mut RankState,
    retried: &mut RankState,
    committed: &mut RankState,
    last_event_id: Option<u64>,
    activated: &mut RankState,
    recoverable: bool,
)
    requires
        call_ensures(RankState::commit_live_admission, (admitted, event_id), ()),
        call_ensures(RankState::discard_recovery_before_clear, (discarded,), ()),
        call_ensures(RankState::finish_failed_recovery, (failed,), ()),
        call_ensures(RankState::retry_after_failed_snapshot, (retried,), ()),
        call_ensures(
            RankState::commit_failed_recovery_degraded,
            (committed, last_event_id),
            (),
        ),
        call_ensures(RankState::activate, (activated, recoverable), ()),
    ensures
        final(admitted)@.cursor == CursorState::Live(event_id),
        final(admitted)@.pending == old(admitted)@.pending,
        final(admitted)@.recovery_inflight == old(admitted)@.recovery_inflight,
        final(discarded)@.cursor == old(discarded)@.cursor,
        !final(discarded)@.recovery_inflight && final(discarded)@.max_seen is None,
        final(discarded)@.pending.len() == 0,
        final(failed)@.cursor == old(failed)@.cursor && !final(failed)@.recovery_inflight
            && final(failed)@.pending.len() == 0 && final(failed)@.max_seen is None,
        final(retried)@.cursor == old(retried)@.cursor && !final(retried)@.recovery_inflight
            && final(retried)@.pending == old(retried)@.pending && final(retried)@.max_seen
            == old(retried)@.max_seen,
        last_event_id is Some ==> final(committed)@.cursor == CursorState::Live(last_event_id->0),
        last_event_id is None ==> final(committed)@.cursor == old(committed)@.cursor,
        !final(committed)@.recovery_inflight && final(committed)@.max_seen is None,
        final(activated)@.cursor is Initial && final(activated)@.pending.len() == 0
            && final(activated)@.max_seen is None,
        final(activated)@.recovery_inflight == recoverable,
{
}

/// An event that is held back starts a recovery where none runs, and is the newest of what is held
/// back; the watermark is the highest id seen.
pub proof fn law_held_back_event_is_the_newest(rank: &mut RankState, event: RouterEvent)
    requires
        call_ensures(RankState::buffer_recovery_tail, (rank, event), ()),
    ensures
        final(rank)@.recovery_inflight,
        final(rank)@.cursor == old(rank)@.cursor,
        final(rank)@.pending.len() > 0,
        final(rank)@.pending.last() == event,
        final(rank)@.pending.len() <= 1024,
        old(rank)@.pending.len() < 1024 ==> final(rank)@.pending == old(rank)@.pending.push(event),
        final(rank)@.max_seen is Some,
        final(rank)@.max_seen->0 >= event.event_id,
        old(rank)@.max_seen is Some ==> final(rank)@.max_seen->0 >= old(rank)@.max_seen->0,
        final(rank)@.max_seen->0 == event.event_id || final(rank)@.max_seen == old(rank)@.max_seen,
{
}

/// What is taken out of the buffer is everything in it above a given id, each id once, in ascending
/// order, and the buffer is empty after it. Behind a recovered prefix the cursor then stands at the
/// last event taken, or at the end of the prefix.
pub proof fn law_buffer_is_taken_in_order(
    rank: &mut RankState,
    after: u64,
    events: Vec<RouterEvent>,
    degraded: &mut RankState,
    suffix: Vec<RouterEvent>,
    drained: &mut RankState,
    through: u64,
    tail: Vec<RouterEvent>,
    id: u64,
)
    requires
        call_ensures(RankState::take_pending_above, (rank, after), events),
        call_ensures(RankState::take_failed_recovery_degraded, (degraded,), suffix),
        call_ensures(RankState::drain_advisory_tail_after, (drained, through), tail),
    ensures
        final(rank)@.pending.len() == 0 && final(rank)@.cursor == old(rank)@.cursor,
        (exists|i: int| 0 <= i < events@.len() && (#[trigger] events@[i]).event_id == id) <==> id
            > after && (exists|j: int|
            0 <= j < old(rank)@.pending.len() && (#[trigger] old(rank)@.pending[j]).event_id == id),
        forall|i: int, j: int|
            0 <= i < j < events@.len() ==> (#[trigger] events@[i]).event_id < (
            #[trigger] events@[j]).event_id,
        final(degraded)@.pending.len() == 0 && final(degraded)@.cursor == old(degraded)@.cursor,
        (exists|i: int| 0 <= i < suffix@.len() && (#[trigger] suffix@[i]).event_id == id) <==> id
            > (match old(degraded)@.cursor {
            CursorState::Live(last) => last,
            CursorState::Initial => 0,
        }) && (exists|j: int|
            0 <= j < old(degraded)@.pending.len() && (
            #[trigger] old(degraded)@.pending[j]).event_id == id),
        final(drained)@.pending.len() == 0 && !final(drained)@.recovery_inflight,
        (exists|i: int| 0 <= i < tail@.len() && (#[trigger] tail@[i]).event_id == id) <==> id
            > through && (exists|j: int|
            0 <= j < old(drained)@.pending.len() && (
            #[trigger] old(drained)@.pending[j]).event_id == id),
        tail@.len() > 0 ==> final(drained)@.cursor == CursorState::Live(tail@.last().event_id),
        tail@.len() == 0 ==> final(drained)@.cursor == CursorState::Live(through),
{
    law_suffix_is_complete(events@, old(rank)@.pending, after, id);
    law_suffix_is_complete(
        suffix@,
        old(degraded)@.pending,
        or_zero(old(degraded)@.cursor.last()),
        id,
    );
    law_suffix_is_complete(tail@, old(drained)@.pending, through, id);
}

/// What is told of the events held back is their number, and the highest id seen among them.
pub proof fn law_held_back_events_are_counted(rank: &RankState, count: usize, watermark: Option<u64>)
    requires
        call_ensures(RankState::pending_live_event_count, (rank,), count),
        call_ensures(RankState::pending_live_watermark, (rank,), watermark),
    ensures
        count == rank.pending_live_events@.len(),
        watermark == rank.max_seen_live_id,
{
}

} // verus!
