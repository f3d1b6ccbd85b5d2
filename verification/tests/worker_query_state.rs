use kv_router::indexer::recovery::cursor::{CursorObservation, CursorState};
use kv_router::indexer::recovery::rank_state::{
    LiveEventAction, RankState, RECOVERY_PENDING_LIVE_EVENT_LIMIT,
};
use kv_router::protocols::{
    EventResidency, KvCacheEventData, ResetScope, ResidencyDomain, RouterEvent, StorageTier,
    StoredBlock,
};

fn store(event_id: u64) -> RouterEvent {
    RouterEvent {
        worker_id: 1,
        dp_rank: 0,
        event_id,
        data: KvCacheEventData::Stored {
            parent_hash: None,
            start_position: None,
            blocks: vec![StoredBlock {
                block_hash: event_id,
                tokens_hash: event_id,
                mm_extra_info: None,
            }],
        },
        storage_tier: StorageTier::Device,
        residency: EventResidency {
            domain: Some(ResidencyDomain::Worker),
            reset_scope: None,
            targets_primary: Some(true),
        },
        state_source: None,
        details: 0,
    }
}

fn ids(events: &[RouterEvent]) -> Vec<u64> {
    events.iter().map(|event| event.event_id).collect()
}

#[test]
fn live_only_source_accepts_first_event_without_recovery() {
    let mut state = RankState::default();
    let action = state.observe_live_event(store(9), false);
    assert!(matches!(action, LiveEventAction::Apply { event_id: 9, .. }));
    assert_eq!(state.last_admitted_id(), None);
    state.commit_live_admission(9);
    assert_eq!(state.last_admitted_id(), Some(9));
}

#[test]
fn recoverable_source_buffers_until_restore() {
    let mut state = RankState::default();
    assert!(matches!(
        state.observe_live_event(store(9), true),
        LiveEventAction::Recover {
            start_event_id: None,
            end_event_id: None,
        }
    ));
    assert!(state.recovery_inflight);
}

#[test]
fn gap_recovery_buffers_and_drains_live_events_in_event_id_order() {
    let mut state = RankState::default();
    assert!(matches!(
        state.observe_live_event(store(1), false),
        LiveEventAction::Apply { event_id: 1, .. }
    ));
    state.commit_live_admission(1);

    assert!(matches!(
        state.observe_live_event(store(4), true),
        LiveEventAction::Recover {
            start_event_id: Some(2),
            end_event_id: None,
        }
    ));
    assert!(matches!(
        state.observe_live_event(store(3), true),
        LiveEventAction::Ignore
    ));
    assert_eq!(state.last_admitted_id(), Some(1));

    let tail = state.drain_advisory_tail_after(2);
    assert_eq!(ids(&tail), vec![3, 4]);
    assert_eq!(state.last_admitted_id(), Some(4));
    assert!(!state.recovery_inflight);
}

#[test]
fn advisory_recovery_tail_applies_snapshot_before_ordered_suffix() {
    let mut state = RankState::default();
    state.buffer_recovery_tail(store(5));
    state.buffer_recovery_tail(store(3));
    state.buffer_recovery_tail(store(4));
    state.buffer_recovery_tail(store(4));

    let tail = state.drain_advisory_tail_after(3);
    assert_eq!(ids(&tail), vec![4, 5]);
    assert_eq!(state.last_admitted_id(), Some(5));
    assert!(!state.recovery_inflight);
}

#[test]
fn only_all_domain_clear_supersedes_same_rank_gap_recovery() {
    let mut state = RankState::default();
    assert!(matches!(
        state.observe_live_event(store(1), false),
        LiveEventAction::Apply { event_id: 1, .. }
    ));
    state.commit_live_admission(1);
    assert!(matches!(
        state.observe_live_event(store(4), true),
        LiveEventAction::Recover {
            start_event_id: Some(2),
            ..
        }
    ));

    let mut worker_clear = store(5);
    worker_clear.data = KvCacheEventData::Cleared;
    worker_clear.residency.reset_scope = Some(ResetScope::Domain(ResidencyDomain::Worker));
    assert!(matches!(
        state.observe_live_event(worker_clear, true),
        LiveEventAction::Ignore
    ));

    let mut clear = store(6);
    clear.data = KvCacheEventData::Cleared;
    clear.residency.reset_scope = Some(ResetScope::All);
    assert!(matches!(
        state.observe_live_event(clear, true),
        LiveEventAction::Clear { event_id: 6, .. }
    ));
    state.discard_recovery_before_clear();
    state.commit_live_admission(6);

    assert!(!state.recovery_inflight);
    assert!(matches!(
        state.observe_live_event(store(7), true),
        LiveEventAction::Apply { event_id: 7, .. }
    ));
}

#[test]
fn buffer_keeps_the_newest_arrivals_and_remembers_the_highest_id() {
    let mut state = RankState::default();
    state.buffer_recovery_tail(store(9000));
    for id in 0..RECOVERY_PENDING_LIVE_EVENT_LIMIT as u64 {
        state.buffer_recovery_tail(store(id + 1));
    }
    assert_eq!(state.pending_live_event_count(), RECOVERY_PENDING_LIVE_EVENT_LIMIT);
    assert_eq!(state.pending_live_watermark(), Some(9000));
    let tail = state.drain_advisory_tail_after(0);
    assert_eq!(ids(&tail), (1..=1024).collect::<Vec<u64>>());
    assert_eq!(state.pending_live_watermark(), None);
    assert_eq!(state.pending_live_event_count(), 0);
}

#[test]
fn live_only_gap_resets_and_old_events_are_ignored() {
    let mut state = RankState::default();
    state.commit_live_admission(5);
    assert!(matches!(
        state.observe_live_event(store(7), false),
        LiveEventAction::ResetDegraded { .. }
    ));
    assert!(matches!(
        state.observe_live_event(store(5), false),
        LiveEventAction::Ignore
    ));
    let mut old_clear = store(5);
    old_clear.data = KvCacheEventData::Cleared;
    old_clear.residency.reset_scope = Some(ResetScope::All);
    assert!(matches!(
        state.observe_live_event(old_clear, false),
        LiveEventAction::Ignore
    ));
}

#[test]
fn failed_recovery_hands_out_what_the_cursor_does_not_cover() {
    let mut state = RankState::default();
    state.commit_live_admission(3);
    for id in [6, 2, 5, 3, 6] {
        state.buffer_recovery_tail(store(id));
    }
    let events = state.take_failed_recovery_degraded();
    assert_eq!(ids(&events), vec![5, 6]);
    assert_eq!(state.last_admitted_id(), Some(3));
    state.commit_failed_recovery_degraded(Some(6));
    assert_eq!(state.last_admitted_id(), Some(6));
    assert!(!state.recovery_inflight);

    state.buffer_recovery_tail(store(9));
    state.retry_after_failed_snapshot();
    assert!(!state.recovery_inflight);
    assert_eq!(state.pending_live_event_count(), 1);
    state.finish_failed_recovery();
    assert_eq!(state.pending_live_event_count(), 0);
    assert_eq!(state.last_admitted_id(), Some(6));
    state.activate(true);
    assert_eq!(state.last_admitted_id(), None);
    assert!(state.recovery_inflight);
}

#[test]
fn commit_forgets_a_watermark_that_it_reaches() {
    let mut state = RankState::default();
    state.buffer_recovery_tail(store(8));
    state.commit_live_admission(7);
    assert_eq!(state.pending_live_watermark(), Some(8));
    state.commit_live_admission(8);
    assert_eq!(state.pending_live_watermark(), None);
}

#[test]
fn cursor_tells_stale_contiguous_and_gap_apart() {
    assert_eq!(CursorState::Initial.observe(4), CursorObservation::Initial { got: 4 });
    let cursor = CursorState::Initial.advance_to(10);
    assert_eq!(cursor, CursorState::Live(10));
    assert_eq!(
        cursor.observe(10),
        CursorObservation::Stale { last_applied: 10, got: 10 }
    );
    assert_eq!(cursor.observe(11), CursorObservation::Contiguous { got: 11 });
    assert_eq!(cursor.observe(13), CursorObservation::Gap { expected: 11, got: 13 });
    let last = CursorState::Live(u64::MAX);
    assert_eq!(
        last.observe(u64::MAX),
        CursorObservation::Stale { last_applied: u64::MAX, got: u64::MAX }
    );
}

#[test]
fn buffered_events_come_out_as_they_came() {
    let full = || RouterEvent {
        data: KvCacheEventData::Stored {
            parent_hash: Some(3),
            start_position: Some(64),
            blocks: vec![StoredBlock {
                block_hash: 1,
                tokens_hash: 2,
                mm_extra_info: Some(9),
            }],
        },
        details: 17,
        ..store(5)
    };
    let mut state = RankState::default();
    state.recovery_inflight = true;
    let _ = state.observe_live_event(full(), true);
    assert_eq!(state.drain_advisory_tail_after(4), vec![full()]);
}
