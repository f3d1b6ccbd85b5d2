use kv_router::indexer::recovery::live_batch::LiveBatch;
use kv_router::indexer::recovery::rank_recovery::{RankRecovery, RankRecoveryWork};
use kv_router::indexer::recovery::recovery_fetch::{
    recovery_start_delay_us, start_delay_us, FetchError, FetchStep, RecoveryFetch,
    RECOVERY_MAX_RETRIES,
};
use kv_router::indexer::recovery::source_slot::{
    LiveStep, ReconcileStep, RecoveryFailure, RecoveryStep, SkippedIds, SourceBinding,
    WorkerKvQueryResponse,
};
use kv_router::indexer::recovery::worker_query::{
    completes_initial_recovery, LiveBatchVerdict, RecoveryKey, TargetFaultDisposition,
    TargetFaultStep, WorkerQueryClient,
};
use kv_router::membership::{
    gate_sources, KvEventSource, KvSourceId, KvSourceStatus,
};
use kv_router::protocols::{
    EventResidency, KvCacheEventData, ResetScope, ResidencyDomain, RouterEvent, StorageTier,
    StoredBlock, WorkerWithDpRank,
};
use kv_router::table::Table;

const KV_ENDPOINT: u64 = 77;
const WORKER: WorkerWithDpRank = WorkerWithDpRank {
    worker_id: 42,
    dp_rank: 4,
};
const KEY: RecoveryKey = (42, 4);

#[derive(Clone, Debug, PartialEq)]
enum Call {
    Admit(u64, u64),
    Replace(u64),
    Reset(u64),
}

/// An index that records what it is asked and refuses what it is told to.
#[derive(Default)]
struct Target {
    calls: Vec<Call>,
    offline: bool,
    reject_event_id: Option<u64>,
    recoveries: Vec<(RecoveryKey, Option<u64>)>,
}

impl Target {
    fn take_event(&mut self, publisher_id: u64, event_id: u64) -> bool {
        self.calls.push(Call::Admit(publisher_id, event_id));
        !self.offline && self.reject_event_id != Some(event_id)
    }

    fn reset(&mut self, publisher_id: u64) -> bool {
        self.calls.push(Call::Reset(publisher_id));
        !self.offline
    }

    fn replace(&mut self, publisher_id: u64) -> bool {
        self.calls.push(Call::Replace(publisher_id));
        !self.offline
    }
}

type Sources = Table<WorkerWithDpRank, KvSourceStatus>;

struct Harness {
    client: WorkerQueryClient,
    target: Target,
    membership: Sources,
}

fn source_for(worker: WorkerWithDpRank, publisher_id: u64, recovery: Option<u64>) -> KvEventSource {
    KvEventSource {
        kv_state_endpoint: KV_ENDPOINT,
        worker,
        publisher_id,
        recovery_target: recovery,
    }
}

fn live_only(publisher_id: u64) -> KvSourceStatus {
    KvSourceStatus::ActiveLiveOnly(source_for(WORKER, publisher_id, None))
}

fn recoverable(publisher_id: u64) -> KvSourceStatus {
    KvSourceStatus::ActiveRecoverable(source_for(WORKER, publisher_id, Some(publisher_id)))
}

fn view(entries: &[(WorkerWithDpRank, KvSourceStatus)]) -> Sources {
    let mut sources = Table::new();
    for (worker, status) in entries {
        sources.insert(*worker, *status);
    }
    sources
}

fn event(worker: WorkerWithDpRank, event_id: u64, data: KvCacheEventData) -> RouterEvent {
    let reset_scope = match data {
        KvCacheEventData::Cleared => Some(ResetScope::All),
        _ => None,
    };
    RouterEvent {
        worker_id: worker.worker_id,
        dp_rank: worker.dp_rank,
        event_id,
        data,
        storage_tier: StorageTier::Device,
        residency: EventResidency {
            domain: Some(ResidencyDomain::Worker),
            reset_scope,
            targets_primary: Some(true),
        },
        state_source: None,
        details: 0,
    }
}

fn store_for(worker: WorkerWithDpRank, event_id: u64) -> RouterEvent {
    event(
        worker,
        event_id,
        KvCacheEventData::Stored {
            parent_hash: None,
            start_position: None,
            blocks: vec![StoredBlock {
                block_hash: event_id,
                tokens_hash: event_id,
                mm_extra_info: None,
            }],
        },
    )
}

fn store(event_id: u64) -> RouterEvent {
    store_for(WORKER, event_id)
}

fn clear_for(worker: WorkerWithDpRank, event_id: u64) -> RouterEvent {
    event(worker, event_id, KvCacheEventData::Cleared)
}

fn key_of(worker: WorkerWithDpRank) -> RecoveryKey {
    (worker.worker_id, worker.dp_rank)
}

impl Harness {
    fn new() -> Self {
        Harness {
            client: WorkerQueryClient::new(),
            target: Target::default(),
            membership: Table::new(),
        }
    }

    /// Removals first, then every listed rank.
    fn reconcile_view(&mut self, sources: Sources) {
        for key in self.client.unexpected_keys(&sources) {
            if let Some((_, reset)) = self.client.begin_removal(key) {
                let ok = match reset {
                    Some(id) => self.target.reset(id.publisher_id),
                    None => true,
                };
                self.client.finish_removal(key, reset, ok);
            }
        }
        for worker in sources.keys() {
            let status = *sources.get(&worker).unwrap();
            self.reconcile_key(key_of(worker), &status);
        }
        self.membership = sources;
    }

    fn reconcile_key(&mut self, key: RecoveryKey, status: &KvSourceStatus) {
        if let ReconcileStep::Proceed { reset, .. } = self.client.begin_reconcile(key, status) {
            let ok = match reset {
                Some(id) => self.target.reset(id.publisher_id),
                None => true,
            };
            if let Some(binding) = self.client.finish_reconcile(key, status, reset, ok) {
                if binding.is_recoverable() {
                    self.target.recoveries.push((key, None));
                }
            }
        }
    }

    fn live(&mut self, publisher_id: u64, events: Vec<RouterEvent>) -> Option<LiveBatchVerdict> {
        let mut batch =
            match LiveBatch::open(&mut self.client, publisher_id, events, &self.membership) {
                Ok(batch) => batch,
                Err(verdict) => return Some(verdict),
            };
        while let Some(step) = batch.next(&mut self.client) {
            match step {
                LiveStep::Ignore => {}
                LiveStep::Recover { start_event_id, .. } => {
                    self.target.recoveries.push((batch.key, start_event_id))
                }
                LiveStep::Admit {
                    event, reset_first, ..
                } => {
                    let accepted = (!reset_first || self.target.reset(publisher_id))
                        && self.target.take_event(publisher_id, event.event_id);
                    batch.outcome(&mut self.client, accepted);
                }
            }
        }
        None
    }

    /// The whole completion of a recovery; `None` when it was stale.
    fn finish_recovery(
        &mut self,
        key: RecoveryKey,
        binding: SourceBinding,
        result: Result<WorkerKvQueryResponse, RecoveryFailure>,
    ) -> (Option<bool>, Vec<SkippedIds>) {
        let publisher_id = binding.source_id.publisher_id;
        let opened = RankRecovery::open(
            &mut self.client,
            key,
            binding.generation,
            None,
            false,
            result,
        );
        let Some(mut run) = opened else {
            return (None, Vec::new());
        };
        loop {
            let ok = match run.next(&mut self.client) {
                RankRecoveryWork::Done => break,
                RankRecoveryWork::Reset => self.target.reset(publisher_id),
                RankRecoveryWork::Replace(_) => self.target.replace(publisher_id),
                RankRecoveryWork::Admit(event) => {
                    self.target.take_event(publisher_id, event.event_id)
                }
            };
            run.outcome(&mut self.client, ok);
        }
        (Some(run.completes_initial), run.skipped)
    }

    fn binding(&mut self, status: KvSourceStatus) -> SourceBinding {
        // A fresh client numbers its activations from zero.
        let source = status.active_source().unwrap();
        SourceBinding {
            source,
            source_id: source.source_id(),
            generation: 0,
        }
    }

    /// Bring up a recoverable source whose snapshot ends at event 2.
    fn start_local_recovery(reject_event_id: Option<u64>) -> (Harness, SourceBinding) {
        let mut harness = Harness::new();
        harness.reconcile_view(view(&[(WORKER, recoverable(100))]));
        let binding = harness.binding(recoverable(100));
        harness.finish_recovery(
            KEY,
            binding,
            Ok(WorkerKvQueryResponse::TreeDump {
                events: vec![store(1), store(2)],
                last_event_id: 2,
                reset_scope: ResetScope::All,
            }),
        );
        assert_eq!(harness.target.calls, vec![Call::Replace(100)]);
        assert_eq!(harness.target.recoveries, vec![(KEY, None)]);
        harness.target.calls.clear();
        harness.target.reject_event_id = reject_event_id;
        (harness, binding)
    }
}

#[test]
fn direct_transport_gate_requires_the_exact_source_id() {
    let source = source_for(WORKER, 100, None);
    let membership = view(&[(WORKER, KvSourceStatus::ActiveLiveOnly(source))]);
    let mut harness = Harness::new();

    harness.reconcile_view(gate_sources(&membership, &vec![]));
    assert!(!harness.client.is_publisher_bound(100));

    let other = source_for(WORKER, 99, None).source_id();
    harness.reconcile_view(gate_sources(&membership, &vec![other]));
    assert!(!harness.client.is_publisher_bound(100));

    harness.reconcile_view(gate_sources(&membership, &vec![source.source_id()]));
    assert!(harness.client.is_publisher_bound(100));
}

#[test]
fn suppressing_an_active_legacy_source_resets_its_rank() {
    let mut harness = Harness::new();
    harness.reconcile_view(view(&[(WORKER, live_only(100))]));
    harness.live(100, vec![store(1)]);
    harness.target.calls.clear();

    harness.reconcile_view(view(&[(WORKER, KvSourceStatus::Suppressed)]));
    assert_eq!(harness.target.calls, vec![Call::Reset(100)]);
    assert!(!harness.client.is_publisher_bound(100));
}

#[test]
fn suppressed_rank_drops_live_batches() {
    let mut harness = Harness::new();
    harness.reconcile_view(view(&[(WORKER, live_only(100))]));
    harness.membership = view(&[(WORKER, KvSourceStatus::Suppressed)]);
    assert_eq!(
        harness.live(100, vec![store(1)]),
        Some(LiveBatchVerdict::Suppressed)
    );
    assert!(harness.target.calls.is_empty());
}

#[test]
fn transport_fence_resets_before_same_source_reactivation() {
    let mut harness = Harness::new();
    harness.reconcile_view(view(&[(WORKER, live_only(100))]));
    harness.live(100, vec![store(1)]);
    harness.target.calls.clear();

    let (key, binding) = harness.client.begin_transport_fence(100).unwrap();
    let ok = harness.target.reset(binding.source_id.publisher_id);
    harness
        .client
        .finish_transport_fence(key, binding.source_id, ok);
    assert!(!harness.client.is_publisher_bound(100));
    assert_eq!(
        harness.live(100, vec![store(2)]),
        Some(LiveBatchVerdict::UnknownPublisher)
    );
    assert_eq!(harness.target.calls, vec![Call::Reset(100)]);
    assert!(harness.client.begin_transport_fence(100).is_none());

    harness.reconcile_view(view(&[(WORKER, live_only(100))]));
    assert!(harness.client.is_publisher_bound(100));
    harness.live(100, vec![store(3)]);
    assert_eq!(
        harness.target.calls,
        vec![Call::Reset(100), Call::Admit(100, 3)]
    );
}

#[test]
fn exact_removal_and_stale_recovery_are_fenced_by_publisher() {
    let mut harness = Harness::new();
    harness.reconcile_view(view(&[(WORKER, recoverable(100))]));
    let old_binding = harness.binding(recoverable(100));
    harness.reconcile_view(view(&[(WORKER, KvSourceStatus::Ambiguous(1))]));
    assert!(!harness.client.is_publisher_bound(100));
    assert!(!harness.client.is_publisher_bound(205));

    harness.reconcile_view(view(&[(WORKER, live_only(205))]));
    assert!(!harness.client.is_publisher_bound(100));
    assert!(harness.client.is_publisher_bound(205));
    harness.target.calls.clear();

    let (complete, _) = harness.finish_recovery(
        KEY,
        old_binding,
        Ok(WorkerKvQueryResponse::TreeDump {
            events: vec![store(100)],
            last_event_id: 100,
            reset_scope: ResetScope::All,
        }),
    );
    assert_eq!(complete, None);
    harness.live(100, vec![store(101)]);
    harness.live(205, vec![store(1)]);
    harness.live(100, vec![clear_for(WORKER, 102)]);
    assert_eq!(harness.target.calls, vec![Call::Admit(205, 1)]);
}

#[test]
fn coalesced_view_with_same_source_does_not_reset() {
    let mut harness = Harness::new();
    harness.reconcile_view(view(&[(WORKER, live_only(100))]));
    harness.live(100, vec![store(1)]);
    harness.reconcile_view(view(&[(WORKER, live_only(100))]));
    assert_eq!(harness.target.calls, vec![Call::Admit(100, 1)]);
    assert!(harness.client.is_publisher_bound(100));
    assert_eq!(harness.client.last_admitted_id(KEY), Some(1));
}

#[test]
fn removed_rank_resets_old_source_before_new_source_appears() {
    let mut harness = Harness::new();
    harness.reconcile_view(view(&[(WORKER, live_only(100))]));
    harness.target.calls.clear();
    harness.reconcile_view(view(&[]));
    assert_eq!(harness.target.calls, vec![Call::Reset(100)]);

    harness.target.calls.clear();
    harness.reconcile_view(view(&[(WORKER, live_only(205))]));
    assert!(harness.target.calls.is_empty());
    assert!(harness.client.is_publisher_bound(205));
}

#[test]
fn stale_target_fault_does_not_reset_or_fence_the_replacement_source() {
    let mut harness = Harness::new();
    harness.reconcile_view(view(&[(WORKER, live_only(205))]));
    assert_eq!(
        harness.client.begin_target_fault(KEY, 100, true),
        TargetFaultStep::Done(TargetFaultDisposition::Stale)
    );
    assert!(harness.target.calls.is_empty());
    assert!(harness.client.is_publisher_bound(205));
}

#[test]
fn target_fault_recovers_resets_or_fences() {
    let mut harness = Harness::new();
    harness.reconcile_view(view(&[(WORKER, live_only(205))]));
    harness.live(205, vec![store(1)]);
    assert_eq!(
        harness.client.begin_target_fault(KEY, 205, true),
        TargetFaultStep::Done(TargetFaultDisposition::Fenced)
    );
    let id = source_for(WORKER, 205, None).source_id();
    assert_eq!(
        harness.client.begin_target_fault(KEY, 205, false),
        TargetFaultStep::Reset(id)
    );
    assert_eq!(
        harness.client.finish_target_fault(KEY, id, true),
        TargetFaultDisposition::ResetLiveOnly
    );
    assert_eq!(harness.client.last_admitted_id(KEY), None);
    assert_eq!(
        harness.client.finish_target_fault(KEY, id, false),
        TargetFaultDisposition::Fenced
    );
    assert_eq!(
        harness.live(205, vec![store(2)]),
        Some(LiveBatchVerdict::Fenced)
    );
    assert_eq!(
        harness.client.begin_target_fault(KEY, 205, false),
        TargetFaultStep::Done(TargetFaultDisposition::Fenced)
    );

    let mut harness = Harness::new();
    harness.reconcile_view(view(&[(WORKER, recoverable(100))]));
    let binding = harness.binding(recoverable(100));
    assert_eq!(
        harness.client.begin_target_fault(KEY, 100, false),
        TargetFaultStep::Recover(binding)
    );
    assert_eq!(
        harness.client.finish_target_fault((1, 1), id, true),
        TargetFaultDisposition::Stale
    );
}

#[test]
fn rejected_source_stays_ineligible_until_exact_identity_changes() {
    let mut harness = Harness::new();
    harness.reconcile_view(view(&[(WORKER, live_only(205))]));
    assert!(harness.client.begin_reject(KEY, 100).is_none());
    let retired = harness.client.begin_reject(KEY, 205).unwrap();
    let ok = harness.target.reset(retired.source_id.publisher_id);
    harness.client.finish_reject(KEY, retired.source_id, ok);
    assert!(!harness.client.is_publisher_bound(205));
    harness.reconcile_view(view(&[(WORKER, live_only(205))]));
    assert!(!harness.client.is_publisher_bound(205));

    harness.reconcile_view(view(&[(WORKER, live_only(206))]));
    assert!(harness.client.is_publisher_bound(206));
}

#[test]
fn live_admission_carries_the_publisher_id() {
    let mut harness = Harness::new();
    harness.reconcile_view(view(&[(WORKER, live_only(205))]));
    harness.live(205, vec![store(1)]);
    assert_eq!(harness.target.calls, vec![Call::Admit(205, 1)]);
}

#[test]
fn failed_reset_retains_source_fence_and_slot() {
    let mut harness = Harness::new();
    harness.reconcile_view(view(&[(WORKER, live_only(100))]));
    harness.target.offline = true;
    harness.reconcile_view(view(&[(WORKER, live_only(205))]));
    harness.reconcile_view(view(&[(WORKER, live_only(205))]));
    assert_eq!(harness.target.calls, vec![Call::Reset(100), Call::Reset(100)]);
    assert!(!harness.client.is_publisher_bound(205));

    harness.reconcile_view(view(&[]));
    assert_eq!(harness.client.unexpected_keys(&view(&[])), vec![KEY]);
    harness.target.offline = false;
    harness.reconcile_view(view(&[(WORKER, live_only(205))]));
    assert_eq!(harness.target.calls.last(), Some(&Call::Reset(100)));
    assert!(harness.client.is_publisher_bound(205));
}

#[test]
fn live_clear_enqueue_failure_does_not_advance_cursor_and_fences_rank() {
    let mut harness = Harness::new();
    harness.reconcile_view(view(&[(WORKER, live_only(100))]));
    harness.target.offline = true;
    harness.live(100, vec![clear_for(WORKER, 1), store(2)]);
    assert_eq!(harness.client.last_admitted_id(KEY), None);
    assert_eq!(harness.target.calls, vec![Call::Admit(100, 1)]);
    assert_eq!(
        harness.live(100, vec![store(2)]),
        Some(LiveBatchVerdict::Fenced)
    );
}

#[test]
fn foreign_clear_recovery_fences_rank_without_live_event_salvage() {
    let mut harness = Harness::new();
    harness.reconcile_view(view(&[(WORKER, recoverable(100))]));
    harness.live(100, vec![store(1)]);
    let binding = harness.binding(recoverable(100));
    let (complete, _) = harness.finish_recovery(
        KEY,
        binding,
        Ok(WorkerKvQueryResponse::Events {
            events: vec![clear_for(WorkerWithDpRank::new(99, 4), 2)],
            last_event_id: 2,
        }),
    );
    assert_eq!(complete, Some(true));
    assert_eq!(harness.target.calls, vec![Call::Reset(100)]);
    let health = harness.client.health_snapshot();
    assert_eq!(health.recovering_rank_count, 0);
    assert_eq!(health.pending_live_event_count, 0);
    assert_eq!(
        harness.live(100, vec![store(2)]),
        Some(LiveBatchVerdict::Fenced)
    );
}

#[test]
fn clear_tree_dump_reset_failure_keeps_rank_fenced() {
    let mut harness = Harness::new();
    harness.reconcile_view(view(&[(WORKER, recoverable(100))]));
    harness.live(100, vec![store(1)]);
    let binding = harness.binding(recoverable(100));
    harness.target.offline = true;
    let (complete, _) = harness.finish_recovery(
        KEY,
        binding,
        Ok(WorkerKvQueryResponse::TreeDump {
            events: vec![clear_for(WORKER, 2)],
            last_event_id: 2,
            reset_scope: ResetScope::All,
        }),
    );
    assert_eq!(complete, Some(true));
    assert_eq!(harness.client.last_admitted_id(KEY), None);
    assert_eq!(harness.client.health_snapshot().recovering_rank_count, 0);
    assert_eq!(
        harness.live(100, vec![store(2)]),
        Some(LiveBatchVerdict::Fenced)
    );
}

#[test]
fn non_authoritative_dump_failure_leaves_state_and_cursor_unchanged() {
    for result in [
        Err(RecoveryFailure::NonAuthoritative),
        Ok(WorkerKvQueryResponse::TreeDumpFailed {
            last_event_id: 9,
            message: "snapshot unavailable".to_string(),
        }),
        Ok(WorkerKvQueryResponse::TreeDump {
            events: vec![store(1)],
            last_event_id: 1,
            reset_scope: ResetScope::Domain(ResidencyDomain::Worker),
        }),
    ] {
        let mut harness = Harness::new();
        harness.reconcile_view(view(&[(WORKER, recoverable(100))]));
        harness.live(100, vec![store(2)]);
        let binding = harness.binding(recoverable(100));
        let (complete, _) = harness.finish_recovery(KEY, binding, result);
        assert_eq!(complete, Some(false));
        assert!(harness.target.calls.is_empty());
        assert_eq!(harness.client.last_admitted_id(KEY), None);
        let health = harness.client.health_snapshot();
        assert_eq!(health.recovering_rank_count, 0);
        assert_eq!(health.pending_live_event_count, 1);
        assert_eq!(harness.live(100, vec![store(3)]), None);
    }
}

fn assert_gap_recovery(expect_snapshot: bool) {
    let (mut harness, binding) = Harness::start_local_recovery(None);
    harness.live(100, vec![store(5)]);
    assert_eq!(harness.target.recoveries, vec![(KEY, None), (KEY, Some(3))]);
    assert!(
        harness.target.calls.is_empty(),
        "gap must not pre-clear the rank"
    );
    assert_eq!(harness.client.last_admitted_id(KEY), Some(2));

    // The response covers 5. Out-of-order and duplicate arrivals must replay as 6, 7.
    harness.live(
        100,
        vec![store(7), store(6), store(7), store(5), store(4)],
    );
    let response = if expect_snapshot {
        WorkerKvQueryResponse::TreeDump {
            events: vec![store(1), store(4), store(5)],
            last_event_id: 5,
            reset_scope: ResetScope::All,
        }
    } else {
        WorkerKvQueryResponse::Events {
            events: vec![store(3), store(4), store(5)],
            last_event_id: 5,
        }
    };
    let (_, skipped) = harness.finish_recovery(KEY, binding, Ok(response));
    assert!(skipped.is_empty());
    let mut expected = if expect_snapshot {
        vec![Call::Replace(100)]
    } else {
        (3..=5).map(|id| Call::Admit(100, id)).collect()
    };
    expected.extend([Call::Admit(100, 6), Call::Admit(100, 7)]);
    assert_eq!(harness.target.calls, expected);
    assert_eq!(harness.client.last_admitted_id(KEY), Some(7));
    assert_eq!(harness.client.health_snapshot().recovering_rank_count, 0);
    assert_eq!(harness.target.recoveries.len(), 2);
}

#[test]
fn retained_gap_replays_without_reset() {
    assert_gap_recovery(false);
}

#[test]
fn expired_gap_uses_server_selected_snapshot() {
    assert_gap_recovery(true);
}

#[test]
fn local_catchup_warns_through_gaps_without_rpc() {
    for (pending, expected_tail, final_cursor, skipped_end) in [
        (vec![7, 6, 7, 4], vec![6, 7], 7, 5),
        // Arrival-order eviction drops 5 and 6 beyond the response watermark of 4.
        ((5..=1030).collect(), (7..=1030).collect(), 1030, 6),
        // Even the highest observed event can be evicted by older duplicate arrivals.
        ([vec![2000], vec![6; 1024]].concat(), vec![6], 6, 5),
    ] as [(Vec<u64>, Vec<u64>, u64, u64); 3]
    {
        let (mut harness, binding) = Harness::start_local_recovery(None);
        harness.live(100, vec![store(4)]);
        harness.live(100, pending.into_iter().map(store).collect());
        let (_, skipped) = harness.finish_recovery(
            KEY,
            binding,
            Ok(WorkerKvQueryResponse::Events {
                events: vec![store(3), store(4)],
                last_event_id: 4,
            }),
        );
        let expected_calls: Vec<_> = [3, 4]
            .into_iter()
            .chain(expected_tail.iter().copied())
            .map(|id| Call::Admit(100, id))
            .collect();
        assert_eq!(harness.target.calls, expected_calls);
        assert_eq!(harness.client.last_admitted_id(KEY), Some(final_cursor));
        assert_eq!(harness.client.health_snapshot().recovering_rank_count, 0);
        assert_eq!(harness.target.recoveries.len(), 2);
        assert_eq!(
            skipped[0],
            SkippedIds {
                start: 5,
                end: skipped_end
            }
        );
        if final_cursor == 6 {
            assert_eq!(
                skipped[1],
                SkippedIds {
                    start: 7,
                    end: 2000
                }
            );
            assert_eq!(skipped[1].end - skipped[1].start + 1, 1994);
        } else {
            assert_eq!(skipped.len(), 1);
        }
        if final_cursor == 7 {
            // A later independent live gap still issues the ordinary next-ID request.
            harness.live(100, vec![store(9)]);
            assert_eq!(
                harness.target.recoveries,
                vec![(KEY, None), (KEY, Some(3)), (KEY, Some(8))]
            );
            harness.finish_recovery(
                KEY,
                binding,
                Ok(WorkerKvQueryResponse::Events {
                    events: vec![store(8), store(9)],
                    last_event_id: 9,
                }),
            );
            assert_eq!(harness.client.last_admitted_id(KEY), Some(9));
        }
    }
}

#[test]
fn buffered_recovery_admission_failure_preserves_cursor_and_fences_rank() {
    let (mut harness, binding) = Harness::start_local_recovery(Some(6));
    harness.live(100, vec![store(4)]);
    harness.live(100, vec![store(6), store(5)]);
    harness.finish_recovery(
        KEY,
        binding,
        Ok(WorkerKvQueryResponse::Events {
            events: vec![store(3), store(4)],
            last_event_id: 4,
        }),
    );
    assert_eq!(
        harness.target.calls,
        (3..=6).map(|id| Call::Admit(100, id)).collect::<Vec<_>>()
    );
    assert_eq!(harness.client.last_admitted_id(KEY), Some(2));
    assert_eq!(
        harness.live(100, vec![store(7)]),
        Some(LiveBatchVerdict::Fenced)
    );
    assert_eq!(harness.client.health_snapshot().recovering_rank_count, 0);
    assert_eq!(harness.target.recoveries.len(), 2);
}

#[test]
fn ahead_tree_dump_and_duplicate_tail_replay_converge() {
    let mut harness = Harness::new();
    harness.reconcile_view(view(&[(WORKER, recoverable(100))]));
    let binding = harness.binding(recoverable(100));

    // The source captured watermark 1, but its independently advancing index dump already
    // contains event 2. The complete tail after 1 therefore replays event 2 before event 3.
    harness.live(100, vec![store(2), store(3)]);
    harness.finish_recovery(
        KEY,
        binding,
        Ok(WorkerKvQueryResponse::TreeDump {
            events: vec![store(1), store(2)],
            last_event_id: 1,
            reset_scope: ResetScope::All,
        }),
    );
    assert_eq!(
        harness.target.calls,
        vec![Call::Replace(100), Call::Admit(100, 2), Call::Admit(100, 3)]
    );
    assert_eq!(harness.client.last_admitted_id(KEY), Some(3));
    assert_eq!(harness.client.health_snapshot().recovering_rank_count, 0);
}

#[test]
fn foreign_event_rejects_the_entire_envelope_before_index_mutation() {
    let mut harness = Harness::new();
    harness.reconcile_view(view(&[(WORKER, live_only(100))]));
    let foreign = store_for(WorkerWithDpRank::new(99, 4), 2);
    assert_eq!(
        harness.live(100, vec![store(1), foreign]),
        Some(LiveBatchVerdict::ForeignEvent)
    );
    assert!(harness.target.calls.is_empty());
    assert_eq!(harness.live(100, vec![]), Some(LiveBatchVerdict::Empty));
}

#[test]
fn live_clear_only_removes_the_emitting_rank() {
    let rank_5 = WorkerWithDpRank::new(42, 5);
    let mut harness = Harness::new();
    harness.reconcile_view(view(&[
        (WORKER, live_only(100)),
        (
            rank_5,
            KvSourceStatus::ActiveLiveOnly(source_for(rank_5, 205, None)),
        ),
    ]));
    harness.live(100, vec![store(1)]);
    harness.live(205, vec![store_for(rank_5, 1)]);
    harness.target.calls.clear();
    harness.live(100, vec![clear_for(WORKER, 2)]);
    assert_eq!(harness.target.calls, vec![Call::Admit(100, 2)]);
    assert_eq!(harness.client.last_admitted_id(KEY), Some(2));
    assert_eq!(harness.client.last_admitted_id((42, 5)), Some(1));
}

#[test]
fn recovered_clear_only_removes_the_recovered_rank() {
    let rank_5 = WorkerWithDpRank::new(42, 5);
    let mut harness = Harness::new();
    harness.reconcile_view(view(&[
        (WORKER, live_only(100)),
        (
            rank_5,
            KvSourceStatus::ActiveLiveOnly(source_for(rank_5, 205, None)),
        ),
    ]));
    harness.live(100, vec![store(1)]);
    harness.live(205, vec![store_for(rank_5, 1)]);
    harness.target.calls.clear();
    let binding = harness.binding(live_only(100));
    harness.finish_recovery(
        KEY,
        binding,
        Ok(WorkerKvQueryResponse::Events {
            events: vec![clear_for(WORKER, 2)],
            last_event_id: 2,
        }),
    );
    assert_eq!(harness.target.calls, vec![Call::Admit(100, 2)]);
    assert_eq!(harness.client.last_admitted_id((42, 5)), Some(1));
}

#[test]
fn failed_query_degrades_to_the_live_events_that_came() {
    let mut harness = Harness::new();
    harness.reconcile_view(view(&[(WORKER, recoverable(100))]));
    harness.live(100, vec![store(4), store(3), store(4)]);
    let binding = harness.binding(recoverable(100));
    let (complete, _) = harness.finish_recovery(KEY, binding, Err(RecoveryFailure::Failed));
    assert_eq!(complete, Some(true));
    assert_eq!(
        harness.target.calls,
        vec![Call::Admit(100, 3), Call::Admit(100, 4)]
    );
    assert_eq!(harness.client.last_admitted_id(KEY), Some(4));
    let (complete, _) = harness.finish_recovery(KEY, binding, Ok(WorkerKvQueryResponse::NoState));
    assert_eq!(complete, Some(true));
    assert_eq!(harness.client.last_admitted_id(KEY), Some(4));
}

#[test]
fn live_only_gap_resets_the_rank_and_goes_on() {
    let mut harness = Harness::new();
    harness.reconcile_view(view(&[(WORKER, live_only(100))]));
    harness.live(100, vec![store(1), store(4), store(5)]);
    assert_eq!(
        harness.target.calls,
        vec![
            Call::Admit(100, 1),
            Call::Reset(100),
            Call::Admit(100, 4),
            Call::Admit(100, 5)
        ]
    );
    assert_eq!(harness.client.last_admitted_id(KEY), Some(5));
}

#[test]
fn health_counts_workers_ranks_and_endpoints() {
    let rank_5 = WorkerWithDpRank::new(42, 5);
    let other = WorkerWithDpRank::new(43, 0);
    let mut harness = Harness::new();
    harness.reconcile_view(view(&[
        (WORKER, recoverable(100)),
        (
            rank_5,
            KvSourceStatus::ActiveLiveOnly(source_for(rank_5, 205, None)),
        ),
        (other, KvSourceStatus::Missing),
    ]));
    harness.live(100, vec![store(1), store(2)]);
    let health = harness.client.health_snapshot();
    assert_eq!(health.worker_count, 1);
    assert_eq!(health.rank_count, 3);
    assert_eq!(health.recovering_rank_count, 1);
    assert_eq!(health.pending_live_event_count, 2);
    assert_eq!(health.discovered_endpoint_count, 1);
}

#[test]
fn explicit_dump_failure_is_retried_before_degraded_fallback() {
    let mut fetch = RecoveryFetch::new();
    let failed = WorkerKvQueryResponse::TreeDumpFailed {
        last_event_id: 6,
        message: "snapshot temporarily unavailable".to_string(),
    };
    assert_eq!(
        fetch.on_attempt(Ok(failed)),
        FetchStep::Retry {
            backoff_ms: 200,
            error: FetchError::TreeDumpFailed {
                last_event_id: 6,
                message: "snapshot temporarily unavailable".to_string()
            }
        }
    );
    let step = fetch.on_attempt(Ok(WorkerKvQueryResponse::TreeDump {
        events: Vec::new(),
        last_event_id: 7,
        reset_scope: ResetScope::All,
    }));
    assert!(matches!(
        step,
        FetchStep::Done(WorkerKvQueryResponse::TreeDump {
            last_event_id: 7,
            reset_scope: ResetScope::All,
            ..
        })
    ));
}

#[test]
fn exhausted_dump_failures_remain_non_authoritative() {
    let failed = || WorkerKvQueryResponse::TreeDumpFailed {
        last_event_id: 6,
        message: "snapshot unavailable".to_string(),
    };
    let mut fetch = RecoveryFetch::new();
    for _ in 0..RECOVERY_MAX_RETRIES - 1 {
        assert!(matches!(
            fetch.on_attempt(Ok(failed())),
            FetchStep::Retry { .. }
        ));
    }
    assert_eq!(
        fetch.on_attempt(Ok(failed())),
        FetchStep::Fail {
            failure: RecoveryFailure::NonAuthoritative,
            error: FetchError::TreeDumpFailed {
                last_event_id: 6,
                message: "snapshot unavailable".to_string()
            }
        }
    );
}

#[test]
fn one_dump_failure_among_others_keeps_the_outcome_non_authoritative() {
    let mut fetch = RecoveryFetch::new();
    let mut pauses = Vec::new();
    loop {
        let result = if pauses.is_empty() {
            Ok(WorkerKvQueryResponse::TreeDumpFailed {
                last_event_id: 3,
                message: "busy".to_string(),
            })
        } else {
            Err("timed out".to_string())
        };
        match fetch.on_attempt(result) {
            FetchStep::Retry { backoff_ms, .. } => pauses.push(backoff_ms),
            FetchStep::Fail { failure, error } => {
                assert_eq!(failure, RecoveryFailure::NonAuthoritative);
                assert_eq!(error, FetchError::Transport("timed out".to_string()));
                break;
            }
            FetchStep::Done(_) => panic!("no attempt succeeded"),
        }
    }
    assert_eq!(pauses, vec![200, 400, 800, 1600, 3200, 6400, 12800]);
}

#[test]
fn failed_attempts_alone_end_in_plain_failure() {
    let mut fetch = RecoveryFetch::new();
    for _ in 0..7 {
        assert!(matches!(
            fetch.on_attempt(Err("down".to_string())),
            FetchStep::Retry { .. }
        ));
    }
    assert!(matches!(
        fetch.on_attempt(Err("down".to_string())),
        FetchStep::Fail {
            failure: RecoveryFailure::Failed,
            ..
        }
    ));
    let mut fetch = RecoveryFetch::new();
    assert!(matches!(
        fetch.on_attempt(Ok(WorkerKvQueryResponse::TreeDump {
            events: vec![],
            last_event_id: 1,
            reset_scope: ResetScope::Domain(ResidencyDomain::CacheOwner),
        })),
        FetchStep::Retry {
            error: FetchError::UnsupportedScope(ResetScope::Domain(ResidencyDomain::CacheOwner)),
            ..
        }
    ));
}

#[test]
fn initial_recoveries_are_spread_out() {
    assert_eq!(start_delay_us(Some(3), 17), 0);
    assert_eq!(start_delay_us(None, 17), 17);
    assert_eq!(recovery_start_delay_us(Some(3)), 0);
    let delays: Vec<u64> = (0..200).map(|_| recovery_start_delay_us(None)).collect();
    assert!(delays.iter().all(|delay| *delay < 3000));
    assert!(delays.iter().any(|delay| *delay != delays[0]));
}

#[test]
fn publisher_entry_moves_to_the_latest_binding() {
    let rank_5 = WorkerWithDpRank::new(42, 5);
    let mut harness = Harness::new();
    harness.reconcile_view(view(&[(WORKER, live_only(100))]));
    harness.reconcile_view(view(&[
        (WORKER, live_only(100)),
        (
            rank_5,
            KvSourceStatus::ActiveLiveOnly(source_for(rank_5, 100, None)),
        ),
    ]));
    assert_eq!(harness.live(100, vec![store_for(rank_5, 1)]), None);
    assert_eq!(
        harness.live(100, vec![store(1)]),
        Some(LiveBatchVerdict::ForeignEvent)
    );
    harness.reconcile_view(view(&[(
        rank_5,
        KvSourceStatus::ActiveLiveOnly(source_for(rank_5, 100, None)),
    )]));
    assert!(harness.client.is_publisher_bound(100));
    let id: KvSourceId = source_for(rank_5, 100, None).source_id();
    assert_eq!(id.worker, rank_5);
}

#[test]
fn live_admissions_ascend_however_events_arrive() {
    let mut harness = Harness::new();
    harness.reconcile_view(view(&[(WORKER, live_only(100))]));
    let arrivals = [5, 3, 6, 6, 4, 9, 8, 10];
    harness.live(100, arrivals.into_iter().map(store).collect());
    assert_eq!(
        harness.target.calls,
        vec![
            Call::Admit(100, 5),
            Call::Admit(100, 6),
            Call::Reset(100),
            Call::Admit(100, 9),
            Call::Admit(100, 10),
        ]
    );
    assert_eq!(harness.client.last_admitted_id(KEY), Some(10));
}
