use std::collections::HashSet;

use kv_router::indexer::recovery::direct_ingress::{
    bindings_for_publisher, ChannelStep, DirectIngress, SourceAction, SourceEvent, SourceGauge,
    SourceRun, SourceState,
};
use kv_router::indexer::recovery::publisher_lanes::{
    active_publishers, observe_sequence, DispatchOutcome, DispatchStep, LaneSend, PublisherLanes,
    SequenceFault, PUBLISHER_LANE_CAPACITY,
};
use kv_router::membership::{KvEventSource, KvSourceStatus};
use kv_router::protocols::WorkerWithDpRank;
use kv_router::table::Table;

fn source(worker_id: u64, publisher_id: u64) -> KvEventSource {
    KvEventSource {
        kv_state_endpoint: 1,
        worker: WorkerWithDpRank::new(worker_id, 0),
        publisher_id,
        recovery_target: None,
    }
}

fn membership(sources: &[KvEventSource]) -> Table<WorkerWithDpRank, KvSourceStatus> {
    let mut table = Table::new();
    for source in sources {
        table.insert(source.worker, KvSourceStatus::ActiveLiveOnly(*source));
    }
    table
}

fn endpoint(text: &str) -> Option<String> {
    Some(text.to_string())
}

#[test]
fn grouped_disconnect_selects_its_failure_domain_once() {
    let mut ingress = DirectIngress::new();
    let mut generations = Vec::new();
    for (publisher_id, group) in [(1, 7), (2, 7), (3, 8)] {
        let step = ingress.on_channel_added(publisher_id, endpoint("tcp://127.0.0.1:1"));
        let ChannelStep::Start { task_generation } = step else {
            panic!("a new channel starts a task");
        };
        assert!(ingress.on_ready(publisher_id, task_generation, Some(group)));
        generations.push(task_generation);
    }

    let affected: HashSet<u64> = ingress
        .affected_source_ids(1, generations[0], Some(7))
        .into_iter()
        .collect();
    assert_eq!(affected, HashSet::from([1, 2]));
    let fenced: HashSet<u64> = ingress
        .on_disconnected(1, generations[0], Some(7))
        .into_iter()
        .collect();
    assert_eq!(fenced, affected);
    assert!(ingress.affected_source_ids(2, generations[1], Some(7)).is_empty());
    assert_eq!(ingress.affected_source_ids(2, generations[1], None), vec![2]);
    assert!(ingress.affected_source_ids(3, generations[2] + 1, Some(8)).is_empty());
    assert!(ingress.affected_source_ids(9, 1, None).is_empty());
}

#[test]
fn connection_is_made_before_its_sources_are_fed() {
    let mut ingress = DirectIngress::new();
    let feeding = source(42, 100);
    let view = membership(&[feeding]);
    assert_eq!(
        ingress.on_channel_added(100, endpoint("a")),
        ChannelStep::Start { task_generation: 1 }
    );
    assert!(ingress.ready_sources(&view).is_empty());
    assert!(!ingress.on_ready(100, 2, None));
    assert!(ingress.on_ready(100, 1, None));
    let ready = ingress.ready_sources(&view);
    assert_eq!(ready, vec![feeding.source_id()]);
    // Nothing was bound while the connection waited.
    assert!(ingress.activation_candidates(&ready, &vec![]).is_empty());
    assert_eq!(ingress.activation_candidates(&ready, &ready), vec![100]);
    ingress.finish_activation(100, bindings_for_publisher(&ready, 100), true);
    assert!(ingress.activation_candidates(&ready, &ready).is_empty());
    assert!(ingress.stale_publishers(&ready).is_empty());

    // The publisher now feeds another rank: its connection starts over.
    let moved = membership(&[source(43, 100)]);
    let ready = ingress.ready_sources(&moved);
    assert_eq!(ingress.stale_publishers(&ready), vec![100]);
    assert_eq!(ingress.restart_source(100), Some((1, 2)));
    assert!(ingress.ready_sources(&moved).is_empty());
    assert!(ingress.on_ready(100, 2, None));
    let ready = ingress.ready_sources(&moved);
    ingress.finish_activation(100, bindings_for_publisher(&ready, 100), false);
    assert!(ingress.ready_sources(&moved).is_empty());
    assert_eq!(ingress.restart_source(5), None);
}

#[test]
fn changed_channel_endpoint_is_not_trusted_until_withdrawn() {
    let mut ingress = DirectIngress::new();
    assert_eq!(ingress.on_channel_added(7, None), ChannelStep::Ignore);
    assert_eq!(
        ingress.on_channel_added(7, endpoint("a")),
        ChannelStep::Start { task_generation: 1 }
    );
    assert_eq!(ingress.on_channel_added(7, endpoint("a")), ChannelStep::Ignore);
    assert_eq!(
        ingress.on_channel_added(7, endpoint("b")),
        ChannelStep::Invalidate { task_generation: 1 }
    );
    assert_eq!(ingress.on_channel_added(7, endpoint("b")), ChannelStep::Ignore);
    assert!(ingress.publishers().is_empty());
    assert_eq!(ingress.on_channel_removed(7), None);
    assert_eq!(
        ingress.on_channel_added(7, endpoint("b")),
        ChannelStep::Start { task_generation: 2 }
    );
    assert_eq!(ingress.publishers(), vec![7]);
    assert_eq!(ingress.on_channel_removed(7), Some(2));
}

#[test]
fn source_task_backs_off_and_resets() {
    let mut run = SourceRun::new();
    for delay_ms in [100, 200, 400, 800, 1600, 3200, 5000, 5000] {
        assert_eq!(
            run.on_event(SourceEvent::ConnectFailed),
            SourceAction::Reconnect {
                close: false,
                group_id: None,
                delay_ms
            }
        );
    }
    assert_eq!(
        run.on_event(SourceEvent::Connected { group_id: Some(4) }),
        SourceAction::AnnounceReady { group_id: Some(4) }
    );
    assert_eq!(run.on_event(SourceEvent::Activated), SourceAction::Consume);
    assert_eq!(
        run.on_event(SourceEvent::Disconnected),
        SourceAction::Reconnect {
            close: true,
            group_id: Some(4),
            delay_ms: 100
        }
    );
    assert_eq!(run.on_event(SourceEvent::Activated), SourceAction::Ignore);
    run.on_event(SourceEvent::Connected { group_id: None });
    assert_eq!(
        run.on_event(SourceEvent::Dismissed),
        SourceAction::Stop { close: true }
    );
    assert_eq!(run.on_event(SourceEvent::Cancelled), SourceAction::Ignore);
    let mut run = SourceRun::new();
    assert_eq!(
        run.on_event(SourceEvent::Cancelled),
        SourceAction::Stop { close: false }
    );
}

#[test]
fn readiness_and_gauges_follow_the_state() {
    assert!(!SourceState::Connecting.is_ready());
    assert!(SourceState::Preconnected.is_ready());
    assert!(SourceState::Active { bindings: vec![] }.is_ready());
    assert!(!SourceState::Fenced.is_ready());
    assert!(SourceState::Fenced.active_bindings().is_none());
    assert!(SourceState::Fenced.gauge().is_none());
    assert!(SourceState::Preconnected.gauge().is_some());
}

fn lifecycle_count(counts: &[(SequenceFault, u64)], action: &str) -> u64 {
    counts
        .iter()
        .filter(|(fault, _)| fault.action() == action)
        .map(|(_, amount)| amount)
        .sum()
}

#[test]
fn first_sequence_seeds_watermark_without_counting_a_gap() {
    let mut counts = Vec::new();
    let mut high_watermark = None;
    assert_eq!(
        observe_sequence(1_000_000, &mut high_watermark, &mut counts),
        (0, false)
    );
    assert_eq!(lifecycle_count(&counts, "sequence_gap"), 0);
    assert_eq!(
        observe_sequence(1_000_003, &mut high_watermark, &mut counts),
        (2, false)
    );
    assert_eq!(
        observe_sequence(1_000_002, &mut high_watermark, &mut counts),
        (0, true)
    );
    assert_eq!(high_watermark, Some(1_000_003));
    assert_eq!(lifecycle_count(&counts, "sequence_gap"), 2);
    assert_eq!(lifecycle_count(&counts, "out_of_order"), 1);
}

#[test]
fn full_lane_drops_only_its_newest_batch() {
    assert_eq!(PUBLISHER_LANE_CAPACITY, 64);
    let mut lanes = PublisherLanes::new();
    let active = vec![1];
    assert_eq!(
        lanes.begin_dispatch(1, &active),
        DispatchStep::Send { start_lane: true }
    );
    assert_eq!(lanes.finish_dispatch(1, LaneSend::Sent), DispatchOutcome::Accepted);
    assert_eq!(
        lanes.begin_dispatch(1, &active),
        DispatchStep::Send { start_lane: false }
    );
    assert_eq!(
        lanes.finish_dispatch(1, LaneSend::Full),
        DispatchOutcome::Dropped { warn: true }
    );
    assert_eq!(
        lanes.finish_dispatch(1, LaneSend::Full),
        DispatchOutcome::Dropped { warn: false }
    );
    assert_eq!(lanes.finish_dispatch(1, LaneSend::Closed), DispatchOutcome::Retired);
    assert_eq!(
        lanes.begin_dispatch(1, &active),
        DispatchStep::Send { start_lane: true }
    );
    assert_eq!(
        lanes.finish_dispatch(1, LaneSend::Full),
        DispatchOutcome::Dropped { warn: true }
    );
}

#[test]
fn membership_reconcile_retires_lanes_of_inactive_publishers() {
    let mut lanes = PublisherLanes::new();
    lanes.begin_dispatch(7, &vec![7, 8]);
    lanes.begin_dispatch(8, &vec![7, 8]);
    assert_eq!(lanes.reconcile(&vec![8]), vec![7]);
    assert_eq!(lanes.begin_dispatch(7, &vec![8]), DispatchStep::Inactive);
    assert_eq!(
        lanes.begin_dispatch(8, &vec![8]),
        DispatchStep::Send { start_lane: false }
    );
    assert_eq!(lanes.reconcile(&vec![]), vec![8]);
}

#[test]
fn only_active_sources_have_publishers() {
    let mut view = membership(&[source(1, 10), source(2, 20)]);
    view.insert(WorkerWithDpRank::new(3, 0), KvSourceStatus::Missing);
    view.insert(
        WorkerWithDpRank::new(4, 0),
        KvSourceStatus::ActiveRecoverable(source(4, 10)),
    );
    let publishers: HashSet<u64> = active_publishers(&view).into_iter().collect();
    assert_eq!(publishers, HashSet::from([10, 20]));
}

#[test]
fn gauges_are_told_by_publisher() {
    let mut ingress = DirectIngress::new();
    assert_eq!(ingress.gauge_of(1), None);
    let step = ingress.on_channel_added(1, endpoint("tcp://127.0.0.1:1"));
    let ChannelStep::Start { task_generation } = step else {
        panic!("a new channel starts a task");
    };
    assert_eq!(ingress.gauge_of(1), None);
    assert!(ingress.on_ready(1, task_generation, None));
    assert_eq!(ingress.gauge_of(1), Some(SourceGauge::Preconnected));
    let ready = ingress.ready_sources(&membership(&[source(9, 1)]));
    ingress.finish_activation(1, ready, true);
    assert_eq!(ingress.gauge_of(1), Some(SourceGauge::Active));
    assert_eq!(ingress.on_disconnected(1, task_generation, None), vec![1]);
    assert_eq!(ingress.gauge_of(1), None);
}
