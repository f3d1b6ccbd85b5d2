use std::collections::HashSet;

use kv_router::indexer::recovery::owner_events::{LiveOwnerEvents, OwnerEvents};
use kv_router::indexer::recovery::owner_recovery::{OwnerRecoveryRun, RecoveryWork};
use kv_router::indexer::recovery::owner_runtime::{OwnerRuntime, StateEventStep};
use kv_router::indexer::recovery::rank_state::RankState;
use kv_router::indexer::recovery::schedule_run::{ScheduleRun, ScheduleStep};
use kv_router::indexer::recovery::source_slot::WorkerKvQueryResponse;
use kv_router::indexer::recovery::state_agent::{
    plan_owner, ClearEvent, KvStateAgentIdentity, OwnerRecoveryPlan, OwnerRecoveryTail, OwnerStep, StateAgent,
    StateClear,
};
use kv_router::indexer::recovery::state_recovery::{
    check_recovery_response, needs_recovery, pre_recovery_clears, query_worker_id,
    KvStateAgentStatus, KvStateAttachmentStatus, KvStateRecoveryReceipt, StateAgentResponse,
    StateRecoveryError,
};
use kv_router::indexer::recovery::state_router::{
    advance_observation_revision, ensure_observation_revision, recognized_after_membership,
    recovery_retry_is_current, source_retry_fence, OwnerRecoveryResult, OwnerRecoveryStep,
    ReconcileGate, RecoveryRetry, RecoveryRetryFence, RouterInput, RouterTurn, StateRouter,
    Superseded,
};
use kv_router::indexer::recovery::state_sources::{
    list_owner_sources, update_advertisements, AdvertisementError, DiscoveryChange,
    KvStateAttachmentAdvertisement, KvStateIngressProtocol, KvStateProtocolVersion,
    KvStateSourceAdvertisement, KvStateTopic, SourceExpectation,
};
use kv_router::membership::{
    extend_recognized, source_mode_suppressed_workers, suppress_recognized, KvEventSource, KvSourceMembershipView,
    KvSourceStatus,
};
use kv_router::protocols::{
    CacheOwnerId, EventResidency, KvCacheEventData, ResetScope, ResidencyDomain, RouterEvent,
    StorageTier, StoredBlock, WorkerWithDpRank,
};
use kv_router::table::Table;

const ENDPOINT: u64 = 5;
const DOMAIN: u64 = 12;
const WORKER: WorkerWithDpRank = WorkerWithDpRank {
    worker_id: 17,
    dp_rank: 3,
};

fn owner(slot: u64) -> CacheOwnerId {
    CacheOwnerId {
        indexer_domain: DOMAIN,
        slot,
    }
}

fn expectation() -> SourceExpectation {
    SourceExpectation {
        kv_state_endpoint: ENDPOINT,
        kv_block_size: 4,
    }
}

fn source_advertisement(owner: CacheOwnerId) -> KvStateSourceAdvertisement {
    KvStateSourceAdvertisement {
        cache_owner_id: owner,
        global_dp_rank: 3,
        kv_state_endpoint: ENDPOINT,
        indexer_domain_id: owner.indexer_domain,
        kv_block_size: 4,
        ingress_protocol: KvStateIngressProtocol::VllmResidencyV1,
        publisher_id: 41,
        protocol_version: KvStateProtocolVersion::V2,
        event_topic: KvStateTopic::EventV2,
        recovery_control_target: 17,
        router_hint_source: None,
    }
}

fn record_id(publisher_id: u64, generation: u64) -> u64 {
    publisher_id * 1000 + generation
}

fn attachment_advertisement(
    owner: CacheOwnerId,
    generation: u64,
) -> KvStateAttachmentAdvertisement {
    KvStateAttachmentAdvertisement {
        record_id: record_id(41, generation),
        cache_owner_id: owner,
        publisher_id: 41,
        protocol_version: KvStateProtocolVersion::V2,
        recovery_control_target: 17,
        attachment_generation: generation,
        producer_instance: 18,
        intent_incarnation: 71,
        worker: WORKER,
        ingress_protocol: KvStateIngressProtocol::VllmResidencyV1,
        raw_zmq_endpoint: 5557,
        raw_topic: 0,
        ready_at_outbound_cursor: 9,
    }
}

fn identity(owner: CacheOwnerId) -> KvStateAgentIdentity {
    KvStateAgentIdentity {
        cache_owner_id: owner,
        publisher_id: 41,
        protocol_version: KvStateProtocolVersion::V2,
    }
}

fn stored(event_id: u64) -> KvCacheEventData {
    KvCacheEventData::Stored {
        parent_hash: None,
        start_position: None,
        blocks: vec![StoredBlock {
            block_hash: event_id,
            tokens_hash: event_id,
            mm_extra_info: None,
        }],
    }
}

fn event(
    event_id: u64,
    domain: ResidencyDomain,
    source: CacheOwnerId,
    data: KvCacheEventData,
) -> RouterEvent {
    RouterEvent {
        worker_id: WORKER.worker_id,
        dp_rank: WORKER.dp_rank,
        event_id,
        data,
        storage_tier: StorageTier::HostPinned,
        residency: EventResidency {
            domain: Some(domain),
            reset_scope: None,
            targets_primary: Some(domain == ResidencyDomain::Worker),
        },
        state_source: Some(source),
        details: 0,
    }
}

fn runtime(owner_generation: Option<u64>) -> OwnerRuntime {
    OwnerRuntime {
        publisher_id: Some(41),
        recovered_cursor: 0,
        attachment_generation: owner_generation,
        last_worker: Some(WORKER),
        ready: false,
        attached_worker: None,
        router_hint_source: None,
        hint_ready: false,
        recovery_required: false,
    }
}

fn live() -> Table<WorkerWithDpRank, KvSourceStatus> {
    let mut live = Table::new();
    live.insert(WORKER, KvSourceStatus::Missing);
    live
}

fn view(status: KvSourceStatus) -> KvSourceMembershipView {
    let mut sources = Table::new();
    sources.insert(WORKER, status);
    KvSourceMembershipView {
        kv_state_endpoint: Some(ENDPOINT),
        sources,
        kv_event_publishing_enabled: Table::new(),
        kv_event_source_mode: Table::new(),
        recovery_expected: Table::new(),
    }
}

fn plan(owner: CacheOwnerId) -> OwnerRecoveryPlan {
    OwnerRecoveryPlan {
        owner,
        source: source_advertisement(owner),
        attachment: Some(attachment_advertisement(owner, 7)),
        expected: identity(owner),
        recognized_worker: Some(WORKER),
        previous_publisher_id: None,
        previous_cursor: 0,
        recovery_required: true,
        observation_revision: 1,
        schedule_generation: 1,
    }
}

/// Run events of an owner through an index that refuses what `refuse` says.
fn apply(agent: &mut StateAgent, owner: CacheOwnerId, events: Vec<RouterEvent>, refuse: &[u64]) -> Vec<u64> {
    let mut applied = Vec::new();
    let mut run = OwnerEvents::new(owner, events);
    while let Some(step) = run.next(agent) {
        let ok = !refuse.contains(&step.event.event_id);
        if ok {
            applied.push(step.event.event_id);
        }
        run.outcome(agent, ok);
    }
    applied
}

#[test]
fn recovery_retry_runs_without_discovery_and_fences_replacement() {
    let owner = owner(4);
    let source = source_advertisement(owner);
    let attachment = attachment_advertisement(owner, 7);
    let mut sources = Table::new();
    sources.insert(source.publisher_id, source);
    let mut attachments = Table::new();
    attachments.insert(attachment.record_id, attachment);
    let fence = RecoveryRetryFence {
        source,
        attachment: Some(attachment),
        observation_revision: 3,
        activation_expected: true,
    };
    let mut retry = RecoveryRetry::new();

    assert_eq!(retry.schedule(fence), Some(100));
    assert_eq!(retry.schedule(fence), None);
    let due = retry.take_due().expect("retry should fire without discovery");
    assert!(recovery_retry_is_current(&due, &sources, &attachments, 3));
    assert!(!recovery_retry_is_current(&due, &sources, &attachments, 4));

    let mut attachments = Table::new();
    let replacement = attachment_advertisement(owner, 8);
    attachments.insert(replacement.record_id, replacement);
    assert!(!recovery_retry_is_current(&due, &sources, &attachments, 3));
    sources.remove(&source.publisher_id);
    assert!(!recovery_retry_is_current(&due, &sources, &attachments, 3));
}

#[test]
fn retry_delays_double_up_to_the_limit() {
    let fence = RecoveryRetryFence {
        source: source_advertisement(owner(1)),
        attachment: None,
        observation_revision: 0,
        activation_expected: false,
    };
    let mut retry = RecoveryRetry::new();
    for expected in [100, 200, 400, 800, 1600, 3200, 5000, 5000] {
        assert_eq!(retry.schedule(fence), Some(expected));
        assert_eq!(retry.take_due(), Some(fence));
    }
    retry.reset();
    assert_eq!(retry.schedule(fence), Some(100));
}

#[test]
fn attachment_recovers_pre_advertisement_tail_without_readability_toggle() {
    let owner = owner(4);
    let plan = plan(owner);
    let mut rank = RankState::default();
    rank.buffer_recovery_tail(event(10, ResidencyDomain::CacheOwner, owner, stored(10)));
    let mut agent = StateAgent::new();
    agent.recovery_tails.insert(
        owner,
        OwnerRecoveryTail {
            publisher_id: 41,
            attachment_generation: Some(7),
            schedule_generation: 1,
            rank,
        },
    );
    agent.runtime.insert(
        owner,
        OwnerRuntime {
            attached_worker: Some(WORKER),
            recovery_required: true,
            ..runtime(Some(7))
        },
    );
    let status = KvStateAgentStatus {
        identity: identity(owner),
        attachment: Some(KvStateAttachmentStatus {
            generation: 7,
            worker: WORKER,
            ready: true,
            ready_at_outbound_cursor: 9,
        }),
        cache_owner_ready: true,
        outbound_cursor: 10,
    };

    let events = agent.take_recovery_tail(&plan, 9);
    assert_eq!(apply(&mut agent, owner, events, &[]), vec![10]);
    assert_eq!(agent.tail_outcome(owner), Some(10));
    assert_eq!(agent.runtime.get(&owner).unwrap().recovered_cursor, 10);

    // A recovery that stopped short of the barrier is not ready, one past it is.
    agent.finish_owner_readiness(&plan, &status, 8, &live());
    assert!(!agent.runtime.get(&owner).unwrap().ready);
    agent.finish_owner_readiness(&plan, &status, 10, &live());
    let state = agent.runtime.get(&owner).unwrap();
    assert!(state.ready);
    assert_eq!(state.attached_worker, Some(WORKER));
    assert_eq!(agent.residency_routing().projection, vec![(owner, WORKER)]);
    agent.finish_owner_readiness(&plan, &status, 10, &Table::new());
    assert!(!agent.runtime.get(&owner).unwrap().ready);
}

#[test]
fn detached_owner_remains_hint_source_without_scheduling_projection() {
    let owner = owner(4);
    let mut agent = StateAgent::new();
    agent.runtime.insert(
        owner,
        OwnerRuntime {
            recovered_cursor: 2,
            ready: true,
            attached_worker: Some(WORKER),
            router_hint_source: Some(23280),
            hint_ready: true,
            ..runtime(Some(7))
        },
    );
    let attached = agent.residency_routing();
    assert_eq!(attached.projection, vec![(owner, WORKER)]);
    assert_eq!(attached.hint_sources, vec![(owner, 23280, Some(WORKER))]);

    let mut state = *agent.runtime.get(&owner).unwrap();
    state.ready = false;
    state.attached_worker = None;
    state.attachment_generation = None;
    agent.runtime.insert(owner, state);
    let detached = agent.residency_routing();
    assert!(detached.projection.is_empty());
    assert_eq!(detached.hint_sources, vec![(owner, 23280, None)]);

    state.hint_ready = false;
    agent.runtime.insert(owner, state);
    assert!(agent.residency_routing().hint_sources.is_empty());
}

#[test]
fn recognized_state_source_suppresses_legacy_without_reporting_missing() {
    let source = KvEventSource {
        kv_state_endpoint: ENDPOINT,
        worker: WORKER,
        publisher_id: 41,
        recovery_target: None,
    };
    let mut view = view(KvSourceStatus::ActiveLiveOnly(source));
    view.kv_event_publishing_enabled.insert(WORKER.worker_id, true);
    view.recovery_expected.insert(WORKER, false);
    suppress_recognized(&mut view, &vec![WORKER]);
    assert_eq!(view.sources.get(&WORKER), Some(&KvSourceStatus::Suppressed));
    assert_eq!(view.sources.len(), 1);
}

#[test]
fn explicit_source_mode_suppresses_legacy_before_state_source_is_ready() {
    let worker = WorkerWithDpRank::new(7, 3);
    let mut view = view(KvSourceStatus::Missing);
    view.sources = Table::new();
    view.sources.insert(worker, KvSourceStatus::Missing);
    view.kv_event_source_mode
        .insert(worker.worker_id, "state_agent_v2".to_string());
    let recognized = source_mode_suppressed_workers(&view);
    assert_eq!(recognized, vec![worker]);
    view.kv_event_source_mode
        .insert(worker.worker_id, "future_mode".to_string());
    assert_eq!(source_mode_suppressed_workers(&view), recognized);
    view.kv_event_source_mode
        .insert(worker.worker_id, "framework_v1".to_string());
    assert!(source_mode_suppressed_workers(&view).is_empty());
}

#[test]
fn recovery_rejects_ownership_from_another_state_source() {
    let selected = owner(4);
    let other = owner(5);
    let plan = OwnerRecoveryPlan {
        attachment: None,
        recognized_worker: None,
        ..plan(selected)
    };
    let receipt = KvStateRecoveryReceipt {
        identity: identity(selected),
        attachment_generation: None,
        recovered_through_cursor: 1,
    };
    let response = |source| StateAgentResponse::StateAgentRecovery {
        response: WorkerKvQueryResponse::Events {
            events: vec![event(
                1,
                ResidencyDomain::CacheOwner,
                source,
                KvCacheEventData::Removed {
                    block_hashes: vec![7],
                },
            )],
            last_event_id: 1,
        },
        receipt,
    };
    assert_eq!(
        check_recovery_response(&plan, response(other)),
        Err(StateRecoveryError::ForeignOwnership)
    );
    let accepted = check_recovery_response(&plan, response(selected)).unwrap();
    assert_eq!(accepted.recovered_cursor, 1);
    assert!(accepted.clears.is_empty());
}

#[test]
fn recovery_answers_are_checked_before_they_are_applied() {
    let owner = owner(4);
    let plan = plan(owner);
    let receipt = KvStateRecoveryReceipt {
        identity: identity(owner),
        attachment_generation: Some(7),
        recovered_through_cursor: 12,
    };
    let dump = |scope| WorkerKvQueryResponse::TreeDump {
        events: vec![event(3, ResidencyDomain::Worker, owner, stored(3))],
        last_event_id: 11,
        reset_scope: scope,
    };
    let wrap = |response, receipt| StateAgentResponse::StateAgentRecovery { response, receipt };
    let worker_clear = StateClear::Worker {
        worker: WORKER,
        owner,
    };
    let owner_clear = StateClear::CacheOwner {
        owner,
        event_id: 11,
    };
    for (scope, clears) in [
        (ResetScope::All, vec![worker_clear, owner_clear]),
        (
            ResetScope::Domain(ResidencyDomain::CacheOwner),
            vec![owner_clear],
        ),
        (
            ResetScope::Domain(ResidencyDomain::Worker),
            vec![worker_clear],
        ),
    ] {
        let application = check_recovery_response(&plan, wrap(dump(scope), receipt)).unwrap();
        assert_eq!(application.clears, clears);
        assert_eq!(application.events.len(), 1);
        assert_eq!(application.recovered_cursor, 12);
    }
    let stale = KvStateRecoveryReceipt {
        attachment_generation: Some(6),
        ..receipt
    };
    assert_eq!(
        check_recovery_response(&plan, wrap(dump(ResetScope::All), stale)),
        Err(StateRecoveryError::ReceiptMismatch)
    );
    assert_eq!(
        check_recovery_response(&plan, StateAgentResponse::Unexpected),
        Err(StateRecoveryError::UnexpectedResponse)
    );
    assert_eq!(
        check_recovery_response(&plan, wrap(WorkerKvQueryResponse::NoState, receipt)),
        Err(StateRecoveryError::NoState)
    );
    let message = "full".to_string();
    assert_eq!(
        check_recovery_response(
            &plan,
            wrap(
                WorkerKvQueryResponse::Error {
                    message: message.clone()
                },
                receipt
            )
        ),
        Err(StateRecoveryError::Failed(message.clone()))
    );
    assert_eq!(
        check_recovery_response(
            &plan,
            wrap(
                WorkerKvQueryResponse::TreeDumpFailed {
                    last_event_id: 1,
                    message: message.clone()
                },
                receipt
            )
        ),
        Err(StateRecoveryError::SnapshotFailed(message))
    );
    assert_eq!(
        pre_recovery_clears(&plan),
        vec![StateClear::CacheOwner { owner, event_id: 0 }, worker_clear]
    );
    assert_eq!(query_worker_id(&plan), 17);
}

#[test]
fn detached_source_ignores_late_worker_events_until_reattached() {
    let owner = owner(4);
    let mut agent = StateAgent::new();
    agent.runtime.insert(owner, runtime(None));
    let late = |id| event(id, ResidencyDomain::Worker, owner, stored(id));
    assert_eq!(agent.owner_of_publisher(41), Some(owner));
    assert_eq!(agent.owner_of_publisher(40), None);
    assert!(apply(&mut agent, owner, vec![late(1)], &[]).is_empty());
    assert_eq!(agent.runtime.get(&owner).unwrap().recovered_cursor, 1);

    let mut state = *agent.runtime.get(&owner).unwrap();
    state.attachment_generation = Some(2);
    agent.runtime.insert(owner, state);
    assert_eq!(apply(&mut agent, owner, vec![late(2)], &[]), vec![2]);
}

#[test]
fn incorrectly_attributed_live_event_withdraws_detached_hint_eligibility() {
    let selected = owner(4);
    let other = owner(5);
    let mut agent = StateAgent::new();
    agent.runtime.insert(
        selected,
        OwnerRuntime {
            hint_ready: true,
            ..runtime(None)
        },
    );
    let foreign = event(
        1,
        ResidencyDomain::CacheOwner,
        other,
        KvCacheEventData::Removed {
            block_hashes: vec![7],
        },
    );
    let own = event(2, ResidencyDomain::CacheOwner, selected, stored(2));
    assert!(apply(&mut agent, selected, vec![foreign, own], &[]).is_empty());
    let state = agent.runtime.get(&selected).unwrap();
    assert!(!state.ready);
    assert!(!state.hint_ready);
    assert!(state.recovery_required);
    assert_eq!(state.recovered_cursor, 0);
    assert_eq!(agent.tail_outcome(selected), None);
}

#[test]
fn lost_clear_is_a_fault_but_a_lost_block_is_advisory() {
    let owner = owner(4);
    let own = |id, data| event(id, ResidencyDomain::CacheOwner, owner, data);
    let mut agent = StateAgent::new();
    agent.runtime.insert(owner, runtime(None));
    let events = vec![own(3, stored(3)), own(4, KvCacheEventData::Cleared), own(5, stored(5))];
    assert!(apply(&mut agent, owner, events, &[3, 4]).is_empty());
    let state = agent.runtime.get(&owner).unwrap();
    assert!(state.recovery_required);
    assert_eq!(state.recovered_cursor, 3);

    let mut state = runtime(Some(1));
    state.recovered_cursor = 3;
    assert_eq!(
        state.begin_event(owner, &own(6, stored(6))),
        StateEventStep::Apply { gap: Some(4) }
    );
    assert_eq!(
        state.begin_event(owner, &own(3, stored(3))),
        StateEventStep::Skip
    );
}

#[test]
fn advertisements_are_immutable_per_identity() {
    let advertised = source_advertisement(owner(4));
    let mut values = Table::new();
    let added = |value| DiscoveryChange::Added {
        scope: Some(ENDPOINT),
        topic: KvStateTopic::SourceV2,
        publisher_id: 41,
        value,
    };
    let mut update = |change| {
        update_advertisements(&mut values, change, ENDPOINT, KvStateTopic::SourceV2)
    };
    assert_eq!(update(added(Some(advertised))), Ok(true));
    assert_eq!(update(added(Some(advertised))), Ok(true));
    assert_eq!(update(added(None)), Err(AdvertisementError::Undecodable));
    let changed = KvStateSourceAdvertisement {
        kv_block_size: 8,
        ..advertised
    };
    assert_eq!(
        update(added(Some(changed))),
        Err(AdvertisementError::IdentityChanged)
    );
    assert_eq!(
        update(DiscoveryChange::Added {
            scope: None,
            topic: KvStateTopic::SourceV2,
            publisher_id: 9,
            value: Some(changed),
        }),
        Ok(false)
    );
    assert_eq!(update(DiscoveryChange::Unrelated), Ok(false));
    let removed = |topic| DiscoveryChange::Removed {
        scope: Some(ENDPOINT),
        topic,
        publisher_id: 41,
    };
    assert_eq!(update(removed(KvStateTopic::AttachmentV2)), Ok(false));
    assert_eq!(update(removed(KvStateTopic::SourceV2)), Ok(true));
    assert_eq!(update(removed(KvStateTopic::SourceV2)), Ok(false));
}

#[test]
fn every_field_of_an_advertisement_is_immutable() {
    let advertised = attachment_advertisement(owner(4), 7);
    let id = advertised.record_id;
    for changed in [
        KvStateAttachmentAdvertisement { producer_instance: 19, ..advertised },
        KvStateAttachmentAdvertisement { intent_incarnation: 72, ..advertised },
        KvStateAttachmentAdvertisement { raw_zmq_endpoint: 5558, ..advertised },
        KvStateAttachmentAdvertisement { raw_topic: 1, ..advertised },
        KvStateAttachmentAdvertisement { ready_at_outbound_cursor: 10, ..advertised },
    ] {
        let mut values = Table::new();
        let added = |value| DiscoveryChange::Added {
            scope: Some(ENDPOINT),
            topic: KvStateTopic::AttachmentV2,
            publisher_id: id,
            value: Some(value),
        };
        let mut update = |value| {
            update_advertisements(&mut values, added(value), ENDPOINT, KvStateTopic::AttachmentV2)
        };
        assert_eq!(update(advertised), Ok(true));
        assert_eq!(update(changed), Err(AdvertisementError::IdentityChanged));
        assert_eq!(update(advertised), Ok(true));
    }
    let source = source_advertisement(owner(4));
    let on = |topic| KvStateSourceAdvertisement { event_topic: KvStateTopic::Other(topic), ..source };
    let mut values = Table::new();
    let mut update = |value| {
        let change = DiscoveryChange::Added {
            scope: Some(ENDPOINT),
            topic: KvStateTopic::SourceV2,
            publisher_id: 41,
            value: Some(value),
        };
        update_advertisements(&mut values, change, ENDPOINT, KvStateTopic::SourceV2)
    };
    assert_eq!(update(on(8)), Ok(true));
    assert_eq!(update(on(9)), Err(AdvertisementError::IdentityChanged));
}

#[test]
fn incompatible_sources_are_not_listed() {
    let owner = owner(4);
    let good = source_advertisement(owner);
    for bad in [
        KvStateSourceAdvertisement { publisher_id: 40, ..good },
        KvStateSourceAdvertisement { kv_block_size: 8, ..good },
        KvStateSourceAdvertisement { kv_state_endpoint: 6, ..good },
        KvStateSourceAdvertisement { indexer_domain_id: 1, ..good },
        KvStateSourceAdvertisement { event_topic: KvStateTopic::Other(8), ..good },
        KvStateSourceAdvertisement { protocol_version: KvStateProtocolVersion::Other(1), ..good },
        KvStateSourceAdvertisement { ingress_protocol: KvStateIngressProtocol::Other(1), ..good },
    ] {
        let mut sources = Table::new();
        sources.insert(41, bad);
        assert!(list_owner_sources(&sources, &expectation(), owner).is_empty());
    }
    let mut sources = Table::new();
    sources.insert(41, good);
    assert_eq!(list_owner_sources(&sources, &expectation(), owner), vec![good]);
}

#[test]
fn schedule_adopts_recovers_and_retires_an_owner() {
    let owner = owner(4);
    let source = source_advertisement(owner);
    let attachment = attachment_advertisement(owner, 7);
    let mut agent = StateAgent::new();
    agent.sources.insert(41, source);
    agent.attachments.insert(attachment.record_id, attachment);
    let membership = view(KvSourceStatus::Missing);

    let (recognized, owners) = agent.begin_schedule(&membership, &expectation());
    assert_eq!(recognized, vec![WORKER]);
    assert_eq!(owners, vec![owner]);
    let step = agent.plan_known_owner(owner, &expectation(), &membership.sources, 1, 1);
    let OwnerStep::Adopt { clears, plan } = step else {
        panic!("one source is adopted");
    };
    assert_eq!(clears, vec![StateClear::Worker { worker: WORKER, owner }]);
    assert!(plan.recovery_required);
    assert_eq!(plan.recognized_worker, Some(WORKER));
    agent.adopt_owner(&plan);
    assert!(agent.residency_routing().projection.is_empty());
    assert_eq!(agent.final_recognized(recognized), vec![WORKER]);

    // Live events of the source are held back while it recovers, and of no other.
    let held = event(10, ResidencyDomain::CacheOwner, owner, stored(10));
    assert!(agent.route_events(41, vec![held]).is_none());
    let passed = event(1, ResidencyDomain::CacheOwner, owner, stored(1));
    assert_eq!(agent.route_events(40, vec![passed]).unwrap().len(), 1);
    assert!(agent.owner_recovery_is_current(&plan, &membership.sources, 1));
    assert!(!agent.owner_recovery_is_current(&plan, &membership.sources, 2));

    // A second schedule for the same incarnation keeps what was held back.
    let (_, owners) = agent.begin_schedule(&membership, &expectation());
    assert_eq!(owners, vec![owner]);
    let step = agent.plan_known_owner(owner, &expectation(), &membership.sources, 1, 2);
    let OwnerStep::Adopt { clears, plan } = step else {
        panic!("one source is adopted");
    };
    assert!(clears.is_empty());
    assert!(plan.recovery_required);
    agent.adopt_owner(&plan);
    let events = agent.take_recovery_tail(&plan, 9);
    assert_eq!(apply(&mut agent, owner, events, &[]), vec![10]);

    // Two sources compete: nobody is authoritative.
    let rival = KvStateSourceAdvertisement { publisher_id: 42, ..source };
    agent.sources.insert(42, rival);
    let (recognized, _) = agent.begin_schedule(&membership, &expectation());
    assert_eq!(recognized, vec![WORKER]);
    let step = agent.plan_known_owner(owner, &expectation(), &membership.sources, 2, 3);
    assert_eq!(step, OwnerStep::Contest);
    agent.contest_owner(owner);
    let state = agent.runtime.get(&owner).unwrap();
    assert_eq!(state.publisher_id, None);
    assert!(state.recovery_required);
    assert!(agent.recovery_tails.get(&owner).is_none());
    assert!(agent.recovering_publishers.get(&41).is_none());

    // No source is left: everything of the owner is cleared.
    agent.sources = Table::new();
    let (_, owners) = agent.begin_schedule(&membership, &expectation());
    assert_eq!(owners, vec![owner]);
    let step = agent.plan_known_owner(owner, &expectation(), &membership.sources, 2, 4);
    assert_eq!(
        step,
        OwnerStep::Retire {
            clears: vec![
                StateClear::Worker { worker: WORKER, owner },
                StateClear::CacheOwner { owner, event_id: 0 },
                StateClear::Worker { worker: WORKER, owner },
            ]
        }
    );
    agent.retire_owner(owner);
    assert!(agent.runtime.get(&owner).is_none());
}

#[test]
fn replaced_incarnation_clears_its_old_worker_and_recovers_from_zero() {
    let owner = owner(4);
    let source = KvStateSourceAdvertisement {
        publisher_id: 50,
        ..source_advertisement(owner)
    };
    let mut previous = runtime(Some(7));
    previous.recovered_cursor = 30;
    let step = plan_owner(owner, Some(previous), &vec![source], &vec![], &live(), 1, 1);
    let OwnerStep::Adopt { clears, plan } = step else {
        panic!("one source is adopted");
    };
    assert_eq!(clears, vec![StateClear::Worker { worker: WORKER, owner }]);
    assert_eq!(plan.previous_cursor, 0);
    assert_eq!(plan.previous_publisher_id, Some(41));
    assert!(plan.recovery_required);
    assert_eq!(plan.attachment, None);

    // The same incarnation on a rank that left goes without its worker.
    let source = source_advertisement(owner);
    let attachment = attachment_advertisement(owner, 7);
    let step = plan_owner(
        owner,
        Some(previous),
        &vec![source],
        &vec![attachment],
        &Table::new(),
        1,
        1,
    );
    let OwnerStep::Adopt { clears, plan } = step else {
        panic!("one source is adopted");
    };
    assert_eq!(clears, vec![StateClear::Worker { worker: WORKER, owner }]);
    assert_eq!(plan.recognized_worker, None);
    assert_eq!(plan.previous_cursor, 30);
    assert!(!plan.recovery_required);
    let mut status = KvStateAgentStatus {
        identity: identity(owner),
        attachment: None,
        cache_owner_ready: true,
        outbound_cursor: 100,
    };
    assert!(!needs_recovery(&plan, &status));
    status.outbound_cursor = 31;
    let detached = OwnerRecoveryPlan { attachment: None, ..plan };
    assert!(needs_recovery(&detached, &status));
}

#[test]
fn router_reconciles_retries_and_fails_closed() {
    let owner = owner(4);
    let mut router = StateRouter::new();
    assert_eq!(router.open_reconcile(), ReconcileGate::Idle);
    router.agent.sources.insert(41, source_advertisement(owner));
    assert_eq!(
        router.on_input(RouterInput::Advertised { changed: true }, 0),
        RouterTurn::Reconcile
    );
    assert_eq!(
        router.on_input(RouterInput::Advertised { changed: false }, 0),
        RouterTurn::Wait
    );
    assert_eq!(router.open_reconcile(), ReconcileGate::StartConsumers);
    assert_eq!(router.on_consumers_started(false, 3), Some(100));
    assert_eq!(router.on_input(RouterInput::RetryDue, 3), RouterTurn::Reconcile);
    assert_eq!(router.on_consumers_started(false, 3), Some(200));
    assert_eq!(router.on_input(RouterInput::RetryDue, 4), RouterTurn::Wait);
    assert_eq!(router.on_input(RouterInput::RetryDue, 4), RouterTurn::Wait);
    assert_eq!(router.on_consumers_started(true, 4), None);
    assert_eq!(
        router.open_reconcile(),
        ReconcileGate::Schedule { schedule_generation: 1 }
    );
    assert_eq!(router.finish_schedule(4, true), None);
    assert_eq!(router.publication_revision(true), Some(4));
    assert_eq!(router.publication_revision(false), None);
    router.on_publication_superseded();
    assert_eq!(router.publication_revision(true), None);
    assert_eq!(router.finish_schedule(4, false), Some(100));
    assert_eq!(router.on_input(RouterInput::Membership, 4), RouterTurn::Reconcile);
    assert_eq!(router.on_input(RouterInput::Observation, 4), RouterTurn::Reconcile);
    assert_eq!(router.on_input(RouterInput::StreamEnded, 4), RouterTurn::FailClosed);
    assert_eq!(router.on_input(RouterInput::Cancelled, 4), RouterTurn::Stop);
    router.next_recovery_schedule = u64::MAX;
    assert_eq!(router.open_reconcile(), ReconcileGate::Exhausted);
}

#[test]
fn finished_recovery_is_stale_failed_applied_or_settled() {
    let owner = owner(4);
    let plan = plan(owner);
    let status = KvStateAgentStatus {
        identity: identity(owner),
        attachment: None,
        cache_owner_ready: true,
        outbound_cursor: 1,
    };
    let ready_router = || {
        let mut router = StateRouter::new();
        router.agent.sources.insert(41, plan.source);
        let attachment = plan.attachment.unwrap();
        router.agent.attachments.insert(attachment.record_id, attachment);
        router.agent.adopt_owner(&plan);
        router
    };
    let initial = |status, recovery| OwnerRecoveryResult::Initial {
        plan,
        status,
        recovery,
    };

    let mut router = ready_router();
    assert_eq!(
        router.begin_finish_recovery(initial(None, None), &live(), 2),
        OwnerRecoveryStep::Stale
    );
    let result = initial(None, None);
    let fence = result.retry_fence();
    assert_eq!(result.owner(), owner);
    assert_eq!(result.publisher_id(), 41);
    assert_eq!(result.schedule_generation(), 1);
    assert!(fence.activation_expected);
    assert_eq!(
        router.begin_finish_recovery(result, &live(), 1),
        OwnerRecoveryStep::Failed
    );
    assert!(router.agent.recovery_tails.get(&owner).is_none());
    assert_eq!(router.after_recovery(owner, 41, fence), Some(100));
    assert_eq!(router.after_recovery(owner, 42, fence), None);

    let mut router = ready_router();
    assert_eq!(
        router.begin_finish_recovery(initial(Some(status), Some(None)), &live(), 1),
        OwnerRecoveryStep::Failed
    );
    let mut router = ready_router();
    assert_eq!(
        router.begin_finish_recovery(initial(Some(status), None), &live(), 1),
        OwnerRecoveryStep::Settle {
            status,
            recovered_cursor: 0
        }
    );
    assert!(matches!(
        router.begin_finish_recovery(
            initial(Some(status), Some(Some(StateAgentResponse::Unexpected))),
            &live(),
            1
        ),
        OwnerRecoveryStep::Refuse {
            error: StateRecoveryError::UnexpectedResponse,
            ..
        }
    ));
    let response = StateAgentResponse::StateAgentRecovery {
        response: WorkerKvQueryResponse::Events {
            events: vec![],
            last_event_id: 5,
        },
        receipt: KvStateRecoveryReceipt {
            identity: identity(owner),
            attachment_generation: Some(7),
            recovered_through_cursor: 4,
        },
    };
    let step = router.begin_finish_recovery(initial(Some(status), Some(Some(response))), &live(), 1);
    let OwnerRecoveryStep::Apply { application, .. } = step else {
        panic!("the answer is applied");
    };
    assert_eq!(application.recovered_cursor, 5);
    assert_eq!(
        router.begin_finish_recovery(
            OwnerRecoveryResult::PostStatus {
                plan,
                recovered_cursor: 5,
                status: Some(status)
            },
            &live(),
            1
        ),
        OwnerRecoveryStep::Settle {
            status,
            recovered_cursor: 5
        }
    );
}

#[test]
fn lowest_publisher_fences_a_failed_reconciliation() {
    let mut sources = Table::new();
    assert!(source_retry_fence(&sources, 1).is_none());
    for publisher_id in [7, 3, 9] {
        sources.insert(
            publisher_id,
            KvStateSourceAdvertisement {
                publisher_id,
                ..source_advertisement(owner(publisher_id))
            },
        );
    }
    let fence = source_retry_fence(&sources, 8).unwrap();
    assert_eq!(fence.source.publisher_id, 3);
    assert_eq!(fence.observation_revision, 8);
    assert!(!fence.activation_expected);
}

#[test]
fn observation_revision_saturates() {
    let mut revision = 4;
    assert_eq!(advance_observation_revision(&mut revision), 5);
    assert_eq!(ensure_observation_revision(revision, 5), Ok(()));
    assert_eq!(ensure_observation_revision(revision, 4), Err(Superseded));
    revision = u64::MAX;
    assert_eq!(advance_observation_revision(&mut revision), u64::MAX);
}

#[test]
fn membership_change_keeps_recognized_ranks_that_are_still_listed() {
    let mut membership = view(KvSourceStatus::Missing);
    let declared = WorkerWithDpRank::new(7, 0);
    let gone = WorkerWithDpRank::new(8, 0);
    membership.sources.insert(declared, KvSourceStatus::Missing);
    membership
        .kv_event_source_mode
        .insert(7, "state_agent_v2".to_string());
    let recognized: HashSet<(u64, u32)> = recognized_after_membership(&membership, &vec![WORKER, gone])
        .into_iter()
        .map(|worker| (worker.worker_id, worker.dp_rank))
        .collect();
    assert_eq!(recognized, HashSet::from([(7, 0), (17, 3)]));
}

#[test]
fn clears_are_device_events_of_their_domain() {
    let owner = owner(4);
    let worker_clear = StateClear::Worker {
        worker: WORKER,
        owner,
    };
    assert_eq!(
        worker_clear.event(),
        ClearEvent {
            worker_id: 17,
            dp_rank: 3,
            event_id: 0,
            storage_tier: StorageTier::Device,
            domain: ResidencyDomain::Worker,
            state_source: owner,
        }
    );
    let owner_clear = StateClear::CacheOwner { owner, event_id: 9 };
    assert_eq!(
        owner_clear.event(),
        ClearEvent {
            worker_id: 0,
            dp_rank: 0,
            event_id: 9,
            storage_tier: StorageTier::Device,
            domain: ResidencyDomain::CacheOwner,
            state_source: owner,
        }
    );
}

#[test]
fn schedule_run_withdraws_first_and_clears_before_it_adopts() {
    let owner = owner(4);
    let mut agent = StateAgent::new();
    agent.sources.insert(41, source_advertisement(owner));
    let attachment = attachment_advertisement(owner, 7);
    agent.attachments.insert(attachment.record_id, attachment);
    let mut state = runtime(Some(6));
    state.ready = true;
    agent.runtime.insert(owner, state);
    let membership = view(KvSourceStatus::Missing);

    let mut run = ScheduleRun::begin(&mut agent, &membership, expectation(), 5, 2);
    assert_eq!(run.recognized, vec![WORKER]);
    assert!(agent.residency_routing().projection.is_empty());
    assert_eq!(
        run.next(&mut agent, &membership.sources),
        ScheduleStep::Visited(owner)
    );
    assert_eq!(
        run.next(&mut agent, &membership.sources),
        ScheduleStep::Clear(StateClear::Worker {
            worker: WORKER,
            owner
        })
    );
    // Until everything is wiped, the old incarnation stands, unused.
    assert_eq!(
        agent.runtime.get(&owner).unwrap().attachment_generation,
        Some(6)
    );
    let step = run.next(&mut agent, &membership.sources);
    let ScheduleStep::Launch(plan) = step else {
        panic!("the owner is adopted: {step:?}");
    };
    assert_eq!(plan.observation_revision, 5);
    assert_eq!(plan.schedule_generation, 2);
    assert_eq!(
        agent.runtime.get(&owner).unwrap().attachment_generation,
        Some(7)
    );
    assert_eq!(run.next(&mut agent, &membership.sources), ScheduleStep::Done);
    assert_eq!(run.finish(&agent), vec![WORKER]);

    // Without a source the owner is forgotten before anything is wiped.
    agent.sources = Table::new();
    agent.attachments = Table::new();
    let mut run = ScheduleRun::begin(&mut agent, &membership, expectation(), 6, 3);
    assert_eq!(
        run.next(&mut agent, &membership.sources),
        ScheduleStep::Visited(owner)
    );
    assert!(agent.runtime.get(&owner).is_none());
    assert_eq!(
        run.next(&mut agent, &membership.sources),
        ScheduleStep::Clear(StateClear::Worker {
            worker: WORKER,
            owner
        })
    );
    assert_eq!(
        run.next(&mut agent, &membership.sources),
        ScheduleStep::Clear(StateClear::CacheOwner { owner, event_id: 0 })
    );
    assert_eq!(run.next(&mut agent, &membership.sources), ScheduleStep::Done);
}

fn recovery_answer(owner: CacheOwnerId, events: Vec<RouterEvent>) -> StateAgentResponse {
    StateAgentResponse::StateAgentRecovery {
        response: WorkerKvQueryResponse::TreeDump {
            events,
            last_event_id: 8,
            reset_scope: ResetScope::Domain(ResidencyDomain::CacheOwner),
        },
        receipt: KvStateRecoveryReceipt {
            identity: identity(owner),
            attachment_generation: Some(7),
            recovered_through_cursor: 9,
        },
    }
}

fn adopted_router(plan: &OwnerRecoveryPlan) -> StateRouter {
    let mut router = StateRouter::new();
    router.agent.sources.insert(41, plan.source);
    let attachment = plan.attachment.unwrap();
    router
        .agent
        .attachments
        .insert(attachment.record_id, attachment);
    router.agent.adopt_owner(plan);
    router
}

fn ready_status(owner: CacheOwnerId) -> KvStateAgentStatus {
    KvStateAgentStatus {
        identity: identity(owner),
        attachment: Some(KvStateAttachmentStatus {
            generation: 7,
            worker: WORKER,
            ready: true,
            ready_at_outbound_cursor: 9,
        }),
        cache_owner_ready: true,
        outbound_cursor: 11,
    }
}

#[test]
fn owner_recovery_applies_answer_and_tail_and_becomes_ready() {
    let owner = owner(4);
    let plan = plan(owner);
    let mut router = adopted_router(&plan);
    for event_id in [11, 9, 10] {
        let held = event(event_id, ResidencyDomain::CacheOwner, owner, stored(event_id));
        assert!(router.agent.route_events(41, vec![held]).is_none());
    }
    let answer = recovery_answer(
        owner,
        vec![event(8, ResidencyDomain::CacheOwner, owner, stored(8))],
    );
    let step = router.begin_finish_recovery(
        OwnerRecoveryResult::Initial {
            plan,
            status: Some(ready_status(owner)),
            recovery: Some(Some(answer)),
        },
        &live(),
        1,
    );
    let mut run = OwnerRecoveryRun::begin(plan, step).unwrap();
    let mut work = Vec::new();
    let recovered_cursor = loop {
        match run.next(&mut router.agent, &live()) {
            RecoveryWork::Clear(clear) => work.push(format!("{:?}", clear.event().domain)),
            RecoveryWork::Apply(event) => work.push(format!("apply {}", event.event_id)),
            RecoveryWork::ApplyHeldBack(held) => {
                work.push(format!("held back {} {:?}", held.event.event_id, held.gap))
            }
            RecoveryWork::Continue => continue,
            RecoveryWork::AskStatus { recovered_cursor } => break recovered_cursor,
            other => panic!("unexpected {other:?}"),
        }
        run.outcome(&mut router.agent, true);
    };
    assert_eq!(recovered_cursor, 9);
    assert_eq!(
        work,
        vec![
            "CacheOwner",
            "Worker",
            "CacheOwner",
            "apply 8",
            "held back 10 None",
            "held back 11 None",
        ]
    );
    run.outcome(&mut router.agent, true);
    assert_eq!(run.next(&mut router.agent, &live()), RecoveryWork::Done);
    assert!(router.agent.residency_routing().projection.is_empty());

    // What comes while the status is asked for is held back as well.
    let held = event(12, ResidencyDomain::CacheOwner, owner, stored(12));
    assert!(router.agent.route_events(41, vec![held]).is_none());
    let step = router.begin_finish_recovery(
        OwnerRecoveryResult::PostStatus {
            plan,
            recovered_cursor,
            status: Some(ready_status(owner)),
        },
        &live(),
        1,
    );
    let mut run = OwnerRecoveryRun::begin(plan, step).unwrap();
    assert_eq!(run.next(&mut router.agent, &live()), RecoveryWork::Continue);
    assert!(matches!(
        run.next(&mut router.agent, &live()),
        RecoveryWork::ApplyHeldBack(_)
    ));
    run.outcome(&mut router.agent, true);
    assert_eq!(
        run.next(&mut router.agent, &live()),
        RecoveryWork::Publish {
            observation_revision: 1
        }
    );
    assert_eq!(
        router.agent.residency_routing().projection,
        vec![(owner, WORKER)]
    );
    assert_eq!(router.agent.runtime.get(&owner).unwrap().recovered_cursor, 12);

    // A publication that comes too late takes it all back.
    run.outcome(&mut router.agent, false);
    assert!(router.agent.residency_routing().projection.is_empty());
    assert!(router.agent.runtime.get(&owner).unwrap().recovery_required);
}

#[test]
fn owner_recovery_fails_closed() {
    let owner = owner(4);
    let plan = plan(owner);
    let initial = |recovery| OwnerRecoveryResult::Initial {
        plan,
        status: Some(ready_status(owner)),
        recovery,
    };

    // A clear that fails.
    let mut router = adopted_router(&plan);
    let step = router.begin_finish_recovery(
        initial(Some(Some(recovery_answer(owner, vec![])))),
        &live(),
        1,
    );
    let mut run = OwnerRecoveryRun::begin(plan, step).unwrap();
    assert!(matches!(
        run.next(&mut router.agent, &live()),
        RecoveryWork::Clear(_)
    ));
    run.outcome(&mut router.agent, false);
    assert_eq!(run.next(&mut router.agent, &live()), RecoveryWork::Done);
    assert!(router.agent.runtime.get(&owner).unwrap().recovery_required);
    assert!(router.agent.recovery_tails.get(&owner).is_none());

    // An answer that is refused is wiped away all the same.
    let mut router = adopted_router(&plan);
    let step = router.begin_finish_recovery(
        initial(Some(Some(StateAgentResponse::Unexpected))),
        &live(),
        1,
    );
    let mut run = OwnerRecoveryRun::begin(plan, step).unwrap();
    for _ in 0..2 {
        assert!(matches!(
            run.next(&mut router.agent, &live()),
            RecoveryWork::Clear(_)
        ));
        run.outcome(&mut router.agent, true);
    }
    assert_eq!(run.next(&mut router.agent, &live()), RecoveryWork::Failed);
    assert!(router.agent.runtime.get(&owner).unwrap().recovery_required);

    // A held-back event of another owner rejects the tail.
    let mut router = adopted_router(&plan);
    let foreign = event(10, ResidencyDomain::CacheOwner, self::owner(9), stored(10));
    assert!(router.agent.route_events(41, vec![foreign]).is_none());
    let step = router.begin_finish_recovery(initial(None), &live(), 1);
    let mut run = OwnerRecoveryRun::begin(plan, step).unwrap();
    assert_eq!(run.next(&mut router.agent, &live()), RecoveryWork::Continue);
    assert_eq!(run.next(&mut router.agent, &live()), RecoveryWork::Failed);
    assert!(router.agent.runtime.get(&owner).unwrap().recovery_required);

    // Nothing is run for a stale result.
    let step = router.begin_finish_recovery(initial(None), &live(), 2);
    assert!(OwnerRecoveryRun::begin(plan, step).is_none());
}

#[test]
fn live_batch_reports_whether_its_owner_must_be_published_anew() {
    let owner = owner(4);
    let mut agent = StateAgent::new();
    let mut state = runtime(Some(7));
    state.ready = true;
    agent.runtime.insert(owner, state);
    assert!(LiveOwnerEvents::open(&agent, 99, vec![]).is_none());

    let good = event(1, ResidencyDomain::CacheOwner, owner, stored(1));
    let mut batch = LiveOwnerEvents::open(&agent, 41, vec![good]).unwrap();
    assert!(batch.run.next(&mut agent).is_some());
    batch.run.outcome(&mut agent, true);
    assert!(batch.run.next(&mut agent).is_none());
    assert!(!batch.changed_use(&agent));

    let foreign = event(2, ResidencyDomain::CacheOwner, self::owner(9), stored(2));
    let mut batch = LiveOwnerEvents::open(&agent, 41, vec![foreign]).unwrap();
    assert!(batch.run.next(&mut agent).is_none());
    assert!(batch.changed_use(&agent));
}

#[test]
fn declared_source_modes_extend_what_is_suppressed() {
    let mut membership = view(KvSourceStatus::Missing);
    let mut recognized = vec![WorkerWithDpRank::new(1, 0)];
    extend_recognized(&mut recognized, &membership);
    assert_eq!(recognized, vec![WorkerWithDpRank::new(1, 0)]);
    membership
        .kv_event_source_mode
        .insert(17, "state_agent_v2".to_string());
    extend_recognized(&mut recognized, &membership);
    extend_recognized(&mut recognized, &membership);
    assert_eq!(recognized, vec![WorkerWithDpRank::new(1, 0), WORKER]);
}

#[test]
fn recovery_errors_are_put_into_words() {
    assert_eq!(
        StateRecoveryError::SnapshotFailed("disk".to_string()).message(),
        "state-agent snapshot failed: disk"
    );
    assert_eq!(
        StateRecoveryError::Failed("busy".to_string()).message(),
        "state-agent recovery failed: busy"
    );
    assert_eq!(
        StateRecoveryError::NoState.message(),
        "state-agent recovery returned no applicable state"
    );
    assert_eq!(
        Superseded.message(),
        "KV state reconciliation was superseded by a newer observation"
    );
}

#[test]
fn owner_events_are_handed_over_in_ascending_order() {
    let owner = owner(4);
    let mut agent = StateAgent::new();
    agent.runtime.insert(owner, runtime(Some(7)));
    let events = [1, 3, 2, 3, 5]
        .into_iter()
        .map(|id| event(id, ResidencyDomain::CacheOwner, owner, stored(id)))
        .collect();
    assert_eq!(apply(&mut agent, owner, events, &[]), vec![1, 3, 5]);
    assert_eq!(agent.runtime.get(&owner).unwrap().recovered_cursor, 5);
}

#[test]
fn refused_projection_is_left_out_and_hints_stand() {
    let owner = owner(4);
    let mut agent = StateAgent::new();
    agent.runtime.insert(
        owner,
        OwnerRuntime {
            ready: true,
            attached_worker: Some(WORKER),
            router_hint_source: Some(23280),
            hint_ready: true,
            ..runtime(Some(7))
        },
    );
    let accepted = agent.residency_routing().projected_if(true);
    assert_eq!(accepted.projection, vec![(owner, WORKER)]);
    let refused = agent.residency_routing().projected_if(false);
    assert!(refused.projection.is_empty());
    assert_eq!(refused.hint_sources, vec![(owner, 23280, Some(WORKER))]);
}
