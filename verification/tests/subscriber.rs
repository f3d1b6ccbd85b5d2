use kv_router::indexer::recovery::subscription::{
    legacy_mismatch_count, mismatch_count, select_ingress, subscription_failure_count,
    EventTransportKind, KvEventIngress, KvEventSourceRequirement, MismatchMetricScope, ScopeExit,
    ScopeWake, SubscribedStep, SubscriptionSupervisor, SupervisorStep,
};
use kv_router::membership::{KvEventSource, KvSourceMembershipView, KvSourceStatus};
use kv_router::protocols::WorkerWithDpRank;
use kv_router::table::Table;

fn metric_view(status: KvSourceStatus, capability: Option<bool>) -> KvSourceMembershipView {
    let worker = WorkerWithDpRank::new(7, 0);
    let mut sources = Table::new();
    sources.insert(worker, status);
    let mut publishing = Table::new();
    if let Some(enabled) = capability {
        publishing.insert(7, enabled);
    }
    let mut recovery_expected = Table::new();
    recovery_expected.insert(worker, false);
    KvSourceMembershipView {
        kv_state_endpoint: Some(1),
        sources,
        kv_event_publishing_enabled: publishing,
        kv_event_source_mode: Table::new(),
        recovery_expected,
    }
}

#[test]
fn router_mismatch_metric_is_requirement_aware() {
    let missing = metric_view(KvSourceStatus::Missing, Some(true));
    assert_eq!(mismatch_count(&missing, MismatchMetricScope::Generic), 1);
    assert_eq!(
        mismatch_count(
            &missing,
            MismatchMetricScope::Router(KvEventSourceRequirement::Unknown)
        ),
        1
    );
    assert_eq!(
        mismatch_count(
            &missing,
            MismatchMetricScope::Router(KvEventSourceRequirement::CacheAwareRouting)
        ),
        1
    );

    let worker = WorkerWithDpRank::new(7, 0);
    let active_disabled = metric_view(
        KvSourceStatus::ActiveLiveOnly(KvEventSource {
            kv_state_endpoint: 1,
            worker,
            publisher_id: 11,
            recovery_target: None,
        }),
        Some(false),
    );
    assert_eq!(
        mismatch_count(&active_disabled, MismatchMetricScope::Generic),
        0
    );
    assert_eq!(
        mismatch_count(
            &active_disabled,
            MismatchMetricScope::Router(KvEventSourceRequirement::CacheAwareRouting)
        ),
        1
    );
    assert_eq!(
        mismatch_count(
            &missing,
            MismatchMetricScope::Router(KvEventSourceRequirement::NotRequired)
        ),
        0
    );
}

#[test]
fn live_only_source_is_a_mismatch_where_recovery_is_expected() {
    let worker = WorkerWithDpRank::new(7, 0);
    let source = KvEventSource {
        kv_state_endpoint: 1,
        worker,
        publisher_id: 11,
        recovery_target: None,
    };
    let mut view = metric_view(KvSourceStatus::ActiveLiveOnly(source), None);
    assert_eq!(legacy_mismatch_count(&view), 0);
    view.recovery_expected.insert(worker, true);
    assert_eq!(legacy_mismatch_count(&view), 1);
    view.sources
        .insert(worker, KvSourceStatus::ActiveRecoverable(source));
    assert_eq!(legacy_mismatch_count(&view), 0);
    view.sources.insert(worker, KvSourceStatus::Suppressed);
    assert_eq!(legacy_mismatch_count(&view), 0);
    view.sources.insert(worker, KvSourceStatus::Ambiguous(1));
    assert_eq!(legacy_mismatch_count(&view), 1);
    assert_eq!(
        subscription_failure_count(&view, MismatchMetricScope::Generic),
        1
    );
    assert_eq!(
        subscription_failure_count(
            &view,
            MismatchMetricScope::Router(KvEventSourceRequirement::NotRequired)
        ),
        0
    );
}

#[test]
fn transport_selects_the_ingress() {
    assert_eq!(
        select_ingress(EventTransportKind::Zmq, false),
        KvEventIngress::BrokeredZmq
    );
    assert_eq!(
        select_ingress(EventTransportKind::Zmq, true),
        KvEventIngress::DirectZmq
    );
    assert_eq!(
        select_ingress(EventTransportKind::Other, false),
        KvEventIngress::Aggregated
    );
}

#[test]
fn supervisor_announces_its_start_once_and_backs_off() {
    let mut supervisor = SubscriptionSupervisor::new();
    assert_eq!(supervisor.on_subscribe_failed(), (true, 100));
    assert_eq!(supervisor.on_subscribe_failed(), (false, 200));
    assert_eq!(
        supervisor.on_subscribed(Some(1), Some(2)),
        SubscribedStep::Restart
    );
    assert_eq!(
        supervisor.on_subscribed(None, None),
        SubscribedStep::AwaitMembership {
            announce_startup: false
        }
    );
    assert_eq!(
        supervisor.on_scope_exit(ScopeExit::Retry),
        SupervisorStep::RetryAfter { delay_ms: 400 }
    );
    assert_eq!(supervisor.on_wake(ScopeWake::Envelope, 1), None);
    assert_eq!(
        supervisor.on_scope_exit(ScopeExit::Retry),
        SupervisorStep::RetryAfter { delay_ms: 100 }
    );
    assert_eq!(
        supervisor.on_scope_exit(ScopeExit::Rebind),
        SupervisorStep::Again
    );
    assert_eq!(
        supervisor.on_scope_exit(ScopeExit::Stop),
        SupervisorStep::Stop
    );
    let mut fresh = SubscriptionSupervisor::new();
    assert_eq!(
        fresh.on_subscribed(Some(1), Some(1)),
        SubscribedStep::Consume {
            announce_startup: true
        }
    );
}

#[test]
fn scope_ends_when_its_endpoint_or_stream_does() {
    let mut supervisor = SubscriptionSupervisor::new();
    let mut wake = |event| supervisor.on_wake(event, 5);
    assert_eq!(wake(ScopeWake::Cancelled), Some(ScopeExit::Stop));
    assert_eq!(wake(ScopeWake::MembershipClosed), Some(ScopeExit::Stop));
    assert_eq!(
        wake(ScopeWake::MembershipChanged { resolved: Some(5) }),
        None
    );
    assert_eq!(
        wake(ScopeWake::MembershipChanged { resolved: Some(6) }),
        Some(ScopeExit::Rebind)
    );
    assert_eq!(
        wake(ScopeWake::MembershipChanged { resolved: None }),
        Some(ScopeExit::Rebind)
    );
    assert_eq!(wake(ScopeWake::MembershipTaskEnded), Some(ScopeExit::Retry));
    assert_eq!(wake(ScopeWake::StreamEnded), Some(ScopeExit::Retry));
}

#[test]
fn other_requirements_count_as_far_as_they_need_a_source() {
    let missing = metric_view(KvSourceStatus::Missing, Some(true));
    for requires_source in [false, true] {
        let requirement = KvEventSourceRequirement::Other { requires_source };
        assert_eq!(requirement.requires_source(), requires_source);
        let scope = MismatchMetricScope::Router(requirement);
        assert_eq!(mismatch_count(&missing, scope), requires_source as usize);
        assert_eq!(subscription_failure_count(&missing, scope), 1);
    }
}
