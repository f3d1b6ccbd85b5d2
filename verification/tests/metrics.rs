use kv_router::adapters::gauges::RegistrationError;
use kv_router::metrics::observations::{
    observe_approximate_lru, routing_overhead_spans, ApproximateLruStats, CachePolicyLabel, Mean,
    MetricKind, RequestMetric,
};
use kv_router::metrics::queue::{
    register_router_queue_metrics, QueueRejection, RouterQueueMetrics,
};
use kv_router::metrics::{
    decimal, register_worker_load_metrics, registration_outcome, router_metric, MetricsError,
    RouterWorkerStatusMetrics, WorkerLoadMetrics,
};
use prometheus::{Encoder, TextEncoder};

fn gather_pef(registry: &prometheus::Registry) -> String {
    let encoder = TextEncoder::new();
    let mut buffer = Vec::new();
    encoder.encode(&registry.gather(), &mut buffer).unwrap();
    String::from_utf8(buffer).unwrap()
}

#[test]
fn test_worker_load_metrics_pef() {
    let registry = prometheus::Registry::new();
    let mut metrics = WorkerLoadMetrics::new().unwrap();
    register_worker_load_metrics(&registry, &metrics).unwrap();

    metrics.observe(123, 0, "decode", 42, 100);

    let output = gather_pef(&registry);
    let expected = "\
# HELP dynamo_frontend_worker_active_decode_blocks Active KV cache decode blocks per worker
# TYPE dynamo_frontend_worker_active_decode_blocks gauge
dynamo_frontend_worker_active_decode_blocks{dp_rank=\"0\",worker_id=\"123\",worker_type=\"decode\"} 42
# HELP dynamo_frontend_worker_active_prefill_tokens Active prefill tokens queued per worker
# TYPE dynamo_frontend_worker_active_prefill_tokens gauge
dynamo_frontend_worker_active_prefill_tokens{dp_rank=\"0\",worker_id=\"123\",worker_type=\"decode\"} 100
";
    assert_eq!(
        output, expected,
        "\nActual PEF:\n{output}\nExpected PEF:\n{expected}"
    );
}

#[test]
fn test_router_worker_status_metrics_pef() {
    let registry = prometheus::Registry::new();
    let mut metrics = RouterWorkerStatusMetrics::new().unwrap();
    metrics.register(&registry).unwrap();

    metrics.set_registered(123, 0, "decode");
    metrics.set_kv_event_source_mismatch_workers(
        "model-a", "decode", "ns-a", "decode", "generate", 2,
    );
    metrics.set_kv_event_source_mismatch_workers(
        "model-a", "prefill", "ns-a", "prefill", "generate", 0,
    );

    let output = gather_pef(&registry);
    assert!(
        output.contains(
            "dynamo_component_router_worker_registered{dp_rank=\"0\",router_worker_id=\"123\",worker_type=\"decode\"} 1"
        ),
        "\nActual PEF:\n{output}"
    );
    assert!(
        output.contains(
            "dynamo_component_router_kv_event_source_mismatch_workers{model=\"model-a\",target_component=\"decode\",target_endpoint=\"generate\",target_namespace=\"ns-a\",worker_type=\"decode\"} 2"
        ),
        "\nActual PEF:\n{output}"
    );
    assert!(
        output.contains(
            "dynamo_component_router_kv_event_source_mismatch_workers{model=\"model-a\",target_component=\"prefill\",target_endpoint=\"generate\",target_namespace=\"ns-a\",worker_type=\"prefill\"} 0"
        ),
        "\nActual PEF:\n{output}"
    );

    metrics.remove_worker(123, 0, "decode");
    let output = gather_pef(&registry);
    assert!(
        !output.contains("router_worker_id=\"123\""),
        "\nActual PEF after remove:\n{output}"
    );
    // A rank that is gone may be removed again, and nothing else changes.
    metrics.remove_worker(123, 0, "decode");
    assert_eq!(gather_pef(&registry), output);
}

#[test]
fn removing_a_rank_leaves_the_other_series() {
    let registry = prometheus::Registry::new();
    let mut status = RouterWorkerStatusMetrics::new().unwrap();
    status.register(&registry).unwrap();
    status.set_registered(123, 0, "decode");
    status.set_registered(123, 1, "decode");
    status.set_kv_event_source_mismatch_workers("m", "decode", "ns", "c", "e", 3);
    status.remove_worker(123, 0, "decode");
    let output = gather_pef(&registry);
    assert!(!output.contains("dp_rank=\"0\""));
    assert!(output.contains(
        "router_worker_registered{dp_rank=\"1\",router_worker_id=\"123\",worker_type=\"decode\"} 1"
    ));
    assert!(output.contains("worker_type=\"decode\"} 3"));
}

#[test]
fn load_of_a_removed_rank_is_not_shown() {
    let registry = prometheus::Registry::new();
    let mut metrics = WorkerLoadMetrics::new().unwrap();
    register_worker_load_metrics(&registry, &metrics).unwrap();
    metrics.observe(7, 0, "prefill", 1, 2);
    metrics.observe(7, 1, "prefill", 3, 4);
    metrics.remove_worker(7, 0, "prefill");
    metrics.remove_worker(8, 0, "prefill");
    let expected = "\
# HELP dynamo_frontend_worker_active_decode_blocks Active KV cache decode blocks per worker
# TYPE dynamo_frontend_worker_active_decode_blocks gauge
dynamo_frontend_worker_active_decode_blocks{dp_rank=\"1\",worker_id=\"7\",worker_type=\"prefill\"} 3
# HELP dynamo_frontend_worker_active_prefill_tokens Active prefill tokens queued per worker
# TYPE dynamo_frontend_worker_active_prefill_tokens gauge
dynamo_frontend_worker_active_prefill_tokens{dp_rank=\"1\",worker_id=\"7\",worker_type=\"prefill\"} 4
";
    assert_eq!(gather_pef(&registry), expected);
}

#[test]
fn test_router_queue_metrics_pef() {
    let registry = prometheus::Registry::new();
    let mut metrics = RouterQueueMetrics::new().unwrap();
    register_router_queue_metrics(&registry, &metrics).unwrap();

    let handles = metrics.handles("model", "decode", "default");
    metrics.set_pending(&handles, 5, 1024, 512);

    let output = gather_pef(&registry);
    let expected = "\
# HELP dynamo_frontend_router_queue_backpressure_total Total number of router scheduler queue backpressure rejections
# TYPE dynamo_frontend_router_queue_backpressure_total counter
dynamo_frontend_router_queue_backpressure_total{model=\"model\",policy_class=\"default\",reason=\"cached_token_limit\",worker_type=\"decode\"} 0
dynamo_frontend_router_queue_backpressure_total{model=\"model\",policy_class=\"default\",reason=\"raw_isl_token_limit\",worker_type=\"decode\"} 0
dynamo_frontend_router_queue_backpressure_total{model=\"model\",policy_class=\"default\",reason=\"request_limit\",worker_type=\"decode\"} 0
# HELP dynamo_frontend_router_queue_pending_cached_tokens Estimated cached tokens for requests pending in the router scheduler queue
# TYPE dynamo_frontend_router_queue_pending_cached_tokens gauge
dynamo_frontend_router_queue_pending_cached_tokens{model=\"model\",policy_class=\"default\",worker_type=\"decode\"} 512
# HELP dynamo_frontend_router_queue_pending_isl_tokens Sum of isl_tokens for requests pending in the router scheduler queue
# TYPE dynamo_frontend_router_queue_pending_isl_tokens gauge
dynamo_frontend_router_queue_pending_isl_tokens{model=\"model\",policy_class=\"default\",worker_type=\"decode\"} 1024
# HELP dynamo_frontend_router_queue_pending_requests Number of requests pending in the router scheduler queue
# TYPE dynamo_frontend_router_queue_pending_requests gauge
dynamo_frontend_router_queue_pending_requests{model=\"model\",policy_class=\"default\",worker_type=\"decode\"} 5
";
    assert_eq!(
        output, expected,
        "\nActual PEF:\n{output}\nExpected PEF:\n{expected}"
    );
}

#[test]
fn a_queue_counts_its_rejections_by_reason() {
    let registry = prometheus::Registry::new();
    let mut metrics = RouterQueueMetrics::new().unwrap();
    register_router_queue_metrics(&registry, &metrics).unwrap();
    let handles = metrics.handles("m", "decode", "gold");
    assert!(gather_pef(&registry).contains(
        "router_queue_pending_requests{model=\"m\",policy_class=\"gold\",worker_type=\"decode\"} 0"
    ));
    metrics.count_rejection(&handles, QueueRejection::RequestLimit);
    metrics.count_rejection(&handles, QueueRejection::CachedTokenLimit);
    metrics.count_rejection(&handles.clone(), QueueRejection::CachedTokenLimit);
    // Asking for the same queue again keeps its counts.
    let _ = metrics.handles("m", "decode", "gold");
    let output = gather_pef(&registry);
    for (reason, count) in [
        (QueueRejection::RequestLimit, 1),
        (QueueRejection::RawIslTokenLimit, 0),
        (QueueRejection::CachedTokenLimit, 2),
    ] {
        let line = format!(
            "router_queue_backpressure_total{{model=\"m\",policy_class=\"gold\",reason=\"{}\",worker_type=\"decode\"}} {count}\n",
            reason.reason()
        );
        assert!(output.contains(&line), "\nActual PEF:\n{output}");
    }
}

#[test]
fn a_refusal_is_passed_on() {
    assert_eq!(registration_outcome(None), Ok(()));
    assert_eq!(
        registration_outcome(Some(RegistrationError::Message("taken".to_string()))),
        Err(MetricsError::Registration(RegistrationError::Message(
            "taken".to_string()
        )))
    );
    assert_eq!(
        registration_outcome(Some(RegistrationError::InconsistentCardinality {
            expect: 3,
            got: 2
        })),
        Err(MetricsError::Registration(
            RegistrationError::InconsistentCardinality { expect: 3, got: 2 }
        ))
    );
}

#[test]
fn registering_twice_is_refused() {
    let refused = Err(MetricsError::Registration(
        RegistrationError::AlreadyRegistered,
    ));
    let registry = prometheus::Registry::new();
    let metrics = WorkerLoadMetrics::new().unwrap();
    assert_eq!(register_worker_load_metrics(&registry, &metrics), Ok(()));
    assert_eq!(register_worker_load_metrics(&registry, &metrics), refused);
    let status = RouterWorkerStatusMetrics::new().unwrap();
    assert_eq!(status.register(&registry), Ok(()));
    assert_eq!(status.register(&registry), refused);
    let queue = RouterQueueMetrics::new().unwrap();
    assert_eq!(register_router_queue_metrics(&registry, &queue), Ok(()));
    assert_eq!(register_router_queue_metrics(&registry, &queue), refused);
}

#[test]
fn a_name_that_stands_for_another_family_is_refused_in_words() {
    let name = "dynamo_frontend_worker_active_prefill_tokens";
    let labels = ["worker_id", "dp_rank", "worker_type"];
    let registry = prometheus::Registry::new();
    let options = prometheus::Opts::new(name, "Another help text").const_label("site", "a");
    let other = prometheus::IntGaugeVec::new(options, &labels).unwrap();
    registry.register(Box::new(other)).unwrap();
    let mut metrics = WorkerLoadMetrics::new().unwrap();
    let refusal = register_worker_load_metrics(&registry, &metrics);
    assert!(matches!(
        refusal,
        Err(MetricsError::Registration(RegistrationError::Message(_)))
    ));
    // The first family was taken before the second was refused.
    metrics.observe(1, 0, "decode", 2, 3);
    let output = gather_pef(&registry);
    assert!(output.contains("worker_active_decode_blocks{"));
    assert!(!output.contains("worker_active_prefill_tokens{"));
}

#[test]
fn test_routing_overhead_saturating_sub() {
    // Out-of-order cumulative durations: each phase < previous.
    let spans = routing_overhead_spans(10, 5, 4, None, 3, 1);
    assert_eq!(spans.block_hashing, 10);
    assert_eq!(spans.seq_hashing, 0);
    assert_eq!(spans.indexer_find_matches, 4);
    assert_eq!(spans.shared_cache_query, None);
    assert_eq!(spans.scheduling, 0);
    assert_eq!(spans.total, 1);
    let spans = routing_overhead_spans(1, 3, 4, Some(2), 8, 20);
    assert_eq!(spans.seq_hashing, 2);
    assert_eq!(spans.scheduling, 12);
    assert_eq!(spans.shared_cache_query, Some(2));
}

fn stats() -> ApproximateLruStats {
    ApproximateLruStats {
        ranks: 1,
        fallback_ranks: 2,
        resident_blocks: 3,
        active_blocks: 4,
        inactive_blocks: 5,
        private_blocks: 6,
        overcapacity_blocks: 7,
        leases: 8,
        mutation_queue_depth: 9,
        fallback_activations: 10,
        eviction_batches: 11,
        evicted_blocks: 12,
        output_batches: 13,
        requests: 14,
        request_messages: 30,
        mutation_wait_samples: 5,
        mutation_wait_ns: 1000,
    }
}

#[test]
fn lru_observation_counts_what_was_added() {
    let mut previous = stats();
    let current = ApproximateLruStats {
        evicted_blocks: 20,
        eviction_batches: 3,
        requests: 16,
        request_messages: 36,
        leases: usize::MAX,
        ..stats()
    };
    let observation = observe_approximate_lru(current, &mut previous);
    assert_eq!(previous, current);
    assert_eq!(observation.evicted_blocks, 8);
    assert_eq!(observation.eviction_batches, 0);
    assert_eq!(observation.resident_blocks, 3);
    assert_eq!(observation.leases, i64::MAX);
    assert_eq!(
        observation.messages_per_request,
        Some(Mean { sum: 6, count: 2 })
    );
    assert_eq!(observation.mutation_wait_ns, None);
}

#[test]
fn names_and_labels_are_spelled_out() {
    assert_eq!(router_metric("requests_total"), "router_requests_total");
    assert_eq!(RequestMetric::KvHitRate.suffix(), "kv_hit_rate");
    assert_eq!(RequestMetric::KvHitRate.kind(), MetricKind::Histogram);
    assert_eq!(RequestMetric::RequestsTotal.kind(), MetricKind::Counter);
    assert_eq!(
        RequestMetric::NonMaxOverlapSelectionsTotal.kind(),
        MetricKind::CounterVec
    );
    for value in [0, 7, 10, 42, 1_000_000, u64::MAX] {
        assert_eq!(decimal(value), value.to_string());
    }
    for policy in [
        CachePolicyLabel::Ttl,
        CachePolicyLabel::Lru,
        CachePolicyLabel::Disabled,
    ] {
        assert_eq!(policy.flag(policy), 1);
    }
    assert_eq!(CachePolicyLabel::Lru.flag(CachePolicyLabel::Ttl), 0);
    assert_eq!(CachePolicyLabel::Disabled.label(), "disabled");
}
