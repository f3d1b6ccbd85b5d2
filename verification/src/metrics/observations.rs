//! What is observed of requests and of the approximate index, before it is put on a scale.
use vstd::prelude::*;

verus! {

/// Time spent in the phases of routing one request, in nanoseconds.
#[derive(Clone, Copy, Debug, PartialEq, Eq, Structural)]
pub struct RoutingOverheadSpans {
    pub block_hashing: u64,
    pub seq_hashing: u64,
    pub indexer_find_matches: u64,
    pub shared_cache_query: Option<u64>,
    pub scheduling: u64,
    pub total: u64,
}

pub open spec fn span(end: u64, start: u64) -> u64 {
    if end >= start {
        (end - start) as u64
    } else {
        0
    }
}

/// The spans between points in time that are counted from the start of routing. A point that
/// lies before its predecessor makes an empty span.
///
/// The index and the shared cache are asked side by side, so their times are taken as measured.
pub fn routing_overhead_spans(
    hash_elapsed: u64,
    seq_hash_elapsed: u64,
    indexer_duration: u64,
    shared_cache_duration: Option<u64>,
    find_matches_elapsed: u64,
    total_elapsed: u64,
) -> (spans: RoutingOverheadSpans)
    ensures
        spans == (RoutingOverheadSpans {
            block_hashing: hash_elapsed,
            seq_hashing: span(seq_hash_elapsed, hash_elapsed),
            indexer_find_matches: indexer_duration,
            shared_cache_query: shared_cache_duration,
            scheduling: span(total_elapsed, find_matches_elapsed),
            total: total_elapsed,
        }),
{
    RoutingOverheadSpans {
        block_hashing: hash_elapsed,
        seq_hashing: seq_hash_elapsed.saturating_sub(hash_elapsed),
        indexer_find_matches: indexer_duration,
        shared_cache_query: shared_cache_duration,
        scheduling: total_elapsed.saturating_sub(find_matches_elapsed),
        total: total_elapsed,
    }
}

/// Totals of the approximate index since it started.
#[derive(Clone, Copy, Debug, PartialEq, Eq, Structural)]
pub struct ApproximateLruStats {
    pub ranks: usize,
    pub fallback_ranks: usize,
    pub resident_blocks: usize,
    pub active_blocks: usize,
    pub inactive_blocks: usize,
    pub private_blocks: usize,
    pub overcapacity_blocks: usize,
    pub leases: usize,
    pub mutation_queue_depth: usize,
    pub fallback_activations: u64,
    pub eviction_batches: u64,
    pub evicted_blocks: u64,
    pub output_batches: u64,
    pub requests: u64,
    pub request_messages: u64,
    pub mutation_wait_samples: u64,
    pub mutation_wait_ns: u64,
}

/// A mean to be observed: a sum over a count that is not zero.
#[derive(Clone, Copy, Debug, PartialEq, Eq, Structural)]
pub struct Mean {
    pub sum: u64,
    pub count: u64,
}

/// What one observation interval adds to the metrics of the approximate index.
#[derive(Clone, Copy, Debug, PartialEq, Eq, Structural)]
pub struct ApproximateLruObservation {
    pub ranks: i64,
    pub fallback_ranks: i64,
    pub resident_blocks: i64,
    pub active_blocks: i64,
    pub inactive_blocks: i64,
    pub private_blocks: i64,
    pub overcapacity_blocks: i64,
    pub leases: i64,
    pub mutation_queue_depth: i64,
    pub fallback_activations: u64,
    pub eviction_batches: u64,
    pub evicted_blocks: u64,
    pub output_batches: u64,
    /// Messages per request, where there were requests.
    pub messages_per_request: Option<Mean>,
    /// Nanoseconds waited per command, where there were samples.
    pub mutation_wait_ns: Option<Mean>,
}

/// A count as a gauge shows it: the largest value stands for all beyond it.
pub open spec fn gauge_value(count: usize) -> i64 {
    if count <= i64::MAX {
        count as i64
    } else {
        i64::MAX
    }
}

pub open spec fn interval_mean(
    sum: u64,
    previous_sum: u64,
    count: u64,
    previous_count: u64,
) -> Option<Mean> {
    if count > previous_count {
        Some(Mean { sum: span(sum, previous_sum), count: (count - previous_count) as u64 })
    } else {
        None
    }
}

pub open spec fn lru_observation(
    current: ApproximateLruStats,
    previous: ApproximateLruStats,
) -> ApproximateLruObservation {
    ApproximateLruObservation {
        ranks: gauge_value(current.ranks),
        fallback_ranks: gauge_value(current.fallback_ranks),
        resident_blocks: gauge_value(current.resident_blocks),
        active_blocks: gauge_value(current.active_blocks),
        inactive_blocks: gauge_value(current.inactive_blocks),
        private_blocks: gauge_value(current.private_blocks),
        overcapacity_blocks: gauge_value(current.overcapacity_blocks),
        leases: gauge_value(current.leases),
        mutation_queue_depth: gauge_value(current.mutation_queue_depth),
        fallback_activations: span(current.fallback_activations, previous.fallback_activations),
        eviction_batches: span(current.eviction_batches, previous.eviction_batches),
        evicted_blocks: span(current.evicted_blocks, previous.evicted_blocks),
        output_batches: span(current.output_batches, previous.output_batches),
        messages_per_request: interval_mean(
            current.request_messages,
            previous.request_messages,
            current.requests,
            previous.requests,
        ),
        mutation_wait_ns: interval_mean(
            current.mutation_wait_ns,
            previous.mutation_wait_ns,
            current.mutation_wait_samples,
            previous.mutation_wait_samples,
        ),
    }
}

fn as_gauge(count: usize) -> (value: i64)
    ensures
        value == gauge_value(count),
{
    let wide: u64 = count as u64;
    if wide <= 0x7fff_ffff_ffff_ffff {
        wide as i64
    } else {
        i64::MAX
    }
}

fn mean_over(sum: u64, previous_sum: u64, count: u64, previous_count: u64) -> (mean: Option<Mean>)
    ensures
        mean == interval_mean(sum, previous_sum, count, previous_count),
{
    let counted: u64 = count.saturating_sub(previous_count);
    if counted > 0 {
        Some(Mean { sum: sum.saturating_sub(previous_sum), count: counted })
    } else {
        None
    }
}

/// Take the next totals: what they add to those before, which they then replace.
pub fn observe_approximate_lru(
    current: ApproximateLruStats,
    previous: &mut ApproximateLruStats,
) -> (observation: ApproximateLruObservation)
    ensures
        observation == lru_observation(current, *old(previous)),
        *final(previous) == current,
{
    let before: ApproximateLruStats = *previous;
    *previous = current;
    ApproximateLruObservation {
        ranks: as_gauge(current.ranks),
        fallback_ranks: as_gauge(current.fallback_ranks),
        resident_blocks: as_gauge(current.resident_blocks),
        active_blocks: as_gauge(current.active_blocks),
        inactive_blocks: as_gauge(current.inactive_blocks),
        private_blocks: as_gauge(current.private_blocks),
        overcapacity_blocks: as_gauge(current.overcapacity_blocks),
        leases: as_gauge(current.leases),
        mutation_queue_depth: as_gauge(current.mutation_queue_depth),
        fallback_activations: current.fallback_activations.saturating_sub(
            before.fallback_activations,
        ),
        eviction_batches: current.eviction_batches.saturating_sub(before.eviction_batches),
        evicted_blocks: current.evicted_blocks.saturating_sub(before.evicted_blocks),
        output_batches: current.output_batches.saturating_sub(before.output_batches),
        messages_per_request: mean_over(
            current.request_messages,
            before.request_messages,
            current.requests,
            before.requests,
        ),
        mutation_wait_ns: mean_over(
            current.mutation_wait_ns,
            before.mutation_wait_ns,
            current.mutation_wait_samples,
            before.mutation_wait_samples,
        ),
    }
}

/// Counters of an index that only ever counts up add up over intervals: what two intervals add
/// is what one interval over both adds.
pub proof fn law_counter_intervals_add_up(first: u64, second: u64, third: u64)
    requires
        first <= second <= third,
    ensures
        span(second, first) + span(third, second) == span(third, first),
{
}

/// A mean is never taken over nothing.
pub proof fn law_means_have_samples(current: ApproximateLruStats, previous: ApproximateLruStats)
    ensures
        lru_observation(current, previous).messages_per_request is Some ==> lru_observation(
            current,
            previous,
        ).messages_per_request->0.count > 0,
        lru_observation(current, previous).mutation_wait_ns is Some ==> lru_observation(
            current,
            previous,
        ).mutation_wait_ns->0.count > 0,
{
}

/// The policies that the approximate cache knows, by label.
#[derive(Clone, Copy, Debug, PartialEq, Eq, Structural)]
pub enum CachePolicyLabel {
    Ttl,
    Lru,
    Disabled,
}

impl CachePolicyLabel {
    pub fn label(&self) -> (label: &'static str)
        ensures
            label@ == match self {
                CachePolicyLabel::Ttl => "ttl"@,
                CachePolicyLabel::Lru => "lru"@,
                CachePolicyLabel::Disabled => "disabled"@,
            },
    {
        match self {
            CachePolicyLabel::Ttl => "ttl",
            CachePolicyLabel::Lru => "lru",
            CachePolicyLabel::Disabled => "disabled",
        }
    }

    /// What the gauge of this policy shows while `chosen` is in force.
    pub fn flag(&self, chosen: CachePolicyLabel) -> (flag: i64)
        ensures
            flag == if *self == chosen {
                1i64
            } else {
                0i64
            },
    {
        if *self == chosen {
            1
        } else {
            0
        }
    }
}

/// The metrics of requests through the router.
#[derive(Clone, Copy, Debug, PartialEq, Eq, Structural)]
pub enum RequestMetric {
    RequestsStartedTotal,
    RequestsTotal,
    TimeToFirstTokenSeconds,
    InterTokenLatencySeconds,
    InputSequenceTokens,
    OutputSequenceTokens,
    KvHitRate,
    KvTransferEstimatedLatencySeconds,
    SharedCacheHitRate,
    SharedCacheBeyondBlocks,
    NonMaxOverlapSelectionsTotal,
    OverlapBlocksLost,
}

#[derive(Clone, Copy, Debug, PartialEq, Eq, Structural)]
pub enum MetricKind {
    Counter,
    Histogram,
    /// Partitioned by worker type.
    CounterVec,
    HistogramVec,
}

impl RequestMetric {
    pub open spec fn spec_suffix(self) -> Seq<char> {
        match self {
            RequestMetric::RequestsStartedTotal => "requests_started_total"@,
            RequestMetric::RequestsTotal => "requests_total"@,
            RequestMetric::TimeToFirstTokenSeconds => "time_to_first_token_seconds"@,
            RequestMetric::InterTokenLatencySeconds => "inter_token_latency_seconds"@,
            RequestMetric::InputSequenceTokens => "input_sequence_tokens"@,
            RequestMetric::OutputSequenceTokens => "output_sequence_tokens"@,
            RequestMetric::KvHitRate => "kv_hit_rate"@,
            RequestMetric::KvTransferEstimatedLatencySeconds =>
            "kv_transfer_estimated_latency_seconds"@,
            RequestMetric::SharedCacheHitRate => "shared_cache_hit_rate"@,
            RequestMetric::SharedCacheBeyondBlocks => "shared_cache_beyond_blocks"@,
            RequestMetric::NonMaxOverlapSelectionsTotal => "non_max_overlap_selections_total"@,
            RequestMetric::OverlapBlocksLost => "overlap_blocks_lost"@,
        }
    }

    pub fn suffix(&self) -> (suffix: &'static str)
        ensures
            suffix@ == self.spec_suffix(),
    {
        match self {
            RequestMetric::RequestsStartedTotal => "requests_started_total",
            RequestMetric::RequestsTotal => "requests_total",
            RequestMetric::TimeToFirstTokenSeconds => "time_to_first_token_seconds",
            RequestMetric::InterTokenLatencySeconds => "inter_token_latency_seconds",
            RequestMetric::InputSequenceTokens => "input_sequence_tokens",
            RequestMetric::OutputSequenceTokens => "output_sequence_tokens",
            RequestMetric::KvHitRate => "kv_hit_rate",
            RequestMetric::KvTransferEstimatedLatencySeconds =>
            "kv_transfer_estimated_latency_seconds",
            RequestMetric::SharedCacheHitRate => "shared_cache_hit_rate",
            RequestMetric::SharedCacheBeyondBlocks => "shared_cache_beyond_blocks",
            RequestMetric::NonMaxOverlapSelectionsTotal => "non_max_overlap_selections_total",
            RequestMetric::OverlapBlocksLost => "overlap_blocks_lost",
        }
    }

    pub fn kind(&self) -> (kind: MetricKind)
        ensures
            kind == match self {
                RequestMetric::RequestsStartedTotal | RequestMetric::RequestsTotal =>
                MetricKind::Counter,
                RequestMetric::NonMaxOverlapSelectionsTotal => MetricKind::CounterVec,
                RequestMetric::OverlapBlocksLost => MetricKind::HistogramVec,
                _ => MetricKind::Histogram,
            },
    {
        match self {
            RequestMetric::RequestsStartedTotal => MetricKind::Counter,
            RequestMetric::RequestsTotal => MetricKind::Counter,
            RequestMetric::NonMaxOverlapSelectionsTotal => MetricKind::CounterVec,
            RequestMetric::OverlapBlocksLost => MetricKind::HistogramVec,
            _ => MetricKind::Histogram,
        }
    }
}

/// No two request metrics share a name.
pub proof fn law_request_metric_names_are_distinct(left: RequestMetric, right: RequestMetric)
    requires
        left != right,
    ensures
        left.spec_suffix() != right.spec_suffix(),
{
    reveal_strlit("requests_started_total");
    reveal_strlit("requests_total");
    reveal_strlit("time_to_first_token_seconds");
    reveal_strlit("inter_token_latency_seconds");
    reveal_strlit("input_sequence_tokens");
    reveal_strlit("output_sequence_tokens");
    reveal_strlit("kv_hit_rate");
    reveal_strlit("kv_transfer_estimated_latency_seconds");
    reveal_strlit("shared_cache_hit_rate");
    reveal_strlit("shared_cache_beyond_blocks");
    reveal_strlit("non_max_overlap_selections_total");
    reveal_strlit("overlap_blocks_lost");
    let (a, b) = (left.spec_suffix(), right.spec_suffix());
    if a == b {
        assert(a.len() == b.len());
        assert(a[0] == b[0]);
        assert(a[1] == b[1]);
        assert(a[2] == b[2]);
    }
}

/// The spans of a request tile its time as far as it is measured in points: the hashing of blocks
/// and of sequences add up to the end of hashing, and scheduling runs from the end of matching to
/// the end. What was measured as a duration is shown as measured. A point before its predecessor
/// makes an empty span.
pub proof fn law_spans_tile_the_request(
    hash_elapsed: u64,
    seq_hash_elapsed: u64,
    indexer_duration: u64,
    shared_cache_duration: Option<u64>,
    find_matches_elapsed: u64,
    total_elapsed: u64,
    spans: RoutingOverheadSpans,
)
    requires
        call_ensures(
            routing_overhead_spans,
            (
                hash_elapsed,
                seq_hash_elapsed,
                indexer_duration,
                shared_cache_duration,
                find_matches_elapsed,
                total_elapsed,
            ),
            spans,
        ),
    ensures
        spans.block_hashing == hash_elapsed,
        spans.total == total_elapsed,
        spans.indexer_find_matches == indexer_duration,
        spans.shared_cache_query == shared_cache_duration,
        hash_elapsed <= seq_hash_elapsed ==> spans.block_hashing + spans.seq_hashing
            == seq_hash_elapsed,
        hash_elapsed > seq_hash_elapsed ==> spans.seq_hashing == 0,
        find_matches_elapsed <= total_elapsed ==> find_matches_elapsed + spans.scheduling
            == total_elapsed,
        find_matches_elapsed > total_elapsed ==> spans.scheduling == 0,
{
}

/// Each gauge of the approximate index shows its own total.
pub proof fn law_gauges_show_their_totals(
    current: ApproximateLruStats,
    previous: &mut ApproximateLruStats,
    observation: ApproximateLruObservation,
)
    requires
        call_ensures(observe_approximate_lru, (current, previous), observation),
    ensures
        current.ranks <= i64::MAX ==> observation.ranks == current.ranks,
        current.fallback_ranks <= i64::MAX ==> observation.fallback_ranks == current.fallback_ranks,
        current.resident_blocks <= i64::MAX ==> observation.resident_blocks
            == current.resident_blocks,
        current.active_blocks <= i64::MAX ==> observation.active_blocks == current.active_blocks,
        current.inactive_blocks <= i64::MAX ==> observation.inactive_blocks
            == current.inactive_blocks,
        current.private_blocks <= i64::MAX ==> observation.private_blocks
            == current.private_blocks,
        current.overcapacity_blocks <= i64::MAX ==> observation.overcapacity_blocks
            == current.overcapacity_blocks,
        current.leases <= i64::MAX ==> observation.leases == current.leases,
        current.mutation_queue_depth <= i64::MAX ==> observation.mutation_queue_depth
            == current.mutation_queue_depth,
        current.ranks > i64::MAX ==> observation.ranks == i64::MAX,
        current.resident_blocks > i64::MAX ==> observation.resident_blocks == i64::MAX,
        *final(previous) == current,
{
}

/// Each counter of the approximate index grows by what its own total grew since the last
/// observation, and means are taken over the requests and the samples that came since.
pub proof fn law_counters_grow_by_their_totals(
    current: ApproximateLruStats,
    previous: &mut ApproximateLruStats,
    observation: ApproximateLruObservation,
)
    requires
        call_ensures(observe_approximate_lru, (current, previous), observation),
    ensures
        ({
            let before = *old(previous);
            &&& before.fallback_activations <= current.fallback_activations
                ==> before.fallback_activations + observation.fallback_activations
                == current.fallback_activations
            &&& before.eviction_batches <= current.eviction_batches ==> before.eviction_batches
                + observation.eviction_batches == current.eviction_batches
            &&& before.evicted_blocks <= current.evicted_blocks ==> before.evicted_blocks
                + observation.evicted_blocks == current.evicted_blocks
            &&& before.output_batches <= current.output_batches ==> before.output_batches
                + observation.output_batches == current.output_batches
            &&& before.evicted_blocks > current.evicted_blocks ==> observation.evicted_blocks == 0
            &&& observation.messages_per_request is Some <==> current.requests > before.requests
            &&& observation.messages_per_request is Some ==> before.requests
                + observation.messages_per_request->0.count == current.requests
            &&& observation.messages_per_request is Some && before.request_messages
                <= current.request_messages ==> before.request_messages
                + observation.messages_per_request->0.sum == current.request_messages
            &&& observation.mutation_wait_ns is Some <==> current.mutation_wait_samples
                > before.mutation_wait_samples
            &&& observation.mutation_wait_ns is Some ==> before.mutation_wait_samples
                + observation.mutation_wait_ns->0.count == current.mutation_wait_samples
            &&& observation.mutation_wait_ns is Some && before.mutation_wait_ns
                <= current.mutation_wait_ns ==> before.mutation_wait_ns
                + observation.mutation_wait_ns->0.sum == current.mutation_wait_ns
        }),
{
}

/// Of the gauges of the policies the one of the policy in force shows one and all others zero, and
/// each policy has a label of its own.
pub proof fn law_one_policy_is_in_force(
    policy: &CachePolicyLabel,
    chosen: CachePolicyLabel,
    flag: i64,
    label: &'static str,
)
    requires
        call_ensures(CachePolicyLabel::flag, (policy, chosen), flag),
        call_ensures(CachePolicyLabel::label, (policy,), label),
    ensures
        flag == 1 <==> *policy == chosen,
        flag == 0 <==> *policy != chosen,
        *policy is Ttl ==> label@ == "ttl"@,
        *policy is Lru ==> label@ == "lru"@,
        *policy is Disabled ==> label@ == "disabled"@,
{
}

/// Each request metric has its name and its kind: totals are counters, measurements histograms,
/// and the two on overlap are partitioned by worker type.
pub proof fn law_request_metrics_are_named(
    metric: &RequestMetric,
    suffix: &'static str,
    kind: MetricKind,
)
    requires
        call_ensures(RequestMetric::suffix, (metric,), suffix),
        call_ensures(RequestMetric::kind, (metric,), kind),
    ensures
        *metric is RequestsStartedTotal ==> suffix@ == "requests_started_total"@ && kind is Counter,
        *metric is RequestsTotal ==> suffix@ == "requests_total"@ && kind is Counter,
        *metric is TimeToFirstTokenSeconds ==> suffix@ == "time_to_first_token_seconds"@ && kind
            is Histogram,
        *metric is InterTokenLatencySeconds ==> suffix@ == "inter_token_latency_seconds"@ && kind
            is Histogram,
        *metric is InputSequenceTokens ==> suffix@ == "input_sequence_tokens"@ && kind
            is Histogram,
        *metric is OutputSequenceTokens ==> suffix@ == "output_sequence_tokens"@ && kind
            is Histogram,
        *metric is KvHitRate ==> suffix@ == "kv_hit_rate"@ && kind is Histogram,
        *metric is KvTransferEstimatedLatencySeconds ==> suffix@
            == "kv_transfer_estimated_latency_seconds"@ && kind is Histogram,
        *metric is SharedCacheHitRate ==> suffix@ == "shared_cache_hit_rate"@ && kind
            is Histogram,
        *metric is SharedCacheBeyondBlocks ==> suffix@ == "shared_cache_beyond_blocks"@ && kind
            is Histogram,
        *metric is NonMaxOverlapSelectionsTotal ==> suffix@ == "non_max_overlap_selections_total"@
            && kind is CounterVec,
        *metric is OverlapBlocksLost ==> suffix@ == "overlap_blocks_lost"@ && kind is HistogramVec,
{
}

} // verus!
