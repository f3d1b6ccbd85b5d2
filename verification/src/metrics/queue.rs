//! Requests that wait in the scheduler's queue, and those that it turned away.
use vstd::prelude::*;
use vstd::string::*;

use super::{
    is_refusal, label_names3, lemma_identifier, lemma_joined_identifier, make_family,
    registration_outcome, starts_with_name_chars, MetricsError, FRONTEND_PREFIX,
};
use crate::adapters::gauges::{
    count_one, counted_once, counter_header, counters, counters_taken, families_taken,
    family_header, family_is_valid, gauges, label_key, label_texts, new_counter_family,
    register_counters, register_family, set_gauge, touch_counter, touch_gauge, with_counter,
    with_gauge, CounterFamily, GaugeFamily,
};

verus! {

pub const PENDING_REQUESTS: &'static str = "router_queue_pending_requests";

pub const PENDING_REQUESTS_HELP: &'static str = "Number of requests pending in the router scheduler queue";

pub const PENDING_ISL_TOKENS: &'static str = "router_queue_pending_isl_tokens";

pub const PENDING_ISL_TOKENS_HELP: &'static str = "Sum of isl_tokens for requests pending in the router scheduler queue";

pub const PENDING_CACHED_TOKENS: &'static str = "router_queue_pending_cached_tokens";

pub const PENDING_CACHED_TOKENS_HELP: &'static str = "Estimated cached tokens for requests pending in the router scheduler queue";

pub const BACKPRESSURE: &'static str = "router_queue_backpressure_total";

pub const BACKPRESSURE_HELP: &'static str = "Total number of router scheduler queue backpressure rejections";

/// Why the queue turned a request away.
#[derive(Debug, Clone, Copy, PartialEq, Eq)]
pub enum QueueRejection {
    RequestLimit,
    RawIslTokenLimit,
    CachedTokenLimit,
}

impl QueueRejection {
    pub open spec fn reason_text(self) -> Seq<char> {
        match self {
            QueueRejection::RequestLimit => "request_limit"@,
            QueueRejection::RawIslTokenLimit => "raw_isl_token_limit"@,
            QueueRejection::CachedTokenLimit => "cached_token_limit"@,
        }
    }

    /// The label value of the reason.
    pub fn reason(self) -> (text: &'static str)
        ensures
            text@ == self.reason_text(),
    {
        match self {
            QueueRejection::RequestLimit => "request_limit",
            QueueRejection::RawIslTokenLimit => "raw_isl_token_limit",
            QueueRejection::CachedTokenLimit => "cached_token_limit",
        }
    }
}

/// The series of one queue: that of a model, a worker type and a policy class.
#[derive(Debug, Clone)]
pub struct RouterQueueMetricHandles {
    model: String,
    worker_type: String,
    policy_class: String,
}

impl View for RouterQueueMetricHandles {
    type V = Seq<Seq<char>>;

    closed spec fn view(&self) -> Seq<Seq<char>> {
        seq![self.model@, self.worker_type@, self.policy_class@]
    }
}

impl RouterQueueMetricHandles {
    fn labels(&self) -> (labels: Vec<String>)
        ensures
            labels@.len() == 3,
            label_texts(labels@) == self@,
    {
        label_names3(self.model.as_str(), self.worker_type.as_str(), self.policy_class.as_str())
    }

    /// The labels, with the reason of a rejection behind them.
    fn with_reason(&self, rejection: QueueRejection) -> (labels: Vec<String>)
        ensures
            labels@.len() == 4,
            label_texts(labels@) == self@.push(rejection.reason_text()),
    {
        let mut labels = self.labels();
        labels.push(rejection.reason().to_owned());
        proof {
            assert(label_texts(labels@) =~= self@.push(rejection.reason_text()));
        }
        labels
    }
}

/// The key of the count of a queue's rejections for a reason.
pub open spec fn rejection_key(queue: Seq<Seq<char>>, rejection: QueueRejection) -> u64 {
    label_key(queue.push(rejection.reason_text()))
}

/// What waits in each queue, and how many requests it turned away.
pub struct RouterQueueMetrics {
    pending_requests: GaugeFamily,
    pending_isl_tokens: GaugeFamily,
    pending_cached_tokens: GaugeFamily,
    backpressure_total: CounterFamily,
}

impl RouterQueueMetrics {
    /// The label names of the gauges.
    pub open spec fn labels() -> Seq<Seq<char>> {
        seq!["model"@, "worker_type"@, "policy_class"@]
    }

    /// The label names of the count of rejections.
    pub open spec fn rejection_labels() -> Seq<Seq<char>> {
        seq!["model"@, "worker_type"@, "policy_class"@, "reason"@]
    }

    /// The families stand under their names, with their help texts and labels.
    pub closed spec fn wf(&self) -> bool {
        &&& family_header(self.pending_requests) == (
            FRONTEND_PREFIX@ + PENDING_REQUESTS@,
            PENDING_REQUESTS_HELP@,
            RouterQueueMetrics::labels(),
        )
        &&& family_header(self.pending_isl_tokens) == (
            FRONTEND_PREFIX@ + PENDING_ISL_TOKENS@,
            PENDING_ISL_TOKENS_HELP@,
            RouterQueueMetrics::labels(),
        )
        &&& family_header(self.pending_cached_tokens) == (
            FRONTEND_PREFIX@ + PENDING_CACHED_TOKENS@,
            PENDING_CACHED_TOKENS_HELP@,
            RouterQueueMetrics::labels(),
        )
        &&& counter_header(self.backpressure_total) == (
            FRONTEND_PREFIX@ + BACKPRESSURE@,
            BACKPRESSURE_HELP@,
            RouterQueueMetrics::rejection_labels(),
        )
    }

    /// The families of pending requests, of their input tokens and of their cached tokens.
    pub closed spec fn gauge_families(&self) -> (GaugeFamily, GaugeFamily, GaugeFamily) {
        (self.pending_requests, self.pending_isl_tokens, self.pending_cached_tokens)
    }

    /// The family of the counts of rejections.
    pub closed spec fn counter_family(&self) -> CounterFamily {
        self.backpressure_total
    }

    /// The pending requests that are shown, by key.
    pub closed spec fn requests(&self) -> Map<u64, i64> {
        gauges(self.pending_requests)
    }

    /// The input tokens of pending requests that are shown, by key.
    pub closed spec fn isl_tokens(&self) -> Map<u64, i64> {
        gauges(self.pending_isl_tokens)
    }

    /// The cached tokens of pending requests that are shown, by key.
    pub closed spec fn cached_tokens(&self) -> Map<u64, i64> {
        gauges(self.pending_cached_tokens)
    }

    /// The counts of rejections, by key.
    pub closed spec fn rejections(&self) -> Map<u64, u64> {
        counters(self.backpressure_total)
    }

    /// Whether a registry took these very families.
    pub closed spec fn taken_by(&self, registry: prometheus::Registry) -> bool {
        &&& families_taken(registry).contains(self.pending_requests)
        &&& families_taken(registry).contains(self.pending_isl_tokens)
        &&& families_taken(registry).contains(self.pending_cached_tokens)
        &&& counters_taken(registry).contains(self.backpressure_total)
    }

    pub fn new() -> (metrics: Result<Self, MetricsError>)
        ensures
            metrics is Ok,
            metrics->Ok_0.wf(),
            metrics->Ok_0.requests() == Map::<u64, i64>::empty(),
            metrics->Ok_0.isl_tokens() == Map::<u64, i64>::empty(),
            metrics->Ok_0.cached_tokens() == Map::<u64, i64>::empty(),
            metrics->Ok_0.rejections() == Map::<u64, u64>::empty(),
    {
        proof {
            lemma_queue_families();
        }
        let labels = label_names3("model", "worker_type", "policy_class");
        let pending_requests = match make_family(
            FRONTEND_PREFIX.to_owned().concat(PENDING_REQUESTS),
            PENDING_REQUESTS_HELP,
            &labels,
        ) {
            Ok(family) => family,
            Err(error) => return Err(error),
        };
        let pending_isl_tokens = match make_family(
            FRONTEND_PREFIX.to_owned().concat(PENDING_ISL_TOKENS),
            PENDING_ISL_TOKENS_HELP,
            &labels,
        ) {
            Ok(family) => family,
            Err(error) => return Err(error),
        };
        let pending_cached_tokens = match make_family(
            FRONTEND_PREFIX.to_owned().concat(PENDING_CACHED_TOKENS),
            PENDING_CACHED_TOKENS_HELP,
            &labels,
        ) {
            Ok(family) => family,
            Err(error) => return Err(error),
        };
        let mut rejection_labels = labels;
        rejection_labels.push("reason".to_owned());
        proof {
            assert(label_texts(rejection_labels@) =~= RouterQueueMetrics::rejection_labels());
        }
        let name = FRONTEND_PREFIX.to_owned().concat(BACKPRESSURE);
        match new_counter_family(name.as_str(), BACKPRESSURE_HELP, &rejection_labels) {
            Ok(backpressure_total) => {
                let metrics = RouterQueueMetrics {
                    pending_requests,
                    pending_isl_tokens,
                    pending_cached_tokens,
                    backpressure_total,
                };
                proof {
                    assert(metrics.rejections() =~= Map::<u64, u64>::empty());
                }
                Ok(metrics)
            },
            Err(_) => Err(MetricsError::Invalid),
        }
    }

    /// The series of a queue. Those that are not there yet are shown at zero from now on.
    pub fn handles(&mut self, model: &str, worker_type: &str, policy_class: &str) -> (handles:
        RouterQueueMetricHandles)
        requires
            old(self).wf(),
        ensures
            final(self).wf(),
            handles@ == seq![model@, worker_type@, policy_class@],
            final(self).requests() == with_gauge(old(self).requests(), label_key(handles@)),
            final(self).isl_tokens() == with_gauge(old(self).isl_tokens(), label_key(handles@)),
            final(self).cached_tokens() == with_gauge(
                old(self).cached_tokens(),
                label_key(handles@),
            ),
            final(self).rejections() == with_counter(
                with_counter(
                    with_counter(
                        old(self).rejections(),
                        rejection_key(handles@, QueueRejection::RequestLimit),
                    ),
                    rejection_key(handles@, QueueRejection::RawIslTokenLimit),
                ),
                rejection_key(handles@, QueueRejection::CachedTokenLimit),
            ),
            forall|registry: prometheus::Registry| #[trigger]
                final(self).taken_by(registry) == old(self).taken_by(registry),
    {
        let handles = RouterQueueMetricHandles {
            model: model.to_owned(),
            worker_type: worker_type.to_owned(),
            policy_class: policy_class.to_owned(),
        };
        let labels = handles.labels();
        touch_gauge(&mut self.pending_requests, &labels);
        touch_gauge(&mut self.pending_isl_tokens, &labels);
        touch_gauge(&mut self.pending_cached_tokens, &labels);
        touch_counter(
            &mut self.backpressure_total,
            &handles.with_reason(QueueRejection::RequestLimit),
        );
        touch_counter(
            &mut self.backpressure_total,
            &handles.with_reason(QueueRejection::RawIslTokenLimit),
        );
        touch_counter(
            &mut self.backpressure_total,
            &handles.with_reason(QueueRejection::CachedTokenLimit),
        );
        handles
    }

    /// Show what waits in a queue.
    pub fn set_pending(
        &mut self,
        handles: &RouterQueueMetricHandles,
        requests: i64,
        isl_tokens: i64,
        cached_tokens: i64,
    )
        requires
            old(self).wf(),
        ensures
            final(self).wf(),
            final(self).requests() == old(self).requests().insert(label_key(handles@), requests),
            final(self).isl_tokens() == old(self).isl_tokens().insert(
                label_key(handles@),
                isl_tokens,
            ),
            final(self).cached_tokens() == old(self).cached_tokens().insert(
                label_key(handles@),
                cached_tokens,
            ),
            final(self).rejections() == old(self).rejections(),
            forall|registry: prometheus::Registry| #[trigger]
                final(self).taken_by(registry) == old(self).taken_by(registry),
    {
        let labels = handles.labels();
        set_gauge(&mut self.pending_requests, &labels, requests);
        set_gauge(&mut self.pending_isl_tokens, &labels, isl_tokens);
        set_gauge(&mut self.pending_cached_tokens, &labels, cached_tokens);
    }

    /// Count a request that a queue turned away.
    pub fn count_rejection(
        &mut self,
        handles: &RouterQueueMetricHandles,
        rejection: QueueRejection,
    )
        requires
            old(self).wf(),
        ensures
            final(self).wf(),
            ({
                let key = rejection_key(handles@, rejection);
                let before = with_counter(old(self).rejections(), key);
                final(self).rejections() == before.insert(key, counted_once(before[key]))
            }),
            final(self).requests() == old(self).requests(),
            final(self).isl_tokens() == old(self).isl_tokens(),
            final(self).cached_tokens() == old(self).cached_tokens(),
            forall|registry: prometheus::Registry| #[trigger]
                final(self).taken_by(registry) == old(self).taken_by(registry),
    {
        count_one(&mut self.backpressure_total, &handles.with_reason(rejection));
    }
}

/// Offer the queue metrics to a registry, one family after the other until one is refused.
/// Success means that it took all four; whether it does depends on what else it holds.
pub fn register_router_queue_metrics(
    registry: &prometheus::Registry,
    metrics: &RouterQueueMetrics,
) -> (done: Result<(), MetricsError>)
    ensures
        done is Ok ==> metrics.taken_by(*registry),
        done is Err ==> is_refusal(done->Err_0),
{
    if let Err(error) = register_family(registry, &metrics.pending_requests) {
        return registration_outcome(Some(error));
    }
    if let Err(error) = register_family(registry, &metrics.pending_isl_tokens) {
        return registration_outcome(Some(error));
    }
    if let Err(error) = register_family(registry, &metrics.pending_cached_tokens) {
        return registration_outcome(Some(error));
    }
    registration_outcome(register_counters(registry, &metrics.backpressure_total).err())
}

proof fn lemma_queue_families()
    ensures
        family_is_valid(
            FRONTEND_PREFIX@ + PENDING_REQUESTS@,
            PENDING_REQUESTS_HELP@,
            RouterQueueMetrics::labels(),
        ),
        family_is_valid(
            FRONTEND_PREFIX@ + PENDING_ISL_TOKENS@,
            PENDING_ISL_TOKENS_HELP@,
            RouterQueueMetrics::labels(),
        ),
        family_is_valid(
            FRONTEND_PREFIX@ + PENDING_CACHED_TOKENS@,
            PENDING_CACHED_TOKENS_HELP@,
            RouterQueueMetrics::labels(),
        ),
        family_is_valid(
            FRONTEND_PREFIX@ + BACKPRESSURE@,
            BACKPRESSURE_HELP@,
            RouterQueueMetrics::rejection_labels(),
        ),
{
    reveal_strlit("dynamo_frontend_");
    reveal_strlit("router_queue_pending_requests");
    reveal_strlit("router_queue_pending_isl_tokens");
    reveal_strlit("router_queue_pending_cached_tokens");
    reveal_strlit("router_queue_backpressure_total");
    reveal_strlit("Number of requests pending in the router scheduler queue");
    reveal_strlit("Sum of isl_tokens for requests pending in the router scheduler queue");
    reveal_strlit("Estimated cached tokens for requests pending in the router scheduler queue");
    reveal_strlit("Total number of router scheduler queue backpressure rejections");
    reveal_strlit("model");
    reveal_strlit("worker_type");
    reveal_strlit("policy_class");
    reveal_strlit("reason");
    reveal_with_fuel(starts_with_name_chars, 35);
    lemma_joined_identifier(FRONTEND_PREFIX@, PENDING_REQUESTS@);
    lemma_joined_identifier(FRONTEND_PREFIX@, PENDING_ISL_TOKENS@);
    lemma_joined_identifier(FRONTEND_PREFIX@, PENDING_CACHED_TOKENS@);
    lemma_joined_identifier(FRONTEND_PREFIX@, BACKPRESSURE@);
    lemma_identifier("model"@);
    lemma_identifier("worker_type"@);
    lemma_identifier("policy_class"@);
    lemma_identifier("reason"@);
}

/// Each reason for which a queue turns a request away has a label value of its own.
pub proof fn law_rejection_reasons_are_named(rejection: QueueRejection, text: &'static str)
    requires
        call_ensures(QueueRejection::reason, (rejection,), text),
    ensures
        rejection is RequestLimit ==> text@ == "request_limit"@,
        rejection is RawIslTokenLimit ==> text@ == "raw_isl_token_limit"@,
        rejection is CachedTokenLimit ==> text@ == "cached_token_limit"@,
{
}

/// The queue metrics stand under their names, labelled by model, worker type and policy class, the
/// rejections by their reason as well; and what is shown of each is what it holds.
pub proof fn law_queue_metrics_stand_under_their_names(metrics: RouterQueueMetrics)
    requires
        metrics.wf(),
    ensures
        family_header(metrics.gauge_families().0).0
            == "dynamo_frontend_router_queue_pending_requests"@,
        family_header(metrics.gauge_families().1).0
            == "dynamo_frontend_router_queue_pending_isl_tokens"@,
        family_header(metrics.gauge_families().2).0
            == "dynamo_frontend_router_queue_pending_cached_tokens"@,
        counter_header(metrics.counter_family()).0
            == "dynamo_frontend_router_queue_backpressure_total"@,
        family_header(metrics.gauge_families().0).2 == seq![
            "model"@,
            "worker_type"@,
            "policy_class"@,
        ],
        family_header(metrics.gauge_families().1).2 == seq![
            "model"@,
            "worker_type"@,
            "policy_class"@,
        ],
        family_header(metrics.gauge_families().2).2 == seq![
            "model"@,
            "worker_type"@,
            "policy_class"@,
        ],
        counter_header(metrics.counter_family()).2 == seq![
            "model"@,
            "worker_type"@,
            "policy_class"@,
            "reason"@,
        ],
        metrics.requests() == gauges(metrics.gauge_families().0),
        metrics.isl_tokens() == gauges(metrics.gauge_families().1),
        metrics.cached_tokens() == gauges(metrics.gauge_families().2),
        metrics.rejections() == counters(metrics.counter_family()),
{
    reveal_strlit("dynamo_frontend_");
    reveal_strlit("router_queue_pending_requests");
    reveal_strlit("router_queue_pending_isl_tokens");
    reveal_strlit("router_queue_pending_cached_tokens");
    reveal_strlit("router_queue_backpressure_total");
    reveal_strlit("dynamo_frontend_router_queue_pending_requests");
    reveal_strlit("dynamo_frontend_router_queue_pending_isl_tokens");
    reveal_strlit("dynamo_frontend_router_queue_pending_cached_tokens");
    reveal_strlit("dynamo_frontend_router_queue_backpressure_total");
    assert(FRONTEND_PREFIX@ + PENDING_REQUESTS@
        =~= "dynamo_frontend_router_queue_pending_requests"@);
    assert(FRONTEND_PREFIX@ + PENDING_ISL_TOKENS@
        =~= "dynamo_frontend_router_queue_pending_isl_tokens"@);
    assert(FRONTEND_PREFIX@ + PENDING_CACHED_TOKENS@
        =~= "dynamo_frontend_router_queue_pending_cached_tokens"@);
    assert(FRONTEND_PREFIX@ + BACKPRESSURE@
        =~= "dynamo_frontend_router_queue_backpressure_total"@);
}

/// New queue metrics show nothing and are in order, and what a registry accepted it took.
pub proof fn law_new_queue_metrics_show_nothing(
    made: Result<RouterQueueMetrics, MetricsError>,
    key: u64,
    registry: &prometheus::Registry,
    metrics: &RouterQueueMetrics,
    taken: Result<(), MetricsError>,
)
    requires
        call_ensures(RouterQueueMetrics::new, (), made),
        call_ensures(register_router_queue_metrics, (registry, metrics), taken),
    ensures
        made is Ok && made->Ok_0.wf(),
        !made->Ok_0.requests().dom().contains(key),
        !made->Ok_0.isl_tokens().dom().contains(key),
        !made->Ok_0.cached_tokens().dom().contains(key),
        !made->Ok_0.rejections().dom().contains(key),
        taken is Ok ==> families_taken(*registry).contains(metrics.gauge_families().0)
            && families_taken(*registry).contains(metrics.gauge_families().1)
            && families_taken(*registry).contains(metrics.gauge_families().2)
            && counters_taken(*registry).contains(metrics.counter_family()),
{
}

/// The series of a queue are there, at zero where they are new and as they were where they are
/// not, from when its handles are taken: the three gauges, and a count for each reason.
pub proof fn law_handles_show_their_series(
    metrics: &mut RouterQueueMetrics,
    model: &str,
    worker_type: &str,
    policy_class: &str,
    handles: RouterQueueMetricHandles,
)
    requires
        old(metrics).wf(),
        call_ensures(
            RouterQueueMetrics::handles,
            (metrics, model, worker_type, policy_class),
            handles,
        ),
    ensures
        handles@ == seq![model@, worker_type@, policy_class@],
        ({
            let key = label_key(seq![model@, worker_type@, policy_class@]);
            &&& final(metrics).requests().dom().contains(key)
            &&& final(metrics).isl_tokens().dom().contains(key)
            &&& final(metrics).cached_tokens().dom().contains(key)
            &&& old(metrics).requests().dom().contains(key) ==> final(metrics).requests()[key]
                == old(metrics).requests()[key]
            &&& !old(metrics).requests().dom().contains(key) ==> final(metrics).requests()[key]
                == 0
        }),
        final(metrics).rejections().dom().contains(
            label_key(seq![model@, worker_type@, policy_class@].push("request_limit"@)),
        ),
        final(metrics).rejections().dom().contains(
            label_key(seq![model@, worker_type@, policy_class@].push("raw_isl_token_limit"@)),
        ),
        final(metrics).rejections().dom().contains(
            label_key(seq![model@, worker_type@, policy_class@].push("cached_token_limit"@)),
        ),
{
}

/// What waits in a queue is shown in its own series, each of the three numbers in its gauge; other
/// queues and the counts of rejections stay.
pub proof fn law_pending_is_shown_for_its_queue(
    metrics: &mut RouterQueueMetrics,
    handles: &RouterQueueMetricHandles,
    requests: i64,
    isl_tokens: i64,
    cached_tokens: i64,
    other: u64,
)
    requires
        old(metrics).wf(),
        call_ensures(
            RouterQueueMetrics::set_pending,
            (metrics, handles, requests, isl_tokens, cached_tokens),
            (),
        ),
    ensures
        final(metrics).requests()[label_key(handles@)] == requests,
        final(metrics).isl_tokens()[label_key(handles@)] == isl_tokens,
        final(metrics).cached_tokens()[label_key(handles@)] == cached_tokens,
        final(metrics).requests().dom().contains(label_key(handles@)),
        other != label_key(handles@) ==> {
            &&& final(metrics).requests()[other] == old(metrics).requests()[other]
            &&& final(metrics).isl_tokens()[other] == old(metrics).isl_tokens()[other]
            &&& final(metrics).cached_tokens()[other] == old(metrics).cached_tokens()[other]
            &&& final(metrics).requests().dom().contains(other)
                <==> old(metrics).requests().dom().contains(other)
        },
        final(metrics).rejections() == old(metrics).rejections(),
{
}

/// A rejection adds one to the count of its queue and reason, and to no other.
pub proof fn law_rejection_is_counted_once(
    metrics: &mut RouterQueueMetrics,
    handles: &RouterQueueMetricHandles,
    rejection: QueueRejection,
    other: u64,
)
    requires
        old(metrics).wf(),
        call_ensures(RouterQueueMetrics::count_rejection, (metrics, handles, rejection), ()),
    ensures
        ({
            let key = label_key(
                handles@.push(
                    match rejection {
                        QueueRejection::RequestLimit => "request_limit"@,
                        QueueRejection::RawIslTokenLimit => "raw_isl_token_limit"@,
                        QueueRejection::CachedTokenLimit => "cached_token_limit"@,
                    },
                ),
            );
            let (before, after) = (old(metrics).rejections(), final(metrics).rejections());
            &&& after.dom().contains(key)
            &&& before.dom().contains(key) && before[key] < u64::MAX ==> after[key] == before[key]
                + 1
            &&& !before.dom().contains(key) ==> after[key] == 1
            &&& other != key ==> (after.dom().contains(other) <==> before.dom().contains(other))
                && after[other] == before[other]
        }),
        final(metrics).requests() == old(metrics).requests(),
        final(metrics).isl_tokens() == old(metrics).isl_tokens(),
        final(metrics).cached_tokens() == old(metrics).cached_tokens(),
{
}

} // verus!
