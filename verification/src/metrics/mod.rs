//! Metrics of the router: what is counted, under which names and labels.
pub mod observations;
pub mod queue;

use vstd::prelude::*;
use vstd::string::*;

use crate::adapters::gauges::{
    families_taken, family_header, family_is_valid, gauges, is_identifier, is_name_char,
    label_key, label_texts, new_gauge_family, register_family, remove_gauge, set_gauge,
    GaugeFamily, RegistrationError,
};

verus! {

/// A metric could not be made or registered.
#[derive(Debug, PartialEq, Eq)]
pub enum MetricsError {
    Invalid,
    /// The registry refused a family.
    Registration(RegistrationError),
}

/// Prefix of the metrics that the frontend serves.
pub const FRONTEND_PREFIX: &'static str = "dynamo_frontend_";

/// Prefix of the metrics of a component.
pub const COMPONENT_PREFIX: &'static str = "dynamo_component_";

/// Prefix of the router's own metrics within a component.
pub const ROUTER_PREFIX: &'static str = "router_";

/// The name of a router metric.
pub fn router_metric(suffix: &str) -> (name: String)
    ensures
        name@ == ROUTER_PREFIX@ + suffix@,
{
    ROUTER_PREFIX.to_owned().concat(suffix)
}

pub open spec fn digit(value: nat) -> char {
    seq!['0', '1', '2', '3', '4', '5', '6', '7', '8', '9'][value as int]
}

/// The decimal digits of a number, without leading zeros.
pub open spec fn decimal_digits(value: nat) -> Seq<char>
    decreases value,
{
    if value < 10 {
        seq![digit(value)]
    } else {
        decimal_digits(value / 10).push(digit(value % 10))
    }
}

fn digit_text(value: u64) -> (text: &'static str)
    requires
        value < 10,
    ensures
        text@ == seq![digit(value as nat)],
{
    proof {
        reveal_strlit("0");
        reveal_strlit("1");
        reveal_strlit("2");
        reveal_strlit("3");
        reveal_strlit("4");
        reveal_strlit("5");
        reveal_strlit("6");
        reveal_strlit("7");
        reveal_strlit("8");
        reveal_strlit("9");
    }
    let text: &'static str = match value {
        0 => "0",
        1 => "1",
        2 => "2",
        3 => "3",
        4 => "4",
        5 => "5",
        6 => "6",
        7 => "7",
        8 => "8",
        _ => "9",
    };
    proof {
        assert(text@ =~= seq![digit(value as nat)]);
    }
    text
}

/// A number as a label value.
pub fn decimal(value: u64) -> (text: String)
    ensures
        text@ == decimal_digits(value as nat),
    decreases value,
{
    if value < 10 {
        return digit_text(value).to_owned();
    }
    let text = decimal(value / 10).concat(digit_text(value % 10));
    proof {
        assert(text@ =~= decimal_digits(value as nat));
    }
    text
}

/// The labels of a rank of a worker type.
pub open spec fn rank_labels(worker_id: u64, dp_rank: u32, worker_type: Seq<char>) -> Seq<
    Seq<char>,
> {
    seq![decimal_digits(worker_id as nat), decimal_digits(dp_rank as nat), worker_type]
}

/// The key of the series of a rank.
pub open spec fn rank_key(worker_id: u64, dp_rank: u32, worker_type: Seq<char>) -> u64 {
    label_key(rank_labels(worker_id, dp_rank, worker_type))
}

fn make_rank_labels(worker_id: u64, dp_rank: u32, worker_type: &str) -> (labels: Vec<String>)
    ensures
        labels@.len() == 3,
        label_texts(labels@) == rank_labels(worker_id, dp_rank, worker_type@),
{
    let mut labels: Vec<String> = Vec::new();
    labels.push(decimal(worker_id));
    labels.push(decimal(dp_rank as u64));
    labels.push(worker_type.to_owned());
    proof {
        assert(label_texts(labels@) =~= rank_labels(worker_id, dp_rank, worker_type@));
    }
    labels
}

fn label_names3(first: &str, second: &str, third: &str) -> (labels: Vec<String>)
    ensures
        labels@.len() == 3,
        label_texts(labels@) == seq![first@, second@, third@],
{
    let mut labels: Vec<String> = Vec::new();
    labels.push(first.to_owned());
    labels.push(second.to_owned());
    labels.push(third.to_owned());
    proof {
        assert(label_texts(labels@) =~= seq![first@, second@, third@]);
    }
    labels
}

fn label_names5(first: &str, second: &str, third: &str, fourth: &str, fifth: &str) -> (labels: Vec<
    String,
>)
    ensures
        labels@.len() == 5,
        label_texts(labels@) == seq![first@, second@, third@, fourth@, fifth@],
{
    let mut labels = label_names3(first, second, third);
    labels.push(fourth.to_owned());
    labels.push(fifth.to_owned());
    proof {
        assert(label_texts(labels@) =~= seq![first@, second@, third@, fourth@, fifth@]);
    }
    labels
}

fn make_family(name: String, help: &str, labels: &Vec<String>) -> (made: Result<
    GaugeFamily,
    MetricsError,
>)
    ensures
        made is Ok == family_is_valid(name@, help@, label_texts(labels@)),
        made is Ok ==> family_header(made->Ok_0) == (name@, help@, label_texts(labels@)),
        made is Ok ==> gauges(made->Ok_0) == Map::<u64, i64>::empty(),
        made is Err ==> made->Err_0 == MetricsError::Invalid,
{
    match new_gauge_family(name.as_str(), help, labels) {
        Ok(family) => {
            proof {
                assert(gauges(family) =~= Map::<u64, i64>::empty());
            }
            Ok(family)
        },
        Err(_) => Err(MetricsError::Invalid),
    }
}

/// What offering families to a registry comes to, given the first refusal.
pub fn registration_outcome(refusal: Option<RegistrationError>) -> (done: Result<(), MetricsError>)
    ensures
        done == match refusal {
            Some(error) => Err::<(), MetricsError>(MetricsError::Registration(error)),
            None => Ok(()),
        },
{
    match refusal {
        Some(error) => Err(MetricsError::Registration(error)),
        None => Ok(()),
    }
}

/// The refusals that a registry gives.
pub open spec fn is_refusal(error: MetricsError) -> bool {
    error is Registration && (error->Registration_0 is AlreadyRegistered || error->Registration_0
        is Message)
}

/// Offer two families to a registry, the second only once the first was taken.
fn register_all(
    registry: &prometheus::Registry,
    first: &GaugeFamily,
    second: &GaugeFamily,
) -> (done: Result<(), MetricsError>)
    ensures
        done is Ok ==> families_taken(*registry).contains(*first),
        done is Ok ==> families_taken(*registry).contains(*second),
        done is Err ==> is_refusal(done->Err_0),
{
    match register_family(registry, first) {
        Err(error) => registration_outcome(Some(error)),
        Ok(()) => registration_outcome(register_family(registry, second).err()),
    }
}

pub const ACTIVE_DECODE_BLOCKS: &'static str = "worker_active_decode_blocks";

pub const ACTIVE_DECODE_BLOCKS_HELP: &'static str = "Active KV cache decode blocks per worker";

pub const ACTIVE_PREFILL_TOKENS: &'static str = "worker_active_prefill_tokens";

pub const ACTIVE_PREFILL_TOKENS_HELP: &'static str = "Active prefill tokens queued per worker";

/// Load of each rank, as the router last saw it.
pub struct WorkerLoadMetrics {
    active_decode_blocks: GaugeFamily,
    active_prefill_tokens: GaugeFamily,
}

impl WorkerLoadMetrics {
    /// Both families stand under their names, with their help texts and labels.
    pub closed spec fn wf(&self) -> bool {
        &&& family_header(self.active_decode_blocks) == (
            FRONTEND_PREFIX@ + ACTIVE_DECODE_BLOCKS@,
            ACTIVE_DECODE_BLOCKS_HELP@,
            WorkerLoadMetrics::labels(),
        )
        &&& family_header(self.active_prefill_tokens) == (
            FRONTEND_PREFIX@ + ACTIVE_PREFILL_TOKENS@,
            ACTIVE_PREFILL_TOKENS_HELP@,
            WorkerLoadMetrics::labels(),
        )
    }

    /// The families of active decode blocks and of active prefill tokens.
    pub closed spec fn families(&self) -> (GaugeFamily, GaugeFamily) {
        (self.active_decode_blocks, self.active_prefill_tokens)
    }

    /// The active decode blocks that are shown, by key.
    pub closed spec fn decode_blocks(&self) -> Map<u64, i64> {
        gauges(self.active_decode_blocks)
    }

    /// The active prefill tokens that are shown, by key.
    pub closed spec fn prefill_tokens(&self) -> Map<u64, i64> {
        gauges(self.active_prefill_tokens)
    }

    /// Whether a registry took these very families.
    pub closed spec fn taken_by(&self, registry: prometheus::Registry) -> bool {
        &&& families_taken(registry).contains(self.active_decode_blocks)
        &&& families_taken(registry).contains(self.active_prefill_tokens)
    }

    /// The label names of the family.
    pub open spec fn labels() -> Seq<Seq<char>> {
        seq!["worker_id"@, "dp_rank"@, "worker_type"@]
    }

    pub fn new() -> (metrics: Result<Self, MetricsError>)
        ensures
            metrics is Ok,
            metrics->Ok_0.wf(),
            metrics->Ok_0.decode_blocks() == Map::<u64, i64>::empty(),
            metrics->Ok_0.prefill_tokens() == Map::<u64, i64>::empty(),
    {
        proof {
            lemma_load_families();
        }
        let labels = label_names3("worker_id", "dp_rank", "worker_type");
        let active_decode_blocks = match make_family(
            FRONTEND_PREFIX.to_owned().concat(ACTIVE_DECODE_BLOCKS),
            ACTIVE_DECODE_BLOCKS_HELP,
            &labels,
        ) {
            Ok(family) => family,
            Err(error) => return Err(error),
        };
        let active_prefill_tokens = match make_family(
            FRONTEND_PREFIX.to_owned().concat(ACTIVE_PREFILL_TOKENS),
            ACTIVE_PREFILL_TOKENS_HELP,
            &labels,
        ) {
            Ok(family) => family,
            Err(error) => return Err(error),
        };
        Ok(WorkerLoadMetrics { active_decode_blocks, active_prefill_tokens })
    }

    /// Show the load of a rank. A count beyond the range of a gauge wraps around.
    pub fn observe(
        &mut self,
        worker_id: u64,
        dp_rank: u32,
        worker_type: &str,
        active_blocks: usize,
        active_tokens: usize,
    )
        requires
            old(self).wf(),
        ensures
            final(self).wf(),
            final(self).decode_blocks() == old(self).decode_blocks().insert(
                rank_key(worker_id, dp_rank, worker_type@),
                active_blocks as i64,
            ),
            final(self).prefill_tokens() == old(self).prefill_tokens().insert(
                rank_key(worker_id, dp_rank, worker_type@),
                active_tokens as i64,
            ),
            forall|registry: prometheus::Registry| #[trigger]
                final(self).taken_by(registry) == old(self).taken_by(registry),
    {
        let labels = make_rank_labels(worker_id, dp_rank, worker_type);
        let blocks: i64 = #[verifier::truncate]
        (active_blocks as i64);
        let tokens: i64 = #[verifier::truncate]
        (active_tokens as i64);
        set_gauge(&mut self.active_decode_blocks, &labels, blocks);
        set_gauge(&mut self.active_prefill_tokens, &labels, tokens);
    }

    /// Take the load of a rank out of what is shown; one that is not there is no error.
    pub fn remove_worker(&mut self, worker_id: u64, dp_rank: u32, worker_type: &str)
        requires
            old(self).wf(),
        ensures
            final(self).wf(),
            final(self).decode_blocks() == old(self).decode_blocks().remove(
                rank_key(worker_id, dp_rank, worker_type@),
            ),
            final(self).prefill_tokens() == old(self).prefill_tokens().remove(
                rank_key(worker_id, dp_rank, worker_type@),
            ),
            forall|registry: prometheus::Registry| #[trigger]
                final(self).taken_by(registry) == old(self).taken_by(registry),
    {
        let labels = make_rank_labels(worker_id, dp_rank, worker_type);
        remove_gauge(&mut self.active_decode_blocks, &labels);
        remove_gauge(&mut self.active_prefill_tokens, &labels);
    }
}

/// Offer the load gauges to a registry. Success means that it took both families; whether it does
/// depends on what else it holds.
pub fn register_worker_load_metrics(
    registry: &prometheus::Registry,
    metrics: &WorkerLoadMetrics,
) -> (done: Result<(), MetricsError>)
    ensures
        done is Ok ==> metrics.taken_by(*registry),
        done is Err ==> is_refusal(done->Err_0),
{
    register_all(registry, &metrics.active_decode_blocks, &metrics.active_prefill_tokens)
}

pub const WORKER_REGISTERED: &'static str = "router_worker_registered";

pub const WORKER_REGISTERED_HELP: &'static str =
    "Whether the router currently has this worker/dp_rank registered (1 = registered)";

pub const SOURCE_MISMATCH: &'static str = "router_kv_event_source_mismatch_workers";

pub const SOURCE_MISMATCH_HELP: &'static str =
    "Number of serving workers with missing or ambiguous KV sources, explicitly disabled KV event publishing, or without an expected RecoveryTarget";

/// Which ranks the router has registered, and how many lack an event source.
///
/// A worker is labelled `router_worker_id` here: `worker_id` names the process that exports the
/// metric.
pub struct RouterWorkerStatusMetrics {
    registered: GaugeFamily,
    kv_event_source_mismatch_workers: GaugeFamily,
}

impl RouterWorkerStatusMetrics {
    /// Both families stand under their names, with their help texts and labels.
    pub closed spec fn wf(&self) -> bool {
        &&& family_header(self.registered) == (
            COMPONENT_PREFIX@ + WORKER_REGISTERED@,
            WORKER_REGISTERED_HELP@,
            RouterWorkerStatusMetrics::rank_label_names(),
        )
        &&& family_header(self.kv_event_source_mismatch_workers) == (
            COMPONENT_PREFIX@ + SOURCE_MISMATCH@,
            SOURCE_MISMATCH_HELP@,
            RouterWorkerStatusMetrics::target_label_names(),
        )
    }

    /// The families of registered ranks and of mismatched workers.
    pub closed spec fn families(&self) -> (GaugeFamily, GaugeFamily) {
        (self.registered, self.kv_event_source_mismatch_workers)
    }

    /// The registered ranks that are shown, by key.
    pub closed spec fn registrations(&self) -> Map<u64, i64> {
        gauges(self.registered)
    }

    /// The mismatched workers that are shown for each target, by key.
    pub closed spec fn mismatches(&self) -> Map<u64, i64> {
        gauges(self.kv_event_source_mismatch_workers)
    }

    /// Whether a registry took these very families.
    pub closed spec fn taken_by(&self, registry: prometheus::Registry) -> bool {
        &&& families_taken(registry).contains(self.registered)
        &&& families_taken(registry).contains(self.kv_event_source_mismatch_workers)
    }

    pub open spec fn rank_label_names() -> Seq<Seq<char>> {
        seq!["router_worker_id"@, "dp_rank"@, "worker_type"@]
    }

    pub open spec fn target_label_names() -> Seq<Seq<char>> {
        seq![
            "model"@,
            "worker_type"@,
            "target_namespace"@,
            "target_component"@,
            "target_endpoint"@,
        ]
    }

    pub fn new() -> (metrics: Result<Self, MetricsError>)
        ensures
            metrics is Ok,
            metrics->Ok_0.wf(),
            metrics->Ok_0.registrations() == Map::<u64, i64>::empty(),
            metrics->Ok_0.mismatches() == Map::<u64, i64>::empty(),
    {
        proof {
            lemma_status_families();
        }
        let rank = label_names3("router_worker_id", "dp_rank", "worker_type");
        let target = label_names5(
            "model",
            "worker_type",
            "target_namespace",
            "target_component",
            "target_endpoint",
        );
        let registered = match make_family(
            COMPONENT_PREFIX.to_owned().concat(WORKER_REGISTERED),
            WORKER_REGISTERED_HELP,
            &rank,
        ) {
            Ok(family) => family,
            Err(error) => return Err(error),
        };
        let kv_event_source_mismatch_workers = match make_family(
            COMPONENT_PREFIX.to_owned().concat(SOURCE_MISMATCH),
            SOURCE_MISMATCH_HELP,
            &target,
        ) {
            Ok(family) => family,
            Err(error) => return Err(error),
        };
        Ok(RouterWorkerStatusMetrics { registered, kv_event_source_mismatch_workers })
    }

    pub fn set_registered(&mut self, worker_id: u64, dp_rank: u32, worker_type: &str)
        requires
            old(self).wf(),
        ensures
            final(self).wf(),
            final(self).registrations() == old(self).registrations().insert(
                rank_key(worker_id, dp_rank, worker_type@),
                1,
            ),
            final(self).mismatches() == old(self).mismatches(),
            forall|registry: prometheus::Registry| #[trigger]
                final(self).taken_by(registry) == old(self).taken_by(registry),
    {
        let labels = make_rank_labels(worker_id, dp_rank, worker_type);
        set_gauge(&mut self.registered, &labels, 1);
    }

    /// Forget a rank; one that is not there is no error.
    pub fn remove_worker(&mut self, worker_id: u64, dp_rank: u32, worker_type: &str)
        requires
            old(self).wf(),
        ensures
            final(self).wf(),
            final(self).registrations() == old(self).registrations().remove(
                rank_key(worker_id, dp_rank, worker_type@),
            ),
            final(self).mismatches() == old(self).mismatches(),
            forall|registry: prometheus::Registry| #[trigger]
                final(self).taken_by(registry) == old(self).taken_by(registry),
    {
        let labels = make_rank_labels(worker_id, dp_rank, worker_type);
        remove_gauge(&mut self.registered, &labels);
    }

    pub fn set_kv_event_source_mismatch_workers(
        &mut self,
        model: &str,
        worker_type: &str,
        target_namespace: &str,
        target_component: &str,
        target_endpoint: &str,
        count: usize,
    )
        requires
            old(self).wf(),
        ensures
            final(self).wf(),
            final(self).mismatches() == old(self).mismatches().insert(
                label_key(
                    seq![
                        model@,
                        worker_type@,
                        target_namespace@,
                        target_component@,
                        target_endpoint@,
                    ],
                ),
                count as i64,
            ),
            final(self).registrations() == old(self).registrations(),
            forall|registry: prometheus::Registry| #[trigger]
                final(self).taken_by(registry) == old(self).taken_by(registry),
    {
        let labels = label_names5(
            model,
            worker_type,
            target_namespace,
            target_component,
            target_endpoint,
        );
        let value: i64 = #[verifier::truncate]
        (count as i64);
        set_gauge(&mut self.kv_event_source_mismatch_workers, &labels, value);
    }

    /// Offer the status gauges to a registry. Success means that it took both families; whether
    /// it does depends on what else it holds.
    pub fn register(&self, registry: &prometheus::Registry) -> (done: Result<(), MetricsError>)
        ensures
            done is Ok ==> self.taken_by(*registry),
            done is Err ==> is_refusal(done->Err_0),
    {
        register_all(registry, &self.registered, &self.kv_event_source_mismatch_workers)
    }
}

/// The first `n` characters are letters or underscores.
spec fn starts_with_name_chars(text: Seq<char>, n: nat) -> bool
    decreases n,
{
    n == 0 || (is_name_char(text[n - 1]) && starts_with_name_chars(text, (n - 1) as nat))
}

proof fn lemma_name_chars(text: Seq<char>, n: nat)
    requires
        starts_with_name_chars(text, n),
    ensures
        forall|i: int| 0 <= i < n ==> is_name_char(#[trigger] text[i]),
    decreases n,
{
    if n > 0 {
        lemma_name_chars(text, (n - 1) as nat);
    }
}

/// Letters and underscores alone, and at least one of them, make an identifier.
proof fn lemma_identifier(text: Seq<char>)
    requires
        text.len() > 0,
        starts_with_name_chars(text, text.len()),
    ensures
        is_identifier(text, true),
        is_identifier(text, false),
{
    lemma_name_chars(text, text.len());
}

/// Two such texts run together make an identifier.
proof fn lemma_joined_identifier(prefix: Seq<char>, suffix: Seq<char>)
    requires
        prefix.len() > 0,
        starts_with_name_chars(prefix, prefix.len()),
        starts_with_name_chars(suffix, suffix.len()),
    ensures
        is_identifier(prefix + suffix, true),
{
    lemma_name_chars(prefix, prefix.len());
    lemma_name_chars(suffix, suffix.len());
    let text = prefix + suffix;
    assert forall|i: int| 0 <= i < text.len() implies is_name_char(#[trigger] text[i]) by {
        if i < prefix.len() {
            assert(text[i] == prefix[i]);
        } else {
            assert(text[i] == suffix[i - prefix.len()]);
        }
    }
}

proof fn lemma_load_families()
    ensures
        family_is_valid(
            FRONTEND_PREFIX@ + ACTIVE_DECODE_BLOCKS@,
            ACTIVE_DECODE_BLOCKS_HELP@,
            WorkerLoadMetrics::labels(),
        ),
        family_is_valid(
            FRONTEND_PREFIX@ + ACTIVE_PREFILL_TOKENS@,
            ACTIVE_PREFILL_TOKENS_HELP@,
            WorkerLoadMetrics::labels(),
        ),
{
    reveal_strlit("dynamo_frontend_");
    reveal_strlit("worker_active_decode_blocks");
    reveal_strlit("worker_active_prefill_tokens");
    reveal_strlit("Active KV cache decode blocks per worker");
    reveal_strlit("Active prefill tokens queued per worker");
    reveal_strlit("worker_id");
    reveal_strlit("dp_rank");
    reveal_strlit("worker_type");
    reveal_with_fuel(starts_with_name_chars, 29);
    lemma_joined_identifier(FRONTEND_PREFIX@, ACTIVE_DECODE_BLOCKS@);
    lemma_joined_identifier(FRONTEND_PREFIX@, ACTIVE_PREFILL_TOKENS@);
    lemma_identifier("worker_id"@);
    lemma_identifier("dp_rank"@);
    lemma_identifier("worker_type"@);
}

proof fn lemma_status_families()
    ensures
        family_is_valid(
            COMPONENT_PREFIX@ + WORKER_REGISTERED@,
            WORKER_REGISTERED_HELP@,
            RouterWorkerStatusMetrics::rank_label_names(),
        ),
        family_is_valid(
            COMPONENT_PREFIX@ + SOURCE_MISMATCH@,
            SOURCE_MISMATCH_HELP@,
            RouterWorkerStatusMetrics::target_label_names(),
        ),
{
    reveal_strlit("dynamo_component_");
    reveal_strlit("router_worker_registered");
    reveal_strlit("router_kv_event_source_mismatch_workers");
    reveal_strlit(
        "Whether the router currently has this worker/dp_rank registered (1 = registered)",
    );
    reveal_strlit(
        "Number of serving workers with missing or ambiguous KV sources, explicitly disabled KV event publishing, or without an expected RecoveryTarget",
    );
    reveal_strlit("router_worker_id");
    reveal_strlit("dp_rank");
    reveal_strlit("worker_type");
    reveal_strlit("model");
    reveal_strlit("target_namespace");
    reveal_strlit("target_component");
    reveal_strlit("target_endpoint");
    reveal_with_fuel(starts_with_name_chars, 40);
    lemma_joined_identifier(COMPONENT_PREFIX@, WORKER_REGISTERED@);
    lemma_joined_identifier(COMPONENT_PREFIX@, SOURCE_MISMATCH@);
    lemma_identifier("router_worker_id"@);
    lemma_identifier("dp_rank"@);
    lemma_identifier("worker_type"@);
    lemma_identifier("model"@);
    lemma_identifier("target_namespace"@);
    lemma_identifier("target_component"@);
    lemma_identifier("target_endpoint"@);
    assert("target_namespace"@[7] != "target_component"@[7]);
}

/// The number that a text of decimal digits stands for.
pub open spec fn number_of(text: Seq<char>) -> nat
    decreases text.len(),
{
    if text.len() == 0 {
        0
    } else {
        10 * number_of(text.drop_last()) + (text.last() as int - '0' as int) as nat
    }
}

proof fn lemma_digits_read_back(value: nat)
    ensures
        decimal_digits(value).len() > 0,
        number_of(decimal_digits(value)) == value,
        forall|i: int|
            0 <= i < decimal_digits(value).len() ==> '0' as int
                <= #[trigger] decimal_digits(value)[i] as int <= '9' as int,
        value > 0 ==> decimal_digits(value)[0] != '0',
    decreases value,
{
    let text = decimal_digits(value);
    if value < 10 {
        assert(text.drop_last() =~= Seq::empty());
        reveal_with_fuel(number_of, 2);
    } else {
        let front = decimal_digits(value / 10);
        lemma_digits_read_back(value / 10);
        assert(text.drop_last() =~= front);
        assert(text[0] == front[0]);
    }
}

/// A number is written in decimal digits, with no zero in front of it, and reads back as the same
/// number; so no two numbers are written alike.
pub proof fn law_number_reads_back(value: u64, text: String)
    requires
        call_ensures(decimal, (value,), text),
    ensures
        text@.len() > 0,
        number_of(text@) == value,
        forall|i: int|
            0 <= i < text@.len() ==> '0' as int <= #[trigger] text@[i] as int <= '9' as int,
        value > 0 ==> text@[0] != '0',
{
    lemma_digits_read_back(value as nat);
}

/// The metrics of the router have `router_` in front of their own names.
pub proof fn law_router_metrics_are_prefixed(suffix: &str, name: String)
    requires
        call_ensures(router_metric, (suffix,), name),
    ensures
        name@ == "router_"@ + suffix@,
{
}

/// The load gauges stand under their names, with their help texts, and are labelled by worker,
/// rank and type; what is shown as decode blocks and as prefill tokens is what they hold.
pub proof fn law_load_gauges_stand_under_their_names(metrics: WorkerLoadMetrics)
    requires
        metrics.wf(),
    ensures
        family_header(metrics.families().0) == (
            "dynamo_frontend_worker_active_decode_blocks"@,
            "Active KV cache decode blocks per worker"@,
            seq!["worker_id"@, "dp_rank"@, "worker_type"@],
        ),
        family_header(metrics.families().1) == (
            "dynamo_frontend_worker_active_prefill_tokens"@,
            "Active prefill tokens queued per worker"@,
            seq!["worker_id"@, "dp_rank"@, "worker_type"@],
        ),
        metrics.decode_blocks() == gauges(metrics.families().0),
        metrics.prefill_tokens() == gauges(metrics.families().1),
{
    reveal_strlit("dynamo_frontend_");
    reveal_strlit("worker_active_decode_blocks");
    reveal_strlit("worker_active_prefill_tokens");
    reveal_strlit("dynamo_frontend_worker_active_decode_blocks");
    reveal_strlit("dynamo_frontend_worker_active_prefill_tokens");
    assert(FRONTEND_PREFIX@ + ACTIVE_DECODE_BLOCKS@
        =~= "dynamo_frontend_worker_active_decode_blocks"@);
    assert(FRONTEND_PREFIX@ + ACTIVE_PREFILL_TOKENS@
        =~= "dynamo_frontend_worker_active_prefill_tokens"@);
}

/// The status gauges stand under their names; registrations are labelled by worker, rank and type,
/// mismatches by their target; and what is shown of each is what its gauge holds.
pub proof fn law_status_gauges_stand_under_their_names(metrics: RouterWorkerStatusMetrics)
    requires
        metrics.wf(),
    ensures
        family_header(metrics.families().0).0 == "dynamo_component_router_worker_registered"@,
        family_header(metrics.families().0).2 == seq![
            "router_worker_id"@,
            "dp_rank"@,
            "worker_type"@,
        ],
        family_header(metrics.families().1).0
            == "dynamo_component_router_kv_event_source_mismatch_workers"@,
        family_header(metrics.families().1).2 == seq![
            "model"@,
            "worker_type"@,
            "target_namespace"@,
            "target_component"@,
            "target_endpoint"@,
        ],
        metrics.registrations() == gauges(metrics.families().0),
        metrics.mismatches() == gauges(metrics.families().1),
{
    reveal_strlit("dynamo_component_");
    reveal_strlit("router_worker_registered");
    reveal_strlit("router_kv_event_source_mismatch_workers");
    reveal_strlit("dynamo_component_router_worker_registered");
    reveal_strlit("dynamo_component_router_kv_event_source_mismatch_workers");
    assert(COMPONENT_PREFIX@ + WORKER_REGISTERED@
        =~= "dynamo_component_router_worker_registered"@);
    assert(COMPONENT_PREFIX@ + SOURCE_MISMATCH@
        =~= "dynamo_component_router_kv_event_source_mismatch_workers"@);
}

/// New gauges show nothing and are in order, and what a registry accepted it took.
pub proof fn law_new_gauges_show_nothing(
    load: Result<WorkerLoadMetrics, MetricsError>,
    status: Result<RouterWorkerStatusMetrics, MetricsError>,
    key: u64,
    registry: &prometheus::Registry,
    offered: &WorkerLoadMetrics,
    load_taken: Result<(), MetricsError>,
    shown: &RouterWorkerStatusMetrics,
    status_taken: Result<(), MetricsError>,
)
    requires
        call_ensures(WorkerLoadMetrics::new, (), load),
        call_ensures(RouterWorkerStatusMetrics::new, (), status),
        call_ensures(register_worker_load_metrics, (registry, offered), load_taken),
        call_ensures(RouterWorkerStatusMetrics::register, (shown, registry), status_taken),
    ensures
        load is Ok && status is Ok,
        load->Ok_0.wf() && status->Ok_0.wf(),
        !load->Ok_0.decode_blocks().dom().contains(key),
        !load->Ok_0.prefill_tokens().dom().contains(key),
        !status->Ok_0.registrations().dom().contains(key),
        !status->Ok_0.mismatches().dom().contains(key),
        load_taken is Ok ==> families_taken(*registry).contains(offered.families().0)
            && families_taken(*registry).contains(offered.families().1),
        status_taken is Ok ==> families_taken(*registry).contains(shown.families().0)
            && families_taken(*registry).contains(shown.families().1),
{
}

/// A refusal of the registry is handed on as it is, and no refusal is success.
pub proof fn law_refusal_is_handed_on(
    refusal: Option<RegistrationError>,
    done: Result<(), MetricsError>,
)
    requires
        call_ensures(registration_outcome, (refusal,), done),
    ensures
        done is Ok <==> refusal is None,
        refusal is Some ==> done->Err_0 == MetricsError::Registration(refusal->0),
{
}

/// The load of a rank is shown under its worker id, its rank and its type, blocks under blocks and
/// tokens under tokens, and no other series changes.
pub proof fn law_load_is_shown_for_its_rank(
    metrics: &mut WorkerLoadMetrics,
    worker_id: u64,
    dp_rank: u32,
    worker_type: &str,
    active_blocks: usize,
    active_tokens: usize,
    other: u64,
)
    requires
        old(metrics).wf(),
        call_ensures(
            WorkerLoadMetrics::observe,
            (metrics, worker_id, dp_rank, worker_type, active_blocks, active_tokens),
            (),
        ),
    ensures
        ({
            let key = label_key(
                seq![
                    decimal_digits(worker_id as nat),
                    decimal_digits(dp_rank as nat),
                    worker_type@,
                ],
            );
            let blocks = final(metrics).decode_blocks();
            let tokens = final(metrics).prefill_tokens();
            &&& blocks.dom().contains(key) && tokens.dom().contains(key)
            &&& active_blocks <= i64::MAX ==> blocks[key] == active_blocks
            &&& active_tokens <= i64::MAX ==> tokens[key] == active_tokens
            &&& other != key ==> {
                &&& blocks.dom().contains(other) <==> old(metrics).decode_blocks().dom().contains(
                    other,
                )
                &&& blocks[other] == old(metrics).decode_blocks()[other]
                &&& tokens.dom().contains(other) <==> old(metrics).prefill_tokens().dom().contains(
                    other,
                )
                &&& tokens[other] == old(metrics).prefill_tokens()[other]
            }
        }),
{
}

/// A rank that is removed is shown no more, and no other series changes: what was shown before its
/// load was, is shown again.
pub proof fn law_removed_rank_is_not_shown(
    metrics: &mut WorkerLoadMetrics,
    worker_id: u64,
    dp_rank: u32,
    worker_type: &str,
    other: u64,
)
    requires
        old(metrics).wf(),
        call_ensures(
            WorkerLoadMetrics::remove_worker,
            (metrics, worker_id, dp_rank, worker_type),
            (),
        ),
    ensures
        ({
            let key = label_key(
                seq![
                    decimal_digits(worker_id as nat),
                    decimal_digits(dp_rank as nat),
                    worker_type@,
                ],
            );
            &&& !final(metrics).decode_blocks().dom().contains(key)
            &&& !final(metrics).prefill_tokens().dom().contains(key)
            &&& other != key ==> {
                &&& final(metrics).decode_blocks().dom().contains(other)
                    <==> old(metrics).decode_blocks().dom().contains(other)
                &&& old(metrics).decode_blocks().dom().contains(other)
                    ==> final(metrics).decode_blocks()[other]
                    == old(metrics).decode_blocks()[other]
                &&& final(metrics).prefill_tokens().dom().contains(other)
                    <==> old(metrics).prefill_tokens().dom().contains(other)
                &&& old(metrics).prefill_tokens().dom().contains(other)
                    ==> final(metrics).prefill_tokens()[other]
                    == old(metrics).prefill_tokens()[other]
            }
        }),
{
}

/// A registered rank is shown at one until it is removed, under its worker id, its rank and its
/// type; no other series changes, and no mismatch does.
pub proof fn law_registered_rank_is_shown(
    metrics: &mut RouterWorkerStatusMetrics,
    removed: &mut RouterWorkerStatusMetrics,
    worker_id: u64,
    dp_rank: u32,
    worker_type: &str,
    other: u64,
)
    requires
        old(metrics).wf(),
        call_ensures(
            RouterWorkerStatusMetrics::set_registered,
            (metrics, worker_id, dp_rank, worker_type),
            (),
        ),
        old(removed).wf(),
        call_ensures(
            RouterWorkerStatusMetrics::remove_worker,
            (removed, worker_id, dp_rank, worker_type),
            (),
        ),
    ensures
        ({
            let key = label_key(
                seq![
                    decimal_digits(worker_id as nat),
                    decimal_digits(dp_rank as nat),
                    worker_type@,
                ],
            );
            &&& final(metrics).registrations().dom().contains(key)
            &&& final(metrics).registrations()[key] == 1
            &&& !final(removed).registrations().dom().contains(key)
            &&& other != key ==> {
                &&& final(metrics).registrations().dom().contains(other)
                    <==> old(metrics).registrations().dom().contains(other)
                &&& final(metrics).registrations()[other] == old(metrics).registrations()[other]
                &&& final(removed).registrations().dom().contains(other)
                    <==> old(removed).registrations().dom().contains(other)
            }
        }),
        final(metrics).mismatches() == old(metrics).mismatches(),
        final(removed).mismatches() == old(removed).mismatches(),
{
}

/// The mismatched workers of a target are shown under its model, type, namespace, component and
/// endpoint, in this order; no other target changes, and no registration does.
pub proof fn law_mismatches_are_shown_for_their_target(
    metrics: &mut RouterWorkerStatusMetrics,
    model: &str,
    worker_type: &str,
    target_namespace: &str,
    target_component: &str,
    target_endpoint: &str,
    count: usize,
    other: u64,
)
    requires
        old(metrics).wf(),
        call_ensures(
            RouterWorkerStatusMetrics::set_kv_event_source_mismatch_workers,
            (
                metrics,
                model,
                worker_type,
                target_namespace,
                target_component,
                target_endpoint,
                count,
            ),
            (),
        ),
    ensures
        ({
            let key = label_key(
                seq![
                    model@,
                    worker_type@,
                    target_namespace@,
                    target_component@,
                    target_endpoint@,
                ],
            );
            let shown = final(metrics).mismatches();
            &&& shown.dom().contains(key)
            &&& count <= i64::MAX ==> shown[key] == count
            &&& other != key ==> (shown.dom().contains(other)
                <==> old(metrics).mismatches().dom().contains(other)) && shown[other]
                == old(metrics).mismatches()[other]
        }),
        final(metrics).registrations() == old(metrics).registrations(),
{
}

} // verus!
