//! Families of integer gauges and counters, kept by the metrics crate.
//!
//! A family keeps its series by a key that it computes from their label values.
use prometheus::{Error, IntCounterVec, IntGaugeVec, Opts};
use vstd::prelude::*;

verus! {

#[verifier::external_type_specification]
#[verifier::external_body]
pub struct ExRegistry(prometheus::Registry);

#[verifier::external_type_specification]
#[verifier::external_body]
pub struct ExMetricsError(prometheus::Error);

/// A family of gauges that differ in the values of their labels.
///
/// Its gauges are written through this value alone: what a registry is given of it is only
/// read there.
#[verifier::external_body]
pub struct GaugeFamily {
    family: IntGaugeVec,
}

/// A family of counters that differ in the values of their labels, written in the same way.
#[verifier::external_body]
pub struct CounterFamily {
    family: IntCounterVec,
}

/// Why a registry refused a family.
#[derive(Debug, PartialEq, Eq)]
pub enum RegistrationError {
    /// The registry has a family of this name already.
    AlreadyRegistered,
    InconsistentCardinality { expect: usize, got: usize },
    /// The name stands or stood for a family with another help text or other label names, in
    /// words.
    Message(String),
    Io,
}

/// A letter or an underscore.
pub open spec fn is_name_char(c: char) -> bool {
    ('a' <= c && c <= 'z') || ('A' <= c && c <= 'Z') || c == '_'
}

/// Letters, underscores and digits, with no digit in front. A metric name may hold colons too.
pub open spec fn is_identifier(text: Seq<char>, with_colon: bool) -> bool {
    text.len() > 0 && forall|i: int|
        0 <= i < text.len() ==> is_name_char(#[trigger] text[i]) || (with_colon && text[i] == ':')
            || (i > 0 && '0' <= text[i] && text[i] <= '9')
}

/// Whether a family can be made under a name, with a help text and label names.
pub open spec fn family_is_valid(
    name: Seq<char>,
    help: Seq<char>,
    labels: Seq<Seq<char>>,
) -> bool {
    &&& help.len() > 0
    &&& is_identifier(name, true)
    &&& labels.no_duplicates()
    &&& forall|i: int| 0 <= i < labels.len() ==> is_identifier(#[trigger] labels[i], false)
}

/// What a family was made with: its name, its help text and the names of its labels.
pub uninterp spec fn family_header(family: GaugeFamily) -> (Seq<char>, Seq<char>, Seq<Seq<char>>);

/// The gauges of a family, by key: what each of them shows. A gauge that is not there is not
/// exported.
pub uninterp spec fn gauges(family: GaugeFamily) -> Map<u64, i64>;

/// What a family of counters was made with.
pub uninterp spec fn counter_header(family: CounterFamily) -> (
    Seq<char>,
    Seq<char>,
    Seq<Seq<char>>,
);

/// The counters of a family, by key.
pub uninterp spec fn counters(family: CounterFamily) -> Map<u64, u64>;

/// The key of the series with these label values, the same in every family: a hash of the values
/// run together, so that two lists may share a series.
pub uninterp spec fn label_key(labels: Seq<Seq<char>>) -> u64;

/// The families that a registry takes at one time or another, whatever their gauges show.
///
/// A registry is shared: others may add to it or give up what it holds, so nothing is said of
/// what it holds at a given moment.
pub uninterp spec fn families_taken(registry: prometheus::Registry) -> Set<GaugeFamily>;

/// The families of counters that a registry takes at one time or another.
pub uninterp spec fn counters_taken(registry: prometheus::Registry) -> Set<CounterFamily>;

/// The texts of a list of labels.
pub open spec fn label_texts(labels: Seq<String>) -> Seq<Seq<char>> {
    labels.map_values(|label: String| label@)
}

/// The series, with one under this key: at zero where it is new.
pub open spec fn with_gauge(series: Map<u64, i64>, key: u64) -> Map<u64, i64> {
    if series.dom().contains(key) {
        series
    } else {
        series.insert(key, 0)
    }
}

/// The series, with one under this key: at zero where it is new.
pub open spec fn with_counter(series: Map<u64, u64>, key: u64) -> Map<u64, u64> {
    if series.dom().contains(key) {
        series
    } else {
        series.insert(key, 0)
    }
}

/// One more, around the end of the range.
pub open spec fn counted_once(count: u64) -> u64 {
    if count == u64::MAX {
        0
    } else {
        (count + 1) as u64
    }
}

/// `IntGaugeVec::new`: a family with these labels and no gauges. It fails on an empty help text,
/// on a name or label name that is no identifier, and on a label name that comes twice.
#[verifier::external_body]
pub(crate) fn new_gauge_family(name: &str, help: &str, labels: &Vec<String>) -> (made: Result<
    GaugeFamily,
    prometheus::Error,
>)
    ensures
        made is Ok == family_is_valid(name@, help@, label_texts(labels@)),
        made is Ok ==> family_header(made->Ok_0) == (name@, help@, label_texts(labels@)),
        made is Ok ==> gauges(made->Ok_0).dom() == Set::<u64>::empty(),
{
    let names: Vec<&str> = labels.iter().map(|label| label.as_str()).collect();
    IntGaugeVec::new(Opts::new(name, help), &names).map(|family| GaugeFamily { family })
}

/// `MetricVec::with_label_values`, then `GenericGauge::set`: the gauge under the key of these
/// labels shows the value, and is made where there was none. The other gauges stay, and so does
/// every registry that has the family. The call panics on a wrong number of labels.
#[verifier::external_body]
pub(crate) fn set_gauge(family: &mut GaugeFamily, labels: &Vec<String>, value: i64)
    requires
        labels@.len() == family_header(*old(family)).2.len(),
    ensures
        family_header(*final(family)) == family_header(*old(family)),
        gauges(*final(family)) == gauges(*old(family)).insert(
            label_key(label_texts(labels@)),
            value,
        ),
        forall|registry: prometheus::Registry| #[trigger]
            families_taken(registry).contains(*final(family)) == families_taken(registry).contains(
                *old(family),
            ),
{
    family.family.with_label_values(labels).set(value)
}

/// `MetricVec::with_label_values`: there is a gauge under the key of these labels, at zero where
/// it is new. The call panics on a wrong number of labels.
#[verifier::external_body]
pub(crate) fn touch_gauge(family: &mut GaugeFamily, labels: &Vec<String>)
    requires
        labels@.len() == family_header(*old(family)).2.len(),
    ensures
        family_header(*final(family)) == family_header(*old(family)),
        gauges(*final(family)) == with_gauge(
            gauges(*old(family)),
            label_key(label_texts(labels@)),
        ),
        forall|registry: prometheus::Registry| #[trigger]
            families_taken(registry).contains(*final(family)) == families_taken(registry).contains(
                *old(family),
            ),
{
    let _ = family.family.with_label_values(labels);
}

/// `MetricVec::remove_label_values`: the gauge under the key of these labels is gone, where there
/// was one, and the others stay. A wrong number of labels changes nothing.
#[verifier::external_body]
pub(crate) fn remove_gauge(family: &mut GaugeFamily, labels: &Vec<String>)
    ensures
        family_header(*final(family)) == family_header(*old(family)),
        gauges(*final(family)) == if labels@.len() == family_header(*old(family)).2.len() {
            gauges(*old(family)).remove(label_key(label_texts(labels@)))
        } else {
            gauges(*old(family))
        },
        forall|registry: prometheus::Registry| #[trigger]
            families_taken(registry).contains(*final(family)) == families_taken(registry).contains(
                *old(family),
            ),
{
    let _ = family.family.remove_label_values(labels);
}

/// `Registry::register` of the family: success means that the registry took this very family.
/// Whether it does depends on what it holds and held before, of which nothing is said. It refuses
/// a name that is there already, and one that came before with another help text or other label
/// names.
#[verifier::external_body]
pub(crate) fn register_family(registry: &prometheus::Registry, family: &GaugeFamily) -> (done:
    Result<(), RegistrationError>)
    ensures
        done is Ok ==> families_taken(*registry).contains(*family),
        done is Err ==> done->Err_0 is AlreadyRegistered || done->Err_0 is Message,
{
    registry.register(Box::new(family.family.clone())).map_err(|error| match error {
        Error::AlreadyReg => RegistrationError::AlreadyRegistered,
        Error::InconsistentCardinality { expect, got } => {
            RegistrationError::InconsistentCardinality { expect, got }
        },
        Error::Msg(message) => RegistrationError::Message(message),
        Error::Io(_) => RegistrationError::Io,
    })
}

/// `IntCounterVec::new`: a family with these labels and no counters. It fails as
/// `IntGaugeVec::new` does.
#[verifier::external_body]
pub(crate) fn new_counter_family(name: &str, help: &str, labels: &Vec<String>) -> (made: Result<
    CounterFamily,
    prometheus::Error,
>)
    ensures
        made is Ok == family_is_valid(name@, help@, label_texts(labels@)),
        made is Ok ==> counter_header(made->Ok_0) == (name@, help@, label_texts(labels@)),
        made is Ok ==> counters(made->Ok_0).dom() == Set::<u64>::empty(),
{
    let names: Vec<&str> = labels.iter().map(|label| label.as_str()).collect();
    IntCounterVec::new(Opts::new(name, help), &names).map(|family| CounterFamily { family })
}

/// `MetricVec::with_label_values`: there is a counter under the key of these labels, at zero
/// where it is new. The call panics on a wrong number of labels.
#[verifier::external_body]
pub(crate) fn touch_counter(family: &mut CounterFamily, labels: &Vec<String>)
    requires
        labels@.len() == counter_header(*old(family)).2.len(),
    ensures
        counter_header(*final(family)) == counter_header(*old(family)),
        counters(*final(family)) == with_counter(
            counters(*old(family)),
            label_key(label_texts(labels@)),
        ),
        forall|registry: prometheus::Registry| #[trigger]
            counters_taken(registry).contains(*final(family)) == counters_taken(registry).contains(
                *old(family),
            ),
{
    let _ = family.family.with_label_values(labels);
}

/// `MetricVec::with_label_values`, then `GenericCounter::inc`: the counter under the key of these
/// labels counts one more, from zero where it is new. The call panics on a wrong number of labels.
#[verifier::external_body]
pub(crate) fn count_one(family: &mut CounterFamily, labels: &Vec<String>)
    requires
        labels@.len() == counter_header(*old(family)).2.len(),
    ensures
        counter_header(*final(family)) == counter_header(*old(family)),
        ({
            let key = label_key(label_texts(labels@));
            let before = with_counter(counters(*old(family)), key);
            counters(*final(family)) == before.insert(key, counted_once(before[key]))
        }),
        forall|registry: prometheus::Registry| #[trigger]
            counters_taken(registry).contains(*final(family)) == counters_taken(registry).contains(
                *old(family),
            ),
{
    family.family.with_label_values(labels).inc()
}

/// `Registry::register` of a family of counters, as for one of gauges.
#[verifier::external_body]
pub(crate) fn register_counters(registry: &prometheus::Registry, family: &CounterFamily) -> (done:
    Result<(), RegistrationError>)
    ensures
        done is Ok ==> counters_taken(*registry).contains(*family),
        done is Err ==> done->Err_0 is AlreadyRegistered || done->Err_0 is Message,
{
    registry.register(Box::new(family.family.clone())).map_err(|error| match error {
        Error::AlreadyReg => RegistrationError::AlreadyRegistered,
        Error::InconsistentCardinality { expect, got } => {
            RegistrationError::InconsistentCardinality { expect, got }
        },
        Error::Msg(message) => RegistrationError::Message(message),
        Error::Io(_) => RegistrationError::Io,
    })
}

} // verus!
