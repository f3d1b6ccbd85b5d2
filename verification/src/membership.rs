//! Which event source each serving rank has, as discovery sees it.
use vstd::prelude::*;

use crate::lists::{contains_item, lemma_prefix_grows, lemma_push_contains, push_unique};
use crate::protocols::WorkerWithDpRank;
use crate::table::{has_entry, SameAs, Table};

verus! {

/// One advertised event source of one rank.
#[derive(Clone, Copy, Debug, PartialEq, Eq, Structural)]
pub struct KvEventSource {
    /// Interned id of the KV-state endpoint under which the source is advertised.
    pub kv_state_endpoint: u64,
    pub worker: WorkerWithDpRank,
    pub publisher_id: u64,
    /// Interned id of the whole instance that answers recovery queries; `None` for a live-only
    /// source.
    pub recovery_target: Option<u64>,
}

/// The exact identity of a source incarnation.
#[derive(Clone, Copy, Debug, PartialEq, Eq, Structural)]
pub struct KvSourceId {
    pub kv_state_endpoint: u64,
    pub worker: WorkerWithDpRank,
    pub publisher_id: u64,
}

impl KvEventSource {
    pub open spec fn id(self) -> KvSourceId {
        KvSourceId {
            kv_state_endpoint: self.kv_state_endpoint,
            worker: self.worker,
            publisher_id: self.publisher_id,
        }
    }

    pub fn source_id(&self) -> (id: KvSourceId)
        ensures
            id == self.id(),
    {
        KvSourceId {
            kv_state_endpoint: self.kv_state_endpoint,
            worker: self.worker,
            publisher_id: self.publisher_id,
        }
    }
}

#[derive(Clone, Copy, Debug, PartialEq, Eq, Structural)]
pub enum KvSourceStatus {
    ActiveRecoverable(KvEventSource),
    ActiveLiveOnly(KvEventSource),
    Missing,
    /// Several sources claim the rank; interned id of what they disagree on.
    Ambiguous(u64),
    /// Another source mode owns the rank; legacy events for it are dropped.
    Suppressed,
}

impl KvSourceStatus {
    pub open spec fn active(self) -> Option<KvEventSource> {
        match self {
            KvSourceStatus::ActiveRecoverable(source) => Some(source),
            KvSourceStatus::ActiveLiveOnly(source) => Some(source),
            _ => None,
        }
    }

    pub fn active_source(&self) -> (source: Option<KvEventSource>)
        ensures
            source == self.active(),
    {
        match self {
            KvSourceStatus::ActiveRecoverable(source) => Some(*source),
            KvSourceStatus::ActiveLiveOnly(source) => Some(*source),
            _ => None,
        }
    }
}

/// The sources of every expected rank, and what the serving cards say of them.
#[derive(Debug)]
pub struct KvSourceMembershipView {
    /// The endpoint on which all active cards agree; `None` when they disagree.
    pub kv_state_endpoint: Option<u64>,
    pub sources: Table<WorkerWithDpRank, KvSourceStatus>,
    /// Per worker: whether it publishes KV events, where its card says so.
    pub kv_event_publishing_enabled: Table<u64, bool>,
    /// Per worker: the declared source mode, where its card declares one.
    pub kv_event_source_mode: Table<u64, String>,
    /// Per rank: whether a recovery target is expected, where that is known.
    pub recovery_expected: Table<WorkerWithDpRank, bool>,
}

/// Every rank keeps its status through `keep`.
pub open spec fn with_statuses(
    sources: Map<WorkerWithDpRank, KvSourceStatus>,
    keep: spec_fn(WorkerWithDpRank, KvSourceStatus) -> KvSourceStatus,
) -> Map<WorkerWithDpRank, KvSourceStatus> {
    Map::new(|worker: WorkerWithDpRank| sources.dom().contains(worker), |worker: WorkerWithDpRank|
        keep(worker, sources[worker]))
}

pub open spec fn gated_status(status: KvSourceStatus, ready: Seq<KvSourceId>) -> KvSourceStatus {
    if status.active() is Some && !ready.contains(status.active()->0.id()) {
        KvSourceStatus::Missing
    } else {
        status
    }
}

/// The sources that a transport lets through: an active source that is not ready is missing.
pub open spec fn gated_sources(
    sources: Map<WorkerWithDpRank, KvSourceStatus>,
    ready: Seq<KvSourceId>,
) -> Map<WorkerWithDpRank, KvSourceStatus> {
    with_statuses(sources, |worker: WorkerWithDpRank, status: KvSourceStatus|
        gated_status(status, ready))
}

impl SameAs for KvSourceId {
    fn same(&self, other: &Self) -> (same: bool) {
        *self == *other
    }
}

/// Membership as seen through a transport on which only `ready` sources are connected.
pub fn gate_sources(
    sources: &Table<WorkerWithDpRank, KvSourceStatus>,
    ready: &Vec<KvSourceId>,
) -> (effective: Table<WorkerWithDpRank, KvSourceStatus>)
    ensures
        effective@ == gated_sources(sources@, ready@),
{
    let mut effective: Table<WorkerWithDpRank, KvSourceStatus> = Table::new();
    let len: usize = sources.len();
    let mut i: usize = 0;
    while i < len
        invariant
            i <= len,
            len == sources.listing().len(),
            forall|j: int|
                0 <= j < len ==> sources@.dom().contains((#[trigger] sources.listing()[j]).0)
                    && sources@[sources.listing()[j].0] == sources.listing()[j].1,
            forall|j: int|
                0 <= j < i ==> effective@.dom().contains((#[trigger] sources.listing()[j]).0),
            forall|worker: WorkerWithDpRank| #[trigger]
                effective@.dom().contains(worker) ==> gated_sources(
                    sources@,
                    ready@,
                ).dom().contains(worker) && effective@[worker] == gated_sources(
                    sources@,
                    ready@,
                )[worker],
        decreases len - i,
    {
        let worker = sources.key_at(i);
        let status: KvSourceStatus = *sources.value_at(i);
        let gated: KvSourceStatus = match status.active_source() {
            Some(source) => if contains_item(ready, &source.source_id()) {
                status
            } else {
                KvSourceStatus::Missing
            },
            None => status,
        };
        effective.insert(worker, gated);
        i = i + 1;
    }
    proof {
        assert forall|worker: WorkerWithDpRank| #[trigger]
            gated_sources(sources@, ready@).dom().contains(
                worker,
            ) implies effective@.dom().contains(worker) by {
            assert(has_entry(sources.listing(), worker));
        }
        assert(effective@ =~= gated_sources(sources@, ready@));
    }
    effective
}

/// Transport readiness only ever takes a source away: every active source of the gated view
/// is the very source that membership named for that rank, and it is ready.
pub proof fn law_readiness_introduces_no_source(
    sources: Map<WorkerWithDpRank, KvSourceStatus>,
    ready: Seq<KvSourceId>,
    worker: WorkerWithDpRank,
)
    requires
        gated_sources(sources, ready).dom().contains(worker),
        gated_sources(sources, ready)[worker].active() is Some,
    ensures
        sources.dom().contains(worker),
        gated_sources(sources, ready)[worker] == sources[worker],
        ready.contains(sources[worker].active()->0.id()),
{
}

/// The source mode in which a worker's own events feed the index.
pub const FRAMEWORK_SOURCE_MODE: &'static str = "framework_v1";

/// Whether a worker declares a source mode other than the framework's own.
pub open spec fn declares_other_mode(modes: Map<u64, String>, worker_id: u64) -> bool {
    modes.dom().contains(worker_id) && modes[worker_id]@ != FRAMEWORK_SOURCE_MODE@
}

/// The ranks whose workers declare another source mode.
pub fn source_mode_suppressed_workers(view: &KvSourceMembershipView) -> (workers: Vec<
    WorkerWithDpRank,
>)
    ensures
        workers@.no_duplicates(),
        forall|worker: WorkerWithDpRank| #[trigger]
            workers@.contains(worker) <==> view.sources@.dom().contains(worker)
                && declares_other_mode(view.kv_event_source_mode@, worker.worker_id),
{
    let mut workers: Vec<WorkerWithDpRank> = Vec::new();
    let framework = FRAMEWORK_SOURCE_MODE.to_owned();
    let len: usize = view.sources.len();
    let mut i: usize = 0;
    while i < len
        invariant
            i <= len,
            len == view.sources.listing().len(),
            framework@ == FRAMEWORK_SOURCE_MODE@,
            workers@.no_duplicates(),
            forall|worker: WorkerWithDpRank| #[trigger]
                workers@.contains(worker) <==> has_entry(
                    view.sources.listing().subrange(0, i as int),
                    worker,
                ) && declares_other_mode(view.kv_event_source_mode@, worker.worker_id),
        decreases len - i,
    {
        let worker = view.sources.key_at(i);
        let declared: bool = match view.kv_event_source_mode.get(&worker.worker_id) {
            Some(mode) => *mode != framework,
            None => false,
        };
        proof {
            lemma_prefix_entry(view.sources.listing(), i as int);
        }
        if declared {
            push_unique(&mut workers, worker);
        }
        i = i + 1;
    }
    proof {
        assert(view.sources.listing().subrange(0, i as int) =~= view.sources.listing());
    }
    workers
}

/// Add the ranks whose workers declare another source mode to those that are suppressed already.
pub fn extend_recognized(recognized: &mut Vec<WorkerWithDpRank>, view: &KvSourceMembershipView)
    ensures
        old(recognized)@.no_duplicates() ==> final(recognized)@.no_duplicates(),
        forall|worker: WorkerWithDpRank| #[trigger]
            final(recognized)@.contains(worker) <==> old(recognized)@.contains(worker) || (
            view.sources@.dom().contains(worker) && declares_other_mode(
                view.kv_event_source_mode@,
                worker.worker_id,
            )),
{
    let declared = source_mode_suppressed_workers(view);
    let ghost before = recognized@;
    let mut i: usize = 0;
    while i < declared.len()
        invariant
            i <= declared.len(),
            before.no_duplicates() ==> recognized@.no_duplicates(),
            forall|worker: WorkerWithDpRank| #[trigger]
                recognized@.contains(worker) <==> before.contains(worker) || declared@.subrange(
                    0,
                    i as int,
                ).contains(worker),
        decreases declared.len() - i,
    {
        let worker = declared[i];
        proof {
            lemma_prefix_grows(declared@, i as int);
            lemma_push_contains(declared@.subrange(0, i as int), worker);
        }
        push_unique(recognized, worker);
        i = i + 1;
    }
    proof {
        assert(declared@.subrange(0, i as int) =~= declared@);
    }
}

/// One more entry of a listing names one more key.
pub proof fn lemma_prefix_entry<K, V>(listing: Seq<(K, V)>, i: int)
    requires
        0 <= i < listing.len(),
    ensures
        forall|key: K| #[trigger]
            has_entry(listing.subrange(0, i + 1), key) <==> has_entry(listing.subrange(0, i), key)
                || key == listing[i].0,
{
    let short = listing.subrange(0, i);
    let long = listing.subrange(0, i + 1);
    assert(long[i] == listing[i]);
    assert forall|key: K| #[trigger] has_entry(long, key) <==> has_entry(short, key) || key
        == listing[i].0 by {
        if has_entry(long, key) {
            let j = choose|j: int| 0 <= j < long.len() && (#[trigger] long[j]).0 == key;
            if j < i {
                assert(short[j].0 == key);
            }
        }
        if has_entry(short, key) {
            let j = choose|j: int| 0 <= j < short.len() && (#[trigger] short[j]).0 == key;
            assert(long[j].0 == key);
        }
    }
}

/// The sources after every recognized rank was suppressed.
pub open spec fn suppressed_sources(
    sources: Map<WorkerWithDpRank, KvSourceStatus>,
    recognized: Seq<WorkerWithDpRank>,
) -> Map<WorkerWithDpRank, KvSourceStatus> {
    with_statuses(sources, |worker: WorkerWithDpRank, status: KvSourceStatus|
        if recognized.contains(worker) {
            KvSourceStatus::Suppressed
        } else {
            status
        })
}

/// Suppress the legacy source of every rank that a state source was recognized for.
pub fn suppress_recognized(view: &mut KvSourceMembershipView, recognized: &Vec<WorkerWithDpRank>)
    ensures
        final(view).sources@ == suppressed_sources(old(view).sources@, recognized@),
        final(view).kv_state_endpoint == old(view).kv_state_endpoint,
        final(view).kv_event_publishing_enabled@ == old(view).kv_event_publishing_enabled@,
        final(view).kv_event_source_mode@ == old(view).kv_event_source_mode@,
        final(view).recovery_expected@ == old(view).recovery_expected@,
{
    let ghost before = view.sources@;
    let mut i: usize = 0;
    proof {
        assert(view.sources@ =~= suppressed_sources(before, recognized@.subrange(0, 0)));
    }
    while i < recognized.len()
        invariant
            i <= recognized.len(),
            view.sources@ == suppressed_sources(before, recognized@.subrange(0, i as int)),
            view.kv_state_endpoint == old(view).kv_state_endpoint,
            view.kv_event_publishing_enabled@ == old(view).kv_event_publishing_enabled@,
            view.kv_event_source_mode@ == old(view).kv_event_source_mode@,
            view.recovery_expected@ == old(view).recovery_expected@,
        decreases recognized.len() - i,
    {
        let worker = recognized[i];
        let ghost done = recognized@.subrange(0, i as int);
        proof {
            assert(recognized@.subrange(0, i + 1) =~= done.push(worker));
            lemma_push_contains(done, worker);
        }
        if view.sources.contains_key(&worker) {
            view.sources.insert(worker, KvSourceStatus::Suppressed);
        }
        proof {
            assert(view.sources@ =~= suppressed_sources(before, done.push(worker)));
        }
        i = i + 1;
    }
    proof {
        assert(recognized@.subrange(0, i as int) =~= recognized@);
    }
}

/// A source is named by its endpoint, its worker and its publisher, whatever its recovery target.
pub proof fn law_source_id_names_the_incarnation(source: &KvEventSource, id: KvSourceId)
    requires
        call_ensures(KvEventSource::source_id, (source,), id),
    ensures
        id.kv_state_endpoint == source.kv_state_endpoint,
        id.worker == source.worker,
        id.publisher_id == source.publisher_id,
{
}

/// A rank with a recoverable or a live-only source has that source; in any other status it has
/// none.
pub proof fn law_active_status_has_its_source(
    status: &KvSourceStatus,
    source: KvEventSource,
    found: Option<KvEventSource>,
)
    requires
        call_ensures(KvSourceStatus::active_source, (status,), found),
    ensures
        *status == KvSourceStatus::ActiveRecoverable(source) ==> found == Some(source),
        *status == KvSourceStatus::ActiveLiveOnly(source) ==> found == Some(source),
        *status is Missing || *status is Ambiguous || *status is Suppressed ==> found is None,
{
}

/// Every rank stays listed. An active source that is ready stays as it is, one that is not becomes
/// missing, and a rank without an active source keeps its status.
pub proof fn law_only_ready_sources_stay_active(
    sources: &Table<WorkerWithDpRank, KvSourceStatus>,
    ready: &Vec<KvSourceId>,
    effective: Table<WorkerWithDpRank, KvSourceStatus>,
    worker: WorkerWithDpRank,
    source: KvEventSource,
    id: KvSourceId,
)
    requires
        call_ensures(gate_sources, (sources, ready), effective),
    ensures
        effective@.dom().contains(worker) <==> sources@.dom().contains(worker),
        sources@.dom().contains(worker) && (sources@[worker] == KvSourceStatus::ActiveRecoverable(
            source,
        ) || sources@[worker] == KvSourceStatus::ActiveLiveOnly(source)) && id
            == (KvSourceId {
            kv_state_endpoint: source.kv_state_endpoint,
            worker: source.worker,
            publisher_id: source.publisher_id,
        }) ==> {
            &&& ready@.contains(id) ==> effective@[worker] == sources@[worker]
            &&& !ready@.contains(id) ==> effective@[worker] == KvSourceStatus::Missing
        },
        sources@.dom().contains(worker) && (sources@[worker] is Missing || sources@[worker]
            is Ambiguous || sources@[worker] is Suppressed) ==> effective@[worker]
            == sources@[worker],
{
}

/// A listed rank is suppressed for its mode exactly if its worker declares one and it is not the
/// framework's; a rank whose worker declares nothing is not.
pub proof fn law_other_mode_suppresses_the_rank(
    view: &KvSourceMembershipView,
    workers: Vec<WorkerWithDpRank>,
    worker: WorkerWithDpRank,
)
    requires
        call_ensures(source_mode_suppressed_workers, (view,), workers),
    ensures
        workers@.no_duplicates(),
        workers@.contains(worker) ==> view.sources@.dom().contains(worker),
        !view.kv_event_source_mode@.dom().contains(worker.worker_id) ==> !workers@.contains(worker),
        view.sources@.dom().contains(worker) && view.kv_event_source_mode@.dom().contains(
            worker.worker_id,
        ) ==> (workers@.contains(worker) <==> view.kv_event_source_mode@[worker.worker_id]@
            != "framework_v1"@),
{
}

/// Extending the recognized ranks keeps those that are there, and adds each listed rank whose
/// worker declares another mode and no other.
pub proof fn law_recognized_ranks_only_grow(
    recognized: &mut Vec<WorkerWithDpRank>,
    view: &KvSourceMembershipView,
    worker: WorkerWithDpRank,
)
    requires
        call_ensures(extend_recognized, (recognized, view), ()),
    ensures
        old(recognized)@.contains(worker) ==> final(recognized)@.contains(worker),
        view.sources@.dom().contains(worker) && view.kv_event_source_mode@.dom().contains(
            worker.worker_id,
        ) && view.kv_event_source_mode@[worker.worker_id]@ != "framework_v1"@
            ==> final(recognized)@.contains(worker),
        final(recognized)@.contains(worker) && !old(recognized)@.contains(worker)
            ==> view.sources@.dom().contains(worker) && view.kv_event_source_mode@.dom().contains(
            worker.worker_id,
        ) && view.kv_event_source_mode@[worker.worker_id]@ != "framework_v1"@,
{
}

/// Suppression takes the source of each recognized rank that is listed, leaves every other rank
/// as it is, and lists no new one.
pub proof fn law_recognized_ranks_are_suppressed(
    view: &mut KvSourceMembershipView,
    recognized: &Vec<WorkerWithDpRank>,
    worker: WorkerWithDpRank,
)
    requires
        call_ensures(suppress_recognized, (view, recognized), ()),
    ensures
        final(view).sources@.dom().contains(worker) <==> old(view).sources@.dom().contains(worker),
        old(view).sources@.dom().contains(worker) && recognized@.contains(worker)
            ==> final(view).sources@[worker] == KvSourceStatus::Suppressed,
        old(view).sources@.dom().contains(worker) && !recognized@.contains(worker)
            ==> final(view).sources@[worker] == old(view).sources@[worker],
        final(view).kv_state_endpoint == old(view).kv_state_endpoint,
        final(view).kv_event_publishing_enabled@ == old(view).kv_event_publishing_enabled@,
        final(view).kv_event_source_mode@ == old(view).kv_event_source_mode@,
        final(view).recovery_expected@ == old(view).recovery_expected@,
{
}

} // verus!
