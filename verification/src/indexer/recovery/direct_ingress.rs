//! Direct connections to event publishers: when each is connected, active or fenced.
//!
//! A connection is made before its publisher feeds any rank, so that nothing published between
//! activation and connection is lost.
use vstd::prelude::*;

use crate::lists::{contains_item, lemma_prefix_grows, lemma_push_contains, push_unique};
use crate::membership::{KvEventSource, KvSourceId, KvSourceStatus};
use crate::protocols::WorkerWithDpRank;
use crate::indexer::recovery::subscription::Backoff;
use crate::table::{has_entry, Table};

verus! {

#[derive(Debug)]
pub enum SourceState {
    Connecting,
    /// Connected, and waiting to be let through.
    Preconnected,
    /// Feeding exactly these sources.
    Active { bindings: Vec<KvSourceId> },
    Fenced,
}

#[derive(Debug)]
pub struct SourceTask {
    pub endpoint: String,
    pub task_generation: u64,
    pub state: SourceState,
    /// The shared connection that the task is part of, if it is.
    pub group_id: Option<u64>,
}

/// What a [`SourceState`] says.
pub enum StateView {
    Connecting,
    Preconnected,
    Active(Set<KvSourceId>),
    Fenced,
}

/// What a [`SourceTask`] holds.
pub struct TaskView {
    pub endpoint: Seq<char>,
    pub task_generation: u64,
    pub state: StateView,
    pub group_id: Option<u64>,
}

/// The gauge that counts tasks in a state.
#[derive(Clone, Copy, Debug, PartialEq, Eq, Structural)]
pub enum SourceGauge {
    Preconnected,
    Active,
}

impl View for SourceState {
    type V = StateView;

    open spec fn view(&self) -> StateView {
        match self {
            SourceState::Connecting => StateView::Connecting,
            SourceState::Preconnected => StateView::Preconnected,
            SourceState::Active { bindings } => StateView::Active(bindings@.to_set()),
            SourceState::Fenced => StateView::Fenced,
        }
    }
}

impl View for SourceTask {
    type V = TaskView;

    open spec fn view(&self) -> TaskView {
        TaskView {
            endpoint: self.endpoint@,
            task_generation: self.task_generation,
            state: self.state@,
            group_id: self.group_id,
        }
    }
}

impl StateView {
    pub open spec fn ready(self) -> bool {
        self is Preconnected || self is Active
    }

    /// The gauge that counts tasks in this state.
    pub open spec fn counted(self) -> Option<SourceGauge> {
        match self {
            StateView::Preconnected => Some(SourceGauge::Preconnected),
            StateView::Active(_) => Some(SourceGauge::Active),
            _ => None,
        }
    }
}

impl SourceState {
    pub fn is_ready(&self) -> (ready: bool)
        ensures
            ready == self@.ready(),
    {
        match self {
            SourceState::Preconnected => true,
            SourceState::Active { .. } => true,
            _ => false,
        }
    }

    pub fn active_bindings(&self) -> (bindings: Option<&Vec<KvSourceId>>)
        ensures
            match bindings {
                Some(bindings) => self@ == StateView::Active(bindings@.to_set()),
                None => !(self@ is Active),
            },
    {
        match self {
            SourceState::Active { bindings } => Some(bindings),
            _ => None,
        }
    }

    /// The gauge to raise on entering the state, and to lower on leaving it.
    pub fn gauge(&self) -> (gauge: Option<SourceGauge>)
        ensures
            gauge == self@.counted(),
    {
        match self {
            SourceState::Preconnected => Some(SourceGauge::Preconnected),
            SourceState::Active { .. } => Some(SourceGauge::Active),
            _ => None,
        }
    }
}

/// What an advertised channel leads to.
#[derive(Clone, Copy, Debug, PartialEq, Eq, Structural)]
pub enum ChannelStep {
    Ignore,
    /// Start a task for the publisher.
    Start { task_generation: u64 },
    /// The publisher changed its endpoint: stop its task, fence it, and trust it no more.
    Invalidate { task_generation: u64 },
}

#[derive(Debug)]
pub struct DirectIngress {
    sources: Table<u64, SourceTask>,
    invalid_publishers: Vec<u64>,
    next_task_generation: u64,
}

/// What a [`DirectIngress`] holds.
pub struct IngressView {
    pub sources: Map<u64, TaskView>,
    pub invalid_publishers: Set<u64>,
    pub next_task_generation: u64,
}

impl IngressView {
    /// Whether the publisher has this very task.
    pub open spec fn runs_task(self, publisher_id: u64, task_generation: u64) -> bool {
        self.sources.dom().contains(publisher_id) && self.sources[publisher_id].task_generation
            == task_generation
    }

    /// Whether the publisher's connection waits to be let through.
    pub open spec fn waits(self, publisher_id: u64) -> bool {
        self.sources.dom().contains(publisher_id) && self.sources[publisher_id].state
            is Preconnected
    }
}

pub open spec fn task_views(sources: Map<u64, SourceTask>) -> Map<u64, TaskView> {
    Map::new(|publisher_id: u64| sources.dom().contains(publisher_id), |publisher_id: u64|
        sources[publisher_id]@)
}

impl View for DirectIngress {
    type V = IngressView;

    closed spec fn view(&self) -> IngressView {
        IngressView {
            sources: task_views(self.sources@),
            invalid_publishers: self.invalid_publishers@.to_set(),
            next_task_generation: self.next_task_generation,
        }
    }
}

pub open spec fn next_generation(generation: u64) -> u64 {
    if generation == u64::MAX {
        0
    } else {
        (generation + 1) as u64
    }
}

/// The publishers that one lost connection takes down: all that share it.
pub open spec fn is_affected(
    sources: Map<u64, TaskView>,
    publisher_id: u64,
    task_generation: u64,
    group_id: Option<u64>,
    other: u64,
) -> bool {
    &&& sources.dom().contains(publisher_id)
    &&& sources[publisher_id].task_generation == task_generation
    &&& sources[publisher_id].group_id == group_id
    &&& match group_id {
        Some(_) => sources.dom().contains(other) && sources[other].group_id == group_id,
        None => other == publisher_id,
    }
}

/// A source that membership names and whose connection stands.
pub open spec fn is_ready_source(
    sources: Map<u64, TaskView>,
    membership: Map<WorkerWithDpRank, KvSourceStatus>,
    id: KvSourceId,
) -> bool {
    &&& exists|worker: WorkerWithDpRank|
        #[trigger] membership.dom().contains(worker) && membership[worker].active() is Some
            && membership[worker].active()->0.id() == id
    &&& sources.dom().contains(id.publisher_id)
    &&& sources[id.publisher_id].state.ready()
}

pub open spec fn bindings_of(ready: Set<KvSourceId>, publisher_id: u64) -> Set<KvSourceId> {
    ready.filter(|id: KvSourceId| id.publisher_id == publisher_id)
}

/// An active connection that feeds other sources than it should.
pub open spec fn is_stale_connection(
    sources: Map<u64, TaskView>,
    ready: Set<KvSourceId>,
    publisher_id: u64,
) -> bool {
    &&& sources.dom().contains(publisher_id)
    &&& sources[publisher_id].state is Active
    &&& sources[publisher_id].state->Active_0 != bindings_of(ready, publisher_id)
}

/// A connection that may be let through: it waits, and all its sources were bound while it
/// waited.
pub open spec fn may_activate(
    sources: Map<u64, TaskView>,
    current: Set<KvSourceId>,
    preconnected: Set<KvSourceId>,
    publisher_id: u64,
) -> bool {
    &&& exists|id: KvSourceId| #[trigger] current.contains(id) && id.publisher_id == publisher_id
    &&& bindings_of(current, publisher_id).subset_of(preconnected)
    &&& sources.dom().contains(publisher_id)
    &&& sources[publisher_id].state is Preconnected
}

pub fn bindings_for_publisher(ready: &Vec<KvSourceId>, publisher_id: u64) -> (bindings: Vec<
    KvSourceId,
>)
    ensures
        bindings@.to_set() == bindings_of(ready@.to_set(), publisher_id),
        bindings@.no_duplicates(),
{
    let mut bindings: Vec<KvSourceId> = Vec::new();
    let mut i: usize = 0;
    while i < ready.len()
        invariant
            i <= ready.len(),
            bindings@.no_duplicates(),
            forall|id: KvSourceId| #[trigger]
                bindings@.contains(id) <==> ready@.subrange(0, i as int).contains(id)
                    && id.publisher_id == publisher_id,
        decreases ready.len() - i,
    {
        let id = ready[i];
        proof {
            lemma_prefix_grows(ready@, i as int);
            lemma_push_contains(ready@.subrange(0, i as int), id);
        }
        if id.publisher_id == publisher_id {
            push_unique(&mut bindings, id);
        }
        i = i + 1;
    }
    proof {
        assert(ready@.subrange(0, i as int) =~= ready@);
        assert forall|id: KvSourceId| bindings@.to_set().contains(id) <==> bindings_of(
            ready@.to_set(),
            publisher_id,
        ).contains(id) by {
            assert(bindings@.to_set().contains(id) <==> bindings@.contains(id));
            assert(ready@.to_set().contains(id) <==> ready@.contains(id));
        }
        assert(bindings@.to_set() =~= bindings_of(ready@.to_set(), publisher_id));
    }
    bindings
}

fn is_subset(left: &Vec<KvSourceId>, right: &Vec<KvSourceId>) -> (subset: bool)
    ensures
        subset == left@.to_set().subset_of(right@.to_set()),
{
    let mut i: usize = 0;
    while i < left.len()
        invariant
            i <= left.len(),
            forall|j: int| 0 <= j < i ==> right@.contains(#[trigger] left@[j]),
        decreases left.len() - i,
    {
        if !contains_item(right, &left[i]) {
            proof {
                assert(left@.to_set().contains(left@[i as int]));
                assert(!right@.to_set().contains(left@[i as int]));
            }
            return false;
        }
        i = i + 1;
    }
    proof {
        assert forall|id: KvSourceId| left@.to_set().contains(id) implies right@.to_set().contains(
            id,
        ) by {
            let j = choose|j: int| 0 <= j < left@.len() && left@[j] == id;
            assert(right@.contains(left@[j]));
        }
    }
    true
}

fn same_bindings(left: &Vec<KvSourceId>, right: &Vec<KvSourceId>) -> (same: bool)
    ensures
        same == (left@.to_set() == right@.to_set()),
{
    let same: bool = is_subset(left, right) && is_subset(right, left);
    proof {
        if same {
            assert(left@.to_set() =~= right@.to_set());
        }
    }
    same
}

impl DirectIngress {
    pub fn new() -> (ingress: Self)
        ensures
            ingress@.sources == Map::<u64, TaskView>::empty(),
            ingress@.invalid_publishers == Set::<u64>::empty(),
            ingress@.next_task_generation == 1,
    {
        let ingress = DirectIngress {
            sources: Table::new(),
            invalid_publishers: Vec::new(),
            next_task_generation: 1,
        };
        proof {
            assert(ingress@.sources =~= Map::<u64, TaskView>::empty());
            assert(ingress@.invalid_publishers =~= Set::<u64>::empty());
        }
        ingress
    }

    fn put(&mut self, publisher_id: u64, task: SourceTask)
        ensures
            final(self)@ == (IngressView {
                sources: old(self)@.sources.insert(publisher_id, task@),
                ..old(self)@
            }),
    {
        self.sources.insert(publisher_id, task);
        proof {
            assert(self@.sources =~= old(self)@.sources.insert(publisher_id, task@));
        }
    }

    fn take(&mut self, publisher_id: u64) -> (task: Option<SourceTask>)
        ensures
            final(self)@ == (IngressView {
                sources: old(self)@.sources.remove(publisher_id),
                ..old(self)@
            }),
            match task {
                Some(task) => {
                    &&& old(self)@.sources.dom().contains(publisher_id)
                    &&& old(self)@.sources[publisher_id] == task@
                },
                None => !old(self)@.sources.dom().contains(publisher_id),
            },
    {
        let task = self.sources.remove(&publisher_id);
        proof {
            assert(self@.sources =~= old(self)@.sources.remove(publisher_id));
        }
        task
    }

    fn start_task(&mut self, publisher_id: u64, endpoint: String) -> (task_generation: u64)
        ensures
            task_generation == old(self)@.next_task_generation,
            final(self)@ == (IngressView {
                sources: old(self)@.sources.insert(
                    publisher_id,
                    TaskView {
                        endpoint: endpoint@,
                        task_generation,
                        state: StateView::Connecting,
                        group_id: None,
                    },
                ),
                next_task_generation: next_generation(old(self)@.next_task_generation),
                ..old(self)@
            }),
    {
        let task_generation: u64 = self.next_task_generation;
        self.next_task_generation = task_generation.wrapping_add(1);
        self.put(
            publisher_id,
            SourceTask { endpoint, task_generation, state: SourceState::Connecting, group_id: None },
        );
        task_generation
    }

    /// A channel was advertised; `endpoint` is `None` when it is not a direct one.
    pub fn on_channel_added(&mut self, publisher_id: u64, endpoint: Option<String>) -> (step:
        ChannelStep)
        ensures
            match endpoint {
                None => step == ChannelStep::Ignore && final(self)@ == old(self)@,
                Some(endpoint) => if old(self)@.invalid_publishers.contains(publisher_id) {
                    step == ChannelStep::Ignore && final(self)@ == old(self)@
                } else if old(self)@.sources.dom().contains(publisher_id) {
                    let existing = old(self)@.sources[publisher_id];
                    if existing.endpoint == endpoint@ {
                        step == ChannelStep::Ignore && final(self)@ == old(self)@
                    } else {
                        step == (ChannelStep::Invalidate {
                            task_generation: existing.task_generation,
                        }) && final(self)@ == (IngressView {
                            sources: old(self)@.sources.remove(publisher_id),
                            invalid_publishers: old(self)@.invalid_publishers.insert(publisher_id),
                            ..old(self)@
                        })
                    }
                } else {
                    step == (ChannelStep::Start {
                        task_generation: old(self)@.next_task_generation,
                    }) && final(self)@ == (IngressView {
                        sources: old(self)@.sources.insert(
                            publisher_id,
                            TaskView {
                                endpoint: endpoint@,
                                task_generation: old(self)@.next_task_generation,
                                state: StateView::Connecting,
                                group_id: None,
                            },
                        ),
                        next_task_generation: next_generation(old(self)@.next_task_generation),
                        ..old(self)@
                    })
                },
            },
    {
        let endpoint = match endpoint {
            Some(endpoint) => endpoint,
            None => return ChannelStep::Ignore,
        };
        proof {
            assert(self@.invalid_publishers.contains(publisher_id)
                <==> self.invalid_publishers@.contains(publisher_id));
        }
        if contains_item(&self.invalid_publishers, &publisher_id) {
            return ChannelStep::Ignore;
        }
        let mut changed: Option<u64> = None;
        if let Some(existing) = self.sources.get(&publisher_id) {
            proof {
                assert(self@.sources[publisher_id] == existing@);
            }
            if existing.endpoint == endpoint {
                return ChannelStep::Ignore;
            }
            changed = Some(existing.task_generation);
        }
        match changed {
            Some(task_generation) => {
                let _ = self.take(publisher_id);
                let ghost before = self.invalid_publishers@;
                self.invalid_publishers.push(publisher_id);
                proof {
                    lemma_push_contains(before, publisher_id);
                    assert forall|id: u64| self.invalid_publishers@.to_set().contains(id)
                        <==> before.to_set().insert(publisher_id).contains(id) by {
                        assert(before.push(publisher_id).contains(id) <==> before.contains(id) || id
                            == publisher_id);
                        assert(before.to_set().contains(id) <==> before.contains(id));
                    }
                    assert(self@.invalid_publishers =~= old(self)@.invalid_publishers.insert(
                        publisher_id,
                    ));
                }
                ChannelStep::Invalidate { task_generation }
            },
            None => ChannelStep::Start {
                task_generation: self.start_task(publisher_id, endpoint),
            },
        }
    }

    /// A channel was withdrawn: the generation of the task to stop, if there is one.
    pub fn on_channel_removed(&mut self, publisher_id: u64) -> (stopped: Option<u64>)
        ensures
            final(self)@ == (IngressView {
                sources: old(self)@.sources.remove(publisher_id),
                invalid_publishers: old(self)@.invalid_publishers.remove(publisher_id),
                ..old(self)@
            }),
            stopped == if old(self)@.sources.dom().contains(publisher_id) {
                Some(old(self)@.sources[publisher_id].task_generation)
            } else {
                None
            },
    {
        let mut kept: Vec<u64> = Vec::new();
        let mut i: usize = 0;
        while i < self.invalid_publishers.len()
            invariant
                i <= self.invalid_publishers.len(),
                *self == *old(self),
                forall|id: u64| #[trigger]
                    kept@.contains(id) <==> self.invalid_publishers@.subrange(
                        0,
                        i as int,
                    ).contains(id) && id != publisher_id,
            decreases self.invalid_publishers.len() - i,
        {
            let id: u64 = self.invalid_publishers[i];
            proof {
                lemma_prefix_grows(self.invalid_publishers@, i as int);
                lemma_push_contains(self.invalid_publishers@.subrange(0, i as int), id);
                lemma_push_contains(kept@, id);
            }
            if id != publisher_id {
                kept.push(id);
            }
            i = i + 1;
        }
        let ghost invalid = self.invalid_publishers@;
        proof {
            assert(invalid.subrange(0, i as int) =~= invalid);
            assert forall|id: u64| kept@.to_set().contains(id) <==> invalid.to_set().remove(
                publisher_id,
            ).contains(id) by {
                assert(kept@.to_set().contains(id) <==> kept@.contains(id));
                assert(invalid.to_set().contains(id) <==> invalid.contains(id));
            }
            assert(kept@.to_set() =~= invalid.to_set().remove(publisher_id));
        }
        self.invalid_publishers = kept;
        match self.take(publisher_id) {
            Some(task) => Some(task.task_generation),
            None => None,
        }
    }

    /// A task reports that it is connected; a stale task is not heard.
    pub fn on_ready(
        &mut self,
        publisher_id: u64,
        task_generation: u64,
        group_id: Option<u64>,
    ) -> (accepted: bool)
        ensures
            accepted == old(self)@.runs_task(publisher_id, task_generation),
            final(self)@ == if accepted {
                IngressView {
                    sources: old(self)@.sources.insert(
                        publisher_id,
                        TaskView {
                            state: StateView::Preconnected,
                            group_id,
                            ..old(self)@.sources[publisher_id]
                        },
                    ),
                    ..old(self)@
                }
            } else {
                old(self)@
            },
    {
        match self.take(publisher_id) {
            Some(mut task) => {
                let accepted: bool = task.task_generation == task_generation;
                if accepted {
                    task.group_id = group_id;
                    task.state = SourceState::Preconnected;
                }
                let ghost after = task@;
                self.put(publisher_id, task);
                proof {
                    assert(self@.sources =~= old(self)@.sources.insert(publisher_id, after));
                    if !accepted {
                        assert(self@.sources =~= old(self)@.sources);
                    }
                }
                accepted
            },
            None => {
                proof {
                    assert(self@.sources =~= old(self)@.sources);
                }
                false
            },
        }
    }

    /// The publishers that a lost connection takes down.
    pub fn affected_source_ids(
        &self,
        publisher_id: u64,
        task_generation: u64,
        group_id: Option<u64>,
    ) -> (affected: Vec<u64>)
        ensures
            affected@.no_duplicates(),
            forall|other: u64| #[trigger]
                affected@.contains(other) <==> is_affected(
                    self@.sources,
                    publisher_id,
                    task_generation,
                    group_id,
                    other,
                ),
    {
        let mut affected: Vec<u64> = Vec::new();
        match self.sources.get(&publisher_id) {
            Some(task) => {
                proof {
                    assert(self@.sources[publisher_id] == task@);
                }
                if task.task_generation != task_generation || task.group_id != group_id {
                    return affected;
                }
            },
            None => return affected,
        }
        if group_id.is_none() {
            affected.push(publisher_id);
            proof {
                assert(affected@[0] == publisher_id);
            }
            return affected;
        }
        let keys = self.sources.keys();
        let mut i: usize = 0;
        while i < keys.len()
            invariant
                i <= keys.len(),
                group_id is Some,
                keys@.no_duplicates(),
                forall|key: u64| #[trigger]
                    keys@.contains(key) <==> self@.sources.dom().contains(key),
                affected@.no_duplicates(),
                forall|other: u64| #[trigger]
                    affected@.contains(other) <==> keys@.subrange(0, i as int).contains(other)
                        && self@.sources[other].group_id == group_id,
            decreases keys.len() - i,
        {
            let key: u64 = keys[i];
            proof {
                assert(keys@.contains(key));
                lemma_prefix_grows(keys@, i as int);
                lemma_push_contains(keys@.subrange(0, i as int), key);
            }
            let shares: bool = match self.sources.get(&key) {
                Some(task) => task.group_id == group_id,
                None => false,
            };
            if shares {
                push_unique(&mut affected, key);
            }
            i = i + 1;
        }
        proof {
            assert(keys@.subrange(0, i as int) =~= keys@);
        }
        affected
    }

    /// A connection was lost: fence everything that shared it, and say what to fence further on.
    pub fn on_disconnected(
        &mut self,
        publisher_id: u64,
        task_generation: u64,
        group_id: Option<u64>,
    ) -> (affected: Vec<u64>)
        ensures
            affected@.no_duplicates(),
            forall|other: u64| #[trigger]
                affected@.contains(other) <==> is_affected(
                    old(self)@.sources,
                    publisher_id,
                    task_generation,
                    group_id,
                    other,
                ),
            final(self)@.invalid_publishers == old(self)@.invalid_publishers,
            final(self)@.next_task_generation == old(self)@.next_task_generation,
            final(self)@.sources.dom() == old(self)@.sources.dom(),
            forall|other: u64| #[trigger]
                old(self)@.sources.dom().contains(other) ==> final(self)@.sources[other]
                    == if is_affected(
                    old(self)@.sources,
                    publisher_id,
                    task_generation,
                    group_id,
                    other,
                ) {
                    TaskView {
                        state: StateView::Fenced,
                        group_id: None,
                        ..old(self)@.sources[other]
                    }
                } else {
                    old(self)@.sources[other]
                },
    {
        let affected = self.affected_source_ids(publisher_id, task_generation, group_id);
        let ghost before = self@;
        let mut i: usize = 0;
        while i < affected.len()
            invariant
                i <= affected.len(),
                before == old(self)@,
                affected@.no_duplicates(),
                forall|other: u64| #[trigger]
                    affected@.contains(other) <==> is_affected(
                        before.sources,
                        publisher_id,
                        task_generation,
                        group_id,
                        other,
                    ),
                self@.invalid_publishers == before.invalid_publishers,
                self@.next_task_generation == before.next_task_generation,
                self@.sources.dom() == before.sources.dom(),
                forall|other: u64| #[trigger]
                    before.sources.dom().contains(other) ==> self@.sources[other]
                        == if affected@.subrange(0, i as int).contains(other) {
                        TaskView {
                            state: StateView::Fenced,
                            group_id: None,
                            ..before.sources[other]
                        }
                    } else {
                        before.sources[other]
                    },
            decreases affected.len() - i,
        {
            let key: u64 = affected[i];
            proof {
                assert(affected@.contains(key));
                lemma_prefix_grows(affected@, i as int);
                lemma_push_contains(affected@.subrange(0, i as int), key);
            }
            let ghost current = self@.sources;
            if let Some(mut task) = self.take(key) {
                task.group_id = None;
                task.state = SourceState::Fenced;
                self.put(key, task);
            }
            proof {
                assert(before.sources.dom().contains(key));
                assert(self@.sources.dom() =~= before.sources.dom());
            }
            i = i + 1;
        }
        proof {
            assert(affected@.subrange(0, i as int) =~= affected@);
        }
        affected
    }

    /// The sources of the membership whose connection stands.
    pub fn ready_sources(&self, membership: &Table<WorkerWithDpRank, KvSourceStatus>) -> (ready: Vec<
        KvSourceId,
    >)
        ensures
            ready@.no_duplicates(),
            forall|id: KvSourceId| #[trigger]
                ready@.contains(id) <==> is_ready_source(self@.sources, membership@, id),
    {
        let mut ready: Vec<KvSourceId> = Vec::new();
        let len: usize = membership.len();
        let ghost listing = membership.listing();
        let mut i: usize = 0;
        while i < len
            invariant
                i <= len,
                len == listing.len(),
                listing == membership.listing(),
                forall|j: int|
                    0 <= j < len ==> membership@.dom().contains((#[trigger] listing[j]).0)
                        && membership@[listing[j].0] == listing[j].1,
                ready@.no_duplicates(),
                forall|id: KvSourceId| #[trigger]
                    ready@.contains(id) ==> is_ready_source(self@.sources, membership@, id),
                forall|j: int|
                    0 <= j < i && (#[trigger] listing[j]).1.active() is Some && is_ready_source(
                        self@.sources,
                        membership@,
                        listing[j].1.active()->0.id(),
                    ) ==> ready@.contains(listing[j].1.active()->0.id()),
            decreases len - i,
        {
            proof {
                assert(membership@.dom().contains(listing[i as int].0));
            }
            if let Some(source) = membership.value_at(i).active_source() {
                if let Some(task) = self.sources.get(&source.publisher_id) {
                    proof {
                        assert(self@.sources[source.publisher_id] == task@);
                    }
                    if task.state.is_ready() {
                        push_unique(&mut ready, source.source_id());
                    }
                }
            }
            i = i + 1;
        }
        proof {
            assert forall|id: KvSourceId| is_ready_source(
                self@.sources,
                membership@,
                id,
            ) implies #[trigger] ready@.contains(id) by {
                let worker = choose|worker: WorkerWithDpRank|
                    #[trigger] membership@.dom().contains(worker) && membership@[worker].active()
                        is Some && membership@[worker].active()->0.id() == id;
                assert(has_entry(listing, worker));
                let j = choose|j: int| 0 <= j < listing.len() && (#[trigger] listing[j]).0 == worker;
                assert(listing[j].1.active()->0.id() == id);
            }
        }
        ready
    }

    /// The active connections that feed other sources than they should: to be restarted.
    pub fn stale_publishers(&self, ready: &Vec<KvSourceId>) -> (stale: Vec<u64>)
        ensures
            stale@.no_duplicates(),
            forall|publisher_id: u64| #[trigger]
                stale@.contains(publisher_id) <==> is_stale_connection(
                    self@.sources,
                    ready@.to_set(),
                    publisher_id,
                ),
    {
        let mut stale: Vec<u64> = Vec::new();
        let keys = self.sources.keys();
        let mut i: usize = 0;
        while i < keys.len()
            invariant
                i <= keys.len(),
                keys@.no_duplicates(),
                forall|key: u64| #[trigger]
                    keys@.contains(key) <==> self@.sources.dom().contains(key),
                stale@.no_duplicates(),
                forall|key: u64| #[trigger]
                    stale@.contains(key) <==> keys@.subrange(0, i as int).contains(key)
                        && is_stale_connection(self@.sources, ready@.to_set(), key),
            decreases keys.len() - i,
        {
            let key: u64 = keys[i];
            proof {
                assert(keys@.contains(key));
                lemma_prefix_grows(keys@, i as int);
                lemma_push_contains(keys@.subrange(0, i as int), key);
            }
            let mut is_stale: bool = false;
            if let Some(task) = self.sources.get(&key) {
                proof {
                    assert(self@.sources[key] == task@);
                }
                if let Some(active) = task.state.active_bindings() {
                    let wanted = bindings_for_publisher(ready, key);
                    is_stale = !same_bindings(active, &wanted);
                }
            }
            if is_stale {
                push_unique(&mut stale, key);
            }
            i = i + 1;
        }
        proof {
            assert(keys@.subrange(0, i as int) =~= keys@);
        }
        stale
    }

    /// Replace the task of a publisher by a new one: the generations of the task to stop and of
    /// the one to start. The publisher is fenced in between.
    pub fn restart_source(&mut self, publisher_id: u64) -> (replaced: Option<(u64, u64)>)
        ensures
            if old(self)@.sources.dom().contains(publisher_id) {
                let task = old(self)@.sources[publisher_id];
                replaced == Some((task.task_generation, old(self)@.next_task_generation))
                    && final(self)@ == (IngressView {
                    sources: old(self)@.sources.insert(
                        publisher_id,
                        TaskView {
                            endpoint: task.endpoint,
                            task_generation: old(self)@.next_task_generation,
                            state: StateView::Connecting,
                            group_id: None,
                        },
                    ),
                    next_task_generation: next_generation(old(self)@.next_task_generation),
                    ..old(self)@
                })
            } else {
                replaced is None && final(self)@ == old(self)@
            },
    {
        match self.take(publisher_id) {
            Some(task) => {
                let stopped: u64 = task.task_generation;
                let started: u64 = self.start_task(publisher_id, task.endpoint);
                proof {
                    assert(self@.sources =~= old(self)@.sources.insert(
                        publisher_id,
                        self@.sources[publisher_id],
                    ));
                }
                Some((stopped, started))
            },
            None => {
                proof {
                    assert(self@.sources =~= old(self)@.sources);
                }
                None
            },
        }
    }

    /// The connections to let through after membership was applied for `preconnected`.
    pub fn activation_candidates(
        &self,
        current: &Vec<KvSourceId>,
        preconnected: &Vec<KvSourceId>,
    ) -> (publishers: Vec<u64>)
        ensures
            publishers@.no_duplicates(),
            forall|publisher_id: u64| #[trigger]
                publishers@.contains(publisher_id) <==> may_activate(
                    self@.sources,
                    current@.to_set(),
                    preconnected@.to_set(),
                    publisher_id,
                ),
    {
        let mut publishers: Vec<u64> = Vec::new();
        let mut i: usize = 0;
        while i < current.len()
            invariant
                i <= current.len(),
                publishers@.no_duplicates(),
                forall|publisher_id: u64| #[trigger]
                    publishers@.contains(publisher_id) ==> may_activate(
                        self@.sources,
                        current@.to_set(),
                        preconnected@.to_set(),
                        publisher_id,
                    ),
                forall|j: int|
                    0 <= j < i && may_activate(
                        self@.sources,
                        current@.to_set(),
                        preconnected@.to_set(),
                        (#[trigger] current@[j]).publisher_id,
                    ) ==> publishers@.contains(current@[j].publisher_id),
            decreases current.len() - i,
        {
            let publisher_id: u64 = current[i].publisher_id;
            proof {
                assert(current@.contains(current@[i as int]));
                assert(current@.to_set().contains(current@[i as int]));
            }
            let bindings = bindings_for_publisher(current, publisher_id);
            let bound: bool = is_subset(&bindings, preconnected);
            let mut waits: bool = false;
            if let Some(task) = self.sources.get(&publisher_id) {
                proof {
                    assert(self@.sources[publisher_id] == task@);
                }
                waits = match task.state {
                    SourceState::Preconnected => true,
                    _ => false,
                };
            }
            if bound && waits {
                push_unique(&mut publishers, publisher_id);
            }
            i = i + 1;
        }
        proof {
            assert forall|publisher_id: u64| may_activate(
                self@.sources,
                current@.to_set(),
                preconnected@.to_set(),
                publisher_id,
            ) implies #[trigger] publishers@.contains(publisher_id) by {
                let id = choose|id: KvSourceId|
                    #[trigger] current@.to_set().contains(id) && id.publisher_id == publisher_id;
                assert(current@.contains(id));
                let j = choose|j: int| 0 <= j < current@.len() && current@[j] == id;
                assert(current@[j].publisher_id == publisher_id);
            }
        }
        publishers
    }

    /// The outcome of letting a waiting connection through: one that is gone stays fenced.
    pub fn finish_activation(
        &mut self,
        publisher_id: u64,
        bindings: Vec<KvSourceId>,
        granted: bool,
    )
        ensures
            final(self)@ == if old(self)@.waits(publisher_id) {
                IngressView {
                    sources: old(self)@.sources.insert(
                        publisher_id,
                        TaskView {
                            state: if granted {
                                StateView::Active(bindings@.to_set())
                            } else {
                                StateView::Fenced
                            },
                            ..old(self)@.sources[publisher_id]
                        },
                    ),
                    ..old(self)@
                }
            } else {
                old(self)@
            },
    {
        if let Some(mut task) = self.take(publisher_id) {
            let ghost before = task@;
            let waits: bool = match task.state {
                SourceState::Preconnected => true,
                _ => false,
            };
            if waits {
                task.state = if granted {
                    SourceState::Active { bindings }
                } else {
                    SourceState::Fenced
                };
            }
            let ghost after = task@;
            self.put(publisher_id, task);
            proof {
                assert(self@.sources =~= old(self)@.sources.insert(publisher_id, after));
                if !waits {
                    assert(self@.sources =~= old(self)@.sources);
                }
            }
        } else {
            proof {
                assert(self@.sources =~= old(self)@.sources);
            }
        }
    }

    /// The gauge that the task of a publisher counts for.
    pub fn gauge_of(&self, publisher_id: u64) -> (gauge: Option<SourceGauge>)
        ensures
            gauge == if self@.sources.dom().contains(publisher_id) {
                self@.sources[publisher_id].state.counted()
            } else {
                None
            },
    {
        match self.sources.get(&publisher_id) {
            Some(task) => {
                proof {
                    assert(self@.sources[publisher_id] == task@);
                }
                task.state.gauge()
            },
            None => None,
        }
    }

    /// Every publisher with a task, once.
    pub fn publishers(&self) -> (publishers: Vec<u64>)
        ensures
            publishers@.no_duplicates(),
            forall|publisher_id: u64| #[trigger]
                publishers@.contains(publisher_id) <==> self@.sources.dom().contains(publisher_id),
    {
        self.sources.keys()
    }
}

/// What one task goes through, one attempt after the other.
#[derive(Clone, Copy, Debug, PartialEq, Eq, Structural)]
pub enum SourcePhase {
    Connecting,
    AwaitingActivation { group_id: Option<u64> },
    Consuming { group_id: Option<u64> },
    Stopped,
}

#[derive(Clone, Copy, Debug, PartialEq, Eq, Structural)]
pub enum SourceEvent {
    Cancelled,
    ConnectFailed,
    Connected { group_id: Option<u64> },
    /// The supervisor let the connection through.
    Activated,
    /// The supervisor dropped the connection.
    Dismissed,
    /// The connection broke, or its stream ended.
    Disconnected,
}

#[derive(Clone, Copy, Debug, PartialEq, Eq, Structural)]
pub enum SourceAction {
    /// End the task; close the connection where there is one.
    Stop { close: bool },
    AnnounceReady { group_id: Option<u64> },
    Consume,
    /// Close the connection where there is one, announce the loss, wait, and connect again.
    Reconnect { close: bool, group_id: Option<u64>, delay_ms: u64 },
    /// The event does not concern this phase.
    Ignore,
}

#[derive(Clone, Copy, Debug, PartialEq, Eq, Structural)]
pub struct SourceRun {
    pub phase: SourcePhase,
    pub backoff: Backoff,
}

impl SourceRun {
    pub open spec fn wf(self) -> bool {
        self.backoff.wf()
    }

    pub open spec fn on(self, event: SourceEvent) -> (SourceRun, SourceAction) {
        match (self.phase, event) {
            (SourcePhase::Stopped, _) => (self, SourceAction::Ignore),
            (SourcePhase::Connecting, SourceEvent::Cancelled) => (
                SourceRun { phase: SourcePhase::Stopped, ..self },
                SourceAction::Stop { close: false },
            ),
            (_, SourceEvent::Cancelled) => (
                SourceRun { phase: SourcePhase::Stopped, ..self },
                SourceAction::Stop { close: true },
            ),
            (SourcePhase::Connecting, SourceEvent::ConnectFailed) => (
                SourceRun { phase: SourcePhase::Connecting, backoff: self.backoff.next() },
                SourceAction::Reconnect {
                    close: false,
                    group_id: None,
                    delay_ms: self.backoff.delay_ms,
                },
            ),
            (SourcePhase::Connecting, SourceEvent::Connected { group_id }) => (
                SourceRun {
                    phase: SourcePhase::AwaitingActivation { group_id },
                    backoff: Backoff::initial(),
                },
                SourceAction::AnnounceReady { group_id },
            ),
            (SourcePhase::AwaitingActivation { group_id }, SourceEvent::Activated) => (
                SourceRun { phase: SourcePhase::Consuming { group_id }, ..self },
                SourceAction::Consume,
            ),
            (SourcePhase::AwaitingActivation { .. }, SourceEvent::Dismissed) => (
                SourceRun { phase: SourcePhase::Stopped, ..self },
                SourceAction::Stop { close: true },
            ),
            (SourcePhase::AwaitingActivation { group_id }, SourceEvent::Disconnected) => (
                SourceRun { phase: SourcePhase::Connecting, backoff: self.backoff.next() },
                SourceAction::Reconnect { close: true, group_id, delay_ms: self.backoff.delay_ms },
            ),
            (SourcePhase::Consuming { group_id }, SourceEvent::Disconnected) => (
                SourceRun { phase: SourcePhase::Connecting, backoff: self.backoff.next() },
                SourceAction::Reconnect { close: true, group_id, delay_ms: self.backoff.delay_ms },
            ),
            (_, _) => (self, SourceAction::Ignore),
        }
    }

    pub fn new() -> (run: Self)
        ensures
            run.wf(),
            run == (SourceRun { phase: SourcePhase::Connecting, backoff: Backoff::initial() }),
    {
        SourceRun { phase: SourcePhase::Connecting, backoff: Backoff::new() }
    }

    fn reconnect(&mut self, close: bool, group_id: Option<u64>) -> (action: SourceAction)
        requires
            old(self).wf(),
        ensures
            final(self).wf(),
            *final(self) == (SourceRun {
                phase: SourcePhase::Connecting,
                backoff: old(self).backoff.next(),
            }),
            action == (SourceAction::Reconnect {
                close,
                group_id,
                delay_ms: old(self).backoff.delay_ms,
            }),
    {
        self.phase = SourcePhase::Connecting;
        let delay_ms: u64 = self.backoff.take();
        SourceAction::Reconnect { close, group_id, delay_ms }
    }

    /// Take the next event of the task.
    pub fn on_event(&mut self, event: SourceEvent) -> (action: SourceAction)
        requires
            old(self).wf(),
        ensures
            final(self).wf(),
            (*final(self), action) == old(self).on(event),
    {
        match (self.phase, event) {
            (SourcePhase::Stopped, _) => SourceAction::Ignore,
            (SourcePhase::Connecting, SourceEvent::Cancelled) => {
                self.phase = SourcePhase::Stopped;
                SourceAction::Stop { close: false }
            },
            (_, SourceEvent::Cancelled) => {
                self.phase = SourcePhase::Stopped;
                SourceAction::Stop { close: true }
            },
            (SourcePhase::Connecting, SourceEvent::ConnectFailed) => self.reconnect(false, None),
            (SourcePhase::Connecting, SourceEvent::Connected { group_id }) => {
                self.phase = SourcePhase::AwaitingActivation { group_id };
                self.backoff.reset();
                SourceAction::AnnounceReady { group_id }
            },
            (SourcePhase::AwaitingActivation { group_id }, SourceEvent::Activated) => {
                self.phase = SourcePhase::Consuming { group_id };
                SourceAction::Consume
            },
            (SourcePhase::AwaitingActivation { .. }, SourceEvent::Dismissed) => {
                self.phase = SourcePhase::Stopped;
                SourceAction::Stop { close: true }
            },
            (SourcePhase::AwaitingActivation { group_id }, SourceEvent::Disconnected) => {
                self.reconnect(true, group_id)
            },
            (SourcePhase::Consuming { group_id }, SourceEvent::Disconnected) => self.reconnect(
                true,
                group_id,
            ),
            (_, _) => SourceAction::Ignore,
        }
    }
}

/// A lost group connection is dealt with once: after it, the same loss reported by another
/// member finds nothing to fence.
pub proof fn law_group_loss_is_handled_once(
    before: Map<u64, TaskView>,
    after: Map<u64, TaskView>,
    publisher_id: u64,
    task_generation: u64,
    group_id: u64,
    member: u64,
    member_generation: u64,
    other: u64,
)
    requires
        is_affected(before, publisher_id, task_generation, Some(group_id), member),
        after.dom() == before.dom(),
        forall|key: u64| #[trigger]
            before.dom().contains(key) ==> after[key] == if is_affected(
                before,
                publisher_id,
                task_generation,
                Some(group_id),
                key,
            ) {
                TaskView { state: StateView::Fenced, group_id: None, ..before[key] }
            } else {
                before[key]
            },
    ensures
        !is_affected(after, member, member_generation, Some(group_id), other),
{
}

/// Only a connection that waits is let through, and only for sources that were bound while it
/// waited: nothing is fed that was not ready.
pub proof fn law_activation_needs_readiness(
    sources: Map<u64, TaskView>,
    current: Set<KvSourceId>,
    preconnected: Set<KvSourceId>,
    publisher_id: u64,
    id: KvSourceId,
)
    requires
        may_activate(sources, current, preconnected, publisher_id),
        bindings_of(current, publisher_id).contains(id),
    ensures
        preconnected.contains(id),
        sources[publisher_id].state is Preconnected,
{
}

/// A connection is ready while it waits to be let through and while it is active; one that is
/// being made, or is fenced, is not. It is counted under the state that it is ready in.
pub proof fn law_connection_is_ready_once_connected(
    state: &SourceState,
    ready: bool,
    gauge: Option<SourceGauge>,
)
    requires
        call_ensures(SourceState::is_ready, (state,), ready),
        call_ensures(SourceState::gauge, (state,), gauge),
    ensures
        *state is Preconnected ==> ready && gauge == Some(SourceGauge::Preconnected),
        *state is Active ==> ready && gauge == Some(SourceGauge::Active),
        *state is Connecting || *state is Fenced ==> !ready && gauge is None,
{
}

/// A new channel starts a task under a number of its own; the same channel again changes nothing;
/// one with another endpoint ends the task and bars the publisher. A barred publisher, and a
/// channel that is not direct, is ignored. Other publishers are never touched.
pub proof fn law_channel_starts_a_task_or_bars_its_publisher(
    ingress: &mut DirectIngress,
    publisher_id: u64,
    endpoint: Option<String>,
    step: ChannelStep,
    other: u64,
)
    requires
        call_ensures(DirectIngress::on_channel_added, (ingress, publisher_id, endpoint), step),
    ensures
        ({
            let before = old(ingress)@;
            let after = final(ingress)@;
            let known = before.sources.dom().contains(publisher_id);
            &&& endpoint is None || before.invalid_publishers.contains(publisher_id) ==> step
                is Ignore && after == before
            &&& endpoint is Some && !before.invalid_publishers.contains(publisher_id) ==> {
                &&& !known ==> {
                    &&& step == (ChannelStep::Start {
                        task_generation: before.next_task_generation,
                    })
                    &&& after.sources.dom().contains(publisher_id)
                    &&& after.sources[publisher_id].endpoint == endpoint->0@
                    &&& after.sources[publisher_id].task_generation == before.next_task_generation
                    &&& after.sources[publisher_id].state is Connecting
                    &&& after.sources[publisher_id].group_id is None
                    &&& before.next_task_generation < u64::MAX ==> after.next_task_generation
                        == before.next_task_generation + 1
                }
                &&& known && before.sources[publisher_id].endpoint == endpoint->0@ ==> step
                    is Ignore && after == before
                &&& known && before.sources[publisher_id].endpoint != endpoint->0@ ==> {
                    &&& step == (ChannelStep::Invalidate {
                        task_generation: before.sources[publisher_id].task_generation,
                    })
                    &&& !after.sources.dom().contains(publisher_id)
                    &&& after.invalid_publishers.contains(publisher_id)
                }
            }
            &&& other != publisher_id ==> {
                &&& after.sources.dom().contains(other) <==> before.sources.dom().contains(other)
                &&& before.sources.dom().contains(other) ==> after.sources[other]
                    == before.sources[other]
                &&& after.invalid_publishers.contains(other)
                    <==> before.invalid_publishers.contains(other)
            }
        }),
{
}

/// A channel that is withdrawn ends its task, and its publisher may come back; other publishers
/// are not touched.
pub proof fn law_withdrawn_channel_ends_its_task(
    ingress: &mut DirectIngress,
    publisher_id: u64,
    stopped: Option<u64>,
    other: u64,
)
    requires
        call_ensures(DirectIngress::on_channel_removed, (ingress, publisher_id), stopped),
    ensures
        !final(ingress)@.sources.dom().contains(publisher_id),
        !final(ingress)@.invalid_publishers.contains(publisher_id),
        stopped is Some <==> old(ingress)@.sources.dom().contains(publisher_id),
        stopped is Some ==> stopped->0 == old(ingress)@.sources[publisher_id].task_generation,
        other != publisher_id ==> {
            &&& final(ingress)@.sources.dom().contains(other)
                <==> old(ingress)@.sources.dom().contains(other)
            &&& old(ingress)@.sources.dom().contains(other) ==> final(ingress)@.sources[other]
                == old(ingress)@.sources[other]
            &&& final(ingress)@.invalid_publishers.contains(other)
                <==> old(ingress)@.invalid_publishers.contains(other)
        },
{
}

/// Only the task that a publisher runs now can report that it is connected; it then waits, in the
/// group it names, and no other task changes.
pub proof fn law_only_the_current_task_becomes_ready(
    ingress: &mut DirectIngress,
    publisher_id: u64,
    task_generation: u64,
    group_id: Option<u64>,
    accepted: bool,
    other: u64,
)
    requires
        call_ensures(
            DirectIngress::on_ready,
            (ingress, publisher_id, task_generation, group_id),
            accepted,
        ),
    ensures
        accepted <==> old(ingress)@.sources.dom().contains(publisher_id)
            && old(ingress)@.sources[publisher_id].task_generation == task_generation,
        !accepted ==> final(ingress)@ == old(ingress)@,
        accepted ==> {
            let (before, after) = (
                old(ingress)@.sources[publisher_id],
                final(ingress)@.sources[publisher_id],
            );
            &&& after.state is Preconnected
            &&& after.group_id == group_id
            &&& after.endpoint == before.endpoint
            &&& after.task_generation == before.task_generation
        },
        other != publisher_id ==> {
            &&& final(ingress)@.sources.dom().contains(other)
                <==> old(ingress)@.sources.dom().contains(other)
            &&& final(ingress)@.sources[other] == old(ingress)@.sources[other]
        },
{
}

/// A lost connection takes down every publisher of its group, or its own alone where it has none;
/// a loss that another task or another group reports takes down nobody.
pub proof fn law_loss_takes_down_the_group(
    ingress: &DirectIngress,
    publisher_id: u64,
    task_generation: u64,
    group_id: Option<u64>,
    affected: Vec<u64>,
    other: u64,
)
    requires
        call_ensures(
            DirectIngress::affected_source_ids,
            (ingress, publisher_id, task_generation, group_id),
            affected,
        ),
    ensures
        ({
            let sources = ingress@.sources;
            let known = sources.dom().contains(publisher_id) && sources[publisher_id].task_generation
                == task_generation && sources[publisher_id].group_id == group_id;
            &&& !known ==> affected@.len() == 0
            &&& known && group_id is None ==> (affected@.contains(other) <==> other == publisher_id)
            &&& known && group_id is Some ==> (affected@.contains(other)
                <==> sources.dom().contains(other) && sources[other].group_id == group_id)
        }),
        affected@.no_duplicates(),
{
    if affected@.len() > 0 {
        assert(affected@.contains(affected@[0]));
    }
}

/// A source is ready exactly if membership names it as the active source of a rank and its
/// publisher's connection waits or is active.
pub proof fn law_ready_source_is_named_and_connected(
    ingress: &DirectIngress,
    membership: &Table<WorkerWithDpRank, KvSourceStatus>,
    ready: Vec<KvSourceId>,
    worker: WorkerWithDpRank,
    source: KvEventSource,
    id: KvSourceId,
)
    requires
        call_ensures(DirectIngress::ready_sources, (ingress, membership), ready),
    ensures
        ready@.contains(id) ==> ingress@.sources.dom().contains(id.publisher_id) && (
        ingress@.sources[id.publisher_id].state is Preconnected
            || ingress@.sources[id.publisher_id].state is Active),
        membership@.dom().contains(worker) && (membership@[worker]
            == KvSourceStatus::ActiveRecoverable(source) || membership@[worker]
            == KvSourceStatus::ActiveLiveOnly(source)) && ingress@.sources.dom().contains(
            source.publisher_id,
        ) && (ingress@.sources[source.publisher_id].state is Preconnected
            || ingress@.sources[source.publisher_id].state is Active) ==> ready@.contains(
            KvSourceId {
                kv_state_endpoint: source.kv_state_endpoint,
                worker: source.worker,
                publisher_id: source.publisher_id,
            },
        ),
        (forall|rank: WorkerWithDpRank| #[trigger]
            membership@.dom().contains(rank) ==> match membership@[rank] {
                KvSourceStatus::ActiveRecoverable(named) => named.publisher_id != id.publisher_id,
                KvSourceStatus::ActiveLiveOnly(named) => named.publisher_id != id.publisher_id,
                _ => true,
            }) ==> !ready@.contains(id),
        ready@.no_duplicates(),
{
    let named = KvSourceId {
        kv_state_endpoint: source.kv_state_endpoint,
        worker: source.worker,
        publisher_id: source.publisher_id,
    };
    if membership@.dom().contains(worker) && membership@[worker].active() == Some(source)
        && ingress@.sources.dom().contains(source.publisher_id)
        && ingress@.sources[source.publisher_id].state.ready() {
        assert(membership@[worker].active()->0.id() == named);
        assert(is_ready_source(ingress@.sources, membership@, named));
    }
}

/// An active connection is stale exactly if it feeds other sources than the ready ones of its
/// publisher; one that is not active never is.
pub proof fn law_connection_with_other_bindings_is_stale(
    ingress: &DirectIngress,
    ready: &Vec<KvSourceId>,
    stale: Vec<u64>,
    publisher_id: u64,
    bindings: Set<KvSourceId>,
)
    requires
        call_ensures(DirectIngress::stale_publishers, (ingress, ready), stale),
        forall|id: KvSourceId| #[trigger]
            bindings.contains(id) <==> ready@.contains(id) && id.publisher_id == publisher_id,
    ensures
        stale@.contains(publisher_id) <==> ingress@.sources.dom().contains(publisher_id)
            && ingress@.sources[publisher_id].state is Active
            && ingress@.sources[publisher_id].state->Active_0 != bindings,
{
    assert forall|id: KvSourceId| #[trigger]
        bindings_of(ready@.to_set(), publisher_id).contains(id) <==> bindings.contains(id) by {
        assert(ready@.to_set().contains(id) <==> ready@.contains(id));
    }
    assert(bindings_of(ready@.to_set(), publisher_id) =~= bindings);
}

/// The bindings of a publisher are the ready sources that name it, each once.
pub proof fn law_bindings_name_their_publisher(
    ready: &Vec<KvSourceId>,
    publisher_id: u64,
    bindings: Vec<KvSourceId>,
    id: KvSourceId,
)
    requires
        call_ensures(bindings_for_publisher, (ready, publisher_id), bindings),
    ensures
        bindings@.contains(id) <==> ready@.contains(id) && id.publisher_id == publisher_id,
        bindings@.no_duplicates(),
{
    assert(bindings@.to_set().contains(id) <==> bindings@.contains(id));
    assert(ready@.to_set().contains(id) <==> ready@.contains(id));
    assert(bindings_of(ready@.to_set(), publisher_id).contains(id) <==> ready@.to_set().contains(id)
        && id.publisher_id == publisher_id);
}

/// A restart replaces the task of a publisher by one under the next number, to the same endpoint,
/// that has still to connect; a publisher without a task is left alone.
pub proof fn law_restart_connects_anew(
    ingress: &mut DirectIngress,
    publisher_id: u64,
    replaced: Option<(u64, u64)>,
    other: u64,
)
    requires
        call_ensures(DirectIngress::restart_source, (ingress, publisher_id), replaced),
    ensures
        replaced is Some <==> old(ingress)@.sources.dom().contains(publisher_id),
        replaced is None ==> final(ingress)@ == old(ingress)@,
        replaced is Some ==> {
            let after = final(ingress)@.sources[publisher_id];
            &&& (replaced->0).0 == old(ingress)@.sources[publisher_id].task_generation
            &&& (replaced->0).1 == old(ingress)@.next_task_generation
            &&& after.task_generation == old(ingress)@.next_task_generation
            &&& after.endpoint == old(ingress)@.sources[publisher_id].endpoint
            &&& after.state is Connecting
            &&& after.group_id is None
            &&& old(ingress)@.next_task_generation < u64::MAX
                ==> final(ingress)@.next_task_generation == old(ingress)@.next_task_generation + 1
        },
        other != publisher_id ==> {
            &&& final(ingress)@.sources.dom().contains(other)
                <==> old(ingress)@.sources.dom().contains(other)
            &&& final(ingress)@.sources[other] == old(ingress)@.sources[other]
        },
{
}

/// A connection may be let through exactly if it waits, has sources, and all of them were there
/// when membership was applied for it.
pub proof fn law_waiting_connection_may_be_let_through(
    ingress: &DirectIngress,
    current: &Vec<KvSourceId>,
    preconnected: &Vec<KvSourceId>,
    publishers: Vec<u64>,
    publisher_id: u64,
    id: KvSourceId,
)
    requires
        call_ensures(
            DirectIngress::activation_candidates,
            (ingress, current, preconnected),
            publishers,
        ),
    ensures
        publishers@.contains(publisher_id) ==> {
            &&& ingress@.sources.dom().contains(publisher_id)
            &&& ingress@.sources[publisher_id].state is Preconnected
            &&& current@.contains(id) && id.publisher_id == publisher_id ==> preconnected@.contains(
                id,
            )
        },
        ingress@.sources.dom().contains(publisher_id)
            && ingress@.sources[publisher_id].state is Preconnected && current@.contains(id)
            && id.publisher_id == publisher_id && (forall|other: KvSourceId| #[trigger]
            current@.contains(other) && other.publisher_id == publisher_id
                ==> preconnected@.contains(other)) ==> publishers@.contains(publisher_id),
        (forall|other: KvSourceId| #[trigger]
            current@.contains(other) ==> other.publisher_id != publisher_id)
            ==> !publishers@.contains(publisher_id),
{
    let bound = bindings_of(current@.to_set(), publisher_id);
    assert forall|other: KvSourceId| #[trigger] bound.contains(other) <==> current@.contains(other)
        && other.publisher_id == publisher_id by {
        assert(current@.to_set().contains(other) <==> current@.contains(other));
    }
    assert forall|other: KvSourceId| #[trigger] preconnected@.to_set().contains(other)
        <==> preconnected@.contains(other) by {}
    if publishers@.contains(publisher_id) {
        let named = choose|named: KvSourceId|
            #[trigger] current@.to_set().contains(named) && named.publisher_id == publisher_id;
        assert(current@.contains(named));
        if current@.contains(id) && id.publisher_id == publisher_id {
            assert(bound.contains(id));
        }
    }
    if current@.contains(id) && id.publisher_id == publisher_id && (forall|other: KvSourceId|
        #[trigger]
        current@.contains(other) && other.publisher_id == publisher_id ==> preconnected@.contains(
            other,
        )) {
        assert(current@.to_set().contains(id));
        assert(bound.subset_of(preconnected@.to_set())) by {
            assert forall|other: KvSourceId| bound.contains(
                other,
            ) implies preconnected@.to_set().contains(other) by {
                assert(current@.contains(other));
            }
        }
    }
}

/// A waiting connection that is granted feeds exactly the sources it is bound to; one that is not
/// granted is fenced; a connection that does not wait is not touched.
pub proof fn law_granted_connection_feeds_its_bindings(
    ingress: &mut DirectIngress,
    publisher_id: u64,
    bindings: Vec<KvSourceId>,
    granted: bool,
    other: u64,
    id: KvSourceId,
)
    requires
        call_ensures(
            DirectIngress::finish_activation,
            (ingress, publisher_id, bindings, granted),
            (),
        ),
    ensures
        ({
            let before = old(ingress)@.sources;
            let after = final(ingress)@.sources;
            let waits = before.dom().contains(publisher_id) && before[publisher_id].state
                is Preconnected;
            &&& !waits ==> after == before
            &&& waits && granted ==> after[publisher_id].state is Active && (
            after[publisher_id].state->Active_0.contains(id) <==> bindings@.contains(id))
            &&& waits && !granted ==> after[publisher_id].state is Fenced
            &&& waits ==> after[publisher_id].task_generation
                == before[publisher_id].task_generation && after[publisher_id].endpoint
                == before[publisher_id].endpoint && after[publisher_id].group_id
                == before[publisher_id].group_id
            &&& other != publisher_id ==> (after.dom().contains(other) <==> before.dom().contains(
                other,
            )) && after[other] == before[other]
        }),
{
    assert(bindings@.to_set().contains(id) <==> bindings@.contains(id));
}

/// The gauge of a publisher follows the state of its task, and every publisher with a task is
/// listed.
pub proof fn law_gauge_follows_the_task(
    ingress: &DirectIngress,
    publisher_id: u64,
    gauge: Option<SourceGauge>,
    publishers: Vec<u64>,
)
    requires
        call_ensures(DirectIngress::gauge_of, (ingress, publisher_id), gauge),
        call_ensures(DirectIngress::publishers, (ingress,), publishers),
    ensures
        publishers@.contains(publisher_id) <==> ingress@.sources.dom().contains(publisher_id),
        !ingress@.sources.dom().contains(publisher_id) ==> gauge is None,
        ingress@.sources.dom().contains(publisher_id) ==> {
            let state = ingress@.sources[publisher_id].state;
            &&& gauge == Some(SourceGauge::Preconnected) <==> state is Preconnected
            &&& gauge == Some(SourceGauge::Active) <==> state is Active
            &&& gauge is None <==> state is Connecting || state is Fenced
        },
{
}

/// A task stops when it is cancelled, whatever it is at, and closes its connection where it has
/// one; a stopped task takes nothing in.
pub proof fn law_cancelled_task_stops(run: &mut SourceRun, action: SourceAction)
    requires
        old(run).wf(),
        call_ensures(SourceRun::on_event, (run, SourceEvent::Cancelled), action),
    ensures
        final(run).phase is Stopped,
        old(run).phase is Connecting ==> action == (SourceAction::Stop { close: false }),
        old(run).phase is AwaitingActivation || old(run).phase is Consuming ==> action == (
        SourceAction::Stop { close: true }),
        old(run).phase is Stopped ==> action is Ignore && *final(run) == *old(run),
{
}

/// A task that connects announces itself with its group and waits; the pauses start over. It
/// consumes only once it is let through, in the same group, and a connection that is dismissed is
/// closed.
pub proof fn law_task_waits_to_be_let_through(
    run: &mut SourceRun,
    event: SourceEvent,
    action: SourceAction,
    group_id: Option<u64>,
)
    requires
        old(run).wf(),
        call_ensures(SourceRun::on_event, (run, event), action),
    ensures
        old(run).phase is Connecting && event == (SourceEvent::Connected { group_id }) ==> {
            &&& action == (SourceAction::AnnounceReady { group_id })
            &&& final(run).phase == (SourcePhase::AwaitingActivation { group_id })
            &&& final(run).backoff.delay_ms == 100
        },
        old(run).phase == (SourcePhase::AwaitingActivation { group_id }) && event is Activated ==> {
            &&& action is Consume
            &&& final(run).phase == (SourcePhase::Consuming { group_id })
            &&& final(run).backoff == old(run).backoff
        },
        old(run).phase is AwaitingActivation && event is Dismissed ==> {
            &&& action == (SourceAction::Stop { close: true })
            &&& final(run).phase is Stopped
        },
        action is Consume ==> old(run).phase is AwaitingActivation && event is Activated,
        action is AnnounceReady ==> old(run).phase is Connecting && event is Connected,
        old(run).phase is Stopped ==> action is Ignore && *final(run) == *old(run),
{
}

/// A task whose connection fails or breaks connects again after the pause at hand, and the next
/// pause is longer; what was connected is closed, and its group is named as lost.
pub proof fn law_broken_task_connects_again(
    run: &mut SourceRun,
    event: SourceEvent,
    action: SourceAction,
    group_id: Option<u64>,
)
    requires
        old(run).wf(),
        call_ensures(SourceRun::on_event, (run, event), action),
        (old(run).phase is Connecting && event is ConnectFailed && group_id is None) || (event
            is Disconnected && (old(run).phase == (SourcePhase::AwaitingActivation { group_id })
            || old(run).phase == (SourcePhase::Consuming { group_id }))),
    ensures
        action == (SourceAction::Reconnect {
            close: event is Disconnected,
            group_id,
            delay_ms: old(run).backoff.delay_ms,
        }),
        final(run).phase is Connecting,
        old(run).backoff.delay_ms <= 2500 ==> final(run).backoff.delay_ms == 2
            * old(run).backoff.delay_ms,
        old(run).backoff.delay_ms > 2500 ==> final(run).backoff.delay_ms == 5000,
{
}

/// A new ingress has no tasks, bars nobody, and numbers its first task one; a new task connects
/// first, with the shortest pause ahead.
pub proof fn law_new_ingress_is_empty(ingress: DirectIngress, run: SourceRun, publisher_id: u64)
    requires
        call_ensures(DirectIngress::new, (), ingress),
        call_ensures(SourceRun::new, (), run),
    ensures
        !ingress@.sources.dom().contains(publisher_id),
        !ingress@.invalid_publishers.contains(publisher_id),
        ingress@.next_task_generation == 1,
        run.phase is Connecting,
        run.backoff.delay_ms == 100,
{
}

/// A lost connection fences every publisher of its group, which has no group from then on; every
/// other task stays as it is, and so do the publishers that are barred.
pub proof fn law_lost_connection_fences_the_group(
    ingress: &mut DirectIngress,
    publisher_id: u64,
    task_generation: u64,
    group_id: Option<u64>,
    affected: Vec<u64>,
    other: u64,
)
    requires
        call_ensures(
            DirectIngress::on_disconnected,
            (ingress, publisher_id, task_generation, group_id),
            affected,
        ),
        old(ingress)@.sources.dom().contains(other),
    ensures
        final(ingress)@.sources.dom().contains(other),
        affected@.contains(other) ==> {
            let (before, after) = (old(ingress)@.sources[other], final(ingress)@.sources[other]);
            &&& after.state is Fenced
            &&& after.group_id is None
            &&& after.endpoint == before.endpoint
            &&& after.task_generation == before.task_generation
        },
        !affected@.contains(other) ==> final(ingress)@.sources[other]
            == old(ingress)@.sources[other],
        final(ingress)@.invalid_publishers == old(ingress)@.invalid_publishers,
{
}

/// Only an active source has bindings, and they are those it feeds.
pub proof fn law_active_source_tells_its_bindings(
    state: &SourceState,
    bindings: Option<&Vec<KvSourceId>>,
    source: KvSourceId,
)
    requires
        call_ensures(SourceState::active_bindings, (state,), bindings),
    ensures
        bindings is Some <==> *state is Active,
        bindings is Some ==> (bindings->0@.to_set().contains(source)
            <==> state->bindings@.to_set().contains(source)),
{
    assert(bindings is Some ==> state@ == StateView::Active(state->bindings@.to_set()));
}

} // verus!
