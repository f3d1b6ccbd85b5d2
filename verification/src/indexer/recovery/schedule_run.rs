//! One reconciliation of all cache owners, step by step.
//!
//! Everything is withdrawn before the first step, so that a step that fails leaves nothing
//! routable behind.
use std::collections::VecDeque;
use vstd::prelude::*;

use crate::indexer::recovery::owner_runtime::OwnerRuntime;
use crate::indexer::recovery::state_agent::{
    adopt_clears, adopt_plan, is_adopted, is_contested, is_known_owner, is_retired, lists_owner,
    nothing_published, planned_owner, retains_tails, retire_clears, worker_clear,
    OwnerRecoveryPlan, OwnerStep, StateAgent, StateClear,
};
use crate::indexer::recovery::state_sources::{
    is_recognized_rank, KvStateAttachmentAdvertisement, KvStateSourceAdvertisement,
    SourceExpectation,
};
use crate::lists::into_queue;
use crate::membership::{KvSourceMembershipView, KvSourceStatus};
use crate::protocols::{CacheOwnerId, WorkerWithDpRank};
use crate::table::{lookup, Table};

verus! {

/// What a reconciliation asks for next.
#[derive(Clone, Copy, Debug, PartialEq, Eq, Structural)]
pub enum ScheduleStep {
    /// Wipe this state, and wait. A failure ends the reconciliation.
    Clear(StateClear),
    /// Run the recovery of an owner that was just adopted.
    Launch(OwnerRecoveryPlan),
    /// The next owner was looked at.
    Visited(CacheOwnerId),
    Done,
}

#[derive(Debug)]
pub struct ScheduleRun {
    pub expected: SourceExpectation,
    pub observation_revision: u64,
    pub schedule_generation: u64,
    /// The ranks to suppress while the reconciliation runs.
    pub recognized: Vec<WorkerWithDpRank>,
    /// The owners that are still to be looked at.
    pub owners: VecDeque<CacheOwnerId>,
    /// What the owner at hand wants wiped.
    pub clears: VecDeque<StateClear>,
    /// The owner at hand, where it is adopted once everything is wiped.
    pub adopting: Option<OwnerRecoveryPlan>,
}

/// What a [`ScheduleRun`] still has to do.
pub struct ScheduleView {
    pub owners: Seq<CacheOwnerId>,
    pub clears: Seq<StateClear>,
    pub adopting: Option<OwnerRecoveryPlan>,
}

impl View for ScheduleRun {
    type V = ScheduleView;

    open spec fn view(&self) -> ScheduleView {
        ScheduleView {
            owners: self.owners@,
            clears: self.clears@,
            adopting: self.adopting,
        }
    }
}

/// What looking at an owner comes to, given its sources and attachments: the agent after it, and
/// what is still to be done for the owner.
pub open spec fn visits_owner(
    run: ScheduleRun,
    owner: CacheOwnerId,
    live: Map<WorkerWithDpRank, KvSourceStatus>,
    sources: Seq<KvStateSourceAdvertisement>,
    attachments: Seq<KvStateAttachmentAdvertisement>,
    before: StateAgent,
    after: StateAgent,
    clears: Seq<StateClear>,
    adopting: Option<OwnerRecoveryPlan>,
) -> bool {
    let previous = lookup(before.runtime@, owner);
    &&& lists_owner(before, run.expected, owner, sources, attachments)
    &&& if sources.len() > 1 {
        is_contested(after, before, owner) && clears.len() == 0 && adopting is None
    } else if sources.len() == 0 {
        &&& is_retired(after, before, owner)
        &&& clears == retire_clears(owner, previous, attachments, live)
        &&& adopting is None
    } else {
        &&& after == before
        &&& clears == adopt_clears(owner, previous, sources[0], attachments, live)
        &&& adopting == Some(
            adopt_plan(
                owner,
                previous,
                sources[0],
                attachments,
                live,
                run.observation_revision,
                run.schedule_generation,
            ),
        )
    }
}

impl ScheduleRun {
    /// Same reconciliation, further on.
    pub open spec fn same_terms(self, other: ScheduleRun) -> bool {
        &&& self.expected == other.expected
        &&& self.observation_revision == other.observation_revision
        &&& self.schedule_generation == other.schedule_generation
        &&& self.recognized == other.recognized
    }

    /// Withdraw everything and list the owners to look at.
    pub fn begin(
        agent: &mut StateAgent,
        view: &KvSourceMembershipView,
        expected: SourceExpectation,
        observation_revision: u64,
        schedule_generation: u64,
    ) -> (run: Self)
        ensures
            run.expected == expected,
            run.observation_revision == observation_revision,
            run.schedule_generation == schedule_generation,
            run.recognized@.no_duplicates(),
            forall|worker: WorkerWithDpRank| #[trigger]
                run.recognized@.contains(worker) <==> is_recognized_rank(
                    old(agent).sources@,
                    old(agent).attachments@,
                    expected,
                    view.sources@,
                    view.kv_event_source_mode@,
                    old(agent).runtime@,
                    worker,
                ),
            run@.owners.no_duplicates(),
            forall|owner: CacheOwnerId| #[trigger]
                run@.owners.contains(owner) <==> is_known_owner(*old(agent), expected, owner),
            run@.clears.len() == 0,
            run@.adopting is None,
            final(agent).sources == old(agent).sources,
            final(agent).attachments == old(agent).attachments,
            final(agent).runtime@ == old(agent).runtime@.map_values(
                |state: OwnerRuntime| state.withdrawn(),
            ),
            nothing_published(final(agent).runtime@),
            retains_tails(*final(agent), *old(agent), expected),
    {
        let (recognized, owners) = agent.begin_schedule(view, &expected);
        ScheduleRun {
            expected,
            observation_revision,
            schedule_generation,
            recognized,
            owners: into_queue(owners),
            clears: VecDeque::new(),
            adopting: None,
        }
    }

    /// Go on. What the owner at hand wants wiped comes first, then its adoption, then the next
    /// owner.
    pub fn next(
        &mut self,
        agent: &mut StateAgent,
        live: &Table<WorkerWithDpRank, KvSourceStatus>,
    ) -> (step: ScheduleStep)
        ensures
            final(self).same_terms(*old(self)),
            nothing_published(old(agent).runtime@) ==> nothing_published(final(agent).runtime@),
            if old(self)@.clears.len() > 0 {
                &&& step == ScheduleStep::Clear(old(self)@.clears[0])
                &&& final(self)@ == (ScheduleView {
                    clears: old(self)@.clears.drop_first(),
                    ..old(self)@
                })
                &&& *final(agent) == *old(agent)
            } else if old(self)@.adopting is Some {
                &&& step == ScheduleStep::Launch(old(self)@.adopting->0)
                &&& final(self)@ == (ScheduleView { adopting: None, ..old(self)@ })
                &&& is_adopted(*final(agent), *old(agent), old(self)@.adopting->0)
            } else if old(self)@.owners.len() > 0 {
                &&& step == ScheduleStep::Visited(old(self)@.owners[0])
                &&& final(self)@.owners == old(self)@.owners.drop_first()
                &&& exists|
                    sources: Seq<KvStateSourceAdvertisement>,
                    attachments: Seq<KvStateAttachmentAdvertisement>,
                | #[trigger]
                    visits_owner(
                        *old(self),
                        old(self)@.owners[0],
                        live@,
                        sources,
                        attachments,
                        *old(agent),
                        *final(agent),
                        final(self)@.clears,
                        final(self)@.adopting,
                    )
            } else {
                &&& step == ScheduleStep::Done
                &&& final(self)@ == old(self)@
                &&& *final(agent) == *old(agent)
            },
    {
        let ghost before = *agent;
        let ghost start = *self;
        let ghost queued = self.clears@;
        if let Some(clear) = self.clears.pop_front() {
            proof {
                assert(self.clears@ =~= queued.drop_first());
            }
            return ScheduleStep::Clear(clear);
        }
        if let Some(plan) = self.adopting {
            self.adopting = None;
            agent.adopt_owner(&plan);
            return ScheduleStep::Launch(plan);
        }
        let ghost waiting = self.owners@;
        if let Some(owner) = self.owners.pop_front() {
            proof {
                assert(self.owners@ =~= waiting.drop_first());
            }
            let step = agent.plan_known_owner(
                owner,
                &self.expected,
                live,
                self.observation_revision,
                self.schedule_generation,
            );
            let ghost (sources, attachments) = choose|
                sources: Seq<KvStateSourceAdvertisement>,
                attachments: Seq<KvStateAttachmentAdvertisement>,
            | #[trigger]
                lists_owner(*agent, self.expected, owner, sources, attachments) && planned_owner(
                    step,
                    owner,
                    lookup(agent.runtime@, owner),
                    sources,
                    attachments,
                    live@,
                    self.observation_revision,
                    self.schedule_generation,
                );
            match step {
                OwnerStep::Contest => agent.contest_owner(owner),
                OwnerStep::Retire { clears } => {
                    agent.retire_owner(owner);
                    self.clears = into_queue(clears);
                },
                OwnerStep::Adopt { clears, plan } => {
                    self.clears = into_queue(clears);
                    self.adopting = Some(plan);
                },
            }
            proof {
                assert(visits_owner(
                    start,
                    start@.owners[0],
                    live@,
                    sources,
                    attachments,
                    before,
                    *agent,
                    self@.clears,
                    self@.adopting,
                ));
            }
            return ScheduleStep::Visited(owner);
        }
        ScheduleStep::Done
    }

    /// The ranks to suppress from now on: those of the reconciliation, and the worker of every
    /// owner.
    pub fn finish(self, agent: &StateAgent) -> (workers: Vec<WorkerWithDpRank>)
        ensures
            self.recognized@.no_duplicates() ==> workers@.no_duplicates(),
            forall|worker: WorkerWithDpRank| #[trigger]
                workers@.contains(worker) <==> self.recognized@.contains(worker) || exists|
                    owner: CacheOwnerId,
                |
                    #[trigger] agent.runtime@.dom().contains(owner)
                        && agent.runtime@[owner].last_worker == Some(worker),
    {
        agent.final_recognized(self.recognized)
    }
}

/// A reconciliation asks for what the owner at hand wants wiped, in order; then it launches the
/// recovery of that owner; then it looks at the next one; and it is done when none is left.
pub proof fn law_wipes_come_before_the_launch(
    run: &mut ScheduleRun,
    agent: &mut StateAgent,
    live: &Table<WorkerWithDpRank, KvSourceStatus>,
    step: ScheduleStep,
)
    requires
        call_ensures(ScheduleRun::next, (run, agent, live), step),
    ensures
        old(run).clears@.len() > 0 ==> {
            &&& step == ScheduleStep::Clear(old(run).clears@[0])
            &&& final(run).clears@ == old(run).clears@.drop_first()
            &&& final(run).adopting == old(run).adopting
            &&& final(run).owners@ == old(run).owners@
            &&& final(agent).runtime@ == old(agent).runtime@
        },
        old(run).clears@.len() == 0 && old(run).adopting is Some ==> {
            &&& step == ScheduleStep::Launch(old(run).adopting->0)
            &&& final(run).adopting is None
            &&& final(run).owners@ == old(run).owners@
            &&& final(agent).runtime@.dom().contains(old(run).adopting->0.owner)
            &&& final(agent).runtime@[old(run).adopting->0.owner].publisher_id == Some(
                old(run).adopting->0.source.publisher_id,
            )
            &&& final(agent).recovering_publishers@.dom().contains(
                old(run).adopting->0.source.publisher_id,
            )
        },
        old(run).clears@.len() == 0 && old(run).adopting is None && old(run).owners@.len() > 0 ==> {
            &&& step == ScheduleStep::Visited(old(run).owners@[0])
            &&& final(run).owners@ == old(run).owners@.drop_first()
        },
        old(run).clears@.len() == 0 && old(run).adopting is None && old(run).owners@.len() == 0
            ==> step is Done && final(agent).runtime@ == old(agent).runtime@,
        final(run).expected == old(run).expected,
        final(run).observation_revision == old(run).observation_revision,
        final(run).schedule_generation == old(run).schedule_generation,
        final(run).recognized == old(run).recognized,
{
    assert(old(run)@.clears == old(run).clears@ && old(run)@.owners == old(run).owners@
        && old(run)@.adopting == old(run).adopting);
    assert(final(run)@.clears == final(run).clears@ && final(run)@.owners == final(run).owners@
        && final(run)@.adopting == final(run).adopting);
}

/// An owner that is looked at without any source left is forgotten at once, and launched is only
/// an owner with exactly one source: that of the plan.
pub proof fn law_visit_forgets_an_owner_without_source(
    run: ScheduleRun,
    owner: CacheOwnerId,
    live: Map<WorkerWithDpRank, KvSourceStatus>,
    sources: Seq<KvStateSourceAdvertisement>,
    attachments: Seq<KvStateAttachmentAdvertisement>,
    before: StateAgent,
    after: StateAgent,
    clears: Seq<StateClear>,
    adopting: Option<OwnerRecoveryPlan>,
)
    requires
        visits_owner(
            run,
            owner,
            live,
            sources,
            attachments,
            before,
            after,
            clears,
            adopting,
        ),
    ensures
        sources.len() == 0 ==> !after.runtime@.dom().contains(owner)
            && !after.recovery_tails@.dom().contains(owner),
        sources.len() > 1 ==> clears.len() == 0,
        sources.len() > 1 && before.runtime@.dom().contains(owner)
            ==> after.runtime@.dom().contains(owner) && after.runtime@[owner].publisher_id is None
            && after.runtime@[owner].recovery_required,
        sources.len() == 1 ==> after == before,
        adopting is Some <==> sources.len() == 1,
        adopting is Some ==> {
            &&& adopting->0.owner == owner
            &&& adopting->0.source == sources[0]
            &&& adopting->0.observation_revision == run.observation_revision
            &&& adopting->0.schedule_generation == run.schedule_generation
        },
        before.runtime@.dom().contains(owner) && sources.len() == 0 ==> clears.contains(
            StateClear::CacheOwner { owner, event_id: 0 },
        ),
{
    if before.runtime@.dom().contains(owner) && sources.len() == 0 {
        let all = StateClear::CacheOwner { owner, event_id: 0 };
        let known = worker_clear(before.runtime@[owner].last_worker, owner).push(all);
        assert(known.last() == all);
        assert(clears[known.len() - 1] == all);
    }
}

/// A reconciliation begins with every owner unready and nothing wiped or adopted yet, under the
/// numbers it was given.
pub proof fn law_reconciliation_begins_with_all_owners(
    agent: &mut StateAgent,
    view: &KvSourceMembershipView,
    expected: SourceExpectation,
    observation_revision: u64,
    schedule_generation: u64,
    run: ScheduleRun,
    owner: CacheOwnerId,
)
    requires
        call_ensures(
            ScheduleRun::begin,
            (agent, view, expected, observation_revision, schedule_generation),
            run,
        ),
    ensures
        run.expected == expected,
        run.observation_revision == observation_revision,
        run.schedule_generation == schedule_generation,
        run.clears@.len() == 0 && run.adopting is None,
        old(agent).runtime@.dom().contains(owner) ==> run.owners@.contains(owner)
            && final(agent).runtime@.dom().contains(owner) && !final(agent).runtime@[owner].ready
            && !final(agent).runtime@[owner].hint_ready
            && final(agent).runtime@[owner].recovered_cursor
            == old(agent).runtime@[owner].recovered_cursor,
{
    if old(agent).runtime@.dom().contains(owner) {
        assert(is_known_owner(*old(agent), expected, owner));
        assert(run@.owners.contains(owner));
    }
}

/// After a reconciliation exactly those ranks are suppressed that it recognized, and the last
/// worker of every owner.
pub proof fn law_last_workers_are_suppressed(
    run: ScheduleRun,
    agent: &StateAgent,
    workers: Vec<WorkerWithDpRank>,
    owner: CacheOwnerId,
    worker: WorkerWithDpRank,
)
    requires
        call_ensures(ScheduleRun::finish, (run, agent), workers),
    ensures
        run.recognized@.contains(worker) ==> workers@.contains(worker),
        agent.runtime@.dom().contains(owner) && agent.runtime@[owner].last_worker == Some(worker)
            ==> workers@.contains(worker),
        workers@.contains(worker) && !run.recognized@.contains(worker) ==> exists|known: CacheOwnerId|
            #[trigger] agent.runtime@.dom().contains(known) && agent.runtime@[known].last_worker
                == Some(worker),
{
}

} // verus!
