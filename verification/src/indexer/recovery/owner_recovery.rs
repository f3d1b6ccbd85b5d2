//! A finished recovery of a cache owner on its way into the index, step by step.
//!
//! What precedes the answer is wiped, the answer is applied, then what was held back meanwhile.
//! A step that must not fail withdraws the owner when it does.
use std::collections::VecDeque;
use vstd::prelude::*;

use crate::indexer::recovery::owner_events::{
    awaited_event, next_owner_step, same_but_owner, OwnerApply, OwnerEvents,
};
use crate::indexer::recovery::state_agent::{OwnerRecoveryPlan, StateAgent, StateClear};
use crate::indexer::recovery::state_recovery::{
    failed_runtime, finished_runtime, is_closed_recovery, is_failed_recovery, takes_tail,
    KvStateAgentStatus, RecoveryApplication,
};
use crate::indexer::recovery::state_router::OwnerRecoveryStep;
use crate::lists::into_queue;
use crate::membership::KvSourceStatus;
use crate::protocols::{ResidencyDomain, RouterEvent, WorkerWithDpRank};
use crate::table::Table;

verus! {

/// What a recovery comes to once everything is applied.
#[derive(Clone, Copy, Debug, PartialEq, Eq, Structural)]
pub enum RecoveryGoal {
    /// Ask for the status again.
    Confirm { recovered_cursor: u64 },
    /// Decide on readiness.
    Settle { status: KvStateAgentStatus, recovered_cursor: u64 },
    /// The answer was refused: withdraw the owner.
    Refuse,
}

/// What is to be done next.
#[derive(Debug, PartialEq, Eq)]
pub enum RecoveryWork {
    /// Wipe this state, and wait.
    Clear(StateClear),
    /// Apply a recovered event.
    Apply(RouterEvent),
    /// Apply an event that was held back; its loss is no failure of the recovery.
    ApplyHeldBack(OwnerApply),
    /// The held-back events were taken.
    Continue,
    /// Ask the agent for its status, and come back with it.
    AskStatus { recovered_cursor: u64 },
    /// Publish what owners may be used for, unless something newer than this was observed.
    Publish { observation_revision: u64 },
    /// The owner was withdrawn and must be recovered anew.
    Failed,
    Done,
}

#[derive(Debug)]
pub struct OwnerRecoveryRun {
    pub plan: OwnerRecoveryPlan,
    pub goal: RecoveryGoal,
    pub clears: VecDeque<StateClear>,
    pub events: VecDeque<RouterEvent>,
    /// What was held back, once it was taken.
    pub held_back: Option<OwnerEvents>,
    /// Whether the outcome of a step is awaited.
    pub awaiting: bool,
    pub ended: bool,
}

/// The prefix that a goal stands on.
pub open spec fn goal_cursor(goal: RecoveryGoal) -> u64 {
    match goal {
        RecoveryGoal::Confirm { recovered_cursor } => recovered_cursor,
        RecoveryGoal::Settle { recovered_cursor, .. } => recovered_cursor,
        RecoveryGoal::Refuse => 0,
    }
}

/// What a [`OwnerRecoveryRun`] has still to apply before it looks at what was held back.
pub open spec fn run_of_step(step: OwnerRecoveryStep) -> Option<
    (RecoveryGoal, Seq<StateClear>, Seq<RouterEvent>),
> {
    match step {
        OwnerRecoveryStep::Stale | OwnerRecoveryStep::Failed => None,
        OwnerRecoveryStep::Apply { clears, application } => Some(
            (
                RecoveryGoal::Confirm { recovered_cursor: application.recovered_cursor },
                clears@ + application.clears@,
                application.events@,
            ),
        ),
        OwnerRecoveryStep::Refuse { clears, .. } => Some(
            (RecoveryGoal::Refuse, clears@, Seq::empty()),
        ),
        OwnerRecoveryStep::Settle { status, recovered_cursor } => Some(
            (
                RecoveryGoal::Settle { status, recovered_cursor },
                Seq::empty(),
                Seq::empty(),
            ),
        ),
    }
}

fn join_clears(first: Vec<StateClear>, second: Vec<StateClear>) -> (joined: VecDeque<StateClear>)
    ensures
        joined@ == first@ + second@,
{
    let mut joined = into_queue(first);
    let mut i: usize = 0;
    proof {
        assert(joined@ =~= first@ + second@.subrange(0, 0));
    }
    while i < second.len()
        invariant
            i <= second.len(),
            joined@ == first@ + second@.subrange(0, i as int),
        decreases second.len() - i,
    {
        joined.push_back(second[i]);
        proof {
            assert(joined@ =~= first@ + second@.subrange(0, i + 1));
        }
        i = i + 1;
    }
    proof {
        assert(second@.subrange(0, i as int) =~= second@);
    }
    joined
}

impl OwnerRecoveryRun {
    /// Everything but what is awaited and whether the run has ended.
    pub open spec fn same_terms(self, other: OwnerRecoveryRun) -> bool {
        self.plan == other.plan && self.goal == other.goal
    }

    /// What was held back belongs to the plan's owner, which the agent knows, and is looked at
    /// once the answer is in.
    pub open spec fn fits(self, agent: StateAgent) -> bool {
        self.held_back is Some ==> {
            &&& self.held_back->0.owner == self.plan.owner
            &&& agent.runtime@.dom().contains(self.plan.owner)
            &&& self.held_back->0.awaited is Some <==> self.awaiting
            &&& self.clears@.len() == 0 && self.events@.len() == 0 && !self.ended
        }
    }

    /// Start on what a finished recovery asks for; `None` where it asks for nothing.
    pub fn begin(plan: OwnerRecoveryPlan, step: OwnerRecoveryStep) -> (run: Option<Self>)
        ensures
            run is Some <==> run_of_step(step) is Some,
            match run {
                Some(run) => {
                    &&& run.plan == plan
                    &&& (run.goal, run.clears@, run.events@) == run_of_step(step)->0
                    &&& run.held_back is None
                    &&& !run.awaiting
                    &&& !run.ended
                },
                None => true,
            },
    {
        let (goal, clears, events): (RecoveryGoal, VecDeque<StateClear>, VecDeque<RouterEvent>) =
            match step {
            OwnerRecoveryStep::Stale => return None,
            OwnerRecoveryStep::Failed => return None,
            OwnerRecoveryStep::Apply { clears, application } => {
                let RecoveryApplication { clears: scope, events, recovered_cursor } = application;
                (
                    RecoveryGoal::Confirm { recovered_cursor },
                    join_clears(clears, scope),
                    into_queue(events),
                )
            },
            OwnerRecoveryStep::Refuse { clears, .. } => (
                RecoveryGoal::Refuse,
                into_queue(clears),
                VecDeque::new(),
            ),
            OwnerRecoveryStep::Settle { status, recovered_cursor } => (
                RecoveryGoal::Settle { status, recovered_cursor },
                VecDeque::new(),
                VecDeque::new(),
            ),
        };
        proof {
            let expected = run_of_step(step)->0;
            assert(clears@ =~= expected.1);
            assert(events@ =~= expected.2);
        }
        Some(
            OwnerRecoveryRun {
                plan,
                goal,
                clears,
                events,
                held_back: None,
                awaiting: false,
                ended: false,
            },
        )
    }

    /// Go on.
    pub fn next(
        &mut self,
        agent: &mut StateAgent,
        live: &Table<WorkerWithDpRank, KvSourceStatus>,
    ) -> (work: RecoveryWork)
        requires
            !old(self).awaiting,
            old(self).fits(*old(agent)),
        ensures
            final(self).same_terms(*old(self)),
            final(self).fits(*final(agent)),
            if old(self).ended {
                &&& work == RecoveryWork::Done
                &&& *final(self) == *old(self)
                &&& *final(agent) == *old(agent)
            } else if old(self).clears@.len() > 0 {
                &&& work == RecoveryWork::Clear(old(self).clears@[0])
                &&& final(self).clears@ == old(self).clears@.drop_first()
                &&& final(self).events@ == old(self).events@
                &&& final(self).held_back == old(self).held_back
                &&& final(self).awaiting && !final(self).ended
                &&& *final(agent) == *old(agent)
            } else if old(self).events@.len() > 0 {
                &&& work == RecoveryWork::Apply(old(self).events@[0])
                &&& final(self).clears@ == old(self).clears@
                &&& final(self).events@ == old(self).events@.drop_first()
                &&& final(self).held_back == old(self).held_back
                &&& final(self).awaiting && !final(self).ended
                &&& *final(agent) == *old(agent)
            } else if old(self).goal is Refuse {
                &&& work == RecoveryWork::Failed
                &&& !final(self).awaiting && final(self).ended
                &&& is_failed_recovery(
                    *final(agent),
                    *old(agent),
                    old(self).plan.owner,
                    old(self).plan.source.publisher_id,
                )
            } else if old(self).held_back is None {
                &&& work == RecoveryWork::Continue
                &&& !final(self).awaiting && !final(self).ended
                &&& final(self).clears@.len() == 0 && final(self).events@.len() == 0
                &&& final(self).held_back is Some
                &&& takes_tail(
                    *final(agent),
                    *old(agent),
                    old(self).plan,
                    goal_cursor(old(self).goal),
                    final(self).held_back->0.rest@,
                )
            } else {
                let owner = old(self).plan.owner;
                let publisher_id = old(self).plan.source.publisher_id;
                let (state, apply, rest) = next_owner_step(
                    old(agent).runtime@[owner],
                    owner,
                    old(self).held_back->0.rest@,
                );
                if apply is Some {
                    &&& work == RecoveryWork::ApplyHeldBack(apply->0)
                    &&& final(self).awaiting && !final(self).ended
                    &&& final(self).clears@.len() == 0 && final(self).events@.len() == 0
                    &&& final(self).held_back is Some
                    &&& final(self).held_back->0.rest@ == rest
                    &&& final(self).held_back->0.awaited == awaited_event(apply)
                    &&& same_but_owner(*final(agent), *old(agent), owner, state)
                } else if state.recovery_required {
                    &&& work == RecoveryWork::Failed
                    &&& !final(self).awaiting && final(self).ended
                    &&& is_closed_recovery(
                        *final(agent),
                        *old(agent),
                        owner,
                        publisher_id,
                        failed_runtime(state),
                    )
                } else {
                    &&& final(self).awaiting && final(self).ended
                    &&& match old(self).goal {
                        RecoveryGoal::Settle { status, .. } => {
                            &&& work == (RecoveryWork::Publish {
                                observation_revision: old(self).plan.observation_revision,
                            })
                            &&& is_closed_recovery(
                                *final(agent),
                                *old(agent),
                                owner,
                                publisher_id,
                                finished_runtime(
                                    old(self).plan,
                                    status,
                                    state.recovered_cursor,
                                    live@,
                                ),
                            )
                        },
                        _ => {
                            &&& work == (RecoveryWork::AskStatus {
                                recovered_cursor: goal_cursor(old(self).goal),
                            })
                            &&& same_but_owner(*final(agent), *old(agent), owner, state)
                        },
                    }
                }
            },
    {
        if self.ended {
            return RecoveryWork::Done;
        }
        let ghost start = *self;
        let ghost before = *agent;
        if let Some(clear) = self.clears.pop_front() {
            proof {
                assert(self.clears@ =~= start.clears@.drop_first());
            }
            self.awaiting = true;
            return RecoveryWork::Clear(clear);
        }
        if let Some(event) = self.events.pop_front() {
            proof {
                assert(self.events@ =~= start.events@.drop_first());
            }
            self.awaiting = true;
            return RecoveryWork::Apply(event);
        }
        let owner = self.plan.owner;
        let publisher_id: u64 = self.plan.source.publisher_id;
        let recovered_cursor: u64 = match self.goal {
            RecoveryGoal::Confirm { recovered_cursor } => recovered_cursor,
            RecoveryGoal::Settle { recovered_cursor, .. } => recovered_cursor,
            RecoveryGoal::Refuse => {
                self.ended = true;
                self.held_back = None;
                agent.fail_owner_recovery(owner, publisher_id);
                return RecoveryWork::Failed;
            },
        };
        let mut held_back: Option<OwnerEvents> = None;
        std::mem::swap(&mut held_back, &mut self.held_back);
        let mut run: OwnerEvents = match held_back {
            Some(run) => run,
            None => {
                let events = agent.take_recovery_tail(&self.plan, recovered_cursor);
                self.held_back = Some(OwnerEvents::new(owner, events));
                return RecoveryWork::Continue;
            },
        };
        let apply = run.next(agent);
        if let Some(apply) = apply {
            self.held_back = Some(run);
            self.awaiting = true;
            return RecoveryWork::ApplyHeldBack(apply);
        }
        let ghost state = agent.runtime@[owner];
        self.ended = true;
        match agent.tail_outcome(owner) {
            None => {
                agent.fail_owner_recovery(owner, publisher_id);
                proof {
                    assert(agent.runtime@ =~= before.runtime@.insert(
                        owner,
                        failed_runtime(state),
                    ));
                }
                RecoveryWork::Failed
            },
            Some(cursor) => {
                self.awaiting = true;
                match self.goal {
                    RecoveryGoal::Settle { status, .. } => {
                        agent.finish_owner_readiness(&self.plan, &status, cursor, live);
                        proof {
                            assert(agent.runtime@ =~= before.runtime@.insert(
                                owner,
                                finished_runtime(self.plan, status, cursor, live@),
                            ));
                        }
                        RecoveryWork::Publish {
                            observation_revision: self.plan.observation_revision,
                        }
                    },
                    _ => RecoveryWork::AskStatus { recovered_cursor },
                }
            },
        }
    }

    /// Take the outcome of the awaited step. A held-back event that is lost is dealt with by its
    /// owner's rules; any other failure withdraws the owner and ends the run.
    pub fn outcome(&mut self, agent: &mut StateAgent, succeeded: bool)
        requires
            old(self).awaiting,
            old(self).fits(*old(agent)),
        ensures
            final(self).same_terms(*old(self)),
            final(self).fits(*final(agent)),
            !final(self).awaiting,
            if old(self).held_back is Some {
                let owner = old(self).plan.owner;
                let awaited = old(self).held_back->0.awaited->0;
                &&& !final(self).ended
                &&& final(self).clears@ == old(self).clears@
                &&& final(self).events@ == old(self).events@
                &&& final(self).held_back is Some
                &&& final(self).held_back->0.rest@ == old(self).held_back->0.rest@
                &&& same_but_owner(
                    *final(agent),
                    *old(agent),
                    owner,
                    old(agent).runtime@[owner].on_applied(
                        awaited.event_id,
                        awaited.is_clear,
                        succeeded,
                    ),
                )
            } else if succeeded {
                &&& final(self).ended == old(self).ended
                &&& final(self).clears@ == old(self).clears@
                &&& final(self).events@ == old(self).events@
                &&& final(self).held_back == old(self).held_back
                &&& *final(agent) == *old(agent)
            } else {
                &&& final(self).ended
                &&& is_failed_recovery(
                    *final(agent),
                    *old(agent),
                    old(self).plan.owner,
                    old(self).plan.source.publisher_id,
                )
            },
    {
        self.awaiting = false;
        let mut held_back: Option<OwnerEvents> = None;
        std::mem::swap(&mut held_back, &mut self.held_back);
        if let Some(mut run) = held_back {
            run.outcome(agent, succeeded);
            self.held_back = Some(run);
            return;
        }
        if !succeeded {
            self.ended = true;
            agent.fail_owner_recovery(self.plan.owner, self.plan.source.publisher_id);
        }
    }
}

/// A recovery that is applied wipes first what makes room for the answer, then what the answer's
/// own scope asks for, and has all of the answer's events to apply; one that is refused only
/// wipes; one that is settled has nothing to apply; an overtaken or failed one does not start.
pub proof fn law_run_starts_with_its_clears(
    plan: OwnerRecoveryPlan,
    step: OwnerRecoveryStep,
    run: Option<OwnerRecoveryRun>,
)
    requires
        call_ensures(OwnerRecoveryRun::begin, (plan, step), run),
    ensures
        run is None <==> step is Stale || step is Failed,
        run is Some ==> run->0.plan == plan && run->0.held_back is None && !run->0.awaiting
            && !run->0.ended,
        step is Apply ==> {
            &&& run->0.clears@ == step->Apply_clears@ + step->application.clears@
            &&& run->0.events@ == step->application.events@
            &&& run->0.goal == (RecoveryGoal::Confirm {
                recovered_cursor: step->application.recovered_cursor,
            })
        },
        step is Refuse ==> run->0.clears@ == step->Refuse_clears@ && run->0.events@.len() == 0
            && run->0.goal is Refuse,
        step is Settle ==> run->0.clears@.len() == 0 && run->0.events@.len() == 0 && run->0.goal
            == (RecoveryGoal::Settle {
            status: step->status,
            recovered_cursor: step->recovered_cursor,
        }),
{
}

/// A run hands out its clears in order, then its events in order, before anything else.
pub proof fn law_clears_then_events(
    run: &mut OwnerRecoveryRun,
    agent: &mut StateAgent,
    live: &Table<WorkerWithDpRank, KvSourceStatus>,
    work: RecoveryWork,
)
    requires
        !old(run).awaiting,
        !old(run).ended,
        old(run).fits(*old(agent)),
        call_ensures(OwnerRecoveryRun::next, (run, agent, live), work),
    ensures
        old(run).clears@.len() > 0 ==> {
            &&& work == RecoveryWork::Clear(old(run).clears@[0])
            &&& final(run).clears@ == old(run).clears@.drop_first()
            &&& final(run).events@ == old(run).events@
            &&& final(agent).runtime@ == old(agent).runtime@
        },
        old(run).clears@.len() == 0 && old(run).events@.len() > 0 ==> {
            &&& work == RecoveryWork::Apply(old(run).events@[0])
            &&& final(run).clears@.len() == 0
            &&& final(run).events@ == old(run).events@.drop_first()
            &&& final(agent).runtime@ == old(agent).runtime@
        },
        work is Clear ==> old(run).clears@.len() > 0,
        work is Apply ==> old(run).clears@.len() == 0 && old(run).events@.len() > 0,
        final(run).plan == old(run).plan,
        final(run).goal == old(run).goal,
{
}

/// A refused answer ends with its owner unready and in want of another recovery.
pub proof fn law_refused_answer_withdraws_the_owner(
    run: &mut OwnerRecoveryRun,
    agent: &mut StateAgent,
    live: &Table<WorkerWithDpRank, KvSourceStatus>,
    work: RecoveryWork,
)
    requires
        !old(run).awaiting,
        !old(run).ended,
        old(run).fits(*old(agent)),
        call_ensures(OwnerRecoveryRun::next, (run, agent, live), work),
        old(run).clears@.len() == 0,
        old(run).events@.len() == 0,
        old(run).goal is Refuse,
    ensures
        work is Failed,
        final(run).ended,
        !final(agent).recovery_tails@.dom().contains(old(run).plan.owner),
        old(agent).runtime@.dom().contains(old(run).plan.owner) ==> {
            let state = final(agent).runtime@[old(run).plan.owner];
            !state.ready && !state.hint_ready && state.recovery_required
        },
{
}

/// Once the answer is in, the owner stands at the recovered cursor and what was held back is
/// looked at.
pub proof fn law_answer_puts_the_owner_at_its_cursor(
    run: &mut OwnerRecoveryRun,
    agent: &mut StateAgent,
    live: &Table<WorkerWithDpRank, KvSourceStatus>,
    work: RecoveryWork,
)
    requires
        !old(run).awaiting,
        !old(run).ended,
        old(run).fits(*old(agent)),
        call_ensures(OwnerRecoveryRun::next, (run, agent, live), work),
        old(run).clears@.len() == 0,
        old(run).events@.len() == 0,
        old(run).held_back is None,
        !(old(run).goal is Refuse),
    ensures
        work is Continue,
        !final(run).ended && final(run).held_back is Some,
        final(agent).runtime@.dom().contains(old(run).plan.owner),
        final(agent).runtime@[old(run).plan.owner].recovered_cursor == match old(run).goal {
            RecoveryGoal::Confirm { recovered_cursor } => recovered_cursor,
            RecoveryGoal::Settle { recovered_cursor, .. } => recovered_cursor,
            RecoveryGoal::Refuse => 0,
        },
        !final(agent).runtime@[old(run).plan.owner].recovery_required,
{
}

/// With nothing held back any more, a recovery whose answer went in asks for the status again, at
/// the cursor that it recovered; one that has the status decides on readiness and publishes under
/// its observation.
pub proof fn law_recovery_ends_on_a_status(
    run: &mut OwnerRecoveryRun,
    agent: &mut StateAgent,
    live: &Table<WorkerWithDpRank, KvSourceStatus>,
    work: RecoveryWork,
)
    requires
        !old(run).awaiting,
        !old(run).ended,
        old(run).fits(*old(agent)),
        call_ensures(OwnerRecoveryRun::next, (run, agent, live), work),
        old(run).clears@.len() == 0,
        old(run).events@.len() == 0,
        old(run).held_back is Some,
        old(run).held_back->0.rest@.len() == 0,
        !old(agent).runtime@[old(run).plan.owner].recovery_required,
    ensures
        match old(run).goal {
            RecoveryGoal::Confirm { recovered_cursor } => {
                &&& work == (RecoveryWork::AskStatus { recovered_cursor })
                &&& final(agent).runtime@ == old(agent).runtime@
            },
            RecoveryGoal::Settle { status, .. } => {
                let state = final(agent).runtime@[old(run).plan.owner];
                &&& work == (RecoveryWork::Publish {
                    observation_revision: old(run).plan.observation_revision,
                })
                &&& !final(agent).recovery_tails@.dom().contains(old(run).plan.owner)
                &&& state.recovered_cursor
                    == old(agent).runtime@[old(run).plan.owner].recovered_cursor
                &&& state.ready ==> status.cache_owner_ready && status.identity
                    == old(run).plan.expected && old(run).plan.attachment is Some
                    && old(run).plan.attachment->0.ready_at_outbound_cursor
                    <= state.recovered_cursor
                &&& state.hint_ready ==> status.cache_owner_ready && status.identity
                    == old(run).plan.expected && status.outbound_cursor <= state.recovered_cursor
            },
            RecoveryGoal::Refuse => work is Failed,
        },
        final(run).ended,
{
    if old(run).goal is Confirm {
        assert(final(agent).runtime@ =~= old(agent).runtime@);
    }
}

/// A run that has ended does nothing more.
pub proof fn law_ended_recovery_does_nothing(
    run: &mut OwnerRecoveryRun,
    agent: &mut StateAgent,
    live: &Table<WorkerWithDpRank, KvSourceStatus>,
    work: RecoveryWork,
)
    requires
        !old(run).awaiting,
        old(run).ended,
        old(run).fits(*old(agent)),
        call_ensures(OwnerRecoveryRun::next, (run, agent, live), work),
    ensures
        work is Done,
        *final(agent) == *old(agent),
{
}

/// A clear or a recovered event that fails withdraws the owner and ends the run; one that goes in
/// changes nothing. A held-back event moves the owner to it, but for a lost clear, and never ends
/// the run.
pub proof fn law_failed_step_withdraws_the_owner(
    run: &mut OwnerRecoveryRun,
    agent: &mut StateAgent,
    succeeded: bool,
)
    requires
        old(run).awaiting,
        old(run).fits(*old(agent)),
        call_ensures(OwnerRecoveryRun::outcome, (run, agent, succeeded), ()),
    ensures
        !final(run).awaiting,
        old(run).held_back is None && succeeded ==> final(run).ended == old(run).ended
            && *final(agent) == *old(agent) && final(run).clears@ == old(run).clears@
            && final(run).events@ == old(run).events@,
        old(run).held_back is None && !succeeded ==> {
            &&& final(run).ended
            &&& !final(agent).recovery_tails@.dom().contains(old(run).plan.owner)
            &&& !final(agent).recovering_publishers@.dom().contains(
                old(run).plan.source.publisher_id,
            )
            &&& old(agent).runtime@.dom().contains(old(run).plan.owner) ==> {
                let state = final(agent).runtime@[old(run).plan.owner];
                !state.ready && !state.hint_ready && state.recovery_required
            }
        },
        old(run).held_back is Some ==> {
            let awaited = old(run).held_back->0.awaited->0;
            let state = final(agent).runtime@[old(run).plan.owner];
            &&& !final(run).ended
            &&& succeeded || !awaited.is_clear ==> state.recovered_cursor == awaited.event_id
            &&& !succeeded && awaited.is_clear ==> state.recovery_required && !state.ready
                && state.recovered_cursor
                == old(agent).runtime@[old(run).plan.owner].recovered_cursor
        },
{
}

/// Of what was held back, the next event above the owner's cursor that is its own is handed out to
/// be applied, and what follows it stays in its order.
pub proof fn law_held_back_event_is_handed_out(
    run: &mut OwnerRecoveryRun,
    agent: &mut StateAgent,
    live: &Table<WorkerWithDpRank, KvSourceStatus>,
    work: RecoveryWork,
    event: RouterEvent,
)
    requires
        !old(run).awaiting,
        !old(run).ended,
        old(run).fits(*old(agent)),
        call_ensures(OwnerRecoveryRun::next, (run, agent, live), work),
        old(run).clears@.len() == 0,
        old(run).events@.len() == 0,
        !(old(run).goal is Refuse),
        old(run).held_back is Some,
        old(run).held_back->0.rest@.len() > 0,
        old(run).held_back->0.rest@[0] == event,
        !old(agent).runtime@[old(run).plan.owner].recovery_required,
        event.event_id > old(agent).runtime@[old(run).plan.owner].recovered_cursor,
        event.residency.domain == Some(ResidencyDomain::CacheOwner),
        event.state_source == Some(old(run).plan.owner),
    ensures
        work is ApplyHeldBack,
        work->ApplyHeldBack_0.event == event,
        final(run).awaiting && !final(run).ended,
        final(run).held_back is Some,
        final(run).held_back->0.rest@ == old(run).held_back->0.rest@.drop_first(),
        final(run).held_back->0.awaited is Some,
        final(run).held_back->0.awaited->0.event_id == event.event_id,
        final(run).held_back->0.awaited->0.is_clear <==> event.data is Cleared,
        final(agent).runtime@ == old(agent).runtime@,
{
    assert(final(run).held_back->0.rest@ =~= old(run).held_back->0.rest@.drop_first());
    assert(final(agent).runtime@ =~= old(agent).runtime@);
}

/// A recovery whose owner came to want another while what was held back went in has failed: the
/// owner is withdrawn, and nothing is held back for it any more.
pub proof fn law_fault_among_held_back_events_fails_the_recovery(
    run: &mut OwnerRecoveryRun,
    agent: &mut StateAgent,
    live: &Table<WorkerWithDpRank, KvSourceStatus>,
    work: RecoveryWork,
)
    requires
        !old(run).awaiting,
        !old(run).ended,
        old(run).fits(*old(agent)),
        call_ensures(OwnerRecoveryRun::next, (run, agent, live), work),
        old(run).clears@.len() == 0,
        old(run).events@.len() == 0,
        old(run).held_back is Some,
        old(agent).runtime@[old(run).plan.owner].recovery_required,
    ensures
        work is Failed,
        final(run).ended && !final(run).awaiting,
        !final(agent).recovery_tails@.dom().contains(old(run).plan.owner),
        !final(agent).recovering_publishers@.dom().contains(old(run).plan.source.publisher_id),
        ({
            let state = final(agent).runtime@[old(run).plan.owner];
            !state.ready && !state.hint_ready && state.recovery_required
        }),
{
}

} // verus!
