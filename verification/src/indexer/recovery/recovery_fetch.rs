//! Bounded retries of a recovery query.
use vstd::prelude::*;

use crate::adapters::random::random_below;
use crate::protocols::ResetScope;
use crate::indexer::recovery::source_slot::{RecoveryFailure, WorkerKvQueryResponse};

verus! {

pub const RECOVERY_MAX_RETRIES: u32 = 8;

pub const RECOVERY_INITIAL_BACKOFF_MS: u64 = 200;

/// Initial recoveries start spread out over this many microseconds.
pub const INITIAL_RECOVERY_JITTER_US: u64 = 3000;

/// Why an attempt gave no usable answer.
#[derive(Debug, PartialEq, Eq)]
pub enum FetchError {
    TreeDumpFailed { last_event_id: u64, message: String },
    UnsupportedScope(ResetScope),
    /// The query itself failed or timed out.
    Transport(String),
}

#[derive(Debug, PartialEq, Eq)]
pub enum FetchStep {
    Done(WorkerKvQueryResponse),
    /// Ask again after a pause.
    Retry { backoff_ms: u64, error: FetchError },
    Fail { failure: RecoveryFailure, error: FetchError },
}

/// The pause after attempt number `attempt`, counted from zero: it doubles each time.
pub open spec fn backoff_after(attempt: nat) -> nat
    decreases attempt,
{
    if attempt == 0 {
        RECOVERY_INITIAL_BACKOFF_MS as nat
    } else {
        2 * backoff_after((attempt - 1) as nat)
    }
}

/// A query in progress.
#[derive(Clone, Copy, Debug, PartialEq, Eq, Structural)]
pub struct RecoveryFetch {
    pub attempt: u32,
    pub backoff_ms: u64,
    pub saw_non_authoritative_failure: bool,
}

/// What is wrong with the outcome of an attempt, if anything is.
pub open spec fn attempt_error(
    result: Result<WorkerKvQueryResponse, String>,
) -> Option<FetchError> {
    match result {
        Ok(WorkerKvQueryResponse::TreeDumpFailed { last_event_id, message }) => Some(
            FetchError::TreeDumpFailed { last_event_id, message },
        ),
        Ok(WorkerKvQueryResponse::TreeDump { reset_scope, .. }) => if reset_scope
            != ResetScope::All {
            Some(FetchError::UnsupportedScope(reset_scope))
        } else {
            None
        },
        Ok(_) => None,
        Err(message) => Some(FetchError::Transport(message)),
    }
}

/// The worker answered, but not with state that it vouches for.
pub open spec fn is_non_authoritative(error: FetchError) -> bool {
    !(error is Transport)
}

impl RecoveryFetch {
    pub open spec fn wf(self) -> bool {
        &&& self.attempt < RECOVERY_MAX_RETRIES
        &&& self.backoff_ms == backoff_after(self.attempt as nat)
    }

    pub fn new() -> (fetch: Self)
        ensures
            fetch.wf(),
            fetch.attempt == 0,
            !fetch.saw_non_authoritative_failure,
    {
        RecoveryFetch {
            attempt: 0,
            backoff_ms: RECOVERY_INITIAL_BACKOFF_MS,
            saw_non_authoritative_failure: false,
        }
    }

    /// Take the outcome of an attempt. A failure is final only after the last attempt, and one
    /// non-authoritative answer among the attempts makes the whole query non-authoritative.
    pub fn on_attempt(&mut self, result: Result<WorkerKvQueryResponse, String>) -> (step: FetchStep)
        requires
            old(self).wf(),
        ensures
            match attempt_error(result) {
                None => step == FetchStep::Done(result->Ok_0) && *final(self) == *old(self),
                Some(error) => {
                    let non_authoritative = old(self).saw_non_authoritative_failure
                        || is_non_authoritative(error);
                    &&& final(self).saw_non_authoritative_failure == non_authoritative
                    &&& if old(self).attempt + 1 < RECOVERY_MAX_RETRIES {
                        &&& step == (FetchStep::Retry { backoff_ms: old(self).backoff_ms, error })
                        &&& final(self).attempt == old(self).attempt + 1
                        &&& final(self).wf()
                    } else {
                        &&& step == (FetchStep::Fail {
                            failure: if non_authoritative {
                                RecoveryFailure::NonAuthoritative
                            } else {
                                RecoveryFailure::Failed
                            },
                            error,
                        })
                        &&& final(self).attempt == old(self).attempt
                    }
                },
            },
    {
        let error = match result {
            Ok(WorkerKvQueryResponse::TreeDumpFailed { last_event_id, message }) => {
                self.saw_non_authoritative_failure = true;
                FetchError::TreeDumpFailed { last_event_id, message }
            },
            Ok(WorkerKvQueryResponse::TreeDump { events, last_event_id, reset_scope }) => {
                if reset_scope == ResetScope::All {
                    return FetchStep::Done(
                        WorkerKvQueryResponse::TreeDump { events, last_event_id, reset_scope },
                    );
                }
                self.saw_non_authoritative_failure = true;
                FetchError::UnsupportedScope(reset_scope)
            },
            Ok(response) => return FetchStep::Done(response),
            Err(message) => FetchError::Transport(message),
        };
        if self.attempt + 1 < RECOVERY_MAX_RETRIES {
            let backoff_ms: u64 = self.backoff_ms;
            proof {
                lemma_backoff_bound(self.attempt as nat);
                reveal_with_fuel(backoff_after, 2);
            }
            self.attempt = self.attempt + 1;
            self.backoff_ms = backoff_ms * 2;
            FetchStep::Retry { backoff_ms, error }
        } else {
            let failure = if self.saw_non_authoritative_failure {
                RecoveryFailure::NonAuthoritative
            } else {
                RecoveryFailure::Failed
            };
            FetchStep::Fail { failure, error }
        }
    }
}

proof fn lemma_backoff_bound(attempt: nat)
    requires
        attempt < RECOVERY_MAX_RETRIES,
    ensures
        backoff_after(attempt) <= 25600,
{
    reveal_with_fuel(backoff_after, 9);
}

/// How long to wait before a recovery starts, given what was drawn for an initial one: a gap
/// recovery starts at once.
pub fn start_delay_us(start_event_id: Option<u64>, drawn_us: u64) -> (delay_us: u64)
    ensures
        delay_us == if start_event_id is Some {
            0
        } else {
            drawn_us
        },
{
    if start_event_id.is_some() {
        0
    } else {
        drawn_us
    }
}

/// How long to wait before a recovery starts: initial recoveries are spread out over a range, by
/// chance, and a gap recovery starts at once.
pub fn recovery_start_delay_us(start_event_id: Option<u64>) -> (delay_us: u64)
    ensures
        start_event_id is Some ==> delay_us == 0,
        start_event_id is None ==> delay_us < INITIAL_RECOVERY_JITTER_US,
{
    let drawn_us: u64 = if start_event_id.is_some() {
        0
    } else {
        random_below(INITIAL_RECOVERY_JITTER_US)
    };
    start_delay_us(start_event_id, drawn_us)
}

/// The pauses start at a fifth of a second and double from one attempt to the next.
pub proof fn law_pauses_double(attempt: nat)
    ensures
        backoff_after(0) == 200,
        backoff_after(attempt + 1) == 2 * backoff_after(attempt),
        backoff_after(attempt) >= 200,
    decreases attempt,
{
    if attempt > 0 {
        law_pauses_double((attempt - 1) as nat);
    }
}

/// An answer ends the query unless it is a failed snapshot or one of a part of the state: those,
/// and a query that failed, are tried again, eight times in all, with the next pause each time.
/// The last attempt fails for good, and is not authoritative where any attempt was answered so.
pub proof fn law_query_is_tried_eight_times(
    fetch: &mut RecoveryFetch,
    result: Result<WorkerKvQueryResponse, String>,
    step: FetchStep,
)
    requires
        old(fetch).wf(),
        call_ensures(RecoveryFetch::on_attempt, (fetch, result), step),
    ensures
        ({
            let unvouched = match result {
                Ok(WorkerKvQueryResponse::TreeDumpFailed { .. }) => true,
                Ok(WorkerKvQueryResponse::TreeDump { reset_scope, .. }) => reset_scope
                    != ResetScope::All,
                _ => false,
            };
            let usable = result is Ok && !unvouched;
            let last = old(fetch).attempt == 7;
            let seen = old(fetch).saw_non_authoritative_failure || unvouched;
            &&& old(fetch).attempt < 8
            &&& usable ==> step == FetchStep::Done(result->Ok_0) && *final(fetch) == *old(fetch)
            &&& !usable && !last ==> {
                &&& step is Retry
                &&& step->backoff_ms == old(fetch).backoff_ms
                &&& final(fetch).attempt == old(fetch).attempt + 1
                &&& final(fetch).backoff_ms == 2 * old(fetch).backoff_ms
                &&& final(fetch).saw_non_authoritative_failure == seen
            }
            &&& !usable && last ==> {
                &&& step is Fail
                &&& seen ==> step->failure is NonAuthoritative
                &&& !seen ==> step->failure is Failed
            }
        }),
{
    reveal_with_fuel(backoff_after, 2);
}

/// The error of an attempt says what came: the words of a failed snapshot with its id, the scope of
/// a partial one, or the words of a query that failed.
pub proof fn law_attempt_error_says_what_came(result: Result<WorkerKvQueryResponse, String>)
    ensures
        match result {
            Ok(WorkerKvQueryResponse::TreeDumpFailed { last_event_id, message }) => attempt_error(
                result,
            ) == Some(FetchError::TreeDumpFailed { last_event_id, message }),
            Ok(WorkerKvQueryResponse::TreeDump { reset_scope, .. }) => (attempt_error(result)
                is None <==> reset_scope is All) && (reset_scope is Domain ==> attempt_error(result)
                == Some(FetchError::UnsupportedScope(reset_scope))),
            Ok(_) => attempt_error(result) is None,
            Err(message) => attempt_error(result) == Some(FetchError::Transport(message)),
        },
        attempt_error(result) is Some ==> (is_non_authoritative(attempt_error(result)->0)
            <==> result is Ok),
{
}

/// A recovery of a gap starts at once; an initial one waits for what was drawn, which stays below
/// three milliseconds.
pub proof fn law_gap_recovery_does_not_wait(
    start_event_id: Option<u64>,
    drawn_us: u64,
    given_us: u64,
    delay_us: u64,
)
    requires
        call_ensures(start_delay_us, (start_event_id, drawn_us), given_us),
        call_ensures(recovery_start_delay_us, (start_event_id,), delay_us),
    ensures
        start_event_id is Some ==> given_us == 0 && delay_us == 0,
        start_event_id is None ==> given_us == drawn_us && delay_us < 3000,
{
}

} // verus!
