//! What the answer of a prefill worker comes to: a finished request, a handoff to a decode
//! worker, or an error.
use serde_json::Value;
use vstd::prelude::*;
use vstd::string::*;

use crate::adapters::json::{json_member, json_members, JsonMember};

verus! {

#[derive(Debug, PartialEq, Eq)]
pub enum FinishReason {
    EoS,
    Stop,
    Length,
    Cancelled,
    ContentFilter,
    Error(String),
}

/// One item of a prefill worker's stream that has an output.
#[derive(Debug)]
pub struct PrefillOutput<A> {
    /// `None` while the request is not finished.
    pub finish_reason: Option<FinishReason>,
    pub disaggregated_params: Option<Value>,
    /// Interned details of the prompt's token usage.
    pub prompt_tokens_details: Option<u64>,
    pub worker_trace_link: Option<u64>,
    /// What else the item holds, such as its tokens.
    pub rest: A,
}

#[derive(Debug)]
pub enum PrefillItem<A, E> {
    /// An error, and what it says.
    Error { error: E, text: String },
    /// An item without an error; its output may be missing.
    Output(Option<PrefillOutput<A>>),
}

#[derive(Debug, PartialEq, Eq)]
pub enum PrefillError<E> {
    /// No prefill worker set is active.
    NotActivated,
    /// What went wrong, in words that hold those of the worker, and the worker's error.
    PrefillError(String, Option<E>),
    NoDisaggregatedParams(&'static str),
}

#[derive(Debug)]
pub struct PrefillResult {
    pub disaggregated_params: Value,
    pub prompt_tokens_details: Option<u64>,
}

#[derive(Debug)]
pub enum PrefillCompletion<A> {
    /// The request ended in the prefill step: the first item is its answer, as it came.
    Terminal { output: PrefillOutput<A> },
    Handoff { result: PrefillResult, worker_link: Option<u64> },
}

pub const NO_OUTPUT: &'static str = "Prefill router returned no output (stream ended)";

pub const ERROR_IN_OUTPUT: &'static str = "Prefill router returned error in output: ";

pub const ERROR_IN_STREAM: &'static str = "Prefill router returned error in output stream: ";

pub const NO_DATA: &'static str = "Prefill router output has no data field";

pub const NO_PARAMS: &'static str = "Prefill router output missing disaggregated_params";

pub const NO_CONTEXT_ID: &'static str =
    "Prefill router output has no usable ctx_request_id for a non-terminal handoff";

pub const BOOTSTRAP_HOST: &'static str = "bootstrap_host";

pub const BOOTSTRAP_PORT: &'static str = "bootstrap_port";

pub const BOOTSTRAP_ROOM: &'static str = "bootstrap_room";

pub const CONTEXT_ID: &'static str = "ctx_request_id";

pub const REQUEST_TYPE: &'static str = "request_type";

pub const CONTEXT_ONLY: &'static str = "context_only";

/// Whether the parameters announce a bootstrap: the transfer starts before prefill ends.
pub open spec fn announces_bootstrap(params: Value) -> bool {
    &&& json_members(params).dom().contains(BOOTSTRAP_HOST@)
    &&& json_members(params).dom().contains(BOOTSTRAP_PORT@)
    &&& json_members(params).dom().contains(BOOTSTRAP_ROOM@)
}

fn is_bootstrap(params: &Value) -> (bootstrap: bool)
    ensures
        bootstrap == announces_bootstrap(*params),
{
    json_member(params, BOOTSTRAP_HOST).is_some() && json_member(params, BOOTSTRAP_PORT).is_some()
        && json_member(params, BOOTSTRAP_ROOM).is_some()
}

/// Whether a context id that stands there as `context_id` can be decoded with: it must not be
/// null, and a pure context answer must have one.
pub open spec fn context_id_is_usable(
    context_id: Option<(bool, Option<Seq<char>>)>,
    request_type: Option<(bool, Option<Seq<char>>)>,
) -> bool {
    match context_id {
        Some((is_null, _)) => !is_null,
        None => !(request_type is Some && (request_type->0).1 == Some(CONTEXT_ONLY@)),
    }
}

pub open spec fn facts_of(member: Option<JsonMember>) -> Option<(bool, Option<Seq<char>>)> {
    match member {
        Some(member) => Some(member.facts()),
        None => None,
    }
}

/// Decide on a context id from the two members that matter.
pub fn usable_context_id(context_id: &Option<JsonMember>, request_type: &Option<JsonMember>) -> (usable:
    bool)
    ensures
        usable == context_id_is_usable(facts_of(*context_id), facts_of(*request_type)),
{
    match context_id {
        Some(member) => !member.is_null,
        None => match request_type {
            Some(member) => match &member.text {
                Some(text) => *text != CONTEXT_ONLY.to_owned(),
                None => true,
            },
            None => true,
        },
    }
}

pub open spec fn member_facts(params: Value, name: Seq<char>) -> Option<(bool, Option<Seq<char>>)> {
    if json_members(params).dom().contains(name) {
        Some(json_members(params)[name])
    } else {
        None
    }
}

/// Whether a decode worker can take over with these parameters.
pub open spec fn permits_handoff(params: Value) -> bool {
    context_id_is_usable(
        member_facts(params, CONTEXT_ID@),
        member_facts(params, REQUEST_TYPE@),
    )
}

fn handoff_is_permitted(params: &Value) -> (permitted: bool)
    ensures
        permitted == permits_handoff(*params),
{
    let context_id = json_member(params, CONTEXT_ID);
    let request_type = json_member(params, REQUEST_TYPE);
    usable_context_id(&context_id, &request_type)
}

fn is_terminal_reason(reason: &Option<FinishReason>) -> (terminal: bool)
    ensures
        terminal == ends_request(*reason),
{
    match reason {
        Some(FinishReason::Length) => false,
        Some(_) => true,
        None => false,
    }
}

/// Any reason but running out of length ends the request; the one-token prefill step always
/// runs out of length on a request that goes on.
pub open spec fn ends_request(reason: Option<FinishReason>) -> bool {
    reason is Some && reason->0 != FinishReason::Length
}

/// A prefill answer as far as it was read.
#[derive(Debug)]
pub struct PrefillStream<A> {
    pub first: Option<PrefillOutput<A>>,
    pub prompt_tokens_details: Option<u64>,
    /// Whether the rest is drained in the background instead of being waited for.
    pub detached: bool,
}

/// Whether the first output announces a bootstrap.
pub open spec fn starts_bootstrap<A>(first: Option<PrefillOutput<A>>) -> bool {
    first is Some && first->0.disaggregated_params is Some && announces_bootstrap(
        first->0.disaggregated_params->0,
    )
}

pub open spec fn details_of<A>(output: Option<PrefillOutput<A>>) -> Option<u64> {
    match output {
        Some(output) => output.prompt_tokens_details,
        None => None,
    }
}

/// An error that reports another, behind some words of its own, and holds it.
pub open spec fn reports_error<T, E>(
    result: Result<T, PrefillError<E>>,
    words: Seq<char>,
    text: Seq<char>,
    source: Option<E>,
) -> bool {
    &&& result is Err
    &&& result->Err_0 is PrefillError
    &&& result->Err_0->PrefillError_0@ == words + text
    &&& result->Err_0->PrefillError_1 == source
}

/// What the first output decides once the answer is complete, given whether a decode worker can
/// take over with its parameters.
pub open spec fn is_completion_of<A, E>(
    result: Result<PrefillCompletion<A>, PrefillError<E>>,
    first: Option<PrefillOutput<A>>,
    prompt_tokens_details: Option<u64>,
    permitted: bool,
) -> bool {
    match first {
        None => result == Err::<PrefillCompletion<A>, _>(
            PrefillError::<E>::NoDisaggregatedParams(NO_DATA),
        ),
        Some(output) => if ends_request(output.finish_reason) {
            result == Ok::<_, PrefillError<E>>(PrefillCompletion::Terminal { output })
        } else {
            match output.disaggregated_params {
                None => result == Err::<PrefillCompletion<A>, _>(
                    PrefillError::<E>::NoDisaggregatedParams(NO_PARAMS),
                ),
                Some(params) => if permitted {
                    result == Ok::<PrefillCompletion<A>, PrefillError<E>>(
                        PrefillCompletion::Handoff {
                            result: PrefillResult {
                                disaggregated_params: params,
                                prompt_tokens_details,
                            },
                            worker_link: output.worker_trace_link,
                        },
                    )
                } else {
                    result == Err::<PrefillCompletion<A>, _>(
                        PrefillError::<E>::NoDisaggregatedParams(NO_CONTEXT_ID),
                    )
                },
            }
        },
    }
}

/// Whether the first output carries parameters that a decode worker can take over with.
pub open spec fn first_permits_handoff<A>(first: Option<PrefillOutput<A>>) -> bool {
    first is Some && first->0.disaggregated_params is Some && permits_handoff(
        first->0.disaggregated_params->0,
    )
}

impl<A> PrefillStream<A> {
    /// The first item of an answer, or none where the stream ended at once. Prefill counts as
    /// complete when this succeeds.
    pub fn begin<E>(first: Option<PrefillItem<A, E>>) -> (stream: Result<Self, PrefillError<E>>)
        ensures
            match first {
                None => reports_error(stream, NO_OUTPUT@, Seq::empty(), None),
                Some(PrefillItem::Error { error, text }) => reports_error(
                    stream,
                    ERROR_IN_OUTPUT@,
                    text@,
                    Some(error),
                ),
                Some(PrefillItem::Output(output)) => stream == Ok::<_, PrefillError<E>>(
                    PrefillStream {
                        first: output,
                        prompt_tokens_details: details_of(output),
                        detached: starts_bootstrap(output),
                    },
                ),
            },
    {
        match first {
            None => {
                let message = NO_OUTPUT.to_owned();
                proof {
                    assert(message@ =~= NO_OUTPUT@ + Seq::<char>::empty());
                }
                Err(PrefillError::PrefillError(message, None))
            },
            Some(PrefillItem::Error { error, text }) => Err(
                PrefillError::PrefillError(
                    ERROR_IN_OUTPUT.to_owned().concat(text.as_str()),
                    Some(error),
                ),
            ),
            Some(PrefillItem::Output(output)) => {
                let mut details: Option<u64> = None;
                let mut detached: bool = false;
                if let Some(output) = &output {
                    details = output.prompt_tokens_details;
                    if let Some(params) = &output.disaggregated_params {
                        detached = is_bootstrap(params);
                    }
                }
                Ok(PrefillStream { first: output, prompt_tokens_details: details, detached })
            },
        }
    }

    /// A later item. The first usage details that come are kept.
    pub fn on_item<E>(&mut self, item: PrefillItem<A, E>) -> (result: Result<(), PrefillError<E>>)
        ensures
            final(self).first == old(self).first,
            final(self).detached == old(self).detached,
            match item {
                PrefillItem::Error { error, text } => reports_error(
                    result,
                    ERROR_IN_STREAM@,
                    text@,
                    Some(error),
                ) && final(self).prompt_tokens_details == old(self).prompt_tokens_details,
                PrefillItem::Output(output) => {
                    &&& result == Ok::<(), PrefillError<E>>(())
                    &&& final(self).prompt_tokens_details == (match old(self).prompt_tokens_details {
                        Some(details) => Some(details),
                        None => details_of(output),
                    })
                },
            },
    {
        match item {
            PrefillItem::Error { error, text } => Err(
                PrefillError::PrefillError(
                    ERROR_IN_STREAM.to_owned().concat(text.as_str()),
                    Some(error),
                ),
            ),
            PrefillItem::Output(output) => {
                if self.prompt_tokens_details.is_none() {
                    if let Some(output) = output {
                        self.prompt_tokens_details = output.prompt_tokens_details;
                    }
                }
                Ok(())
            },
        }
    }

    /// Decide on a complete answer, given whether a decode worker can take over with the
    /// parameters of the first output.
    pub fn conclude<E>(self, permitted: bool) -> (result: Result<
        PrefillCompletion<A>,
        PrefillError<E>,
    >)
        ensures
            is_completion_of(result, self.first, self.prompt_tokens_details, permitted),
    {
        let PrefillStream { first, prompt_tokens_details, .. } = self;
        let output = match first {
            Some(output) => output,
            None => return Err(PrefillError::NoDisaggregatedParams(NO_DATA)),
        };
        if is_terminal_reason(&output.finish_reason) {
            return Ok(PrefillCompletion::Terminal { output });
        }
        match output.disaggregated_params {
            None => Err(PrefillError::NoDisaggregatedParams(NO_PARAMS)),
            Some(params) => {
                if !permitted {
                    return Err(PrefillError::NoDisaggregatedParams(NO_CONTEXT_ID));
                }
                Ok(
                    PrefillCompletion::Handoff {
                        result: PrefillResult {
                            disaggregated_params: params,
                            prompt_tokens_details,
                        },
                        worker_link: output.worker_trace_link,
                    },
                )
            },
        }
    }

    /// The answer was read to its end, or is drained in the background.
    pub fn finish<E>(self) -> (result: Result<PrefillCompletion<A>, PrefillError<E>>)
        ensures
            is_completion_of(
                result,
                self.first,
                self.prompt_tokens_details,
                first_permits_handoff(self.first),
            ),
    {
        let permitted: bool = match &self.first {
            Some(output) => match &output.disaggregated_params {
                Some(params) => handoff_is_permitted(params),
                None => false,
            },
            None => false,
        };
        self.conclude(permitted)
    }
}

/// A request that ended in prefill is answered from there, whatever its parameters say; only
/// one that goes on can be refused for them.
pub proof fn law_terminal_answer_needs_no_handoff<A, E>(
    result: Result<PrefillCompletion<A>, PrefillError<E>>,
    output: PrefillOutput<A>,
    details: Option<u64>,
    permitted: bool,
)
    requires
        ends_request(output.finish_reason),
        is_completion_of(result, Some(output), details, permitted),
    ensures
        result == Ok::<_, PrefillError<E>>(PrefillCompletion::Terminal { output }),
{
}

/// Nothing is handed to a decode worker without parameters that it can use.
pub proof fn law_handoff_needs_usable_parameters<A, E>(
    result: Result<PrefillCompletion<A>, PrefillError<E>>,
    first: Option<PrefillOutput<A>>,
    details: Option<u64>,
    permitted: bool,
)
    requires
        is_completion_of(result, first, details, permitted),
        result is Ok,
        result->Ok_0 is Handoff,
    ensures
        permitted,
        first is Some,
        first->0.disaggregated_params == Some(result->Ok_0->result.disaggregated_params),
        !ends_request(first->0.finish_reason),
{
}

/// A context id can be decoded with unless it is null; where there is none, the answer must not be
/// a pure context one.
pub proof fn law_context_id_must_not_be_null(
    context_id: &Option<JsonMember>,
    request_type: &Option<JsonMember>,
    usable: bool,
)
    requires
        call_ensures(usable_context_id, (context_id, request_type), usable),
    ensures
        *context_id is Some ==> usable == !context_id->0.is_null,
        *context_id is None && *request_type is None ==> usable,
        *context_id is None && *request_type is Some && request_type->0.text is None ==> usable,
        *context_id is None && *request_type is Some && request_type->0.text is Some ==> usable == (
        request_type->0.text->0@ != "context_only"@),
{
}

/// An answer starts with its first item: no item, and an error, are errors that say so and keep
/// the worker's; an output is kept with its usage details, and is drained in the background exactly
/// if its parameters hold a bootstrap's host, port and room.
pub proof fn law_answer_starts_with_its_first_item<A, E>(
    first: Option<PrefillItem<A, E>>,
    stream: Result<PrefillStream<A>, PrefillError<E>>,
)
    requires
        call_ensures(PrefillStream::<A>::begin::<E>, (first,), stream),
    ensures
        stream is Ok <==> first is Some && first->0 is Output,
        first is None ==> stream->Err_0 is PrefillError && stream->Err_0->PrefillError_0@
            == "Prefill router returned no output (stream ended)"@
            && stream->Err_0->PrefillError_1 is None,
        first is Some && first->0 is Error ==> stream->Err_0 is PrefillError
            && stream->Err_0->PrefillError_0@ == "Prefill router returned error in output: "@
            + first->0->text@ && stream->Err_0->PrefillError_1 == Some(first->0->error),
        stream is Ok ==> {
            let output = first->0->Output_0;
            let made = stream->Ok_0;
            &&& made.first == output
            &&& output is None ==> made.prompt_tokens_details is None && !made.detached
            &&& output is Some ==> made.prompt_tokens_details == output->0.prompt_tokens_details
            &&& output is Some && output->0.disaggregated_params is None ==> !made.detached
            &&& output is Some && output->0.disaggregated_params is Some ==> {
                let members = json_members(output->0.disaggregated_params->0).dom();
                made.detached <==> members.contains("bootstrap_host"@) && members.contains(
                    "bootstrap_port"@,
                ) && members.contains("bootstrap_room"@)
            }
        },
{
    assert("Prefill router returned no output (stream ended)"@ + Seq::<char>::empty()
        =~= "Prefill router returned no output (stream ended)"@);
}

/// A later item changes nothing but the usage details, and those only while there are none; a later
/// error is an error that says so and keeps the worker's.
pub proof fn law_first_usage_details_are_kept<A, E>(
    stream: &mut PrefillStream<A>,
    item: PrefillItem<A, E>,
    result: Result<(), PrefillError<E>>,
)
    requires
        call_ensures(PrefillStream::<A>::on_item::<E>, (stream, item), result),
    ensures
        final(stream).first == old(stream).first,
        final(stream).detached == old(stream).detached,
        result is Ok <==> item is Output,
        item is Error ==> result->Err_0 is PrefillError && result->Err_0->PrefillError_0@
            == "Prefill router returned error in output stream: "@ + item->text@
            && result->Err_0->PrefillError_1 == Some(item->error)
            && final(stream).prompt_tokens_details == old(stream).prompt_tokens_details,
        old(stream).prompt_tokens_details is Some ==> final(stream).prompt_tokens_details
            == old(stream).prompt_tokens_details,
        old(stream).prompt_tokens_details is None && item is Output && item->Output_0 is Some
            ==> final(stream).prompt_tokens_details == item->Output_0->0.prompt_tokens_details,
        old(stream).prompt_tokens_details is None && item is Output && item->Output_0 is None
            ==> final(stream).prompt_tokens_details is None,
{
}

/// A request ends in prefill exactly if its first output has a reason other than length: then that
/// output is the answer. Otherwise it is handed over, with its parameters, its link and the usage
/// details, exactly if it has parameters that permit it.
pub proof fn law_answer_ends_or_is_handed_over<A, E>(
    stream: PrefillStream<A>,
    permitted: bool,
    result: Result<PrefillCompletion<A>, PrefillError<E>>,
    output: PrefillOutput<A>,
)
    requires
        call_ensures(PrefillStream::<A>::conclude::<E>, (stream, permitted), result),
    ensures
        stream.first is None ==> result == Err::<PrefillCompletion<A>, _>(
            PrefillError::<E>::NoDisaggregatedParams("Prefill router output has no data field"),
        ),
        stream.first == Some(output) ==> {
            let ends = output.finish_reason is Some && !(output.finish_reason->0 is Length);
            &&& ends ==> result is Ok && result->Ok_0 == (PrefillCompletion::Terminal { output })
            &&& !ends && output.disaggregated_params is None ==> result is Err && result->Err_0
                == PrefillError::<E>::NoDisaggregatedParams(
                "Prefill router output missing disaggregated_params",
            )
            &&& !ends && output.disaggregated_params is Some && !permitted ==> result is Err
                && result->Err_0 == PrefillError::<E>::NoDisaggregatedParams(
                "Prefill router output has no usable ctx_request_id for a non-terminal handoff",
            )
            &&& !ends && output.disaggregated_params is Some && permitted ==> {
                &&& result is Ok
                &&& result->Ok_0 is Handoff
                &&& result->Ok_0->result.disaggregated_params == output.disaggregated_params->0
                &&& result->Ok_0->result.prompt_tokens_details == stream.prompt_tokens_details
                &&& result->Ok_0->worker_link == output.worker_trace_link
            }
        },
{
}

/// A finished answer that does not end in prefill is handed over exactly if its parameters have a
/// context id that is not null, or none in an answer that is not a pure context one.
pub proof fn law_parameters_decide_on_the_handoff<A, E>(
    stream: PrefillStream<A>,
    result: Result<PrefillCompletion<A>, PrefillError<E>>,
    output: PrefillOutput<A>,
    params: Value,
)
    requires
        call_ensures(PrefillStream::<A>::finish::<E>, (stream,), result),
        stream.first == Some(output),
        output.disaggregated_params == Some(params),
        output.finish_reason is None || output.finish_reason->0 is Length,
    ensures
        ({
            let members = json_members(params);
            let has_id = members.dom().contains("ctx_request_id"@);
            let has_type = members.dom().contains("request_type"@);
            &&& has_id && members["ctx_request_id"@].0 ==> result is Err
            &&& has_id && !members["ctx_request_id"@].0 ==> result is Ok && result->Ok_0 is Handoff
            &&& !has_id && has_type && members["request_type"@].1 == Some("context_only"@)
                ==> result is Err
            &&& !has_id && !has_type ==> result is Ok && result->Ok_0 is Handoff
            &&& !has_id && has_type && members["request_type"@].1 != Some("context_only"@)
                ==> result is Ok && result->Ok_0 is Handoff
            &&& result is Ok ==> result->Ok_0->result.disaggregated_params == params
        }),
{
}

} // verus!
