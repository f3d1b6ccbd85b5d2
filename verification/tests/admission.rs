use kv_router::adapters::json::JsonMember;
use kv_router::prefill_router::stream::{
    usable_context_id, FinishReason, PrefillCompletion, PrefillError, PrefillItem, PrefillOutput,
    PrefillStream,
};
use serde_json::Value;

fn json(text: &str) -> Value {
    serde_json::from_str(text).unwrap()
}

type Tokens = Vec<u32>;

/// An error of a worker, apart from what it says.
#[derive(Debug, PartialEq)]
struct WorkerError(u32);

fn output(finish_reason: Option<FinishReason>, params: Option<&str>) -> PrefillOutput<Tokens> {
    PrefillOutput {
        finish_reason,
        disaggregated_params: params.map(json),
        prompt_tokens_details: None,
        worker_trace_link: None,
        rest: Vec::new(),
    }
}

fn failed(code: u32, text: &str) -> PrefillItem<Tokens, WorkerError> {
    PrefillItem::Error {
        error: WorkerError(code),
        text: text.to_string(),
    }
}

fn begin(
    first: Option<PrefillItem<Tokens, WorkerError>>,
) -> Result<PrefillStream<Tokens>, PrefillError<WorkerError>> {
    PrefillStream::begin(first)
}

fn consume(
    items: Vec<PrefillItem<Tokens, WorkerError>>,
) -> Result<PrefillCompletion<Tokens>, PrefillError<WorkerError>> {
    let mut items = items.into_iter();
    let mut stream = begin(items.next())?;
    if !stream.detached {
        for item in items {
            stream.on_item(item)?;
        }
    }
    stream.finish()
}

#[test]
fn bootstrap_drain_is_left_to_the_background() {
    let first = output(
        None,
        Some(
            r#"{"bootstrap_host":"127.0.0.1","bootstrap_port":1,"bootstrap_room":"test","ctx_request_id":42}"#,
        ),
    );
    let stream = begin(Some(PrefillItem::Output(Some(first)))).unwrap();
    assert!(stream.detached);
    assert!(matches!(
        stream.finish::<WorkerError>(),
        Ok(PrefillCompletion::Handoff { .. })
    ));
    for partial in [
        r#"{"bootstrap_host":"h","bootstrap_port":1}"#,
        r#"["bootstrap_host","bootstrap_port","bootstrap_room"]"#,
    ] {
        let stream =
            begin(Some(PrefillItem::Output(Some(output(None, Some(partial)))))).unwrap();
        assert!(!stream.detached);
    }
}

#[test]
fn first_output_error_does_not_record_prefill_complete() {
    let error = begin(Some(failed(7, "prefill failed"))).unwrap_err();
    let PrefillError::PrefillError(text, source) = error else {
        panic!("expected a first output error");
    };
    assert_eq!(
        text,
        "Prefill router returned error in output: prefill failed"
    );
    assert_eq!(source, Some(WorkerError(7)));
    let PrefillError::PrefillError(text, source) = begin(None).unwrap_err() else {
        panic!("expected an error");
    };
    assert_eq!(text, "Prefill router returned no output (stream ended)");
    assert_eq!(source, None);
}

#[test]
fn later_output_error_is_propagated_after_prefill_arrival() {
    let result = consume(vec![
        PrefillItem::Output(Some(output(None, Some("{}")))),
        failed(8, "prefill stream failed"),
    ]);
    let Err(PrefillError::PrefillError(text, source)) = result else {
        panic!("expected a later output error");
    };
    assert!(text.contains("prefill stream failed"), "{text}");
    assert_eq!(source, Some(WorkerError(8)));
}

#[test]
fn terminal_finish_reasons_without_handoff_are_returned_to_caller() {
    for reason in [
        || FinishReason::EoS,
        || FinishReason::Stop,
        || FinishReason::Cancelled,
        || FinishReason::Error("prefill failed".to_string()),
        || FinishReason::ContentFilter,
    ] as [fn() -> FinishReason; 5]
    {
        let mut first = output(Some(reason()), None);
        first.rest = vec![2];
        let result = consume(vec![PrefillItem::Output(Some(first))]).unwrap();
        let PrefillCompletion::Terminal { output } = result else {
            panic!("expected terminal prefill completion");
        };
        assert_eq!(output.finish_reason, Some(reason()));
        assert_eq!(output.rest, vec![2]);
    }
}

#[test]
fn length_limited_prefill_still_requires_handoff() {
    let result = consume(vec![PrefillItem::Output(Some(output(
        Some(FinishReason::Length),
        Some(r#"{"ctx_request_id":42}"#),
    )))])
    .unwrap();
    let PrefillCompletion::Handoff { result, .. } = result else {
        panic!("expected prefill handoff");
    };
    assert_eq!(result.disaggregated_params, json(r#"{"ctx_request_id":42}"#));
}

#[test]
fn unfinished_prefill_still_requires_handoff() {
    let mut first = output(None, Some(r#"{"ctx_request_id":42}"#));
    first.worker_trace_link = Some(9);
    let mut later = output(None, None);
    later.prompt_tokens_details = Some(5);
    let mut last = output(None, None);
    last.prompt_tokens_details = Some(6);
    let result = consume(vec![
        PrefillItem::Output(Some(first)),
        PrefillItem::Output(None),
        PrefillItem::Output(Some(later)),
        PrefillItem::Output(Some(last)),
    ])
    .unwrap();
    let PrefillCompletion::Handoff { result, worker_link } = result else {
        panic!("expected prefill handoff");
    };
    assert_eq!(result.disaggregated_params, json(r#"{"ctx_request_id":42}"#));
    assert_eq!(result.prompt_tokens_details, Some(5));
    assert_eq!(worker_link, Some(9));
}

#[test]
fn non_terminal_prefill_without_usable_ctx_request_id_fails_before_decode() {
    for params in [
        r#"{"ctx_request_id":null}"#,
        r#"{"request_type":"context_only"}"#,
    ] {
        let error = consume(vec![PrefillItem::Output(Some(output(None, Some(params))))]).unwrap_err();
        let PrefillError::NoDisaggregatedParams(message) = error else {
            panic!("expected a missing ctx_request_id to reject the handoff");
        };
        assert!(message.contains("no usable ctx_request_id"));
    }
    for params in [
        r#"{"request_type":"context_only","ctx_request_id":1}"#,
        r#"{"request_type":"generation_only"}"#,
        r#"{"request_type":7}"#,
        "{}",
        "[1]",
    ] {
        assert!(consume(vec![PrefillItem::Output(Some(output(None, Some(params))))]).is_ok());
    }
}

#[test]
fn handoff_needs_data_and_parameters() {
    assert!(matches!(
        consume(vec![PrefillItem::Output(None)]),
        Err(PrefillError::NoDisaggregatedParams(
            "Prefill router output has no data field"
        ))
    ));
    assert!(matches!(
        consume(vec![PrefillItem::Output(Some(output(None, None)))]),
        Err(PrefillError::NoDisaggregatedParams(
            "Prefill router output missing disaggregated_params"
        ))
    ));
}

#[test]
fn context_id_is_judged_by_its_members() {
    let member = |is_null, text: Option<&str>| {
        Some(JsonMember {
            is_null,
            text: text.map(String::from),
        })
    };
    assert!(usable_context_id(&None, &None));
    assert!(usable_context_id(&member(false, Some("id")), &None));
    assert!(!usable_context_id(&member(true, None), &None));
    assert!(!usable_context_id(&None, &member(false, Some("context_only"))));
    assert!(usable_context_id(&member(false, None), &member(false, Some("context_only"))));
}
