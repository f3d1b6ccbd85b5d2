use kv_router::encoder_router::{
    EncodeChunk, EncodeError, EncodeItem, EncodeRequest, EncodeStream, EncoderRouter,
};
use kv_router::hop::{BuiltStep, DriveStep, HopLifecycleState};
use serde_json::Value;

fn json(text: &str) -> Value {
    serde_json::from_str(text).unwrap()
}

fn multimodal_request() -> EncodeRequest {
    EncodeRequest {
        is_probe: false,
        encoder_result: None,
        multi_modal_items: Some(vec![1]),
        migration_link: None,
    }
}

fn terminal(result: Option<&str>) -> EncodeItem {
    EncodeItem::Chunk(EncodeChunk {
        finished: true,
        encoder_result: result.map(json),
        worker_trace_link: Some(4),
    })
}

fn consume(items: Vec<EncodeItem>) -> Result<(Value, Option<u64>), EncodeError> {
    let mut stream = EncodeStream::new();
    for item in items {
        stream.on_item(item)?;
    }
    stream.finish()
}

fn active_router() -> EncoderRouter {
    let mut router = EncoderRouter::new("model".to_string(), "namespace".to_string());
    assert!(router.set_target(Some(1)));
    assert_eq!(router.hop.on_built(1, true), BuiltStep::Activated);
    router
}

#[test]
fn consumes_object_shaped_encode_terminal() {
    let (result, link) = consume(vec![terminal(Some(r#"{"schema_version":1}"#))]).unwrap();
    assert_eq!(result, json(r#"{"schema_version":1}"#));
    assert_eq!(link, Some(4));
}

#[test]
fn rejects_terminal_without_encoder_result() {
    assert_eq!(consume(vec![terminal(None)]), Err(EncodeError::NoObjectResult));
    assert_eq!(
        consume(vec![terminal(Some("[1]"))]),
        Err(EncodeError::NoObjectResult)
    );
    assert_eq!(consume(vec![]), Err(EncodeError::NoTerminalChunk));
    let unfinished = EncodeItem::Chunk(EncodeChunk {
        finished: false,
        encoder_result: Some(json("{}")),
        worker_trace_link: None,
    });
    assert_eq!(
        consume(vec![unfinished, EncodeItem::Empty]),
        Err(EncodeError::NoTerminalChunk)
    );
}

#[test]
fn last_terminal_chunk_counts_and_errors_end_the_hop() {
    let (result, _) = consume(vec![
        terminal(Some(r#"{"n":1}"#)),
        terminal(Some(r#"{"n":2}"#)),
    ])
    .unwrap();
    assert_eq!(result, json(r#"{"n":2}"#));
    assert_eq!(
        consume(vec![
            terminal(Some("{}")),
            EncodeItem::Error("lost".to_string())
        ]),
        Err(EncodeError::Worker("lost".to_string()))
    );
}

#[test]
fn encoder_failure_falls_back_to_downstream() {
    let mut request = multimodal_request();
    assert!(active_router().takes_hop(&request));
    EncoderRouter::apply_encode_result(&mut request, Err(EncodeError::NoTerminalChunk));
    assert!(request.encoder_result.is_none());
    assert!(request.multi_modal_items.is_some());

    EncoderRouter::apply_encode_result(&mut request, Ok((json("{}"), Some(8))));
    assert_eq!(request.encoder_result, Some(json("{}")));
    assert_eq!(request.migration_link, Some(8));
    assert!(!active_router().takes_hop(&request));
}

#[test]
fn only_media_on_real_requests_is_encoded() {
    assert!(EncoderRouter::should_encode(&multimodal_request()));
    let probe = EncodeRequest {
        is_probe: true,
        ..multimodal_request()
    };
    assert!(!EncoderRouter::should_encode(&probe));
    let empty = EncodeRequest {
        multi_modal_items: Some(vec![0, 0]),
        ..multimodal_request()
    };
    assert!(!EncoderRouter::should_encode(&empty));
    let text = EncodeRequest {
        multi_modal_items: None,
        ..multimodal_request()
    };
    assert!(!EncoderRouter::should_encode(&text));
}

#[test]
fn inactive_router_passes_requests_on() {
    let mut disabled = EncoderRouter::disabled();
    assert!(!disabled.takes_hop(&multimodal_request()));
    assert!(!disabled.set_target(Some(1)));
    assert_eq!(disabled.model_name, "");

    let mut router = active_router();
    assert_eq!(router.lifecycle_state(), HopLifecycleState::Active);
    assert!(router.set_target(None));
    assert!(!router.takes_hop(&multimodal_request()));
    assert!(router.set_target(Some(2)));
    assert_eq!(router.hop.drive(Some(2)), DriveStep::Build { target_id: 2 });
    assert!(!router.takes_hop(&multimodal_request()));
}

#[test]
fn encode_errors_are_put_into_words() {
    assert_eq!(
        EncodeError::Worker("boom".to_string()).message(),
        "Encode worker returned an error"
    );
    assert_eq!(
        EncodeError::NoTerminalChunk.message(),
        "Encode worker stream ended without a terminal chunk"
    );
    assert_eq!(
        EncodeError::NoObjectResult.message(),
        "Encode worker terminal is missing an object-shaped encoder_result"
    );
}
