//! Optional multimodal encoder hop: when a request goes through it, and what comes of it.
use serde_json::Value;
use vstd::prelude::*;

use crate::hop::{HopLifecycleState, RoutingHop};
use crate::adapters::json::{is_json_object, json_is_object};

verus! {

pub type EncoderLifecycleState = HopLifecycleState;

/// What of a request the encoder hop looks at and fills in.
#[derive(Debug)]
pub struct EncodeRequest {
    pub is_probe: bool,
    pub encoder_result: Option<Value>,
    /// The number of items of each kind of media.
    pub multi_modal_items: Option<Vec<usize>>,
    /// Trace link of the worker that the request came through.
    pub migration_link: Option<u64>,
}

/// One chunk of an encode worker's stream.
#[derive(Debug)]
pub struct EncodeChunk {
    pub finished: bool,
    pub encoder_result: Option<Value>,
    pub worker_trace_link: Option<u64>,
}

#[derive(Debug)]
pub enum EncodeItem {
    Error(String),
    Chunk(EncodeChunk),
    /// An item that carries no output.
    Empty,
}

#[derive(Debug, PartialEq, Eq)]
pub enum EncodeError {
    Worker(String),
    NoTerminalChunk,
    NoObjectResult,
}

impl EncodeError {
    /// The error in words, but for what the worker said.
    pub fn message(&self) -> (message: &'static str)
        ensures
            message@ == match self {
                EncodeError::Worker(_) => "Encode worker returned an error"@,
                EncodeError::NoTerminalChunk =>
                "Encode worker stream ended without a terminal chunk"@,
                EncodeError::NoObjectResult =>
                "Encode worker terminal is missing an object-shaped encoder_result"@,
            },
    {
        match self {
            EncodeError::Worker(_) => "Encode worker returned an error",
            EncodeError::NoTerminalChunk => "Encode worker stream ended without a terminal chunk",
            EncodeError::NoObjectResult =>
            "Encode worker terminal is missing an object-shaped encoder_result",
        }
    }
}

/// Whether there is anything to encode: media on a request that is no probe and has no result.
pub open spec fn wants_encoding(request: EncodeRequest) -> bool {
    &&& !request.is_probe
    &&& request.encoder_result is None
    &&& request.multi_modal_items is Some
    &&& has_items(request.multi_modal_items->0@)
}

/// Whether any kind of media has an item.
pub open spec fn has_items(items: Seq<usize>) -> bool {
    exists|i: int| 0 <= i < items.len() && (#[trigger] items[i]) > 0
}

fn any_items(items: &Vec<usize>) -> (any: bool)
    ensures
        any == has_items(items@),
{
    let mut i: usize = 0;
    while i < items.len()
        invariant
            i <= items.len(),
            forall|j: int| 0 <= j < i ==> !((#[trigger] items@[j]) > 0),
        decreases items.len() - i,
    {
        if items[i] > 0 {
            return true;
        }
        i = i + 1;
    }
    false
}

/// A stream of an encode worker as far as it was read: its last finishing chunk.
#[derive(Debug)]
pub struct EncodeStream {
    pub terminal: Option<EncodeChunk>,
}

/// The optional encoder hop of a token pipeline.
#[derive(Debug)]
pub struct EncoderRouter {
    pub hop: RoutingHop,
    pub model_name: String,
    pub namespace: String,
}

impl EncoderRouter {
    /// A hop that passes everything on.
    pub fn disabled() -> (router: Self)
        ensures
            router.hop == RoutingHop::idle(false),
            router.hop.wf(),
            router.model_name@ == ""@,
            router.namespace@ == ""@,
    {
        EncoderRouter {
            hop: RoutingHop::new(false),
            model_name: "".to_owned(),
            namespace: "".to_owned(),
        }
    }

    /// A hop that follows the targets it is given.
    pub fn new(model_name: String, namespace: String) -> (router: Self)
        ensures
            router.hop == RoutingHop::idle(true),
            router.hop.wf(),
            router.model_name == model_name,
            router.namespace == namespace,
    {
        EncoderRouter { hop: RoutingHop::new(true), model_name, namespace }
    }

    pub fn lifecycle_state(&self) -> (state: EncoderLifecycleState)
        ensures
            state == self.hop.lifecycle,
    {
        self.hop.lifecycle_state()
    }

    pub fn set_target(&mut self, target: Option<u64>) -> (notify: bool)
        requires
            old(self).hop.wf(),
        ensures
            final(self).hop.wf(),
            final(self).hop == old(self).hop.retargeted(target),
            final(self).model_name == old(self).model_name,
            final(self).namespace == old(self).namespace,
            notify == (target != old(self).hop.target && old(self).hop.driven),
    {
        self.hop.set_target(target)
    }

    pub fn should_encode(request: &EncodeRequest) -> (wanted: bool)
        ensures
            wanted == wants_encoding(*request),
    {
        if request.is_probe || request.encoder_result.is_some() {
            return false;
        }
        match &request.multi_modal_items {
            Some(items) => any_items(items),
            None => false,
        }
    }

    /// Whether a request goes through the encoder: only while the hop is active.
    pub fn takes_hop(&self, request: &EncodeRequest) -> (hop: bool)
        ensures
            hop == (self.hop.lifecycle == HopLifecycleState::Active && wants_encoding(*request)),
    {
        self.hop.lifecycle == HopLifecycleState::Active && EncoderRouter::should_encode(request)
    }

    /// Enter the outcome of the hop into the request. A failed hop leaves the request as it was,
    /// and the next worker encodes inline.
    pub fn apply_encode_result(
        request: &mut EncodeRequest,
        outcome: Result<(Value, Option<u64>), EncodeError>,
    )
        ensures
            match outcome {
                Ok((result, link)) => *final(request) == (EncodeRequest {
                    encoder_result: Some(result),
                    migration_link: link,
                    ..*old(request)
                }),
                Err(_) => *final(request) == *old(request),
            },
    {
        match outcome {
            Ok((result, link)) => {
                request.encoder_result = Some(result);
                request.migration_link = link;
            },
            Err(_) => {},
        }
    }
}

/// The stream after one more item.
pub open spec fn after_item(terminal: Option<EncodeChunk>, item: EncodeItem) -> Result<
    Option<EncodeChunk>,
    EncodeError,
> {
    match item {
        EncodeItem::Error(message) => Err(EncodeError::Worker(message)),
        EncodeItem::Chunk(chunk) => if chunk.finished {
            Ok(Some(chunk))
        } else {
            Ok(terminal)
        },
        EncodeItem::Empty => Ok(terminal),
    }
}

/// What a complete stream comes to, given whether its result is an object.
pub open spec fn encode_outcome(
    terminal: Option<EncodeChunk>,
    result_is_object: bool,
) -> Result<(Value, Option<u64>), EncodeError> {
    match terminal {
        None => Err(EncodeError::NoTerminalChunk),
        Some(chunk) => match chunk.encoder_result {
            Some(result) => if result_is_object {
                Ok((result, chunk.worker_trace_link))
            } else {
                Err(EncodeError::NoObjectResult)
            },
            None => Err(EncodeError::NoObjectResult),
        },
    }
}

/// Whether the result of a terminal chunk is an object.
pub open spec fn has_object_result(terminal: Option<EncodeChunk>) -> bool {
    terminal is Some && terminal->0.encoder_result is Some && json_is_object(
        terminal->0.encoder_result->0,
    )
}

impl EncodeStream {
    pub fn new() -> (stream: Self)
        ensures
            stream.terminal is None,
    {
        EncodeStream { terminal: None }
    }

    /// Take the next item. An error ends the hop; of several finishing chunks the last counts.
    pub fn on_item(&mut self, item: EncodeItem) -> (result: Result<(), EncodeError>)
        ensures
            match after_item(old(self).terminal, item) {
                Ok(terminal) => result == Ok::<(), EncodeError>(()) && final(self).terminal
                    == terminal,
                Err(error) => result == Err::<(), EncodeError>(error) && final(self).terminal
                    == old(self).terminal,
            },
    {
        match item {
            EncodeItem::Error(message) => Err(EncodeError::Worker(message)),
            EncodeItem::Chunk(chunk) => {
                if chunk.finished {
                    self.terminal = Some(chunk);
                }
                Ok(())
            },
            EncodeItem::Empty => Ok(()),
        }
    }

    /// Decide on a complete stream, given whether its result is an object.
    pub fn conclude(self, result_is_object: bool) -> (outcome: Result<
        (Value, Option<u64>),
        EncodeError,
    >)
        ensures
            outcome == encode_outcome(self.terminal, result_is_object),
    {
        match self.terminal {
            None => Err(EncodeError::NoTerminalChunk),
            Some(chunk) => {
                match chunk.encoder_result {
                    Some(result) => {
                        if result_is_object {
                            Ok((result, chunk.worker_trace_link))
                        } else {
                            Err(EncodeError::NoObjectResult)
                        }
                    },
                    None => Err(EncodeError::NoObjectResult),
                }
            },
        }
    }

    /// The stream has ended: its last finishing chunk must hold an object.
    pub fn finish(self) -> (outcome: Result<(Value, Option<u64>), EncodeError>)
        ensures
            outcome == encode_outcome(self.terminal, has_object_result(self.terminal)),
    {
        let is_object: bool = match &self.terminal {
            Some(chunk) => match &chunk.encoder_result {
                Some(result) => is_json_object(result),
                None => false,
            },
            None => false,
        };
        self.conclude(is_object)
    }
}

/// A request goes through the encoder exactly if the hop is active and the request is no probe,
/// has no result yet, and brings at least one item of some kind of media.
pub proof fn law_media_go_through_an_active_hop(
    router: &EncoderRouter,
    request: &EncodeRequest,
    hop: bool,
    wanted: bool,
    i: int,
)
    requires
        call_ensures(EncoderRouter::takes_hop, (router, request), hop),
        call_ensures(EncoderRouter::should_encode, (request,), wanted),
    ensures
        hop <==> wanted && router.hop.lifecycle is Active,
        request.is_probe ==> !wanted,
        request.encoder_result is Some ==> !wanted,
        request.multi_modal_items is None ==> !wanted,
        !request.is_probe && request.encoder_result is None && request.multi_modal_items is Some
            && 0 <= i < request.multi_modal_items->0@.len() && request.multi_modal_items->0@[i] > 0
            ==> wanted,
        request.multi_modal_items is Some && (forall|j: int|
            0 <= j < request.multi_modal_items->0@.len() ==> #[trigger]
            request.multi_modal_items->0@[j] == 0) ==> !wanted,
{
}

/// A result of the hop is entered into the request with the link that came with it, and nothing
/// else of the request changes; a failure changes nothing.
pub proof fn law_encoded_result_is_entered(
    request: &mut EncodeRequest,
    outcome: Result<(Value, Option<u64>), EncodeError>,
)
    requires
        call_ensures(EncoderRouter::apply_encode_result, (request, outcome), ()),
    ensures
        outcome is Ok ==> final(request).encoder_result == Some((outcome->Ok_0).0)
            && final(request).migration_link == (outcome->Ok_0).1,
        outcome is Err ==> *final(request) == *old(request),
        final(request).is_probe == old(request).is_probe,
        final(request).multi_modal_items == old(request).multi_modal_items,
{
}

/// Of several finishing chunks the last one counts; a chunk that does not finish, or an empty
/// item, changes nothing; an error of the worker ends the stream with that error.
pub proof fn law_last_finishing_chunk_counts(
    stream: &mut EncodeStream,
    item: EncodeItem,
    result: Result<(), EncodeError>,
)
    requires
        call_ensures(EncodeStream::on_item, (stream, item), result),
    ensures
        result is Err <==> item is Error,
        item is Error ==> result->Err_0 == EncodeError::Worker(item->Error_0)
            && final(stream).terminal == old(stream).terminal,
        item is Chunk && item->Chunk_0.finished ==> final(stream).terminal == Some(item->Chunk_0),
        item is Chunk && !item->Chunk_0.finished ==> final(stream).terminal
            == old(stream).terminal,
        item is Empty ==> final(stream).terminal == old(stream).terminal,
{
}

/// A stream comes to the result of its last finishing chunk, with that chunk's link, where the
/// result is an object; without such a chunk, or with any other result, it is an error.
pub proof fn law_stream_comes_to_its_last_result(
    stream: EncodeStream,
    result_is_object: bool,
    outcome: Result<(Value, Option<u64>), EncodeError>,
    finished: Result<(Value, Option<u64>), EncodeError>,
    chunk: EncodeChunk,
    result: Value,
)
    requires
        call_ensures(EncodeStream::conclude, (stream, result_is_object), outcome),
        call_ensures(EncodeStream::finish, (stream,), finished),
    ensures
        stream.terminal is None ==> outcome == Err::<(Value, Option<u64>), _>(
            EncodeError::NoTerminalChunk,
        ) && finished == outcome,
        stream.terminal == Some(chunk) && chunk.encoder_result is None ==> outcome == Err::<
            (Value, Option<u64>),
            _,
        >(EncodeError::NoObjectResult) && finished == outcome,
        stream.terminal == Some(chunk) && chunk.encoder_result == Some(result) ==> {
            &&& result_is_object ==> outcome == Ok::<_, EncodeError>(
                (result, chunk.worker_trace_link),
            )
            &&& !result_is_object ==> outcome == Err::<(Value, Option<u64>), _>(
                EncodeError::NoObjectResult,
            )
            &&& json_is_object(result) ==> finished == Ok::<_, EncodeError>(
                (result, chunk.worker_trace_link),
            )
            &&& !json_is_object(result) ==> finished == Err::<(Value, Option<u64>), _>(
                EncodeError::NoObjectResult,
            )
        },
{
}

/// A disabled encoder follows no target and names no model; a new one follows targets under the
/// names it is given. Both start pending, and a new stream has read nothing.
pub proof fn law_new_encoder_is_pending(
    disabled: EncoderRouter,
    model_name: String,
    namespace: String,
    router: EncoderRouter,
    stream: EncodeStream,
)
    requires
        call_ensures(EncoderRouter::disabled, (), disabled),
        call_ensures(EncoderRouter::new, (model_name, namespace), router),
        call_ensures(EncodeStream::new, (), stream),
    ensures
        !disabled.hop.driven && disabled.hop.lifecycle is Pending && disabled.hop.target is None
            && disabled.hop.binding is None,
        disabled.model_name@ == ""@ && disabled.namespace@ == ""@,
        router.hop.driven && router.hop.lifecycle is Pending && router.hop.target is None
            && router.hop.binding is None,
        router.model_name == model_name && router.namespace == namespace,
        stream.terminal is None,
{
}

/// The encoder's hop follows its target as any hop does, and keeps its names.
pub proof fn law_encoder_follows_its_target(
    router: &mut EncoderRouter,
    target: Option<u64>,
    notify: bool,
)
    requires
        old(router).hop.wf(),
        call_ensures(EncoderRouter::set_target, (router, target), notify),
    ensures
        final(router).hop.target == target,
        notify <==> target != old(router).hop.target && old(router).hop.driven,
        target is None && old(router).hop.target is Some ==> final(router).hop.lifecycle
            is Unavailable,
        target is Some && target != old(router).hop.target ==> (final(router).hop.lifecycle
            is Active <==> old(router).hop.binding == target),
        final(router).model_name == old(router).model_name,
        final(router).namespace == old(router).namespace,
{
}

/// Each error is told in its own words.
pub proof fn law_encode_error_is_told_in_words(error: &EncodeError, message: &'static str)
    requires
        call_ensures(EncodeError::message, (error,), message),
    ensures
        *error is Worker ==> message@ == "Encode worker returned an error"@,
        *error is NoTerminalChunk ==> message@
            == "Encode worker stream ended without a terminal chunk"@,
        *error is NoObjectResult ==> message@
            == "Encode worker terminal is missing an object-shaped encoder_result"@,
{
}

} // verus!
