//! Provider boundary: complete responses, streamed events and failures.
//!
//! Adapters assemble complete responses; partial arguments are display-only.
use vstd::prelude::*;

use crate::json::Json;
use crate::json::JsonView;

verus! {

/// Token usage of one model turn.
#[derive(Debug, Clone, Copy, PartialEq, Eq, Structural)]
pub struct Usage {
    pub input_tokens: u64,
    pub output_tokens: u64,
    /// False is a host estimate, never provider-reported billing data.
    pub reported: bool,
}

/// Why the model stopped.
#[derive(Debug, Clone, Copy, PartialEq, Eq, Structural)]
pub enum FinishReason {
    Stop,
    ToolCalls,
    Length,
}

/// One complete tool call of a response.
#[derive(Debug, Clone, PartialEq, Eq)]
pub struct ToolCall {
    pub provider_call_id: String,
    pub name: String,
    pub arguments: String,
}

/// The contents of a tool call.
pub struct CallView {
    pub id: Seq<char>,
    pub name: Seq<char>,
    pub arguments: Seq<char>,
}

impl View for ToolCall {
    type V = CallView;

    open spec fn view(&self) -> CallView {
        CallView { id: self.provider_call_id@, name: self.name@, arguments: self.arguments@ }
    }
}

/// A complete model response.
#[derive(Debug)]
pub struct ModelResponse {
    pub finish: FinishReason,
    pub text: String,
    pub calls: Vec<ToolCall>,
    /// Adapter-owned continuation data, preserved without interpretation.
    pub continuation: Option<Json>,
}

/// The contents of a model response.
pub struct ResponseView {
    pub finish: FinishReason,
    pub text: Seq<char>,
    pub calls: Seq<CallView>,
    pub continuation: Option<JsonView>,
}

impl View for ModelResponse {
    type V = ResponseView;

    open spec fn view(&self) -> ResponseView {
        ResponseView {
            finish: self.finish,
            text: self.text@,
            calls: self.calls@.map_values(|c: ToolCall| c@),
            continuation: match self.continuation {
                Some(json) => Some(json@),
                None => None,
            },
        }
    }
}

/// What a provider reports while a response streams in.
#[derive(Debug)]
pub enum ProviderEvent {
    TextDelta(String),
    ArgumentsDelta(String),
    Completed { response: ModelResponse, usage: Option<Usage> },
}

/// The contents of a provider event.
pub enum EventView {
    TextDelta(Seq<char>),
    ArgumentsDelta(Seq<char>),
    Completed { response: ResponseView, usage: Option<Usage> },
}

impl View for ProviderEvent {
    type V = EventView;

    open spec fn view(&self) -> EventView {
        match *self {
            ProviderEvent::TextDelta(s) => EventView::TextDelta(s@),
            ProviderEvent::ArgumentsDelta(s) => EventView::ArgumentsDelta(s@),
            ProviderEvent::Completed { response, usage } => EventView::Completed {
                response: response@,
                usage,
            },
        }
    }
}

/// The kinds of provider failure.
#[derive(Debug, Clone, Copy, PartialEq, Eq, Structural)]
pub enum ProviderErrorKind {
    TruncatedStream,
    Timeout,
    Transport,
    RateLimited,
    Protocol,
    Unsupported,
    ResponseLimit,
}

/// A provider failure.
#[derive(Debug, Clone, Copy, PartialEq, Eq, Structural)]
pub struct ProviderError {
    pub kind: ProviderErrorKind,
    pub retryable: bool,
}

impl ProviderError {
    /// A failure of the given kind.
    pub fn new(kind: ProviderErrorKind, retryable: bool) -> (out: ProviderError)
        ensures
            out == (ProviderError { kind, retryable }),
    {
        ProviderError { kind, retryable }
    }
}

/// The bounds within which a response is read.
#[derive(Debug, Clone, Copy, PartialEq, Eq, Structural)]
pub struct ProviderSettings {
    /// Bytes of one whole response on the wire.
    pub wire_bytes: usize,
    /// Bytes of one event.
    pub event_bytes: usize,
    /// Tool calls of one response.
    pub max_tool_calls: usize,
}

} // verus!
