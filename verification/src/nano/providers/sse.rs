//! Bounded SSE framing and Chat Completions assembly. Only `[DONE]` releases
//! calls.
use std::collections::BTreeMap;
use std::collections::VecDeque;
use vstd::prelude::*;
use vstd::string::*;
use vstd::utf8::*;

use crate::json;
use crate::json::Json;
use crate::json::JsonView;
use crate::nano::provider::CallView;
use crate::nano::provider::EventView;
use crate::nano::provider::FinishReason;
use crate::nano::provider::ModelResponse;
use crate::nano::provider::ProviderError;
use crate::nano::provider::ProviderErrorKind;
use crate::nano::provider::ProviderEvent;
use crate::nano::provider::ProviderSettings;
use crate::nano::provider::ResponseView;
use crate::nano::provider::ToolCall;
use crate::nano::provider::Usage;
use crate::text;

verus! {

broadcast use vstd::std_specs::btree::group_btree_axioms;

/// Whether a failure of this kind may be retried.
pub open spec fn is_retryable(kind: ProviderErrorKind) -> bool {
    ||| kind == ProviderErrorKind::TruncatedStream
    ||| kind == ProviderErrorKind::Timeout
    ||| kind == ProviderErrorKind::Transport
    ||| kind == ProviderErrorKind::RateLimited
}

/// A failure of the given kind, with whether it may be retried.
pub fn error(kind: ProviderErrorKind) -> (out: ProviderError)
    ensures
        out == (ProviderError { kind, retryable: is_retryable(kind) }),
{
    let retryable: bool = match kind {
        ProviderErrorKind::TruncatedStream
        | ProviderErrorKind::Timeout
        | ProviderErrorKind::Transport
        | ProviderErrorKind::RateLimited => true,
        _ => false,
    };
    ProviderError::new(kind, retryable)
}

/// A tool call that is still being assembled.
struct Call {
    id: String,
    name: String,
    arguments: String,
}

impl View for Call {
    type V = CallView;

    closed spec fn view(&self) -> CallView {
        CallView { id: self.id@, name: self.name@, arguments: self.arguments@ }
    }
}

/// Assembles one streamed response.
pub struct Decoder {
    settings: ProviderSettings,
    bytes: usize,
    line: Vec<u8>,
    data: Vec<u8>,
    events: VecDeque<ProviderEvent>,
    text: String,
    reasoning: Option<String>,
    reasoning_content: Option<String>,
    calls: BTreeMap<u64, Call>,
    finish: Option<FinishReason>,
    usage: Option<Usage>,
    id: Option<String>,
    model: Option<String>,
    done: bool,
}

/// The state of a decoder.
#[verifier::ext_equal]
pub struct DecoderView {
    pub settings: ProviderSettings,
    /// Bytes received so far.
    pub bytes: int,
    /// The line that has not ended yet.
    pub line: Seq<u8>,
    /// The data lines of the event that has not ended yet.
    pub data: Seq<u8>,
    /// Events that have not been taken yet.
    pub events: Seq<EventView>,
    pub text: Seq<char>,
    pub reasoning: Option<Seq<char>>,
    pub reasoning_content: Option<Seq<char>>,
    /// Tool calls under assembly, by their index.
    pub calls: Map<u64, CallView>,
    pub finish: Option<FinishReason>,
    pub usage: Option<Usage>,
    pub id: Option<Seq<char>>,
    pub model: Option<Seq<char>>,
    /// Whether `[DONE]` was accepted.
    pub done: bool,
}

/// The contents of a list of events.
pub open spec fn event_views(events: Seq<ProviderEvent>) -> Seq<EventView> {
    events.map_values(|e: ProviderEvent| e@)
}

spec fn call_views(calls: Map<u64, Call>) -> Map<u64, CallView> {
    calls.map_values(|c: Call| c@)
}

impl View for Decoder {
    type V = DecoderView;

    closed spec fn view(&self) -> DecoderView {
        DecoderView {
            settings: self.settings,
            bytes: self.bytes as int,
            line: self.line@,
            data: self.data@,
            events: event_views(self.events@),
            text: self.text@,
            reasoning: text::opt_view(self.reasoning),
            reasoning_content: text::opt_view(self.reasoning_content),
            calls: call_views(self.calls@),
            finish: self.finish,
            usage: self.usage,
            id: text::opt_view(self.id),
            model: text::opt_view(self.model),
            done: self.done,
        }
    }
}

// ------------------------------------------------------------------- model

/// What a step leads to: the state after it, and the failure it ended in.
pub struct Step {
    pub state: DecoderView,
    pub failure: Option<ProviderErrorKind>,
}

/// A step that succeeds.
pub open spec fn accept(state: DecoderView) -> Step {
    Step { state, failure: None }
}

/// A step that fails.
pub open spec fn refuse(state: DecoderView, kind: ProviderErrorKind) -> Step {
    Step { state, failure: Some(kind) }
}

/// The result that stands for the failure of a step.
pub open spec fn outcome(failure: Option<ProviderErrorKind>) -> Result<(), ProviderError> {
    match failure {
        None => Ok(()),
        Some(kind) => Err(ProviderError { kind, retryable: is_retryable(kind) }),
    }
}

/// A machine number that stays at its largest value instead of overflowing.
pub open spec fn saturated(n: int) -> int {
    if n > usize::MAX {
        usize::MAX as int
    } else {
        n
    }
}

/// The state of a decoder that has received nothing.
pub open spec fn fresh(settings: ProviderSettings) -> DecoderView {
    DecoderView {
        settings,
        bytes: 0,
        line: Seq::empty(),
        data: Seq::empty(),
        events: Seq::empty(),
        text: Seq::empty(),
        reasoning: None,
        reasoning_content: None,
        calls: Map::empty(),
        finish: None,
        usage: None,
        id: None,
        model: None,
        done: false,
    }
}

/// The calls are numbered from zero without a gap, each has an id and a name,
/// and no id occurs twice.
pub open spec fn calls_complete(calls: Map<u64, CallView>) -> bool {
    &&& forall|i: u64|
        #![trigger calls.contains_key(i)]
        #![trigger calls[i]]
        i < calls.dom().len() ==> calls.contains_key(i) && calls[i].id.len() > 0
            && calls[i].name.len() > 0
    &&& forall|i: u64, j: u64|
        i < j < calls.dom().len() ==> (#[trigger] calls[i]).id != (#[trigger] calls[j]).id
}

/// The calls in the order of their numbers.
pub open spec fn released_calls(calls: Map<u64, CallView>) -> Seq<CallView> {
    Seq::new(calls.dom().len(), |i: int| calls[i as u64])
}

/// The continuation data: the reasoning texts that were streamed, by field.
pub open spec fn continuation(
    reasoning: Option<Seq<char>>,
    reasoning_content: Option<Seq<char>>,
) -> Option<JsonView> {
    let first = match reasoning {
        Some(t) => seq![("reasoning"@, JsonView::Text(t))],
        None => Seq::<(Seq<char>, JsonView)>::empty(),
    };
    let second = match reasoning_content {
        Some(t) => seq![("reasoning_content"@, JsonView::Text(t))],
        None => Seq::<(Seq<char>, JsonView)>::empty(),
    };
    if reasoning is None && reasoning_content is None {
        None
    } else {
        Some(JsonView::Object(first + second))
    }
}

/// `[DONE]`: the response is complete, and its calls are released.
pub open spec fn finish_stream(s: DecoderView) -> Step {
    match s.finish {
        None => refuse(s, ProviderErrorKind::TruncatedStream),
        Some(finish) => if !calls_complete(s.calls) {
            refuse(s, ProviderErrorKind::Protocol)
        } else if finish != FinishReason::Length && (finish == FinishReason::ToolCalls) == (
        s.calls.dom().len() == 0) {
            refuse(s, ProviderErrorKind::Protocol)
        } else {
            accept(
                DecoderView {
                    events: s.events.push(
                        EventView::Completed {
                            response: ResponseView {
                                finish,
                                text: s.text,
                                calls: released_calls(s.calls),
                                continuation: continuation(s.reasoning, s.reasoning_content),
                            },
                            usage: s.usage,
                        },
                    ),
                    text: Seq::empty(),
                    done: true,
                    ..s
                },
            )
        },
    }
}

/// The response id must not change.
pub open spec fn note_id(s: DecoderView, found: Option<Seq<char>>) -> Step {
    match found {
        None => accept(s),
        Some(id) => if s.id is Some && s.id != Some(id) {
            refuse(s, ProviderErrorKind::Protocol)
        } else {
            accept(DecoderView { id: Some(id), ..s })
        },
    }
}

/// The model must not change.
pub open spec fn note_model(s: DecoderView, found: Option<Seq<char>>) -> Step {
    match found {
        None => accept(s),
        Some(model) => if s.model is Some && s.model != Some(model) {
            refuse(s, ProviderErrorKind::Protocol)
        } else {
            accept(DecoderView { model: Some(model), ..s })
        },
    }
}

/// Usage is reported at most once, with both counts.
pub open spec fn note_usage(s: DecoderView, found: Option<JsonView>) -> Step {
    match found {
        None => accept(s),
        Some(JsonView::Null) => accept(s),
        Some(usage) => {
            let input = json::unsigned_of(json::field(usage, "prompt_tokens"@));
            let output = json::unsigned_of(json::field(usage, "completion_tokens"@));
            if s.usage is Some || input is None || output is None {
                refuse(s, ProviderErrorKind::Protocol)
            } else {
                accept(
                    DecoderView {
                        usage: Some(
                            Usage {
                                input_tokens: input->0,
                                output_tokens: output->0,
                                reported: true,
                            },
                        ),
                        ..s
                    },
                )
            }
        },
    }
}

/// A call under assembly with the events it gave rise to.
pub struct CallStep {
    pub call: CallView,
    pub events: Seq<EventView>,
    pub failure: Option<ProviderErrorKind>,
}

/// The fields of a call's `function` object, one after the other.
pub open spec fn fill_function(
    call: CallView,
    events: Seq<EventView>,
    parts: Seq<(Seq<char>, JsonView)>,
) -> CallStep
    decreases parts.len(),
{
    if parts.len() == 0 {
        CallStep { call, events, failure: None }
    } else {
        match parts[0].1 {
            JsonView::Text(t) => if parts[0].0 == "name"@ {
                fill_function(CallView { name: call.name + t, ..call }, events, parts.skip(1))
            } else if parts[0].0 == "arguments"@ {
                fill_function(
                    CallView { arguments: call.arguments + t, ..call },
                    events.push(EventView::ArgumentsDelta(t)),
                    parts.skip(1),
                )
            } else {
                CallStep { call, events, failure: Some(ProviderErrorKind::Unsupported) }
            },
            _ => CallStep { call, events, failure: Some(ProviderErrorKind::Protocol) },
        }
    }
}

/// One fragment of a call: its id, once, and pieces of its function.
pub open spec fn fill_call(call: CallView, events: Seq<EventView>, item: JsonView) -> CallStep {
    let id = json::field(item, "id"@);
    if id is Some && id->0 !is Null && (id->0 !is Text || call.id.len() > 0) {
        CallStep { call, events, failure: Some(ProviderErrorKind::Protocol) }
    } else {
        let named = match id {
            Some(JsonView::Text(t)) => CallView { id: t, ..call },
            _ => call,
        };
        match json::field(item, "function"@) {
            None => CallStep { call: named, events, failure: None },
            Some(JsonView::Object(parts)) => fill_function(named, events, parts),
            Some(_) => CallStep {
                call: named,
                events,
                failure: Some(ProviderErrorKind::Protocol),
            },
        }
    }
}

/// The fields that a call fragment may have.
pub open spec fn is_call_field(key: Seq<char>) -> bool {
    key == "index"@ || key == "id"@ || key == "type"@ || key == "function"@
}

/// A call that nothing is known of yet.
pub open spec fn empty_call() -> CallView {
    CallView { id: Seq::empty(), name: Seq::empty(), arguments: Seq::empty() }
}

/// One item of `tool_calls`.
pub open spec fn call_step(s: DecoderView, item: JsonView) -> Step {
    match item {
        JsonView::Object(entries) => {
            let index = json::unsigned_of(json::field(item, "index"@));
            let kind = json::field(item, "type"@);
            if exists|i: int| 0 <= i < entries.len() && !is_call_field((#[trigger] entries[i]).0) {
                refuse(s, ProviderErrorKind::Unsupported)
            } else if index is None {
                refuse(s, ProviderErrorKind::Protocol)
            } else if index->0 >= s.settings.max_tool_calls {
                refuse(s, ProviderErrorKind::ResponseLimit)
            } else if kind is Some && kind != Some(JsonView::Text("function"@)) {
                refuse(s, ProviderErrorKind::Unsupported)
            } else {
                let known = if s.calls.contains_key(index->0) {
                    s.calls[index->0]
                } else {
                    empty_call()
                };
                let filled = fill_call(known, s.events, item);
                Step {
                    state: DecoderView {
                        calls: s.calls.insert(index->0, filled.call),
                        events: filled.events,
                        ..s
                    },
                    failure: filled.failure,
                }
            }
        },
        _ => refuse(s, ProviderErrorKind::Protocol),
    }
}

/// The items of `tool_calls`, up to the first that is refused.
pub open spec fn apply_calls(s: DecoderView, items: Seq<JsonView>) -> Step
    decreases items.len(),
{
    if items.len() == 0 {
        accept(s)
    } else {
        let first = call_step(s, items[0]);
        if first.failure is Some {
            first
        } else {
            apply_calls(first.state, items.skip(1))
        }
    }
}

/// A streamed text is appended to what came before.
pub open spec fn appended(known: Option<Seq<char>>, more: Seq<char>) -> Option<Seq<char>> {
    match known {
        Some(t) => Some(t + more),
        None => Some(more),
    }
}

/// One field of a delta.
pub open spec fn delta_step(s: DecoderView, key: Seq<char>, value: JsonView) -> Step {
    let t = json::text_of(Some(value));
    if value is Null {
        accept(s)
    } else if key == "role"@ && t == Some("assistant"@) {
        accept(s)
    } else if key == "content"@ {
        match t {
            Some(t) => accept(
                DecoderView {
                    text: s.text + t,
                    events: s.events.push(EventView::TextDelta(t)),
                    ..s
                },
            ),
            None => refuse(s, ProviderErrorKind::Unsupported),
        }
    } else if key == "reasoning_content"@ {
        match t {
            Some(t) => accept(
                DecoderView { reasoning_content: appended(s.reasoning_content, t), ..s },
            ),
            None => refuse(s, ProviderErrorKind::Unsupported),
        }
    } else if key == "reasoning"@ {
        match t {
            Some(t) => accept(DecoderView { reasoning: appended(s.reasoning, t), ..s }),
            None => refuse(s, ProviderErrorKind::Unsupported),
        }
    } else if key == "tool_calls"@ {
        match value {
            JsonView::List(items) => apply_calls(s, items),
            _ => refuse(s, ProviderErrorKind::Protocol),
        }
    } else {
        refuse(s, ProviderErrorKind::Unsupported)
    }
}

/// The fields of a delta, up to the first that is refused.
pub open spec fn apply_delta(s: DecoderView, entries: Seq<(Seq<char>, JsonView)>) -> Step
    decreases entries.len(),
{
    if entries.len() == 0 {
        accept(s)
    } else {
        let first = delta_step(s, entries[0].0, entries[0].1);
        if first.failure is Some {
            first
        } else {
            apply_delta(first.state, entries.skip(1))
        }
    }
}

/// Why the model stopped, by its name on the wire.
pub open spec fn finish_named(name: Option<Seq<char>>) -> Option<FinishReason> {
    if name == Some("stop"@) {
        Some(FinishReason::Stop)
    } else if name == Some("tool_calls"@) {
        Some(FinishReason::ToolCalls)
    } else if name == Some("length"@) {
        Some(FinishReason::Length)
    } else {
        None
    }
}

/// The finish reason of a choice.
pub open spec fn note_finish(s: DecoderView, found: Option<JsonView>) -> Step {
    match found {
        None => accept(s),
        Some(JsonView::Null) => accept(s),
        Some(reason) => match finish_named(json::text_of(Some(reason))) {
            Some(finish) => accept(DecoderView { finish: Some(finish), ..s }),
            None => refuse(s, ProviderErrorKind::Unsupported),
        },
    }
}

/// The one choice of a chunk.
pub open spec fn choice_step(s: DecoderView, choice: JsonView) -> Step {
    match json::field(choice, "delta"@) {
        Some(JsonView::Object(delta)) => {
            let applied = apply_delta(s, delta);
            if applied.failure is Some {
                applied
            } else {
                note_finish(applied.state, json::field(choice, "finish_reason"@))
            }
        },
        _ => refuse(s, ProviderErrorKind::Protocol),
    }
}

/// The choices of a chunk.
pub open spec fn choices_step(s: DecoderView, found: Option<JsonView>) -> Step {
    match found {
        Some(JsonView::List(choices)) => if choices.len() == 0 {
            if s.finish is None || s.usage is None {
                refuse(s, ProviderErrorKind::Protocol)
            } else {
                accept(s)
            }
        } else if choices.len() != 1 || json::unsigned_of(json::field(choices[0], "index"@))
            != Some(0u64) || s.finish is Some {
            refuse(s, ProviderErrorKind::Unsupported)
        } else {
            choice_step(s, choices[0])
        },
        _ => refuse(s, ProviderErrorKind::Protocol),
    }
}

/// One chunk of a streamed completion.
pub open spec fn chunk_step(s: DecoderView, chunk: JsonView) -> Step {
    if json::field(chunk, "error"@) is Some {
        refuse(s, ProviderErrorKind::Protocol)
    } else {
        let named = note_id(s, json::text_of(json::field(chunk, "id"@)));
        if named.failure is Some {
            named
        } else {
            let modelled = note_model(named.state, json::text_of(json::field(chunk, "model"@)));
            if modelled.failure is Some {
                modelled
            } else {
                let used = note_usage(modelled.state, json::field(chunk, "usage"@));
                if used.failure is Some {
                    used
                } else {
                    choices_step(used.state, json::field(chunk, "choices"@))
                }
            }
        }
    }
}

/// One event: `[DONE]` or a chunk.
pub open spec fn event_step(s: DecoderView, data: Seq<char>) -> Step {
    if s.done {
        refuse(s, ProviderErrorKind::Protocol)
    } else if data == "[DONE]"@ {
        finish_stream(s)
    } else {
        match json::json_document(data) {
            None => refuse(s, ProviderErrorKind::Protocol),
            Some(chunk) => chunk_step(s, chunk),
        }
    }
}

/// The bytes of an ASCII text.
pub open spec fn ascii_bytes(s: Seq<char>) -> Seq<u8> {
    s.map_values(|c: char| (c as int) as u8)
}

/// A field's value without the one space that may stand before it.
pub open spec fn field_value(rest: Seq<u8>) -> Seq<u8> {
    if rest.len() > 0 && rest[0] == 32 {
        rest.skip(1)
    } else {
        rest
    }
}

/// One whole line. An empty line ends the event.
pub open spec fn line_step(s: DecoderView, line: Seq<u8>) -> Step {
    if line.len() == 0 {
        if s.data.len() == 0 {
            accept(s)
        } else {
            let taken = DecoderView { data: Seq::empty(), ..s };
            if !valid_utf8(s.data) {
                refuse(taken, ProviderErrorKind::Protocol)
            } else {
                event_step(taken, text::trim(decode_utf8(s.data)))
            }
        }
    } else if ascii_bytes("data:"@).is_prefix_of(line) {
        let value = field_value(line.skip(5));
        accept(
            DecoderView {
                data: if s.data.len() == 0 {
                    value
                } else {
                    s.data.push(10u8) + value
                },
                ..s
            },
        )
    } else if ascii_bytes(":"@).is_prefix_of(line) || ascii_bytes("id:"@).is_prefix_of(line)
        || ascii_bytes("retry:"@).is_prefix_of(line) || line == ascii_bytes("event: message"@) {
        accept(s)
    } else {
        refuse(s, ProviderErrorKind::Unsupported)
    }
}

/// A line without the carriage return that ends it.
pub open spec fn without_cr(line: Seq<u8>) -> Seq<u8> {
    if line.len() > 0 && line.last() == 13 {
        line.drop_last()
    } else {
        line
    }
}

/// One byte of the stream.
pub open spec fn byte_step(s: DecoderView, byte: u8) -> Step {
    let framed = if byte == 10 {
        line_step(DecoderView { line: Seq::empty(), ..s }, without_cr(s.line))
    } else {
        accept(DecoderView { line: s.line.push(byte), ..s })
    };
    if framed.failure is Some {
        framed
    } else if saturated((framed.state.line.len() + framed.state.data.len()) as int)
        > framed.state.settings.event_bytes {
        refuse(framed.state, ProviderErrorKind::ResponseLimit)
    } else {
        framed
    }
}

/// The bytes of the stream, up to the first that is refused.
pub open spec fn bytes_step(s: DecoderView, bytes: Seq<u8>) -> Step
    decreases bytes.len(),
{
    if bytes.len() == 0 {
        accept(s)
    } else {
        let first = byte_step(s, bytes[0]);
        if first.failure is Some {
            first
        } else {
            bytes_step(first.state, bytes.skip(1))
        }
    }
}

/// One piece of the response as it came off the wire.
pub open spec fn push_step(s: DecoderView, bytes: Seq<u8>) -> Step {
    let counted = DecoderView { bytes: saturated(s.bytes + bytes.len()), ..s };
    if counted.bytes > s.settings.wire_bytes {
        refuse(counted, ProviderErrorKind::ResponseLimit)
    } else {
        bytes_step(counted, bytes)
    }
}

// --------------------------------------------------------------- execution

/// `String::from_utf8` turns bytes into the string that they encode, and fails
/// on exactly the bytes that are not UTF-8.
#[verifier::external_body]
fn string_from_utf8(bytes: Vec<u8>) -> (out: Option<String>)
    ensures
        match out {
            Some(s) => valid_utf8(bytes@) && s@ == decode_utf8(bytes@),
            None => !valid_utf8(bytes@),
        },
{
    String::from_utf8(bytes).ok()
}

fn emit(events: &mut VecDeque<ProviderEvent>, event: ProviderEvent)
    ensures
        event_views(final(events)@) == event_views(old(events)@).push(event@),
{
    events.push_back(event);
    assert(event_views(events@) =~= event_views(old(events)@).push(event@));
}

fn result_of(failure: Option<ProviderErrorKind>) -> (out: Result<(), ProviderError>)
    ensures
        out == outcome(failure),
{
    match failure {
        None => Ok(()),
        Some(kind) => Err(error(kind)),
    }
}

fn append_text(known: &mut Option<String>, more: &str)
    ensures
        text::opt_view(*final(known)) == appended(text::opt_view(*old(known)), more@),
{
    match known.take() {
        Some(t) => {
            let mut longer: String = t;
            longer.append(more);
            *known = Some(longer);
        },
        None => {
            *known = Some(more.to_owned());
        },
    }
}

fn call_field(key: &str) -> (out: bool)
    ensures
        out == is_call_field(key@),
{
    text::same(key, "index") || text::same(key, "id") || text::same(key, "type") || text::same(
        key,
        "function",
    )
}

/// Whether a line begins with an ASCII text.
fn begins(line: &Vec<u8>, start: &str) -> (out: bool)
    requires
        forall|i: int| 0 <= i < start@.len() ==> (#[trigger] start@[i] as int) < 128,
    ensures
        out == ascii_bytes(start@).is_prefix_of(line@),
{
    let chars: Vec<char> = text::chars_of(start);
    if chars.len() > line.len() {
        return false;
    }
    let mut i: usize = 0;
    while i < chars.len()
        invariant
            i <= chars@.len() <= line@.len(),
            chars@ == start@,
            forall|k: int| 0 <= k < start@.len() ==> (#[trigger] start@[k] as int) < 128,
            forall|k: int| 0 <= k < i ==> line@[k] == ascii_bytes(start@)[k],
        decreases chars@.len() - i,
    {
        let c: char = chars[i];
        proof {
            text::lemma_char_code(c);
            assert((start@[i as int] as int) < 128);
        }
        if line[i] as u32 != c as u32 {
            assert(line@[i as int] != ascii_bytes(start@)[i as int]);
            assert(line@.subrange(0, start@.len() as int)[i as int] == line@[i as int]);
            return false;
        }
        i = i + 1;
    }
    assert(ascii_bytes(start@) =~= line@.subrange(0, start@.len() as int));
    true
}

fn clone_tail(bytes: &Vec<u8>, from: usize) -> (out: Vec<u8>)
    requires
        from <= bytes@.len(),
    ensures
        out@ == bytes@.skip(from as int),
{
    let mut out: Vec<u8> = Vec::new();
    let mut i: usize = from;
    while i < bytes.len()
        invariant
            from <= i <= bytes@.len(),
            out@ == bytes@.subrange(from as int, i as int),
        decreases bytes@.len() - i,
    {
        out.push(bytes[i]);
        i = i + 1;
        assert(bytes@.subrange(from as int, i as int) =~= bytes@.subrange(from as int, i - 1).push(
            bytes@[i - 1],
        ));
    }
    assert(bytes@.subrange(from as int, i as int) =~= bytes@.skip(from as int));
    out
}

impl Call {
    fn fill_function(
        &mut self,
        events: &mut VecDeque<ProviderEvent>,
        parts: &Vec<(String, Json)>,
    ) -> (out: Option<ProviderErrorKind>)
        ensures
            (CallStep { call: final(self)@, events: event_views(final(events)@), failure: out })
                == fill_function(
                old(self)@,
                event_views(old(events)@),
                json::entries_view(parts@),
            ),
    {
        let ghost all = json::entries_view(parts@);
        let ghost goal = fill_function(self@, event_views(events@), all);
        let mut i: usize = 0;
        assert(all.skip(0) =~= all);
        while i < parts.len()
            invariant
                i <= parts@.len(),
                all == json::entries_view(parts@),
                goal == fill_function(old(self)@, event_views(old(events)@), all),
                goal == fill_function(self@, event_views(events@), all.skip(i as int)),
            decreases parts@.len() - i,
        {
            assert(all.skip(i as int)[0] == all[i as int]);
            assert(all.skip(i as int).skip(1) =~= all.skip(i + 1));
            match &parts[i].1 {
                Json::Text(t) => {
                    if text::same(parts[i].0.as_str(), "name") {
                        self.name.append(t.as_str());
                    } else if text::same(parts[i].0.as_str(), "arguments") {
                        self.arguments.append(t.as_str());
                        emit(events, ProviderEvent::ArgumentsDelta(t.clone()));
                    } else {
                        return Some(ProviderErrorKind::Unsupported);
                    }
                },
                _ => {
                    return Some(ProviderErrorKind::Protocol);
                },
            }
            i = i + 1;
        }
        None
    }

    fn fill(&mut self, events: &mut VecDeque<ProviderEvent>, item: &Json) -> (out: Option<
        ProviderErrorKind,
    >)
        ensures
            (CallStep { call: final(self)@, events: event_views(final(events)@), failure: out })
                == fill_call(old(self)@, event_views(old(events)@), item@),
    {
        match item.get("id") {
            None => {},
            Some(Json::Null) => {},
            Some(Json::Text(id)) => {
                if !self.id.as_str().is_empty() {
                    return Some(ProviderErrorKind::Protocol);
                }
                self.id = id.clone();
            },
            Some(_) => {
                return Some(ProviderErrorKind::Protocol);
            },
        }
        match item.get("function") {
            None => None,
            Some(Json::Object(parts)) => self.fill_function(events, parts),
            Some(_) => Some(ProviderErrorKind::Protocol),
        }
    }
}

impl Decoder {
    /// A decoder that has received nothing.
    pub fn new(settings: ProviderSettings) -> (out: Decoder)
        ensures
            out@ == fresh(settings),
    {
        let out = Decoder {
            settings,
            bytes: 0,
            line: Vec::new(),
            data: Vec::new(),
            events: VecDeque::new(),
            text: String::new(),
            reasoning: None,
            reasoning_content: None,
            calls: BTreeMap::new(),
            finish: None,
            usage: None,
            id: None,
            model: None,
            done: false,
        };
        assert(event_views(out.events@) =~= Seq::<EventView>::empty());
        assert(call_views(out.calls@) =~= Map::<u64, CallView>::empty());
        out
    }

    /// Takes the oldest event that has not been taken yet.
    pub fn next(&mut self) -> (out: Option<ProviderEvent>)
        ensures
            old(self)@.events.len() == 0 ==> out is None && final(self)@ == old(self)@,
            old(self)@.events.len() > 0 ==> out is Some && out->0@ == old(self)@.events[0]
                && final(self)@ == (DecoderView {
                events: old(self)@.events.skip(1),
                ..old(self)@
            }),
    {
        let out: Option<ProviderEvent> = self.events.pop_front();
        if out.is_some() {
            assert(event_views(self.events@) =~= event_views(old(self).events@).skip(1));
        }
        out
    }

    /// The calls under assembly, numbered from zero, each complete and with an
    /// id of its own.
    fn completed_calls(&self) -> (out: Option<Vec<ToolCall>>)
        ensures
            match out {
                Some(calls) => calls_complete(self@.calls) && calls@.map_values(|c: ToolCall| c@)
                    == released_calls(self@.calls),
                None => !calls_complete(self@.calls),
            },
    {
        let n: usize = self.calls.len();
        let ghost views = self@.calls;
        assert(views.dom() =~= self.calls@.dom());
        let mut out: Vec<ToolCall> = Vec::new();
        let mut i: usize = 0;
        while i < n
            invariant
                i <= n,
                n == views.dom().len(),
                views == call_views(self.calls@),
                views == self@.calls,
                out@.len() == i,
                forall|k: u64|
                    #![trigger views.contains_key(k)]
                    #![trigger views[k]]
                    k < i ==> views.contains_key(k) && views[k].id.len() > 0
                        && views[k].name.len() > 0,
                forall|k: u64, j: u64|
                    k < j < i ==> (#[trigger] views[k]).id != (#[trigger] views[j]).id,
                forall|k: int| 0 <= k < i ==> (#[trigger] out@[k])@ == views[k as u64],
            decreases n - i,
        {
            match self.calls.get(&(i as u64)) {
                None => {
                    assert(!views.contains_key(i as u64));
                    return None;
                },
                Some(call) => {
                    assert(views.contains_key(i as u64));
                    assert(views[i as u64] == call@);
                    if call.id.as_str().is_empty() || call.name.as_str().is_empty() {
                        return None;
                    }
                    let mut j: usize = 0;
                    while j < i
                        invariant
                            j <= i < n,
                            n == views.dom().len(),
                            out@.len() == i,
                            call@ == views[i as u64],
                            views == self@.calls,
                            forall|k: int| 0 <= k < i ==> (#[trigger] out@[k])@ == views[k as u64],
                            forall|k: u64| k < j ==> (#[trigger] views[k]).id != views[i as u64].id,
                        decreases i - j,
                    {
                        assert(out@[j as int]@ == views[j as u64]);
                        if out[j].provider_call_id == call.id {
                            assert(views[j as u64].id == views[i as u64].id);
                            return None;
                        }
                        j = j + 1;
                    }
                    out.push(
                        ToolCall {
                            provider_call_id: call.id.clone(),
                            name: call.name.clone(),
                            arguments: call.arguments.clone(),
                        },
                    );
                    assert(out@[i as int]@ == views[i as u64]);
                    assert(views[i as u64].id.len() > 0 && views[i as u64].name.len() > 0);
                },
            }
            assert forall|k: u64|
                #![trigger views.contains_key(k)]
                #![trigger views[k]]
                k < i + 1 implies views.contains_key(k) && views[k].id.len() > 0
                && views[k].name.len() > 0 by {
                assert(k < i || k == i as u64);
            }
            i = i + 1;
        }
        assert(out@.map_values(|c: ToolCall| c@) =~= released_calls(views));
        Some(out)
    }

    fn continuation(&self) -> (out: Option<Json>)
        ensures
            match out {
                Some(value) => continuation(self@.reasoning, self@.reasoning_content) == Some(
                    value@,
                ),
                None => continuation(self@.reasoning, self@.reasoning_content) is None,
            },
    {
        let mut entries: Vec<(String, Json)> = Vec::new();
        if let Some(t) = &self.reasoning {
            entries.push(("reasoning".to_owned(), Json::Text(t.clone())));
        }
        let ghost first = json::entries_view(entries@);
        assert(first =~= match self@.reasoning {
            Some(t) => seq![("reasoning"@, JsonView::Text(t))],
            None => Seq::<(Seq<char>, JsonView)>::empty(),
        });
        if let Some(t) = &self.reasoning_content {
            entries.push(("reasoning_content".to_owned(), Json::Text(t.clone())));
        }
        assert(json::entries_view(entries@) =~= first + match self@.reasoning_content {
            Some(t) => seq![("reasoning_content"@, JsonView::Text(t))],
            None => Seq::<(Seq<char>, JsonView)>::empty(),
        });
        if self.reasoning.is_none() && self.reasoning_content.is_none() {
            None
        } else {
            Some(Json::Object(entries))
        }
    }

    /// `[DONE]`: completes the response and releases its calls.
    fn finish_stream(&mut self) -> (out: Option<ProviderErrorKind>)
        ensures
            (Step { state: final(self)@, failure: out }) == finish_stream(old(self)@),
    {
        let finish: FinishReason = match self.finish {
            None => {
                return Some(ProviderErrorKind::TruncatedStream);
            },
            Some(finish) => finish,
        };
        let calls: Vec<ToolCall> = match self.completed_calls() {
            None => {
                return Some(ProviderErrorKind::Protocol);
            },
            Some(calls) => calls,
        };
        proof {
            assert(released_calls(self@.calls).len() == calls@.map_values(|c: ToolCall| c@).len());
        }
        if finish != FinishReason::Length && (finish == FinishReason::ToolCalls)
            == calls.is_empty() {
            return Some(ProviderErrorKind::Protocol);
        }
        let continuation: Option<Json> = self.continuation();
        let mut text: String = String::new();
        std::mem::swap(&mut text, &mut self.text);
        let event = ProviderEvent::Completed {
            response: ModelResponse { finish, text, calls, continuation },
            usage: self.usage,
        };
        emit(&mut self.events, event);
        self.done = true;
        None
    }

    fn apply_call(&mut self, item: &Json) -> (out: Option<ProviderErrorKind>)
        ensures
            (Step { state: final(self)@, failure: out }) == call_step(old(self)@, item@),
    {
        let entries: &Vec<(String, Json)> = match item {
            Json::Object(entries) => entries,
            _ => {
                return Some(ProviderErrorKind::Protocol);
            },
        };
        let ghost keys = json::entries_view(entries@);
        let mut i: usize = 0;
        while i < entries.len()
            invariant
                i <= entries@.len(),
                keys == json::entries_view(entries@),
                item@ == JsonView::Object(keys),
                *self == *old(self),
                forall|k: int| 0 <= k < i ==> is_call_field((#[trigger] keys[k]).0),
            decreases entries@.len() - i,
        {
            assert(keys[i as int].0 == entries@[i as int].0@);
            if !call_field(entries[i].0.as_str()) {
                return Some(ProviderErrorKind::Unsupported);
            }
            i = i + 1;
        }
        let index: u64 = match json::unsigned_field(item, "index") {
            Some(index) => index,
            None => {
                return Some(ProviderErrorKind::Protocol);
            },
        };
        if index >= self.settings.max_tool_calls as u64 {
            return Some(ProviderErrorKind::ResponseLimit);
        }
        match item.get("type") {
            None => {},
            Some(Json::Text(kind)) => {
                if !text::same(kind.as_str(), "function") {
                    return Some(ProviderErrorKind::Unsupported);
                }
            },
            Some(_) => {
                return Some(ProviderErrorKind::Unsupported);
            },
        }
        let ghost before = self@.calls;
        let mut call: Call = match self.calls.remove(&index) {
            Some(call) => {
                assert(before[index] == call@);
                call
            },
            None => Call { id: String::new(), name: String::new(), arguments: String::new() },
        };
        assert(!before.contains_key(index) ==> call@ == empty_call());
        let failure: Option<ProviderErrorKind> = call.fill(&mut self.events, item);
        self.calls.insert(index, call);
        assert(call_views(self.calls@) =~= before.insert(index, call@));
        failure
    }

    fn apply_calls(&mut self, items: &Vec<Json>) -> (out: Option<ProviderErrorKind>)
        ensures
            (Step { state: final(self)@, failure: out }) == apply_calls(
                old(self)@,
                json::list_view(items@),
            ),
    {
        let ghost all = json::list_view(items@);
        let ghost goal = apply_calls(self@, all);
        let mut i: usize = 0;
        assert(all.skip(0) =~= all);
        while i < items.len()
            invariant
                i <= items@.len(),
                all == json::list_view(items@),
                goal == apply_calls(old(self)@, all),
                goal == apply_calls(self@, all.skip(i as int)),
            decreases items@.len() - i,
        {
            assert(all.skip(i as int)[0] == all[i as int]);
            assert(all.skip(i as int).skip(1) =~= all.skip(i + 1));
            let failure: Option<ProviderErrorKind> = self.apply_call(&items[i]);
            if failure.is_some() {
                return failure;
            }
            i = i + 1;
        }
        None
    }

    fn apply_field(&mut self, key: &str, value: &Json) -> (out: Option<ProviderErrorKind>)
        ensures
            (Step { state: final(self)@, failure: out }) == delta_step(
                old(self)@,
                key@,
                value@,
            ),
    {
        if let Json::Null = value {
            return None;
        }
        if text::same(key, "role") {
            if let Json::Text(t) = value {
                if text::same(t.as_str(), "assistant") {
                    return None;
                }
            }
        }
        if text::same(key, "content") {
            match value.as_text() {
                Some(t) => {
                    self.text.append(t.as_str());
                    emit(&mut self.events, ProviderEvent::TextDelta(t.clone()));
                    None
                },
                None => Some(ProviderErrorKind::Unsupported),
            }
        } else if text::same(key, "reasoning_content") {
            match value.as_text() {
                Some(t) => {
                    append_text(&mut self.reasoning_content, t.as_str());
                    None
                },
                None => Some(ProviderErrorKind::Unsupported),
            }
        } else if text::same(key, "reasoning") {
            match value.as_text() {
                Some(t) => {
                    append_text(&mut self.reasoning, t.as_str());
                    None
                },
                None => Some(ProviderErrorKind::Unsupported),
            }
        } else if text::same(key, "tool_calls") {
            match value {
                Json::List(items) => self.apply_calls(items),
                _ => Some(ProviderErrorKind::Protocol),
            }
        } else {
            Some(ProviderErrorKind::Unsupported)
        }
    }

    fn apply_delta(&mut self, entries: &Vec<(String, Json)>) -> (out: Option<ProviderErrorKind>)
        ensures
            (Step { state: final(self)@, failure: out }) == apply_delta(
                old(self)@,
                json::entries_view(entries@),
            ),
    {
        let ghost all = json::entries_view(entries@);
        let ghost goal = apply_delta(self@, all);
        let mut i: usize = 0;
        assert(all.skip(0) =~= all);
        while i < entries.len()
            invariant
                i <= entries@.len(),
                all == json::entries_view(entries@),
                goal == apply_delta(old(self)@, all),
                goal == apply_delta(self@, all.skip(i as int)),
            decreases entries@.len() - i,
        {
            assert(all.skip(i as int)[0] == all[i as int]);
            assert(all.skip(i as int).skip(1) =~= all.skip(i + 1));
            let failure: Option<ProviderErrorKind> = self.apply_field(
                entries[i].0.as_str(),
                &entries[i].1,
            );
            if failure.is_some() {
                return failure;
            }
            i = i + 1;
        }
        None
    }

    fn apply_choice(&mut self, choice: &Json) -> (out: Option<ProviderErrorKind>)
        ensures
            (Step { state: final(self)@, failure: out }) == choice_step(old(self)@, choice@),
    {
        match choice.get("delta") {
            Some(Json::Object(delta)) => {
                let failure: Option<ProviderErrorKind> = self.apply_delta(delta);
                if failure.is_some() {
                    return failure;
                }
            },
            _ => {
                return Some(ProviderErrorKind::Protocol);
            },
        }
        match choice.get("finish_reason") {
            None => None,
            Some(Json::Null) => None,
            Some(Json::Text(reason)) => {
                if text::same(reason.as_str(), "stop") {
                    self.finish = Some(FinishReason::Stop);
                    None
                } else if text::same(reason.as_str(), "tool_calls") {
                    self.finish = Some(FinishReason::ToolCalls);
                    None
                } else if text::same(reason.as_str(), "length") {
                    self.finish = Some(FinishReason::Length);
                    None
                } else {
                    Some(ProviderErrorKind::Unsupported)
                }
            },
            Some(_) => Some(ProviderErrorKind::Unsupported),
        }
    }

    fn note_usage(&mut self, chunk: &Json) -> (out: Option<ProviderErrorKind>)
        ensures
            (Step { state: final(self)@, failure: out }) == note_usage(
                old(self)@,
                json::field(chunk@, "usage"@),
            ),
    {
        match chunk.get("usage") {
            None => None,
            Some(Json::Null) => None,
            Some(usage) => {
                if self.usage.is_some() {
                    return Some(ProviderErrorKind::Protocol);
                }
                match (
                    json::unsigned_field(usage, "prompt_tokens"),
                    json::unsigned_field(usage, "completion_tokens"),
                ) {
                    (Some(input_tokens), Some(output_tokens)) => {
                        self.usage = Some(Usage { input_tokens, output_tokens, reported: true });
                        None
                    },
                    _ => Some(ProviderErrorKind::Protocol),
                }
            },
        }
    }

    fn note_names(&mut self, chunk: &Json) -> (out: Option<ProviderErrorKind>)
        ensures
            ({
                let named = note_id(old(self)@, json::text_of(json::field(chunk@, "id"@)));
                (Step { state: final(self)@, failure: out }) == if named.failure is Some {
                    named
                } else {
                    note_model(named.state, json::text_of(json::field(chunk@, "model"@)))
                }
            }),
    {
        if let Some(id) = json::text_field(chunk, "id") {
            if let Some(known) = &self.id {
                if *known != *id {
                    return Some(ProviderErrorKind::Protocol);
                }
            }
            self.id = Some(id.clone());
        }
        if let Some(model) = json::text_field(chunk, "model") {
            if let Some(known) = &self.model {
                if *known != *model {
                    return Some(ProviderErrorKind::Protocol);
                }
            }
            self.model = Some(model.clone());
        }
        None
    }

    fn chunk(&mut self, chunk: &Json) -> (out: Option<ProviderErrorKind>)
        ensures
            (Step { state: final(self)@, failure: out }) == chunk_step(old(self)@, chunk@),
    {
        if chunk.get("error").is_some() {
            return Some(ProviderErrorKind::Protocol);
        }
        let failure: Option<ProviderErrorKind> = self.note_names(chunk);
        if failure.is_some() {
            return failure;
        }
        let failure: Option<ProviderErrorKind> = self.note_usage(chunk);
        if failure.is_some() {
            return failure;
        }
        match chunk.get("choices") {
            Some(Json::List(choices)) => {
                if choices.len() == 0 {
                    if self.finish.is_none() || self.usage.is_none() {
                        return Some(ProviderErrorKind::Protocol);
                    }
                    return None;
                }
                if choices.len() != 1 || self.finish.is_some() {
                    return Some(ProviderErrorKind::Unsupported);
                }
                match json::unsigned_field(&choices[0], "index") {
                    Some(0) => self.apply_choice(&choices[0]),
                    _ => Some(ProviderErrorKind::Unsupported),
                }
            },
            _ => Some(ProviderErrorKind::Protocol),
        }
    }

    /// Takes in one parsed chunk of a streamed completion.
    pub fn apply_chunk(&mut self, chunk: &Json) -> (out: Result<(), ProviderError>)
        ensures
            final(self)@ == chunk_step(old(self)@, chunk@).state,
            out == outcome(chunk_step(old(self)@, chunk@).failure),
    {
        result_of(self.chunk(chunk))
    }

    fn take_event(&mut self, data: &str) -> (out: Option<ProviderErrorKind>)
        ensures
            (Step { state: final(self)@, failure: out }) == event_step(old(self)@, data@),
    {
        if self.done {
            return Some(ProviderErrorKind::Protocol);
        }
        if text::same(data, "[DONE]") {
            return self.finish_stream();
        }
        match json::parse_json(data) {
            None => Some(ProviderErrorKind::Protocol),
            Some(chunk) => self.chunk(&chunk),
        }
    }

    /// Takes in one event: `[DONE]` or the text of a chunk.
    pub fn event(&mut self, data: &str) -> (out: Result<(), ProviderError>)
        ensures
            final(self)@ == event_step(old(self)@, data@).state,
            out == outcome(event_step(old(self)@, data@).failure),
    {
        result_of(self.take_event(data))
    }

    fn take_line(&mut self, line: Vec<u8>) -> (out: Option<ProviderErrorKind>)
        ensures
            (Step { state: final(self)@, failure: out }) == line_step(old(self)@, line@),
    {
        proof {
            reveal_strlit("data:");
            reveal_strlit(":");
            reveal_strlit("id:");
            reveal_strlit("retry:");
            reveal_strlit("event: message");
        }
        if line.is_empty() {
            if self.data.is_empty() {
                return None;
            }
            let mut data: Vec<u8> = Vec::new();
            std::mem::swap(&mut data, &mut self.data);
            return match string_from_utf8(data) {
                None => Some(ProviderErrorKind::Protocol),
                Some(decoded) => self.take_event(text::trim_string(decoded.as_str()).as_str()),
            };
        }
        if begins(&line, "data:") {
            let from: usize = if line.len() > 5 && line[5] == 32 {
                6
            } else {
                5
            };
            let mut value: Vec<u8> = clone_tail(&line, from);
            assert(value@ =~= field_value(line@.skip(5)));
            if !self.data.is_empty() {
                self.data.push(10u8);
            }
            self.data.append(&mut value);
            assert(self.data@ =~= line_step(old(self)@, line@).state.data);
            return None;
        }
        if begins(&line, ":") || begins(&line, "id:") || begins(&line, "retry:") {
            return None;
        }
        if line.len() == 14 && begins(&line, "event: message") {
            assert(line@ =~= line@.subrange(0, 14));
            return None;
        }
        assert(line@.len() == 14 ==> line@ =~= line@.subrange(0, 14));
        Some(ProviderErrorKind::Unsupported)
    }

    fn take_byte(&mut self, byte: u8) -> (out: Option<ProviderErrorKind>)
        ensures
            (Step { state: final(self)@, failure: out }) == byte_step(old(self)@, byte),
    {
        if byte == 10 {
            let mut line: Vec<u8> = Vec::new();
            std::mem::swap(&mut line, &mut self.line);
            if line.len() > 0 && line[line.len() - 1] == 13 {
                line.pop();
            }
            assert(line@ =~= without_cr(old(self).line@));
            let failure: Option<ProviderErrorKind> = self.take_line(line);
            if failure.is_some() {
                return failure;
            }
        } else {
            self.line.push(byte);
        }
        if self.line.len().saturating_add(self.data.len()) > self.settings.event_bytes {
            return Some(ProviderErrorKind::ResponseLimit);
        }
        None
    }

    /// Takes in one piece of the response as it came off the wire.
    pub fn push(&mut self, bytes: &[u8]) -> (out: Result<(), ProviderError>)
        ensures
            final(self)@ == push_step(old(self)@, bytes@).state,
            out == outcome(push_step(old(self)@, bytes@).failure),
    {
        self.bytes = self.bytes.saturating_add(bytes.len());
        if self.bytes > self.settings.wire_bytes {
            return Err(error(ProviderErrorKind::ResponseLimit));
        }
        let ghost goal = bytes_step(self@, bytes@);
        let mut i: usize = 0;
        assert(bytes@.skip(0) =~= bytes@);
        while i < bytes.len()
            invariant
                i <= bytes@.len(),
                goal == push_step(old(self)@, bytes@),
                goal == bytes_step(self@, bytes@.skip(i as int)),
            decreases bytes@.len() - i,
        {
            assert(bytes@.skip(i as int)[0] == bytes@[i as int]);
            assert(bytes@.skip(i as int).skip(1) =~= bytes@.skip(i + 1));
            let failure: Option<ProviderErrorKind> = self.take_byte(bytes[i]);
            if failure.is_some() {
                return result_of(failure);
            }
            i = i + 1;
        }
        Ok(())
    }
}

// -------------------------------------------------------------------- laws

/// The text that a run of events streamed.
pub open spec fn streamed_text(events: Seq<EventView>) -> Seq<char>
    decreases events.len(),
{
    if events.len() == 0 {
        Seq::empty()
    } else {
        match events.last() {
            EventView::TextDelta(t) => streamed_text(events.drop_last()) + t,
            _ => streamed_text(events.drop_last()),
        }
    }
}

/// The events that stand in `t` behind those of `s`.
pub open spec fn new_events(s: DecoderView, t: DecoderView) -> Seq<EventView> {
    t.events.skip(s.events.len() as int)
}

/// Nothing that was learned is lost, and nothing is released: `t` has the
/// events of `s`, then text and argument deltas only; its text is that of `s`
/// and what the new deltas streamed; what was once known of the id, the model,
/// the usage and the finish reason stays; calls only grow, and their numbers
/// stay below the limit.
pub open spec fn grows(s: DecoderView, t: DecoderView) -> bool {
    &&& t.settings == s.settings && t.bytes == s.bytes && t.line == s.line && t.data == s.data
    &&& t.done == s.done
    &&& s.events.len() <= t.events.len()
    &&& forall|i: int| 0 <= i < s.events.len() ==> #[trigger] t.events[i] == s.events[i]
    &&& forall|i: int|
        s.events.len() <= i < t.events.len() ==> !((#[trigger] t.events[i]) is Completed)
    &&& t.text == s.text + streamed_text(new_events(s, t))
    &&& s.id is Some ==> t.id == s.id
    &&& s.model is Some ==> t.model == s.model
    &&& s.usage is Some ==> t.usage == s.usage
    &&& s.finish is Some ==> t.finish == s.finish
    &&& forall|k: u64| #[trigger]
        s.calls.contains_key(k) ==> t.calls.contains_key(k) && (s.calls[k].id.len() > 0
            ==> t.calls[k].id == s.calls[k].id)
    &&& forall|k: u64| #[trigger]
        t.calls.contains_key(k) ==> s.calls.contains_key(k) || k < s.settings.max_tool_calls
}

proof fn lemma_streamed_concat(a: Seq<EventView>, b: Seq<EventView>)
    ensures
        streamed_text(a + b) == streamed_text(a) + streamed_text(b),
    decreases b.len(),
{
    if b.len() == 0 {
        assert(a + b =~= a);
        assert(streamed_text(a) + streamed_text(b) =~= streamed_text(a));
    } else {
        lemma_streamed_concat(a, b.drop_last());
        assert((a + b).drop_last() =~= a + b.drop_last());
        assert((a + b).last() == b.last());
        match b.last() {
            EventView::TextDelta(t) => {
                assert(streamed_text(a + b) =~= streamed_text(a) + streamed_text(b));
            },
            _ => {},
        }
    }
}

proof fn lemma_grows_reflexive(s: DecoderView)
    ensures
        grows(s, s),
{
    assert(new_events(s, s) =~= Seq::<EventView>::empty());
    assert(s.text + streamed_text(new_events(s, s)) =~= s.text);
}

proof fn lemma_grows_transitive(s: DecoderView, t: DecoderView, u: DecoderView)
    requires
        grows(s, t),
        grows(t, u),
    ensures
        grows(s, u),
{
    assert forall|i: int| 0 <= i < s.events.len() implies #[trigger] u.events[i] == s.events[i] by {
        assert(t.events[i] == s.events[i]);
    }
    assert forall|i: int| s.events.len() <= i < u.events.len() implies !((
    #[trigger] u.events[i]) is Completed) by {
        if i < t.events.len() {
            assert(u.events[i] == t.events[i]);
        }
    }
    assert(new_events(s, u) =~= new_events(s, t) + new_events(t, u)) by {
        assert forall|i: int| 0 <= i < new_events(s, t).len() implies new_events(s, u)[i]
            == new_events(s, t)[i] by {
            assert(u.events[i + s.events.len()] == t.events[i + s.events.len()]);
        }
    }
    lemma_streamed_concat(new_events(s, t), new_events(t, u));
    assert(u.text =~= s.text + streamed_text(new_events(s, u)));
    assert forall|k: u64| #[trigger] s.calls.contains_key(k) implies u.calls.contains_key(k) && (
    s.calls[k].id.len() > 0 ==> u.calls[k].id == s.calls[k].id) by {
        assert(t.calls.contains_key(k));
    }
    assert forall|k: u64| #[trigger] u.calls.contains_key(k) implies s.calls.contains_key(k) || k
        < s.settings.max_tool_calls by {
        if t.calls.contains_key(k) {
        }
    }
}

proof fn lemma_fill_function_grows(
    call: CallView,
    events: Seq<EventView>,
    parts: Seq<(Seq<char>, JsonView)>,
)
    ensures
        ({
            let out = fill_function(call, events, parts);
            &&& out.call.id == call.id
            &&& events.len() <= out.events.len()
            &&& forall|i: int| 0 <= i < events.len() ==> #[trigger] out.events[i] == events[i]
            &&& forall|i: int|
                events.len() <= i < out.events.len() ==> (#[trigger] out.events[i]) is ArgumentsDelta
        }),
    decreases parts.len(),
{
    if parts.len() > 0 {
        match parts[0].1 {
            JsonView::Text(t) => {
                if parts[0].0 == "name"@ {
                    lemma_fill_function_grows(
                        CallView { name: call.name + t, ..call },
                        events,
                        parts.skip(1),
                    );
                } else if parts[0].0 == "arguments"@ {
                    let more = events.push(EventView::ArgumentsDelta(t));
                    let next = CallView { arguments: call.arguments + t, ..call };
                    lemma_fill_function_grows(next, more, parts.skip(1));
                    let out = fill_function(next, more, parts.skip(1));
                    assert forall|i: int| 0 <= i < events.len() implies #[trigger] out.events[i]
                        == events[i] by {
                        assert(more[i] == events[i]);
                    }
                    assert forall|i: int| events.len() <= i < out.events.len() implies (
                    #[trigger] out.events[i]) is ArgumentsDelta by {
                        if i < more.len() {
                            assert(out.events[i] == more[i]);
                        }
                    }
                }
            },
            _ => {},
        }
    }
}

proof fn lemma_streamed_none(events: Seq<EventView>)
    requires
        forall|i: int| 0 <= i < events.len() ==> (#[trigger] events[i]) is ArgumentsDelta,
    ensures
        streamed_text(events) == Seq::<char>::empty(),
    decreases events.len(),
{
    if events.len() > 0 {
        assert(events.last() is ArgumentsDelta);
        assert forall|i: int| 0 <= i < events.drop_last().len() implies (
        #[trigger] events.drop_last()[i]) is ArgumentsDelta by {
            assert(events.drop_last()[i] == events[i]);
        }
        lemma_streamed_none(events.drop_last());
    }
}

proof fn lemma_call_step_grows(s: DecoderView, item: JsonView)
    ensures
        grows(s, call_step(s, item).state),
{
    let t = call_step(s, item).state;
    lemma_grows_reflexive(s);
    if t != s {
        let index = json::unsigned_of(json::field(item, "index"@))->0;
        let known = if s.calls.contains_key(index) {
            s.calls[index]
        } else {
            empty_call()
        };
        let id = json::field(item, "id"@);
        let named = match id {
            Some(JsonView::Text(x)) => CallView { id: x, ..known },
            _ => known,
        };
        match json::field(item, "function"@) {
            Some(JsonView::Object(parts)) => {
                lemma_fill_function_grows(named, s.events, parts);
            },
            _ => {},
        }
        lemma_streamed_none(new_events(s, t));
        assert(s.text + streamed_text(new_events(s, t)) =~= s.text);
    }
}

proof fn lemma_apply_calls_grows(s: DecoderView, items: Seq<JsonView>)
    ensures
        grows(s, apply_calls(s, items).state),
    decreases items.len(),
{
    lemma_grows_reflexive(s);
    if items.len() > 0 {
        let first = call_step(s, items[0]);
        lemma_call_step_grows(s, items[0]);
        if first.failure is None {
            lemma_apply_calls_grows(first.state, items.skip(1));
            lemma_grows_transitive(
                s,
                first.state,
                apply_calls(first.state, items.skip(1)).state,
            );
        }
    }
}

proof fn lemma_delta_step_grows(s: DecoderView, key: Seq<char>, value: JsonView)
    ensures
        grows(s, delta_step(s, key, value).state),
{
    lemma_grows_reflexive(s);
    let t = delta_step(s, key, value).state;
    if let JsonView::List(items) = value {
        lemma_apply_calls_grows(s, items);
    }
    if let JsonView::Text(x) = value {
        if t.events != s.events {
            assert(new_events(s, t) =~= seq![EventView::TextDelta(x)]);
            assert(new_events(s, t).drop_last() =~= Seq::<EventView>::empty());
            assert(streamed_text(Seq::<EventView>::empty()) =~= Seq::<char>::empty());
            assert(new_events(s, t).last() == EventView::TextDelta(x));
            assert(streamed_text(new_events(s, t)) =~= x);
        } else {
            assert(new_events(s, t) =~= Seq::<EventView>::empty());
            assert(s.text + streamed_text(new_events(s, t)) =~= s.text);
        }
    }
}

proof fn lemma_apply_delta_grows(s: DecoderView, entries: Seq<(Seq<char>, JsonView)>)
    ensures
        grows(s, apply_delta(s, entries).state),
    decreases entries.len(),
{
    lemma_grows_reflexive(s);
    if entries.len() > 0 {
        let first = delta_step(s, entries[0].0, entries[0].1);
        lemma_delta_step_grows(s, entries[0].0, entries[0].1);
        if first.failure is None {
            lemma_apply_delta_grows(first.state, entries.skip(1));
            lemma_grows_transitive(
                s,
                first.state,
                apply_delta(first.state, entries.skip(1)).state,
            );
        }
    }
}

/// A chunk only adds: whether it is accepted or refused, what was learned from
/// the chunks before it stays, its text deltas are exactly what the text of the
/// response gains, and it releases no response.
pub proof fn law_chunk_only_adds(s: DecoderView, chunk: JsonView)
    ensures
        grows(s, chunk_step(s, chunk).state),
{
    lemma_grows_reflexive(s);
    let named = note_id(s, json::text_of(json::field(chunk, "id"@))).state;
    let modelled = note_model(named, json::text_of(json::field(chunk, "model"@))).state;
    let used = note_usage(modelled, json::field(chunk, "usage"@)).state;
    assert(new_events(s, named) == new_events(s, s));
    assert(new_events(s, modelled) == new_events(s, s));
    assert(new_events(s, used) == new_events(s, s));
    assert(grows(s, named) && grows(s, modelled));
    assert(grows(s, used));
    if let Some(JsonView::List(choices)) = json::field(chunk, "choices"@) {
        if choices.len() == 1 {
            if let Some(JsonView::Object(delta)) = json::field(choices[0], "delta"@) {
                lemma_apply_delta_grows(used, delta);
                let applied = apply_delta(used, delta).state;
                lemma_grows_transitive(s, used, applied);
                let finished = note_finish(
                    applied,
                    json::field(choices[0], "finish_reason"@),
                ).state;
                assert(new_events(s, finished) == new_events(s, applied));
                assert(applied.finish is Some ==> used.finish is Some) by {
                    lemma_apply_delta_keeps_finish(used, delta);
                }
            }
        }
    }
}

proof fn lemma_apply_delta_keeps_finish(s: DecoderView, entries: Seq<(Seq<char>, JsonView)>)
    ensures
        apply_delta(s, entries).state.finish == s.finish,
    decreases entries.len(),
{
    if entries.len() > 0 {
        let first = delta_step(s, entries[0].0, entries[0].1);
        if let JsonView::List(items) = entries[0].1 {
            lemma_apply_calls_keeps_finish(s, items);
        }
        if first.failure is None {
            lemma_apply_delta_keeps_finish(first.state, entries.skip(1));
        }
    }
}

proof fn lemma_apply_calls_keeps_finish(s: DecoderView, items: Seq<JsonView>)
    ensures
        apply_calls(s, items).state.finish == s.finish,
    decreases items.len(),
{
    if items.len() > 0 {
        let first = call_step(s, items[0]);
        if first.failure is None {
            lemma_apply_calls_keeps_finish(first.state, items.skip(1));
        }
    }
}

/// Only `[DONE]` completes a response: an event that leaves a new `Completed`
/// behind was `[DONE]`, came after a finish reason, and released calls that
/// are numbered without a gap and have names and distinct ids; unless the
/// response was cut off by its length, it has calls exactly if it finished for
/// the sake of calls.
pub proof fn law_only_done_releases(s: DecoderView, data: Seq<char>, i: int)
    requires
        s.events.len() <= i < event_step(s, data).state.events.len(),
        event_step(s, data).state.events[i] is Completed,
    ensures
        data == "[DONE]"@,
        !s.done,
        event_step(s, data).failure is None,
        event_step(s, data).state.done,
        s.finish is Some,
        calls_complete(s.calls),
        event_step(s, data).state.events == s.events.push(event_step(s, data).state.events[i]),
        event_step(s, data).state.events[i]->response.text == s.text,
        event_step(s, data).state.events[i]->response.calls == released_calls(s.calls),
        s.finish != Some(FinishReason::Length) ==> (s.finish == Some(FinishReason::ToolCalls)
            <==> s.calls.dom().len() > 0),
{
    if !s.done && data != "[DONE]"@ {
        if let Some(chunk) = json::json_document(data) {
            law_chunk_only_adds(s, chunk);
        }
    }
}

/// After `[DONE]` every further event is refused and changes nothing.
pub proof fn law_done_is_final(s: DecoderView, data: Seq<char>)
    requires
        s.done,
    ensures
        event_step(s, data) == refuse(s, ProviderErrorKind::Protocol),
{
}

/// What the state of two decoders has in common when only the number of bytes
/// received may differ.
pub open spec fn with_bytes(s: DecoderView, n: int) -> DecoderView {
    DecoderView { bytes: n, ..s }
}

proof fn lemma_apply_calls_with_bytes(s: DecoderView, n: int, items: Seq<JsonView>)
    ensures
        apply_calls(with_bytes(s, n), items).state == with_bytes(apply_calls(s, items).state, n),
        apply_calls(with_bytes(s, n), items).failure == apply_calls(s, items).failure,
    decreases items.len(),
{
    if items.len() > 0 {
        let first = call_step(s, items[0]);
        assert(call_step(with_bytes(s, n), items[0]).state == with_bytes(first.state, n));
        assert(call_step(with_bytes(s, n), items[0]).failure == first.failure);
        if first.failure is None {
            lemma_apply_calls_with_bytes(first.state, n, items.skip(1));
        }
    }
}

proof fn lemma_apply_delta_with_bytes(
    s: DecoderView,
    n: int,
    entries: Seq<(Seq<char>, JsonView)>,
)
    ensures
        apply_delta(with_bytes(s, n), entries).state == with_bytes(
            apply_delta(s, entries).state,
            n,
        ),
        apply_delta(with_bytes(s, n), entries).failure == apply_delta(s, entries).failure,
    decreases entries.len(),
{
    if entries.len() > 0 {
        let first = delta_step(s, entries[0].0, entries[0].1);
        if let JsonView::List(items) = entries[0].1 {
            lemma_apply_calls_with_bytes(s, n, items);
        }
        let other = delta_step(with_bytes(s, n), entries[0].0, entries[0].1);
        assert(other.state == with_bytes(first.state, n));
        assert(other.failure == first.failure);
        if first.failure is None {
            lemma_apply_delta_with_bytes(first.state, n, entries.skip(1));
        }
    }
}

proof fn lemma_chunk_with_bytes(s: DecoderView, n: int, chunk: JsonView)
    ensures
        chunk_step(with_bytes(s, n), chunk).state == with_bytes(chunk_step(s, chunk).state, n),
        chunk_step(with_bytes(s, n), chunk).failure == chunk_step(s, chunk).failure,
{
    let named = note_id(s, json::text_of(json::field(chunk, "id"@))).state;
    let modelled = note_model(named, json::text_of(json::field(chunk, "model"@))).state;
    let used = note_usage(modelled, json::field(chunk, "usage"@)).state;
    if let Some(JsonView::List(choices)) = json::field(chunk, "choices"@) {
        if choices.len() == 1 {
            if let Some(JsonView::Object(delta)) = json::field(choices[0], "delta"@) {
                lemma_apply_delta_with_bytes(used, n, delta);
            }
        }
    }
}

proof fn lemma_byte_with_bytes(s: DecoderView, n: int, byte: u8)
    ensures
        byte_step(with_bytes(s, n), byte).state == with_bytes(byte_step(s, byte).state, n),
        byte_step(with_bytes(s, n), byte).failure == byte_step(s, byte).failure,
        byte_step(s, byte).state.settings == s.settings,
        byte_step(s, byte).state.bytes == s.bytes,
{
    if byte == 10 {
        let emptied = DecoderView { line: Seq::empty(), ..s };
        let line = without_cr(s.line);
        let taken = DecoderView { data: Seq::empty(), ..emptied };
        assert(DecoderView { line: Seq::<u8>::empty(), ..with_bytes(s, n) } == with_bytes(
            emptied,
            n,
        ));
        assert(DecoderView { data: Seq::<u8>::empty(), ..with_bytes(emptied, n) } == with_bytes(
            taken,
            n,
        ));
        if let Some(chunk) = json::json_document(text::trim(decode_utf8(s.data))) {
            lemma_chunk_with_bytes(taken, n, chunk);
            law_chunk_only_adds(taken, chunk);
        }
        assert(line_step(with_bytes(emptied, n), line).state == with_bytes(
            line_step(emptied, line).state,
            n,
        ));
    }
}

proof fn lemma_bytes_with_bytes(s: DecoderView, n: int, bytes: Seq<u8>)
    ensures
        bytes_step(with_bytes(s, n), bytes).state == with_bytes(bytes_step(s, bytes).state, n),
        bytes_step(with_bytes(s, n), bytes).failure == bytes_step(s, bytes).failure,
        bytes_step(s, bytes).state.settings == s.settings,
        bytes_step(s, bytes).state.bytes == s.bytes,
    decreases bytes.len(),
{
    if bytes.len() > 0 {
        lemma_byte_with_bytes(s, n, bytes[0]);
        let first = byte_step(s, bytes[0]);
        if first.failure is None {
            lemma_bytes_with_bytes(first.state, n, bytes.skip(1));
        }
    }
}

proof fn lemma_bytes_concat(s: DecoderView, a: Seq<u8>, b: Seq<u8>)
    ensures
        bytes_step(s, a + b) == if bytes_step(s, a).failure is Some {
            bytes_step(s, a)
        } else {
            bytes_step(bytes_step(s, a).state, b)
        },
    decreases a.len(),
{
    if a.len() == 0 {
        assert(a + b =~= b);
    } else {
        assert((a + b)[0] == a[0]);
        assert((a + b).skip(1) =~= a.skip(1) + b);
        let first = byte_step(s, a[0]);
        if first.failure is None {
            lemma_bytes_concat(first.state, a.skip(1), b);
        }
    }
}

/// How the wire cuts a response into pieces does not matter: a response is
/// accepted in one piece exactly where it is accepted in two, and the decoder
/// then ends in the same state.
pub proof fn law_pieces_do_not_matter(s: DecoderView, a: Seq<u8>, b: Seq<u8>)
    ensures
        push_step(s, a + b).failure is None <==> push_step(s, a).failure is None && push_step(
            push_step(s, a).state,
            b,
        ).failure is None,
        push_step(s, a + b).failure is None ==> push_step(push_step(s, a).state, b) == push_step(
            s,
            a + b,
        ),
{
    let first = saturated((s.bytes + a.len()) as int);
    let total = saturated((s.bytes + (a + b).len()) as int);
    assert((a + b).len() == a.len() + b.len());
    lemma_bytes_concat(with_bytes(s, total), a, b);
    lemma_bytes_with_bytes(s, total, a);
    lemma_bytes_with_bytes(s, first, a);
    let mid = bytes_step(s, a).state;
    assert(saturated((first + b.len()) as int) == total);
    if first <= s.settings.wire_bytes {
        assert(push_step(s, a).state == with_bytes(mid, first));
        assert(with_bytes(with_bytes(mid, first), total) == with_bytes(mid, total));
        if total <= s.settings.wire_bytes {
            assert(push_step(push_step(s, a).state, b) == bytes_step(with_bytes(mid, total), b));
        }
    }
}

/// A decoder never holds more than its settings allow: after a piece that was
/// accepted, the bytes received are within the bound on the response, and what
/// is held of the event under way is within the bound on one event.
pub proof fn law_input_is_bounded(s: DecoderView, bytes: Seq<u8>)
    requires
        push_step(s, bytes).failure is None,
        saturated((s.line.len() + s.data.len()) as int) <= s.settings.event_bytes,
    ensures
        push_step(s, bytes).state.bytes <= s.settings.wire_bytes,
        saturated(
            (push_step(s, bytes).state.line.len() + push_step(s, bytes).state.data.len()) as int,
        ) <= s.settings.event_bytes,
{
    let counted = with_bytes(s, saturated((s.bytes + bytes.len()) as int));
    lemma_bytes_bounded(counted, bytes);
}

proof fn lemma_bytes_bounded(s: DecoderView, bytes: Seq<u8>)
    requires
        bytes_step(s, bytes).failure is None,
        saturated((s.line.len() + s.data.len()) as int) <= s.settings.event_bytes,
    ensures
        bytes_step(s, bytes).state.bytes == s.bytes,
        saturated(
            (bytes_step(s, bytes).state.line.len() + bytes_step(s, bytes).state.data.len()) as int,
        ) <= s.settings.event_bytes,
    decreases bytes.len(),
{
    if bytes.len() > 0 {
        lemma_byte_with_bytes(s, s.bytes, bytes[0]);
        lemma_bytes_bounded(byte_step(s, bytes[0]).state, bytes.skip(1));
    }
}

// ------------------------------------------------- what a response is made of

/// The events of a stream, up to the first that is refused.
pub open spec fn events_step(s: DecoderView, events: Seq<Seq<char>>) -> Step
    decreases events.len(),
{
    if events.len() == 0 {
        accept(s)
    } else {
        let before = events_step(s, events.drop_last());
        if before.failure is Some {
            before
        } else {
            event_step(before.state, events.last())
        }
    }
}

/// The delta of a chunk with one choice.
pub open spec fn chunk_delta(chunk: JsonView) -> Seq<(Seq<char>, JsonView)> {
    match json::field(chunk, "choices"@) {
        Some(JsonView::List(choices)) => if choices.len() == 1 {
            match json::field(choices[0], "delta"@) {
                Some(JsonView::Object(delta)) => delta,
                _ => Seq::empty(),
            }
        } else {
            Seq::empty()
        },
        _ => Seq::empty(),
    }
}

/// The delta that the text of an event holds.
pub open spec fn event_delta(data: Seq<char>) -> Seq<(Seq<char>, JsonView)> {
    match json::json_document(data) {
        Some(chunk) => chunk_delta(chunk),
        None => Seq::empty(),
    }
}

/// The text in a delta.
pub open spec fn delta_text(delta: Seq<(Seq<char>, JsonView)>) -> Seq<char>
    decreases delta.len(),
{
    if delta.len() == 0 {
        Seq::empty()
    } else {
        let rest = delta_text(delta.skip(1));
        match delta[0].1 {
            JsonView::Text(t) => if delta[0].0 == "content"@ {
                t + rest
            } else {
                rest
            },
            _ => rest,
        }
    }
}

/// The fragments of calls in a delta.
pub open spec fn delta_fragments(delta: Seq<(Seq<char>, JsonView)>) -> Seq<JsonView>
    decreases delta.len(),
{
    if delta.len() == 0 {
        Seq::empty()
    } else {
        let rest = delta_fragments(delta.skip(1));
        match delta[0].1 {
            JsonView::List(items) => if delta[0].0 == "tool_calls"@ {
                items + rest
            } else {
                rest
            },
            _ => rest,
        }
    }
}

/// The text in the events of a stream, one after the other.
pub open spec fn received_text(events: Seq<Seq<char>>) -> Seq<char>
    decreases events.len(),
{
    if events.len() == 0 {
        Seq::empty()
    } else {
        received_text(events.drop_last()) + delta_text(event_delta(events.last()))
    }
}

/// The fragments of calls in the events of a stream, one after the other.
pub open spec fn received_fragments(events: Seq<Seq<char>>) -> Seq<JsonView>
    decreases events.len(),
{
    if events.len() == 0 {
        Seq::empty()
    } else {
        received_fragments(events.drop_last()) + delta_fragments(event_delta(events.last()))
    }
}

/// The number of the call that a fragment belongs to.
pub open spec fn fragment_index(item: JsonView) -> Option<u64> {
    json::unsigned_of(json::field(item, "index"@))
}

/// What the fields of a function say under a key.
pub open spec fn function_text(parts: Seq<(Seq<char>, JsonView)>, key: Seq<char>) -> Seq<char>
    decreases parts.len(),
{
    if parts.len() == 0 {
        Seq::empty()
    } else {
        let rest = function_text(parts.skip(1), key);
        match parts[0].1 {
            JsonView::Text(t) => if parts[0].0 == key {
                t + rest
            } else {
                rest
            },
            _ => rest,
        }
    }
}

/// What a fragment says of its function under a key.
pub open spec fn fragment_text(item: JsonView, key: Seq<char>) -> Seq<char> {
    match json::field(item, "function"@) {
        Some(JsonView::Object(parts)) => function_text(parts, key),
        _ => Seq::empty(),
    }
}

/// What fragments say of the function of one call under a key, one after the
/// other.
pub open spec fn assembled(items: Seq<JsonView>, index: u64, key: Seq<char>) -> Seq<char>
    decreases items.len(),
{
    if items.len() == 0 {
        Seq::empty()
    } else {
        let before = assembled(items.drop_last(), index, key);
        if fragment_index(items.last()) == Some(index) {
            before + fragment_text(items.last(), key)
        } else {
            before
        }
    }
}

/// Whether one of the fragments belongs to a call.
pub open spec fn mentioned(items: Seq<JsonView>, index: u64) -> bool {
    exists|i: int| 0 <= i < items.len() && fragment_index(#[trigger] items[i]) == Some(index)
}

/// A call as far as it is known.
pub open spec fn known_call(s: DecoderView, index: u64) -> CallView {
    if s.calls.contains_key(index) {
        s.calls[index]
    } else {
        empty_call()
    }
}

/// The fragment names no id.
pub open spec fn without_id(item: JsonView) -> bool {
    json::field(item, "id"@) is None || json::field(item, "id"@) == Some(JsonView::Null)
}

/// The fragment of a call with a number names an id at most as an empty text.
pub open spec fn gives_no_id(item: JsonView, index: u64) -> bool {
    fragment_index(item) == Some(index) ==> without_id(item) || json::field(item, "id"@) == Some(
        JsonView::Text(Seq::empty()),
    )
}

/// The fragment at a position gives a call its id: those before it give none, and
/// those behind it name none.
pub open spec fn gives_id(items: Seq<JsonView>, at: int, index: u64, id: Seq<char>) -> bool {
    &&& 0 <= at < items.len()
    &&& fragment_index(items[at]) == Some(index)
    &&& json::field(items[at], "id"@) == Some(JsonView::Text(id))
    &&& forall|j: int| 0 <= j < at ==> gives_no_id(#[trigger] items[j], index)
    &&& forall|j: int|
        at < j < items.len() && fragment_index(#[trigger] items[j]) == Some(index) ==> without_id(
            items[j],
        )
}

/// One of the fragments gives a call its id.
pub open spec fn id_given(items: Seq<JsonView>, index: u64, id: Seq<char>) -> bool {
    exists|at: int| gives_id(items, at, index, id)
}

/// A call had one id before some fragments and has another after them: none of
/// them gave it one, or it had none and one of them did.
pub open spec fn takes_id(
    before: Seq<char>,
    items: Seq<JsonView>,
    index: u64,
    after: Seq<char>,
) -> bool {
    ||| after == before && forall|j: int|
        0 <= j < items.len() ==> (if before.len() == 0 {
            gives_no_id(#[trigger] items[j], index)
        } else {
            fragment_index(items[j]) == Some(index) ==> without_id(items[j])
        })
    ||| before.len() == 0 && after.len() > 0 && exists|at: int| gives_id(items, at, index, after)
}

proof fn lemma_takes_id_transitive(
    x: Seq<char>,
    y: Seq<char>,
    z: Seq<char>,
    a: Seq<JsonView>,
    b: Seq<JsonView>,
    index: u64,
)
    requires
        takes_id(x, a, index, y),
        takes_id(y, b, index, z),
    ensures
        takes_id(x, a + b, index, z),
{
    let whole = a + b;
    assert forall|j: int| 0 <= j < whole.len() implies #[trigger] whole[j] == (if j < a.len() {
        a[j]
    } else {
        b[j - a.len()]
    }) by {}
    if x == y && y == z {
        assert forall|j: int| 0 <= j < whole.len() implies (if x.len() == 0 {
            gives_no_id(#[trigger] whole[j], index)
        } else {
            fragment_index(whole[j]) == Some(index) ==> without_id(whole[j])
        }) by {
            if j < a.len() {
                assert(whole[j] == a[j]);
            } else {
                assert(whole[j] == b[j - a.len()]);
            }
        }
    } else if x == y {
        let at = choose|at: int| gives_id(b, at, index, z);
        assert(whole[a.len() + at] == b[at]);
        assert forall|j: int| 0 <= j < a.len() + at implies gives_no_id(
            #[trigger] whole[j],
            index,
        ) by {
            if j < a.len() {
                assert(gives_no_id(a[j], index));
            } else {
                assert(gives_no_id(b[j - a.len()], index));
            }
        }
        assert forall|j: int|
            a.len() + at < j < whole.len() && fragment_index(#[trigger] whole[j]) == Some(
                index,
            ) implies without_id(whole[j]) by {
            assert(whole[j] == b[j - a.len()]);
        }
        assert(gives_id(whole, a.len() + at, index, z));
    } else {
        let at = choose|at: int| gives_id(a, at, index, y);
        assert(y == z);
        assert(whole[at] == a[at]);
        assert forall|j: int| 0 <= j < at implies gives_no_id(#[trigger] whole[j], index) by {
            assert(gives_no_id(a[j], index));
        }
        assert forall|j: int|
            at < j < whole.len() && fragment_index(#[trigger] whole[j]) == Some(index) implies
            without_id(whole[j]) by {
            if j < a.len() {
                assert(whole[j] == a[j]);
            } else {
                assert(whole[j] == b[j - a.len()]);
            }
        }
        assert(gives_id(whole, at, index, z));
    }
}

/// `t` has what `s` has, and besides that these fragments of calls and this
/// text: neither more nor less.
pub open spec fn gains(
    s: DecoderView,
    t: DecoderView,
    items: Seq<JsonView>,
    more: Seq<char>,
) -> bool {
    &&& t.text == s.text + more
    &&& s.calls.dom().finite() ==> t.calls.dom().finite()
    &&& forall|k: u64| #[trigger]
        t.calls.contains_key(k) <==> s.calls.contains_key(k) || mentioned(items, k)
    &&& forall|k: u64|
        (#[trigger] known_call(t, k)).name == known_call(s, k).name + assembled(items, k, "name"@)
    &&& forall|k: u64|
        (#[trigger] known_call(t, k)).arguments == known_call(s, k).arguments + assembled(
            items,
            k,
            "arguments"@,
        )
    &&& forall|k: u64|
        takes_id(known_call(s, k).id, items, k, (#[trigger] known_call(t, k)).id)
}

proof fn lemma_assembled_concat(a: Seq<JsonView>, b: Seq<JsonView>, index: u64, key: Seq<char>)
    ensures
        assembled(a + b, index, key) == assembled(a, index, key) + assembled(b, index, key),
    decreases b.len(),
{
    if b.len() == 0 {
        assert(a + b =~= a);
        assert(assembled(a, index, key) + assembled(b, index, key) =~= assembled(a, index, key));
    } else {
        lemma_assembled_concat(a, b.drop_last(), index, key);
        assert((a + b).drop_last() =~= a + b.drop_last());
        assert((a + b).last() == b.last());
        assert(assembled(a + b, index, key) =~= assembled(a, index, key) + assembled(
            b,
            index,
            key,
        ));
    }
}

proof fn lemma_mentioned_concat(a: Seq<JsonView>, b: Seq<JsonView>, index: u64)
    ensures
        mentioned(a + b, index) <==> mentioned(a, index) || mentioned(b, index),
{
    if mentioned(a, index) {
        let i = choose|i: int| 0 <= i < a.len() && fragment_index(#[trigger] a[i]) == Some(index);
        assert((a + b)[i] == a[i]);
    }
    if mentioned(b, index) {
        let i = choose|i: int| 0 <= i < b.len() && fragment_index(#[trigger] b[i]) == Some(index);
        assert((a + b)[a.len() + i] == b[i]);
    }
    if mentioned(a + b, index) {
        let i = choose|i: int|
            0 <= i < (a + b).len() && fragment_index(#[trigger] (a + b)[i]) == Some(index);
        if i < a.len() {
            assert(a[i] == (a + b)[i]);
        } else {
            assert(b[i - a.len()] == (a + b)[i]);
        }
    }
}

proof fn lemma_gains_nothing(s: DecoderView, t: DecoderView)
    requires
        t.text == s.text,
        t.calls == s.calls,
    ensures
        gains(s, t, Seq::empty(), Seq::empty()),
{
    assert(s.text + Seq::<char>::empty() =~= s.text);
    assert forall|k: u64| (#[trigger] known_call(t, k)).name == known_call(s, k).name + assembled(
        Seq::empty(),
        k,
        "name"@,
    ) by {
        assert(known_call(s, k).name + Seq::<char>::empty() =~= known_call(s, k).name);
    }
    assert forall|k: u64|
        (#[trigger] known_call(t, k)).arguments == known_call(s, k).arguments + assembled(
            Seq::empty(),
            k,
            "arguments"@,
        ) by {
        assert(known_call(s, k).arguments + Seq::<char>::empty() =~= known_call(s, k).arguments);
    }
}

proof fn lemma_gains_transitive(
    s: DecoderView,
    t: DecoderView,
    u: DecoderView,
    a: Seq<JsonView>,
    b: Seq<JsonView>,
    x: Seq<char>,
    y: Seq<char>,
)
    requires
        gains(s, t, a, x),
        gains(t, u, b, y),
    ensures
        gains(s, u, a + b, x + y),
{
    assert(u.text =~= s.text + (x + y));
    assert forall|k: u64| #[trigger] u.calls.contains_key(k) <==> s.calls.contains_key(k)
        || mentioned(a + b, k) by {
        lemma_mentioned_concat(a, b, k);
        assert(t.calls.contains_key(k) <==> s.calls.contains_key(k) || mentioned(a, k));
    }
    assert forall|k: u64| (#[trigger] known_call(u, k)).name == known_call(s, k).name + assembled(
        a + b,
        k,
        "name"@,
    ) by {
        lemma_assembled_concat(a, b, k, "name"@);
        assert(known_call(t, k).name == known_call(s, k).name + assembled(a, k, "name"@));
        assert(known_call(u, k).name =~= known_call(s, k).name + (assembled(a, k, "name"@)
            + assembled(b, k, "name"@)));
    }
    assert forall|k: u64|
        (#[trigger] known_call(u, k)).arguments == known_call(s, k).arguments + assembled(
            a + b,
            k,
            "arguments"@,
        ) by {
        lemma_assembled_concat(a, b, k, "arguments"@);
        assert(known_call(t, k).arguments == known_call(s, k).arguments + assembled(
            a,
            k,
            "arguments"@,
        ));
        assert(known_call(u, k).arguments =~= known_call(s, k).arguments + (assembled(
            a,
            k,
            "arguments"@,
        ) + assembled(b, k, "arguments"@)));
    }
    assert forall|k: u64|
        takes_id(known_call(s, k).id, a + b, k, (#[trigger] known_call(u, k)).id) by {
        assert(takes_id(known_call(s, k).id, a, k, known_call(t, k).id));
        lemma_takes_id_transitive(
            known_call(s, k).id,
            known_call(t, k).id,
            known_call(u, k).id,
            a,
            b,
            k,
        );
    }
}

proof fn lemma_fill_function_gains(
    call: CallView,
    events: Seq<EventView>,
    parts: Seq<(Seq<char>, JsonView)>,
)
    requires
        fill_function(call, events, parts).failure is None,
    ensures
        fill_function(call, events, parts).call.name == call.name + function_text(parts, "name"@),
        fill_function(call, events, parts).call.arguments == call.arguments + function_text(
            parts,
            "arguments"@,
        ),
    decreases parts.len(),
{
    reveal_strlit("name");
    reveal_strlit("arguments");
    assert("name"@.len() == 4 && "arguments"@.len() == 9);
    let out = fill_function(call, events, parts).call;
    if parts.len() > 0 {
        if let JsonView::Text(t) = parts[0].1 {
            if parts[0].0 == "name"@ {
                let next = CallView { name: call.name + t, ..call };
                lemma_fill_function_gains(next, events, parts.skip(1));
                assert(out.name =~= call.name + function_text(parts, "name"@));
            } else if parts[0].0 == "arguments"@ {
                let next = CallView { arguments: call.arguments + t, ..call };
                lemma_fill_function_gains(
                    next,
                    events.push(EventView::ArgumentsDelta(t)),
                    parts.skip(1),
                );
                assert(out.arguments =~= call.arguments + function_text(parts, "arguments"@));
            }
        }
    } else {
        assert(call.name + Seq::<char>::empty() =~= call.name);
        assert(call.arguments + Seq::<char>::empty() =~= call.arguments);
    }
}

proof fn lemma_call_step_gains(s: DecoderView, item: JsonView)
    requires
        call_step(s, item).failure is None,
    ensures
        gains(s, call_step(s, item).state, seq![item], Seq::empty()),
{
    let t = call_step(s, item).state;
    let items = seq![item];
    let index = fragment_index(item)->0;
    let known = known_call(s, index);
    let named = match json::field(item, "id"@) {
        Some(JsonView::Text(x)) => CallView { id: x, ..known },
        _ => known,
    };
    match json::field(item, "function"@) {
        Some(JsonView::Object(parts)) => {
            lemma_fill_function_gains(named, s.events, parts);
            lemma_fill_function_grows(named, s.events, parts);
        },
        _ => {
            assert(known.name + Seq::<char>::empty() =~= known.name);
            assert(known.arguments + Seq::<char>::empty() =~= known.arguments);
        },
    }
    assert(t.text =~= s.text + Seq::<char>::empty());
    assert(items.last() == item);
    assert(items.drop_last() =~= Seq::<JsonView>::empty());
    assert forall|k: u64, key: Seq<char>| #[trigger] assembled(items, k, key) == if k == index {
        fragment_text(item, key)
    } else {
        Seq::empty()
    } by {
        assert(assembled(items.drop_last(), k, key) =~= Seq::<char>::empty());
        assert(Seq::<char>::empty() + fragment_text(item, key) =~= fragment_text(item, key));
    }
    assert forall|k: u64| #[trigger] t.calls.contains_key(k) <==> s.calls.contains_key(k)
        || mentioned(items, k) by {
        if k == index {
            assert(fragment_index(items[0]) == Some(index));
        }
    }
    assert forall|k: u64| (#[trigger] known_call(t, k)).name == known_call(s, k).name + assembled(
        items,
        k,
        "name"@,
    ) by {
        if k != index {
            assert(known_call(t, k) == known_call(s, k));
            assert(known_call(s, k).name + Seq::<char>::empty() =~= known_call(s, k).name);
        }
    }
    assert forall|k: u64|
        (#[trigger] known_call(t, k)).arguments == known_call(s, k).arguments + assembled(
            items,
            k,
            "arguments"@,
        ) by {
        if k != index {
            assert(known_call(t, k) == known_call(s, k));
            assert(known_call(s, k).arguments + Seq::<char>::empty() =~= known_call(
                s,
                k,
            ).arguments);
        }
    }
    assert forall|k: u64|
        takes_id(known_call(s, k).id, items, k, (#[trigger] known_call(t, k)).id) by {
        if k == index {
            assert(known_call(t, k).id == named.id);
            if let Some(JsonView::Text(x)) = json::field(item, "id"@) {
                assert(known.id.len() == 0);
                if x.len() > 0 {
                    assert(gives_id(items, 0, k, x));
                } else {
                    assert(x =~= Seq::empty());
                    assert(known.id =~= Seq::empty());
                }
            }
        } else {
            assert(known_call(t, k) == known_call(s, k));
        }
    }
}

proof fn lemma_apply_calls_gains(s: DecoderView, items: Seq<JsonView>)
    requires
        apply_calls(s, items).failure is None,
    ensures
        gains(s, apply_calls(s, items).state, items, Seq::empty()),
    decreases items.len(),
{
    if items.len() == 0 {
        assert(items =~= Seq::empty());
        lemma_gains_nothing(s, s);
    } else {
        let mid = call_step(s, items[0]).state;
        let end = apply_calls(s, items).state;
        let rest = items.skip(1);
        lemma_call_step_gains(s, items[0]);
        lemma_apply_calls_gains(mid, rest);
        lemma_gains_transitive(s, mid, end, seq![items[0]], rest, Seq::empty(), Seq::empty());
        assert(seq![items[0]] + rest =~= items);
        assert(Seq::<char>::empty() + Seq::<char>::empty() =~= Seq::<char>::empty());
    }
}

proof fn lemma_delta_step_gains(s: DecoderView, entry: (Seq<char>, JsonView))
    requires
        delta_step(s, entry.0, entry.1).failure is None,
    ensures
        gains(
            s,
            delta_step(s, entry.0, entry.1).state,
            delta_fragments(seq![entry]),
            delta_text(seq![entry]),
        ),
{
    reveal_strlit("role");
    reveal_strlit("content");
    reveal_strlit("reasoning");
    reveal_strlit("reasoning_content");
    reveal_strlit("tool_calls");
    assert("role"@.len() == 4 && "content"@.len() == 7 && "reasoning"@.len() == 9);
    assert("reasoning_content"@.len() == 17 && "tool_calls"@.len() == 10);
    let t = delta_step(s, entry.0, entry.1).state;
    let one = seq![entry];
    assert(one.skip(1) =~= Seq::<(Seq<char>, JsonView)>::empty());
    assert(delta_fragments(one.skip(1)) == Seq::<JsonView>::empty());
    assert(delta_text(one.skip(1)) == Seq::<char>::empty());
    lemma_gains_nothing(s, s);
    match entry.1 {
        JsonView::List(items) => {
            assert(delta_text(one) == Seq::<char>::empty());
            if entry.0 == "tool_calls"@ {
                lemma_apply_calls_gains(s, items);
                assert(delta_fragments(one) =~= items);
            }
        },
        JsonView::Text(x) => {
            assert(delta_fragments(one) == Seq::<JsonView>::empty());
            if entry.0 == "content"@ {
                assert(delta_text(one) =~= x);
                lemma_gains_nothing(s, DecoderView { text: s.text, ..t });
            } else {
                lemma_gains_nothing(s, t);
            }
        },
        _ => {},
    }
}

proof fn lemma_apply_delta_gains(s: DecoderView, delta: Seq<(Seq<char>, JsonView)>)
    requires
        apply_delta(s, delta).failure is None,
    ensures
        gains(s, apply_delta(s, delta).state, delta_fragments(delta), delta_text(delta)),
    decreases delta.len(),
{
    if delta.len() == 0 {
        lemma_gains_nothing(s, s);
    } else {
        let one = seq![delta[0]];
        let rest = delta.skip(1);
        let mid = delta_step(s, delta[0].0, delta[0].1).state;
        let end = apply_delta(s, delta).state;
        lemma_delta_step_gains(s, delta[0]);
        lemma_apply_delta_gains(mid, rest);
        lemma_gains_transitive(
            s,
            mid,
            end,
            delta_fragments(one),
            delta_fragments(rest),
            delta_text(one),
            delta_text(rest),
        );
        assert(one.skip(1) =~= Seq::<(Seq<char>, JsonView)>::empty());
        assert(delta_fragments(one.skip(1)) == Seq::<JsonView>::empty());
        assert(delta_text(one.skip(1)) == Seq::<char>::empty());
        assert(delta_fragments(one) + delta_fragments(rest) =~= delta_fragments(delta));
        assert(delta_text(one) + delta_text(rest) =~= delta_text(delta));
    }
}

proof fn lemma_chunk_gains(s: DecoderView, chunk: JsonView)
    requires
        chunk_step(s, chunk).failure is None,
    ensures
        gains(
            s,
            chunk_step(s, chunk).state,
            delta_fragments(chunk_delta(chunk)),
            delta_text(chunk_delta(chunk)),
        ),
{
    let named = note_id(s, json::text_of(json::field(chunk, "id"@))).state;
    let modelled = note_model(named, json::text_of(json::field(chunk, "model"@))).state;
    let used = note_usage(modelled, json::field(chunk, "usage"@)).state;
    let end = chunk_step(s, chunk).state;
    assert(used.text == s.text && used.calls == s.calls);
    let delta = chunk_delta(chunk);
    if let Some(JsonView::List(choices)) = json::field(chunk, "choices"@) {
        if choices.len() == 1 {
            let applied = apply_delta(used, delta).state;
            lemma_apply_delta_gains(used, delta);
            assert(end.text == applied.text && end.calls == applied.calls);
            assert forall|k: u64| #[trigger] known_call(end, k) == known_call(applied, k) by {}
            assert forall|k: u64| #[trigger] known_call(s, k) == known_call(used, k) by {}
        } else {
            lemma_gains_nothing(s, end);
        }
    }
}

/// Events add up: as long as a stream is accepted and not done, the decoder has
/// what it had and what the events held, in their order. Its text is the one that
/// it had and the text of the events, which is also what the new text deltas say;
/// the name and the arguments of every call are those that it had and the
/// fragments of that call; and the calls are those that it had and those that
/// fragments belong to.
pub proof fn law_events_add_up(s: DecoderView, events: Seq<Seq<char>>)
    requires
        events_step(s, events).failure is None,
        !events_step(s, events).state.done,
    ensures
        gains(
            s,
            events_step(s, events).state,
            received_fragments(events),
            received_text(events),
        ),
        grows(s, events_step(s, events).state),
    decreases events.len(),
{
    if events.len() == 0 {
        lemma_gains_nothing(s, s);
        lemma_grows_reflexive(s);
    } else {
        let front = events.drop_last();
        let mid = events_step(s, front).state;
        let end = events_step(s, events).state;
        let data = events.last();
        let chunk = json::json_document(data)->0;
        law_events_add_up(s, front);
        lemma_chunk_gains(mid, chunk);
        law_chunk_only_adds(mid, chunk);
        lemma_grows_transitive(s, mid, end);
        lemma_gains_transitive(
            s,
            mid,
            end,
            received_fragments(front),
            delta_fragments(event_delta(data)),
            received_text(front),
            delta_text(event_delta(data)),
        );
    }
}

/// A set of numbers that holds all below a bound and one above has more elements
/// than the bound.
proof fn lemma_numbers_below(keys: Set<u64>, n: nat, other: u64)
    requires
        keys.finite(),
        other >= n,
        keys.contains(other),
        forall|i: u64| i < n ==> #[trigger] keys.contains(i),
    ensures
        keys.len() > n,
    decreases n,
{
    if n > 0 {
        let last = (n - 1) as u64;
        assert(keys.contains(last));
        lemma_numbers_below(keys.remove(last), (n - 1) as nat, other);
    } else {
        assert(keys.len() > 0) by {
            if keys.len() == 0 {
                assert(keys =~= Set::empty());
            }
        }
    }
}

/// A set of numbers below a bound has no more elements than the bound.
proof fn lemma_numbers_within(keys: Set<u64>, n: nat)
    requires
        keys.finite(),
        forall|i: u64| #[trigger] keys.contains(i) ==> i < n,
    ensures
        keys.len() <= n,
    decreases n,
{
    if n > 0 {
        if n - 1 <= u64::MAX {
            lemma_numbers_within(keys.remove((n - 1) as u64), (n - 1) as nat);
        } else {
            lemma_numbers_within(keys, (n - 1) as nat);
        }
    } else {
        assert(keys =~= Set::empty());
    }
}

/// A response is what was streamed: where a decoder that had received nothing
/// accepts some events and then `[DONE]`, it queues one completed response behind
/// the deltas. The text of the response is the text deltas, one after the other,
/// and the text of the events. Its calls stand in the order of their numbers;
/// the id of each is the text that the one fragment with its number and an id
/// gives; the name and the arguments are the fragments with its number, one after
/// the other; and every fragment has the number of one of them.
pub proof fn law_response_is_what_was_streamed(
    settings: ProviderSettings,
    events: Seq<Seq<char>>,
)
    requires
        events_step(fresh(settings), events.push("[DONE]"@)).failure is None,
    ensures
        ({
            let before = events_step(fresh(settings), events).state;
            let after = events_step(fresh(settings), events.push("[DONE]"@)).state;
            let items = received_fragments(events);
            &&& after.events.len() == before.events.len() + 1
            &&& after.events.drop_last() == before.events
            &&& forall|i: int|
                0 <= i < before.events.len() ==> !((#[trigger] before.events[i]) is Completed)
            &&& after.events.last() matches EventView::Completed { response, .. } && {
                &&& response.text == streamed_text(before.events)
                &&& response.text == received_text(events)
                &&& forall|i: int|
                    0 <= i < response.calls.len() ==> (#[trigger] response.calls[i]).name
                        == assembled(items, i as u64, "name"@) && response.calls[i].arguments
                        == assembled(items, i as u64, "arguments"@)
                &&& forall|i: int|
                    0 <= i < response.calls.len() ==> id_given(
                        items,
                        i as u64,
                        (#[trigger] response.calls[i]).id,
                    )
                &&& forall|k: u64| #[trigger] mentioned(items, k) <==> k < response.calls.len()
            }
        }),
{
    let start = fresh(settings);
    let whole = events.push("[DONE]"@);
    assert(whole.drop_last() =~= events);
    let before = events_step(start, events).state;
    let after = events_step(start, whole).state;
    let items = received_fragments(events);
    law_events_add_up(start, events);
    assert(after.events.drop_last() =~= before.events);
    assert(new_events(start, before) =~= before.events);
    assert(Seq::<char>::empty() + streamed_text(before.events) =~= streamed_text(before.events));
    assert(Seq::<char>::empty() + received_text(events) =~= received_text(events));
    let calls = released_calls(before.calls);
    let n = before.calls.dom().len();
    assert(before.calls.dom().finite());
    assert forall|k: u64| #[trigger] before.calls.dom().contains(k) implies k
        < settings.max_tool_calls by {
        assert(before.calls.contains_key(k));
    }
    lemma_numbers_within(before.calls.dom(), settings.max_tool_calls as nat);
    assert forall|k: u64| #[trigger] mentioned(items, k) <==> k < n by {
        assert(before.calls.contains_key(k) <==> start.calls.contains_key(k) || mentioned(
            items,
            k,
        ));
        if before.calls.contains_key(k) && k >= n {
            assert forall|i: u64| i < n implies #[trigger] before.calls.dom().contains(i) by {
                assert(before.calls.contains_key(i));
            }
            lemma_numbers_below(before.calls.dom(), n, k);
        }
    }
    assert forall|i: int| 0 <= i < calls.len() implies (#[trigger] calls[i]).name == assembled(
        items,
        i as u64,
        "name"@,
    ) && calls[i].arguments == assembled(items, i as u64, "arguments"@) by {
        let k = i as u64;
        assert(k == i);
        assert(before.calls.contains_key(k));
        assert(known_call(before, k) == calls[i]);
        assert(known_call(start, k) == empty_call());
        assert(Seq::<char>::empty() + assembled(items, k, "name"@) =~= assembled(
            items,
            k,
            "name"@,
        ));
        assert(Seq::<char>::empty() + assembled(items, k, "arguments"@) =~= assembled(
            items,
            k,
            "arguments"@,
        ));
    }
    assert forall|i: int| 0 <= i < calls.len() implies id_given(
        items,
        i as u64,
        (#[trigger] calls[i]).id,
    ) by {
        let k = i as u64;
        assert(k == i);
        assert(before.calls.contains_key(k));
        assert(known_call(before, k) == calls[i]);
        assert(takes_id(known_call(start, k).id, items, k, known_call(before, k).id));
        assert(calls[i].id.len() > 0);
    }
}

// ------------------------------------------------- what else a stream tells

/// The texts in a delta under a key, one after the other.
pub open spec fn texts_under(delta: Seq<(Seq<char>, JsonView)>, key: Seq<char>) -> Seq<char>
    decreases delta.len(),
{
    if delta.len() == 0 {
        Seq::empty()
    } else {
        let rest = texts_under(delta.skip(1), key);
        match delta[0].1 {
            JsonView::Text(t) => if delta[0].0 == key {
                t + rest
            } else {
                rest
            },
            _ => rest,
        }
    }
}

/// The texts in the events of a stream under a key, one after the other.
pub open spec fn received_under(events: Seq<Seq<char>>, key: Seq<char>) -> Seq<char>
    decreases events.len(),
{
    if events.len() == 0 {
        Seq::empty()
    } else {
        received_under(events.drop_last(), key) + texts_under(event_delta(events.last()), key)
    }
}

/// A text, where it is known.
pub open spec fn known_text(value: Option<Seq<char>>) -> Seq<char> {
    match value {
        Some(t) => t,
        None => Seq::empty(),
    }
}

/// The arguments that a run of events streamed.
pub open spec fn streamed_arguments(events: Seq<EventView>) -> Seq<char>
    decreases events.len(),
{
    if events.len() == 0 {
        Seq::empty()
    } else {
        match events.last() {
            EventView::ArgumentsDelta(t) => streamed_arguments(events.drop_last()) + t,
            _ => streamed_arguments(events.drop_last()),
        }
    }
}

/// The arguments in fragments of calls, one after the other.
pub open spec fn all_arguments(items: Seq<JsonView>) -> Seq<char>
    decreases items.len(),
{
    if items.len() == 0 {
        Seq::empty()
    } else {
        fragment_text(items[0], "arguments"@) + all_arguments(items.skip(1))
    }
}

/// `t` has the reasoning of `s` and then these texts, and has streamed the arguments of
/// `s` and then these.
pub open spec fn tells(
    s: DecoderView,
    t: DecoderView,
    reasoning: Seq<char>,
    content: Seq<char>,
    arguments: Seq<char>,
) -> bool {
    &&& known_text(t.reasoning) == known_text(s.reasoning) + reasoning
    &&& known_text(t.reasoning_content) == known_text(s.reasoning_content) + content
    &&& streamed_arguments(t.events) == streamed_arguments(s.events) + arguments
}

proof fn lemma_all_arguments_concat(a: Seq<JsonView>, b: Seq<JsonView>)
    ensures
        all_arguments(a + b) == all_arguments(a) + all_arguments(b),
    decreases a.len(),
{
    if a.len() == 0 {
        assert(a + b =~= b);
        assert(all_arguments(a) + all_arguments(b) =~= all_arguments(b));
    } else {
        lemma_all_arguments_concat(a.skip(1), b);
        assert((a + b).skip(1) =~= a.skip(1) + b);
        assert((a + b)[0] == a[0]);
        assert(all_arguments(a + b) =~= all_arguments(a) + all_arguments(b));
    }
}

proof fn lemma_tells_nothing(s: DecoderView)
    ensures
        tells(s, s, Seq::empty(), Seq::empty(), Seq::empty()),
{
    assert(known_text(s.reasoning) + Seq::<char>::empty() =~= known_text(s.reasoning));
    assert(known_text(s.reasoning_content) + Seq::<char>::empty() =~= known_text(
        s.reasoning_content,
    ));
    assert(streamed_arguments(s.events) + Seq::<char>::empty() =~= streamed_arguments(s.events));
}

proof fn lemma_fill_function_tells(
    call: CallView,
    events: Seq<EventView>,
    parts: Seq<(Seq<char>, JsonView)>,
)
    requires
        fill_function(call, events, parts).failure is None,
    ensures
        streamed_arguments(fill_function(call, events, parts).events) == streamed_arguments(events)
            + function_text(parts, "arguments"@),
    decreases parts.len(),
{
    reveal_strlit("name");
    reveal_strlit("arguments");
    assert("name"@.len() == 4 && "arguments"@.len() == 9);
    if parts.len() == 0 {
        assert(streamed_arguments(events) + Seq::<char>::empty() =~= streamed_arguments(events));
    } else {
        let rest = parts.skip(1);
        if let JsonView::Text(t) = parts[0].1 {
            if parts[0].0 == "name"@ {
                lemma_fill_function_tells(CallView { name: call.name + t, ..call }, events, rest);
            } else {
                let more = events.push(EventView::ArgumentsDelta(t));
                assert(more.drop_last() =~= events);
                lemma_fill_function_tells(
                    CallView { arguments: call.arguments + t, ..call },
                    more,
                    rest,
                );
                assert(streamed_arguments(events) + t + function_text(rest, "arguments"@)
                    =~= streamed_arguments(events) + (t + function_text(rest, "arguments"@)));
            }
        }
    }
}

proof fn lemma_call_step_tells(s: DecoderView, item: JsonView)
    requires
        call_step(s, item).failure is None,
    ensures
        tells(
            s,
            call_step(s, item).state,
            Seq::empty(),
            Seq::empty(),
            fragment_text(item, "arguments"@),
        ),
{
    lemma_tells_nothing(s);
    let index = json::unsigned_of(json::field(item, "index"@))->0;
    let known = known_call(s, index);
    let named = match json::field(item, "id"@) {
        Some(JsonView::Text(x)) => CallView { id: x, ..known },
        _ => known,
    };
    if let Some(JsonView::Object(parts)) = json::field(item, "function"@) {
        lemma_fill_function_tells(named, s.events, parts);
    }
}

proof fn lemma_apply_calls_tells(s: DecoderView, items: Seq<JsonView>)
    requires
        apply_calls(s, items).failure is None,
    ensures
        tells(
            s,
            apply_calls(s, items).state,
            Seq::empty(),
            Seq::empty(),
            all_arguments(items),
        ),
    decreases items.len(),
{
    lemma_tells_nothing(s);
    if items.len() > 0 {
        let first = call_step(s, items[0]);
        lemma_call_step_tells(s, items[0]);
        lemma_apply_calls_tells(first.state, items.skip(1));
        assert(streamed_arguments(s.events) + fragment_text(items[0], "arguments"@)
            + all_arguments(items.skip(1)) =~= streamed_arguments(s.events) + all_arguments(
            items,
        ));
    }
}

proof fn lemma_apply_delta_tells(s: DecoderView, delta: Seq<(Seq<char>, JsonView)>)
    requires
        apply_delta(s, delta).failure is None,
    ensures
        tells(
            s,
            apply_delta(s, delta).state,
            texts_under(delta, "reasoning"@),
            texts_under(delta, "reasoning_content"@),
            all_arguments(delta_fragments(delta)),
        ),
    decreases delta.len(),
{
    reveal_strlit("role");
    reveal_strlit("content");
    reveal_strlit("reasoning");
    reveal_strlit("reasoning_content");
    reveal_strlit("tool_calls");
    assert("role"@.len() == 4 && "content"@.len() == 7 && "reasoning"@.len() == 9);
    assert("reasoning_content"@.len() == 17 && "tool_calls"@.len() == 10);
    lemma_tells_nothing(s);
    if delta.len() > 0 {
        let rest = delta.skip(1);
        let mid = delta_step(s, delta[0].0, delta[0].1).state;
        let end = apply_delta(s, delta).state;
        lemma_apply_delta_tells(mid, rest);
        let fragments = delta_fragments(rest);
        if let JsonView::List(items) = delta[0].1 {
            lemma_apply_calls_tells(s, items);
            lemma_all_arguments_concat(items, fragments);
        }
        if let JsonView::Text(t) = delta[0].1 {
            let more = s.events.push(EventView::TextDelta(t));
            assert(more.drop_last() =~= s.events);
        }
        assert(known_text(end.reasoning) =~= known_text(s.reasoning) + texts_under(
            delta,
            "reasoning"@,
        ));
        assert(known_text(end.reasoning_content) =~= known_text(s.reasoning_content) + texts_under(
            delta,
            "reasoning_content"@,
        ));
        assert(streamed_arguments(end.events) =~= streamed_arguments(s.events) + all_arguments(
            delta_fragments(delta),
        ));
    }
}

proof fn lemma_chunk_tells(s: DecoderView, chunk: JsonView)
    requires
        chunk_step(s, chunk).failure is None,
    ensures
        tells(
            s,
            chunk_step(s, chunk).state,
            texts_under(chunk_delta(chunk), "reasoning"@),
            texts_under(chunk_delta(chunk), "reasoning_content"@),
            all_arguments(delta_fragments(chunk_delta(chunk))),
        ),
{
    let named = note_id(s, json::text_of(json::field(chunk, "id"@))).state;
    let modelled = note_model(named, json::text_of(json::field(chunk, "model"@))).state;
    let used = note_usage(modelled, json::field(chunk, "usage"@)).state;
    lemma_tells_nothing(s);
    if let Some(JsonView::List(choices)) = json::field(chunk, "choices"@) {
        if choices.len() == 1 {
            lemma_apply_delta_tells(used, chunk_delta(chunk));
        }
    }
}

/// What a stream reasons and what it streams of arguments adds up too: as long as it is
/// accepted and not done, the reasoning is what was known and the texts of the events
/// under each of its two names, in their order; and the argument deltas are the
/// arguments of all fragments, in their order.
pub proof fn law_reasoning_and_arguments_add_up(s: DecoderView, events: Seq<Seq<char>>)
    requires
        events_step(s, events).failure is None,
        !events_step(s, events).state.done,
    ensures
        tells(
            s,
            events_step(s, events).state,
            received_under(events, "reasoning"@),
            received_under(events, "reasoning_content"@),
            all_arguments(received_fragments(events)),
        ),
    decreases events.len(),
{
    if events.len() == 0 {
        lemma_tells_nothing(s);
    } else {
        let front = events.drop_last();
        let mid = events_step(s, front).state;
        let end = events_step(s, events).state;
        let data = events.last();
        law_reasoning_and_arguments_add_up(s, front);
        lemma_chunk_tells(mid, json::json_document(data)->0);
        lemma_all_arguments_concat(
            received_fragments(front),
            delta_fragments(event_delta(data)),
        );
        assert(known_text(end.reasoning) =~= known_text(s.reasoning) + received_under(
            events,
            "reasoning"@,
        ));
        assert(known_text(end.reasoning_content) =~= known_text(s.reasoning_content)
            + received_under(events, "reasoning_content"@));
        assert(streamed_arguments(end.events) =~= streamed_arguments(s.events) + all_arguments(
            received_fragments(events),
        ));
    }
}

/// A completed response carries what the stream reported: why it stopped, the usage, and
/// what was reasoned under the names that it came under, and nothing where nothing was.
pub proof fn law_response_carries_what_was_reported(s: DecoderView)
    requires
        !s.done,
        event_step(s, "[DONE]"@).failure is None,
    ensures
        ({
            let after = event_step(s, "[DONE]"@).state;
            &&& after.done
            &&& after.events.len() == s.events.len() + 1
            &&& after.events.last() matches EventView::Completed { response, usage } && {
                &&& s.finish == Some(response.finish)
                &&& usage == s.usage
                &&& s.reasoning is None && s.reasoning_content is None <==> response.continuation
                    is None
                &&& response.continuation is Some ==> {
                    let kept = response.continuation->0;
                    &&& json::text_of(json::field(kept, "reasoning"@)) == s.reasoning
                    &&& json::text_of(json::field(kept, "reasoning_content"@))
                        == s.reasoning_content
                }
            }
        }),
{
    reveal_strlit("reasoning");
    reveal_strlit("reasoning_content");
    assert("reasoning"@.len() == 9 && "reasoning_content"@.len() == 17);
    if s.reasoning is Some || s.reasoning_content is Some {
        let kept = continuation(s.reasoning, s.reasoning_content)->0;
        let entries = kept->Object_0;
        if s.reasoning is Some {
            json::lemma_key_index_is(entries, "reasoning"@, 0);
            json::lemma_key_index_is(entries, "reasoning_content"@, 1);
        } else {
            json::lemma_key_index_is(entries, "reasoning"@, 1);
            json::lemma_key_index_is(entries, "reasoning_content"@, 0);
        }
    }
}

/// `[DONE]` is refused as a stream that was cut off where no reason to stop was given, and
/// otherwise as one that breaks the protocol where a call lacks its id or its name, where
/// numbers are left out, or where there are calls and no reason for them or the other way
/// round.
pub proof fn law_incomplete_response_is_refused(s: DecoderView)
    requires
        !s.done,
    ensures
        event_step(s, "[DONE]"@).failure == Some(ProviderErrorKind::TruncatedStream) <==> s.finish
            is None,
        s.finish is Some && !calls_complete(s.calls) ==> event_step(s, "[DONE]"@).failure == Some(
            ProviderErrorKind::Protocol,
        ),
        s.finish == Some(FinishReason::Stop) && s.calls.dom().len() > 0 ==> event_step(
            s,
            "[DONE]"@,
        ).failure == Some(ProviderErrorKind::Protocol),
        s.finish == Some(FinishReason::ToolCalls) && s.calls.dom().len() == 0 ==> event_step(
            s,
            "[DONE]"@,
        ).failure == Some(ProviderErrorKind::Protocol),
        event_step(s, "[DONE]"@).failure is Some ==> event_step(s, "[DONE]"@).state == s,
        s.finish == Some(FinishReason::Length) && calls_complete(s.calls) ==> event_step(
            s,
            "[DONE]"@,
        ).failure is None,
{
}

/// Calls are complete only where each number from zero on has one with an id and a name,
/// and no two have one id.
pub proof fn law_complete_calls_are_told_apart(calls: Map<u64, CallView>, i: u64, j: u64)
    requires
        calls_complete(calls),
        i < calls.dom().len(),
        j < calls.dom().len(),
    ensures
        calls.contains_key(i),
        calls[i].id.len() > 0,
        calls[i].name.len() > 0,
        calls[i].id == calls[j].id ==> i == j,
{
}

/// What a chunk reports besides its choice is noted once: a response has one id, one
/// model and one usage, and one that reports another, or an error, is refused.
pub proof fn law_reports_are_noted_once(s: DecoderView, chunk: JsonView)
    ensures
        json::field(chunk, "error"@) is Some ==> chunk_step(s, chunk).failure == Some(
            ProviderErrorKind::Protocol,
        ),
        chunk_step(s, chunk).failure is None ==> {
            let after = chunk_step(s, chunk).state;
            let usage = json::field(chunk, "usage"@);
            &&& json::field(chunk, "error"@) is None
            &&& json::field(chunk, "id"@) matches Some(JsonView::Text(id)) ==> after.id == Some(id)
                && (s.id is None || s.id == Some(id))
            &&& json::field(chunk, "model"@) matches Some(JsonView::Text(model)) ==> after.model
                == Some(model) && (s.model is None || s.model == Some(model))
            &&& usage is None || usage == Some(JsonView::Null) ==> after.usage == s.usage
            &&& usage is Some && usage != Some(JsonView::Null) ==> {
                &&& s.usage is None
                &&& after.usage is Some
                &&& json::field(usage->0, "prompt_tokens"@) == Some(
                    JsonView::Unsigned(after.usage->0.input_tokens),
                )
                &&& json::field(usage->0, "completion_tokens"@) == Some(
                    JsonView::Unsigned(after.usage->0.output_tokens),
                )
                &&& after.usage->0.reported
            }
        },
{
    let named = note_id(s, json::text_of(json::field(chunk, "id"@))).state;
    let modelled = note_model(named, json::text_of(json::field(chunk, "model"@))).state;
    let used = note_usage(modelled, json::field(chunk, "usage"@)).state;
    if chunk_step(s, chunk).failure is None {
        if let Some(JsonView::List(choices)) = json::field(chunk, "choices"@) {
            if choices.len() == 1 {
                lemma_apply_delta_keeps_reports(used, chunk_delta(chunk));
            }
        }
    }
}

proof fn lemma_apply_calls_keeps_reports(s: DecoderView, items: Seq<JsonView>)
    ensures
        apply_calls(s, items).state.id == s.id,
        apply_calls(s, items).state.model == s.model,
        apply_calls(s, items).state.usage == s.usage,
    decreases items.len(),
{
    if items.len() > 0 {
        let first = call_step(s, items[0]);
        if first.failure is None {
            lemma_apply_calls_keeps_reports(first.state, items.skip(1));
        }
    }
}

proof fn lemma_apply_delta_keeps_reports(s: DecoderView, delta: Seq<(Seq<char>, JsonView)>)
    ensures
        apply_delta(s, delta).state.id == s.id,
        apply_delta(s, delta).state.model == s.model,
        apply_delta(s, delta).state.usage == s.usage,
    decreases delta.len(),
{
    if delta.len() > 0 {
        let first = delta_step(s, delta[0].0, delta[0].1);
        if let JsonView::List(items) = delta[0].1 {
            lemma_apply_calls_keeps_reports(s, items);
        }
        if first.failure is None {
            lemma_apply_delta_keeps_reports(first.state, delta.skip(1));
        }
    }
}

/// A chunk that is accepted ends the response with the reason that its one choice names,
/// and with none where it names none; no choice is taken after that, and no second one
/// beside it.
pub proof fn law_reason_to_stop_is_read(s: DecoderView, chunk: JsonView, choices: Seq<JsonView>)
    requires
        json::field(chunk, "choices"@) == Some(JsonView::List(choices)),
        choices.len() > 0,
        chunk_step(s, chunk).failure is None,
    ensures
        choices.len() == 1,
        s.finish is None,
        ({
            let after = chunk_step(s, chunk).state;
            let reason = json::field(choices[0], "finish_reason"@);
            &&& after.finish == Some(FinishReason::Stop) <==> reason == Some(
                JsonView::Text("stop"@),
            )
            &&& after.finish == Some(FinishReason::ToolCalls) <==> reason == Some(
                JsonView::Text("tool_calls"@),
            )
            &&& after.finish == Some(FinishReason::Length) <==> reason == Some(
                JsonView::Text("length"@),
            )
            &&& after.finish is None <==> reason is None || reason == Some(JsonView::Null)
        }),
{
    reveal_strlit("stop");
    reveal_strlit("tool_calls");
    reveal_strlit("length");
    assert("stop"@.len() == 4 && "tool_calls"@.len() == 10 && "length"@.len() == 6);
    let named = note_id(s, json::text_of(json::field(chunk, "id"@))).state;
    let modelled = note_model(named, json::text_of(json::field(chunk, "model"@))).state;
    let used = note_usage(modelled, json::field(chunk, "usage"@)).state;
    lemma_apply_delta_keeps_finish(used, chunk_delta(chunk));
}

/// A fragment of a call is refused where it has another field than a fragment may have,
/// no number, a number beyond the limit, or a kind other than a function; and the calls
/// that are known stay as they are.
pub proof fn law_bad_fragments_are_refused(
    s: DecoderView,
    entries: Seq<(Seq<char>, JsonView)>,
    i: int,
)
    ensures
        ({
            let item = JsonView::Object(entries);
            let index = json::field(item, "index"@);
            let kind = json::field(item, "type"@);
            let out = call_step(s, item);
            &&& 0 <= i < entries.len() && entries[i].0 != "index"@ && entries[i].0 != "id"@
                && entries[i].0 != "type"@ && entries[i].0 != "function"@ ==> out.failure == Some(
                ProviderErrorKind::Unsupported,
            ) && out.state == s
            &&& out.failure is None ==> {
                &&& index matches Some(JsonView::Unsigned(n)) && n < s.settings.max_tool_calls
                &&& kind is None || kind == Some(JsonView::Text("function"@))
            }
            &&& (index matches Some(JsonView::Unsigned(n)) && n >= s.settings.max_tool_calls)
                ==> out.failure is Some && out.state == s
            &&& forall|k: u64|
                index != Some(JsonView::Unsigned(k)) && #[trigger] s.calls.contains_key(k)
                    ==> out.state.calls.contains_key(k) && out.state.calls[k] == s.calls[k]
        }),
{
    if 0 <= i < entries.len() && !is_call_field(entries[i].0) {
        assert(!is_call_field(entries[i].0));
    }
}

/// A failure may be retried where the same request can go well another time: the stream
/// was cut off, the wire failed or was too slow, or there were too many requests. What
/// the answer itself breaks is not.
pub proof fn law_only_passing_failures_are_retried(kind: ProviderErrorKind)
    ensures
        outcome(None) == Ok::<(), ProviderError>(()),
        outcome(Some(kind)) matches Err(error) && error.kind == kind && (error.retryable <==> (kind
            is TruncatedStream || kind is Timeout || kind is Transport || kind is RateLimited)),
        outcome(Some(kind)) matches Err(error) && (kind is Protocol || kind is Unsupported || kind
            is ResponseLimit ==> !error.retryable),
{
}

/// A data line is held, without the space that may stand before its value; a further one
/// of the same event stands behind it on a line of its own. An empty line ends the event.
/// Remarks, ids and times to wait are passed over, and no other field is.
pub proof fn law_data_lines_make_an_event(s: DecoderView, value: Seq<u8>)
    requires
        value.len() == 0 || value[0] != 32,
    ensures
        line_step(s, seq![100u8, 97u8, 116u8, 97u8, 58u8] + value) == accept(
            DecoderView {
                data: if s.data.len() == 0 {
                    value
                } else {
                    s.data.push(10u8) + value
                },
                ..s
            },
        ),
        line_step(s, seq![100u8, 97u8, 116u8, 97u8, 58u8, 32u8] + value) == line_step(
            s,
            seq![100u8, 97u8, 116u8, 97u8, 58u8] + value,
        ),
        line_step(s, seq![58u8] + value) == accept(s),
        s.data.len() == 0 ==> line_step(s, Seq::empty()) == accept(s),
        s.data.len() > 0 && valid_utf8(s.data) ==> line_step(s, Seq::empty()) == event_step(
            DecoderView { data: Seq::empty(), ..s },
            text::trim(decode_utf8(s.data)),
        ),
        s.data.len() > 0 && !valid_utf8(s.data) ==> line_step(s, Seq::empty()).failure == Some(
            ProviderErrorKind::Protocol,
        ),
        line_step(s, value).failure is None && value.len() > 0 ==> {
            ||| value[0] == 58
            ||| value[0] == 100 && line_step(s, value).state.data.len() >= s.data.len()
            ||| (value[0] == 105 || value[0] == 114 || value[0] == 101) && line_step(s, value).state
                == s
        },
{
    reveal_strlit("data:");
    reveal_strlit(":");
    reveal_strlit("id:");
    reveal_strlit("retry:");
    reveal_strlit("event: message");
    let name = seq![100u8, 97u8, 116u8, 97u8, 58u8];
    assert(ascii_bytes("data:"@) =~= name);
    assert(ascii_bytes(":"@) =~= seq![58u8]);
    assert(ascii_bytes("id:"@)[0] == 105);
    assert(ascii_bytes("retry:"@)[0] == 114);
    assert(ascii_bytes("event: message"@)[0] == 101);
    let plain = name + value;
    let spaced = seq![100u8, 97u8, 116u8, 97u8, 58u8, 32u8] + value;
    assert(name.is_prefix_of(plain));
    assert(spaced.subrange(0, 5) =~= name);
    assert(plain.skip(5) =~= value);
    assert(spaced.skip(5) =~= seq![32u8] + value);
    assert(spaced.skip(5).skip(1) =~= value);
    let remark = seq![58u8] + value;
    assert(remark[0] == 58);
    assert(!name.is_prefix_of(remark)) by {
        assert(name[0] == 100);
    }
    assert(seq![58u8].is_prefix_of(remark));
    if value.len() > 0 {
        if name.is_prefix_of(value) {
            assert(value[0] == name[0]);
        }
        if seq![58u8].is_prefix_of(value) {
            assert(value[0] == 58);
        }
    }
}

/// Lines end at line feeds: where a decoder that holds no part of a line accepts the
/// bytes of a line and its end, it has taken in that line, without the carriage return
/// that may end it, and holds no part of a line again unless the line itself says so.
pub proof fn law_lines_are_taken_in_whole(s: DecoderView, line: Seq<u8>)
    requires
        s.line.len() == 0,
        !line.contains(10u8),
        bytes_step(s, line.push(10u8)).failure is None,
    ensures
        bytes_step(s, line.push(10u8)).state == line_step(
            s,
            if line.len() > 0 && line.last() == 13 {
                line.drop_last()
            } else {
                line
            },
        ).state,
{
    assert(s.line =~= Seq::<u8>::empty());
    assert(line =~= s.line + line);
    lemma_line_is_held(s, line);
    lemma_bytes_concat(s, line, seq![10u8]);
    assert(line + seq![10u8] =~= line.push(10u8));
    let held = bytes_step(s, line).state;
    assert(held == (DecoderView { line, ..s }));
    assert(seq![10u8].skip(1).len() == 0);
    assert(bytes_step(held, seq![10u8]).state == byte_step(held, 10u8).state) by {
        reveal_with_fuel(bytes_step, 2);
    }
    assert((DecoderView { line: Seq::empty(), ..held }) == s);
}

proof fn lemma_line_is_held(s: DecoderView, line: Seq<u8>)
    requires
        !line.contains(10u8),
        bytes_step(s, line.push(10u8)).failure is None,
    ensures
        bytes_step(s, line).failure is None,
        bytes_step(s, line).state == (DecoderView { line: s.line + line, ..s }),
    decreases line.len(),
{
    if line.len() == 0 {
        assert(s.line + line =~= s.line);
    } else {
        let whole = line.push(10u8);
        let rest = line.skip(1);
        assert(whole[0] == line[0]);
        assert(whole.skip(1) =~= rest.push(10u8));
        assert(line.contains(line[0]));
        assert forall|i: int| 0 <= i < rest.len() implies #[trigger] rest[i] != 10u8 by {
            assert(line[i + 1] == rest[i]);
            assert(line.contains(line[i + 1]));
        }
        let first = byte_step(s, line[0]);
        lemma_line_is_held(first.state, rest);
        assert(s.line.push(line[0]) + rest =~= s.line + line);
    }
}

} // verus!
