use ferrus::json::{parse_json, Json};
use ferrus::nano::private::{check, FileKind, Refusal};
use ferrus::nano::provider::{
    FinishReason, ModelResponse, ProviderError, ProviderErrorKind, ProviderEvent,
    ProviderSettings, Usage,
};
use ferrus::nano::providers::sse::{error, Decoder};

fn decoder() -> Decoder {
    Decoder::new(ProviderSettings { wire_bytes: 10_000, event_bytes: 1_000, max_tool_calls: 2 })
}

fn fails(input: &str) -> ProviderError {
    decoder().push(input.as_bytes()).unwrap_err()
}

fn delta(delta: &str) -> String {
    format!("data: {{\"choices\":[{{\"index\":0,\"delta\":{delta}}}]}}\n\n")
}

fn finish(reason: &str) -> String {
    format!(
        "data: {{\"choices\":[{{\"index\":0,\"delta\":{{}},\"finish_reason\":\"{reason}\"}}]}}\n\n"
    )
}

fn events(decoder: &mut Decoder) -> Vec<ProviderEvent> {
    let mut out = Vec::new();
    while let Some(event) = decoder.next() {
        out.push(event);
    }
    out
}

fn completed(decoder: &mut Decoder) -> (ModelResponse, Option<Usage>) {
    match events(decoder).pop() {
        Some(ProviderEvent::Completed { response, usage }) => (response, usage),
        other => panic!("expected a complete response, got {other:?}"),
    }
}

#[test]
fn streamed_text_is_assembled() {
    let mut stream = String::from(": keep-alive\r\nid: 7\nretry: 5\nevent: message\n");
    stream.push_str(&delta("{\"role\":\"assistant\",\"content\":\"Hel\"}"));
    stream.push_str(&delta("{\"content\":\"lo\",\"reasoning\":\"so\"}"));
    stream.push_str(&finish("stop"));
    stream.push_str("data: {\"choices\":[],\"usage\":{\"prompt_tokens\":3,\"completion_tokens\":2}}\n\n");
    stream.push_str("data: [DONE]\n\n");

    let mut whole = decoder();
    whole.push(stream.as_bytes()).unwrap();
    let all = events(&mut whole);
    assert_eq!(all.len(), 3);
    assert!(matches!(&all[0], ProviderEvent::TextDelta(text) if text == "Hel"));
    assert!(matches!(&all[1], ProviderEvent::TextDelta(text) if text == "lo"));
    match &all[2] {
        ProviderEvent::Completed { response, usage } => {
            assert_eq!(response.finish, FinishReason::Stop);
            assert_eq!(response.text, "Hello");
            assert!(response.calls.is_empty());
            assert_eq!(
                response.continuation,
                Some(Json::Object(vec![(
                    "reasoning".to_string(),
                    Json::Text("so".to_string())
                )]))
            );
            assert_eq!(
                *usage,
                Some(Usage { input_tokens: 3, output_tokens: 2, reported: true })
            );
        }
        other => panic!("expected a complete response, got {other:?}"),
    }

    let mut pieces = decoder();
    for byte in stream.as_bytes() {
        pieces.push(&[*byte]).unwrap();
    }
    assert_eq!(format!("{:?}", events(&mut pieces)), format!("{all:?}"));
}

#[test]
fn tool_calls_are_released_by_done_alone() {
    let mut decoder = decoder();
    decoder
        .push(
            delta(
                "{\"tool_calls\":[{\"index\":0,\"id\":\"c-1\",\"type\":\"function\",\
                 \"function\":{\"name\":\"read\",\"arguments\":\"{\\\"p\\\"\"}}]}",
            )
            .as_bytes(),
        )
        .unwrap();
    decoder
        .push(
            delta("{\"tool_calls\":[{\"index\":0,\"function\":{\"arguments\":\":1}\"}}]}")
                .as_bytes(),
        )
        .unwrap();
    decoder.push(finish("tool_calls").as_bytes()).unwrap();
    let early = events(&mut decoder);
    assert_eq!(early.len(), 2);
    assert!(early.iter().all(|event| matches!(event, ProviderEvent::ArgumentsDelta(_))));

    decoder.push(b"data: [DONE]\n\n").unwrap();
    let (response, usage) = completed(&mut decoder);
    assert_eq!(response.finish, FinishReason::ToolCalls);
    assert_eq!(response.calls.len(), 1);
    assert_eq!(response.calls[0].provider_call_id, "c-1");
    assert_eq!(response.calls[0].name, "read");
    assert_eq!(response.calls[0].arguments, "{\"p\":1}");
    assert_eq!(response.continuation, None);
    assert_eq!(usage, None);

    assert_eq!(
        decoder.push(b"data: [DONE]\n\n").unwrap_err().kind,
        ProviderErrorKind::Protocol
    );
}

#[test]
fn broken_streams_are_refused() {
    use_kind("data: [DONE]\n\n", ProviderErrorKind::TruncatedStream);
    use_kind("event: ping\n", ProviderErrorKind::Unsupported);
    use_kind("data: nonsense\n\n", ProviderErrorKind::Protocol);
    use_kind("data: {\"error\":{}}\n\n", ProviderErrorKind::Protocol);
    use_kind("data: {\"choices\":[]}\n\n", ProviderErrorKind::Protocol);
    use_kind("data: {}\n\n", ProviderErrorKind::Protocol);
    use_kind("data: {\"choices\":[{\"index\":1,\"delta\":{}}]}\n\n", ProviderErrorKind::Unsupported);
    use_kind("data: {\"choices\":[{\"index\":0}]}\n\n", ProviderErrorKind::Protocol);
    use_kind(&delta("{\"role\":\"user\"}"), ProviderErrorKind::Unsupported);
    use_kind(&delta("{\"content\":7}"), ProviderErrorKind::Unsupported);
    use_kind(&delta("{\"audio\":\"x\"}"), ProviderErrorKind::Unsupported);
    use_kind(&delta("{\"tool_calls\":[{\"index\":2}]}"), ProviderErrorKind::ResponseLimit);
    use_kind(&delta("{\"tool_calls\":[{\"index\":0,\"more\":1}]}"), ProviderErrorKind::Unsupported);
    use_kind(&finish("content_filter"), ProviderErrorKind::Unsupported);
    use_kind(
        &format!("{}data: [DONE]\n\n", finish("tool_calls")),
        ProviderErrorKind::Protocol,
    );
    use_kind(
        "data: {\"id\":\"a\",\"choices\":[{\"index\":0,\"delta\":{}}]}\n\n\
         data: {\"id\":\"b\",\"choices\":[{\"index\":0,\"delta\":{}}]}\n\n",
        ProviderErrorKind::Protocol,
    );
    assert_eq!(
        decoder().push(b"data: \xff\n\n").unwrap_err().kind,
        ProviderErrorKind::Protocol
    );
}

fn use_kind(input: &str, kind: ProviderErrorKind) {
    assert_eq!(fails(input).kind, kind, "{input}");
}

#[test]
fn empty_deltas_change_nothing() {
    let mut decoder = decoder();
    decoder.push(delta("{\"content\":null,\"unknown\":null}").as_bytes()).unwrap();
    assert!(decoder.next().is_none());
    decoder.push(finish("length").as_bytes()).unwrap();
    decoder.push(b"data: [DONE]\n\n").unwrap();
    let (response, _) = completed(&mut decoder);
    assert_eq!(response.finish, FinishReason::Length);
    assert_eq!(response.text, "");
}

#[test]
fn parsed_chunks_and_events_are_taken_in() {
    let mut decoder = decoder();
    let chunk = parse_json("{\"choices\":[{\"index\":0,\"delta\":{\"content\":\"x\"}}]}").unwrap();
    decoder.apply_chunk(&chunk).unwrap();
    assert!(matches!(decoder.next(), Some(ProviderEvent::TextDelta(text)) if text == "x"));
    assert_eq!(
        decoder.apply_chunk(&Json::Null).unwrap_err().kind,
        ProviderErrorKind::Protocol
    );
    assert_eq!(
        decoder.event("[DONE]").unwrap_err().kind,
        ProviderErrorKind::TruncatedStream
    );
}

#[test]
fn streams_are_bounded() {
    let mut small = Decoder::new(ProviderSettings {
        wire_bytes: 8,
        event_bytes: 100,
        max_tool_calls: 1,
    });
    small.push(b": 345678").unwrap();
    assert_eq!(small.push(b"9").unwrap_err().kind, ProviderErrorKind::ResponseLimit);

    let mut short = Decoder::new(ProviderSettings {
        wire_bytes: 100,
        event_bytes: 8,
        max_tool_calls: 1,
    });
    assert_eq!(short.push(b": 3456789").unwrap_err().kind, ProviderErrorKind::ResponseLimit);
}

#[test]
fn only_some_failures_may_be_retried() {
    for kind in [
        ProviderErrorKind::TruncatedStream,
        ProviderErrorKind::Timeout,
        ProviderErrorKind::Transport,
        ProviderErrorKind::RateLimited,
    ] {
        assert!(error(kind).retryable);
    }
    for kind in [
        ProviderErrorKind::Protocol,
        ProviderErrorKind::Unsupported,
        ProviderErrorKind::ResponseLimit,
    ] {
        assert!(!error(kind).retryable);
    }
}

#[test]
fn session_storage_belongs_to_its_owner() {
    assert_eq!(check(FileKind::File, false, 1000, 1000, 0o100600), Ok(()));
    assert_eq!(check(FileKind::Directory, true, 1000, 1000, 0o40700), Ok(()));
    assert_eq!(
        check(FileKind::File, false, 1000, 1000, 0o100640),
        Err(Refusal::NotOwnerOnly)
    );
    assert_eq!(check(FileKind::File, false, 0, 1000, 0o100600), Err(Refusal::NotOwnerOnly));
    assert_eq!(check(FileKind::Other, false, 1000, 1000, 0o120600), Err(Refusal::WrongKind));
    assert_eq!(Refusal::WrongKind.message(), "Unexpected session storage file type");
    assert_eq!(Refusal::NotOwnerOnly.message(), "Session storage must be owner-only");
}

#[test]
fn calls_are_put_together_from_their_fragments() {
    let fragment = |index: u64, start: &str, name: &str, arguments: &str| -> String {
        format!(
            "{{\"choices\":[{{\"index\":0,\"delta\":{{\"tool_calls\":[{{\"index\":{index},{start}\
             \"function\":{{\"name\":\"{name}\",\"arguments\":\"{arguments}\"}}}}]}}}}]}}"
        )
    };
    let mut decoder = decoder();
    for data in [
        fragment(1, "\"id\":\"b\",", "wr", "x"),
        fragment(0, "\"id\":\"a\",", "re", "1"),
        fragment(1, "", "ite", "y"),
        fragment(0, "", "ad", "23"),
        "{\"choices\":[{\"index\":0,\"delta\":{\"content\":\"so\"},\"finish_reason\":\"tool_calls\"}]}"
            .to_string(),
        "[DONE]".to_string(),
    ] {
        decoder.event(&data).unwrap();
    }
    let (response, _) = completed(&mut decoder);
    assert_eq!(response.text, "so");
    assert_eq!(response.calls.len(), 2);
    assert_eq!(response.calls[0].name, "read");
    assert_eq!(response.calls[0].arguments, "123");
    assert_eq!(response.calls[1].name, "write");
    assert_eq!(response.calls[1].arguments, "xy");
}

#[test]
fn pieces_are_refused_as_the_whole_is() {
    let stream = format!("{}{}", delta("{\"content\":\"a\"}"), delta("{\"audio\":1}"));
    let whole = decoder().push(stream.as_bytes()).unwrap_err();
    for cut in 0..stream.len() {
        let mut decoder = decoder();
        let outcome = decoder
            .push(stream[..cut].as_bytes())
            .and_then(|()| decoder.push(stream[cut..].as_bytes()));
        assert_eq!(outcome.unwrap_err().kind, whole.kind);
    }
}
