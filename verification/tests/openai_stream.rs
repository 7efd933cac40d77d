use ai_runtime::llm::openai::{
    active_stream_task_count, check_status, event_data, find_event_boundary, map_reqwest_error,
    parse_openai_event, HttpChatRequest, LatencyMetrics, OpenAiChoice, OpenAiConfig, OpenAiStream,
    OpenAiStreamChunk, ParsedOpenAiEvent, SseDecoder, StreamNeed, StreamRead, StreamStep,
};
use ai_runtime::llm::StatusCode;
use ai_runtime::streams::StreamCounter;
use ai_runtime::{ChatMessage, ChatRequest, Duration, LlmError, TokenEvent};

/// Reads a payload as a chunk.
fn read_chunk(data: &str) -> Result<OpenAiStreamChunk, String> {
    let value: serde_json::Value = serde_json::from_str(data).map_err(|error| error.to_string())?;
    let choices = value["choices"].as_array().ok_or("missing field `choices`".to_string())?;
    Ok(OpenAiStreamChunk {
        choices: choices
            .iter()
            .map(|choice| OpenAiChoice {
                content: choice["delta"]["content"].as_str().map(str::to_string),
                finished: !choice["finish_reason"].is_null(),
            })
            .collect(),
    })
}

/// Runs a stream over reads until it ends.
fn run(reads: Vec<StreamRead>) -> (Vec<TokenEvent>, Result<(), LlmError>) {
    let mut stream = OpenAiStream::new();
    let mut reads = reads.into_iter();
    let mut events = Vec::new();
    loop {
        match stream.next() {
            Err(error) => return (events, Err(error)),
            Ok(StreamNeed::Chunk(data)) => match stream.on_chunk(&data, read_chunk(&data)) {
                Err(error) => return (events, Err(error)),
                Ok(StreamStep::Token { event, .. }) => events.push(event),
                Ok(StreamStep::Finish { event }) => {
                    events.push(event);
                    return (events, Ok(()));
                }
                Ok(StreamStep::Skip) => {}
            },
            Ok(StreamNeed::Bytes) => {
                match stream.on_read(reads.next().unwrap_or(StreamRead::End)) {
                    Err(error) => return (events, Err(error)),
                    Ok(true) => {}
                    Ok(false) => return (events, Ok(())),
                }
            }
        }
    }
}

fn tokens(events: &[TokenEvent]) -> Vec<String> {
    events
        .iter()
        .filter_map(|event| match event {
            TokenEvent::Token { text } => Some(text.clone()),
            _ => None,
        })
        .collect()
}

fn sse_chunk(content: &str) -> String {
    format!(
        "data: {{\"choices\":[{{\"delta\":{{\"content\":{}}},\"finish_reason\":null}}]}}\n\n",
        serde_json::Value::String(content.to_string())
    )
}

fn bytes(text: &str) -> StreamRead {
    StreamRead::Bytes(text.as_bytes().to_vec())
}

#[test]
fn complete_chunks_stream_tokens_and_done() {
    let body = [sse_chunk("Hello"), sse_chunk(" world"), "data: [DONE]\n\n".to_string()].join("");

    let (events, result) = run(vec![bytes(&body)]);

    result.expect("stream should succeed");
    assert_eq!(tokens(&events), vec!["Hello", " world"]);
    assert_eq!(events.len(), 3);
    assert!(matches!(events[2], TokenEvent::Done));
}

#[test]
fn partial_chunks_across_tcp_reads_are_reassembled() {
    let chunk = sse_chunk("split-token");
    let split_at = chunk.find("split").expect("fixture should contain split");

    let (events, result) = run(vec![
        bytes(&chunk[..split_at]),
        bytes(&chunk[split_at..]),
        bytes("data: [DONE]\n\n"),
    ]);

    result.expect("stream should succeed");
    assert_eq!(tokens(&events), vec!["split-token"]);
    assert_eq!(events.len(), 2);
    assert!(matches!(events[1], TokenEvent::Done));
}

#[test]
fn malformed_chunks_return_typed_error_without_panic() {
    let (events, result) = run(vec![bytes("data: {not-json}\n\n")]);

    assert!(events.is_empty());
    match result {
        Err(LlmError::MalformedSse { message }) => {
            assert!(message.starts_with("invalid OpenAI-compatible JSON event: "));
            assert!(message.ends_with("; data=\"{not-json}\""));
        }
        other => panic!("malformed chunk should be an error: {other:?}"),
    }
}

#[test]
fn provider_timeout_returns_typed_error() {
    let (events, result) = run(vec![StreamRead::Failed {
        timed_out: true,
        message: "late".to_string(),
    }]);

    assert!(events.is_empty());
    assert!(matches!(result, Err(LlmError::ProviderTimeout)));
}

#[test]
fn dropping_stream_mid_response_cancels_provider_task() {
    let mut tasks = StreamCounter::new();
    assert_eq!(active_stream_task_count(&tasks), 0);
    tasks.start();
    assert_eq!(active_stream_task_count(&tasks), 1);

    let (events, _) = run(vec![bytes(&sse_chunk("first"))]);
    assert_eq!(tokens(&events), vec!["first"]);

    tasks.finish();
    assert_eq!(active_stream_task_count(&tasks), 0);
}

#[test]
fn every_split_of_a_stream_gives_the_same_events() {
    let body = [sse_chunk("a"), ": comment\r\n\r\n".to_string(), sse_chunk("b\u{e9}")].join("");
    let all = body.as_bytes();
    for at in 0..=all.len() {
        let (events, result) = run(vec![
            StreamRead::Bytes(all[..at].to_vec()),
            StreamRead::Bytes(all[at..].to_vec()),
        ]);
        result.expect("stream should succeed");
        assert_eq!(tokens(&events), vec!["a", "b\u{e9}"]);
    }
}

#[test]
fn stream_that_ends_within_an_event_is_an_error() {
    let (_, result) = run(vec![bytes("data: [DO")]);
    assert!(matches!(result, Err(LlmError::IncompleteSseEvent)));

    let (events, result) = run(Vec::new());
    assert!(events.is_empty());
    assert!(result.is_ok());
}

#[test]
fn read_that_fails_is_a_request_error() {
    let (_, result) = run(vec![StreamRead::Failed {
        timed_out: false,
        message: "reset".to_string(),
    }]);
    match result {
        Err(error) => {
            assert!(matches!(&error, LlmError::ProviderRequest(message) if message == "reset"));
            assert_eq!(error.message(), "provider request failed: reset");
        }
        Ok(()) => panic!("a failed read should be an error"),
    }
    assert!(matches!(
        map_reqwest_error(true, String::new()),
        LlmError::ProviderTimeout
    ));
}

#[test]
fn first_token_is_marked_once() {
    let mut stream = OpenAiStream::new();
    stream
        .on_read(bytes(&[sse_chunk("x"), sse_chunk("y")].join("")))
        .expect("bytes should be taken");
    let mut firsts = Vec::new();
    while let Ok(StreamNeed::Chunk(data)) = stream.next() {
        if let Ok(StreamStep::Token { first, .. }) = stream.on_chunk(&data, read_chunk(&data)) {
            firsts.push(first);
        }
    }
    assert_eq!(firsts, vec![true, false]);
}

#[test]
fn event_boundaries_are_blank_lines() {
    assert_eq!(find_event_boundary(&b"a\n\nb".to_vec()), Some((1, 2)));
    assert_eq!(find_event_boundary(&b"a\r\n\r\nb".to_vec()), Some((1, 4)));
    assert_eq!(find_event_boundary(&b"a\n\r\n".to_vec()), None);
    assert_eq!(find_event_boundary(&b"\n".to_vec()), None);
    assert_eq!(find_event_boundary(&Vec::new()), None);
}

#[test]
fn event_data_joins_data_lines_and_drops_the_rest() {
    let data = |raw: &str| event_data(raw).expect("event data cannot fail");
    assert_eq!(data("data: a\ndata:b"), Some("a\nb".to_string()));
    assert_eq!(data("event: x\n: comment\ndata:  c\r\n"), Some(" c".to_string()));
    assert_eq!(data("data:"), Some(String::new()));
    assert_eq!(data("id: 1\n"), None);
    assert_eq!(data(""), None);
}

#[test]
fn decoder_replaces_invalid_utf8() {
    let mut decoder = SseDecoder::new();
    assert!(!decoder.has_incomplete_event());
    decoder.push(b"data: \xff\n\ndata: q");
    assert!(decoder.has_incomplete_event());
    assert_eq!(
        decoder.next_data().expect("next data cannot fail"),
        Some("\u{fffd}".to_string())
    );
    assert_eq!(decoder.next_data().expect("next data cannot fail"), None);
}

#[test]
fn chunks_come_to_tokens_ends_and_nothing() {
    let choice = |content: Option<&str>, finished: bool| OpenAiChoice {
        content: content.map(str::to_string),
        finished,
    };
    let parse = |choices: Vec<OpenAiChoice>| {
        parse_openai_event("{}", Ok(OpenAiStreamChunk { choices })).expect("chunk should parse")
    };
    assert!(matches!(parse(Vec::new()), ParsedOpenAiEvent::Ignored));
    assert!(matches!(parse(vec![choice(None, false)]), ParsedOpenAiEvent::Ignored));
    assert!(matches!(parse(vec![choice(Some(""), true)]), ParsedOpenAiEvent::Done));
    assert!(matches!(
        parse(vec![choice(Some("t"), true), choice(Some("u"), false)]),
        ParsedOpenAiEvent::Token(text) if text == "t"
    ));
    assert!(matches!(
        parse_openai_event("[DONE]", Err("ignored".to_string())),
        Ok(ParsedOpenAiEvent::Done)
    ));
}

#[test]
fn request_takes_its_own_timeout_and_the_trimmed_address() {
    let config = OpenAiConfig::new("http://host/v1//", "test-key");
    assert_eq!(config.timeout.as_secs(), 30);
    assert_eq!(config.stream_buffer_capacity, 8);
    assert_eq!(config.channel_capacity(), 8);
    assert_eq!(config.chat_completions_url(), "http://host/v1/chat/completions");

    let request = ChatRequest::new("test-model", vec![ChatMessage::user("hello")]);
    let http = HttpChatRequest::new(&config, request.with_timeout(Duration::from_millis(50)));
    assert_eq!(http.url, "http://host/v1/chat/completions");
    assert_eq!(http.api_key, "test-key");
    assert_eq!(http.timeout.as_millis(), 50);
    assert!(http.body.stream);
    assert_eq!(http.body.model, "test-model");
    assert_eq!(http.body.messages[0].content, "hello");

    let mut narrow = OpenAiConfig::new("u", "k");
    narrow.stream_buffer_capacity = 0;
    assert_eq!(narrow.channel_capacity(), 1);
}

#[test]
fn refused_requests_tell_status_and_body() {
    let status = |code: u16, text: &str| StatusCode { code, text: text.to_string() };
    assert!(check_status(status(200, "200 OK"), String::new()).is_ok());
    assert!(check_status(status(299, "299"), String::new()).is_ok());
    match check_status(status(404, "404 Not Found"), "gone".to_string()) {
        Err(error) => {
            assert_eq!(error.message(), "provider returned HTTP 404 Not Found: gone");
        }
        Ok(()) => panic!("a refused request should be an error"),
    }
    assert_eq!(LlmError::ProviderTimeout.message(), "provider request timed out");
    assert_eq!(
        LlmError::IncompleteSseEvent.message(),
        "stream ended with an incomplete SSE event"
    );
    assert_eq!(
        LlmError::MalformedSse { message: "m".to_string() }.message(),
        "malformed SSE chunk: m"
    );
}

#[test]
fn first_token_latency_median_is_the_lower_one() {
    let mut metrics = LatencyMetrics::new();
    metrics.record_first_token_latency(Duration::from_millis(40));
    metrics.record_first_token_latency(Duration::from_millis(10));
    metrics.record_first_token_latency(Duration::from_millis(30));
    let log = metrics.record_first_token_latency(Duration::from_millis(20));
    assert_eq!(log.samples, 4);
    assert_eq!(log.latency_ms, 20);
    assert_eq!(log.p50_ms, 20);
}
