use std::time::Instant;

use ai_runtime::llm::StatusCode;
use ai_runtime::streams::{ActiveStreamLease, StreamCounter};
use ai_runtime::voice::deepgram::listen::{
    await_stt_sender, connect_error, connected, optional_ms, AudioSender, ListenAction,
    ListenInput, ListenOutput, ListenSession, SenderAction, SenderEnd, SenderInput,
};
use ai_runtime::voice::deepgram::request::listen_request;
use ai_runtime::voice::deepgram::speak::{
    truncate_tts_input, SpeakAction, SpeakInput, SpeakStream,
};
use ai_runtime::voice::deepgram::timing::SentAudioTiming;
use ai_runtime::voice::deepgram::transcript::{
    join_transcript_segments, DeepgramAlternative, DeepgramChannel, DeepgramListenMessage,
    DeepgramTranscriptState,
};
use ai_runtime::voice::deepgram::DeepgramEnv;
use ai_runtime::{
    active_deepgram_stt_stream_count, active_deepgram_tts_stream_count, AudioChunk,
    DeepgramConfig, DeepgramSpeechToText, DeepgramTextToSpeech, SttError, SttResult,
    TranscriptEvent, TtsEvent,
};

/// Reads a text as a message.
fn read_message(data: &str) -> Result<DeepgramListenMessage, String> {
    let value: serde_json::Value = serde_json::from_str(data).map_err(|error| error.to_string())?;
    Ok(DeepgramListenMessage {
        kind: value["type"].as_str().map(str::to_string),
        is_final: value["is_final"].as_bool(),
        speech_final: value["speech_final"].as_bool(),
        from_finalize: value["from_finalize"].as_bool(),
        channel: value["channel"]["alternatives"].as_array().map(|alternatives| DeepgramChannel {
            alternatives: alternatives
                .iter()
                .map(|alternative| DeepgramAlternative {
                    transcript: alternative["transcript"].as_str().unwrap_or("").to_string(),
                })
                .collect(),
        }),
    })
}

fn ingest(
    state: &mut DeepgramTranscriptState,
    data: &str,
    elapsed_ms: u128,
) -> SttResult<Vec<TranscriptEvent>> {
    let message = read_message(data);
    state.ingest(data, message.as_ref().map_err(|error| error.clone()), elapsed_ms)
}

fn config() -> DeepgramConfig {
    DeepgramConfig::new("test-key")
}

#[test]
fn transcript_state_maps_interim_and_speech_final_events() {
    let mut state = DeepgramTranscriptState::new();

    let events = ingest(
        &mut state,
        r#"{"type":"Results","is_final":false,"speech_final":false,"channel":{"alternatives":[{"transcript":"hello wor"}]}}"#,
        10,
    )
    .expect("interim event should parse");
    assert_eq!(
        events,
        vec![TranscriptEvent::Partial {
            text: "hello wor".to_string(),
            elapsed_ms: 10,
        }]
    );

    let events = ingest(
        &mut state,
        r#"{"type":"Results","is_final":true,"speech_final":true,"channel":{"alternatives":[{"transcript":"hello world"}]}}"#,
        30,
    )
    .expect("final event should parse");
    assert_eq!(
        events,
        vec![TranscriptEvent::Final {
            text: "hello world".to_string(),
            elapsed_ms: 30,
        }]
    );
    assert_eq!(state.finish(40), None);
}

#[test]
fn transcript_state_combines_final_segments_until_speech_final() {
    let mut state = DeepgramTranscriptState::new();

    let first = ingest(
        &mut state,
        r#"{"type":"Results","is_final":true,"speech_final":false,"channel":{"alternatives":[{"transcript":"first segment"}]}}"#,
        10,
    )
    .expect("first segment should parse");
    assert_eq!(
        first,
        vec![TranscriptEvent::Partial {
            text: "first segment".to_string(),
            elapsed_ms: 10,
        }]
    );

    let second = ingest(
        &mut state,
        r#"{"type":"Results","is_final":true,"speech_final":true,"channel":{"alternatives":[{"transcript":"second segment"}]}}"#,
        20,
    )
    .expect("second segment should parse");
    assert_eq!(
        second,
        vec![TranscriptEvent::Final {
            text: "first segment second segment".to_string(),
            elapsed_ms: 20,
        }]
    );
}

#[test]
fn tts_input_truncates_to_max_chars() {
    let input = "abcdef".to_string();

    assert_eq!(truncate_tts_input(input, 5), "ab...");
}

#[test]
fn transcript_state_finalizes_buffer_on_stream_finish() {
    let mut state = DeepgramTranscriptState::new();

    ingest(
        &mut state,
        r#"{"type":"Results","is_final":true,"speech_final":false,"channel":{"alternatives":[{"transcript":"buffered final"}]}}"#,
        10,
    )
    .expect("buffered final should parse");

    assert_eq!(
        state.finish(50),
        Some(TranscriptEvent::Final {
            text: "buffered final".to_string(),
            elapsed_ms: 50,
        })
    );
}

#[test]
fn transcript_state_promotes_latest_interim_on_stream_finish() {
    let mut state = DeepgramTranscriptState::new();

    ingest(
        &mut state,
        r#"{"type":"Results","is_final":false,"speech_final":false,"channel":{"alternatives":[{"transcript":"latest interim"}]}}"#,
        10,
    )
    .expect("interim should parse");

    assert_eq!(
        state.finish(50),
        Some(TranscriptEvent::Final {
            text: "latest interim".to_string(),
            elapsed_ms: 50,
        })
    );
}

#[test]
fn dropping_stt_stream_aborts_active_task() {
    let mut streams = StreamCounter::new();
    let stt = DeepgramSpeechToText::new(config().with_listen_url("ws://127.0.0.1:1/v1/listen"));
    assert_eq!(stt.config().listen_url, "ws://127.0.0.1:1/v1/listen");
    assert_eq!(stt.config().channel_capacity(), 8);
    let mut lease = ActiveStreamLease::new(&mut streams);
    assert_eq!(active_deepgram_stt_stream_count(&streams), 1);
    lease.release(&mut streams);
    assert_eq!(active_deepgram_stt_stream_count(&streams), 0);
}

#[test]
fn dropping_tts_stream_aborts_active_task() {
    let mut streams = StreamCounter::new();
    let tts = DeepgramTextToSpeech::new(config().with_speak_url("http://127.0.0.1:1/v1/speak"));
    assert_eq!(tts.config().speak_url, "http://127.0.0.1:1/v1/speak");
    let mut lease = ActiveStreamLease::new(&mut streams);
    assert_eq!(active_deepgram_tts_stream_count(&streams), 1);
    lease.release(&mut streams);
    assert_eq!(active_deepgram_tts_stream_count(&streams), 0);
}

#[test]
fn transcript_state_ignores_what_tells_nothing() {
    let mut state = DeepgramTranscriptState::new();
    for data in [
        r#"{"type":"Metadata","channel":{"alternatives":[{"transcript":"x"}]}}"#,
        r#"{"type":"Results","channel":{"alternatives":[]}}"#,
        r#"{"type":"Results","channel":{"alternatives":[{"transcript":""}]}}"#,
        r#"{}"#,
        r#"{"from_finalize":true}"#,
    ] {
        assert_eq!(ingest(&mut state, data, 1).expect("message should parse"), Vec::new());
    }
    assert_eq!(state.finish(2), None);
}

#[test]
fn transcript_state_ends_on_finalize_once() {
    let mut state = DeepgramTranscriptState::new();
    ingest(
        &mut state,
        r#"{"is_final":true,"channel":{"alternatives":[{"transcript":" a "}]}}"#,
        1,
    )
    .expect("segment should parse");
    let finalize = r#"{"from_finalize":true}"#;
    assert_eq!(
        ingest(&mut state, finalize, 2).expect("finalize should parse"),
        vec![TranscriptEvent::Final { text: "a".to_string(), elapsed_ms: 2 }]
    );
    assert_eq!(ingest(&mut state, finalize, 3).expect("finalize should parse"), Vec::new());
    assert_eq!(state.finish(4), None);
}

#[test]
fn unreadable_messages_are_errors() {
    let mut state = DeepgramTranscriptState::new();
    match ingest(&mut state, "{", 1) {
        Err(SttError::Backend(message)) => {
            assert!(message.starts_with("invalid Deepgram transcript JSON: "));
            assert!(message.ends_with("; data=\"{\""));
        }
        Ok(events) => panic!("an unreadable message should be an error: {events:?}"),
    }
}

#[test]
fn segments_are_joined_without_white_space_around_them() {
    let segments = vec![" a ".to_string(), "  ".to_string(), "b".to_string()];
    assert_eq!(join_transcript_segments(&segments, " c"), "a b c");
    assert_eq!(join_transcript_segments(&segments, " "), "a b");
    assert_eq!(join_transcript_segments(&Vec::new(), " c "), "c");
}

#[test]
fn truncation_keeps_the_limit() {
    let cut = |max: usize| truncate_tts_input("abcdef".to_string(), max);
    assert_eq!(cut(0), "");
    assert_eq!(cut(2), "");
    assert_eq!(cut(3), "...");
    assert_eq!(cut(6), "abcdef");
    assert_eq!(truncate_tts_input("\u{e9}\u{e9}\u{e9}\u{e9}\u{e9}".to_string(), 4), "\u{e9}...");
}

#[test]
fn configuration_comes_from_the_environment() {
    let env = |key: Option<&str>, max: Option<&str>| DeepgramEnv {
        api_key: key.map(str::to_string),
        listen_url: Some("ws://l".to_string()),
        speak_url: None,
        tts_max_chars: max.map(str::to_string),
    };
    let config = DeepgramConfig::from_env(env(Some("k"), Some("12"))).expect("config");
    assert_eq!(config.api_key, "k");
    assert_eq!(config.listen_url, "ws://l");
    assert!(config.speak_url.starts_with("https://api.deepgram.com/v1/speak?model=aura-2-thalia-en"));
    assert_eq!(config.tts_max_chars, 12);
    assert_eq!(config.timeout.as_secs(), 30);
    assert_eq!(
        DeepgramConfig::from_env(env(Some("k"), None)).expect("config").tts_max_chars,
        1_800
    );
    match DeepgramConfig::from_env(env(None, Some("0"))) {
        Err(error) => assert_eq!(error.message(), "DEEPGRAM_API_KEY must be set"),
        Ok(_) => panic!("a key is needed"),
    }
    match DeepgramConfig::from_env(env(Some("k"), Some("0"))) {
        Err(error) => assert_eq!(
            error.message(),
            "DEEPGRAM_TTS_MAX_CHARS must be a positive integer, got \"0\""
        ),
        Ok(_) => panic!("zero is not positive"),
    }
}

#[test]
fn listen_requests_check_the_address_and_the_key() {
    let request = listen_request(&config()).expect("request");
    assert_eq!(request.authorization, "Token test-key");
    assert!(request.url.starts_with("wss://api.deepgram.com/v1/listen?model=nova-3"));

    match listen_request(&config().with_listen_url("not an address")) {
        Err(SttError::Backend(message)) => {
            assert!(message.starts_with("invalid Deepgram listen URL: "));
            assert!(message.len() > "invalid Deepgram listen URL: ".len());
        }
        Ok(request) => panic!("the address should be refused: {request:?}"),
    }
    match listen_request(&DeepgramConfig::new("a\nb")) {
        Err(SttError::Backend(message)) => {
            assert_eq!(message, "invalid Deepgram auth header: failed to parse header value")
        }
        Ok(request) => panic!("the key should be refused: {request:?}"),
    }
    assert!(listen_request(&DeepgramConfig::new("a\tb\u{e9}")).is_ok());
}

fn chunk(bytes: &[u8], elapsed_ms: u128, speech: bool) -> AudioChunk {
    AudioChunk::new(bytes.to_vec()).with_elapsed_ms(elapsed_ms).with_is_speech(speech)
}

fn sent(outcome: Result<(), &str>) -> SenderInput {
    SenderInput::Sent {
        outcome: outcome.map_err(str::to_string),
        sent_at: Instant::now(),
    }
}

#[test]
fn audio_is_sent_and_then_ended() {
    let mut timing = SentAudioTiming::new();
    assert_eq!(connected(&mut timing, 9), "deepgram_connected elapsed_ms=9");
    let mut sender = AudioSender::new();

    let step = sender.step(&mut timing, SenderInput::Audio(Some(AudioChunk::new(Vec::new()))), 1);
    assert!(matches!(step.action, SenderAction::NextAudio));

    let step = sender.step(&mut timing, SenderInput::Audio(Some(chunk(&[1, 2], 20, true))), 2);
    assert!(matches!(step.action, SenderAction::SendBinary(bytes) if bytes == vec![1, 2]));
    assert!(timing.can_record(20));
    let step = sender.step(&mut timing, sent(Ok(())), 3);
    assert_eq!(
        step.trace.as_deref(),
        Some("deepgram_first_audio_sent stream_elapsed_ms=3 audio_elapsed_ms=20")
    );
    sender.step(&mut timing, SenderInput::Audio(Some(chunk(&[3], 50, false))), 4);
    let step = sender.step(&mut timing, sent(Ok(())), 5);
    assert_eq!(step.trace, None);

    let step = sender.step(&mut timing, SenderInput::Audio(None), 6);
    assert_eq!(step.trace.as_deref(), Some("deepgram_audio_input_ended elapsed_ms=6"));
    assert!(matches!(step.action, SenderAction::SendText(text) if text == r#"{"type":"Finalize"}"#));
    assert!(timing.millis_since_finalize().is_none());
    let step = sender.step(&mut timing, sent(Ok(())), 7);
    assert_eq!(step.trace.as_deref(), Some("deepgram_finalize_sent elapsed_ms=7"));
    assert!(
        matches!(step.action, SenderAction::SendText(text) if text == r#"{"type":"CloseStream"}"#)
    );
    let step = sender.step(&mut timing, sent(Ok(())), 8);
    assert!(matches!(step.action, SenderAction::Finish(Ok(()))));

    assert!(timing.millis_since_finalize().is_some());
    assert!(timing.millis_since_latest().is_some());
    assert_eq!(timing.stt_elapsed_ms(4, 99), 54);
    let breakdown = timing.stt_timing_breakdown(60, Some(3));
    assert_eq!(breakdown.speech_audio_ms, 20);
    assert_eq!(breakdown.total_silence_ms, 30);
    assert_eq!(breakdown.vad_silence_ms, 30);
    assert_eq!(breakdown.audio_duration_ms, 50);
    assert_eq!(breakdown.deepgram_connect_ms, Some(9));
    assert_eq!(breakdown.first_interim_ms, None);
    assert_eq!(breakdown.finalize_to_final_ms, Some(3));
    assert_eq!(breakdown.final_emitted_ms, 60);
}

#[test]
fn sending_names_what_failed() {
    let failure = |steps: Vec<SenderInput>| {
        let mut timing = SentAudioTiming::new();
        let mut sender = AudioSender::new();
        let mut last = None;
        for input in steps {
            last = Some(sender.step(&mut timing, input, 1).action);
        }
        match last {
            Some(SenderAction::Finish(Err(SttError::Backend(message)))) => message,
            other => panic!("sending should fail: {other:?}"),
        }
    };
    assert_eq!(
        failure(vec![SenderInput::Audio(Some(chunk(&[1], 1, true))), sent(Err("x"))]),
        "Deepgram audio send failed: x"
    );
    assert_eq!(
        failure(vec![SenderInput::Audio(None), sent(Err("x"))]),
        "Deepgram finalize send failed: x"
    );
    assert_eq!(
        failure(vec![SenderInput::Audio(None), sent(Ok(())), sent(Err("x"))]),
        "Deepgram close send failed: x"
    );
}

fn text(data: &str) -> ListenInput {
    ListenInput::Text { data: data.to_string(), message: read_message(data) }
}

fn lines(output: &[ListenOutput]) -> Vec<String> {
    output
        .iter()
        .map(|item| match item {
            ListenOutput::Trace(line) => line.clone(),
            ListenOutput::Event(event) => format!("{event:?}"),
        })
        .collect()
}

#[test]
fn transcription_tells_its_breakdown_before_its_final() {
    let mut timing = SentAudioTiming::new();
    let mut session = ListenSession::new();

    let step = session.step(
        &mut timing,
        text(r#"{"is_final":false,"channel":{"alternatives":[{"transcript":"hel"}]}}"#),
        10,
        None,
    );
    assert!(matches!(step.action, ListenAction::Read));
    assert_eq!(
        lines(&step.output),
        vec![
            "deepgram_first_interim elapsed_ms=10 transcript_chars=3".to_string(),
            "Partial { text: \"hel\", elapsed_ms: 10 }".to_string(),
        ]
    );

    let step = session.step(&mut timing, ListenInput::Other, 11, None);
    assert!(step.output.is_empty());

    let step = session.step(
        &mut timing,
        text(
            r#"{"is_final":true,"speech_final":true,"channel":{"alternatives":[{"transcript":"hello"}]}}"#,
        ),
        30,
        Some(5),
    );
    assert_eq!(
        lines(&step.output),
        vec![
            "deepgram_speech_final elapsed_ms=30 is_final=true transcript_chars=5".to_string(),
            "stt_breakdown speech_audio_ms=0 vad_silence_ms=0 total_silence_ms=0 audio_duration_ms=0 deepgram_connect_ms=n/a first_interim_ms=10 finalize_to_final_ms=5 final_emitted_ms=30".to_string(),
            format!(
                "{:?}",
                TranscriptEvent::Breakdown(timing.stt_timing_breakdown(30, Some(5)))
            ),
            "stt_final_emitted elapsed_ms=30 source=deepgram_message transcript_chars=5"
                .to_string(),
            "Final { text: \"hello\", elapsed_ms: 30 }".to_string(),
        ]
    );

    let step = session.step(&mut timing, ListenInput::Closed, 31, None);
    assert!(matches!(step.action, ListenAction::AwaitSender));
    let step =
        session.step(&mut timing, ListenInput::Sender(SenderEnd::Ended(Ok(()))), 32, None);
    assert!(matches!(step.action, ListenAction::Finish(Ok(()))));
    assert_eq!(lines(&step.output), vec!["Done".to_string()]);
}

#[test]
fn transcription_tells_what_was_left_when_it_ends() {
    let mut timing = SentAudioTiming::new();
    let mut session = ListenSession::new();
    session.step(
        &mut timing,
        text(r#"{"is_final":true,"channel":{"alternatives":[{"transcript":"left"}]}}"#),
        10,
        None,
    );
    session.step(&mut timing, ListenInput::Closed, 11, None);
    let step =
        session.step(&mut timing, ListenInput::Sender(SenderEnd::Ended(Ok(()))), 12, None);
    let events: Vec<&TranscriptEvent> = step
        .output
        .iter()
        .filter_map(|item| match item {
            ListenOutput::Event(event) => Some(event),
            ListenOutput::Trace(_) => None,
        })
        .collect();
    assert_eq!(events.len(), 3);
    assert!(matches!(events[0], TranscriptEvent::Breakdown(_)));
    assert_eq!(
        events[1],
        &TranscriptEvent::Final { text: "left".to_string(), elapsed_ms: 12 }
    );
    assert_eq!(events[2], &TranscriptEvent::Done);
}

#[test]
fn transcription_names_what_failed() {
    let failed = |inputs: Vec<ListenInput>| {
        let mut timing = SentAudioTiming::new();
        let mut session = ListenSession::new();
        let mut last = None;
        for input in inputs {
            last = Some(session.step(&mut timing, input, 1, None));
        }
        match last {
            Some(step) => match step.action {
                ListenAction::Finish(Err(error)) => {
                    assert!(step.output.is_empty());
                    error.message()
                }
                other => panic!("transcription should fail: {other:?}"),
            },
            None => panic!("there are inputs"),
        }
    };
    let prefix = "STT backend failed: ";
    assert!(failed(vec![text("{")]).starts_with(&format!("{prefix}invalid Deepgram transcript JSON: ")));
    assert_eq!(
        failed(vec![ListenInput::ReadFailed("x".to_string())]),
        format!("{prefix}Deepgram WebSocket read failed: x")
    );
    assert_eq!(
        failed(vec![ListenInput::Closed, ListenInput::Sender(SenderEnd::Cancelled)]),
        format!("{prefix}Deepgram audio sender task was cancelled")
    );
    assert_eq!(
        failed(vec![
            ListenInput::Closed,
            ListenInput::Sender(SenderEnd::Failed("x".to_string()))
        ]),
        format!("{prefix}Deepgram audio sender task failed: x")
    );
    assert_eq!(connect_error("x").message(), format!("{prefix}Deepgram WebSocket connect failed: x"));
    assert!(await_stt_sender(SenderEnd::Ended(Ok(()))).is_ok());
    assert_eq!(optional_ms(None), "n/a");
    assert_eq!(optional_ms(Some(3)), "3");
}

fn status(code: u16, text: &str) -> StatusCode {
    StatusCode { code, text: text.to_string() }
}

#[test]
fn speech_is_requested_once_and_told_in_order() {
    let mut config = config();
    config.tts_max_chars = 8;
    let mut stream = SpeakStream::new();
    stream.step(&config, SpeakInput::Text(Some("hello ".to_string())), 0);
    stream.step(&config, SpeakInput::Text(Some("world".to_string())), 0);
    let step = stream.step(&config, SpeakInput::Text(None), 0);
    match step.action {
        SpeakAction::Request(request) => {
            assert_eq!(request.text, "hello...");
            assert_eq!(request.authorization, "Token test-key");
            assert_eq!(request.timeout.as_secs(), 30);
            assert_eq!(request.url, config.speak_url);
        }
        other => panic!("the text should be requested: {other:?}"),
    }
    let step = stream.step(
        &config,
        SpeakInput::Response { status: status(200, "200 OK"), body: String::new() },
        0,
    );
    assert!(matches!(step.action, SpeakAction::NextAudio));
    let step = stream.step(&config, SpeakInput::Audio(Some(vec![1])), 4);
    assert_eq!(
        step.events,
        vec![
            TtsEvent::FirstAudio { elapsed_ms: 4 },
            TtsEvent::AudioChunk { bytes: vec![1], elapsed_ms: 4 },
        ]
    );
    assert!(stream.step(&config, SpeakInput::Audio(Some(Vec::new())), 5).events.is_empty());
    let step = stream.step(&config, SpeakInput::Audio(Some(vec![2])), 6);
    assert_eq!(step.events, vec![TtsEvent::AudioChunk { bytes: vec![2], elapsed_ms: 6 }]);
    let step = stream.step(&config, SpeakInput::Audio(None), 7);
    assert_eq!(step.events, vec![TtsEvent::Done]);
    assert!(matches!(step.action, SpeakAction::Finish(Ok(()))));
}

#[test]
fn white_space_is_not_spoken() {
    let mut stream = SpeakStream::new();
    stream.step(&config(), SpeakInput::Text(Some(" \n".to_string())), 0);
    let step = stream.step(&config(), SpeakInput::Text(None), 0);
    assert_eq!(step.events, vec![TtsEvent::Done]);
    assert!(matches!(step.action, SpeakAction::Finish(Ok(()))));
}

#[test]
fn speech_names_what_failed() {
    let failed = |input: SpeakInput| {
        let mut stream = SpeakStream::new();
        stream.step(&config(), SpeakInput::Text(Some("hi".to_string())), 0);
        stream.step(&config(), SpeakInput::Text(None), 0);
        match stream.step(&config(), input, 0).action {
            SpeakAction::Finish(Err(error)) => error.message(),
            other => panic!("speech should fail: {other:?}"),
        }
    };
    let failure = |timed_out: bool| SpeakInput::Failed { timed_out, message: "x".to_string() };
    assert_eq!(failed(failure(true)), "TTS backend failed: Deepgram TTS request timed out");
    assert_eq!(failed(failure(false)), "TTS backend failed: Deepgram TTS request failed: x");
    assert_eq!(
        failed(SpeakInput::Response {
            status: status(401, "401 Unauthorized"),
            body: "no".to_string()
        }),
        "TTS backend failed: Deepgram TTS returned HTTP 401 Unauthorized: no"
    );
}

#[test]
fn times_count_from_what_was_sent_last() {
    let now = Instant::now();
    let begun = |ms: u64| {
        now.checked_sub(std::time::Duration::from_millis(ms)).expect("the clock has run longer")
    };
    let mut timing = SentAudioTiming::new();
    let mut sender = AudioSender::new();
    let mut send = |timing: &mut SentAudioTiming, chunk: Option<AudioChunk>, ms: u64| {
        sender.step(timing, SenderInput::Audio(chunk), 1);
        sender.step(timing, SenderInput::Sent { outcome: Ok(()), sent_at: begun(ms) }, 2);
    };
    send(&mut timing, Some(AudioChunk::new("a").with_elapsed_ms(10)), 60_000);
    assert!(timing.millis_since_latest().expect("audio was sent") >= 60_000);
    send(&mut timing, Some(AudioChunk::new("b").with_elapsed_ms(20)), 30_000);
    let since_latest = timing.millis_since_latest().expect("audio was sent");
    assert!((30_000..50_000).contains(&since_latest));
    assert!(timing.millis_since_finalize().is_none());
    send(&mut timing, None, 5_000);
    let since_finalize = timing.millis_since_finalize().expect("the end was asked for");
    assert!((5_000..25_000).contains(&since_finalize));
    assert!((30_000..50_000).contains(&timing.millis_since_latest().expect("audio was sent")));
}

#[test]
fn loopback_speaks_as_transcriptions_listen() {
    let config = DeepgramConfig::new("key").for_loopback();
    assert_eq!(
        config.speak_url,
        "https://api.deepgram.com/v1/speak?model=aura-2-thalia-en&encoding=linear16&container=none&sample_rate=16000"
    );
    assert_eq!(config.listen_url, DeepgramConfig::new("key").listen_url);
    assert_eq!(config.api_key, "key");
}
