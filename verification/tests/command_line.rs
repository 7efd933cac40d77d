use ai_runtime::cli::audio::{fake_audio_chunks, raw_pcm_audio_chunks};
use ai_runtime::cli::demo::fake_voice_events;
use ai_runtime::cli::render::{
    chat_end_line, state_name, tools_line, tts_event_line, voice_end_line, voice_event_line,
    voice_latency_lines, EventPrinter,
};
use ai_runtime::cli::smoke::{
    collect_tts_audio, on_transcript_event, synthesized_line, token_line, TtsSmoke,
};
use ai_runtime::cli::{
    command_usage, parse_chat_args, parse_command, parse_deepgram_loopback_smoke_args,
    parse_deepgram_stt_file_args, parse_deepgram_tts_smoke_args, parse_livekit_token_smoke_args,
    parse_voice_fake_args, parse_voice_livekit_args, provider_settings, read_typed_line, usage,
    CliArgs, CliCommand, ProviderEnv, TypedLine,
};
use ai_runtime::{
    ChatMessage, ChatRequest, LiveKitConfig, RequestState, RuntimeError, RuntimeEvent,
    SttTimingBreakdown, TokenEvent, TranscriptEvent, TtsEvent, VoiceEvent, VoiceLatencyMetric,
    VoiceLatencyRecorder, VoiceTurnError, VoiceTurnOutput,
};

fn args(list: &[&str]) -> Vec<String> {
    list.iter().map(|arg| arg.to_string()).collect()
}

#[test]
fn fake_audio_chunks_preserve_text_and_assign_deterministic_elapsed_ms() {
    let chunks = fake_audio_chunks("hello fake runtime");

    assert_eq!(
        chunks.iter().map(|chunk| chunk.bytes.clone()).collect::<Vec<_>>(),
        vec![b"hello ".to_vec(), b"fake ".to_vec(), b"runtime".to_vec()]
    );
    assert_eq!(
        chunks.iter().map(|chunk| chunk.elapsed_ms).collect::<Vec<_>>(),
        vec![40, 80, 120]
    );
}

#[test]
fn raw_pcm_audio_chunks_assign_100ms_boundaries() {
    let input = vec![7; 6_500];

    let chunks = raw_pcm_audio_chunks(&input);

    assert_eq!(chunks.len(), 3);
    assert_eq!(chunks[0].bytes.len(), 3_200);
    assert_eq!(chunks[0].elapsed_ms, 100);
    assert_eq!(chunks[1].bytes.len(), 3_200);
    assert_eq!(chunks[1].elapsed_ms, 200);
    assert_eq!(chunks[2].bytes.len(), 100);
    assert_eq!(chunks[2].elapsed_ms, 300);
}

#[test]
fn audio_of_files_and_texts_loses_nothing() {
    let bytes: Vec<u8> = (0..6_400).map(|i| (i % 251) as u8).collect();
    let joined: Vec<u8> =
        raw_pcm_audio_chunks(&bytes).into_iter().flat_map(|chunk| chunk.bytes).collect();
    assert_eq!(joined, bytes);
    assert_eq!(raw_pcm_audio_chunks(&bytes).len(), 2);
    assert!(raw_pcm_audio_chunks(&[]).is_empty());

    let text = "d\u{e9}j\u{e0}  vu ";
    let joined: Vec<u8> =
        fake_audio_chunks(text).into_iter().flat_map(|chunk| chunk.bytes).collect();
    assert_eq!(joined, text.as_bytes());
    assert!(fake_audio_chunks("").is_empty());
}

#[test]
fn commands_are_named() {
    let command = |name: &str| parse_command(Some(name.to_string()));
    assert_eq!(command("chat"), Ok(CliCommand::Chat));
    assert_eq!(command("voice-fake"), Ok(CliCommand::VoiceFake));
    assert_eq!(command("deepgram-tts-smoke"), Ok(CliCommand::DeepgramTtsSmoke));
    assert_eq!(command("deepgram-stt-file"), Ok(CliCommand::DeepgramSttFile));
    assert_eq!(command("deepgram-loopback-smoke"), Ok(CliCommand::DeepgramLoopbackSmoke));
    assert_eq!(command("livekit-token-smoke"), Ok(CliCommand::LivekitTokenSmoke));
    assert_eq!(command("voice-livekit"), Ok(CliCommand::VoiceLivekit));
    for help in ["-h", "--help", "help"] {
        assert_eq!(command(help), Ok(CliCommand::Help));
    }
    assert_eq!(parse_command(None), Ok(CliCommand::Help));
    assert_eq!(command("Chat"), Err("unknown command: Chat".to_string()));
}

#[test]
fn switches_of_tools_are_read_in_order() {
    assert_eq!(parse_chat_args(&args(&[])), CliArgs::Run(false));
    assert_eq!(parse_chat_args(&args(&["--tools"])), CliArgs::Run(true));
    assert_eq!(parse_chat_args(&args(&["--tools", "--no-tools"])), CliArgs::Run(false));
    assert_eq!(parse_chat_args(&args(&["--tools", "-h", "x"])), CliArgs::Help);
    assert_eq!(
        parse_chat_args(&args(&["x", "-h"])),
        CliArgs::Invalid("unknown chat option: x".to_string())
    );
    assert_eq!(parse_voice_livekit_args(&args(&["--tools"])), CliArgs::Run(true));
    assert_eq!(
        parse_voice_livekit_args(&args(&["x"])),
        CliArgs::Invalid("unknown voice-livekit option: x".to_string())
    );
}

#[test]
fn commands_without_options_take_none() {
    assert_eq!(parse_voice_fake_args(&args(&[])), CliArgs::Run(()));
    assert_eq!(parse_voice_fake_args(&args(&["--help", "x"])), CliArgs::Help);
    assert_eq!(
        parse_voice_fake_args(&args(&["x", "--help"])),
        CliArgs::Invalid("unknown voice-fake option: x".to_string())
    );
    assert_eq!(parse_livekit_token_smoke_args(&args(&[])), CliArgs::Run(()));
    assert_eq!(
        parse_livekit_token_smoke_args(&args(&["y"])),
        CliArgs::Invalid("unknown livekit-token-smoke option: y".to_string())
    );
}

#[test]
fn texts_and_files_are_taken_from_the_arguments() {
    let run = |text: &str| CliArgs::Run(text.to_string());
    assert_eq!(
        parse_deepgram_tts_smoke_args(&args(&[])),
        run("Hello from the Deepgram TTS smoke test.")
    );
    assert_eq!(parse_deepgram_tts_smoke_args(&args(&["a", "b"])), run("a b"));
    assert_eq!(parse_deepgram_tts_smoke_args(&args(&["a", "-h"])), CliArgs::Help);
    assert_eq!(
        parse_deepgram_loopback_smoke_args(&args(&[])),
        run("Hello from the Deepgram loopback smoke test.")
    );
    assert_eq!(parse_deepgram_stt_file_args(&args(&["f"])), run("f"));
    assert_eq!(parse_deepgram_stt_file_args(&args(&["f", "--help"])), CliArgs::Help);
    let usage = CliArgs::Invalid(
        "usage: ai-runtime deepgram-stt-file <raw-16khz-mono-linear16-pcm-file>".to_string(),
    );
    assert_eq!(parse_deepgram_stt_file_args(&args(&[])), usage);
    assert_eq!(parse_deepgram_stt_file_args(&args(&["f", "g"])), usage);
}

#[test]
fn usage_explains_all_commands() {
    assert!(usage().starts_with("usage:\n  ai-runtime chat [--tools|--no-tools]\n"));
    assert_eq!(usage().lines().count(), 11);
    for command in [
        CliCommand::Chat,
        CliCommand::VoiceFake,
        CliCommand::DeepgramTtsSmoke,
        CliCommand::DeepgramSttFile,
        CliCommand::DeepgramLoopbackSmoke,
        CliCommand::LivekitTokenSmoke,
        CliCommand::VoiceLivekit,
    ] {
        assert!(command_usage(command).starts_with("usage: ai-runtime "));
        assert!(command_usage(command).ends_with('\n'));
    }
    assert_eq!(command_usage(CliCommand::Help), "");
}

#[test]
fn typed_lines_are_trimmed_and_may_stop() {
    let read = |line: &str| read_typed_line(Some(line.to_string()));
    assert_eq!(read(" \n"), TypedLine::Skip);
    assert_eq!(read("quit\n"), TypedLine::Stop);
    assert_eq!(read(" exit \n"), TypedLine::Stop);
    assert_eq!(read(" hello \n"), TypedLine::Say("hello".to_string()));
    assert_eq!(read_typed_line(None), TypedLine::Stop);
}

#[test]
fn providers_need_a_key() {
    let env = |key: Option<&str>, url: Option<&str>| ProviderEnv {
        api_key: key.map(str::to_string),
        base_url: url.map(str::to_string),
        model: None,
    };
    let settings = provider_settings(env(Some("k"), None), "chat").expect("settings");
    assert_eq!(settings.api_key, "k");
    assert_eq!(settings.base_url, "https://api.openai.com/v1");
    assert_eq!(settings.model, "gpt-4o-mini");
    let settings = provider_settings(env(Some("k"), Some("u")), "chat").expect("settings");
    assert_eq!(settings.base_url, "u");
    match provider_settings(env(None, None), "chat") {
        Err(message) => {
            assert_eq!(message, "OPENAI_COMPAT_API_KEY must be set to run `ai-runtime chat`")
        }
        Ok(settings) => panic!("a key is needed: {settings:?}"),
    }
}

#[test]
fn answers_are_printed_on_one_line() {
    let mut printer = EventPrinter::new();
    let mut out = String::new();
    let token = |text: &str| RuntimeEvent::AssistantToken { text: text.to_string(), elapsed_ms: 1 };
    for event in [
        RuntimeEvent::Lifecycle { from: None, to: RequestState::Started, elapsed_ms: 0 },
        RuntimeEvent::LlmFirstToken { elapsed_ms: 12 },
        token("Hel"),
        token("lo"),
        RuntimeEvent::ToolDispatchStart {
            call_id: "c".to_string(),
            tool_name: "t".to_string(),
            elapsed_ms: 3,
        },
        RuntimeEvent::ToolTimeout {
            call_id: "c".to_string(),
            tool_name: "t".to_string(),
            timeout_ms: 10,
            elapsed_ms: 4,
        },
        RuntimeEvent::ToolDispatchEnd {
            call_id: "c".to_string(),
            tool_name: "t".to_string(),
            elapsed_ms: 4,
            duration_ms: 11,
            success: false,
        },
        token("x"),
        RuntimeEvent::TurnCompleted { elapsed_ms: 5, output_chars: 6 },
    ] {
        out.push_str(&printer.print_event(&event));
    }
    assert_eq!(
        out,
        "event> state=started\nevent> llm_first_token elapsed_ms=12\nassistant> Hello\nevent> tool_start id=c name=t elapsed_ms=3\nevent> tool_timeout id=c name=t timeout_ms=10\nevent> tool_end id=c name=t duration_ms=11 success=false\nassistant> x\nevent> turn_completed elapsed_ms=5 output_chars=6\n"
    );
}

#[test]
fn states_have_names() {
    let names: Vec<&str> = [
        RequestState::Started,
        RequestState::StreamingLlm,
        RequestState::DispatchingTool,
        RequestState::Completed,
        RequestState::Cancelled,
        RequestState::Failed,
    ]
    .into_iter()
    .map(state_name)
    .collect();
    assert_eq!(
        names,
        vec!["started", "streaming_llm", "dispatching_tool", "completed", "cancelled", "failed"]
    );
}

#[test]
fn speech_and_voice_events_have_lines() {
    assert_eq!(
        tts_event_line(&TtsEvent::FirstAudio { elapsed_ms: 3 }),
        "tts> first_audio elapsed_ms=3"
    );
    assert_eq!(
        tts_event_line(&TtsEvent::AudioChunk { bytes: b"fake\xff".to_vec(), elapsed_ms: 4 }),
        "tts> audio_chunk elapsed_ms=4 bytes=fake\u{fffd}"
    );
    assert_eq!(tts_event_line(&TtsEvent::Done), "tts> done");
    let cases = [
        (
            VoiceEvent::SttPartial { elapsed_ms: 1, stt_elapsed_ms: 2, transcript_chars: 3 },
            "voice> stt_partial elapsed_ms=1 stt_elapsed_ms=2 transcript_chars=3",
        ),
        (
            VoiceEvent::SttFinal { elapsed_ms: 1, stt_elapsed_ms: 2, transcript_chars: 3 },
            "voice> stt_final elapsed_ms=1 stt_elapsed_ms=2 transcript_chars=3",
        ),
        (
            VoiceEvent::LlmFirstToken { elapsed_ms: 1, runtime_elapsed_ms: 2 },
            "voice> llm_first_token elapsed_ms=1 runtime_elapsed_ms=2",
        ),
        (
            VoiceEvent::TtsFirstAudio { elapsed_ms: 1, tts_elapsed_ms: 2 },
            "voice> tts_first_audio elapsed_ms=1 tts_elapsed_ms=2",
        ),
        (
            VoiceEvent::VoiceTurnCompleted { elapsed_ms: 1, output_chars: 2 },
            "voice> turn_completed elapsed_ms=1 output_chars=2",
        ),
        (VoiceEvent::VoiceTurnCancelled { elapsed_ms: 1 }, "voice> turn_cancelled elapsed_ms=1"),
        (
            VoiceEvent::VoiceTurnInterrupted { elapsed_ms: 1 },
            "voice> turn_interrupted elapsed_ms=1",
        ),
        (VoiceEvent::VoiceTurnFailed { elapsed_ms: 1 }, "voice> turn_failed elapsed_ms=1"),
    ];
    for (event, line) in cases {
        assert_eq!(voice_event_line(&event), line);
    }
}

#[test]
fn summaries_have_a_line_for_each_metric_with_samples() {
    let mut recorder = VoiceLatencyRecorder::new();
    recorder.record(VoiceLatencyMetric::SttFinalization, 40);
    recorder.record(VoiceLatencyMetric::VoiceTurnRoundTrip, 1);
    assert_eq!(
        voice_latency_lines(&recorder.snapshot()),
        vec![
            "voice-metrics> stt_finalization samples=1 p50_ms=40 p95_ms=40",
            "voice-metrics> voice_turn_round_trip samples=1 p50_ms=1 p95_ms=1",
        ]
    );
}

#[test]
fn ends_of_turns_have_lines() {
    assert_eq!(chat_end_line(&Ok("x".to_string())), None);
    assert_eq!(
        chat_end_line(&Err(RuntimeError::Cancelled)),
        Some("assistant> turn cancelled".to_string())
    );
    assert_eq!(
        chat_end_line(&Err(RuntimeError::MaxToolRounds { max_rounds: 4 })),
        Some("assistant> error: exceeded maximum tool rounds: 4".to_string())
    );
    assert_eq!(
        voice_end_line(&Ok(VoiceTurnOutput { text: "hi".to_string() })),
        "assistant-final> hi"
    );
    assert_eq!(
        voice_end_line(&Err(VoiceTurnError::Cancelled)),
        "assistant-final> turn cancelled"
    );
    assert_eq!(
        voice_end_line(&Err(VoiceTurnError::MissingFinalTranscript)),
        "assistant-final> error: STT stream completed without a final transcript"
    );
    assert_eq!(tools_line(true), "tools: calculator, mock_crm_lookup");
    assert_eq!(tools_line(false), "tools: disabled");
}

#[test]
fn smoke_tests_print_and_count() {
    let mut smoke = TtsSmoke::new();
    let audio = |bytes: &[u8]| TtsEvent::AudioChunk { bytes: bytes.to_vec(), elapsed_ms: 5 };
    let step = smoke.on_event(&TtsEvent::FirstAudio { elapsed_ms: 5 });
    assert_eq!(step.line.as_deref(), Some("deepgram-tts> first_audio elapsed_ms=5"));
    let step = smoke.on_event(&audio(&[1, 2]));
    assert_eq!(step.line.as_deref(), Some("deepgram-tts> audio_chunk elapsed_ms=5 bytes=2"));
    smoke.on_event(&audio(&[3]));
    let step = smoke.on_event(&TtsEvent::Done);
    assert!(step.done);
    assert_eq!(step.line.as_deref(), Some("deepgram-tts> done chunks=2 bytes=3"));

    let mut collected = Vec::new();
    assert!(collect_tts_audio(&mut collected, TtsEvent::FirstAudio { elapsed_ms: 1 })
        .line
        .is_some());
    collect_tts_audio(&mut collected, audio(&[1, 2]));
    collect_tts_audio(&mut collected, audio(&[3]));
    assert!(collect_tts_audio(&mut collected, TtsEvent::Done).done);
    assert_eq!(collected, vec![1, 2, 3]);
    assert_eq!(
        synthesized_line(&collected),
        "deepgram-loopback> synthesized_raw_pcm_bytes=3"
    );
}

#[test]
fn transcripts_are_printed_in_quotes() {
    let step = on_transcript_event(&TranscriptEvent::Partial {
        text: "a \"b\"\n".to_string(),
        elapsed_ms: 2,
    });
    assert_eq!(
        step.line.as_deref(),
        Some("deepgram-stt> partial elapsed_ms=2 text=\"a \\\"b\\\"\\n\"")
    );
    let step = on_transcript_event(&TranscriptEvent::Final {
        text: "a".to_string(),
        elapsed_ms: 3,
    });
    assert_eq!(step.line.as_deref(), Some("deepgram-stt> final elapsed_ms=3 text=\"a\""));
    assert!(!step.done);
    let step = on_transcript_event(&TranscriptEvent::Done);
    assert_eq!(step.line.as_deref(), Some("deepgram-stt> done"));
    assert!(step.done);
    let breakdown = SttTimingBreakdown {
        speech_audio_ms: 0,
        vad_silence_ms: 0,
        total_silence_ms: 0,
        audio_duration_ms: 0,
        deepgram_connect_ms: None,
        first_interim_ms: None,
        finalize_to_final_ms: None,
        final_emitted_ms: 0,
    };
    assert_eq!(on_transcript_event(&TranscriptEvent::Breakdown(breakdown)).line, None);
}

#[test]
fn tokens_are_told_by_their_length() {
    let config = LiveKitConfig::new("wss://l", "k", "s");
    assert_eq!(
        token_line(&config, "abc"),
        "livekit-token> url=wss://l room=ai-runtime identity=ai-runtime-agent token_bytes=3"
    );
}

#[test]
fn demo_answers_repeat_the_last_user_message() {
    let request = ChatRequest::new(
        "m",
        vec![
            ChatMessage::user("first"),
            ChatMessage::user("hi there"),
            ChatMessage::assistant("x"),
        ],
    );
    let events = fake_voice_events(&request);
    let tokens: Vec<&str> = events
        .iter()
        .filter_map(|event| match event {
            TokenEvent::Token { text } => Some(text.as_str()),
            _ => None,
        })
        .collect();
    assert_eq!(tokens, vec!["fake ", "voice ", "response: ", "hi ", "there"]);
    assert!(matches!(events.last(), Some(TokenEvent::Done)));
    assert_eq!(fake_voice_events(&ChatRequest::new("m", Vec::new())).len(), 4);
}
