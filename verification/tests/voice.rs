use ai_runtime::runtime::{TurnAction, TurnInput};
use ai_runtime::voice::adapter::{
    sanitize_tts_fragment, AdapterInput, AdapterStep, TtsAdapter,
};
use ai_runtime::voice::fake::{deterministic_chunk, FakePoll, FakeTtsStream};
use ai_runtime::voice::session::{
    on_transport, StopReason, StopResult, TransportSignal, TurnOutcome,
};
use ai_runtime::voice::turn::{
    end_voice_turn, listen, voice_turn_result, FirstHalf, ListenNext, TranscriptInput,
};
use ai_runtime::voice::voice_stt_trace_enabled;
use ai_runtime::{
    AgentRuntime, AudioChunk, ConversationContext, FakeSpeechToText, FakeTextToSpeech,
    FakeVoiceTransport, RequestState, RuntimeConfig, RuntimeError, RuntimeEvent,
    RuntimeTtsAdapter, SttError, TokenEvent, ToolRegistry, TranscriptEvent, TtsAdapterError,
    TtsError, TtsEvent, VoiceEvent, VoiceLatencyMetric, VoiceLatencyRecorder,
    VoiceLatencySnapshot, VoiceLatencyStats, VoicePipelineRunner, VoiceSession,
    VoiceSessionError, VoiceTransportError, VoiceTransportEvent, VoiceTurnError, VoiceTurnOutput,
    VoiceTurnRunner,
};

/// Speaking, with the fake backend behind it.
struct Speaker {
    adapter: TtsAdapter,
    stream: FakeTtsStream,
    ended: bool,
    forwarded: Vec<TtsEvent>,
    voice: Vec<VoiceEvent>,
    result: Option<Result<(), TtsAdapterError>>,
}

impl Speaker {
    fn new(tts: &mut FakeTextToSpeech) -> Self {
        Self {
            adapter: TtsAdapter::new(),
            stream: tts.start_stream(),
            ended: false,
            forwarded: Vec::new(),
            voice: Vec::new(),
            result: None,
        }
    }

    fn take(&mut self, input: AdapterInput) {
        if self.adapter.finished {
            return;
        }
        let AdapterStep { speak, forward, voice, result } = self.adapter.step(input, 50);
        if let Some(text) = speak {
            self.stream.on_text(Some(text), 6);
        }
        self.forwarded.extend(forward);
        self.voice.extend(voice);
        if result.is_some() {
            self.result = result;
            return;
        }
        if !self.adapter.text_open && !self.ended {
            self.ended = true;
            self.stream.on_text(None, 7);
        }
        loop {
            if self.adapter.finished {
                return;
            }
            match self.stream.poll() {
                FakePoll::Event(event) => {
                    let step = self.adapter.step(AdapterInput::Audio(Some(Ok(event))), 50);
                    self.forwarded.extend(step.forward);
                    self.voice.extend(step.voice);
                    if step.result.is_some() {
                        self.result = step.result;
                    }
                }
                FakePoll::NeedsInput | FakePoll::Finished => return,
            }
        }
    }
}

struct Answered {
    result: Result<VoiceTurnOutput, VoiceTurnError>,
    tts: Vec<TtsEvent>,
    voice: Vec<VoiceEvent>,
}

/// Answers a transcript with tokens; where the provider hangs after them, the user cancels.
fn answer(
    runtime: &AgentRuntime<()>,
    context: &mut ConversationContext,
    transcript: &str,
    tokens: &[&str],
    hangs: bool,
    tts: &mut FakeTextToSpeech,
) -> Answered {
    let mut speaker = Speaker::new(tts);
    let mut script = tokens.iter();
    let mut step = runtime.begin_turn(context, transcript, 1);
    let runtime_result = loop {
        for event in step.events {
            speaker.take(AdapterInput::Runtime(Some(event)));
        }
        let input = match step.action {
            TurnAction::Finish(result) => break result,
            TurnAction::Proceed => TurnInput::Proceed { cancelled: false },
            TurnAction::OpenStream(_) | TurnAction::NextEvent => match script.next() {
                Some(text) => TurnInput::StreamEvent(Ok(TokenEvent::Token {
                    text: text.to_string(),
                })),
                None if hangs => {
                    speaker.take(AdapterInput::Cancelled);
                    TurnInput::StreamCancelled
                }
                None => TurnInput::StreamEvent(Ok(TokenEvent::Done)),
            },
            TurnAction::CallTool(call) => panic!("no tools here: {call:?}"),
        };
        step = runtime.advance(step.turn, context, input, 2);
    };
    speaker.take(AdapterInput::Runtime(None));
    let Speaker { stream, forwarded, mut voice, result, .. } = speaker;
    tts.drop_stream(stream);
    let spoken = result.expect("speaking should end");
    let end = end_voice_turn(context, runtime_result, spoken, 60);
    voice.push(end.voice);
    Answered { result: end.result, tts: forwarded, voice }
}

/// Runs a whole voice turn on audio.
fn audio_turn(
    runtime: &AgentRuntime<()>,
    context: &mut ConversationContext,
    audio: Vec<AudioChunk>,
    tokens: &[&str],
    hangs: bool,
    stt: &mut FakeSpeechToText,
    tts: &mut FakeTextToSpeech,
) -> Answered {
    let mut stream = stt.start_stream();
    let mut audio = audio.into_iter();
    let mut voice = Vec::new();
    loop {
        let input = match stream.poll() {
            FakePoll::Event(event) => TranscriptInput::Event(Ok(event)),
            FakePoll::Finished => TranscriptInput::End,
            FakePoll::NeedsInput => {
                stream.on_audio(audio.next());
                continue;
            }
        };
        let step = listen(input, 20);
        voice.extend(step.voice);
        match step.next {
            ListenNext::Listen => {}
            ListenNext::Fail(error) => {
                stt.drop_stream(stream);
                return Answered { result: Err(error), tts: Vec::new(), voice };
            }
            ListenNext::Answer(text) => {
                stt.drop_stream(stream);
                let mut answered = answer(runtime, context, &text, tokens, hangs, tts);
                voice.append(&mut answered.voice);
                answered.voice = voice;
                return answered;
            }
        }
    }
}

fn audio_chunks(events: &[TtsEvent]) -> Vec<Vec<u8>> {
    events
        .iter()
        .filter_map(|event| match event {
            TtsEvent::AudioChunk { bytes, .. } => Some(bytes.clone()),
            _ => None,
        })
        .collect()
}

fn runtime() -> AgentRuntime<()> {
    AgentRuntime::new((), ToolRegistry::new(), RuntimeConfig::new("test"))
}

fn assistant_token(text: &str) -> AdapterInput {
    AdapterInput::Runtime(Some(RuntimeEvent::AssistantToken {
        text: text.to_string(),
        elapsed_ms: 1,
    }))
}

#[test]
fn fake_tts_converts_text_fragments_to_deterministic_audio_chunks() {
    let mut tts = FakeTextToSpeech::new();
    let mut speaker = Speaker::new(&mut tts);
    speaker.take(assistant_token("Hel"));
    speaker.take(assistant_token("lo"));
    speaker.take(AdapterInput::Runtime(None));

    let events = speaker.forwarded;
    assert!(matches!(speaker.result, Some(Ok(()))));
    assert!(matches!(events.first(), Some(TtsEvent::FirstAudio { .. })));
    assert_eq!(
        audio_chunks(&events),
        vec![b"fake-tts:0:Hel".to_vec(), b"fake-tts:1:lo".to_vec()]
    );
    assert!(matches!(events.last(), Some(TtsEvent::Done)));
    assert_eq!(deterministic_chunk(12, "x"), b"fake-tts:12:x".to_vec());
}

#[test]
fn fake_stt_converts_audio_fragments_to_transcript_events() {
    let mut stt = FakeSpeechToText::new();
    let mut stream = stt.start_stream();
    assert_eq!(stt.active_stream_count(), 1);
    let mut audio = vec![
        AudioChunk::new("hel").with_elapsed_ms(7),
        AudioChunk::new("lo").with_elapsed_ms(11),
    ]
    .into_iter();
    let mut events = Vec::new();
    loop {
        match stream.poll() {
            FakePoll::Event(event) => events.push(event),
            FakePoll::NeedsInput => stream.on_audio(audio.next()),
            FakePoll::Finished => break,
        }
    }
    stt.drop_stream(stream);

    assert_eq!(
        events,
        vec![
            TranscriptEvent::Partial { text: "hel".to_string(), elapsed_ms: 7 },
            TranscriptEvent::Partial { text: "hello".to_string(), elapsed_ms: 11 },
            TranscriptEvent::Final { text: "hello".to_string(), elapsed_ms: 11 },
            TranscriptEvent::Done,
        ]
    );
    assert_eq!(stt.active_stream_count(), 0);
}

#[test]
fn voice_pipeline_runner_uses_final_transcript_and_streams_tts_audio() {
    let mut stt = FakeSpeechToText::new();
    let mut tts = FakeTextToSpeech::new();
    let pipeline =
        VoicePipelineRunner::new((), ToolRegistry::new(), RuntimeConfig::new("test"), (), ());
    let mut context = ConversationContext::new();

    let answered = audio_turn(
        pipeline.turn().runtime(),
        &mut context,
        vec![
            AudioChunk::new("hello").with_elapsed_ms(3),
            AudioChunk::new(" runtime").with_elapsed_ms(9),
        ],
        &["Hi", " there"],
        false,
        &mut stt,
        &mut tts,
    );

    assert_eq!(answered.result.expect("voice pipeline should succeed").text, "Hi there");
    assert_eq!(context.messages()[0].role, "user");
    assert_eq!(context.messages()[0].content, "hello runtime");
    assert_eq!(
        context.messages().last().map(|message| message.content.as_str()),
        Some("Hi there")
    );
    assert_eq!(
        audio_chunks(&answered.tts),
        vec![b"fake-tts:0:Hi".to_vec(), b"fake-tts:1: there".to_vec()]
    );
    assert!(matches!(answered.tts.last(), Some(TtsEvent::Done)));

    let voice_events = answered.voice;
    assert!(voice_events.iter().any(|event| matches!(
        event,
        VoiceEvent::SttPartial { transcript_chars: 5, stt_elapsed_ms: 3, .. }
    )));
    assert!(voice_events.iter().any(|event| matches!(
        event,
        VoiceEvent::SttFinal { transcript_chars: 13, stt_elapsed_ms: 9, .. }
    )));
    assert!(voice_events.iter().any(|event| matches!(event, VoiceEvent::LlmFirstToken { .. })));
    assert!(voice_events.iter().any(|event| matches!(event, VoiceEvent::TtsFirstAudio { .. })));
    assert!(matches!(
        voice_events.last(),
        Some(VoiceEvent::VoiceTurnCompleted { output_chars: 8, .. })
    ));
}

#[test]
fn cancelling_during_stt_streaming_drops_active_stt_stream() {
    let mut stt = FakeSpeechToText::default();
    let mut tts = FakeTextToSpeech::new();
    let mut context = ConversationContext::new();
    let mut stream = stt.start_stream();
    assert_eq!(stt.active_stream_count(), 1);

    assert!(matches!(stream.poll(), FakePoll::NeedsInput));
    let step = listen(TranscriptInput::Cancelled, 4);
    stt.drop_stream(stream);
    let result = match step.next {
        ListenNext::Answer(text) => {
            answer(&runtime(), &mut context, &text, &["unused"], false, &mut tts).result
        }
        ListenNext::Fail(error) => Err(error),
        ListenNext::Listen => panic!("a cancelled turn should listen no more"),
    };

    assert!(matches!(result, Err(VoiceTurnError::Cancelled)));
    assert!(context.messages().is_empty());
    assert_eq!(stt.active_stream_count(), 0);
    assert_eq!(step.voice, Some(VoiceEvent::VoiceTurnCancelled { elapsed_ms: 4 }));
}

/// Ends the active turn of a session; gives what was told and the result.
fn stop(
    session: &mut VoiceSession,
    reason: StopReason,
    running: bool,
    outcome: TurnOutcome,
) -> (Option<VoiceEvent>, StopResult) {
    let order = session.stop_active_turn(reason, running, 33).expect("a turn should be active");
    assert!(!session.has_active_turn());
    (order.voice, order.turn.ended(outcome))
}

#[test]
fn voice_session_barge_in_cancels_active_turn_and_completes_next_turn() {
    let mut stt = FakeSpeechToText::new();
    let mut tts = FakeTextToSpeech::new();
    let runtime = runtime();
    let mut context = ConversationContext::new();
    let mut session = VoiceSession::new();
    let mut told = Vec::new();

    session.turn_started();
    assert!(session.has_active_turn());
    let order = session
        .stop_active_turn(StopReason::Interrupt, true, 12)
        .expect("the first turn should be active");
    assert!(order.cancel && order.reset_playback);
    told.extend(order.voice);
    let first = audio_turn(
        &runtime,
        &mut context,
        vec![AudioChunk::new("first request").with_elapsed_ms(1)],
        &["first partial"],
        true,
        &mut stt,
        &mut tts,
    );
    assert_eq!(audio_chunks(&first.tts), vec![b"fake-tts:0:first partial".to_vec()]);
    told.extend(first.voice);
    let end = order.turn.ended(TurnOutcome::Ended(first.result));
    assert!(end.reset_playback);
    end.result.expect("second turn should interrupt first and start");

    session.turn_started();
    let second = audio_turn(
        &runtime,
        &mut context,
        vec![AudioChunk::new("second request").with_elapsed_ms(1)],
        &["second ", "complete"],
        false,
        &mut stt,
        &mut tts,
    );
    told.extend(second.voice);
    let (_, end) = stop(&mut session, StopReason::Finish, false, TurnOutcome::Ended(second.result));
    let output = end
        .result
        .expect("second turn should succeed")
        .expect("second turn should be active");

    assert_eq!(output.text, "second complete");
    assert_eq!(
        audio_chunks(&second.tts),
        vec![b"fake-tts:0:second ".to_vec(), b"fake-tts:1:complete".to_vec()]
    );
    assert!(!session.has_active_turn());
    assert_eq!(tts.active_stream_count(), 0);
    assert!(context.messages().iter().all(|message| message.content != "first partial"));
    assert_eq!(
        context
            .messages()
            .iter()
            .filter(|message| message.role == "user")
            .map(|message| message.content.as_str())
            .collect::<Vec<_>>(),
        vec!["first request", "second request"]
    );
    assert_eq!(
        context.messages().last().map(|m| (m.role.as_str(), m.content.as_str())),
        Some(("assistant", "second complete"))
    );
    assert!(told.iter().any(|event| matches!(event, VoiceEvent::VoiceTurnInterrupted { .. })));
    assert!(told.iter().any(|event| matches!(event, VoiceEvent::VoiceTurnCancelled { .. })));
    assert!(matches!(
        told.last(),
        Some(VoiceEvent::VoiceTurnCompleted { output_chars: 15, .. })
    ));
}

#[test]
fn voice_session_runs_normal_turn_from_fake_transport() {
    let mut stt = FakeSpeechToText::new();
    let mut tts = FakeTextToSpeech::new();
    let mut transport = FakeVoiceTransport::new();
    let mut session = VoiceSession::new();
    let mut context = ConversationContext::new();
    let mut outcome = None;

    assert!(transport.next_event().is_none());
    transport
        .send_audio_turn(vec![AudioChunk::new("transport input").with_elapsed_ms(12)])
        .expect("transport input should send");
    transport.close().expect("transport should close gracefully");
    assert_eq!(transport.close(), Err(VoiceTransportError::Closed));
    assert_eq!(transport.send_speech_started(), Err(VoiceTransportError::Closed));
    assert_eq!(VoiceTransportError::Closed.message(), "voice transport is closed");

    loop {
        match transport.next_event() {
            Some(Some(VoiceTransportEvent::AudioTurn(audio))) => {
                let step = on_transport(TransportSignal::AudioTurn);
                assert!(step.start_turn && !step.stop_session);
                assert!(session.stop_active_turn(step.stop, false, 0).is_none());
                session.turn_started();
                let answered = audio_turn(
                    &runtime(),
                    &mut context,
                    audio,
                    &["transport ", "ok"],
                    false,
                    &mut stt,
                    &mut tts,
                );
                for event in answered.tts {
                    transport.send_tts_event(event);
                }
                outcome = Some(answered.result);
            }
            Some(Some(VoiceTransportEvent::Closed)) => {
                let step = on_transport(TransportSignal::Closed);
                assert!(step.stop_session && !step.start_turn);
                let ended = TurnOutcome::Ended(outcome.take().expect("the turn ran"));
                let (_, end) = stop(&mut session, step.stop, false, ended);
                end.result.expect("transport runner should succeed");
                break;
            }
            other => panic!("unexpected transport event: {other:?}"),
        }
    }

    assert_eq!(
        audio_chunks(&transport.drain_tts_events()),
        vec![b"fake-tts:0:transport ".to_vec(), b"fake-tts:1:ok".to_vec()]
    );
    assert!(transport.recv_tts_event().is_none());
    assert_eq!(
        context.messages().last().map(|m| (m.role.as_str(), m.content.as_str())),
        Some(("assistant", "transport ok"))
    );
}

#[test]
fn fake_transport_barge_in_cancels_playback_and_runs_next_turn() {
    let mut stt = FakeSpeechToText::new();
    let mut tts = FakeTextToSpeech::new();
    let mut transport = FakeVoiceTransport::new();
    let mut session = VoiceSession::new();
    let mut context = ConversationContext::new();
    let mut voice_events = Vec::new();
    let mut outcome = None;
    let mut turns = 0;

    transport
        .send_audio_turn(vec![AudioChunk::new("first request").with_elapsed_ms(1)])
        .expect("first input should send");
    transport
        .send_audio_turn(vec![AudioChunk::new("second request").with_elapsed_ms(2)])
        .expect("second input should send");
    transport.close().expect("transport should close gracefully");

    loop {
        match transport.next_event() {
            Some(Some(VoiceTransportEvent::AudioTurn(audio))) => {
                let step = on_transport(TransportSignal::AudioTurn);
                assert!(step.start_turn && !step.stop_session);
                if session.has_active_turn() {
                    let ended = TurnOutcome::Ended(outcome.take().expect("the first turn ran"));
                    let (voice, end) = stop(&mut session, step.stop, true, ended);
                    voice_events.extend(voice);
                    assert!(end.reset_playback);
                    end.result.expect("an interrupted turn is no error of the session");
                }
                session.turn_started();
                let (tokens, hangs): (&[&str], bool) = if turns == 0 {
                    (&["first partial"], true)
                } else {
                    (&["second ", "complete"], false)
                };
                turns += 1;
                let answered =
                    audio_turn(&runtime(), &mut context, audio, tokens, hangs, &mut stt, &mut tts);
                if hangs {
                    assert_eq!(
                        audio_chunks(&answered.tts),
                        vec![b"fake-tts:0:first partial".to_vec()]
                    );
                }
                voice_events.extend(answered.voice);
                outcome = Some(answered.result);
            }
            Some(Some(VoiceTransportEvent::Closed)) => {
                let step = on_transport(TransportSignal::Closed);
                let ended = TurnOutcome::Ended(outcome.take().expect("the second turn ran"));
                let (_, end) = stop(&mut session, step.stop, false, ended);
                end.result.expect("transport runner should succeed");
                break;
            }
            other => panic!("unexpected transport event: {other:?}"),
        }
    }

    assert_eq!(turns, 2);
    assert_eq!(tts.active_stream_count(), 0);
    assert!(context.messages().iter().all(|message| message.content != "first partial"));
    assert_eq!(
        context
            .messages()
            .last()
            .map(|message| (message.role.as_str(), message.content.as_str())),
        Some(("assistant", "second complete"))
    );
    assert!(voice_events
        .iter()
        .any(|event| matches!(event, VoiceEvent::VoiceTurnInterrupted { .. })));
}

#[test]
fn fake_transport_speech_started_cancels_active_turn_before_audio_turn() {
    let mut tts = FakeTextToSpeech::new();
    let mut context = ConversationContext::new();
    let step = on_transport(TransportSignal::SpeechStarted);
    assert!(!step.start_turn && !step.stop_session);
    let mut session = VoiceSession::new();
    session.turn_started();

    let order = session.stop_active_turn(step.stop, true, 9).expect("a turn should be active");
    assert!(order.cancel);
    let answered =
        answer(&runtime(), &mut context, "first request", &["partial"], true, &mut tts);
    assert_eq!(audio_chunks(&answered.tts), vec![b"fake-tts:0:partial".to_vec()]);
    assert!(matches!(
        answered.voice.last(),
        Some(VoiceEvent::VoiceTurnCancelled { .. })
    ));
    let end = order.turn.ended(TurnOutcome::Ended(answered.result));

    end.result.expect("speech start should cancel active turn without surfacing an error");
    assert_eq!(order.voice, Some(VoiceEvent::VoiceTurnInterrupted { elapsed_ms: 9 }));
    assert_eq!(tts.active_stream_count(), 0);
    assert!(context.messages().iter().all(|message| message.content != "partial"));
}

#[test]
fn fake_transport_skips_missing_transcript_segment_and_runs_next_turn() {
    let mut stt = FakeSpeechToText::new();
    let mut tts = FakeTextToSpeech::new();
    let mut context = ConversationContext::new();
    let mut session = VoiceSession::new();

    session.turn_started();
    let empty = audio_turn(
        &runtime(),
        &mut context,
        Vec::new(),
        &["unused"],
        false,
        &mut stt,
        &mut tts,
    );
    assert!(matches!(empty.result, Err(VoiceTurnError::MissingFinalTranscript)));
    let (voice, end) = stop(
        &mut session,
        on_transport(TransportSignal::AudioTurn).stop,
        false,
        TurnOutcome::Ended(empty.result),
    );
    assert_eq!(voice, None);
    end.result.expect("empty no-transcript segment should not kill transport");

    let valid = audio_turn(
        &runtime(),
        &mut context,
        vec![AudioChunk::new("real input").with_elapsed_ms(10)],
        &["valid ", "turn"],
        false,
        &mut stt,
        &mut tts,
    );
    valid.result.expect("the next turn should run");
    assert_eq!(
        context.messages().last().map(|m| (m.role.as_str(), m.content.as_str())),
        Some(("assistant", "valid turn"))
    );
}

#[test]
fn dropped_fake_transport_cancels_active_turn_cleanly() {
    let mut tts = FakeTextToSpeech::default();
    let mut context = ConversationContext::new();
    let mut transport = FakeVoiceTransport::new();
    transport.disconnect();
    assert!(matches!(transport.next_event(), Some(None)));
    assert_eq!(transport.send_audio_turn(Vec::new()), Err(VoiceTransportError::Closed));
    let step = on_transport(TransportSignal::Gone);
    assert!(step.stop_session);

    let mut session = VoiceSession::new();
    session.turn_started();
    let order = session.stop_active_turn(step.stop, true, 1).expect("a turn should be active");
    assert!(order.cancel && order.reset_playback);
    assert_eq!(order.voice, None);
    let answered =
        answer(&runtime(), &mut context, "dropped input", &["partial"], true, &mut tts);
    let end = order.turn.ended(TurnOutcome::Ended(answered.result));

    end.result.expect("disconnect should not surface as an error");
    assert!(!session.has_active_turn());
    assert_eq!(tts.active_stream_count(), 0);
    assert!(context.messages().iter().all(|message| message.role != "assistant"));
}

#[test]
fn voice_turn_runner_streams_audio_and_commits_completed_answer() {
    let mut tts = FakeTextToSpeech::new();
    let runner = VoiceTurnRunner::new((), ToolRegistry::new(), RuntimeConfig::new("test"), 3);
    assert_eq!(*runner.tts().tts(), 3);
    let mut context = ConversationContext::new();

    let answered =
        answer(runner.runtime(), &mut context, "hello", &["Hel", "lo"], false, &mut tts);

    assert_eq!(answered.result.expect("voice turn should succeed").text, "Hello");
    assert_eq!(
        context.messages().last().map(|message| message.content.as_str()),
        Some("Hello")
    );
    assert!(matches!(answered.tts.first(), Some(TtsEvent::FirstAudio { .. })));
    assert_eq!(
        audio_chunks(&answered.tts),
        vec![b"fake-tts:0:Hel".to_vec(), b"fake-tts:1:lo".to_vec()]
    );
    assert!(matches!(answered.tts.last(), Some(TtsEvent::Done)));
    assert_eq!(tts.active_stream_count(), 0);
}

#[test]
fn voice_turn_runner_cancellation_drops_tts_and_leaves_partial_text_uncommitted() {
    let mut tts = FakeTextToSpeech::new();
    let mut context = ConversationContext::new();

    let answered = answer(&runtime(), &mut context, "hello", &["partial"], true, &mut tts);

    assert_eq!(audio_chunks(&answered.tts), vec![b"fake-tts:0:partial".to_vec()]);
    assert!(matches!(answered.result, Err(VoiceTurnError::Cancelled)));
    assert!(context.messages().iter().all(|message| message.role != "assistant"));
    assert_eq!(tts.active_stream_count(), 0);
}

#[test]
fn cancelling_during_tts_streaming_drops_active_tts_stream() {
    let mut tts = FakeTextToSpeech::new();
    let stream = tts.start_stream();
    assert_eq!(tts.active_stream_count(), 1);
    let mut adapter = TtsAdapter::new();
    let step = adapter.step(assistant_token("hello"), 1);
    assert_eq!(step.speak.as_deref(), Some("hello"));
    let step = adapter.step(AdapterInput::Cancelled, 2);
    tts.drop_stream(stream);
    assert!(matches!(step.result, Some(Err(TtsAdapterError::Cancelled))));
    assert!(adapter.finished);
    assert_eq!(tts.active_stream_count(), 0);
}

#[test]
fn cancelling_during_llm_streaming_stops_token_forwarding_to_tts() {
    let mut tts = FakeTextToSpeech::new();
    let mut speaker = Speaker::new(&mut tts);
    let runtime = runtime();
    let mut context = ConversationContext::new();
    let mut inputs = vec![
        TurnInput::Proceed { cancelled: false },
        TurnInput::StreamEvent(Ok(TokenEvent::Token { text: "first".to_string() })),
        TurnInput::StreamCancelled,
    ]
    .into_iter();
    let mut step = runtime.begin_turn(&mut context, "hello", 0);
    let runtime_result = loop {
        for event in step.events {
            speaker.take(AdapterInput::Runtime(Some(event)));
        }
        if let TurnAction::Finish(result) = step.action {
            break result;
        }
        let input = inputs.next().expect("the turn should be over");
        if matches!(input, TurnInput::StreamCancelled) {
            assert_eq!(audio_chunks(&speaker.forwarded), vec![b"fake-tts:0:first".to_vec()]);
            assert!(speaker.result.is_none());
        }
        step = runtime.advance(step.turn, &mut context, input, 3);
    };
    assert!(matches!(runtime_result, Err(RuntimeError::Cancelled)));
    assert!(matches!(speaker.result, Some(Err(TtsAdapterError::Cancelled))));
    speaker.take(assistant_token("late"));
    assert!(
        audio_chunks(&speaker.forwarded).iter().all(|chunk| chunk != &b"fake-tts:1:late".to_vec())
    );
}

#[test]
fn completed_turns_take_no_more_text() {
    let mut adapter = TtsAdapter::new();
    adapter.step(
        AdapterInput::Runtime(Some(RuntimeEvent::Lifecycle {
            from: None,
            to: RequestState::Completed,
            elapsed_ms: 1,
        })),
        1,
    );
    assert!(!adapter.text_open && !adapter.finished);
    assert_eq!(adapter.step(assistant_token("late"), 2).speak, None);
    let step = adapter.step(
        AdapterInput::Audio(Some(Err(TtsError::Backend("x".to_string())))),
        3,
    );
    match step.result {
        Some(Err(error)) => assert_eq!(error.message(), "TTS backend failed: x"),
        other => panic!("a failed backend should end speaking: {other:?}"),
    }
    let mut adapter = TtsAdapter::new();
    assert_eq!(adapter.step(assistant_token("**"), 1).speak, None);
    assert!(matches!(adapter.step(AdapterInput::Audio(None), 2).result, Some(Ok(()))));
}

#[test]
fn halves_of_a_turn_are_joined() {
    let joined = |runtime, tts| voice_turn_result(runtime, tts);
    let backend = || TtsAdapterError::Tts(TtsError::Backend("x".to_string()));
    assert_eq!(joined(Ok("a".to_string()), Ok(())).expect("both succeeded").text, "a");
    assert!(matches!(
        joined(Ok("a".to_string()), Err(TtsAdapterError::Cancelled)),
        Err(VoiceTurnError::Cancelled)
    ));
    assert!(matches!(
        joined(Err(RuntimeError::Cancelled), Ok(())),
        Err(VoiceTurnError::Cancelled)
    ));
    assert!(matches!(
        joined(Err(RuntimeError::Cancelled), Err(backend())),
        Err(VoiceTurnError::Tts(_))
    ));
    match joined(Err(RuntimeError::MaxToolRounds { max_rounds: 1 }), Err(backend())) {
        Err(error) => assert_eq!(error.message(), "exceeded maximum tool rounds: 1"),
        Ok(output) => panic!("a failed turn has no output: {output:?}"),
    }
    assert!(FirstHalf::Runtime(Err(RuntimeError::Cancelled)).cancels_the_other());
    assert!(!FirstHalf::Tts(Ok(())).cancels_the_other());
    let mut context = ConversationContext::new();
    let end = end_voice_turn(&mut context, Ok("ab".to_string()), Err(backend()), 5);
    assert_eq!(end.voice, VoiceEvent::VoiceTurnFailed { elapsed_ms: 5 });
}

/// Streams an answer to its end, without speaking it.
fn stream_answer(
    context: &mut ConversationContext,
    transcript: &str,
    text: &str,
) -> Result<String, RuntimeError> {
    let runtime = runtime();
    let mut step = runtime.begin_turn(context, transcript, 0);
    let mut tokens = vec![text].into_iter();
    loop {
        let input = match step.action {
            TurnAction::Finish(result) => return result,
            TurnAction::Proceed => TurnInput::Proceed { cancelled: false },
            _ => match tokens.next() {
                Some(text) => TurnInput::StreamEvent(Ok(TokenEvent::Token {
                    text: text.to_string(),
                })),
                None => TurnInput::StreamEnd,
            },
        };
        step = runtime.advance(step.turn, context, input, 1);
    }
}

fn spoken_context(messages: &ConversationContext) -> Vec<(String, String)> {
    messages.messages().iter().map(|m| (m.role.clone(), m.content.clone())).collect()
}

#[test]
fn answers_stay_in_the_conversation_only_where_they_were_spoken() {
    let said = |role: &str, content: &str| (role.to_string(), content.to_string());
    let mut context = ConversationContext::new();

    let result = stream_answer(&mut context, "one", "first");
    let end = end_voice_turn(&mut context, result, Ok(()), 1);
    assert_eq!(end.result.expect("both halves succeeded").text, "first");
    let kept = vec![said("user", "one"), said("assistant", "first")];
    assert_eq!(spoken_context(&context), kept);

    let result = stream_answer(&mut context, "two", "second");
    let end = end_voice_turn(&mut context, result, Err(TtsAdapterError::Cancelled), 2);
    assert!(matches!(end.result, Err(VoiceTurnError::Cancelled)));
    let mut kept = kept;
    kept.push(said("user", "two"));
    assert_eq!(spoken_context(&context), kept);

    let result = stream_answer(&mut context, "three", "third");
    let failed = TtsAdapterError::Tts(TtsError::Backend("gone".to_string()));
    let end = end_voice_turn(&mut context, result, Err(failed), 3);
    assert!(matches!(end.result, Err(VoiceTurnError::Tts(_))));
    kept.push(said("user", "three"));
    assert_eq!(spoken_context(&context), kept);

    let end = end_voice_turn(
        &mut context,
        Err(RuntimeError::Cancelled),
        Err(TtsAdapterError::Cancelled),
        4,
    );
    assert!(matches!(end.result, Err(VoiceTurnError::Cancelled)));
    assert_eq!(spoken_context(&context), kept);
}

#[test]
fn sessions_name_what_failed() {
    let mut session = VoiceSession::new();
    session.turn_started();
    let (_, end) = stop(
        &mut session,
        StopReason::Interrupt,
        false,
        TurnOutcome::Ended(Err(VoiceTurnError::MissingFinalTranscript)),
    );
    match end.result {
        Err(error) => {
            assert_eq!(error.message(), "STT stream completed without a final transcript")
        }
        Ok(output) => panic!("the error should be told: {output:?}"),
    }
    session.turn_started();
    let (_, end) =
        stop(&mut session, StopReason::Cancel, true, TurnOutcome::Lost("panicked".to_string()));
    assert!(!end.reset_playback);
    match end.result {
        Err(error) => {
            assert!(matches!(error, VoiceSessionError::TaskJoin(_)));
            assert_eq!(error.message(), "voice turn task failed: panicked");
        }
        Ok(output) => panic!("the error should be told: {output:?}"),
    }
    session.turn_started();
    let (_, end) = stop(
        &mut session,
        StopReason::Cancel,
        false,
        TurnOutcome::Ended(Err(VoiceTurnError::Cancelled)),
    );
    assert!(matches!(
        end.result,
        Err(VoiceSessionError::VoiceTurn(VoiceTurnError::Cancelled))
    ));
}

#[test]
fn failed_transcriptions_fail_the_turn() {
    let step = listen(
        TranscriptInput::Event(Err(SttError::Backend("x".to_string()))),
        8,
    );
    assert_eq!(step.voice, Some(VoiceEvent::VoiceTurnFailed { elapsed_ms: 8 }));
    match step.next {
        ListenNext::Fail(error) => assert_eq!(error.message(), "STT backend failed: x"),
        other => panic!("the turn should fail: {other:?}"),
    }
    assert!(matches!(
        listen(TranscriptInput::End, 1).next,
        ListenNext::Fail(VoiceTurnError::MissingFinalTranscript)
    ));
}

#[test]
fn voice_latency_recorder_summarizes_nearest_rank_percentiles() {
    let mut recorder = VoiceLatencyRecorder::new();

    for elapsed_ms in [30, 10, 40, 20] {
        recorder.record(VoiceLatencyMetric::LlmFirstToken, elapsed_ms);
    }

    assert_eq!(
        recorder.snapshot().llm_first_token,
        Some(VoiceLatencyStats {
            samples: 4,
            p50_ms: 20,
            p95_ms: 40,
        })
    );
}

#[test]
fn summaries_do_not_depend_on_the_order_of_samples() {
    let mut up = VoiceLatencyRecorder::default();
    let mut down = VoiceLatencyRecorder::default();
    for i in 1..=100_u128 {
        up.record(VoiceLatencyMetric::TtsFirstAudio, i);
        down.record(VoiceLatencyMetric::TtsFirstAudio, 101 - i);
    }
    assert_eq!(up.snapshot(), down.snapshot());
    assert_eq!(
        up.snapshot().tts_first_audio,
        Some(VoiceLatencyStats { samples: 100, p50_ms: 50, p95_ms: 95 })
    );
    assert_eq!(VoiceLatencyMetric::TtsFirstAudio.name(), "tts_first_audio");
}

#[test]
fn voice_latency_recorder_ingests_voice_events() {
    let mut recorder = VoiceLatencyRecorder::new();

    for event in [
        VoiceEvent::SttPartial {
            elapsed_ms: 5,
            stt_elapsed_ms: 5,
            transcript_chars: 2,
        },
        VoiceEvent::SttFinal {
            elapsed_ms: 15,
            stt_elapsed_ms: 12,
            transcript_chars: 8,
        },
        VoiceEvent::LlmFirstToken {
            elapsed_ms: 30,
            runtime_elapsed_ms: 18,
        },
        VoiceEvent::TtsFirstAudio {
            elapsed_ms: 45,
            tts_elapsed_ms: 9,
        },
        VoiceEvent::VoiceTurnCompleted {
            elapsed_ms: 70,
            output_chars: 11,
        },
    ] {
        recorder.record_event(&event);
    }

    assert_eq!(
        recorder.snapshot(),
        VoiceLatencySnapshot {
            stt_finalization: Some(VoiceLatencyStats {
                samples: 1,
                p50_ms: 12,
                p95_ms: 12,
            }),
            llm_first_token: Some(VoiceLatencyStats {
                samples: 1,
                p50_ms: 18,
                p95_ms: 18,
            }),
            tts_first_audio: Some(VoiceLatencyStats {
                samples: 1,
                p50_ms: 9,
                p95_ms: 9,
            }),
            voice_turn_round_trip: Some(VoiceLatencyStats {
                samples: 1,
                p50_ms: 70,
                p95_ms: 70,
            }),
        }
    );
}

#[test]
fn tts_sanitizer_drops_markdown_formatting_markers() {
    assert_eq!(
        sanitize_tts_fragment("***In a nutshell***: `async` lets Rust #tasks run."),
        "In a nutshell: async lets Rust tasks run."
    );
}

#[test]
fn sanitizing_again_and_in_parts_changes_nothing() {
    let text = "a*b`c#d **";
    let whole = sanitize_tts_fragment(text);
    assert_eq!(sanitize_tts_fragment(&whole), whole);
    for at in 0..=text.len() {
        let parts =
            format!("{}{}", sanitize_tts_fragment(&text[..at]), sanitize_tts_fragment(&text[at..]));
        assert_eq!(parts, whole);
    }
}

#[test]
fn tracing_is_switched_on_by_name() {
    for on in ["1", "true", "TRUE", "yes", "YES"] {
        assert!(voice_stt_trace_enabled(Some(on.to_string())));
    }
    for off in ["", "0", "True", "on"] {
        assert!(!voice_stt_trace_enabled(Some(off.to_string())));
    }
    assert!(!voice_stt_trace_enabled(None));
    assert_eq!(*RuntimeTtsAdapter::new(4).tts(), 4);
}
