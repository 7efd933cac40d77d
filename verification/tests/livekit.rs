use ai_runtime::voice::livekit::audio::{
    audio_frame_elapsed_ms, frame_has_speech, linear16_bytes_to_samples_with_pending,
    truncate_to_complete_channels,
};
use ai_runtime::voice::livekit::playback::{Playback, PlaybackAction};
use ai_runtime::voice::livekit::segments::ActiveLiveKitAudioTurn;
use ai_runtime::voice::livekit::LiveKitEnv;
use ai_runtime::{
    linear16_bytes_to_samples, linear16_samples_to_bytes, Duration, LiveKitConfig,
    LiveKitConfigError, LiveKitTransportError, TtsEvent,
};
use livekit_api::access_token::{Claims, TokenVerifier};

#[test]
fn config_generates_join_publish_subscribe_token() {
    let config = LiveKitConfig::new("wss://example.livekit.cloud", "devkey", "secret")
        .with_room("test-room")
        .with_identity("agent")
        .with_name("Agent")
        .with_token_ttl(Duration::from_secs(60));

    let token = config.access_token().expect("token should be generated");
    let claims = Claims::from_unverified(&token).expect("token claims should decode");

    assert_eq!(claims.iss, "devkey");
    assert_eq!(claims.sub, "agent");
    assert_eq!(claims.name, "Agent");
    assert_eq!(claims.video.room, "test-room");
    assert!(claims.video.room_join);
    assert!(claims.video.can_publish);
    assert!(claims.video.can_subscribe);
}

#[test]
fn tokens_are_signed_with_the_secret_and_end_after_their_time() {
    let config = LiveKitConfig::new("u", "devkey", "secret");
    let token = config.access_token().expect("token should be generated");
    let claims = TokenVerifier::with_api_key("devkey", "secret")
        .verify(&token)
        .expect("token should verify");
    assert!(claims.exp >= claims.nbf + 3_600);
    assert!(TokenVerifier::with_api_key("devkey", "other").verify(&token).is_err());
    assert_eq!(claims.video.room, "ai-runtime");
    assert_eq!(claims.sub, "ai-runtime-agent");
}

#[test]
fn tokens_need_keys_a_room_and_an_identity() {
    let refused = |config: LiveKitConfig| match config.access_token() {
        Err(error) => error.message(),
        Ok(token) => panic!("the token should be refused: {token}"),
    };
    let keys = "LiveKit token generation failed: Invalid API Key or Secret Key";
    let claims = "LiveKit token generation failed: invalid claims: token grants room_join but doesn't have an identity or room";
    assert_eq!(refused(LiveKitConfig::new("u", "", "secret")), keys);
    assert_eq!(refused(LiveKitConfig::new("u", "key", "")), keys);
    assert_eq!(refused(LiveKitConfig::new("u", "k", "s").with_room("")), claims);
    assert_eq!(refused(LiveKitConfig::new("u", "k", "s").with_identity("")), claims);
    assert!(LiveKitConfig::new("u", "k", "s").with_name("").access_token().is_ok());
}

#[test]
fn linear16_samples_round_trip_as_little_endian_bytes() {
    let samples = [-32_768, -2, -1, 0, 1, 2, 32_767];

    let bytes = linear16_samples_to_bytes(&samples);
    let decoded = linear16_bytes_to_samples(&bytes);

    assert_eq!(decoded, samples);
}

#[test]
fn linear16_bytes_are_those_of_the_standard_library() {
    for sample in i16::MIN..=i16::MAX {
        assert_eq!(linear16_samples_to_bytes(&[sample]), sample.to_le_bytes().to_vec());
    }
}

#[test]
fn split_linear16_bytes_preserve_pending_odd_byte() {
    let mut pending = None;

    let first = linear16_bytes_to_samples_with_pending(&mut pending, &[0x34]);
    let second = linear16_bytes_to_samples_with_pending(&mut pending, &[0x12, 0x78, 0x56]);

    assert!(first.is_empty());
    assert_eq!(second, vec![0x1234, 0x5678]);
    assert_eq!(pending, None);
}

#[test]
fn every_split_of_bytes_gives_the_same_samples() {
    let bytes = [1, 2, 3, 4, 5, 6, 7];
    let whole = linear16_bytes_to_samples(&bytes);
    for at in 0..=bytes.len() {
        let mut pending = None;
        let mut samples = linear16_bytes_to_samples_with_pending(&mut pending, &bytes[..at]);
        samples.extend(linear16_bytes_to_samples_with_pending(&mut pending, &bytes[at..]));
        assert_eq!(samples, whole);
        assert_eq!(pending, Some(7));
    }
}

#[test]
fn incomplete_channel_samples_are_dropped() {
    let mut samples = vec![1, 2, 3, 4, 5];

    truncate_to_complete_channels(&mut samples, 2);

    assert_eq!(samples, vec![1, 2, 3, 4]);
}

#[test]
fn no_channels_keep_no_samples() {
    let mut samples = vec![1, 2];
    truncate_to_complete_channels(&mut samples, 3);
    assert!(samples.is_empty());
    let mut samples = vec![1, 2];
    truncate_to_complete_channels(&mut samples, 0);
    assert!(samples.is_empty());
}

#[test]
fn frame_has_speech_uses_average_absolute_sample_energy() {
    assert!(!frame_has_speech(&[], 250));
    assert!(!frame_has_speech(&[0, 10, -10, 20], 250));
    assert!(frame_has_speech(&[300, -400, 500, -600], 250));
    assert!(frame_has_speech(&[i16::MIN], 250));
}

#[test]
fn frame_lengths_are_whole_milliseconds() {
    assert_eq!(audio_frame_elapsed_ms(16_000, 160), 10);
    assert_eq!(audio_frame_elapsed_ms(44_100, 441), 10);
    assert_eq!(audio_frame_elapsed_ms(16_000, 15), 0);
    assert_eq!(audio_frame_elapsed_ms(0, 160), 0);
}

fn env() -> LiveKitEnv {
    LiveKitEnv {
        url: Some("wss://l".to_string()),
        api_key: Some("k".to_string()),
        api_secret: Some("s".to_string()),
        room: None,
        identity: None,
        name: None,
        input_sample_rate: None,
        input_channels: None,
        input_speech_threshold: None,
        input_min_speech_ms: None,
        input_silence_timeout_ms: None,
        output_sample_rate: None,
        output_channels: None,
    }
}

#[test]
fn environment_defaults_are_the_documented_ones() {
    let mut given = env();
    given.room = Some("  ".to_string());
    let config = LiveKitConfig::from_env(given).expect("config");
    assert_eq!(config.url, "wss://l");
    assert_eq!(config.room, "ai-runtime");
    assert_eq!(config.identity, "ai-runtime-agent");
    assert_eq!(config.name, "ai-runtime agent");
    assert_eq!(config.input_sample_rate, 16_000);
    assert_eq!(config.input_channels, 1);
    assert_eq!(config.input_speech_threshold, 250);
    assert_eq!(config.input_min_speech.as_millis(), 120);
    assert_eq!(config.input_silence_timeout.as_millis(), 700);
    assert_eq!(config.output_sample_rate, 24_000);
    assert_eq!(config.output_channels, 1);
    assert_eq!(config.token_ttl.as_secs(), 3_600);
}

#[test]
fn environment_values_replace_the_defaults() {
    let text = |value: &str| Some(value.to_string());
    let mut given = env();
    given.room = text("r");
    given.identity = text("i");
    given.name = text("n");
    given.input_sample_rate = text("1");
    given.input_channels = text("2");
    given.input_speech_threshold = text("3");
    given.input_min_speech_ms = text("4");
    given.input_silence_timeout_ms = text("5");
    given.output_sample_rate = text("6");
    given.output_channels = text("7");
    let config = LiveKitConfig::from_env(given).expect("config");
    assert_eq!((config.room.as_str(), config.identity.as_str(), config.name.as_str()), ("r", "i", "n"));
    assert_eq!(config.input_sample_rate, 1);
    assert_eq!(config.input_channels, 2);
    assert_eq!(config.input_speech_threshold, 3);
    assert_eq!(config.input_min_speech.as_millis(), 4);
    assert_eq!(config.input_silence_timeout.as_millis(), 5);
    assert_eq!(config.output_sample_rate, 6);
    assert_eq!(config.output_channels, 7);
}

#[test]
fn environment_faults_are_named() {
    let refused = |given: LiveKitEnv| match LiveKitConfig::from_env(given) {
        Err(error) => error,
        Ok(config) => panic!("the environment should be refused: {config:?}"),
    };
    let mut given = env();
    given.url = None;
    assert_eq!(refused(given), LiveKitConfigError::MissingEnv("LIVEKIT_URL"));
    let mut given = env();
    given.api_key = None;
    assert_eq!(refused(given).message(), "LIVEKIT_API_KEY must be set");
    let mut given = env();
    given.api_secret = None;
    assert_eq!(refused(given), LiveKitConfigError::MissingEnv("LIVEKIT_API_SECRET"));
    let mut given = env();
    given.input_channels = Some("0".to_string());
    let error = refused(given);
    assert_eq!(
        error,
        LiveKitConfigError::InvalidU32 {
            name: "LIVEKIT_INPUT_CHANNELS",
            value: "0".to_string()
        }
    );
    assert_eq!(error.message(), "LIVEKIT_INPUT_CHANNELS must be a positive integer, got \"0\"");
    let mut given = env();
    given.input_min_speech_ms = Some("soon".to_string());
    assert_eq!(
        refused(given).message(),
        "LIVEKIT_INPUT_MIN_SPEECH_MS must be a positive integer, got \"soon\""
    );
    assert_eq!(
        LiveKitTransportError::Connect("x".to_string()).message(),
        "LiveKit room connection failed: x"
    );
    assert_eq!(
        LiveKitTransportError::Publish("x".to_string()).message(),
        "LiveKit TTS output track publish failed: x"
    );
    assert!(LiveKitTransportError::FeatureDisabled.message().contains("livekit-transport"));
}

#[test]
fn builders_change_what_they_name() {
    let config = LiveKitConfig::new("u", "k", "s")
        .with_input_audio(8_000, 2)
        .with_input_vad(100, Duration::from_millis(300))
        .with_input_min_speech(Duration::from_millis(60))
        .with_output_audio(48_000, 2);
    assert_eq!((config.input_sample_rate, config.input_channels), (8_000, 2));
    assert_eq!(config.input_speech_threshold, 100);
    assert_eq!(config.input_silence_timeout.as_millis(), 300);
    assert_eq!(config.input_min_speech.as_millis(), 60);
    assert_eq!((config.output_sample_rate, config.output_channels), (48_000, 2));
}

#[test]
fn turns_open_on_enough_speech_and_close_on_enough_silence() {
    let config = LiveKitConfig::new("u", "k", "s")
        .with_input_vad(250, Duration::from_millis(40))
        .with_input_min_speech(Duration::from_millis(40));
    let mut turn = ActiveLiveKitAudioTurn::new();

    let step = turn.push_frame(&[1], 20, true, &config);
    assert!(!step.opens && step.chunks.is_empty());
    let step = turn.push_frame(&[2], 20, false, &config);
    assert!(!step.opens && step.chunks.is_empty());

    turn.push_frame(&[3], 20, true, &config);
    let step = turn.push_frame(&[4], 20, true, &config);
    assert!(step.opens && !step.closes);
    let sent: Vec<(Vec<u8>, u128, Option<bool>)> = step
        .chunks
        .iter()
        .map(|chunk| (chunk.bytes.clone(), chunk.elapsed_ms, chunk.is_speech))
        .collect();
    assert_eq!(
        sent,
        vec![(vec![3, 0], 20, Some(true)), (vec![4, 0], 40, Some(true))]
    );

    let step = turn.push_frame(&[5], 20, false, &config);
    assert!(!step.opens && !step.closes);
    assert_eq!(step.chunks[0].elapsed_ms, 60);
    assert_eq!(step.chunks[0].is_speech, Some(false));
    let step = turn.push_frame(&[6], 20, false, &config);
    assert!(step.closes);
    assert_eq!(step.chunks.len(), 1);

    assert!(turn.push_frame(&[7], 20, false, &config).chunks.is_empty());
    turn.push_frame(&[8], 20, true, &config);
    turn.close();
    assert!(!turn.push_frame(&[9], 20, true, &config).opens);
}

#[test]
fn playback_joins_split_samples_and_forgets_on_reset() {
    let audio = |bytes: &[u8]| TtsEvent::AudioChunk { bytes: bytes.to_vec(), elapsed_ms: 0 };
    let mut playback = Playback::new();
    assert!(matches!(
        playback.on_event(TtsEvent::FirstAudio { elapsed_ms: 0 }, 1),
        PlaybackAction::Nothing
    ));
    assert!(matches!(playback.on_event(audio(&[0x34]), 1), PlaybackAction::Nothing));
    match playback.on_event(audio(&[0x12, 0x78, 0x56, 0x01]), 1) {
        PlaybackAction::Play(frame) => {
            assert_eq!(frame.samples, vec![0x1234, 0x5678]);
            assert_eq!(frame.samples_per_channel, 2);
        }
        other => panic!("samples should be played: {other:?}"),
    }
    assert!(matches!(playback.on_event(TtsEvent::PlaybackReset, 1), PlaybackAction::Clear));
    assert_eq!(playback, Playback::new());
    playback.on_event(audio(&[9]), 1);
    assert!(matches!(playback.on_event(TtsEvent::Done, 1), PlaybackAction::Nothing));
    match playback.on_event(audio(&[1, 0, 2, 0, 3, 0]), 2) {
        PlaybackAction::Play(frame) => {
            assert_eq!(frame.samples, vec![1, 2]);
            assert_eq!(frame.samples_per_channel, 1);
        }
        other => panic!("samples should be played: {other:?}"),
    }
    assert!(matches!(playback.on_event(audio(&[1, 0]), 0), PlaybackAction::Nothing));
}

#[test]
fn tokens_are_made_of_the_configuration() {
    let span = Duration::from_millis(90_250);
    let config = LiveKitConfig::new("u", "key", "secret").with_room("r").with_token_ttl(span);
    let request = config.token_request();
    assert_eq!((request.api_key.as_str(), request.api_secret.as_str()), ("key", "secret"));
    assert_eq!((request.ttl_secs, request.ttl_nanos), (90, 250_000_000));
    assert_eq!(request.claims.room, "r");
    let token = config.access_token().expect("token should be generated");
    let claims = Claims::from_unverified(&token).expect("token claims should decode");
    assert!(claims.exp >= claims.nbf + 90);
    assert!(claims.exp <= claims.nbf + 100);
}

#[test]
fn bytes_come_back_but_for_one_that_is_left_over() {
    for bytes in [vec![], vec![1], vec![0, 128], vec![255, 127, 1, 0, 9]] {
        let even = bytes.len() - bytes.len() % 2;
        let again = linear16_samples_to_bytes(&linear16_bytes_to_samples(&bytes));
        assert_eq!(again, bytes[..even].to_vec());
    }
}
