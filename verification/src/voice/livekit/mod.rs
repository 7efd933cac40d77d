//! LiveKit: how to join a room, and the audio that goes in and out of it.
use vstd::prelude::*;

use crate::text::{
    debug_form, debug_text, opt_view, parsed_number, trim, trimmed, trimming_keeps_text,
    trimming_leaves_the_middle, white_space, IntoText,
};
use crate::time::Duration;
use crate::voice::deepgram::{parse_positive, positive_number};

pub mod audio;
pub mod playback;
pub mod segments;
pub mod token;

verus! {

pub const DEFAULT_INPUT_SAMPLE_RATE: u32 = 16_000;

pub const DEFAULT_INPUT_CHANNELS: u32 = 1;

pub const DEFAULT_INPUT_SPEECH_THRESHOLD: u32 = 250;

pub const DEFAULT_INPUT_MIN_SPEECH_MS: u64 = 120;

pub const DEFAULT_INPUT_SILENCE_TIMEOUT_MS: u64 = 700;

pub const DEFAULT_OUTPUT_SAMPLE_RATE: u32 = 24_000;

pub const DEFAULT_OUTPUT_CHANNELS: u32 = 1;

pub const DEFAULT_TOKEN_TTL_SECS: u64 = 3_600;

/// Which room to join, as whom, and how audio is read and written there.
#[derive(Debug)]
pub struct LiveKitConfig {
    pub url: String,
    pub api_key: String,
    pub api_secret: String,
    pub room: String,
    pub identity: String,
    pub name: String,
    pub input_sample_rate: u32,
    pub input_channels: u32,
    pub input_speech_threshold: u32,
    pub input_min_speech: Duration,
    pub input_silence_timeout: Duration,
    pub output_sample_rate: u32,
    pub output_channels: u32,
    pub token_ttl: Duration,
}

/// What a configuration holds; spans of time in nanoseconds.
#[verifier::ext_equal]
pub struct LiveKitConfigView {
    pub url: Seq<char>,
    pub api_key: Seq<char>,
    pub api_secret: Seq<char>,
    pub room: Seq<char>,
    pub identity: Seq<char>,
    pub name: Seq<char>,
    pub input_sample_rate: u32,
    pub input_channels: u32,
    pub input_speech_threshold: u32,
    pub input_min_speech: int,
    pub input_silence_timeout: int,
    pub output_sample_rate: u32,
    pub output_channels: u32,
    pub token_ttl: int,
}

impl View for LiveKitConfig {
    type V = LiveKitConfigView;

    open spec fn view(&self) -> LiveKitConfigView {
        LiveKitConfigView {
            url: self.url@,
            api_key: self.api_key@,
            api_secret: self.api_secret@,
            room: self.room@,
            identity: self.identity@,
            name: self.name@,
            input_sample_rate: self.input_sample_rate,
            input_channels: self.input_channels,
            input_speech_threshold: self.input_speech_threshold,
            input_min_speech: self.input_min_speech.total_nanos(),
            input_silence_timeout: self.input_silence_timeout.total_nanos(),
            output_sample_rate: self.output_sample_rate,
            output_channels: self.output_channels,
            token_ttl: self.token_ttl.total_nanos(),
        }
    }
}

/// Why there is no configuration, or no token.
#[derive(Debug, PartialEq, Eq)]
pub enum LiveKitConfigError {
    MissingEnv(&'static str),
    InvalidU32 { name: &'static str, value: String },
    InvalidU64 { name: &'static str, value: String },
    Token(String),
}

#[verifier::ext_equal]
pub enum LiveKitConfigErrorView {
    MissingEnv(Seq<char>),
    InvalidU32 { name: Seq<char>, value: Seq<char> },
    InvalidU64 { name: Seq<char>, value: Seq<char> },
    Token(Seq<char>),
}

impl View for LiveKitConfigError {
    type V = LiveKitConfigErrorView;

    open spec fn view(&self) -> LiveKitConfigErrorView {
        match self {
            LiveKitConfigError::MissingEnv(name) => LiveKitConfigErrorView::MissingEnv(name@),
            LiveKitConfigError::InvalidU32 { name, value } => LiveKitConfigErrorView::InvalidU32 {
                name: name@,
                value: value@,
            },
            LiveKitConfigError::InvalidU64 { name, value } => LiveKitConfigErrorView::InvalidU64 {
                name: name@,
                value: value@,
            },
            LiveKitConfigError::Token(message) => LiveKitConfigErrorView::Token(message@),
        }
    }
}

impl LiveKitConfigErrorView {
    /// What the error says.
    pub open spec fn text(self) -> Seq<char> {
        match self {
            LiveKitConfigErrorView::MissingEnv(name) => name + " must be set"@,
            LiveKitConfigErrorView::InvalidU32 { name, value } => name
                + " must be a positive integer, got "@ + debug_form(value),
            LiveKitConfigErrorView::InvalidU64 { name, value } => name
                + " must be a positive integer, got "@ + debug_form(value),
            LiveKitConfigErrorView::Token(message) => "LiveKit token generation failed: "@
                + message,
        }
    }
}

impl LiveKitConfigError {
    /// What the error says.
    pub fn message(&self) -> (text: String)
        ensures
            text@ == self@.text(),
    {
        match self {
            LiveKitConfigError::MissingEnv(name) => (*name).to_owned().concat(" must be set"),
            LiveKitConfigError::InvalidU32 { name, value } => {
                (*name).to_owned().concat(" must be a positive integer, got ").concat(
                    debug_text(value.as_str()).as_str(),
                )
            },
            LiveKitConfigError::InvalidU64 { name, value } => {
                (*name).to_owned().concat(" must be a positive integer, got ").concat(
                    debug_text(value.as_str()).as_str(),
                )
            },
            LiveKitConfigError::Token(message) => {
                "LiveKit token generation failed: ".to_owned().concat(message.as_str())
            },
        }
    }
}

/// Why no room was joined.
#[derive(Debug, PartialEq, Eq)]
pub enum LiveKitTransportError {
    FeatureDisabled,
    Config(LiveKitConfigError),
    Connect(String),
    Publish(String),
}

#[verifier::ext_equal]
pub enum LiveKitTransportErrorView {
    FeatureDisabled,
    Config(LiveKitConfigErrorView),
    Connect(Seq<char>),
    Publish(Seq<char>),
}

impl View for LiveKitTransportError {
    type V = LiveKitTransportErrorView;

    open spec fn view(&self) -> LiveKitTransportErrorView {
        match self {
            LiveKitTransportError::FeatureDisabled => LiveKitTransportErrorView::FeatureDisabled,
            LiveKitTransportError::Config(error) => LiveKitTransportErrorView::Config(error@),
            LiveKitTransportError::Connect(message) => LiveKitTransportErrorView::Connect(message@),
            LiveKitTransportError::Publish(message) => LiveKitTransportErrorView::Publish(message@),
        }
    }
}

impl LiveKitTransportErrorView {
    /// What the error says.
    pub open spec fn text(self) -> Seq<char> {
        match self {
            LiveKitTransportErrorView::FeatureDisabled => {
                "LiveKit transport requires building with `--features livekit-transport` and clang++ 21 or newer"@
            },
            LiveKitTransportErrorView::Config(error) => error.text(),
            LiveKitTransportErrorView::Connect(message) => "LiveKit room connection failed: "@
                + message,
            LiveKitTransportErrorView::Publish(message) => {
                "LiveKit TTS output track publish failed: "@ + message
            },
        }
    }
}

impl LiveKitTransportError {
    /// What the error says.
    pub fn message(&self) -> (text: String)
        ensures
            text@ == self@.text(),
    {
        match self {
            LiveKitTransportError::FeatureDisabled => {
                "LiveKit transport requires building with `--features livekit-transport` and clang++ 21 or newer".to_owned()
            },
            LiveKitTransportError::Config(error) => error.message(),
            LiveKitTransportError::Connect(message) => {
                "LiveKit room connection failed: ".to_owned().concat(message.as_str())
            },
            LiveKitTransportError::Publish(message) => {
                "LiveKit TTS output track publish failed: ".to_owned().concat(message.as_str())
            },
        }
    }
}

/// The values of the environment that configure LiveKit, where they are set.
#[derive(Debug)]
pub struct LiveKitEnv {
    pub url: Option<String>,
    pub api_key: Option<String>,
    pub api_secret: Option<String>,
    pub room: Option<String>,
    pub identity: Option<String>,
    pub name: Option<String>,
    pub input_sample_rate: Option<String>,
    pub input_channels: Option<String>,
    pub input_speech_threshold: Option<String>,
    pub input_min_speech_ms: Option<String>,
    pub input_silence_timeout_ms: Option<String>,
    pub output_sample_rate: Option<String>,
    pub output_channels: Option<String>,
}

/// A value that is set to more than white space.
pub open spec fn given(value: Option<String>) -> Option<Seq<char>> {
    match value {
        Some(text) if trimmed(text@).len() > 0 => Some(text@),
        _ => None,
    }
}

/// The text that a value gives, or the default one.
pub open spec fn given_or(value: Option<String>, default: Seq<char>) -> Seq<char> {
    match given(value) {
        Some(text) => text,
        None => default,
    }
}

/// Whether a value gives a positive number no larger than `max`, or nothing.
pub open spec fn acceptable(value: Option<String>, max: int) -> bool {
    given(value) matches Some(text) ==> positive_number(text, max) is Some
}

/// The number that a value gives, or the default one.
pub open spec fn number_or(value: Option<String>, max: int, default: int) -> int {
    match given(value) {
        Some(text) => positive_number(text, max).unwrap(),
        None => default,
    }
}

/// A value that is set to more than white space.
pub fn optional_env(value: Option<String>) -> (text: Option<String>)
    ensures
        opt_view(text) == given(value),
{
    match value {
        Some(text) => if trim(text.as_str()).as_str().is_empty() {
            None
        } else {
            Some(text)
        },
        None => None,
    }
}

/// A value that must be set.
pub fn required_env(name: &'static str, value: Option<String>) -> (text: std::result::Result<
    String,
    LiveKitConfigError,
>)
    ensures
        match value {
            Some(value) => text is Ok && text->Ok_0@ == value@,
            None => text is Err && text->Err_0@ == LiveKitConfigErrorView::MissingEnv(name@),
        },
{
    match value {
        Some(value) => Ok(value),
        None => Err(LiveKitConfigError::MissingEnv(name)),
    }
}

fn env_or(value: Option<String>, default: &str) -> (text: String)
    ensures
        text@ == given_or(value, default@),
{
    match optional_env(value) {
        Some(text) => text,
        None => default.to_owned(),
    }
}

/// The number that a value gives, `None` where it gives nothing.
pub fn optional_u32_env(name: &'static str, value: Option<String>) -> (number: std::result::Result<
    Option<u32>,
    LiveKitConfigError,
>)
    ensures
        match given(value) {
            None => number == std::result::Result::<Option<u32>, LiveKitConfigError>::Ok(None),
            Some(text) => match positive_number(text, u32::MAX as int) {
                Some(n) => number == std::result::Result::<Option<u32>, LiveKitConfigError>::Ok(
                    Some(n as u32),
                ),
                None => number is Err && number->Err_0@ == (LiveKitConfigErrorView::InvalidU32 {
                    name: name@,
                    value: text,
                }),
            },
        },
{
    match optional_env(value) {
        None => Ok(None),
        Some(value) => match parse_positive(value.as_str(), u32::MAX as u64) {
            Some(n) => Ok(Some(n as u32)),
            None => Err(LiveKitConfigError::InvalidU32 { name, value }),
        },
    }
}

/// The number that a value gives, `None` where it gives nothing.
pub fn optional_u64_env(name: &'static str, value: Option<String>) -> (number: std::result::Result<
    Option<u64>,
    LiveKitConfigError,
>)
    ensures
        match given(value) {
            None => number == std::result::Result::<Option<u64>, LiveKitConfigError>::Ok(None),
            Some(text) => match positive_number(text, u64::MAX as int) {
                Some(n) => number == std::result::Result::<Option<u64>, LiveKitConfigError>::Ok(
                    Some(n as u64),
                ),
                None => number is Err && number->Err_0@ == (LiveKitConfigErrorView::InvalidU64 {
                    name: name@,
                    value: text,
                }),
            },
        },
{
    match optional_env(value) {
        None => Ok(None),
        Some(value) => match parse_positive(value.as_str(), u64::MAX) {
            Some(n) => Ok(Some(n)),
            None => Err(LiveKitConfigError::InvalidU64 { name, value }),
        },
    }
}

/// The error of a value that gives no number.
pub open spec fn no_number(name: Seq<char>, value: Option<String>, wide: bool) ->
    LiveKitConfigErrorView {
    if wide {
        LiveKitConfigErrorView::InvalidU64 { name, value: given(value).unwrap() }
    } else {
        LiveKitConfigErrorView::InvalidU32 { name, value: given(value).unwrap() }
    }
}

/// The first thing that is wrong with the environment: what is missing, then what is no number.
pub open spec fn env_fault(env: LiveKitEnv) -> Option<LiveKitConfigErrorView> {
    let small = u32::MAX as int;
    let large = u64::MAX as int;
    if env.url is None {
        Some(LiveKitConfigErrorView::MissingEnv("LIVEKIT_URL"@))
    } else if env.api_key is None {
        Some(LiveKitConfigErrorView::MissingEnv("LIVEKIT_API_KEY"@))
    } else if env.api_secret is None {
        Some(LiveKitConfigErrorView::MissingEnv("LIVEKIT_API_SECRET"@))
    } else if !acceptable(env.input_sample_rate, small) {
        Some(no_number("LIVEKIT_INPUT_SAMPLE_RATE"@, env.input_sample_rate, false))
    } else if !acceptable(env.input_channels, small) {
        Some(no_number("LIVEKIT_INPUT_CHANNELS"@, env.input_channels, false))
    } else if !acceptable(env.input_speech_threshold, small) {
        Some(no_number("LIVEKIT_INPUT_SPEECH_THRESHOLD"@, env.input_speech_threshold, false))
    } else if !acceptable(env.input_min_speech_ms, large) {
        Some(no_number("LIVEKIT_INPUT_MIN_SPEECH_MS"@, env.input_min_speech_ms, true))
    } else if !acceptable(env.input_silence_timeout_ms, large) {
        Some(no_number("LIVEKIT_INPUT_SILENCE_TIMEOUT_MS"@, env.input_silence_timeout_ms, true))
    } else if !acceptable(env.output_sample_rate, small) {
        Some(no_number("LIVEKIT_OUTPUT_SAMPLE_RATE"@, env.output_sample_rate, false))
    } else if !acceptable(env.output_channels, small) {
        Some(no_number("LIVEKIT_OUTPUT_CHANNELS"@, env.output_channels, false))
    } else {
        None
    }
}

/// The configuration that the environment gives; what is not given has its default.
pub open spec fn env_config(env: LiveKitEnv) -> LiveKitConfigView {
    let small = u32::MAX as int;
    let large = u64::MAX as int;
    LiveKitConfigView {
        url: env.url.unwrap()@,
        api_key: env.api_key.unwrap()@,
        api_secret: env.api_secret.unwrap()@,
        room: given_or(env.room, "ai-runtime"@),
        identity: given_or(env.identity, "ai-runtime-agent"@),
        name: given_or(env.name, "ai-runtime agent"@),
        input_sample_rate: number_or(
            env.input_sample_rate,
            small,
            DEFAULT_INPUT_SAMPLE_RATE as int,
        ) as u32,
        input_channels: number_or(env.input_channels, small, DEFAULT_INPUT_CHANNELS as int) as u32,
        input_speech_threshold: number_or(
            env.input_speech_threshold,
            small,
            DEFAULT_INPUT_SPEECH_THRESHOLD as int,
        ) as u32,
        input_min_speech: number_or(
            env.input_min_speech_ms,
            large,
            DEFAULT_INPUT_MIN_SPEECH_MS as int,
        ) * 1_000_000,
        input_silence_timeout: number_or(
            env.input_silence_timeout_ms,
            large,
            DEFAULT_INPUT_SILENCE_TIMEOUT_MS as int,
        ) * 1_000_000,
        output_sample_rate: number_or(
            env.output_sample_rate,
            small,
            DEFAULT_OUTPUT_SAMPLE_RATE as int,
        ) as u32,
        output_channels: number_or(
            env.output_channels,
            small,
            DEFAULT_OUTPUT_CHANNELS as int,
        ) as u32,
        token_ttl: DEFAULT_TOKEN_TTL_SECS * 1_000_000_000,
    }
}

impl LiveKitConfigView {
    /// The configuration with all defaults.
    pub open spec fn with_keys(
        url: Seq<char>,
        api_key: Seq<char>,
        api_secret: Seq<char>,
    ) -> LiveKitConfigView {
        LiveKitConfigView {
            url,
            api_key,
            api_secret,
            room: "ai-runtime"@,
            identity: "ai-runtime-agent"@,
            name: "ai-runtime agent"@,
            input_sample_rate: DEFAULT_INPUT_SAMPLE_RATE,
            input_channels: DEFAULT_INPUT_CHANNELS,
            input_speech_threshold: DEFAULT_INPUT_SPEECH_THRESHOLD,
            input_min_speech: DEFAULT_INPUT_MIN_SPEECH_MS * 1_000_000,
            input_silence_timeout: DEFAULT_INPUT_SILENCE_TIMEOUT_MS * 1_000_000,
            output_sample_rate: DEFAULT_OUTPUT_SAMPLE_RATE,
            output_channels: DEFAULT_OUTPUT_CHANNELS,
            token_ttl: DEFAULT_TOKEN_TTL_SECS * 1_000_000_000,
        }
    }
}

impl Clone for LiveKitConfig {
    fn clone(&self) -> (copy: Self)
        ensures
            copy@ == self@,
    {
        LiveKitConfig {
            url: self.url.clone(),
            api_key: self.api_key.clone(),
            api_secret: self.api_secret.clone(),
            room: self.room.clone(),
            identity: self.identity.clone(),
            name: self.name.clone(),
            input_sample_rate: self.input_sample_rate,
            input_channels: self.input_channels,
            input_speech_threshold: self.input_speech_threshold,
            input_min_speech: self.input_min_speech,
            input_silence_timeout: self.input_silence_timeout,
            output_sample_rate: self.output_sample_rate,
            output_channels: self.output_channels,
            token_ttl: self.token_ttl,
        }
    }
}

impl LiveKitConfig {
    pub fn new(
        url: impl IntoText,
        api_key: impl IntoText,
        api_secret: impl IntoText,
    ) -> (config: LiveKitConfig)
        ensures
            config@ == LiveKitConfigView::with_keys(url.text(), api_key.text(), api_secret.text()),
    {
        LiveKitConfig {
            url: url.into_text(),
            api_key: api_key.into_text(),
            api_secret: api_secret.into_text(),
            room: "ai-runtime".to_owned(),
            identity: "ai-runtime-agent".to_owned(),
            name: "ai-runtime agent".to_owned(),
            input_sample_rate: DEFAULT_INPUT_SAMPLE_RATE,
            input_channels: DEFAULT_INPUT_CHANNELS,
            input_speech_threshold: DEFAULT_INPUT_SPEECH_THRESHOLD,
            input_min_speech: Duration::from_millis(DEFAULT_INPUT_MIN_SPEECH_MS),
            input_silence_timeout: Duration::from_millis(DEFAULT_INPUT_SILENCE_TIMEOUT_MS),
            output_sample_rate: DEFAULT_OUTPUT_SAMPLE_RATE,
            output_channels: DEFAULT_OUTPUT_CHANNELS,
            token_ttl: Duration::from_secs(DEFAULT_TOKEN_TTL_SECS),
        }
    }

    /// The configuration that the environment gives.
    pub fn from_env(env: LiveKitEnv) -> (config: std::result::Result<
        LiveKitConfig,
        LiveKitConfigError,
    >)
        ensures
            match env_fault(env) {
                Some(error) => config is Err && config->Err_0@ == error,
                None => config is Ok && config->Ok_0@ == env_config(env),
            },
    {
        let url = required_env("LIVEKIT_URL", env.url)?;
        let api_key = required_env("LIVEKIT_API_KEY", env.api_key)?;
        let api_secret = required_env("LIVEKIT_API_SECRET", env.api_secret)?;
        let mut config = LiveKitConfig::new(url, api_key, api_secret);
        config.room = env_or(env.room, "ai-runtime");
        config.identity = env_or(env.identity, "ai-runtime-agent");
        config.name = env_or(env.name, "ai-runtime agent");
        if let Some(n) = optional_u32_env("LIVEKIT_INPUT_SAMPLE_RATE", env.input_sample_rate)? {
            config.input_sample_rate = n;
        }
        if let Some(n) = optional_u32_env("LIVEKIT_INPUT_CHANNELS", env.input_channels)? {
            config.input_channels = n;
        }
        if let Some(n) = optional_u32_env(
            "LIVEKIT_INPUT_SPEECH_THRESHOLD",
            env.input_speech_threshold,
        )? {
            config.input_speech_threshold = n;
        }
        if let Some(ms) = optional_u64_env("LIVEKIT_INPUT_MIN_SPEECH_MS", env.input_min_speech_ms)? {
            config.input_min_speech = Duration::from_millis(ms);
        }
        if let Some(ms) = optional_u64_env(
            "LIVEKIT_INPUT_SILENCE_TIMEOUT_MS",
            env.input_silence_timeout_ms,
        )? {
            config.input_silence_timeout = Duration::from_millis(ms);
        }
        if let Some(n) = optional_u32_env("LIVEKIT_OUTPUT_SAMPLE_RATE", env.output_sample_rate)? {
            config.output_sample_rate = n;
        }
        if let Some(n) = optional_u32_env("LIVEKIT_OUTPUT_CHANNELS", env.output_channels)? {
            config.output_channels = n;
        }
        Ok(config)
    }

    pub fn with_room(self, room: impl IntoText) -> (config: LiveKitConfig)
        ensures
            config@ == (LiveKitConfigView { room: room.text(), ..self@ }),
    {
        let mut config = self;
        config.room = room.into_text();
        config
    }

    pub fn with_identity(self, identity: impl IntoText) -> (config: LiveKitConfig)
        ensures
            config@ == (LiveKitConfigView { identity: identity.text(), ..self@ }),
    {
        let mut config = self;
        config.identity = identity.into_text();
        config
    }

    pub fn with_name(self, name: impl IntoText) -> (config: LiveKitConfig)
        ensures
            config@ == (LiveKitConfigView { name: name.text(), ..self@ }),
    {
        let mut config = self;
        config.name = name.into_text();
        config
    }

    pub fn with_input_audio(self, sample_rate: u32, channels: u32) -> (config: LiveKitConfig)
        ensures
            config@ == (LiveKitConfigView {
                input_sample_rate: sample_rate,
                input_channels: channels,
                ..self@
            }),
    {
        let mut config = self;
        config.input_sample_rate = sample_rate;
        config.input_channels = channels;
        config
    }

    pub fn with_input_vad(self, speech_threshold: u32, silence_timeout: Duration) -> (config:
        LiveKitConfig)
        ensures
            config@ == (LiveKitConfigView {
                input_speech_threshold: speech_threshold,
                input_silence_timeout: silence_timeout.total_nanos(),
                ..self@
            }),
    {
        let mut config = self;
        config.input_speech_threshold = speech_threshold;
        config.input_silence_timeout = silence_timeout;
        config
    }

    pub fn with_input_min_speech(self, min_speech: Duration) -> (config: LiveKitConfig)
        ensures
            config@ == (LiveKitConfigView {
                input_min_speech: min_speech.total_nanos(),
                ..self@
            }),
    {
        let mut config = self;
        config.input_min_speech = min_speech;
        config
    }

    pub fn with_output_audio(self, sample_rate: u32, channels: u32) -> (config: LiveKitConfig)
        ensures
            config@ == (LiveKitConfigView {
                output_sample_rate: sample_rate,
                output_channels: channels,
                ..self@
            }),
    {
        let mut config = self;
        config.output_sample_rate = sample_rate;
        config.output_channels = channels;
        config
    }

    pub fn with_token_ttl(self, token_ttl: Duration) -> (config: LiveKitConfig)
        ensures
            config@ == (LiveKitConfigView { token_ttl: token_ttl.total_nanos(), ..self@ }),
    {
        let mut config = self;
        config.token_ttl = token_ttl;
        config
    }
}

/// The environment is taken exactly where the address and both keys are set, and each number that
/// is given is a positive one that fits; then each setting is what its own variable gives, and has
/// its default where that gives nothing.
pub proof fn each_setting_comes_from_its_own_variable(env: LiveKitEnv)
    ensures
        ({
            let small = u32::MAX as int;
            let large = u64::MAX as int;
            let config = env_config(env);
            let standard = LiveKitConfigView::with_keys(config.url, config.api_key, config.api_secret);
            &&& env_fault(env) is None <==> {
                &&& env.url is Some && env.api_key is Some && env.api_secret is Some
                &&& acceptable(env.input_sample_rate, small)
                &&& acceptable(env.input_channels, small)
                &&& acceptable(env.input_speech_threshold, small)
                &&& acceptable(env.input_min_speech_ms, large)
                &&& acceptable(env.input_silence_timeout_ms, large)
                &&& acceptable(env.output_sample_rate, small)
                &&& acceptable(env.output_channels, small)
            }
            &&& env_fault(env) is None ==> {
                &&& env.url->0@ == config.url
                &&& env.api_key->0@ == config.api_key
                &&& env.api_secret->0@ == config.api_secret
                &&& text_is_from(env.room, config.room, standard.room)
                &&& text_is_from(env.identity, config.identity, standard.identity)
                &&& text_is_from(env.name, config.name, standard.name)
                &&& number_is_from(
                    env.input_sample_rate,
                    config.input_sample_rate as int,
                    standard.input_sample_rate as int,
                )
                &&& number_is_from(
                    env.input_channels,
                    config.input_channels as int,
                    standard.input_channels as int,
                )
                &&& number_is_from(
                    env.input_speech_threshold,
                    config.input_speech_threshold as int,
                    standard.input_speech_threshold as int,
                )
                &&& number_is_from(
                    env.input_min_speech_ms,
                    config.input_min_speech / 1_000_000,
                    standard.input_min_speech / 1_000_000,
                )
                &&& config.input_min_speech % 1_000_000 == 0
                &&& number_is_from(
                    env.input_silence_timeout_ms,
                    config.input_silence_timeout / 1_000_000,
                    standard.input_silence_timeout / 1_000_000,
                )
                &&& config.input_silence_timeout % 1_000_000 == 0
                &&& number_is_from(
                    env.output_sample_rate,
                    config.output_sample_rate as int,
                    standard.output_sample_rate as int,
                )
                &&& number_is_from(
                    env.output_channels,
                    config.output_channels as int,
                    standard.output_channels as int,
                )
                &&& config.token_ttl == standard.token_ttl
            }
        }),
{
    what_is_given_holds_text(env.room);
    what_is_given_holds_text(env.identity);
    what_is_given_holds_text(env.name);
    what_is_given_holds_text(env.input_sample_rate);
    what_is_given_holds_text(env.input_channels);
    what_is_given_holds_text(env.input_speech_threshold);
    what_is_given_holds_text(env.input_min_speech_ms);
    what_is_given_holds_text(env.input_silence_timeout_ms);
    what_is_given_holds_text(env.output_sample_rate);
    what_is_given_holds_text(env.output_channels);
}

proof fn what_is_given_holds_text(value: Option<String>)
    ensures
        given(value) is Some <==> value is Some && exists|i: int|
            0 <= i < value->0@.len() && !white_space(#[trigger] value->0@[i]),
        given(value) is Some ==> given(value)->0 == value->0@,
{
    if let Some(text) = value {
        let text = text@;
        trimming_leaves_the_middle(text);
        let (from, to) = choose|from: int, to: int|
            #![trigger text.subrange(from, to)]
            0 <= from <= to <= text.len() && trimmed(text) == text.subrange(from, to) && (forall|
                i: int,
            |
                0 <= i < from || to <= i < text.len() ==> white_space(#[trigger] text[i])) && (from
                < to ==> !white_space(text[from]) && !white_space(text[to - 1]));
        if from < to {
            assert(!white_space(text[from]));
        }
        if exists|i: int| 0 <= i < text.len() && !white_space(#[trigger] text[i]) {
            let i = choose|i: int| 0 <= i < text.len() && !white_space(#[trigger] text[i]);
            trimming_keeps_text(text, i);
        }
    }
}

/// Whether a text is what a value gives, or the default one where it is not set or holds nothing
/// but white space.
pub open spec fn text_is_from(value: Option<String>, text: Seq<char>, default: Seq<char>) -> bool {
    if value is Some && exists|i: int|
        0 <= i < value->0@.len() && !white_space(#[trigger] value->0@[i]) {
        text == value->0@
    } else {
        text == default
    }
}

/// Whether a number is what a value gives, or the default one where it is not set or holds nothing
/// but white space.
pub open spec fn number_is_from(value: Option<String>, number: int, default: int) -> bool {
    if value is Some && exists|i: int|
        0 <= i < value->0@.len() && !white_space(#[trigger] value->0@[i]) {
        parsed_number(value->0@) == Some(number as nat) && number > 0
    } else {
        number == default
    }
}

} // verus!
