//! Deepgram: streamed speech-to-text over a WebSocket, and text-to-speech over HTTP.
use vstd::prelude::*;

use crate::streams::StreamCounter;
use crate::text::{
    debug_form, debug_text, decimal, numbers_are_digits_alone, numbers_are_read_back, parse_number,
    parsed_number, IntoText,
};
use crate::time::Duration;

pub mod listen;
pub mod request;
pub mod speak;
pub mod timing;
pub mod transcript;

verus! {

/// The number of transcriptions that are running.
pub fn active_deepgram_stt_stream_count(streams: &StreamCounter) -> (count: usize)
    ensures
        count == streams@,
{
    streams.count()
}

/// The number of speeches that are running.
pub fn active_deepgram_tts_stream_count(streams: &StreamCounter) -> (count: usize)
    ensures
        count == streams@,
{
    streams.count()
}

/// How to reach Deepgram.
#[derive(Debug)]
pub struct DeepgramConfig {
    pub api_key: String,
    pub listen_url: String,
    pub speak_url: String,
    pub timeout: Duration,
    pub stream_buffer_capacity: usize,
    pub tts_max_chars: usize,
}

/// Why there is no configuration.
#[derive(Debug, PartialEq, Eq)]
pub enum DeepgramConfigError {
    MissingApiKey,
    InvalidTtsMaxChars { value: String },
}

#[verifier::ext_equal]
pub enum DeepgramConfigErrorView {
    MissingApiKey,
    InvalidTtsMaxChars { value: Seq<char> },
}

impl View for DeepgramConfigError {
    type V = DeepgramConfigErrorView;

    open spec fn view(&self) -> DeepgramConfigErrorView {
        match self {
            DeepgramConfigError::MissingApiKey => DeepgramConfigErrorView::MissingApiKey,
            DeepgramConfigError::InvalidTtsMaxChars { value } => {
                DeepgramConfigErrorView::InvalidTtsMaxChars { value: value@ }
            },
        }
    }
}

impl DeepgramConfigErrorView {
    /// What the error says.
    pub open spec fn text(self) -> Seq<char> {
        match self {
            DeepgramConfigErrorView::MissingApiKey => "DEEPGRAM_API_KEY must be set"@,
            DeepgramConfigErrorView::InvalidTtsMaxChars { value } => {
                "DEEPGRAM_TTS_MAX_CHARS must be a positive integer, got "@ + debug_form(value)
            },
        }
    }
}

impl DeepgramConfigError {
    /// What the error says.
    pub fn message(&self) -> (text: String)
        ensures
            text@ == self@.text(),
    {
        match self {
            DeepgramConfigError::MissingApiKey => "DEEPGRAM_API_KEY must be set".to_owned(),
            DeepgramConfigError::InvalidTtsMaxChars { value } => {
                "DEEPGRAM_TTS_MAX_CHARS must be a positive integer, got ".to_owned().concat(
                    debug_text(value.as_str()).as_str(),
                )
            },
        }
    }
}

/// The values of the environment that configure Deepgram, where they are set.
#[derive(Debug)]
pub struct DeepgramEnv {
    pub api_key: Option<String>,
    pub listen_url: Option<String>,
    pub speak_url: Option<String>,
    pub tts_max_chars: Option<String>,
}

/// The address that transcribes, where no other is given.
pub open spec fn default_listen_url() -> Seq<char> {
    "wss://api.deepgram.com/v1/listen?model=nova-3&language=en&smart_format=true&interim_results=true&encoding=linear16&sample_rate=16000&channels=1&endpointing=300"@
}

/// The address that speaks, where no other is given.
pub open spec fn default_speak_url() -> Seq<char> {
    "https://api.deepgram.com/v1/speak?model=aura-2-thalia-en&encoding=linear16&container=none&sample_rate=24000"@
}

/// The number of characters that are spoken at most, where no other is given.
pub const DEFAULT_TTS_MAX_CHARS: usize = 1_800;

/// The positive number that a text stands for, where it is one and fits.
pub open spec fn positive_number(value: Seq<char>, max: int) -> Option<int> {
    match parsed_number(value) {
        Some(n) => if 0 < n <= max {
            Some(n as int)
        } else {
            None
        },
        None => None,
    }
}

/// The positive number that `value` stands for, where it is one and no larger than `max`.
pub(crate) fn parse_positive(value: &str, max: u64) -> (number: Option<u64>)
    ensures
        match positive_number(value@, max as int) {
            Some(n) => number == Some(n as u64),
            None => number is None,
        },
{
    match parse_number(value, max) {
        Some(n) => if n > 0 {
            Some(n)
        } else {
            None
        },
        None => None,
    }
}

impl DeepgramConfig {
    pub fn new(api_key: impl IntoText) -> (config: DeepgramConfig)
        ensures
            config.api_key@ == api_key.text(),
            config.listen_url@ == default_listen_url(),
            config.speak_url@ == default_speak_url(),
            config.timeout.total_nanos() == 30_000_000_000,
            config.stream_buffer_capacity == 8,
            config.tts_max_chars == DEFAULT_TTS_MAX_CHARS,
    {
        DeepgramConfig {
            api_key: api_key.into_text(),
            listen_url:
                "wss://api.deepgram.com/v1/listen?model=nova-3&language=en&smart_format=true&interim_results=true&encoding=linear16&sample_rate=16000&channels=1&endpointing=300".to_owned(),
            speak_url:
                "https://api.deepgram.com/v1/speak?model=aura-2-thalia-en&encoding=linear16&container=none&sample_rate=24000".to_owned(),
            timeout: Duration::from_secs(30),
            stream_buffer_capacity: 8,
            tts_max_chars: DEFAULT_TTS_MAX_CHARS,
        }
    }

    /// The configuration that the environment gives: a key is needed, and what is not set keeps its
    /// default.
    pub fn from_env(env: DeepgramEnv) -> (config: std::result::Result<
        DeepgramConfig,
        DeepgramConfigError,
    >)
        ensures
            match config {
                Ok(config) => {
                    &&& env.api_key is Some
                    &&& config.api_key@ == env.api_key->0@
                    &&& config.listen_url@ == (match env.listen_url {
                        Some(url) => url@,
                        None => default_listen_url(),
                    })
                    &&& config.speak_url@ == (match env.speak_url {
                        Some(url) => url@,
                        None => default_speak_url(),
                    })
                    &&& config.timeout.total_nanos() == 30_000_000_000
                    &&& config.stream_buffer_capacity == 8
                    &&& match env.tts_max_chars {
                        Some(value) => positive_number(value@, usize::MAX as int) == Some(
                            config.tts_max_chars as int,
                        ),
                        None => config.tts_max_chars == DEFAULT_TTS_MAX_CHARS,
                    }
                },
                Err(error) => match env.api_key {
                    None => error@ == DeepgramConfigErrorView::MissingApiKey,
                    Some(_) => {
                        &&& env.tts_max_chars is Some
                        &&& positive_number(env.tts_max_chars->0@, usize::MAX as int) is None
                        &&& error@ == (DeepgramConfigErrorView::InvalidTtsMaxChars {
                            value: env.tts_max_chars->0@,
                        })
                    },
                },
            },
    {
        let api_key = match env.api_key {
            Some(api_key) => api_key,
            None => {
                return Err(DeepgramConfigError::MissingApiKey);
            },
        };
        let mut config = DeepgramConfig::new(api_key);
        if let Some(url) = env.listen_url {
            config.listen_url = url;
        }
        if let Some(url) = env.speak_url {
            config.speak_url = url;
        }
        if let Some(value) = env.tts_max_chars {
            match parse_positive(value.as_str(), usize::MAX as u64) {
                Some(n) => {
                    config.tts_max_chars = n as usize;
                },
                None => {
                    return Err(DeepgramConfigError::InvalidTtsMaxChars { value });
                },
            }
        }
        Ok(config)
    }

    pub fn with_listen_url(self, listen_url: impl IntoText) -> (config: DeepgramConfig)
        ensures
            config.listen_url@ == listen_url.text(),
            config.api_key == self.api_key,
            config.speak_url == self.speak_url,
            config.timeout == self.timeout,
            config.stream_buffer_capacity == self.stream_buffer_capacity,
            config.tts_max_chars == self.tts_max_chars,
    {
        let mut config = self;
        config.listen_url = listen_url.into_text();
        config
    }

    pub fn with_speak_url(self, speak_url: impl IntoText) -> (config: DeepgramConfig)
        ensures
            config.speak_url@ == speak_url.text(),
            config.api_key == self.api_key,
            config.listen_url == self.listen_url,
            config.timeout == self.timeout,
            config.stream_buffer_capacity == self.stream_buffer_capacity,
            config.tts_max_chars == self.tts_max_chars,
    {
        let mut config = self;
        config.speak_url = speak_url.into_text();
        config
    }

    /// The configuration whose spoken output can be transcribed again: 16 kHz linear samples, as
    /// transcriptions take them.
    pub fn for_loopback(self) -> (config: DeepgramConfig)
        ensures
            config.speak_url@
                == "https://api.deepgram.com/v1/speak?model=aura-2-thalia-en&encoding=linear16&container=none&sample_rate=16000"@,
            config.api_key == self.api_key,
            config.listen_url == self.listen_url,
            config.timeout == self.timeout,
            config.stream_buffer_capacity == self.stream_buffer_capacity,
            config.tts_max_chars == self.tts_max_chars,
    {
        self.with_speak_url(
            "https://api.deepgram.com/v1/speak?model=aura-2-thalia-en&encoding=linear16&container=none&sample_rate=16000",
        )
    }

    /// How many events a stream holds until its reader takes them: at least one.
    pub fn channel_capacity(&self) -> (capacity: usize)
        ensures
            capacity == if self.stream_buffer_capacity == 0 {
                1
            } else {
                self.stream_buffer_capacity
            },
    {
        if self.stream_buffer_capacity == 0 {
            1
        } else {
            self.stream_buffer_capacity
        }
    }
}

impl Clone for DeepgramConfig {
    fn clone(&self) -> (copy: Self)
        ensures
            copy == *self,
    {
        DeepgramConfig {
            api_key: self.api_key.clone(),
            listen_url: self.listen_url.clone(),
            speak_url: self.speak_url.clone(),
            timeout: self.timeout,
            stream_buffer_capacity: self.stream_buffer_capacity,
            tts_max_chars: self.tts_max_chars,
        }
    }
}

/// What transcribes with Deepgram.
#[derive(Debug, Clone)]
pub struct DeepgramSpeechToText {
    config: DeepgramConfig,
}

impl View for DeepgramSpeechToText {
    type V = DeepgramConfig;

    closed spec fn view(&self) -> DeepgramConfig {
        self.config
    }
}

impl DeepgramSpeechToText {
    pub fn new(config: DeepgramConfig) -> (stt: DeepgramSpeechToText)
        ensures
            stt@ == config,
    {
        DeepgramSpeechToText { config }
    }

    pub fn config(&self) -> (config: &DeepgramConfig)
        ensures
            *config == self@,
    {
        &self.config
    }
}

/// What speaks with Deepgram.
#[derive(Debug, Clone)]
pub struct DeepgramTextToSpeech {
    config: DeepgramConfig,
}

impl View for DeepgramTextToSpeech {
    type V = DeepgramConfig;

    closed spec fn view(&self) -> DeepgramConfig {
        self.config
    }
}

impl DeepgramTextToSpeech {
    pub fn new(config: DeepgramConfig) -> (tts: DeepgramTextToSpeech)
        ensures
            tts@ == config,
    {
        DeepgramTextToSpeech { config }
    }

    pub fn config(&self) -> (config: &DeepgramConfig)
        ensures
            *config == self@,
    {
        &self.config
    }
}

/// A positive number that is written in decimal is taken, unless it is too large; zero is not, and
/// neither is a text with anything in it that is no digit but a plus sign in front.
pub proof fn positive_numbers_are_taken(n: nat, max: int, text: Seq<char>, i: int)
    ensures
        positive_number(decimal(n), max) == if 0 < n <= max {
            Some(n as int)
        } else {
            None
        },
        0 <= i < text.len() && !('0' <= text[i] <= '9') && (i > 0 || text[0] != '+')
            ==> positive_number(text, max) is None,
        positive_number(Seq::empty(), max) is None,
{
    numbers_are_read_back(n);
    if 0 <= i < text.len() && !('0' <= text[i] <= '9') {
        numbers_are_digits_alone(text, i);
    }
}

/// The environment is taken exactly where the key is set and the limit on characters, where it is
/// given, is a positive number; each address is the one that is given, and all else has its default.
pub proof fn each_setting_is_the_one_given(
    env: DeepgramEnv,
    config: std::result::Result<DeepgramConfig, DeepgramConfigError>,
)
    requires
        call_ensures(DeepgramConfig::from_env, (env,), config),
    ensures
        config is Ok <==> env.api_key is Some && (env.tts_max_chars is None || positive_number(
            env.tts_max_chars->0@,
            usize::MAX as int,
        ) is Some),
        config matches Ok(config) ==> {
            &&& config.api_key@ == env.api_key->0@
            &&& env.listen_url matches Some(url) ==> config.listen_url@ == url@
            &&& env.listen_url is None ==> config.listen_url@ == default_listen_url()
            &&& env.speak_url matches Some(url) ==> config.speak_url@ == url@
            &&& env.speak_url is None ==> config.speak_url@ == default_speak_url()
            &&& env.tts_max_chars matches Some(value) ==> parsed_number(value@) == Some(
                config.tts_max_chars as nat,
            ) && config.tts_max_chars > 0
            &&& env.tts_max_chars is None ==> config.tts_max_chars == 1800
        },
        env.api_key is None ==> config is Err && config->Err_0@ is MissingApiKey,
{
}

/// A stream holds as many events as are configured, and at least one.
pub proof fn a_stream_holds_an_event(config: DeepgramConfig, capacity: usize)
    requires
        call_ensures(DeepgramConfig::channel_capacity, (&config,), capacity),
    ensures
        capacity > 0,
        config.stream_buffer_capacity > 0 ==> capacity == config.stream_buffer_capacity,
        config.stream_buffer_capacity == 0 ==> capacity == 1,
{
}

} // verus!
