//! Voice: audio in, transcripts, the agent's turn, and audio out.
use vstd::prelude::*;

use crate::runtime::{RuntimeError, RuntimeErrorView};
use crate::text::{holds, holds_part, IntoBytes};

pub mod adapter;
pub mod deepgram;
pub mod fake;
pub mod latency;
pub mod livekit;
pub mod session;
pub mod turn;

verus! {

pub type Result<T> = std::result::Result<T, TtsError>;

pub type SttResult<T> = std::result::Result<T, SttError>;

/// A piece of audio: its bytes, when it ends, and whether it holds speech where that is known.
#[derive(Debug, PartialEq, Eq)]
pub struct AudioChunk {
    pub bytes: Vec<u8>,
    pub elapsed_ms: u128,
    pub is_speech: Option<bool>,
}

#[verifier::ext_equal]
pub struct AudioChunkView {
    pub bytes: Seq<u8>,
    pub elapsed_ms: u128,
    pub is_speech: Option<bool>,
}

impl View for AudioChunk {
    type V = AudioChunkView;

    open spec fn view(&self) -> AudioChunkView {
        AudioChunkView {
            bytes: self.bytes@,
            elapsed_ms: self.elapsed_ms,
            is_speech: self.is_speech,
        }
    }
}

impl Clone for AudioChunk {
    fn clone(&self) -> (copy: Self)
        ensures
            copy@ == self@,
    {
        AudioChunk {
            bytes: crate::text::copy_bytes(self.bytes.as_slice()),
            elapsed_ms: self.elapsed_ms,
            is_speech: self.is_speech,
        }
    }
}

impl AudioChunk {
    pub fn new(bytes: impl IntoBytes) -> (chunk: AudioChunk)
        ensures
            chunk@ == (AudioChunkView { bytes: bytes.bytes(), elapsed_ms: 0, is_speech: None }),
    {
        AudioChunk { bytes: bytes.into_bytes(), elapsed_ms: 0, is_speech: None }
    }

    pub fn with_elapsed_ms(self, elapsed_ms: u128) -> (chunk: AudioChunk)
        ensures
            chunk@ == (AudioChunkView { elapsed_ms, ..self@ }),
    {
        AudioChunk { bytes: self.bytes, elapsed_ms, is_speech: self.is_speech }
    }

    pub fn with_is_speech(self, is_speech: bool) -> (chunk: AudioChunk)
        ensures
            chunk@ == (AudioChunkView { is_speech: Some(is_speech), ..self@ }),
    {
        AudioChunk {
            bytes: self.bytes,
            elapsed_ms: self.elapsed_ms,
            is_speech: Some(is_speech),
        }
    }
}

/// Why a speech-to-text backend failed.
#[derive(Debug, PartialEq, Eq)]
pub enum SttError {
    Backend(String),
}

#[verifier::ext_equal]
pub enum SttErrorView {
    Backend(Seq<char>),
}

impl View for SttError {
    type V = SttErrorView;

    open spec fn view(&self) -> SttErrorView {
        match self {
            SttError::Backend(message) => SttErrorView::Backend(message@),
        }
    }
}

impl SttErrorView {
    /// What the error says.
    pub open spec fn text(self) -> Seq<char> {
        match self {
            SttErrorView::Backend(message) => "STT backend failed: "@ + message,
        }
    }
}

impl SttError {
    /// What the error says.
    pub fn message(&self) -> (text: String)
        ensures
            text@ == self@.text(),
    {
        match self {
            SttError::Backend(message) => {
                "STT backend failed: ".to_owned().concat(message.as_str())
            },
        }
    }
}

/// Why a text-to-speech backend failed.
#[derive(Debug, PartialEq, Eq)]
pub enum TtsError {
    Backend(String),
}

#[verifier::ext_equal]
pub enum TtsErrorView {
    Backend(Seq<char>),
}

impl View for TtsError {
    type V = TtsErrorView;

    open spec fn view(&self) -> TtsErrorView {
        match self {
            TtsError::Backend(message) => TtsErrorView::Backend(message@),
        }
    }
}

impl TtsErrorView {
    /// What the error says.
    pub open spec fn text(self) -> Seq<char> {
        match self {
            TtsErrorView::Backend(message) => "TTS backend failed: "@ + message,
        }
    }
}

impl TtsError {
    /// What the error says.
    pub fn message(&self) -> (text: String)
        ensures
            text@ == self@.text(),
    {
        match self {
            TtsError::Backend(message) => {
                "TTS backend failed: ".to_owned().concat(message.as_str())
            },
        }
    }
}

/// One event of spoken output.
#[derive(Debug, PartialEq, Eq, Clone)]
pub enum TtsEvent {
    FirstAudio { elapsed_ms: u128 },
    AudioChunk { bytes: Vec<u8>, elapsed_ms: u128 },
    PlaybackReset,
    Done,
}

#[verifier::ext_equal]
pub enum TtsEventView {
    FirstAudio { elapsed_ms: u128 },
    AudioChunk { bytes: Seq<u8>, elapsed_ms: u128 },
    PlaybackReset,
    Done,
}

impl View for TtsEvent {
    type V = TtsEventView;

    open spec fn view(&self) -> TtsEventView {
        match *self {
            TtsEvent::FirstAudio { elapsed_ms } => TtsEventView::FirstAudio { elapsed_ms },
            TtsEvent::AudioChunk { bytes, elapsed_ms } => TtsEventView::AudioChunk {
                bytes: bytes@,
                elapsed_ms,
            },
            TtsEvent::PlaybackReset => TtsEventView::PlaybackReset,
            TtsEvent::Done => TtsEventView::Done,
        }
    }
}

/// Where the time to a final transcript went.
#[derive(Debug, Clone, Copy, PartialEq, Eq, Structural)]
pub struct SttTimingBreakdown {
    pub speech_audio_ms: u128,
    pub vad_silence_ms: u128,
    pub total_silence_ms: u128,
    pub audio_duration_ms: u128,
    pub deepgram_connect_ms: Option<u128>,
    pub first_interim_ms: Option<u128>,
    pub finalize_to_final_ms: Option<u128>,
    pub final_emitted_ms: u128,
}

/// One event of a transcription.
#[derive(Debug, PartialEq, Eq, Clone)]
pub enum TranscriptEvent {
    Partial { text: String, elapsed_ms: u128 },
    Final { text: String, elapsed_ms: u128 },
    Breakdown(SttTimingBreakdown),
    Done,
}

#[verifier::ext_equal]
pub enum TranscriptEventView {
    Partial { text: Seq<char>, elapsed_ms: u128 },
    Final { text: Seq<char>, elapsed_ms: u128 },
    Breakdown(SttTimingBreakdown),
    Done,
}

impl View for TranscriptEvent {
    type V = TranscriptEventView;

    open spec fn view(&self) -> TranscriptEventView {
        match *self {
            TranscriptEvent::Partial { text, elapsed_ms } => TranscriptEventView::Partial {
                text: text@,
                elapsed_ms,
            },
            TranscriptEvent::Final { text, elapsed_ms } => TranscriptEventView::Final {
                text: text@,
                elapsed_ms,
            },
            TranscriptEvent::Breakdown(breakdown) => TranscriptEventView::Breakdown(breakdown),
            TranscriptEvent::Done => TranscriptEventView::Done,
        }
    }
}

/// One event of a voice turn; the times are counted from the start of its audio.
#[derive(Debug, Clone, Copy, PartialEq, Eq, Structural)]
pub enum VoiceEvent {
    SttPartial { elapsed_ms: u128, stt_elapsed_ms: u128, transcript_chars: usize },
    SttFinal { elapsed_ms: u128, stt_elapsed_ms: u128, transcript_chars: usize },
    LlmFirstToken { elapsed_ms: u128, runtime_elapsed_ms: u128 },
    TtsFirstAudio { elapsed_ms: u128, tts_elapsed_ms: u128 },
    VoiceTurnCompleted { elapsed_ms: u128, output_chars: usize },
    VoiceTurnCancelled { elapsed_ms: u128 },
    VoiceTurnInterrupted { elapsed_ms: u128 },
    VoiceTurnFailed { elapsed_ms: u128 },
}

/// Why speaking ended early.
#[derive(Debug)]
pub enum TtsAdapterError {
    Tts(TtsError),
    Cancelled,
}

#[verifier::ext_equal]
pub enum TtsAdapterErrorView {
    Tts(TtsErrorView),
    Cancelled,
}

impl View for TtsAdapterError {
    type V = TtsAdapterErrorView;

    open spec fn view(&self) -> TtsAdapterErrorView {
        match self {
            TtsAdapterError::Tts(error) => TtsAdapterErrorView::Tts(error@),
            TtsAdapterError::Cancelled => TtsAdapterErrorView::Cancelled,
        }
    }
}

impl TtsAdapterErrorView {
    /// What the error says.
    pub open spec fn text(self) -> Seq<char> {
        match self {
            TtsAdapterErrorView::Tts(error) => error.text(),
            TtsAdapterErrorView::Cancelled => "TTS adapter was cancelled"@,
        }
    }
}

impl TtsAdapterError {
    /// What the error says.
    pub fn message(&self) -> (text: String)
        ensures
            text@ == self@.text(),
    {
        match self {
            TtsAdapterError::Tts(error) => error.message(),
            TtsAdapterError::Cancelled => "TTS adapter was cancelled".to_owned(),
        }
    }
}

/// Why a voice turn gave no output.
#[derive(Debug)]
pub enum VoiceTurnError {
    Runtime(RuntimeError),
    Stt(SttError),
    Tts(TtsError),
    Cancelled,
    MissingFinalTranscript,
}

#[verifier::ext_equal]
pub enum VoiceTurnErrorView {
    Runtime(RuntimeErrorView),
    Stt(SttErrorView),
    Tts(TtsErrorView),
    Cancelled,
    MissingFinalTranscript,
}

impl View for VoiceTurnError {
    type V = VoiceTurnErrorView;

    open spec fn view(&self) -> VoiceTurnErrorView {
        match self {
            VoiceTurnError::Runtime(error) => VoiceTurnErrorView::Runtime(error@),
            VoiceTurnError::Stt(error) => VoiceTurnErrorView::Stt(error@),
            VoiceTurnError::Tts(error) => VoiceTurnErrorView::Tts(error@),
            VoiceTurnError::Cancelled => VoiceTurnErrorView::Cancelled,
            VoiceTurnError::MissingFinalTranscript => VoiceTurnErrorView::MissingFinalTranscript,
        }
    }
}

impl VoiceTurnErrorView {
    /// What the error says.
    pub open spec fn text(self) -> Seq<char> {
        match self {
            VoiceTurnErrorView::Runtime(error) => error.text(),
            VoiceTurnErrorView::Stt(error) => error.text(),
            VoiceTurnErrorView::Tts(error) => error.text(),
            VoiceTurnErrorView::Cancelled => "voice turn was cancelled"@,
            VoiceTurnErrorView::MissingFinalTranscript => {
                "STT stream completed without a final transcript"@
            },
        }
    }
}

impl VoiceTurnError {
    /// What the error says.
    pub fn message(&self) -> (text: String)
        ensures
            text@ == self@.text(),
    {
        match self {
            VoiceTurnError::Runtime(error) => error.message(),
            VoiceTurnError::Stt(error) => error.message(),
            VoiceTurnError::Tts(error) => error.message(),
            VoiceTurnError::Cancelled => "voice turn was cancelled".to_owned(),
            VoiceTurnError::MissingFinalTranscript => {
                "STT stream completed without a final transcript".to_owned()
            },
        }
    }
}

/// Why a transport took nothing.
#[derive(Debug, Clone, Copy, PartialEq, Eq, Structural)]
pub enum VoiceTransportError {
    Closed,
}

impl VoiceTransportError {
    /// What the error says.
    pub fn message(&self) -> (text: String)
        ensures
            text@ == "voice transport is closed"@,
    {
        "voice transport is closed".to_owned()
    }
}

/// Why a session failed.
#[derive(Debug)]
pub enum VoiceSessionError {
    VoiceTurn(VoiceTurnError),
    TaskJoin(String),
}

#[verifier::ext_equal]
pub enum VoiceSessionErrorView {
    VoiceTurn(VoiceTurnErrorView),
    TaskJoin(Seq<char>),
}

impl View for VoiceSessionError {
    type V = VoiceSessionErrorView;

    open spec fn view(&self) -> VoiceSessionErrorView {
        match self {
            VoiceSessionError::VoiceTurn(error) => VoiceSessionErrorView::VoiceTurn(error@),
            VoiceSessionError::TaskJoin(message) => VoiceSessionErrorView::TaskJoin(message@),
        }
    }
}

impl VoiceSessionErrorView {
    /// What the error says.
    pub open spec fn text(self) -> Seq<char> {
        match self {
            VoiceSessionErrorView::VoiceTurn(error) => error.text(),
            VoiceSessionErrorView::TaskJoin(message) => "voice turn task failed: "@ + message,
        }
    }
}

impl VoiceSessionError {
    /// What the error says.
    pub fn message(&self) -> (text: String)
        ensures
            text@ == self@.text(),
    {
        match self {
            VoiceSessionError::VoiceTurn(error) => error.message(),
            VoiceSessionError::TaskJoin(message) => {
                "voice turn task failed: ".to_owned().concat(message.as_str())
            },
        }
    }
}

/// What a voice turn gives.
#[derive(Debug, PartialEq, Eq, Clone)]
pub struct VoiceTurnOutput {
    pub text: String,
}

impl View for VoiceTurnOutput {
    type V = Seq<char>;

    open spec fn view(&self) -> Seq<char> {
        self.text@
    }
}

/// Whether a value of the tracing switch turns tracing on.
pub open spec fn turns_tracing_on(value: Seq<char>) -> bool {
    value == "1"@ || value == "true"@ || value == "TRUE"@ || value == "yes"@ || value == "YES"@
}

/// Whether tracing is on, by the value of its switch where it is set.
pub fn voice_stt_trace_enabled(value: Option<String>) -> (enabled: bool)
    ensures
        enabled == (match value {
            Some(value) => turns_tracing_on(value@),
            None => false,
        }),
{
    match value {
        Some(value) => {
            let value = value.as_str();
            crate::text::text_eq(value, "1") || crate::text::text_eq(value, "true")
                || crate::text::text_eq(value, "TRUE") || crate::text::text_eq(value, "yes")
                || crate::text::text_eq(value, "YES")
        },
        None => false,
    }
}

/// What an error of a voice turn or of a session says is what its cause says, or holds it.
pub proof fn voice_errors_tell_their_cause(error: VoiceTurnErrorView, lost: Seq<char>)
    ensures
        error matches VoiceTurnErrorView::Runtime(cause) ==> error.text() == cause.text(),
        error matches VoiceTurnErrorView::Stt(SttErrorView::Backend(message)) ==> holds(
            error.text(),
            message,
        ),
        error matches VoiceTurnErrorView::Tts(TtsErrorView::Backend(message)) ==> holds(
            error.text(),
            message,
        ) && TtsAdapterErrorView::Tts(error->Tts_0).text() == error.text(),
        VoiceSessionErrorView::VoiceTurn(error).text() == error.text(),
        holds(VoiceSessionErrorView::TaskJoin(lost).text(), lost),
{
    let none = Seq::<char>::empty();
    match error {
        VoiceTurnErrorView::Stt(SttErrorView::Backend(message)) => {
            holds_part("STT backend failed: "@, message, none);
        },
        VoiceTurnErrorView::Tts(TtsErrorView::Backend(message)) => {
            holds_part("TTS backend failed: "@, message, none);
        },
        _ => {},
    }
    holds_part("voice turn task failed: "@, lost, none);
}

} // verus!
