//! A runtime for streaming, tool-using and voice agents: the protocols, the rules and the state
//! machines. What does input and output runs them, and hands them plain values.
pub mod cli;
pub mod json;
pub mod llm;
pub mod runtime;
pub mod stats;
pub mod streams;
pub mod text;
pub mod time;
pub mod tools;
pub mod voice;

pub use crate::json::{JsonMember, JsonNumber, JsonValue};
pub use crate::llm::openai::{active_stream_task_count, OpenAiConfig};
pub use crate::llm::{
    AssistantToolCall, AssistantToolCallFunction, ChatMessage, ChatRequest, LlmError, Result,
    TokenEvent, ToolCall, ToolSpec,
};
pub use crate::runtime::events::{RequestLifecycle, RequestState, RuntimeEvent};
pub use crate::runtime::{AgentRuntime, ConversationContext, RuntimeConfig, RuntimeError};
pub use crate::time::Duration;
pub use crate::tools::{
    CalculatorTool, MockCrmLookupTool, Tool, ToolDefinition, ToolError, ToolMetadata, ToolRegistry,
};
pub use crate::voice::adapter::RuntimeTtsAdapter;
pub use crate::voice::deepgram::{
    active_deepgram_stt_stream_count, active_deepgram_tts_stream_count, DeepgramConfig,
    DeepgramConfigError, DeepgramSpeechToText, DeepgramTextToSpeech,
};
pub use crate::voice::fake::{FakeSpeechToText, FakeTextToSpeech};
pub use crate::voice::latency::{
    VoiceLatencyMetric, VoiceLatencyRecorder, VoiceLatencySnapshot, VoiceLatencyStats,
};
pub use crate::voice::livekit::audio::{linear16_bytes_to_samples, linear16_samples_to_bytes};
pub use crate::voice::livekit::{LiveKitConfig, LiveKitConfigError, LiveKitTransportError};
pub use crate::voice::session::{FakeVoiceTransport, VoiceSession, VoiceTransportEvent};
pub use crate::voice::turn::{VoicePipelineRunner, VoiceTurnRunner};
pub use crate::voice::{
    AudioChunk, SttError, SttResult, SttTimingBreakdown, TranscriptEvent, TtsAdapterError, TtsError,
    TtsEvent, VoiceEvent, VoiceSessionError, VoiceTransportError, VoiceTurnError, VoiceTurnOutput,
};
