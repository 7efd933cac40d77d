//! The agent's turn: stream an answer, call the tools it asks for, and stream again.
use std::sync::Arc;

use vstd::prelude::*;
use vstd::utf8::encode_utf8;

use crate::json::{compact_text, JsonValue, JsonView};
use crate::llm::{
    clone_messages, ChatMessage, ChatMessageView, ChatRequest, ChatRequestView, LlmError,
    LlmErrorView, TokenEvent, TokenEventView, ToolCall, ToolCallView, ToolSpecView,
};
use crate::runtime::events::{
    RequestLifecycle, RequestState, RuntimeEvent, RuntimeEventView,
};
use crate::text::{opt_view, text_eq, views, views_of_push, IntoText};
use crate::time::MAX_MILLIS;
use crate::tools::{
    may_define, may_tell, Tool, ToolDefinitionView, ToolError, ToolErrorView, ToolRegistry,
};

pub mod events;
pub mod history;
pub mod laws;

verus! {

pub type Result<T> = std::result::Result<T, RuntimeError>;

/// Why a turn gave no answer.
#[derive(Debug)]
pub enum RuntimeError {
    Llm(LlmError),
    Tool(ToolError),
    Cancelled,
    MaxToolRounds { max_rounds: usize },
}

#[verifier::ext_equal]
pub enum RuntimeErrorView {
    Llm(LlmErrorView),
    Tool(ToolErrorView),
    Cancelled,
    MaxToolRounds { max_rounds: usize },
}

impl View for RuntimeError {
    type V = RuntimeErrorView;

    open spec fn view(&self) -> RuntimeErrorView {
        match self {
            RuntimeError::Llm(error) => RuntimeErrorView::Llm(error@),
            RuntimeError::Tool(error) => RuntimeErrorView::Tool(error@),
            RuntimeError::Cancelled => RuntimeErrorView::Cancelled,
            RuntimeError::MaxToolRounds { max_rounds } => RuntimeErrorView::MaxToolRounds {
                max_rounds: *max_rounds,
            },
        }
    }
}

impl RuntimeErrorView {
    /// What the error says.
    pub open spec fn text(self) -> Seq<char> {
        match self {
            RuntimeErrorView::Llm(error) => error.text(),
            RuntimeErrorView::Tool(error) => error.text(),
            RuntimeErrorView::Cancelled => "turn was cancelled"@,
            RuntimeErrorView::MaxToolRounds { max_rounds } => "exceeded maximum tool rounds: "@
                + crate::text::decimal(max_rounds as nat),
        }
    }
}

impl RuntimeError {
    /// What the error says.
    pub fn message(&self) -> (text: String)
        ensures
            text@ == self@.text(),
    {
        match self {
            RuntimeError::Llm(error) => error.message(),
            RuntimeError::Tool(error) => error.message(),
            RuntimeError::Cancelled => "turn was cancelled".to_owned(),
            RuntimeError::MaxToolRounds { max_rounds } => {
                "exceeded maximum tool rounds: ".to_owned().concat(
                    crate::text::decimal_text(*max_rounds as u128).as_str(),
                )
            },
        }
    }

    pub fn is_cancelled(&self) -> (cancelled: bool)
        ensures
            cancelled == (self@ is Cancelled),
    {
        matches!(self, RuntimeError::Cancelled)
    }
}

/// Which model answers, and how often it may ask for tools.
#[derive(Debug)]
pub struct RuntimeConfig {
    pub model: String,
    pub max_tool_rounds: usize,
}

impl RuntimeConfig {
    pub fn new(model: impl IntoText) -> (config: RuntimeConfig)
        ensures
            config.model@ == model.text(),
            config.max_tool_rounds == 4,
    {
        RuntimeConfig { model: model.into_text(), max_tool_rounds: 4 }
    }
}

impl Clone for RuntimeConfig {
    fn clone(&self) -> (copy: Self)
        ensures
            copy.model@ == self.model@,
            copy.max_tool_rounds == self.max_tool_rounds,
    {
        RuntimeConfig { model: self.model.clone(), max_tool_rounds: self.max_tool_rounds }
    }
}

/// The messages of a conversation.
#[derive(Debug)]
pub struct ConversationContext {
    messages: Vec<ChatMessage>,
}

impl View for ConversationContext {
    type V = Seq<ChatMessageView>;

    closed spec fn view(&self) -> Seq<ChatMessageView> {
        views(self.messages@)
    }
}

impl Default for ConversationContext {
    fn default() -> (context: Self)
        ensures
            context@ == Seq::<ChatMessageView>::empty(),
    {
        ConversationContext::new()
    }
}

impl Clone for ConversationContext {
    fn clone(&self) -> (copy: Self)
        ensures
            copy@ == self@,
    {
        ConversationContext { messages: clone_messages(&self.messages) }
    }
}

impl ConversationContext {
    pub fn new() -> (context: ConversationContext)
        ensures
            context@ == Seq::<ChatMessageView>::empty(),
    {
        let context = ConversationContext { messages: Vec::new() };
        assert(context@ =~= Seq::<ChatMessageView>::empty());
        context
    }

    pub fn with_system_prompt(prompt: impl IntoText) -> (context: ConversationContext)
        ensures
            context@ == seq![ChatMessageView::plain("system"@, prompt.text())],
    {
        let mut context = ConversationContext::new();
        context.push(ChatMessage::system(prompt));
        context
    }

    pub fn messages(&self) -> (messages: &[ChatMessage])
        ensures
            views(messages@) == self@,
    {
        self.messages.as_slice()
    }

    fn push(&mut self, message: ChatMessage)
        ensures
            final(self)@ == old(self)@.push(message@),
    {
        proof {
            views_of_push(self.messages@, message);
        }
        self.messages.push(message);
    }

    /// Takes back the answer that the conversation ends with, where it ends with one.
    pub(crate) fn drop_answer(&mut self)
        ensures
            final(self)@ == without_answer(old(self)@),
    {
        let ghost before = self@;
        let n: usize = self.messages.len();
        if n == 0 {
            return ;
        }
        assert(before[n - 1] == self.messages@[n - 1]@);
        let last = &self.messages[n - 1];
        if text_eq(last.role.as_str(), "assistant") && last.tool_calls.len() == 0 {
            self.messages.truncate(n - 1);
            assert(self@ =~= before.drop_last());
        }
    }

    pub fn push_user(&mut self, content: impl IntoText)
        ensures
            final(self)@ == old(self)@.push(ChatMessageView::plain("user"@, content.text())),
    {
        self.push(ChatMessage::user(content));
    }

    pub fn push_assistant(&mut self, content: impl IntoText)
        ensures
            final(self)@ == old(self)@.push(ChatMessageView::plain("assistant"@, content.text())),
    {
        self.push(ChatMessage::assistant(content));
    }

    pub fn push_assistant_tool_calls(&mut self, content: impl IntoText, calls: &Vec<ToolCall>)
        ensures
            final(self)@ == old(self)@.push(
                ChatMessageView::of_tool_calls(content.text(), views(calls@)),
            ),
    {
        self.push(ChatMessage::assistant_tool_calls(content, calls));
    }

    pub fn push_tool_result(&mut self, call: &ToolCall, output: &JsonValue)
        ensures
            final(self)@ == old(self)@.push(tool_message(call@, output@)),
    {
        self.push(ChatMessage::tool(call.id.clone(), call.name.clone(), output.to_text()));
    }
}

/// Whether a message is the assistant's answer: it is the assistant's and asks for no tools.
pub open spec fn is_answer(message: ChatMessageView) -> bool {
    message.role == "assistant"@ && message.tool_calls.len() == 0
}

/// A conversation without the answer that it ends with, where it ends with one.
pub open spec fn without_answer(messages: Seq<ChatMessageView>) -> Seq<ChatMessageView> {
    if messages.len() > 0 && is_answer(messages.last()) {
        messages.drop_last()
    } else {
        messages
    }
}

/// The message that answers `call` with `output`.
pub open spec fn tool_message(call: ToolCallView, output: JsonView) -> ChatMessageView {
    ChatMessageView::of_tool_result(call.id, call.name, compact_text(output))
}

/// The length of a text in UTF-8.
pub open spec fn text_bytes(text: Seq<char>) -> usize {
    encode_utf8(text).len() as usize
}

/// The length of `text` in UTF-8.
pub fn byte_len(text: &str) -> (len: usize)
    ensures
        len == text_bytes(text@),
{
    text.len()
}

/// What a turn has come to.
pub enum TurnPhase {
    /// A round is about to start.
    StartRound,
    /// An answer is being streamed.
    Streaming { text: String, calls: Vec<ToolCall> },
    /// The first of the calls is about to start.
    StartCall { calls: Vec<ToolCall> },
    /// A call is running; the others follow.
    Calling { call: ToolCall, rest: Vec<ToolCall> },
    /// The turn is over.
    Finished,
}

#[verifier::ext_equal]
pub enum TurnPhaseView {
    StartRound,
    Streaming { text: Seq<char>, calls: Seq<ToolCallView> },
    StartCall { calls: Seq<ToolCallView> },
    Calling { call: ToolCallView, rest: Seq<ToolCallView> },
    Finished,
}

impl View for TurnPhase {
    type V = TurnPhaseView;

    open spec fn view(&self) -> TurnPhaseView {
        match self {
            TurnPhase::StartRound => TurnPhaseView::StartRound,
            TurnPhase::Streaming { text, calls } => TurnPhaseView::Streaming {
                text: text@,
                calls: views(calls@),
            },
            TurnPhase::StartCall { calls } => TurnPhaseView::StartCall { calls: views(calls@) },
            TurnPhase::Calling { call, rest } => TurnPhaseView::Calling {
                call: call@,
                rest: views(rest@),
            },
            TurnPhase::Finished => TurnPhaseView::Finished,
        }
    }
}

/// A turn that is running.
pub struct AgentTurn {
    lifecycle: RequestLifecycle,
    first_token_recorded: bool,
    round: usize,
    max_rounds: usize,
    phase: TurnPhase,
}

#[verifier::ext_equal]
pub struct AgentTurnView {
    pub state: Option<RequestState>,
    pub first_token_recorded: bool,
    pub round: int,
    pub max_rounds: usize,
    pub phase: TurnPhaseView,
}

impl View for AgentTurn {
    type V = AgentTurnView;

    closed spec fn view(&self) -> AgentTurnView {
        AgentTurnView {
            state: self.lifecycle@,
            first_token_recorded: self.first_token_recorded,
            round: self.round as int,
            max_rounds: self.max_rounds,
            phase: self.phase@,
        }
    }
}

/// What happened since the turn's last step.
pub enum TurnInput {
    /// Nothing but time; `cancelled` says whether the turn was cancelled.
    Proceed { cancelled: bool },
    /// The turn was cancelled while it waited for the stream.
    StreamCancelled,
    /// The stream gave an event, or failed.
    StreamEvent(crate::llm::Result<TokenEvent>),
    /// The stream ended.
    StreamEnd,
    /// The turn was cancelled while a tool ran.
    ToolCancelled,
    /// The tool gave its output, or failed.
    ToolDone { outcome: crate::tools::Result<JsonValue>, duration_ms: u128 },
}

pub enum TurnInputView {
    Proceed { cancelled: bool },
    StreamCancelled,
    StreamEvent(std::result::Result<TokenEventView, LlmErrorView>),
    StreamEnd,
    ToolCancelled,
    ToolDone { outcome: std::result::Result<JsonView, ToolErrorView>, duration_ms: u128 },
}

impl View for TurnInput {
    type V = TurnInputView;

    open spec fn view(&self) -> TurnInputView {
        match *self {
            TurnInput::Proceed { cancelled } => TurnInputView::Proceed { cancelled },
            TurnInput::StreamCancelled => TurnInputView::StreamCancelled,
            TurnInput::StreamEvent(Ok(event)) => TurnInputView::StreamEvent(Ok(event@)),
            TurnInput::StreamEvent(Err(error)) => TurnInputView::StreamEvent(Err(error@)),
            TurnInput::StreamEnd => TurnInputView::StreamEnd,
            TurnInput::ToolCancelled => TurnInputView::ToolCancelled,
            TurnInput::ToolDone { outcome: Ok(output), duration_ms } => TurnInputView::ToolDone {
                outcome: Ok(output@),
                duration_ms,
            },
            TurnInput::ToolDone { outcome: Err(error), duration_ms } => TurnInputView::ToolDone {
                outcome: Err(error@),
                duration_ms,
            },
        }
    }
}

/// The view of an answer or of its error.
pub open spec fn answer_view(result: Result<String>) -> std::result::Result<
    Seq<char>,
    RuntimeErrorView,
> {
    match result {
        Ok(answer) => Ok(answer@),
        Err(error) => Err(error@),
    }
}

/// The view of a tool's output or of its error.
pub open spec fn outcome_view(outcome: crate::tools::Result<JsonValue>) -> std::result::Result<
    JsonView,
    ToolErrorView,
> {
    match outcome {
        Ok(output) => Ok(output@),
        Err(error) => Err(error@),
    }
}

/// What the turn waits for.
pub enum TurnAction {
    /// To proceed, once it is known whether it was cancelled.
    Proceed,
    /// A new stream for the request, and its first event.
    OpenStream(ChatRequest),
    /// The next event of the stream.
    NextEvent,
    /// The outcome of a tool call.
    CallTool(ToolCall),
    /// Nothing: the turn is over, with an answer or an error.
    Finish(Result<String>),
}

pub enum TurnActionView {
    Proceed,
    OpenStream(ChatRequestView),
    NextEvent,
    CallTool(ToolCallView),
    Finish(std::result::Result<Seq<char>, RuntimeErrorView>),
}

impl View for TurnAction {
    type V = TurnActionView;

    open spec fn view(&self) -> TurnActionView {
        match *self {
            TurnAction::Proceed => TurnActionView::Proceed,
            TurnAction::OpenStream(request) => TurnActionView::OpenStream(request@),
            TurnAction::NextEvent => TurnActionView::NextEvent,
            TurnAction::CallTool(call) => TurnActionView::CallTool(call@),
            TurnAction::Finish(Ok(answer)) => TurnActionView::Finish(Ok(answer@)),
            TurnAction::Finish(Err(error)) => TurnActionView::Finish(Err(error@)),
        }
    }
}

/// One step of a turn: the turn after it, the events that it gives, and what the turn waits for.
pub struct TurnStep {
    pub turn: AgentTurn,
    pub events: Vec<RuntimeEvent>,
    pub action: TurnAction,
}

#[verifier::ext_equal]
pub struct TurnStepView {
    pub turn: AgentTurnView,
    pub messages: Seq<ChatMessageView>,
    pub events: Seq<RuntimeEventView>,
    pub action: TurnActionView,
}

impl TurnStep {
    /// Whether the step, which left the conversation as `messages`, is the one that is described.
    pub open spec fn is(&self, messages: Seq<ChatMessageView>, step: TurnStepView) -> bool {
        &&& self.turn@ == step.turn
        &&& messages == step.messages
        &&& views(self.events@) == step.events
        &&& self.action@ == step.action
    }
}

/// What a runtime knows: the model, and how often it may ask for tools.
pub struct RuntimeView {
    pub model: Seq<char>,
    pub max_tool_rounds: usize,
}

/// What the tools told in a step of a turn: what the model is told of all of them, or the definition
/// of the one that was called.
#[verifier::ext_equal]
pub struct ToolsTold {
    pub specs: Seq<ToolSpecView>,
    pub definition: Option<ToolDefinitionView>,
}

impl ToolsTold {
    /// No tool was asked.
    pub open spec fn nothing() -> ToolsTold {
        ToolsTold { specs: Seq::empty(), definition: None }
    }
}

/// Whether tools may tell so in a turn's step on `input`: all are asked where a stream is opened, and
/// the one that was called where its time ran out.
pub open spec fn may_be_told<K: Tool>(
    tools: Map<Seq<char>, K>,
    turn: AgentTurnView,
    input: TurnInputView,
    told: ToolsTold,
) -> bool {
    match (turn.phase, input) {
        (TurnPhaseView::StartRound, TurnInputView::Proceed { cancelled: false }) => may_tell(
            tools,
            told.specs,
        ),
        (
            TurnPhaseView::Calling { call, .. },
            TurnInputView::ToolDone { outcome: Err(ToolErrorView::Timeout { .. }), .. },
        ) => may_define(tools, call.name, told.definition),
        _ => true,
    }
}

impl AgentTurnView {
    /// Whether the turn waits for an input of this form.
    pub open spec fn expects(self, input: TurnInputView) -> bool {
        match self.phase {
            TurnPhaseView::StartRound => input is Proceed,
            TurnPhaseView::StartCall { .. } => input is Proceed,
            TurnPhaseView::Streaming { .. } => input is StreamCancelled || input is StreamEvent
                || input is StreamEnd,
            TurnPhaseView::Calling { .. } => input is ToolCancelled || input is ToolDone,
            TurnPhaseView::Finished => false,
        }
    }

    /// The state goes with the phase, and no tools are called after the last round.
    pub open spec fn consistent(self) -> bool {
        &&& 0 <= self.round <= self.max_rounds
        &&& match self.phase {
            TurnPhaseView::StartRound => self.state == Some(
                if self.round == 0 {
                    RequestState::Started
                } else {
                    RequestState::DispatchingTool
                },
            ),
            TurnPhaseView::Streaming { .. } => self.state == Some(RequestState::StreamingLlm),
            TurnPhaseView::StartCall { calls } => {
                &&& self.state == Some(RequestState::StreamingLlm) || self.state == Some(
                    RequestState::DispatchingTool,
                )
                &&& calls.len() > 0
                &&& self.round < self.max_rounds
            },
            TurnPhaseView::Calling { .. } => {
                &&& self.state == Some(RequestState::DispatchingTool)
                &&& self.round < self.max_rounds
            },
            TurnPhaseView::Finished => self.state matches Some(state) && state.terminal(),
        }
    }

    /// The event of passing to `to`.
    pub open spec fn enters(self, to: RequestState, elapsed_ms: u128) -> RuntimeEventView {
        RuntimeEventView::Lifecycle { from: self.state, to, elapsed_ms }
    }

    /// The turn's end after `events`, with an answer or an error.
    pub open spec fn finish(
        self,
        messages: Seq<ChatMessageView>,
        events: Seq<RuntimeEventView>,
        result: std::result::Result<Seq<char>, RuntimeErrorView>,
        elapsed_ms: u128,
    ) -> TurnStepView {
        let state = match result {
            Ok(_) => RequestState::Completed,
            Err(RuntimeErrorView::Cancelled) => RequestState::Cancelled,
            Err(_) => RequestState::Failed,
        };
        let completed = match result {
            Ok(answer) => seq![
                RuntimeEventView::TurnCompleted { elapsed_ms, output_chars: text_bytes(answer) },
            ],
            Err(_) => Seq::empty(),
        };
        TurnStepView {
            turn: AgentTurnView {
                state: Some(state),
                phase: TurnPhaseView::Finished,
                ..self
            },
            messages,
            events: events + completed + seq![self.enters(state, elapsed_ms)],
            action: TurnActionView::Finish(result),
        }
    }

    /// The turn after it was let proceed to its next round or its next call.
    pub open spec fn proceed(
        self,
        runtime: RuntimeView,
        told: ToolsTold,
        messages: Seq<ChatMessageView>,
        cancelled: bool,
        elapsed_ms: u128,
    ) -> TurnStepView {
        let none = Seq::<RuntimeEventView>::empty();
        if cancelled {
            self.finish(messages, none, Err(RuntimeErrorView::Cancelled), elapsed_ms)
        } else {
            match self.phase {
                TurnPhaseView::StartCall { calls } => TurnStepView {
                    turn: AgentTurnView {
                        state: Some(RequestState::DispatchingTool),
                        phase: TurnPhaseView::Calling { call: calls[0], rest: calls.drop_first() },
                        ..self
                    },
                    messages,
                    events: seq![
                        self.enters(RequestState::DispatchingTool, elapsed_ms),
                        RuntimeEventView::ToolDispatchStart {
                            call_id: calls[0].id,
                            tool_name: calls[0].name,
                            elapsed_ms,
                        },
                    ],
                    action: TurnActionView::CallTool(calls[0]),
                },
                _ => TurnStepView {
                    turn: AgentTurnView {
                        state: Some(RequestState::StreamingLlm),
                        phase: TurnPhaseView::Streaming {
                            text: Seq::empty(),
                            calls: Seq::empty(),
                        },
                        ..self
                    },
                    messages,
                    events: seq![self.enters(RequestState::StreamingLlm, elapsed_ms)],
                    action: TurnActionView::OpenStream(
                        ChatRequestView {
                            model: runtime.model,
                            messages,
                            tools: told.specs,
                            timeout: None,
                        },
                    ),
                },
            }
        }
    }

    /// The turn after the stream gave `token`: the text grows, and the first token is told.
    pub open spec fn token(
        self,
        messages: Seq<ChatMessageView>,
        text: Seq<char>,
        calls: Seq<ToolCallView>,
        token: Seq<char>,
        elapsed_ms: u128,
    ) -> TurnStepView {
        let first = if self.first_token_recorded {
            Seq::empty()
        } else {
            seq![RuntimeEventView::LlmFirstToken { elapsed_ms }]
        };
        TurnStepView {
            turn: AgentTurnView {
                first_token_recorded: true,
                phase: TurnPhaseView::Streaming { text: text + token, calls },
                ..self
            },
            messages,
            events: first + seq![RuntimeEventView::AssistantToken { text: token, elapsed_ms }],
            action: TurnActionView::NextEvent,
        }
    }

    /// The turn after the stream is over: without tool calls its text is the answer; otherwise the
    /// calls follow, unless the rounds are used up.
    pub open spec fn stream_over(
        self,
        messages: Seq<ChatMessageView>,
        text: Seq<char>,
        calls: Seq<ToolCallView>,
        elapsed_ms: u128,
    ) -> TurnStepView {
        let none = Seq::<RuntimeEventView>::empty();
        if calls.len() == 0 {
            let committed = if text.len() > 0 {
                messages.push(ChatMessageView::plain("assistant"@, text))
            } else {
                messages
            };
            self.finish(committed, none, Ok(text), elapsed_ms)
        } else if self.round == self.max_rounds {
            self.finish(
                messages,
                none,
                Err(RuntimeErrorView::MaxToolRounds { max_rounds: self.max_rounds }),
                elapsed_ms,
            )
        } else {
            TurnStepView {
                turn: AgentTurnView { phase: TurnPhaseView::StartCall { calls }, ..self },
                messages: messages.push(ChatMessageView::of_tool_calls(text, calls)),
                events: none,
                action: TurnActionView::Proceed,
            }
        }
    }

    /// The turn after `call` ended; `rest` are the calls that follow it in the round.
    pub open spec fn tool_over(
        self,
        told: ToolsTold,
        messages: Seq<ChatMessageView>,
        call: ToolCallView,
        rest: Seq<ToolCallView>,
        outcome: std::result::Result<JsonView, ToolErrorView>,
        duration_ms: u128,
        elapsed_ms: u128,
    ) -> TurnStepView {
        let ended = |success: bool|
            RuntimeEventView::ToolDispatchEnd {
                call_id: call.id,
                tool_name: call.name,
                elapsed_ms,
                duration_ms,
                success,
            };
        match outcome {
            Ok(output) => TurnStepView {
                turn: if rest.len() > 0 {
                    AgentTurnView { phase: TurnPhaseView::StartCall { calls: rest }, ..self }
                } else {
                    AgentTurnView {
                        phase: TurnPhaseView::StartRound,
                        round: self.round + 1,
                        ..self
                    }
                },
                messages: messages.push(tool_message(call, output)),
                events: seq![ended(true)],
                action: TurnActionView::Proceed,
            },
            Err(error) => {
                let timeout_ms = match told.definition {
                    Some(definition) => {
                        (definition.metadata.timeout.total_nanos() / 1_000_000) as u128
                    },
                    None => duration_ms,
                };
                let timeout = if error is Timeout {
                    seq![
                        RuntimeEventView::ToolTimeout {
                            call_id: call.id,
                            tool_name: call.name,
                            timeout_ms,
                            elapsed_ms,
                        },
                    ]
                } else {
                    Seq::empty()
                };
                self.finish(
                    messages,
                    timeout + seq![ended(false)],
                    Err(RuntimeErrorView::Tool(error)),
                    elapsed_ms,
                )
            },
        }
    }

    /// The turn's step on `input`, in which the tools told what they did.
    pub open spec fn advanced(
        self,
        runtime: RuntimeView,
        told: ToolsTold,
        messages: Seq<ChatMessageView>,
        input: TurnInputView,
        elapsed_ms: u128,
    ) -> TurnStepView {
        let none = Seq::<RuntimeEventView>::empty();
        match (self.phase, input) {
            (
                TurnPhaseView::Streaming { text, calls },
                TurnInputView::StreamEvent(Ok(TokenEventView::Token { text: token })),
            ) => self.token(messages, text, calls, token, elapsed_ms),
            (
                TurnPhaseView::Streaming { text, calls },
                TurnInputView::StreamEvent(Ok(TokenEventView::ToolCall(call))),
            ) => TurnStepView {
                turn: AgentTurnView {
                    phase: TurnPhaseView::Streaming { text, calls: calls.push(call) },
                    ..self
                },
                messages,
                events: none,
                action: TurnActionView::NextEvent,
            },
            (
                TurnPhaseView::Streaming { text, calls },
                TurnInputView::StreamEvent(Ok(TokenEventView::Done)),
            ) => self.stream_over(messages, text, calls, elapsed_ms),
            (TurnPhaseView::Streaming { text, calls }, TurnInputView::StreamEnd) => {
                self.stream_over(messages, text, calls, elapsed_ms)
            },
            (_, TurnInputView::StreamEvent(Err(error))) => self.finish(
                messages,
                none,
                Err(RuntimeErrorView::Llm(error)),
                elapsed_ms,
            ),
            (
                TurnPhaseView::Calling { call, rest },
                TurnInputView::ToolDone { outcome, duration_ms },
            ) => self.tool_over(told, messages, call, rest, outcome, duration_ms, elapsed_ms),
            (_, TurnInputView::Proceed { cancelled }) => self.proceed(
                runtime,
                told,
                messages,
                cancelled,
                elapsed_ms,
            ),
            _ => self.finish(messages, none, Err(RuntimeErrorView::Cancelled), elapsed_ms),
        }
    }
}

/// An agent: a provider of answers, the tools it may call, and its configuration.
pub struct AgentRuntime<P, K = Arc<dyn Tool>> {
    provider: P,
    tools: ToolRegistry<K>,
    config: RuntimeConfig,
}

impl<P, K> View for AgentRuntime<P, K> {
    type V = RuntimeView;

    closed spec fn view(&self) -> RuntimeView {
        RuntimeView {
            model: self.config.model@,
            max_tool_rounds: self.config.max_tool_rounds,
        }
    }
}

impl AgentTurn {
    #[verifier::type_invariant]
    spec fn well_formed(self) -> bool {
        self@.consistent()
    }

    /// When the turn began.
    pub closed spec fn began(&self) -> std::time::Instant {
        self.lifecycle.began()
    }

    /// The milliseconds since the turn began, by the clock: no more than a span of time can hold.
    pub fn elapsed_ms(&self) -> (elapsed_ms: u128)
        ensures
            elapsed_ms <= MAX_MILLIS,
    {
        self.lifecycle.elapsed_ms()
    }

    /// Ends the turn after `events`.
    fn finish(
        self,
        mut events: Vec<RuntimeEvent>,
        result: Result<String>,
        elapsed_ms: u128,
        Ghost(messages): Ghost<Seq<ChatMessageView>>,
    ) -> (step: TurnStep)
        requires
            !(self@.phase is Finished),
            result is Ok ==> self@.phase is Streaming,
        ensures
            step.is(
                messages,
                self@.finish(
                    messages,
                    views(events@),
                    answer_view(result),
                    elapsed_ms,
                ),
            ),
            step.turn.began() == self.began(),
    {
        proof {
            use_type_invariant(&self);
        }
        let ghost described = self@.finish(
            messages,
            views(events@),
            answer_view(result),
            elapsed_ms,
        );
        let state = match &result {
            Ok(answer) => {
                let ghost before = events@;
                events.push(
                    RuntimeEvent::TurnCompleted {
                        elapsed_ms,
                        output_chars: byte_len(answer.as_str()),
                    },
                );
                proof {
                    views_of_push(before, events@.last());
                }
                RequestState::Completed
            },
            Err(error) => if error.is_cancelled() {
                RequestState::Cancelled
            } else {
                RequestState::Failed
            },
        };
        let mut lifecycle = self.lifecycle;
        let ghost before = events@;
        let event = lifecycle.transition_at(state, elapsed_ms);
        events.push(event);
        proof {
            views_of_push(before, event);
        }
        let step = TurnStep {
            turn: AgentTurn {
                lifecycle,
                first_token_recorded: self.first_token_recorded,
                round: self.round,
                max_rounds: self.max_rounds,
                phase: TurnPhase::Finished,
            },
            events,
            action: TurnAction::Finish(result),
        };
        proof {
            assert(step.turn@ =~= described.turn);
            assert(views(step.events@) =~= described.events);
        }
        step
    }
}

impl<P, K> AgentRuntime<P, K> {
    pub fn new(provider: P, tools: ToolRegistry<K>, config: RuntimeConfig) -> (runtime:
        AgentRuntime<P, K>)
        ensures
            runtime@ == (RuntimeView {
                model: config.model@,
                max_tool_rounds: config.max_tool_rounds,
            }),
            runtime.source() == provider,
            runtime.toolbox() == tools@,
    {
        AgentRuntime { provider, tools, config }
    }

    /// The provider of answers.
    pub closed spec fn source(&self) -> P {
        self.provider
    }

    pub fn provider(&self) -> (provider: &P)
        ensures
            *provider == self.source(),
    {
        &self.provider
    }

    /// The tools by their names.
    pub closed spec fn toolbox(&self) -> Map<Seq<char>, K> {
        self.tools@
    }

    pub fn tools(&self) -> (tools: &ToolRegistry<K>)
        ensures
            tools@ == self.toolbox(),
    {
        &self.tools
    }

    /// Starts a turn on `user_message`, which joins the conversation.
    pub fn begin_turn(
        &self,
        context: &mut ConversationContext,
        user_message: impl IntoText,
        elapsed_ms: u128,
    ) -> (step: TurnStep)
        ensures
            step.is(
                final(context)@,
                begun(self@, old(context)@, user_message.text(), elapsed_ms),
            ),
    {
        let mut lifecycle = RequestLifecycle::new();
        let mut events: Vec<RuntimeEvent> = Vec::new();
        events.push(lifecycle.transition_at(RequestState::Started, elapsed_ms));
        context.push_user(user_message);
        let step = TurnStep {
            turn: AgentTurn {
                lifecycle,
                first_token_recorded: false,
                round: 0,
                max_rounds: self.config.max_tool_rounds,
                phase: TurnPhase::StartRound,
            },
            events,
            action: TurnAction::Proceed,
        };
        assert(views(step.events@) =~= begun(
            self@,
            old(context)@,
            user_message.text(),
            elapsed_ms,
        ).events);
        step
    }

}

impl<P, K: Tool> AgentRuntime<P, K> {
    /// Takes the turn one step on. Where the step needs what the tools tell, they are asked.
    pub fn advance(
        &self,
        turn: AgentTurn,
        context: &mut ConversationContext,
        input: TurnInput,
        elapsed_ms: u128,
    ) -> (step: TurnStep)
        requires
            turn@.expects(input@),
        ensures
            exists|told: ToolsTold| #[trigger]
                may_be_told(self.toolbox(), turn@, input@, told) && step.is(
                    final(context)@,
                    turn@.advanced(self@, told, old(context)@, input@, elapsed_ms),
                ),
            step.turn.began() == turn.began(),
    {
        let ghost nothing = ToolsTold::nothing();
        assert(!(turn@.phase is StartRound) && !(input@ is ToolDone) ==> may_be_told(
            self.toolbox(),
            turn@,
            input@,
            nothing,
        ));
        match input {
            TurnInput::Proceed { cancelled } => self.proceed(turn, context, cancelled, elapsed_ms),
            TurnInput::StreamEvent(Ok(event)) => self.on_event(turn, context, event, elapsed_ms),
            TurnInput::StreamEvent(Err(error)) => {
                let step = turn.finish(
                    Vec::new(),
                    Err(RuntimeError::Llm(error)),
                    elapsed_ms,
                    Ghost(context@),
                );
                assert(views(Seq::<RuntimeEvent>::empty()) =~= Seq::empty());
                step
            },
            TurnInput::StreamEnd => self.on_event(turn, context, TokenEvent::Done, elapsed_ms),
            TurnInput::ToolDone { outcome, duration_ms } => {
                self.on_tool(turn, context, outcome, duration_ms, elapsed_ms)
            },
            _ => {
                let step = turn.finish(
                    Vec::new(),
                    Err(RuntimeError::Cancelled),
                    elapsed_ms,
                    Ghost(context@),
                );
                assert(views(Seq::<RuntimeEvent>::empty()) =~= Seq::empty());
                step
            },
        }
    }

    fn proceed(
        &self,
        turn: AgentTurn,
        context: &mut ConversationContext,
        cancelled: bool,
        elapsed_ms: u128,
    ) -> (step: TurnStep)
        requires
            turn@.phase is StartRound || turn@.phase is StartCall,
        ensures
            exists|told: ToolsTold| #[trigger]
                may_be_told(self.toolbox(), turn@, TurnInputView::Proceed { cancelled }, told)
                    && step.is(
                    final(context)@,
                    turn@.proceed(self@, told, old(context)@, cancelled, elapsed_ms),
                ),
            step.turn.began() == turn.began(),
    {
        proof {
            use_type_invariant(&turn);
        }
        let ghost input = TurnInputView::Proceed { cancelled };
        let ghost nothing = ToolsTold::nothing();
        let ghost view = turn@;
        let ghost messages = context@;
        assert(cancelled || turn@.phase is StartCall ==> may_be_told(
            self.toolbox(),
            view,
            input,
            nothing,
        ));
        if cancelled {
            let step = turn.finish(
                Vec::new(),
                Err(RuntimeError::Cancelled),
                elapsed_ms,
                Ghost(context@),
            );
            assert(views(Seq::<RuntimeEvent>::empty()) =~= Seq::empty());
            return step;
        }
        let mut lifecycle = turn.lifecycle;
        let mut events: Vec<RuntimeEvent> = Vec::new();
        match turn.phase {
            TurnPhase::StartCall { calls } => {
                let mut rest = calls;
                let ghost all = rest@;
                assert(views(all).len() > 0);
                let call = rest.remove(0);
                assert(views(all)[0] == call@);
                assert(views(rest@) =~= views(all).drop_first());
                events.push(lifecycle.transition_at(RequestState::DispatchingTool, elapsed_ms));
                events.push(
                    RuntimeEvent::ToolDispatchStart {
                        call_id: call.id.clone(),
                        tool_name: call.name.clone(),
                        elapsed_ms,
                    },
                );
                let asked = call.clone();
                let ghost described = view.proceed(self@, nothing, messages, cancelled, elapsed_ms);
                let step = TurnStep {
                    turn: AgentTurn {
                        lifecycle,
                        first_token_recorded: turn.first_token_recorded,
                        round: turn.round,
                        max_rounds: turn.max_rounds,
                        phase: TurnPhase::Calling { call, rest },
                    },
                    events,
                    action: TurnAction::CallTool(asked),
                };
                assert(views(step.events@) =~= described.events);
                step
            },
            _ => {
                events.push(lifecycle.transition_at(RequestState::StreamingLlm, elapsed_ms));
                let specs = self.tools.specs();
                let ghost told = ToolsTold { specs: views(specs@), definition: None };
                let ghost described = view.proceed(self@, told, messages, cancelled, elapsed_ms);
                let request = ChatRequest::new(
                    self.config.model.clone(),
                    clone_messages(&context.messages),
                ).with_tools(specs);
                let step = TurnStep {
                    turn: AgentTurn {
                        lifecycle,
                        first_token_recorded: turn.first_token_recorded,
                        round: turn.round,
                        max_rounds: turn.max_rounds,
                        phase: TurnPhase::Streaming { text: String::new(), calls: Vec::new() },
                    },
                    events,
                    action: TurnAction::OpenStream(request),
                };
                assert(views(step.events@) =~= described.events);
                assert(step.turn@.phase =~= described.turn.phase);
                assert(step.action@->OpenStream_0 =~= described.action->OpenStream_0);
                assert(may_be_told(self.toolbox(), view, input, told));
                step
            },
        }
    }

    fn on_event(
        &self,
        turn: AgentTurn,
        context: &mut ConversationContext,
        event: TokenEvent,
        elapsed_ms: u128,
    ) -> (step: TurnStep)
        requires
            turn@.phase is Streaming,
        ensures
            step.is(
                final(context)@,
                turn@.advanced(
                    self@,
                    ToolsTold::nothing(),
                    old(context)@,
                    TurnInputView::StreamEvent(Ok(event@)),
                    elapsed_ms,
                ),
            ),
            step.turn.began() == turn.began(),
    {
        proof {
            use_type_invariant(&turn);
        }
        let ghost view = turn@;
        let ghost described = view.advanced(
            self@,
            ToolsTold::nothing(),
            context@,
            TurnInputView::StreamEvent(Ok(event@)),
            elapsed_ms,
        );
        let AgentTurn { lifecycle, first_token_recorded, round, max_rounds, phase } = turn;
        match phase {
            TurnPhase::Streaming { text, calls } => {
                let mut text = text;
                let mut calls = calls;
                let ghost old_calls = calls@;
                match event {
                    TokenEvent::Token { text: token } => {
                        let mut events: Vec<RuntimeEvent> = Vec::new();
                        if !first_token_recorded {
                            events.push(RuntimeEvent::LlmFirstToken { elapsed_ms });
                        }
                        text.append(token.as_str());
                        events.push(RuntimeEvent::AssistantToken { text: token, elapsed_ms });
                        let step = TurnStep {
                            turn: AgentTurn {
                                lifecycle,
                                first_token_recorded: true,
                                round,
                                max_rounds,
                                phase: TurnPhase::Streaming { text, calls },
                            },
                            events,
                            action: TurnAction::NextEvent,
                        };
                        assert(views(step.events@) =~= described.events);
                        step
                    },
                    TokenEvent::ToolCall(call) => {
                        calls.push(call);
                        proof {
                            views_of_push(old_calls, call);
                        }
                        let step = TurnStep {
                            turn: AgentTurn {
                                lifecycle,
                                first_token_recorded,
                                round,
                                max_rounds,
                                phase: TurnPhase::Streaming { text, calls },
                            },
                            events: Vec::new(),
                            action: TurnAction::NextEvent,
                        };
                        assert(views(step.events@) =~= described.events);
                        step
                    },
                    TokenEvent::Done => {
                        if calls.len() == 0 {
                            if !text.as_str().is_empty() {
                                context.push_assistant(text.clone());
                            }
                            let answer = text.clone();
                            let turn = AgentTurn {
                                lifecycle,
                                first_token_recorded,
                                round,
                                max_rounds,
                                phase: TurnPhase::Streaming { text, calls },
                            };
                            assert(turn@ == view);
                            assert(views(Seq::<RuntimeEvent>::empty()) =~= Seq::empty());
                            turn.finish(Vec::new(), Ok(answer), elapsed_ms, Ghost(context@))
                        } else if round == max_rounds {
                            let turn = AgentTurn {
                                lifecycle,
                                first_token_recorded,
                                round,
                                max_rounds,
                                phase: TurnPhase::Streaming { text, calls },
                            };
                            assert(turn@ == view);
                            assert(views(Seq::<RuntimeEvent>::empty()) =~= Seq::empty());
                            turn.finish(
                                Vec::new(),
                                Err(RuntimeError::MaxToolRounds { max_rounds }),
                                elapsed_ms,
                                Ghost(context@),
                            )
                        } else {
                            context.push_assistant_tool_calls(text, &calls);
                            let step = TurnStep {
                                turn: AgentTurn {
                                    lifecycle,
                                    first_token_recorded,
                                    round,
                                    max_rounds,
                                    phase: TurnPhase::StartCall { calls },
                                },
                                events: Vec::new(),
                                action: TurnAction::Proceed,
                            };
                            assert(views(step.events@) =~= described.events);
                            step
                        }
                    },
                }
            },
            _ => {
                assert(false);
                AgentTurn { lifecycle, first_token_recorded, round, max_rounds, phase }.finish(
                    Vec::new(),
                    Err(RuntimeError::Cancelled),
                    elapsed_ms,
                    Ghost(context@),
                )
            },
        }
    }

    fn on_tool(
        &self,
        turn: AgentTurn,
        context: &mut ConversationContext,
        outcome: crate::tools::Result<JsonValue>,
        duration_ms: u128,
        elapsed_ms: u128,
    ) -> (step: TurnStep)
        requires
            turn@.phase is Calling,
        ensures
            exists|told: ToolsTold| #[trigger]
                may_be_told(
                    self.toolbox(),
                    turn@,
                    TurnInputView::ToolDone { outcome: outcome_view(outcome), duration_ms },
                    told,
                ) && step.is(
                    final(context)@,
                    turn@.tool_over(
                        told,
                        old(context)@,
                        turn@.phase->call,
                        turn@.phase->rest,
                        outcome_view(outcome),
                        duration_ms,
                        elapsed_ms,
                    ),
                ),
            step.turn.began() == turn.began(),
    {
        proof {
            use_type_invariant(&turn);
        }
        let ghost view = turn@;
        let ghost input = TurnInputView::ToolDone { outcome: outcome_view(outcome), duration_ms };
        let ghost mut told = ToolsTold::nothing();
        let ghost described = view.tool_over(
            told,
            context@,
            view.phase->call,
            view.phase->rest,
            outcome_view(outcome),
            duration_ms,
            elapsed_ms,
        );
        let AgentTurn { lifecycle, first_token_recorded, round, max_rounds, phase } = turn;
        let mut events: Vec<RuntimeEvent> = Vec::new();
        match phase {
            TurnPhase::Calling { call, rest } => match outcome {
                Ok(output) => {
                    events.push(
                        RuntimeEvent::ToolDispatchEnd {
                            call_id: call.id.clone(),
                            tool_name: call.name.clone(),
                            elapsed_ms,
                            duration_ms,
                            success: true,
                        },
                    );
                    context.push_tool_result(&call, &output);
                    let (round, phase): (usize, TurnPhase) = if rest.len() > 0 {
                        (round, TurnPhase::StartCall { calls: rest })
                    } else {
                        (round + 1, TurnPhase::StartRound)
                    };
                    let step = TurnStep {
                        turn: AgentTurn {
                            lifecycle,
                            first_token_recorded,
                            round,
                            max_rounds,
                            phase,
                        },
                        events,
                        action: TurnAction::Proceed,
                    };
                    assert(views(step.events@) =~= described.events);
                    assert(may_be_told(self.toolbox(), view, input, told));
                    step
                },
                Err(error) => {
                    if let ToolError::Timeout { .. } = &error {
                        let definition = self.tools.definition(call.name.as_str());
                        proof {
                            told = ToolsTold {
                                specs: Seq::empty(),
                                definition: opt_view(definition),
                            };
                        }
                        let timeout_ms: u128 = match definition {
                            Some(definition) => definition.metadata.timeout.as_millis(),
                            None => duration_ms,
                        };
                        events.push(
                            RuntimeEvent::ToolTimeout {
                                call_id: call.id.clone(),
                                tool_name: call.name.clone(),
                                timeout_ms,
                                elapsed_ms,
                            },
                        );
                    }
                    events.push(
                        RuntimeEvent::ToolDispatchEnd {
                            call_id: call.id.clone(),
                            tool_name: call.name.clone(),
                            elapsed_ms,
                            duration_ms,
                            success: false,
                        },
                    );
                    let ghost given = views(events@);
                    let turn = AgentTurn {
                        lifecycle,
                        first_token_recorded,
                        round,
                        max_rounds,
                        phase: TurnPhase::Calling { call, rest },
                    };
                    assert(turn@ == view);
                    let ghost ended = RuntimeEventView::ToolDispatchEnd {
                        call_id: call.id@,
                        tool_name: call.name@,
                        elapsed_ms,
                        duration_ms,
                        success: false,
                    };
                    assert(given.last() == ended);
                    assert(!(error is Timeout) ==> given =~= Seq::empty() + seq![ended]);
                    assert(error is Timeout ==> given =~= seq![given[0]] + seq![ended]);
                    assert(may_be_told(self.toolbox(), view, input, told));
                    turn.finish(
                        events,
                        Err(RuntimeError::Tool(error)),
                        elapsed_ms,
                        Ghost(context@),
                    )
                },
            },
            _ => {
                assert(false);
                AgentTurn { lifecycle, first_token_recorded, round, max_rounds, phase }.finish(
                    events,
                    Err(RuntimeError::Cancelled),
                    elapsed_ms,
                    Ghost(context@),
                )
            },
        }
    }
}

/// The start of a turn on a user's message.
pub open spec fn begun(
    runtime: RuntimeView,
    messages: Seq<ChatMessageView>,
    user_message: Seq<char>,
    elapsed_ms: u128,
) -> TurnStepView {
    TurnStepView {
        turn: AgentTurnView {
            state: Some(RequestState::Started),
            first_token_recorded: false,
            round: 0,
            max_rounds: runtime.max_tool_rounds,
            phase: TurnPhaseView::StartRound,
        },
        messages: messages.push(ChatMessageView::plain("user"@, user_message)),
        events: seq![
            RuntimeEventView::Lifecycle { from: None, to: RequestState::Started, elapsed_ms },
        ],
        action: TurnActionView::Proceed,
    }
}

} // verus!
