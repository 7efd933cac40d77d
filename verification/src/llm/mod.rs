//! Chat requests, chat messages and the events of a streamed answer.
use vstd::prelude::*;

use crate::json::{compact_text, JsonValue, JsonView};
use crate::text::{opt_view, views, IntoText};
use crate::time::Duration;

pub mod openai;

verus! {

pub type Result<T> = std::result::Result<T, LlmError>;

/// An HTTP status: its number, and the text that names it (such as `404 Not Found`).
#[derive(Debug)]
pub struct StatusCode {
    pub code: u16,
    pub text: String,
}

#[verifier::ext_equal]
pub struct StatusCodeView {
    pub code: u16,
    pub text: Seq<char>,
}

impl View for StatusCode {
    type V = StatusCodeView;

    open spec fn view(&self) -> StatusCodeView {
        StatusCodeView { code: self.code, text: self.text@ }
    }
}

impl StatusCode {
    /// Whether the status says that the request succeeded.
    pub fn is_success(&self) -> (success: bool)
        ensures
            success == (200 <= self@.code < 300),
    {
        200 <= self.code && self.code < 300
    }
}

/// Why a provider's stream failed.
#[derive(Debug)]
pub enum LlmError {
    ProviderTimeout,
    ProviderRequest(String),
    HttpStatus { status: StatusCode, body: String },
    MalformedSse { message: String },
    IncompleteSseEvent,
}

#[verifier::ext_equal]
pub enum LlmErrorView {
    ProviderTimeout,
    ProviderRequest(Seq<char>),
    HttpStatus { status: StatusCodeView, body: Seq<char> },
    MalformedSse { message: Seq<char> },
    IncompleteSseEvent,
}

impl View for LlmError {
    type V = LlmErrorView;

    open spec fn view(&self) -> LlmErrorView {
        match self {
            LlmError::ProviderTimeout => LlmErrorView::ProviderTimeout,
            LlmError::ProviderRequest(message) => LlmErrorView::ProviderRequest(message@),
            LlmError::HttpStatus { status, body } => LlmErrorView::HttpStatus {
                status: status@,
                body: body@,
            },
            LlmError::MalformedSse { message } => LlmErrorView::MalformedSse { message: message@ },
            LlmError::IncompleteSseEvent => LlmErrorView::IncompleteSseEvent,
        }
    }
}

impl LlmErrorView {
    /// What the error says.
    pub open spec fn text(self) -> Seq<char> {
        match self {
            LlmErrorView::ProviderTimeout => "provider request timed out"@,
            LlmErrorView::ProviderRequest(message) => "provider request failed: "@ + message,
            LlmErrorView::HttpStatus { status, body } => "provider returned HTTP "@ + status.text
                + ": "@ + body,
            LlmErrorView::MalformedSse { message } => "malformed SSE chunk: "@ + message,
            LlmErrorView::IncompleteSseEvent => "stream ended with an incomplete SSE event"@,
        }
    }
}

impl LlmError {
    /// What the error says.
    pub fn message(&self) -> (text: String)
        ensures
            text@ == self@.text(),
    {
        match self {
            LlmError::ProviderTimeout => "provider request timed out".to_owned(),
            LlmError::ProviderRequest(message) => {
                "provider request failed: ".to_owned().concat(message.as_str())
            },
            LlmError::HttpStatus { status, body } => {
                "provider returned HTTP ".to_owned().concat(status.text.as_str()).concat(
                    ": ",
                ).concat(body.as_str())
            },
            LlmError::MalformedSse { message } => {
                "malformed SSE chunk: ".to_owned().concat(message.as_str())
            },
            LlmError::IncompleteSseEvent => "stream ended with an incomplete SSE event".to_owned(),
        }
    }
}

/// A call of a tool that the model asks for.
#[derive(Debug, PartialEq, Eq)]
pub struct ToolCall {
    pub id: String,
    pub name: String,
    pub arguments: JsonValue,
}

#[verifier::ext_equal]
pub struct ToolCallView {
    pub id: Seq<char>,
    pub name: Seq<char>,
    pub arguments: JsonView,
}

impl View for ToolCall {
    type V = ToolCallView;

    open spec fn view(&self) -> ToolCallView {
        ToolCallView { id: self.id@, name: self.name@, arguments: self.arguments@ }
    }
}

impl Clone for ToolCall {
    fn clone(&self) -> (copy: Self)
        ensures
            copy@ == self@,
    {
        ToolCall {
            id: self.id.clone(),
            name: self.name.clone(),
            arguments: self.arguments.clone(),
        }
    }
}

/// What the model is told of a tool.
#[derive(Debug)]
pub struct ToolSpec {
    pub name: String,
    pub description: String,
    pub parameters: JsonValue,
}

#[verifier::ext_equal]
pub struct ToolSpecView {
    pub name: Seq<char>,
    pub description: Seq<char>,
    pub parameters: JsonView,
}

impl View for ToolSpec {
    type V = ToolSpecView;

    open spec fn view(&self) -> ToolSpecView {
        ToolSpecView {
            name: self.name@,
            description: self.description@,
            parameters: self.parameters@,
        }
    }
}

impl Clone for ToolSpec {
    fn clone(&self) -> (copy: Self)
        ensures
            copy@ == self@,
    {
        ToolSpec {
            name: self.name.clone(),
            description: self.description.clone(),
            parameters: self.parameters.clone(),
        }
    }
}

/// The function that a tool call names, and its arguments as JSON text.
#[derive(Debug)]
pub struct AssistantToolCallFunction {
    pub name: String,
    pub arguments: String,
}

/// A tool call as a message of the assistant carries it.
#[derive(Debug)]
pub struct AssistantToolCall {
    pub id: String,
    pub kind: String,
    pub function: AssistantToolCallFunction,
}

#[verifier::ext_equal]
pub struct AssistantToolCallView {
    pub id: Seq<char>,
    pub kind: Seq<char>,
    pub name: Seq<char>,
    pub arguments: Seq<char>,
}

impl View for AssistantToolCall {
    type V = AssistantToolCallView;

    open spec fn view(&self) -> AssistantToolCallView {
        AssistantToolCallView {
            id: self.id@,
            kind: self.kind@,
            name: self.function.name@,
            arguments: self.function.arguments@,
        }
    }
}

impl Clone for AssistantToolCall {
    fn clone(&self) -> (copy: Self)
        ensures
            copy@ == self@,
    {
        AssistantToolCall {
            id: self.id.clone(),
            kind: self.kind.clone(),
            function: AssistantToolCallFunction {
                name: self.function.name.clone(),
                arguments: self.function.arguments.clone(),
            },
        }
    }
}

/// One message of a conversation.
#[derive(Debug)]
pub struct ChatMessage {
    pub role: String,
    pub content: String,
    pub tool_call_id: Option<String>,
    pub name: Option<String>,
    pub tool_calls: Vec<AssistantToolCall>,
}

#[verifier::ext_equal]
pub struct ChatMessageView {
    pub role: Seq<char>,
    pub content: Seq<char>,
    pub tool_call_id: Option<Seq<char>>,
    pub name: Option<Seq<char>>,
    pub tool_calls: Seq<AssistantToolCallView>,
}

impl View for ChatMessage {
    type V = ChatMessageView;

    open spec fn view(&self) -> ChatMessageView {
        ChatMessageView {
            role: self.role@,
            content: self.content@,
            tool_call_id: opt_view(self.tool_call_id),
            name: opt_view(self.name),
            tool_calls: views(self.tool_calls@),
        }
    }
}

impl ChatMessageView {
    /// A message with a role and a content, and nothing else.
    pub open spec fn plain(role: Seq<char>, content: Seq<char>) -> ChatMessageView {
        ChatMessageView {
            role,
            content,
            tool_call_id: None,
            name: None,
            tool_calls: Seq::empty(),
        }
    }

    /// The message in which the assistant asks for tool calls.
    pub open spec fn of_tool_calls(
        content: Seq<char>,
        calls: Seq<ToolCallView>,
    ) -> ChatMessageView {
        ChatMessageView {
            role: "assistant"@,
            content,
            tool_call_id: None,
            name: None,
            tool_calls: calls.map_values(|call: ToolCallView| carried(call)),
        }
    }

    /// The message that answers one tool call.
    pub open spec fn of_tool_result(
        id: Seq<char>,
        name: Seq<char>,
        content: Seq<char>,
    ) -> ChatMessageView {
        ChatMessageView {
            role: "tool"@,
            content,
            tool_call_id: Some(id),
            name: Some(name),
            tool_calls: Seq::empty(),
        }
    }
}

/// A tool call as a message carries it.
pub open spec fn carried(call: ToolCallView) -> AssistantToolCallView {
    AssistantToolCallView {
        id: call.id,
        kind: "function"@,
        name: call.name,
        arguments: compact_text(call.arguments),
    }
}

/// A copy of an optional text.
pub fn clone_opt_text(text: &Option<String>) -> (copy: Option<String>)
    ensures
        opt_view(copy) == opt_view(*text),
{
    match text {
        Some(text) => Some(text.clone()),
        None => None,
    }
}

impl Clone for ChatMessage {
    fn clone(&self) -> (copy: Self)
        ensures
            copy@ == self@,
    {
        let mut tool_calls: Vec<AssistantToolCall> = Vec::new();
        let mut i: usize = 0;
        while i < self.tool_calls.len()
            invariant
                i <= self.tool_calls@.len(),
                views(tool_calls@) == views(self.tool_calls@).take(i as int),
            decreases self.tool_calls@.len() - i,
        {
            let ghost before = tool_calls@;
            tool_calls.push(self.tool_calls[i].clone());
            i = i + 1;
            assert(views(tool_calls@) =~= views(before).push(tool_calls@.last()@));
            assert(views(tool_calls@) =~= views(self.tool_calls@).take(i as int));
        }
        assert(views(tool_calls@) =~= views(self.tool_calls@));
        ChatMessage {
            role: self.role.clone(),
            content: self.content.clone(),
            tool_call_id: clone_opt_text(&self.tool_call_id),
            name: clone_opt_text(&self.name),
            tool_calls,
        }
    }
}

/// A copy of a list of messages.
pub fn clone_messages(messages: &Vec<ChatMessage>) -> (copies: Vec<ChatMessage>)
    ensures
        views(copies@) == views(messages@),
{
    let mut copies: Vec<ChatMessage> = Vec::new();
    let mut i: usize = 0;
    while i < messages.len()
        invariant
            i <= messages@.len(),
            views(copies@) == views(messages@).take(i as int),
        decreases messages@.len() - i,
    {
        let ghost before = copies@;
        copies.push(messages[i].clone());
        i = i + 1;
        assert(views(copies@) =~= views(before).push(copies@.last()@));
        assert(views(copies@) =~= views(messages@).take(i as int));
    }
    assert(views(copies@) =~= views(messages@));
    copies
}

impl ChatMessage {
    fn plain(role: &str, content: String) -> (message: ChatMessage)
        ensures
            message@ == ChatMessageView::plain(role@, content@),
    {
        let message = ChatMessage {
            role: role.to_owned(),
            content,
            tool_call_id: None,
            name: None,
            tool_calls: Vec::new(),
        };
        assert(message@ =~= ChatMessageView::plain(role@, content@));
        message
    }

    pub fn system(content: impl IntoText) -> (message: ChatMessage)
        ensures
            message@ == ChatMessageView::plain("system"@, content.text()),
    {
        ChatMessage::plain("system", content.into_text())
    }

    pub fn user(content: impl IntoText) -> (message: ChatMessage)
        ensures
            message@ == ChatMessageView::plain("user"@, content.text()),
    {
        ChatMessage::plain("user", content.into_text())
    }

    pub fn assistant(content: impl IntoText) -> (message: ChatMessage)
        ensures
            message@ == ChatMessageView::plain("assistant"@, content.text()),
    {
        ChatMessage::plain("assistant", content.into_text())
    }

    /// The message in which the assistant asks for `calls`.
    pub fn assistant_tool_calls(
        content: impl IntoText,
        calls: &Vec<ToolCall>,
    ) -> (message: ChatMessage)
        ensures
            message@ == ChatMessageView::of_tool_calls(content.text(), views(calls@)),
    {
        let ghost all = views(calls@).map_values(|call: ToolCallView| carried(call));
        let mut tool_calls: Vec<AssistantToolCall> = Vec::new();
        let mut i: usize = 0;
        while i < calls.len()
            invariant
                i <= calls@.len(),
                all == views(calls@).map_values(|call: ToolCallView| carried(call)),
                views(tool_calls@) == all.take(i as int),
            decreases calls@.len() - i,
        {
            let ghost before = tool_calls@;
            tool_calls.push(
                AssistantToolCall {
                    id: calls[i].id.clone(),
                    kind: "function".to_owned(),
                    function: AssistantToolCallFunction {
                        name: calls[i].name.clone(),
                        arguments: calls[i].arguments.to_text(),
                    },
                },
            );
            i = i + 1;
            assert(views(tool_calls@) =~= views(before).push(tool_calls@.last()@));
            assert(views(tool_calls@) =~= all.take(i as int));
        }
        assert(views(tool_calls@) =~= all);
        ChatMessage {
            role: "assistant".to_owned(),
            content: content.into_text(),
            tool_call_id: None,
            name: None,
            tool_calls,
        }
    }

    /// The message that answers the tool call `id` of the tool `name`.
    pub fn tool(
        id: impl IntoText,
        name: impl IntoText,
        content: impl IntoText,
    ) -> (message: ChatMessage)
        ensures
            message@ == ChatMessageView::of_tool_result(id.text(), name.text(), content.text()),
    {
        let ghost expected = ChatMessageView::of_tool_result(
            id.text(),
            name.text(),
            content.text(),
        );
        let message = ChatMessage {
            role: "tool".to_owned(),
            content: content.into_text(),
            tool_call_id: Some(id.into_text()),
            name: Some(name.into_text()),
            tool_calls: Vec::new(),
        };
        assert(message@ =~= expected);
        message
    }
}

/// A request for a streamed answer.
#[derive(Debug, Clone)]
pub struct ChatRequest {
    pub model: String,
    pub messages: Vec<ChatMessage>,
    pub tools: Vec<ToolSpec>,
    pub timeout: Option<Duration>,
}

#[verifier::ext_equal]
pub struct ChatRequestView {
    pub model: Seq<char>,
    pub messages: Seq<ChatMessageView>,
    pub tools: Seq<ToolSpecView>,
    pub timeout: Option<Duration>,
}

impl View for ChatRequest {
    type V = ChatRequestView;

    open spec fn view(&self) -> ChatRequestView {
        ChatRequestView {
            model: self.model@,
            messages: views(self.messages@),
            tools: views(self.tools@),
            timeout: self.timeout,
        }
    }
}

impl ChatRequest {
    pub fn new(model: impl IntoText, messages: Vec<ChatMessage>) -> (request: ChatRequest)
        ensures
            request@ == (ChatRequestView {
                model: model.text(),
                messages: views(messages@),
                tools: Seq::empty(),
                timeout: None,
            }),
    {
        let request = ChatRequest {
            model: model.into_text(),
            messages,
            tools: Vec::new(),
            timeout: None,
        };
        assert(request@.tools =~= Seq::empty());
        request
    }

    pub fn with_tools(self, tools: Vec<ToolSpec>) -> (request: ChatRequest)
        ensures
            request@ == (ChatRequestView { tools: views(tools@), ..self@ }),
    {
        ChatRequest { model: self.model, messages: self.messages, tools, timeout: self.timeout }
    }

    pub fn with_timeout(self, timeout: Duration) -> (request: ChatRequest)
        ensures
            request@ == (ChatRequestView { timeout: Some(timeout), ..self@ }),
    {
        ChatRequest {
            model: self.model,
            messages: self.messages,
            tools: self.tools,
            timeout: Some(timeout),
        }
    }
}

/// One event of a streamed answer.
#[derive(Debug, Clone, PartialEq, Eq)]
pub enum TokenEvent {
    Token { text: String },
    ToolCall(ToolCall),
    Done,
}

#[verifier::ext_equal]
pub enum TokenEventView {
    Token { text: Seq<char> },
    ToolCall(ToolCallView),
    Done,
}

impl View for TokenEvent {
    type V = TokenEventView;

    open spec fn view(&self) -> TokenEventView {
        match self {
            TokenEvent::Token { text } => TokenEventView::Token { text: text@ },
            TokenEvent::ToolCall(call) => TokenEventView::ToolCall(call@),
            TokenEvent::Done => TokenEventView::Done,
        }
    }
}

/// A message carries its text under its role, and nothing else; one that asks for tools also carries
/// the calls, in order, each with its arguments as text, and one that answers a call also the call's
/// identifier and the tool's name.
pub proof fn messages_carry_what_they_are_given(
    role: Seq<char>,
    content: Seq<char>,
    calls: Seq<ToolCallView>,
    id: Seq<char>,
    name: Seq<char>,
    i: int,
)
    ensures
        ({
            let plain = ChatMessageView::plain(role, content);
            let asking = ChatMessageView::of_tool_calls(content, calls);
            let answering = ChatMessageView::of_tool_result(id, name, content);
            &&& plain.role == role && plain.content == content
            &&& plain.tool_call_id is None && plain.name is None && plain.tool_calls.len() == 0
            &&& asking.role == "assistant"@ && asking.content == content
            &&& asking.tool_call_id is None && asking.name is None
            &&& asking.tool_calls.len() == calls.len()
            &&& 0 <= i < calls.len() ==> {
                &&& asking.tool_calls[i].id == calls[i].id
                &&& asking.tool_calls[i].kind == "function"@
                &&& asking.tool_calls[i].name == calls[i].name
                &&& asking.tool_calls[i].arguments == compact_text(calls[i].arguments)
            }
            &&& answering.role == "tool"@ && answering.content == content
            &&& answering.tool_call_id == Some(id) && answering.name == Some(name)
            &&& answering.tool_calls.len() == 0
        }),
{
}

} // verus!
