//! The states of a request and the events of a turn.
use vstd::prelude::*;

use crate::time::{clock_now, millis_since, MAX_MILLIS};

verus! {

/// Where a request stands.
#[derive(Debug, Clone, Copy, PartialEq, Eq, Structural)]
pub enum RequestState {
    Started,
    StreamingLlm,
    DispatchingTool,
    Completed,
    Cancelled,
    Failed,
}

impl RequestState {
    /// Whether the request is over.
    pub open spec fn terminal(self) -> bool {
        self is Completed || self is Cancelled || self is Failed
    }

    /// Whether the request is over.
    pub fn is_terminal(self) -> (terminal: bool)
        ensures
            terminal == self.terminal(),
    {
        matches!(self, RequestState::Completed | RequestState::Cancelled | RequestState::Failed)
    }
}

/// One event of a turn; the times are counted from its start.
#[derive(Debug, PartialEq, Eq, Clone)]
pub enum RuntimeEvent {
    Lifecycle { from: Option<RequestState>, to: RequestState, elapsed_ms: u128 },
    LlmFirstToken { elapsed_ms: u128 },
    AssistantToken { text: String, elapsed_ms: u128 },
    ToolDispatchStart { call_id: String, tool_name: String, elapsed_ms: u128 },
    ToolDispatchEnd {
        call_id: String,
        tool_name: String,
        elapsed_ms: u128,
        duration_ms: u128,
        success: bool,
    },
    ToolTimeout { call_id: String, tool_name: String, timeout_ms: u128, elapsed_ms: u128 },
    TurnCompleted { elapsed_ms: u128, output_chars: usize },
}

#[verifier::ext_equal]
pub enum RuntimeEventView {
    Lifecycle { from: Option<RequestState>, to: RequestState, elapsed_ms: u128 },
    LlmFirstToken { elapsed_ms: u128 },
    AssistantToken { text: Seq<char>, elapsed_ms: u128 },
    ToolDispatchStart { call_id: Seq<char>, tool_name: Seq<char>, elapsed_ms: u128 },
    ToolDispatchEnd {
        call_id: Seq<char>,
        tool_name: Seq<char>,
        elapsed_ms: u128,
        duration_ms: u128,
        success: bool,
    },
    ToolTimeout { call_id: Seq<char>, tool_name: Seq<char>, timeout_ms: u128, elapsed_ms: u128 },
    TurnCompleted { elapsed_ms: u128, output_chars: usize },
}

impl View for RuntimeEvent {
    type V = RuntimeEventView;

    open spec fn view(&self) -> RuntimeEventView {
        match *self {
            RuntimeEvent::Lifecycle { from, to, elapsed_ms } => RuntimeEventView::Lifecycle {
                from,
                to,
                elapsed_ms,
            },
            RuntimeEvent::LlmFirstToken { elapsed_ms } => RuntimeEventView::LlmFirstToken {
                elapsed_ms,
            },
            RuntimeEvent::AssistantToken { text, elapsed_ms } => RuntimeEventView::AssistantToken {
                text: text@,
                elapsed_ms,
            },
            RuntimeEvent::ToolDispatchStart { call_id, tool_name, elapsed_ms } => {
                RuntimeEventView::ToolDispatchStart {
                    call_id: call_id@,
                    tool_name: tool_name@,
                    elapsed_ms,
                }
            },
            RuntimeEvent::ToolDispatchEnd {
                call_id,
                tool_name,
                elapsed_ms,
                duration_ms,
                success,
            } => RuntimeEventView::ToolDispatchEnd {
                call_id: call_id@,
                tool_name: tool_name@,
                elapsed_ms,
                duration_ms,
                success,
            },
            RuntimeEvent::ToolTimeout { call_id, tool_name, timeout_ms, elapsed_ms } => {
                RuntimeEventView::ToolTimeout {
                    call_id: call_id@,
                    tool_name: tool_name@,
                    timeout_ms,
                    elapsed_ms,
                }
            },
            RuntimeEvent::TurnCompleted { elapsed_ms, output_chars } => {
                RuntimeEventView::TurnCompleted { elapsed_ms, output_chars }
            },
        }
    }
}

/// The state of a request, and when it began.
#[derive(Debug)]
pub struct RequestLifecycle {
    state: Option<RequestState>,
    started_at: std::time::Instant,
}

impl View for RequestLifecycle {
    type V = Option<RequestState>;

    closed spec fn view(&self) -> Option<RequestState> {
        self.state
    }
}

/// Whether a request may pass from one state to another: not out of a terminal state; into the
/// same one again; and along the course of a turn.
pub open spec fn may_follow(from: RequestState, to: RequestState) -> bool {
    &&& !from.terminal()
    &&& {
        ||| from == to
        ||| to is Cancelled
        ||| to is Failed
        ||| from is Started && to is StreamingLlm
        ||| from is StreamingLlm && (to is DispatchingTool || to is Completed)
        ||| from is DispatchingTool && (to is StreamingLlm || to is Completed)
    }
}

/// Whether a request may pass to `to`; a request without a state may pass to any.
pub open spec fn may_enter(from: Option<RequestState>, to: RequestState) -> bool {
    from matches Some(from) ==> may_follow(from, to)
}

/// Whether a request may pass from one state to another.
pub fn valid_transition(from: RequestState, to: RequestState) -> (valid: bool)
    ensures
        valid == may_follow(from, to),
{
    if from.is_terminal() {
        return false;
    }
    if from == to {
        return true;
    }
    matches!(
        (from, to),
        (RequestState::Started, RequestState::StreamingLlm)
            | (RequestState::Started, RequestState::Cancelled)
            | (RequestState::Started, RequestState::Failed)
            | (RequestState::StreamingLlm, RequestState::DispatchingTool)
            | (RequestState::StreamingLlm, RequestState::Completed)
            | (RequestState::StreamingLlm, RequestState::Cancelled)
            | (RequestState::StreamingLlm, RequestState::Failed)
            | (RequestState::DispatchingTool, RequestState::StreamingLlm)
            | (RequestState::DispatchingTool, RequestState::Completed)
            | (RequestState::DispatchingTool, RequestState::Cancelled)
            | (RequestState::DispatchingTool, RequestState::Failed)
    )
}

impl RequestLifecycle {
    /// A request that begins now, without a state yet.
    pub fn new() -> (lifecycle: RequestLifecycle)
        ensures
            lifecycle@ is None,
    {
        RequestLifecycle { state: None, started_at: clock_now() }
    }

    /// When the request began.
    pub closed spec fn began(&self) -> std::time::Instant {
        self.started_at
    }

    pub fn state(&self) -> (state: Option<RequestState>)
        ensures
            state == self@,
    {
        self.state
    }

    /// The milliseconds since the request began, by the clock: no more than a span of time can hold.
    pub fn elapsed_ms(&self) -> (elapsed_ms: u128)
        ensures
            elapsed_ms <= MAX_MILLIS,
    {
        millis_since(&self.started_at)
    }

    /// Passes to `next`, `elapsed_ms` after the request began.
    pub fn transition_at(&mut self, next: RequestState, elapsed_ms: u128) -> (event: RuntimeEvent)
        requires
            may_enter(old(self)@, next),
        ensures
            final(self)@ == Some(next),
            final(self).began() == old(self).began(),
            event@ == (RuntimeEventView::Lifecycle { from: old(self)@, to: next, elapsed_ms }),
    {
        let from = self.state;
        self.state = Some(next);
        RuntimeEvent::Lifecycle { from, to: next, elapsed_ms }
    }

    /// Passes to `next` now.
    pub fn transition(&mut self, next: RequestState) -> (event: RuntimeEvent)
        requires
            may_enter(old(self)@, next),
        ensures
            final(self)@ == Some(next),
            final(self).began() == old(self).began(),
            event@ matches RuntimeEventView::Lifecycle { from, to, elapsed_ms } && from == old(
                self,
            )@ && to == next && elapsed_ms <= MAX_MILLIS,
    {
        let elapsed_ms: u128 = self.elapsed_ms();
        self.transition_at(next, elapsed_ms)
    }
}

impl Default for RequestLifecycle {
    fn default() -> (lifecycle: Self)
        ensures
            lifecycle@ is None,
    {
        RequestLifecycle::new()
    }
}

/// No state follows a terminal one.
pub proof fn nothing_follows_the_end(from: RequestState, to: RequestState)
    requires
        from.terminal(),
    ensures
        !may_follow(from, to),
{
}

/// From each state that is not terminal a request may stay, be cancelled or fail. It streams first
/// after it started and after tools were called; tools are called, and it is completed, only after
/// it has streamed.
pub proof fn a_request_takes_its_course(from: RequestState, to: RequestState)
    ensures
        from.terminal() <==> from is Completed || from is Cancelled || from is Failed,
        !from.terminal() && (to == from || to is Cancelled || to is Failed) ==> may_follow(from, to),
        may_follow(from, to) && to is Started ==> from is Started,
        to is StreamingLlm && from != to ==> (may_follow(from, to) <==> from is Started || from
            is DispatchingTool),
        to is DispatchingTool && from != to ==> (may_follow(from, to) <==> from is StreamingLlm),
        to is Completed ==> (may_follow(from, to) <==> from is StreamingLlm || from
            is DispatchingTool),
{
}

} // verus!
