//! What a turn comes to in terms of what the provider, the tools and the user did.
use vstd::prelude::*;
use vstd::utf8::encode_utf8;

use crate::json::{compact_text, JsonView};
use crate::llm::{ChatMessageView, TokenEventView, ToolCallView};
use crate::runtime::events::{RequestState, RuntimeEventView};
use crate::runtime::laws::{
    after, first_tokens, first_tokens_are_recorded, turn_run, TurnRun,
};
use crate::runtime::{
    begun, may_be_told, AgentTurnView, RuntimeErrorView, RuntimeView, ToolsTold, TurnActionView,
    TurnInputView, TurnPhaseView, TurnStepView,
};
use crate::tools::{may_give, may_tell, Tool, ToolErrorView};

verus! {

/// A turn up to some point, with the inputs that occurred and all that it asked for.
#[verifier::ext_equal]
pub struct TurnTrace {
    pub run: TurnRun,
    pub taken: Seq<TurnInputView>,
    pub actions: Seq<TurnActionView>,
}

/// Whether an input is what the turn waits for after it asked for `action`.
pub open spec fn replies(action: TurnActionView, input: TurnInputView) -> bool {
    match action {
        TurnActionView::Proceed => input is Proceed,
        TurnActionView::OpenStream(_) | TurnActionView::NextEvent => input is StreamCancelled
            || input is StreamEvent || input is StreamEnd,
        TurnActionView::CallTool(_) => input is ToolCancelled || input is ToolDone,
        TurnActionView::Finish(_) => false,
    }
}

/// The turn on a user's message after some inputs, each with the time at which it came and what the
/// tools told then. An input that does not reply to what the turn last asked for does not occur.
pub open spec fn turn_trace(
    runtime: RuntimeView,
    messages: Seq<ChatMessageView>,
    user_message: Seq<char>,
    started_ms: u128,
    inputs: Seq<(TurnInputView, u128, ToolsTold)>,
) -> TurnTrace
    decreases inputs.len(),
{
    if inputs.len() == 0 {
        TurnTrace {
            run: turn_run(runtime, messages, user_message, started_ms, inputs),
            taken: Seq::empty(),
            actions: seq![begun(runtime, messages, user_message, started_ms).action],
        }
    } else {
        let trace = turn_trace(runtime, messages, user_message, started_ms, inputs.drop_last());
        let (input, elapsed_ms, told) = inputs.last();
        if replies(trace.actions.last(), input) {
            let step = trace.run.turn.advanced(
                runtime,
                told,
                trace.run.messages,
                input,
                elapsed_ms,
            );
            TurnTrace {
                run: after(trace.run, step),
                taken: trace.taken.push(input),
                actions: trace.actions.push(step.action),
            }
        } else {
            trace
        }
    }
}

/// The texts of all tokens that were streamed, in order.
pub open spec fn tokens_in(taken: Seq<TurnInputView>) -> Seq<Seq<char>>
    decreases taken.len(),
{
    if taken.len() == 0 {
        Seq::empty()
    } else {
        let before = tokens_in(taken.drop_last());
        match taken.last() {
            TurnInputView::StreamEvent(Ok(TokenEventView::Token { text })) => before.push(text),
            _ => before,
        }
    }
}

/// All tool calls that were streamed, in order.
pub open spec fn calls_in(taken: Seq<TurnInputView>) -> Seq<ToolCallView>
    decreases taken.len(),
{
    if taken.len() == 0 {
        Seq::empty()
    } else {
        let before = calls_in(taken.drop_last());
        match taken.last() {
            TurnInputView::StreamEvent(Ok(TokenEventView::ToolCall(call))) => before.push(call),
            _ => before,
        }
    }
}

/// The text that was streamed since the last input of another kind.
pub open spec fn text_of_stream(taken: Seq<TurnInputView>) -> Seq<char>
    decreases taken.len(),
{
    if taken.len() == 0 {
        Seq::empty()
    } else {
        match taken.last() {
            TurnInputView::StreamEvent(Ok(TokenEventView::Token { text })) => text_of_stream(
                taken.drop_last(),
            ) + text,
            TurnInputView::StreamEvent(Ok(TokenEventView::ToolCall(_))) => text_of_stream(
                taken.drop_last(),
            ),
            _ => Seq::empty(),
        }
    }
}

/// The tool calls that were streamed since the last input of another kind.
pub open spec fn calls_of_stream(taken: Seq<TurnInputView>) -> Seq<ToolCallView>
    decreases taken.len(),
{
    if taken.len() == 0 {
        Seq::empty()
    } else {
        match taken.last() {
            TurnInputView::StreamEvent(Ok(TokenEventView::ToolCall(call))) => calls_of_stream(
                taken.drop_last(),
            ).push(call),
            TurnInputView::StreamEvent(Ok(TokenEventView::Token { .. })) => calls_of_stream(
                taken.drop_last(),
            ),
            _ => Seq::empty(),
        }
    }
}

/// Whether a stream is over with this input, and did not fail.
pub open spec fn ends_stream(input: TurnInputView) -> bool {
    input is StreamEnd || input == TurnInputView::StreamEvent(Ok(TokenEventView::Done))
}

/// How many streams are over.
pub open spec fn streams_over(taken: Seq<TurnInputView>) -> nat
    decreases taken.len(),
{
    if taken.len() == 0 {
        0
    } else {
        streams_over(taken.drop_last()) + if ends_stream(taken.last()) {
            1nat
        } else {
            0nat
        }
    }
}

/// The outputs of all tool calls that succeeded, in order.
pub open spec fn outputs_in(taken: Seq<TurnInputView>) -> Seq<JsonView>
    decreases taken.len(),
{
    if taken.len() == 0 {
        Seq::empty()
    } else {
        let before = outputs_in(taken.drop_last());
        match taken.last() {
            TurnInputView::ToolDone { outcome: Ok(output), .. } => before.push(output),
            _ => before,
        }
    }
}

/// How long each tool call that is over took, and whether it succeeded, in order.
pub open spec fn calls_over(taken: Seq<TurnInputView>) -> Seq<(u128, bool)>
    decreases taken.len(),
{
    if taken.len() == 0 {
        Seq::empty()
    } else {
        let before = calls_over(taken.drop_last());
        match taken.last() {
            TurnInputView::ToolDone { outcome, duration_ms } => before.push(
                (duration_ms, outcome is Ok),
            ),
            _ => before,
        }
    }
}

/// The tool calls that were asked for, in order.
pub open spec fn calls_made(actions: Seq<TurnActionView>) -> Seq<ToolCallView>
    decreases actions.len(),
{
    if actions.len() == 0 {
        Seq::empty()
    } else {
        let before = calls_made(actions.drop_last());
        match actions.last() {
            TurnActionView::CallTool(call) => before.push(call),
            _ => before,
        }
    }
}

/// The states that what was asked for goes with, in order: a stream, a tool call, or the end.
pub open spec fn states_of(actions: Seq<TurnActionView>) -> Seq<RequestState>
    decreases actions.len(),
{
    if actions.len() == 0 {
        Seq::empty()
    } else {
        let before = states_of(actions.drop_last());
        match actions.last() {
            TurnActionView::OpenStream(_) => before.push(RequestState::StreamingLlm),
            TurnActionView::CallTool(_) => before.push(RequestState::DispatchingTool),
            TurnActionView::Finish(Ok(_)) => before.push(RequestState::Completed),
            TurnActionView::Finish(Err(RuntimeErrorView::Cancelled)) => before.push(
                RequestState::Cancelled,
            ),
            TurnActionView::Finish(Err(_)) => before.push(RequestState::Failed),
            _ => before,
        }
    }
}

/// The texts of the tokens that were told, in order.
pub open spec fn tokens_told(events: Seq<RuntimeEventView>) -> Seq<Seq<char>>
    decreases events.len(),
{
    if events.len() == 0 {
        Seq::empty()
    } else {
        let before = tokens_told(events.drop_last());
        match events.last() {
            RuntimeEventView::AssistantToken { text, .. } => before.push(text),
            _ => before,
        }
    }
}

/// The states that were told, in order.
pub open spec fn states_told(events: Seq<RuntimeEventView>) -> Seq<RequestState>
    decreases events.len(),
{
    if events.len() == 0 {
        Seq::empty()
    } else {
        let before = states_told(events.drop_last());
        match events.last() {
            RuntimeEventView::Lifecycle { to, .. } => before.push(to),
            _ => before,
        }
    }
}

/// The identifiers and names of the calls whose start was told, in order.
pub open spec fn starts_told(events: Seq<RuntimeEventView>) -> Seq<(Seq<char>, Seq<char>)>
    decreases events.len(),
{
    if events.len() == 0 {
        Seq::empty()
    } else {
        let before = starts_told(events.drop_last());
        match events.last() {
            RuntimeEventView::ToolDispatchStart { call_id, tool_name, .. } => before.push(
                (call_id, tool_name),
            ),
            _ => before,
        }
    }
}

/// A call whose end was told: its identifier and name, how long it took, and whether it succeeded.
#[verifier::ext_equal]
pub struct CallEnd {
    pub id: Seq<char>,
    pub name: Seq<char>,
    pub duration_ms: u128,
    pub success: bool,
}

/// The calls whose end was told, in order.
pub open spec fn ends_told(events: Seq<RuntimeEventView>) -> Seq<CallEnd>
    decreases events.len(),
{
    if events.len() == 0 {
        Seq::empty()
    } else {
        let before = ends_told(events.drop_last());
        match events.last() {
            RuntimeEventView::ToolDispatchEnd {
                call_id,
                tool_name,
                duration_ms,
                success,
                ..
            } => before.push(CallEnd { id: call_id, name: tool_name, duration_ms, success }),
            _ => before,
        }
    }
}

/// The lengths of the answers that were told to be complete.
pub open spec fn lengths_told(events: Seq<RuntimeEventView>) -> Seq<usize>
    decreases events.len(),
{
    if events.len() == 0 {
        Seq::empty()
    } else {
        let before = lengths_told(events.drop_last());
        match events.last() {
            RuntimeEventView::TurnCompleted { output_chars, .. } => before.push(output_chars),
            _ => before,
        }
    }
}

/// The identifiers and names of the calls of which it was told that their time ran out.
pub open spec fn timeouts_told(events: Seq<RuntimeEventView>) -> Seq<(Seq<char>, Seq<char>)>
    decreases events.len(),
{
    if events.len() == 0 {
        Seq::empty()
    } else {
        let before = timeouts_told(events.drop_last());
        match events.last() {
            RuntimeEventView::ToolTimeout { call_id, tool_name, .. } => before.push(
                (call_id, tool_name),
            ),
            _ => before,
        }
    }
}

/// The result of a turn that may call tools in `max_rounds` rounds, where it is over with the last
/// of the inputs.
pub open spec fn result_of(max_rounds: usize, taken: Seq<TurnInputView>) -> Option<
    std::result::Result<Seq<char>, RuntimeErrorView>,
> {
    if taken.len() == 0 {
        None
    } else {
        match taken.last() {
            TurnInputView::Proceed { cancelled } => if cancelled {
                Some(Err(RuntimeErrorView::Cancelled))
            } else {
                None
            },
            TurnInputView::StreamCancelled | TurnInputView::ToolCancelled => Some(
                Err(RuntimeErrorView::Cancelled),
            ),
            TurnInputView::StreamEvent(Err(error)) => Some(Err(RuntimeErrorView::Llm(error))),
            TurnInputView::ToolDone { outcome: Err(error), .. } => Some(
                Err(RuntimeErrorView::Tool(error)),
            ),
            input => if !ends_stream(input) {
                None
            } else if calls_of_stream(taken.drop_last()).len() == 0 {
                Some(Ok(text_of_stream(taken.drop_last())))
            } else if streams_over(taken) > max_rounds {
                Some(Err(RuntimeErrorView::MaxToolRounds { max_rounds }))
            } else {
                None
            },
        }
    }
}

/// Whether a message is the assistant's, with this text and these tool calls.
pub open spec fn asks_for(
    message: ChatMessageView,
    text: Seq<char>,
    calls: Seq<ToolCallView>,
) -> bool {
    &&& message.role == "assistant"@
    &&& message.content == text
    &&& message.tool_call_id is None
    &&& message.name is None
    &&& message.tool_calls.len() == calls.len()
    &&& forall|k: int|
        0 <= k < calls.len() ==> {
            &&& (#[trigger] message.tool_calls[k]).id == calls[k].id
            &&& message.tool_calls[k].kind == "function"@
            &&& message.tool_calls[k].name == calls[k].name
            &&& message.tool_calls[k].arguments == compact_text(calls[k].arguments)
        }
}

/// Whether a message is a tool's answer to `call` with `output`.
pub open spec fn answers(message: ChatMessageView, call: ToolCallView, output: JsonView) -> bool {
    &&& message.role == "tool"@
    &&& message.content == compact_text(output)
    &&& message.tool_call_id == Some(call.id)
    &&& message.name == Some(call.name)
    &&& message.tool_calls.len() == 0
}

/// Whether `added` is what the inputs add to the conversation: for each stream that is over the
/// assistant's message, with what was streamed in it; and for each call that succeeded the tool's
/// answer, the first output answering the first call, and so on. An empty message is not added, nor
/// one that asks for tools after the last round.
pub open spec fn conversation_of(
    added: Seq<ChatMessageView>,
    max_rounds: usize,
    taken: Seq<TurnInputView>,
) -> bool
    decreases taken.len(),
{
    if taken.len() == 0 {
        added.len() == 0
    } else {
        let before = taken.drop_last();
        let text = text_of_stream(before);
        let calls = calls_of_stream(before);
        match taken.last() {
            TurnInputView::ToolDone { outcome: Ok(output), .. } => {
                &&& added.len() > 0
                &&& answers(added.last(), calls_in(before)[outputs_in(before).len() as int], output)
                &&& conversation_of(added.drop_last(), max_rounds, before)
            },
            input => if ends_stream(input) && (if calls.len() > 0 {
                streams_over(taken) <= max_rounds
            } else {
                text.len() > 0
            }) {
                &&& added.len() > 0
                &&& asks_for(added.last(), text, calls)
                &&& conversation_of(added.drop_last(), max_rounds, before)
            } else {
                conversation_of(added, max_rounds, before)
            },
        }
    }
}

/// Whether the message that follows message `i` after `k` others is a tool's answer under the
/// identifier of the call `k` that message `i` asks for.
pub open spec fn call_is_answered(messages: Seq<ChatMessageView>, i: int, k: int) -> bool {
    &&& i + 1 + k < messages.len()
    &&& messages[i + 1 + k].role == "tool"@
    &&& messages[i + 1 + k].tool_call_id == Some(messages[i].tool_calls[k].id)
}

/// Whether from message `first` on the answers to all calls follow the message that asks for them,
/// in order and under their identifiers.
pub open spec fn calls_are_answered(messages: Seq<ChatMessageView>, first: int) -> bool {
    forall|i: int, k: int|
        first <= i < messages.len() && 0 <= k < messages[i].tool_calls.len()
            ==> #[trigger] call_is_answered(messages, i, k)
}

/// Whether the answers to the calls that message `i` asks for follow it, in order and under their
/// identifiers, but for those of the calls that are `waiting`.
spec fn answered_at(messages: Seq<ChatMessageView>, i: int, waiting: Seq<ToolCallView>) -> bool {
    let calls = messages[i].tool_calls;
    calls.len() > 0 ==> {
        &&& forall|k: int|
            0 <= k < calls.len() && i + 1 + k < messages.len() ==> #[trigger] call_is_answered(
                messages,
                i,
                k,
            )
        &&& i + calls.len() < messages.len() || {
            &&& i + calls.len() == messages.len() - 1 + waiting.len()
            &&& waiting.len() <= calls.len()
            &&& forall|j: int|
                0 <= j < waiting.len() ==> calls[calls.len() - waiting.len() + j].id == (
                #[trigger] waiting[j]).id
        }
    }
}

/// Whether in a conversation from `from` on the answers to all calls follow the messages that ask
/// for them, but for those of the calls that are `waiting`.
spec fn answered(
    messages: Seq<ChatMessageView>,
    from: int,
    waiting: Seq<ToolCallView>,
) -> bool {
    forall|i: int| from <= i < messages.len() ==> #[trigger] answered_at(messages, i, waiting)
}

/// The calls of the round that have no answer yet.
spec fn waiting(phase: TurnPhaseView) -> Seq<ToolCallView> {
    match phase {
        TurnPhaseView::StartCall { calls } => calls,
        TurnPhaseView::Calling { call, rest } => seq![call] + rest,
        _ => Seq::empty(),
    }
}

/// The calls that were streamed and are not asked for yet.
spec fn ahead(phase: TurnPhaseView) -> Seq<ToolCallView> {
    match phase {
        TurnPhaseView::Streaming { calls, .. } => calls,
        TurnPhaseView::StartCall { calls } => calls,
        TurnPhaseView::Calling { rest, .. } => rest,
        _ => Seq::empty(),
    }
}

/// Whether the turn asked for this in its phase.
spec fn goes_with(phase: TurnPhaseView, action: TurnActionView) -> bool {
    match phase {
        TurnPhaseView::StartRound | TurnPhaseView::StartCall { .. } => action is Proceed,
        TurnPhaseView::Streaming { .. } => action is OpenStream || action is NextEvent,
        TurnPhaseView::Calling { call, .. } => action == TurnActionView::CallTool(call),
        TurnPhaseView::Finished => action is Finish,
    }
}

/// What the events say of the calls.
spec fn calls_are_told(trace: TurnTrace) -> bool {
    let made = calls_made(trace.actions);
    let over = calls_over(trace.taken);
    let starts = starts_told(trace.run.events);
    let ends = ends_told(trace.run.events);
    &&& starts.len() == made.len()
    &&& forall|k: int|
        0 <= k < made.len() ==> (#[trigger] starts[k]).0 == made[k].id && starts[k].1
            == made[k].name
    &&& ends.len() == over.len()
    &&& over.len() <= made.len()
    &&& forall|k: int|
        0 <= k < over.len() ==> #[trigger] ends[k] == (CallEnd {
            id: made[k].id,
            name: made[k].name,
            duration_ms: over[k].0,
            success: over[k].1,
        })
}

/// What holds of a turn at every point.
spec fn followed(trace: TurnTrace, runtime: RuntimeView, start: Seq<ChatMessageView>) -> bool {
    let turn = trace.run.turn;
    let taken = trace.taken;
    let made = calls_made(trace.actions);
    let outputs = outputs_in(taken);
    let first = start.len() as int + 1;
    let result = trace.run.result;
    &&& turn.consistent()
    &&& turn.max_rounds == runtime.max_tool_rounds
    &&& trace.actions.len() == taken.len() + 1
    &&& goes_with(turn.phase, trace.actions.last())
    &&& trace.run.messages.len() >= first
    &&& conversation_of(trace.run.messages.skip(first), turn.max_rounds, taken)
    &&& answered(trace.run.messages, first, waiting(turn.phase)) || turn.phase is Finished
    &&& result matches Some(Ok(_)) ==> answered(trace.run.messages, first, Seq::empty())
    &&& trace.actions.last() matches TurnActionView::OpenStream(request) ==> request.messages
        == trace.run.messages && request.model == runtime.model && request.timeout is None
    &&& trace.actions.last() is OpenStream || trace.actions.last() is CallTool <==> taken.len() > 0
        && taken.last() == (TurnInputView::Proceed { cancelled: false })
    &&& result == result_of(turn.max_rounds, taken)
    &&& result is Some <==> turn.phase is Finished
    &&& trace.actions.last() matches TurnActionView::Finish(found) ==> result == Some(found)
    &&& !(turn.phase is Finished) ==> {
        &&& calls_in(taken) == made + ahead(turn.phase)
        &&& calls_over(taken).len() == outputs.len()
        &&& made.len() == outputs.len() + if turn.phase is Calling {
            1nat
        } else {
            0nat
        }
        &&& turn.phase matches TurnPhaseView::Calling { call, .. } ==> made.last() == call
        &&& streams_over(taken) == turn.round + if turn.phase is StartCall || turn.phase
            is Calling {
            1int
        } else {
            0int
        }
    }
    &&& turn.phase matches TurnPhaseView::Streaming { text, calls } ==> text == text_of_stream(
        taken,
    ) && calls == calls_of_stream(taken)
    &&& result matches Some(Ok(_)) ==> calls_in(taken) == made && outputs.len() == made.len()
    &&& made.len() <= calls_in(taken).len() && made == calls_in(taken).take(made.len() as int)
    &&& outputs.len() <= made.len() <= outputs.len() + 1
    &&& tokens_told(trace.run.events) == tokens_in(taken)
    &&& turn.first_token_recorded <==> tokens_in(taken).len() > 0
    &&& states_told(trace.run.events) == seq![RequestState::Started] + states_of(trace.actions)
    &&& lengths_told(trace.run.events) == (match result {
        Some(Ok(answer)) => seq![encode_utf8(answer).len() as usize],
        _ => Seq::empty(),
    })
    &&& timeouts_told(trace.run.events) == (match result {
        Some(Err(RuntimeErrorView::Tool(ToolErrorView::Timeout { .. }))) => seq![
            (made.last().id, made.last().name),
        ],
        _ => Seq::empty(),
    })
    &&& calls_are_told(trace)
}

/// What one more event tells.
spec fn tells(events: Seq<RuntimeEventView>, event: RuntimeEventView) -> bool {
    let all = events.push(event);
    &&& tokens_told(all) == (match event {
        RuntimeEventView::AssistantToken { text, .. } => tokens_told(events).push(text),
        _ => tokens_told(events),
    })
    &&& states_told(all) == (match event {
        RuntimeEventView::Lifecycle { to, .. } => states_told(events).push(to),
        _ => states_told(events),
    })
    &&& starts_told(all) == (match event {
        RuntimeEventView::ToolDispatchStart { call_id, tool_name, .. } => starts_told(events).push(
            (call_id, tool_name),
        ),
        _ => starts_told(events),
    })
    &&& ends_told(all) == (match event {
        RuntimeEventView::ToolDispatchEnd { call_id, tool_name, duration_ms, success, .. } => {
            ends_told(events).push(CallEnd { id: call_id, name: tool_name, duration_ms, success })
        },
        _ => ends_told(events),
    })
    &&& lengths_told(all) == (match event {
        RuntimeEventView::TurnCompleted { output_chars, .. } => lengths_told(events).push(
            output_chars,
        ),
        _ => lengths_told(events),
    })
    &&& timeouts_told(all) == (match event {
        RuntimeEventView::ToolTimeout { call_id, tool_name, .. } => timeouts_told(events).push(
            (call_id, tool_name),
        ),
        _ => timeouts_told(events),
    })
}

proof fn telling_one_more(events: Seq<RuntimeEventView>, event: RuntimeEventView)
    ensures
        tells(events, event),
{
    assert(events.push(event).drop_last() =~= events);
}

/// What one more step's events tell.
proof fn telling_a_step(events: Seq<RuntimeEventView>, more: Seq<RuntimeEventView>)
    requires
        more.len() <= 3,
    ensures
        more.len() == 0 ==> events + more == events,
        more.len() == 1 ==> events + more == events.push(more[0]),
        more.len() == 2 ==> events + more == events.push(more[0]).push(more[1]),
        more.len() == 3 ==> events + more == events.push(more[0]).push(more[1]).push(more[2]),
        more.len() > 0 ==> tells(events, more[0]),
        more.len() > 1 ==> tells(events.push(more[0]), more[1]),
        more.len() > 2 ==> tells(events.push(more[0]).push(more[1]), more[2]),
{
    if more.len() == 0 {
        assert(events + more =~= events);
    } else if more.len() == 1 {
        assert(events + more =~= events.push(more[0]));
    } else if more.len() == 2 {
        assert(events + more =~= events.push(more[0]).push(more[1]));
    } else {
        assert(events + more =~= events.push(more[0]).push(more[1]).push(more[2]));
    }
    if more.len() > 0 {
        telling_one_more(events, more[0]);
    }
    if more.len() > 1 {
        telling_one_more(events.push(more[0]), more[1]);
    }
    if more.len() > 2 {
        telling_one_more(events.push(more[0]).push(more[1]), more[2]);
    }
}

proof fn answers_are_added(
    messages: Seq<ChatMessageView>,
    from: int,
    call: ToolCallView,
    rest: Seq<ToolCallView>,
    output: JsonView,
    answer: ChatMessageView,
)
    requires
        answered(messages, from, seq![call] + rest),
        answers(answer, call, output),
        0 <= from <= messages.len(),
    ensures
        answered(messages.push(answer), from, rest),
{
    let all = messages.push(answer);
    let open = seq![call] + rest;
    assert forall|i: int| from <= i < all.len() implies #[trigger] answered_at(all, i, rest) by {
        if i < messages.len() {
            assert(answered_at(messages, i, open));
            let calls = messages[i].tool_calls;
            assert forall|k: int| 0 <= k < calls.len() && i + 1 + k < all.len() implies #[trigger]
                call_is_answered(all, i, k) by {
                if i + 1 + k < messages.len() {
                    assert(call_is_answered(messages, i, k));
                } else {
                    assert(open[0] == call);
                    assert(calls[calls.len() - open.len() + 0].id == open[0].id);
                }
            }
            if calls.len() > 0 && i + calls.len() >= all.len() {
                assert forall|j: int| 0 <= j < rest.len() implies calls[calls.len() - rest.len()
                    + j].id == (#[trigger] rest[j]).id by {
                    assert(open[j + 1] == rest[j]);
                    assert(calls[calls.len() - open.len() + (j + 1)].id == open[j + 1].id);
                }
            }
        }
    }
}

proof fn calls_are_added(
    messages: Seq<ChatMessageView>,
    from: int,
    text: Seq<char>,
    calls: Seq<ToolCallView>,
    message: ChatMessageView,
)
    requires
        answered(messages, from, Seq::empty()),
        asks_for(message, text, calls),
        0 <= from <= messages.len(),
    ensures
        answered(messages.push(message), from, calls),
{
    let all = messages.push(message);
    assert forall|i: int| from <= i < all.len() implies #[trigger] answered_at(all, i, calls) by {
        if i < messages.len() {
            assert(answered_at(messages, i, Seq::empty()));
            let asked = messages[i].tool_calls;
            assert forall|k: int| 0 <= k < asked.len() && i + 1 + k < all.len() implies #[trigger]
                call_is_answered(all, i, k) by {
                assert(call_is_answered(messages, i, k));
            }
        } else {
            assert forall|j: int| 0 <= j < calls.len() implies message.tool_calls[j].id == (
            #[trigger] calls[j]).id by {
                assert(message.tool_calls[j].id == calls[j].id);
            }
        }
    }
}

/// The trace after one more step.
spec fn one_more(trace: TurnTrace, input: TurnInputView, step: TurnStepView) -> TurnTrace {
    TurnTrace {
        run: after(trace.run, step),
        taken: trace.taken.push(input),
        actions: trace.actions.push(step.action),
    }
}

#[verifier::rlimit(40)]
proof fn step_is_followed(
    trace: TurnTrace,
    runtime: RuntimeView,
    start: Seq<ChatMessageView>,
    told: ToolsTold,
    input: TurnInputView,
    elapsed_ms: u128,
)
    requires
        followed(trace, runtime, start),
        replies(trace.actions.last(), input),
    ensures
        ({
            let turn = trace.run.turn;
            let step = turn.advanced(runtime, told, trace.run.messages, input, elapsed_ms);
            &&& turn.expects(input)
            &&& followed(one_more(trace, input, step), runtime, start)
        }),
{
    let turn = trace.run.turn;
    let taken = trace.taken;
    let messages = trace.run.messages;
    let step = turn.advanced(runtime, told, messages, input, elapsed_ms);
    let next = one_more(trace, input, step);
    let first = start.len() as int + 1;
    let made = calls_made(trace.actions);
    assert(next.taken.drop_last() =~= taken);
    assert(next.actions.drop_last() =~= trace.actions);
    telling_a_step(trace.run.events, step.events);
    assert(states_of(next.actions) == (match step.action {
        TurnActionView::OpenStream(_) => states_of(trace.actions).push(RequestState::StreamingLlm),
        TurnActionView::CallTool(_) => states_of(trace.actions).push(RequestState::DispatchingTool),
        TurnActionView::Finish(Ok(_)) => states_of(trace.actions).push(RequestState::Completed),
        TurnActionView::Finish(Err(RuntimeErrorView::Cancelled)) => states_of(trace.actions).push(
            RequestState::Cancelled,
        ),
        TurnActionView::Finish(Err(_)) => states_of(trace.actions).push(RequestState::Failed),
        _ => states_of(trace.actions),
    }));
    assert(states_told(next.run.events) =~= seq![RequestState::Started] + states_of(next.actions));
    if step.messages.len() > messages.len() {
        assert(step.messages.skip(first).drop_last() =~= messages.skip(first));
        assert(step.messages.skip(first).last() == step.messages.last());
    }
    let none = Seq::<ToolCallView>::empty();
    match (turn.phase, input) {
        (
            TurnPhaseView::Streaming { text, calls },
            TurnInputView::StreamEvent(Ok(TokenEventView::ToolCall(call))),
        ) => {
            assert(made + calls.push(call) =~= (made + calls).push(call));
        },
        (
            TurnPhaseView::Calling { call, rest },
            TurnInputView::ToolDone { outcome: Ok(output), duration_ms },
        ) => {
            let answer = step.messages.last();
            assert((made + rest)[made.len() - 1] == call);
            answers_are_added(messages, first, call, rest, output, answer);
            assert(rest.len() == 0 ==> rest =~= none);
        },
        (TurnPhaseView::Streaming { text, calls }, TurnInputView::StreamEvent(Ok(_)))
        | (TurnPhaseView::Streaming { text, calls }, TurnInputView::StreamEnd) => {
            if ends_stream(input) && step.messages.len() > messages.len() {
                assert(asks_for(step.messages.last(), text, calls));
                calls_are_added(messages, first, text, calls, step.messages.last());
            }
            if calls.len() == 0 {
                assert(calls =~= none);
                assert(made + calls =~= made);
            }
        },
        (TurnPhaseView::StartCall { calls }, TurnInputView::Proceed { cancelled: false }) => {
            assert(seq![calls[0]] + calls.drop_first() =~= calls);
            assert(made + calls =~= made.push(calls[0]) + calls.drop_first());
        },
        (TurnPhaseView::StartRound, TurnInputView::Proceed { cancelled: false }) => {
            assert(made + none =~= made);
        },
        _ => {},
    }
    let now = calls_made(next.actions);
    let all = calls_in(next.taken);
    assert(now.len() <= all.len());
    assert(now =~= all.take(now.len() as int));
    assert(step.turn.consistent());
    assert(conversation_of(next.run.messages.skip(first), turn.max_rounds, next.taken));
    assert(answered(next.run.messages, first, waiting(next.run.turn.phase)) || next.run.turn.phase
        is Finished);
    assert(next.run.result matches Some(Ok(_)) ==> answered(next.run.messages, first, none));
    assert(next.run.result == result_of(turn.max_rounds, next.taken));
    assert(tokens_told(next.run.events) == tokens_in(next.taken));
    assert(lengths_told(next.run.events) =~= (match next.run.result {
        Some(Ok(answer)) => seq![encode_utf8(answer).len() as usize],
        _ => Seq::empty(),
    }));
    assert(timeouts_told(next.run.events) =~= (match next.run.result {
        Some(Err(RuntimeErrorView::Tool(ToolErrorView::Timeout { .. }))) => seq![
            (now.last().id, now.last().name),
        ],
        _ => Seq::empty(),
    }));
    assert(calls_are_told(next));
}

proof fn trace_is_followed(
    runtime: RuntimeView,
    messages: Seq<ChatMessageView>,
    user_message: Seq<char>,
    started_ms: u128,
    inputs: Seq<(TurnInputView, u128, ToolsTold)>,
)
    ensures
        ({
            let trace = turn_trace(runtime, messages, user_message, started_ms, inputs);
            &&& followed(trace, runtime, messages)
            &&& trace.run == turn_run(runtime, messages, user_message, started_ms, inputs)
        }),
    decreases inputs.len(),
{
    let trace = turn_trace(runtime, messages, user_message, started_ms, inputs);
    let none = Seq::<RuntimeEventView>::empty();
    if inputs.len() == 0 {
        let first = messages.len() as int + 1;
        telling_one_more(none, trace.run.events[0]);
        assert(trace.run.events =~= none.push(trace.run.events[0]));
        assert(trace.actions.drop_last() =~= Seq::empty());
        reveal_with_fuel(calls_made, 2);
        reveal_with_fuel(states_of, 2);
        assert(calls_made(trace.actions) =~= Seq::empty());
        assert(calls_in(trace.taken).take(0) =~= Seq::empty());
        assert(trace.run.messages.skip(first) =~= Seq::empty());
        assert(calls_in(trace.taken) =~= calls_made(trace.actions) + ahead(trace.run.turn.phase));
        assert(states_told(trace.run.events) =~= seq![RequestState::Started] + states_of(
            trace.actions,
        ));
        assert(ends_told(trace.run.events) =~= Seq::empty());
        assert(timeouts_told(trace.run.events) =~= Seq::empty());
        assert(starts_told(trace.run.events) =~= Seq::empty());
    } else {
        let before = turn_trace(runtime, messages, user_message, started_ms, inputs.drop_last());
        let (input, elapsed_ms, told) = inputs.last();
        trace_is_followed(runtime, messages, user_message, started_ms, inputs.drop_last());
        if replies(before.actions.last(), input) {
            step_is_followed(before, runtime, messages, told, input, elapsed_ms);
        }
    }
}

/// Tool calls are made in the order in which they were streamed, each once, and the next one only
/// after the one before it has given its output; when a stream is opened all of them have been made
/// and have given theirs. The stream is opened with the conversation as it is then, and in it each
/// message in which the assistant asks for calls is followed by an answer to each of them, in order
/// and under its identifier.
pub proof fn every_call_is_made_and_answered(
    runtime: RuntimeView,
    messages: Seq<ChatMessageView>,
    user_message: Seq<char>,
    started_ms: u128,
    inputs: Seq<(TurnInputView, u128, ToolsTold)>,
)
    ensures
        ({
            let trace = turn_trace(runtime, messages, user_message, started_ms, inputs);
            let made = calls_made(trace.actions);
            let calls = calls_in(trace.taken);
            let outputs = outputs_in(trace.taken);
            let conversation = trace.run.messages;
            let last = trace.actions.last();
            &&& trace.run == turn_run(runtime, messages, user_message, started_ms, inputs)
            &&& made.len() <= calls.len() && made == calls.take(made.len() as int)
            &&& outputs.len() <= made.len() <= outputs.len() + 1
            &&& last matches TurnActionView::CallTool(call) ==> made.len() == outputs.len() + 1
                && call == calls[outputs.len() as int]
            &&& last matches TurnActionView::OpenStream(request) ==> {
                &&& made == calls
                &&& outputs.len() == calls.len()
                &&& request.messages == conversation
                &&& request.model == runtime.model
                &&& request.timeout is None
            }
            &&& last is OpenStream ==> calls_are_answered(conversation, messages.len() as int + 1)
            &&& last matches TurnActionView::Finish(Ok(_)) ==> calls_are_answered(
                conversation,
                messages.len() as int + 1,
            )
            &&& last matches TurnActionView::Finish(Ok(_)) ==> made == calls && outputs.len()
                == calls.len()
        }),
{
    trace_is_followed(runtime, messages, user_message, started_ms, inputs);
    let trace = turn_trace(runtime, messages, user_message, started_ms, inputs);
    let made = calls_made(trace.actions);
    let calls = calls_in(trace.taken);
    let conversation = trace.run.messages;
    let last = trace.actions.last();
    let none = Seq::<ToolCallView>::empty();
    if last is OpenStream {
        assert(calls_of_stream(trace.taken) =~= none);
        assert(made + none =~= made);
        assert(made == calls);
    }
    if let TurnActionView::CallTool(call) = last {
        let rest = trace.run.turn.phase->Calling_rest;
        assert(calls == made + rest);
        assert(made.last() == call);
        assert(made.len() == outputs_in(trace.taken).len() + 1);
        assert(calls[made.len() - 1] == made[made.len() - 1]);
    }
    if answered(conversation, messages.len() as int + 1, none) {
        assert forall|i: int, k: int|
            messages.len() + 1 <= i < conversation.len() && 0 <= k
                < conversation[i].tool_calls.len() implies #[trigger] call_is_answered(
            conversation,
            i,
            k,
        ) by {
            assert(answered_at(conversation, i, none));
        }
    }
}

/// Once a turn may proceed, it makes the first call that was streamed and has given no output yet,
/// and opens a stream exactly where there is none.
pub proof fn calls_come_before_the_next_stream(
    runtime: RuntimeView,
    messages: Seq<ChatMessageView>,
    user_message: Seq<char>,
    started_ms: u128,
    inputs: Seq<(TurnInputView, u128, ToolsTold)>,
)
    ensures
        ({
            let trace = turn_trace(runtime, messages, user_message, started_ms, inputs);
            let calls = calls_in(trace.taken);
            let outputs = outputs_in(trace.taken);
            let last = trace.actions.last();
            trace.taken.len() > 0 && trace.taken.last() == (TurnInputView::Proceed {
                cancelled: false,
            }) ==> if outputs.len() < calls.len() {
                last == TurnActionView::CallTool(calls[outputs.len() as int])
            } else {
                last is OpenStream
            }
        }),
{
    trace_is_followed(runtime, messages, user_message, started_ms, inputs);
    every_call_is_made_and_answered(runtime, messages, user_message, started_ms, inputs);
}

/// What a turn adds to the conversation after the user's message is what was streamed and what the
/// tools gave, in order: whenever a stream is over the assistant's message, and for each call its
/// answer.
pub proof fn the_conversation_tells_the_turn(
    runtime: RuntimeView,
    messages: Seq<ChatMessageView>,
    user_message: Seq<char>,
    started_ms: u128,
    inputs: Seq<(TurnInputView, u128, ToolsTold)>,
)
    ensures
        ({
            let trace = turn_trace(runtime, messages, user_message, started_ms, inputs);
            conversation_of(
                trace.run.messages.skip(messages.len() as int + 1),
                runtime.max_tool_rounds,
                trace.taken,
            )
        }),
{
    trace_is_followed(runtime, messages, user_message, started_ms, inputs);
}

/// A turn is over with the first input that ends it, and its result is that of this input: it was
/// cancelled, the stream or a call failed, or the stream is over. Then the text of the stream is the
/// answer where it asked for no calls, and it is an error to ask for some after the last round. A
/// failed call ends the turn whatever calls are left.
pub proof fn a_turn_ends_as_its_inputs_say(
    runtime: RuntimeView,
    messages: Seq<ChatMessageView>,
    user_message: Seq<char>,
    started_ms: u128,
    inputs: Seq<(TurnInputView, u128, ToolsTold)>,
)
    ensures
        ({
            let trace = turn_trace(runtime, messages, user_message, started_ms, inputs);
            &&& trace.run.result == result_of(runtime.max_tool_rounds, trace.taken)
            &&& trace.actions.last() matches TurnActionView::Finish(result) ==> trace.run.result
                == Some(result)
            &&& trace.run.result is Some ==> trace.actions.last() is Finish
        }),
{
    trace_is_followed(runtime, messages, user_message, started_ms, inputs);
}

/// The events of a turn tell what happened: all tokens that were streamed, in order, and once that
/// there was a first one; the state that
/// goes with each stream, call and end; the start of each call that was made; the end of each call
/// that is over, with its length and whether it succeeded; that the time of the last call ran out
/// where that ended the turn; and the length of the answer where there is one.
pub proof fn events_tell_what_happened(
    runtime: RuntimeView,
    messages: Seq<ChatMessageView>,
    user_message: Seq<char>,
    started_ms: u128,
    inputs: Seq<(TurnInputView, u128, ToolsTold)>,
)
    ensures
        ({
            let trace = turn_trace(runtime, messages, user_message, started_ms, inputs);
            let events = trace.run.events;
            let made = calls_made(trace.actions);
            let over = calls_over(trace.taken);
            &&& tokens_told(events) == tokens_in(trace.taken)
            &&& first_tokens(events) == if tokens_in(trace.taken).len() > 0 {
                1nat
            } else {
                0nat
            }
            &&& states_told(events) == seq![RequestState::Started] + states_of(trace.actions)
            &&& starts_told(events).len() == made.len()
            &&& forall|k: int|
                0 <= k < made.len() ==> (#[trigger] starts_told(events)[k]).0 == made[k].id
                    && starts_told(events)[k].1 == made[k].name
            &&& ends_told(events).len() == over.len() <= made.len()
            &&& forall|k: int|
                0 <= k < over.len() ==> #[trigger] ends_told(events)[k] == (CallEnd {
                    id: made[k].id,
                    name: made[k].name,
                    duration_ms: over[k].0,
                    success: over[k].1,
                })
            &&& timeouts_told(events) == (match trace.run.result {
                Some(Err(RuntimeErrorView::Tool(ToolErrorView::Timeout { .. }))) => seq![
                    (made.last().id, made.last().name),
                ],
                _ => Seq::empty(),
            })
            &&& lengths_told(events) == (match trace.run.result {
                Some(Ok(answer)) => seq![encode_utf8(answer).len() as usize],
                _ => Seq::empty(),
            })
        }),
{
    trace_is_followed(runtime, messages, user_message, started_ms, inputs);
    first_tokens_are_recorded(runtime, messages, user_message, started_ms, inputs);
}

/// The time that an event tells.
pub open spec fn time_told(event: RuntimeEventView) -> u128 {
    match event {
        RuntimeEventView::Lifecycle { elapsed_ms, .. } => elapsed_ms,
        RuntimeEventView::LlmFirstToken { elapsed_ms } => elapsed_ms,
        RuntimeEventView::AssistantToken { elapsed_ms, .. } => elapsed_ms,
        RuntimeEventView::ToolDispatchStart { elapsed_ms, .. } => elapsed_ms,
        RuntimeEventView::ToolDispatchEnd { elapsed_ms, .. } => elapsed_ms,
        RuntimeEventView::ToolTimeout { elapsed_ms, .. } => elapsed_ms,
        RuntimeEventView::TurnCompleted { elapsed_ms, .. } => elapsed_ms,
    }
}

/// All events of a step tell the time of its input. A call whose time ran out is told before its
/// end, with the time that the tool may take, or where there is no such tool the time that it took;
/// of no other call this is told. A stream is opened with all that the tools told.
pub proof fn a_step_tells_its_time(
    turn: AgentTurnView,
    runtime: RuntimeView,
    told: ToolsTold,
    messages: Seq<ChatMessageView>,
    input: TurnInputView,
    elapsed_ms: u128,
)
    requires
        turn.consistent(),
        turn.expects(input),
    ensures
        ({
            let step = turn.advanced(runtime, told, messages, input, elapsed_ms);
            &&& forall|i: int|
                0 <= i < step.events.len() ==> time_told(#[trigger] step.events[i]) == elapsed_ms
            &&& forall|i: int|
                0 <= i < step.events.len() && (#[trigger] step.events[i] is ToolTimeout) ==> i == 0
            &&& step.events.len() > 0 && step.events[0] is ToolTimeout <==> (input matches
                TurnInputView::ToolDone { outcome: Err(error), .. } && error is Timeout)
            &&& step.events.len() > 0 && step.events[0] is ToolTimeout ==> {
                &&& step.events.len() > 1 && step.events[1] is ToolDispatchEnd
                &&& step.events[0]->ToolTimeout_call_id == step.events[1]->ToolDispatchEnd_call_id
                &&& step.events[0]->ToolTimeout_tool_name
                    == step.events[1]->ToolDispatchEnd_tool_name
                &&& step.events[0]->ToolTimeout_timeout_ms == (match told.definition {
                    Some(definition) => (definition.metadata.timeout.total_nanos() / 1_000_000) as u128,
                    None => input->ToolDone_duration_ms,
                })
            }
            &&& step.action matches TurnActionView::OpenStream(request) ==> request.tools
                == told.specs
            &&& forall|i: int|
                0 <= i < step.events.len() && (#[trigger] step.events[i] is LlmFirstToken) ==> i
                    == 0 && step.events.len() == 2 && step.events[1] is AssistantToken
                    && !turn.first_token_recorded
        }),
{
}

/// Within a step the events come in their order: that a call starts is told after the state, that a
/// turn is completed or a call is over before the state that ends the turn, and a step that goes on
/// without a stream or a call tells no state.
pub proof fn events_of_a_step_come_in_order(
    turn: AgentTurnView,
    runtime: RuntimeView,
    told: ToolsTold,
    messages: Seq<ChatMessageView>,
    input: TurnInputView,
    elapsed_ms: u128,
)
    requires
        turn.consistent(),
        turn.expects(input),
    ensures
        ({
            let step = turn.advanced(runtime, told, messages, input, elapsed_ms);
            let events = step.events;
            match step.action {
                TurnActionView::CallTool(_) => events.len() == 2 && events[0] is Lifecycle
                    && events[1] is ToolDispatchStart,
                TurnActionView::OpenStream(_) => events.len() == 1 && events[0] is Lifecycle,
                TurnActionView::Finish(result) => {
                    &&& events.len() > 0 && events.last() is Lifecycle
                    &&& forall|i: int|
                        0 <= i < events.len() - 1 ==> !(#[trigger] events[i] is Lifecycle)
                    &&& result is Ok ==> events.len() == 2 && events[0] is TurnCompleted
                    &&& input is ToolDone <==> events.len() > 1 && events[events.len() - 2]
                        is ToolDispatchEnd
                },
                _ => forall|i: int| 0 <= i < events.len() ==> !(#[trigger] events[i] is Lifecycle),
            }
        }),
{
}

/// A turn begins with the user's message at the end of the conversation, tells that it started, at
/// its time, and waits to proceed.
pub proof fn a_turn_begins_with_the_message(
    runtime: RuntimeView,
    messages: Seq<ChatMessageView>,
    user_message: Seq<char>,
    started_ms: u128,
)
    ensures
        ({
            let step = begun(runtime, messages, user_message, started_ms);
            &&& step.messages.len() == messages.len() + 1
            &&& step.messages.drop_last() == messages
            &&& step.messages.last().role == "user"@
            &&& step.messages.last().content == user_message
            &&& step.messages.last().tool_calls.len() == 0
            &&& step.events.len() == 1
            &&& step.events[0] == (RuntimeEventView::Lifecycle {
                from: None,
                to: RequestState::Started,
                elapsed_ms: started_ms,
            })
            &&& step.action is Proceed
            &&& step.turn.max_rounds == runtime.max_tool_rounds
        }),
{
    let step = begun(runtime, messages, user_message, started_ms);
    assert(step.messages.drop_last() =~= messages);
}

/// Where a stream is opened the model is told of all tools, and where the time of a call ran out the
/// tool that was called gives the time that it may take, where there is one of that name.
pub proof fn tools_tell_of_themselves<K: Tool>(
    tools: Map<Seq<char>, K>,
    turn: AgentTurnView,
    input: TurnInputView,
    told: ToolsTold,
)
    requires
        may_be_told(tools, turn, input, told),
    ensures
        turn.phase is StartRound && input == (TurnInputView::Proceed { cancelled: false }) ==> may_tell(
            tools,
            told.specs,
        ),
        turn.phase is Calling && input is ToolDone && input->outcome is Err && input->outcome->Err_0
            is Timeout ==> ({
            let name = turn.phase->Calling_call.name;
            &&& told.definition is Some <==> tools.contains_key(name)
            &&& told.definition is Some ==> may_give(tools[name], told.definition->0)
        }),
{
}

} // verus!
