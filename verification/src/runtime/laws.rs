//! What holds of every turn, whatever the provider, the tools and the user do.
use vstd::prelude::*;

use crate::json::JsonView;
use crate::llm::{ChatMessageView, LlmErrorView, TokenEventView, ToolCallView};
use crate::runtime::events::{may_enter, RequestState, RuntimeEventView};
use crate::runtime::{
    begun, is_answer, tool_message, AgentTurnView, RuntimeErrorView, RuntimeView, ToolsTold,
    TurnActionView, TurnInputView, TurnPhaseView, TurnStepView,
};
use crate::text::{decimal, holds, holds_part};
use crate::tools::ToolErrorView;

verus! {

/// A turn up to some point: its state, the conversation, all events so far, and its result where
/// it is over.
#[verifier::ext_equal]
pub struct TurnRun {
    pub turn: AgentTurnView,
    pub messages: Seq<ChatMessageView>,
    pub events: Seq<RuntimeEventView>,
    pub result: Option<std::result::Result<Seq<char>, RuntimeErrorView>>,
}

/// The turn on a user's message after some inputs, each with the time at which it came and what the
/// tools told then. An input that the turn does not wait for does not occur.
pub open spec fn turn_run(
    runtime: RuntimeView,
    messages: Seq<ChatMessageView>,
    user_message: Seq<char>,
    started_ms: u128,
    inputs: Seq<(TurnInputView, u128, ToolsTold)>,
) -> TurnRun
    decreases inputs.len(),
{
    if inputs.len() == 0 {
        let step = begun(runtime, messages, user_message, started_ms);
        TurnRun { turn: step.turn, messages: step.messages, events: step.events, result: None }
    } else {
        let run = turn_run(runtime, messages, user_message, started_ms, inputs.drop_last());
        let (input, elapsed_ms, told) = inputs.last();
        if run.turn.expects(input) {
            after(run, run.turn.advanced(runtime, told, run.messages, input, elapsed_ms))
        } else {
            run
        }
    }
}

/// The run after one more step.
pub open spec fn after(run: TurnRun, step: TurnStepView) -> TurnRun {
    TurnRun {
        turn: step.turn,
        messages: step.messages,
        events: run.events + step.events,
        result: match step.action {
            TurnActionView::Finish(result) => Some(result),
            _ => run.result,
        },
    }
}

/// The state that the lifecycle events lead to from `state`; `None` where one of them does not
/// start in the state that the one before it led to, or passes where it may not.
pub open spec fn lifecycle_from(
    state: Option<RequestState>,
    events: Seq<RuntimeEventView>,
) -> Option<Option<RequestState>>
    decreases events.len(),
{
    if events.len() == 0 {
        Some(state)
    } else {
        match (lifecycle_from(state, events.drop_last()), events.last()) {
            (Some(reached), RuntimeEventView::Lifecycle { from, to, .. }) => if from == reached
                && may_enter(from, to) {
                Some(Some(to))
            } else {
                None
            },
            (reached, _) => reached,
        }
    }
}

proof fn lifecycle_of_sum(
    state: Option<RequestState>,
    a: Seq<RuntimeEventView>,
    b: Seq<RuntimeEventView>,
)
    ensures
        lifecycle_from(state, a + b) == (match lifecycle_from(state, a) {
            Some(reached) => lifecycle_from(reached, b),
            None => None,
        }),
    decreases b.len(),
{
    if b.len() == 0 {
        assert(a + b =~= a);
    } else {
        lifecycle_of_sum(state, a, b.drop_last());
        assert((a + b).drop_last() =~= a + b.drop_last());
        assert((a + b).last() == b.last());
    }
}

/// What the assistant has said since the last stream began, after `said`.
pub open spec fn said_since(said: Seq<char>, events: Seq<RuntimeEventView>) -> Seq<char>
    decreases events.len(),
{
    if events.len() == 0 {
        said
    } else {
        let before = said_since(said, events.drop_last());
        match events.last() {
            RuntimeEventView::AssistantToken { text, .. } => before + text,
            RuntimeEventView::Lifecycle { to: RequestState::StreamingLlm, .. } => Seq::empty(),
            _ => before,
        }
    }
}

proof fn said_of_sum(said: Seq<char>, a: Seq<RuntimeEventView>, b: Seq<RuntimeEventView>)
    ensures
        said_since(said, a + b) == said_since(said_since(said, a), b),
    decreases b.len(),
{
    if b.len() == 0 {
        assert(a + b =~= a);
    } else {
        said_of_sum(said, a, b.drop_last());
        assert((a + b).drop_last() =~= a + b.drop_last());
        assert((a + b).last() == b.last());
    }
}

/// How many streams have begun.
pub open spec fn streams(events: Seq<RuntimeEventView>) -> nat
    decreases events.len(),
{
    if events.len() == 0 {
        0
    } else {
        streams(events.drop_last()) + match events.last() {
            RuntimeEventView::Lifecycle { to: RequestState::StreamingLlm, .. } => 1nat,
            _ => 0nat,
        }
    }
}

proof fn streams_of_sum(a: Seq<RuntimeEventView>, b: Seq<RuntimeEventView>)
    ensures
        streams(a + b) == streams(a) + streams(b),
    decreases b.len(),
{
    if b.len() == 0 {
        assert(a + b =~= a);
    } else {
        streams_of_sum(a, b.drop_last());
        assert((a + b).drop_last() =~= a + b.drop_last());
        assert((a + b).last() == b.last());
    }
}

/// How many events tell of a first token.
pub open spec fn first_tokens(events: Seq<RuntimeEventView>) -> nat
    decreases events.len(),
{
    if events.len() == 0 {
        0
    } else {
        first_tokens(events.drop_last()) + if events.last() is LlmFirstToken {
            1nat
        } else {
            0nat
        }
    }
}

proof fn first_tokens_of_sum(a: Seq<RuntimeEventView>, b: Seq<RuntimeEventView>)
    ensures
        first_tokens(a + b) == first_tokens(a) + first_tokens(b),
    decreases b.len(),
{
    if b.len() == 0 {
        assert(a + b =~= a);
    } else {
        first_tokens_of_sum(a, b.drop_last());
        assert((a + b).drop_last() =~= a + b.drop_last());
        assert((a + b).last() == b.last());
    }
}

/// What holds of a turn at every point.
spec fn sound(run: TurnRun, start: Seq<ChatMessageView>, user_message: Seq<char>) -> bool {
    let said = said_since(Seq::empty(), run.events);
    &&& run.turn.consistent()
    &&& run.messages.len() > start.len()
    &&& run.messages.take(start.len() as int) == start
    &&& run.messages[start.len() as int] == ChatMessageView::plain("user"@, user_message)
    &&& lifecycle_from(None, run.events) == Some(run.turn.state)
    &&& run.result is Some <==> run.turn.phase is Finished
    &&& run.turn.phase matches TurnPhaseView::Streaming { text, .. } ==> said == text
    &&& streams(run.events) == run.turn.round + if run.turn.phase is StartRound {
        0int
    } else {
        1int
    } || (run.turn.phase is Finished && streams(run.events) <= run.turn.round + 1)
    &&& first_tokens(run.events) == if run.turn.first_token_recorded {
        1nat
    } else {
        0nat
    }
    &&& match run.result {
        Some(Ok(answer)) => {
            &&& said == answer
            &&& streams(run.events) == run.turn.round + 1
            &&& run.turn.state == Some(RequestState::Completed)
            &&& answer.len() > 0 ==> run.messages.len() > start.len() + 1 && run.messages.last()
                == ChatMessageView::plain("assistant"@, answer)
            &&& forall|i: int|
                start.len() <= i < run.messages.len() && is_answer(#[trigger] run.messages[i])
                    ==> i == run.messages.len() - 1 && answer.len() > 0
        },
        Some(Err(error)) => {
            &&& error is MaxToolRounds ==> run.turn.round == run.turn.max_rounds && streams(
                run.events,
            ) == run.turn.round + 1
            &&& run.turn.state == Some(
                if error is Cancelled {
                    RequestState::Cancelled
                } else {
                    RequestState::Failed
                },
            )
            &&& forall|i: int|
                start.len() <= i < run.messages.len() ==> !is_answer(#[trigger] run.messages[i])
        },
        None => forall|i: int|
            start.len() <= i < run.messages.len() ==> !is_answer(#[trigger] run.messages[i]),
    }
}

proof fn roles_differ()
    ensures
        "user"@ != "assistant"@,
        "tool"@ != "assistant"@,
{
    reveal_strlit("user");
    reveal_strlit("tool");
    reveal_strlit("assistant");
    assert("user"@.len() == 4);
    assert("tool"@.len() == 4);
    assert("assistant"@.len() == 9);
}

/// What a step's events come to.
spec fn fits(turn: AgentTurnView, step: TurnStepView) -> bool {
    lifecycle_from(turn.state, step.events) == Some(step.turn.state)
}

proof fn finish_fits(
    turn: AgentTurnView,
    messages: Seq<ChatMessageView>,
    events: Seq<RuntimeEventView>,
    result: std::result::Result<Seq<char>, RuntimeErrorView>,
    elapsed_ms: u128,
)
    requires
        turn.consistent(),
        !(turn.phase is Finished),
        result is Ok ==> turn.phase is Streaming,
        forall|i: int| 0 <= i < events.len() ==> !(#[trigger] events[i] is Lifecycle),
        forall|i: int| 0 <= i < events.len() ==> !(#[trigger] events[i] is AssistantToken),
        forall|i: int| 0 <= i < events.len() ==> !(#[trigger] events[i] is LlmFirstToken),
    ensures
        ({
            let step = turn.finish(messages, events, result, elapsed_ms);
            &&& fits(turn, step)
            &&& forall|said: Seq<char>| #[trigger] said_since(said, step.events) == said
            &&& streams(step.events) == 0
            &&& first_tokens(step.events) == 0
            &&& step.turn.consistent()
        }),
    decreases events.len(),
{
    let step = turn.finish(messages, events, result, elapsed_ms);
    let all = step.events;
    let enters = all.last();
    quiet_events(turn.state, events);
    let completed = match result {
        Ok(answer) => seq![all[all.len() - 2]],
        Err(_) => Seq::empty(),
    };
    let tail = completed + seq![enters];
    assert(all =~= events + tail);
    lifecycle_of_sum(turn.state, events, tail);
    streams_of_sum(events, tail);
    first_tokens_of_sum(events, tail);
    quiet_events(turn.state, completed);
    assert(tail.drop_last() =~= completed);
    assert(lifecycle_from(turn.state, tail) == Some(step.turn.state));
    assert(streams(tail) == 0);
    assert(first_tokens(tail) == 0);
    assert forall|said: Seq<char>| #[trigger] said_since(said, all) == said by {
        said_of_sum(said, events, tail);
        quiet_said(said, events);
        quiet_said(said, completed);
        assert(said_since(said, tail) == said_since(said, completed));
    }
}

/// Events that pass to no state, and hold no token, leave all as it was.
proof fn quiet_events(state: Option<RequestState>, events: Seq<RuntimeEventView>)
    requires
        forall|i: int| 0 <= i < events.len() ==> !(#[trigger] events[i] is Lifecycle),
        forall|i: int| 0 <= i < events.len() ==> !(#[trigger] events[i] is LlmFirstToken),
    ensures
        lifecycle_from(state, events) == Some(state),
        streams(events) == 0,
        first_tokens(events) == 0,
    decreases events.len(),
{
    if events.len() > 0 {
        quiet_events(state, events.drop_last());
        assert(!(events[events.len() - 1] is Lifecycle));
        assert(!(events[events.len() - 1] is LlmFirstToken));
    }
}

proof fn quiet_said(said: Seq<char>, events: Seq<RuntimeEventView>)
    requires
        forall|i: int| 0 <= i < events.len() ==> !(#[trigger] events[i] is Lifecycle),
        forall|i: int| 0 <= i < events.len() ==> !(#[trigger] events[i] is AssistantToken),
    ensures
        said_since(said, events) == said,
    decreases events.len(),
{
    if events.len() > 0 {
        quiet_said(said, events.drop_last());
        assert(!(events[events.len() - 1] is Lifecycle));
        assert(!(events[events.len() - 1] is AssistantToken));
    }
}

proof fn step_is_sound(
    runtime: RuntimeView,
    told: ToolsTold,
    run: TurnRun,
    start: Seq<ChatMessageView>,
    user_message: Seq<char>,
    input: TurnInputView,
    elapsed_ms: u128,
)
    requires
        sound(run, start, user_message),
        run.turn.expects(input),
    ensures
        sound(
            after(run, run.turn.advanced(runtime, told, run.messages, input, elapsed_ms)),
            start,
            user_message,
        ),
{
    roles_differ();
    let turn = run.turn;
    let step = turn.advanced(runtime, told, run.messages, input, elapsed_ms);
    let next = after(run, step);
    lifecycle_of_sum(None, run.events, step.events);
    said_of_sum(Seq::empty(), run.events, step.events);
    streams_of_sum(run.events, step.events);
    first_tokens_of_sum(run.events, step.events);
    let none = Seq::<RuntimeEventView>::empty();
    assert(next.messages.take(start.len() as int) =~= start);
    match (turn.phase, input) {
        (
            TurnPhaseView::Streaming { text, calls },
            TurnInputView::StreamEvent(Ok(TokenEventView::Token { text: token })),
        ) => {
            let told = step.events.last();
            let first = step.events.drop_last();
            if turn.first_token_recorded {
                assert(first =~= none);
            } else {
                assert(first.drop_last() =~= none);
            }
            reveal_with_fuel(lifecycle_from, 3);
            reveal_with_fuel(said_since, 3);
            reveal_with_fuel(streams, 3);
            reveal_with_fuel(first_tokens, 3);
        },
        (
            TurnPhaseView::Streaming { text, calls },
            TurnInputView::StreamEvent(Ok(TokenEventView::ToolCall(call))),
        ) => {
            assert(step.events =~= none);
        },
        (_, TurnInputView::StreamEvent(Err(error))) => {
            finish_fits(turn, run.messages, none, Err(RuntimeErrorView::Llm(error)), elapsed_ms);
        },
        (TurnPhaseView::Streaming { text, calls }, TurnInputView::StreamEvent(Ok(_)))
        | (TurnPhaseView::Streaming { text, calls }, TurnInputView::StreamEnd) => {
            if calls.len() == 0 {
                let committed = if text.len() > 0 {
                    run.messages.push(ChatMessageView::plain("assistant"@, text))
                } else {
                    run.messages
                };
                finish_fits(turn, committed, none, Ok(text), elapsed_ms);
            } else if turn.round == turn.max_rounds {
                finish_fits(
                    turn,
                    run.messages,
                    none,
                    Err(RuntimeErrorView::MaxToolRounds { max_rounds: turn.max_rounds }),
                    elapsed_ms,
                );
            } else {
                assert(step.events =~= none);
                assert(next.messages.last().tool_calls.len() == calls.len());
            }
        },
        (
            TurnPhaseView::Calling { call, rest },
            TurnInputView::ToolDone { outcome, duration_ms },
        ) => {
            match outcome {
                Ok(output) => {
                    assert(step.events.drop_last() =~= none);
                    quiet_events(turn.state, step.events);
                    quiet_said(said_since(Seq::empty(), run.events), step.events);
                },
                Err(error) => {
                    let told = step.events.drop_last();
                    finish_fits(
                        turn,
                        run.messages,
                        told,
                        Err(RuntimeErrorView::Tool(error)),
                        elapsed_ms,
                    );
                    assert(step.events =~= told + Seq::empty() + seq![step.events.last()]);
                },
            }
        },
        (_, TurnInputView::Proceed { cancelled }) => {
            if cancelled {
                finish_fits(turn, run.messages, none, Err(RuntimeErrorView::Cancelled), elapsed_ms);
            } else {
                reveal_with_fuel(lifecycle_from, 3);
                reveal_with_fuel(said_since, 3);
                reveal_with_fuel(streams, 3);
                reveal_with_fuel(first_tokens, 3);
                if turn.phase is StartCall {
                    assert(step.events.drop_last().drop_last() =~= none);
                } else {
                    assert(step.events.drop_last() =~= none);
                }
            }
        },
        _ => {
            finish_fits(turn, run.messages, none, Err(RuntimeErrorView::Cancelled), elapsed_ms);
        },
    }
}

proof fn run_is_sound(
    runtime: RuntimeView,
    messages: Seq<ChatMessageView>,
    user_message: Seq<char>,
    started_ms: u128,
    inputs: Seq<(TurnInputView, u128, ToolsTold)>,
)
    ensures
        sound(
            turn_run(runtime, messages, user_message, started_ms, inputs),
            messages,
            user_message,
        ),
    decreases inputs.len(),
{
    if inputs.len() == 0 {
        roles_differ();
        let run = turn_run(runtime, messages, user_message, started_ms, inputs);
        assert(run.messages.take(messages.len() as int) =~= messages);
        assert(run.events.drop_last() =~= Seq::empty());
        reveal_with_fuel(lifecycle_from, 2);
        reveal_with_fuel(said_since, 2);
        reveal_with_fuel(streams, 2);
        reveal_with_fuel(first_tokens, 2);
    } else {
        run_is_sound(runtime, messages, user_message, started_ms, inputs.drop_last());
        let run = turn_run(runtime, messages, user_message, started_ms, inputs.drop_last());
        let (input, elapsed_ms, told) = inputs.last();
        if run.turn.expects(input) {
            step_is_sound(runtime, told, run, messages, user_message, input, elapsed_ms);
        }
    }
}

/// A turn passes through its states as it may, from none, and its events tell all of it: each
/// passes from the state that the one before it led to, and the last one led to where the turn is.
pub proof fn lifecycle_is_valid(
    runtime: RuntimeView,
    messages: Seq<ChatMessageView>,
    user_message: Seq<char>,
    started_ms: u128,
    inputs: Seq<(TurnInputView, u128, ToolsTold)>,
)
    ensures
        ({
            let run = turn_run(runtime, messages, user_message, started_ms, inputs);
            lifecycle_from(None, run.events) == Some(run.turn.state)
        }),
{
    run_is_sound(runtime, messages, user_message, started_ms, inputs);
}

/// A turn that is over has a result and has reached the terminal state of it; one that is not over
/// has neither.
pub proof fn result_goes_with_state(
    runtime: RuntimeView,
    messages: Seq<ChatMessageView>,
    user_message: Seq<char>,
    started_ms: u128,
    inputs: Seq<(TurnInputView, u128, ToolsTold)>,
)
    ensures
        ({
            let run = turn_run(runtime, messages, user_message, started_ms, inputs);
            let state = run.turn.state.unwrap();
            &&& run.turn.state is Some
            &&& run.result is None <==> !state.terminal()
            &&& run.result matches Some(Ok(_)) ==> state is Completed
            &&& run.result matches Some(Err(error)) ==> if error is Cancelled {
                state is Cancelled
            } else {
                state is Failed
            }
        }),
{
    run_is_sound(runtime, messages, user_message, started_ms, inputs);
}

/// A turn keeps the conversation that it found, and adds the user's message to it first.
pub proof fn conversation_is_kept(
    runtime: RuntimeView,
    messages: Seq<ChatMessageView>,
    user_message: Seq<char>,
    started_ms: u128,
    inputs: Seq<(TurnInputView, u128, ToolsTold)>,
)
    ensures
        ({
            let run = turn_run(runtime, messages, user_message, started_ms, inputs);
            &&& run.messages.len() > messages.len()
            &&& run.messages.take(messages.len() as int) == messages
            &&& run.messages[messages.len() as int] == ChatMessageView::plain(
                "user"@,
                user_message,
            )
        }),
{
    run_is_sound(runtime, messages, user_message, started_ms, inputs);
}

/// A turn that was cancelled, failed, or is not over has committed no answer to the conversation,
/// however much of one was streamed.
pub proof fn partial_answers_are_not_committed(
    runtime: RuntimeView,
    messages: Seq<ChatMessageView>,
    user_message: Seq<char>,
    started_ms: u128,
    inputs: Seq<(TurnInputView, u128, ToolsTold)>,
)
    ensures
        ({
            let run = turn_run(runtime, messages, user_message, started_ms, inputs);
            !(run.result matches Some(Ok(_))) ==> forall|i: int|
                messages.len() <= i < run.messages.len() ==> !is_answer(#[trigger] run.messages[i])
        }),
{
    run_is_sound(runtime, messages, user_message, started_ms, inputs);
}

/// The answer of a turn is what the assistant said in its last stream, token by token. An answer
/// that is not empty is the conversation's last message, and the turn's only answer in it.
pub proof fn answer_is_what_was_streamed(
    runtime: RuntimeView,
    messages: Seq<ChatMessageView>,
    user_message: Seq<char>,
    started_ms: u128,
    inputs: Seq<(TurnInputView, u128, ToolsTold)>,
)
    ensures
        ({
            let run = turn_run(runtime, messages, user_message, started_ms, inputs);
            run.result matches Some(Ok(answer)) ==> {
                &&& answer == said_since(Seq::empty(), run.events)
                &&& answer.len() > 0 ==> run.messages.last() == ChatMessageView::plain(
                    "assistant"@,
                    answer,
                )
                &&& forall|i: int|
                    messages.len() <= i < run.messages.len() && is_answer(
                        #[trigger] run.messages[i],
                    ) ==> i == run.messages.len() - 1 && answer.len() > 0
            }
        }),
{
    run_is_sound(runtime, messages, user_message, started_ms, inputs);
}

/// A turn opens at most one stream more than it may have rounds of tool calls.
pub proof fn rounds_are_bounded(
    runtime: RuntimeView,
    messages: Seq<ChatMessageView>,
    user_message: Seq<char>,
    started_ms: u128,
    inputs: Seq<(TurnInputView, u128, ToolsTold)>,
)
    ensures
        streams(turn_run(runtime, messages, user_message, started_ms, inputs).events)
            <= runtime.max_tool_rounds + 1,
{
    run_is_sound(runtime, messages, user_message, started_ms, inputs);
    max_rounds_stay(runtime, messages, user_message, started_ms, inputs);
}

proof fn max_rounds_stay(
    runtime: RuntimeView,
    messages: Seq<ChatMessageView>,
    user_message: Seq<char>,
    started_ms: u128,
    inputs: Seq<(TurnInputView, u128, ToolsTold)>,
)
    ensures
        turn_run(runtime, messages, user_message, started_ms, inputs).turn.max_rounds
            == runtime.max_tool_rounds,
    decreases inputs.len(),
{
    if inputs.len() > 0 {
        max_rounds_stay(runtime, messages, user_message, started_ms, inputs.drop_last());
    }
}

/// A turn that ends in an answer has opened one stream for each round of tool calls and one more for
/// the answer. One that ends because its rounds are used up has opened one for each round that it
/// may have, and the one that asked for another.
pub proof fn rounds_are_counted(
    runtime: RuntimeView,
    messages: Seq<ChatMessageView>,
    user_message: Seq<char>,
    started_ms: u128,
    inputs: Seq<(TurnInputView, u128, ToolsTold)>,
)
    ensures
        ({
            let run = turn_run(runtime, messages, user_message, started_ms, inputs);
            &&& run.result matches Some(Ok(_)) ==> streams(run.events) == run.turn.round + 1
            &&& run.result matches Some(Err(RuntimeErrorView::MaxToolRounds { max_rounds })) ==> {
                &&& streams(run.events) == run.turn.round + 1
                &&& run.turn.round == runtime.max_tool_rounds
            }
        }),
{
    run_is_sound(runtime, messages, user_message, started_ms, inputs);
    max_rounds_stay(runtime, messages, user_message, started_ms, inputs);
}

/// A turn tells of a first token at most once, whatever number of streams it opens.
pub proof fn first_token_is_told_once(
    runtime: RuntimeView,
    messages: Seq<ChatMessageView>,
    user_message: Seq<char>,
    started_ms: u128,
    inputs: Seq<(TurnInputView, u128, ToolsTold)>,
)
    ensures
        first_tokens(turn_run(runtime, messages, user_message, started_ms, inputs).events) <= 1,
{
    run_is_sound(runtime, messages, user_message, started_ms, inputs);
}

/// A turn tells of a first token exactly where it has recorded one.
pub(crate) proof fn first_tokens_are_recorded(
    runtime: RuntimeView,
    messages: Seq<ChatMessageView>,
    user_message: Seq<char>,
    started_ms: u128,
    inputs: Seq<(TurnInputView, u128, ToolsTold)>,
)
    ensures
        ({
            let run = turn_run(runtime, messages, user_message, started_ms, inputs);
            first_tokens(run.events) == if run.turn.first_token_recorded {
                1nat
            } else {
                0nat
            }
        }),
{
    run_is_sound(runtime, messages, user_message, started_ms, inputs);
}

/// A turn that is over stays as it is.
pub proof fn nothing_happens_after_the_end(
    runtime: RuntimeView,
    messages: Seq<ChatMessageView>,
    user_message: Seq<char>,
    started_ms: u128,
    inputs: Seq<(TurnInputView, u128, ToolsTold)>,
    later: Seq<(TurnInputView, u128, ToolsTold)>,
)
    requires
        turn_run(runtime, messages, user_message, started_ms, inputs).result is Some,
    ensures
        turn_run(runtime, messages, user_message, started_ms, inputs + later) == turn_run(
            runtime,
            messages,
            user_message,
            started_ms,
            inputs,
        ),
    decreases later.len(),
{
    if later.len() == 0 {
        assert(inputs + later =~= inputs);
    } else {
        nothing_happens_after_the_end(
            runtime,
            messages,
            user_message,
            started_ms,
            inputs,
            later.drop_last(),
        );
        assert((inputs + later).drop_last() =~= inputs + later.drop_last());
        run_is_sound(runtime, messages, user_message, started_ms, inputs);
    }
}

/// What a step asks for is what the turn then waits for: events of the stream, the outcome of a
/// call, or leave to proceed; and nothing once it is over.
pub proof fn actions_name_what_is_awaited(
    turn: AgentTurnView,
    runtime: RuntimeView,
    told: ToolsTold,
    messages: Seq<ChatMessageView>,
    input: TurnInputView,
    elapsed_ms: u128,
    next: TurnInputView,
)
    requires
        turn.consistent(),
        turn.expects(input),
    ensures
        ({
            let step = turn.advanced(runtime, told, messages, input, elapsed_ms);
            step.turn.expects(next) <==> match step.action {
                TurnActionView::Proceed => next is Proceed,
                TurnActionView::OpenStream(_) | TurnActionView::NextEvent => next
                    is StreamCancelled || next is StreamEvent || next is StreamEnd,
                TurnActionView::CallTool(_) => next is ToolCancelled || next is ToolDone,
                TurnActionView::Finish(_) => false,
            }
        }),
{
}

/// The output of each tool call that succeeds is put into the conversation, under the call's
/// identifier, before the next stream is opened.
pub proof fn tool_output_is_put_into_the_conversation(
    turn: AgentTurnView,
    runtime: RuntimeView,
    told: ToolsTold,
    messages: Seq<ChatMessageView>,
    call: ToolCallView,
    rest: Seq<ToolCallView>,
    output: JsonView,
    duration_ms: u128,
    elapsed_ms: u128,
)
    requires
        turn.consistent(),
        turn.phase == (TurnPhaseView::Calling { call, rest }),
    ensures
        ({
            let input = TurnInputView::ToolDone { outcome: Ok(output), duration_ms };
            let step = turn.advanced(runtime, told, messages, input, elapsed_ms);
            let next = step.turn.advanced(
                runtime,
                told,
                step.messages,
                TurnInputView::Proceed { cancelled: false },
                elapsed_ms,
            );
            &&& step.messages == messages.push(tool_message(call, output))
            &&& rest.len() == 0 ==> (next.action matches TurnActionView::OpenStream(request)
                && request.messages == step.messages)
        }),
{
}

/// What an error says holds what caused it: an error of the provider or of a tool is told as such,
/// and one of too many rounds tells how many there may be.
pub proof fn errors_tell_their_cause(error: RuntimeErrorView)
    ensures
        error matches RuntimeErrorView::Llm(cause) ==> error.text() == cause.text(),
        error matches RuntimeErrorView::Tool(cause) ==> error.text() == cause.text(),
        error matches RuntimeErrorView::Llm(LlmErrorView::ProviderRequest(message)) ==> holds(
            error.text(),
            message,
        ),
        error matches RuntimeErrorView::Llm(LlmErrorView::MalformedSse { message }) ==> holds(
            error.text(),
            message,
        ),
        error matches RuntimeErrorView::Llm(LlmErrorView::HttpStatus { status, body }) ==> holds(
            error.text(),
            status.text,
        ) && holds(error.text(), body),
        error matches RuntimeErrorView::Tool(ToolErrorView::NotFound { name }) ==> holds(
            error.text(),
            name,
        ),
        error matches RuntimeErrorView::Tool(ToolErrorView::Timeout { name }) ==> holds(
            error.text(),
            name,
        ),
        error matches RuntimeErrorView::Tool(ToolErrorView::InvalidArguments { tool, message })
            ==> holds(error.text(), tool) && holds(error.text(), message),
        error matches RuntimeErrorView::Tool(ToolErrorView::CallFailed { name, message }) ==> holds(
            error.text(),
            name,
        ) && holds(error.text(), message),
        error matches RuntimeErrorView::MaxToolRounds { max_rounds } ==> holds(
            error.text(),
            decimal(max_rounds as nat),
        ),
{
    let none = Seq::<char>::empty();
    match error {
        RuntimeErrorView::Llm(LlmErrorView::ProviderRequest(message)) => {
            holds_part("provider request failed: "@, message, none);
        },
        RuntimeErrorView::Llm(LlmErrorView::MalformedSse { message }) => {
            holds_part("malformed SSE chunk: "@, message, none);
        },
        RuntimeErrorView::Llm(LlmErrorView::HttpStatus { status, body }) => {
            holds_part("provider returned HTTP "@, status.text, ": "@ + body);
            holds_part("provider returned HTTP "@ + status.text + ": "@, body, none);
            assert(error.text() =~= "provider returned HTTP "@ + status.text + (": "@ + body));
        },
        RuntimeErrorView::Tool(ToolErrorView::NotFound { name }) => {
            holds_part("tool not found: "@, name, none);
        },
        RuntimeErrorView::Tool(ToolErrorView::Timeout { name }) => {
            holds_part("tool timed out: "@, name, none);
        },
        RuntimeErrorView::Tool(ToolErrorView::InvalidArguments { tool, message }) => {
            holds_part("invalid arguments for tool "@, tool, ": "@ + message);
            holds_part("invalid arguments for tool "@ + tool + ": "@, message, none);
            assert(error.text() =~= "invalid arguments for tool "@ + tool + (": "@ + message));
        },
        RuntimeErrorView::Tool(ToolErrorView::CallFailed { name, message }) => {
            holds_part("tool "@, name, " failed: "@ + message);
            holds_part("tool "@ + name + " failed: "@, message, none);
            assert(error.text() =~= "tool "@ + name + (" failed: "@ + message));
        },
        RuntimeErrorView::MaxToolRounds { max_rounds } => {
            holds_part("exceeded maximum tool rounds: "@, decimal(max_rounds as nat), none);
        },
        _ => {},
    }
}

} // verus!
