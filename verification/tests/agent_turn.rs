use std::cell::Cell;
use std::rc::Rc;
use std::sync::Arc;

use ai_runtime::cli::demo::{demo_tools, DemoTool};
use ai_runtime::json::{member, object_of, text_value};
use ai_runtime::runtime::events::valid_transition;
use ai_runtime::runtime::{AgentTurn, TurnAction, TurnInput};
use ai_runtime::tools::calculator::{calculation_result, Calculation, CalculatorOperation};
use ai_runtime::{
    AgentRuntime, CalculatorTool, ConversationContext, Duration, JsonNumber, JsonValue, LlmError,
    RequestLifecycle, RequestState, RuntimeConfig, RuntimeError, RuntimeEvent, TokenEvent, Tool,
    ToolCall, ToolDefinition, ToolError, ToolMetadata, ToolRegistry,
};

type Script = Vec<ai_runtime::Result<TokenEvent>>;

fn number(value: u64) -> JsonValue {
    JsonValue::Number(JsonNumber::PosInt(value))
}

fn as_f64(value: &JsonNumber) -> f64 {
    match value {
        JsonNumber::PosInt(n) => *n as f64,
        JsonNumber::NegInt(n) => *n as f64,
        JsonNumber::Float(text) => text.parse().expect("a fraction's text is a number"),
    }
}

fn compute(calculation: &Calculation) -> JsonValue {
    let (a, b) = (as_f64(&calculation.a), as_f64(&calculation.b));
    let result = match calculation.operation {
        CalculatorOperation::Add => a + b,
        CalculatorOperation::Subtract => a - b,
        CalculatorOperation::Multiply => a * b,
        CalculatorOperation::Divide => a / b,
    };
    calculation_result(
        serde_json::Number::from_f64(result).map(|n| JsonNumber::Float(n.to_string())),
    )
}

fn operation_call(id: &str, operation: &str, a: u64, b: u64) -> TokenEvent {
    TokenEvent::ToolCall(ToolCall {
        id: id.to_string(),
        name: "calculator".to_string(),
        arguments: object_of(vec![
            member("operation", text_value(operation)),
            member("a", number(a)),
            member("b", number(b)),
        ]),
    })
}

fn empty_call(id: &str, name: &str) -> TokenEvent {
    TokenEvent::ToolCall(ToolCall {
        id: id.to_string(),
        name: name.to_string(),
        arguments: object_of(Vec::new()),
    })
}

fn token(text: &str) -> TokenEvent {
    TokenEvent::Token { text: text.to_string() }
}

/// How the outside answers while a turn waits.
struct World {
    scripts: Vec<Script>,
    /// Whether the user cancels once a script has nothing more, instead of the stream's end.
    cancel_in_stream: bool,
    cancel_in_tool: bool,
    tool_times_out: bool,
    requests: Vec<ai_runtime::ChatRequest>,
    /// How many streams, and how many tool calls, are alive.
    streams: Rc<Cell<usize>>,
    calls: Rc<Cell<usize>>,
    /// The most streams and tool calls that were alive at a time.
    most: (usize, usize),
}

/// Something that is alive until it is dropped.
struct Alive {
    count: Rc<Cell<usize>>,
}

impl Alive {
    fn new(count: &Rc<Cell<usize>>) -> Self {
        count.set(count.get() + 1);
        Self { count: count.clone() }
    }
}

impl Drop for Alive {
    fn drop(&mut self) {
        self.count.set(self.count.get() - 1);
    }
}

/// A stream of an answer.
struct Stream {
    events: std::vec::IntoIter<ai_runtime::Result<TokenEvent>>,
    _alive: Alive,
}

fn world(scripts: Vec<Script>) -> World {
    let mut scripts = scripts;
    scripts.reverse();
    World {
        scripts,
        cancel_in_stream: false,
        cancel_in_tool: false,
        tool_times_out: false,
        requests: Vec::new(),
        streams: Rc::new(Cell::new(0)),
        calls: Rc::new(Cell::new(0)),
        most: (0, 0),
    }
}

fn run_turn(
    runtime: &AgentRuntime<()>,
    context: &mut ConversationContext,
    message: &str,
    world: &mut World,
) -> (Result<String, RuntimeError>, Vec<RuntimeEvent>) {
    let step = runtime.begin_turn(context, message, 0);
    let mut events = step.events;
    let mut turn: AgentTurn = step.turn;
    let mut action = step.action;
    let mut stream: Option<Stream> = None;
    loop {
        let input = match action {
            TurnAction::Finish(result) => return (result, events),
            TurnAction::Proceed => {
                stream = None;
                TurnInput::Proceed { cancelled: false }
            }
            TurnAction::OpenStream(request) => {
                world.requests.push(request);
                let script = world.scripts.pop().expect("fake response should exist");
                stream = None;
                let opened = stream.insert(Stream {
                    events: script.into_iter(),
                    _alive: Alive::new(&world.streams),
                });
                world.most.0 = world.most.0.max(world.streams.get());
                next_event(opened, world)
            }
            TurnAction::NextEvent => {
                next_event(stream.as_mut().expect("a stream should be open"), world)
            }
            TurnAction::CallTool(call) => {
                let _alive = Alive::new(&world.calls);
                world.most.1 = world.most.1.max(world.calls.get());
                if world.cancel_in_tool {
                    TurnInput::ToolCancelled
                } else {
                    TurnInput::ToolDone {
                        outcome: dispatch(runtime.tools(), &call, world.tool_times_out),
                        duration_ms: 7,
                    }
                }
            }
        };
        let step = runtime.advance(turn, context, input, 5);
        turn = step.turn;
        events.extend(step.events);
        action = step.action;
    }
}

fn next_event(stream: &mut Stream, world: &World) -> TurnInput {
    match stream.events.next() {
        Some(event) => TurnInput::StreamEvent(event),
        None if world.cancel_in_stream => TurnInput::StreamCancelled,
        None => TurnInput::StreamEnd,
    }
}

fn dispatch(
    tools: &ToolRegistry,
    call: &ToolCall,
    times_out: bool,
) -> Result<JsonValue, ToolError> {
    let definition = tools.begin_call(&call.name, &call.arguments)?;
    let outcome = if times_out {
        None
    } else {
        Some(CalculatorTool::default().call(&call.arguments).map(|c| compute(&c)))
    };
    ai_runtime::tools::finish_call(&definition, outcome)
}

fn calculator_runtime() -> AgentRuntime<()> {
    let mut tools: ToolRegistry = ToolRegistry::new();
    tools.register(Arc::new(CalculatorTool::default())).expect("tool should register");
    AgentRuntime::new((), tools, RuntimeConfig::new("test-model"))
}

fn plain_runtime() -> AgentRuntime<()> {
    AgentRuntime::new((), ToolRegistry::new(), RuntimeConfig::new("test"))
}

struct NamedTool {
    name: &'static str,
    timeout_ms: u64,
}

impl Tool for NamedTool {
    fn definition(&self) -> ToolDefinition {
        ToolDefinition {
            name: self.name.to_string(),
            description: "A tool of a test.".to_string(),
            parameters: object_of(vec![
                member("type", text_value("object")),
                member("additionalProperties", JsonValue::Bool(false)),
                member("properties", object_of(Vec::new())),
            ]),
            metadata: ToolMetadata::read_only(Duration::from_millis(self.timeout_ms)),
        }
    }
}

fn assert_event<F>(events: &[RuntimeEvent], predicate: F)
where
    F: Fn(&RuntimeEvent) -> bool,
{
    assert!(events.iter().any(predicate), "expected event was missing from {events:#?}");
}

#[test]
fn lifecycle_tracks_state_transitions() {
    let mut lifecycle = RequestLifecycle::new();

    assert_eq!(lifecycle.state(), None);
    let event = lifecycle.transition(RequestState::Started);
    assert!(matches!(
        event,
        RuntimeEvent::Lifecycle {
            from: None,
            to: RequestState::Started,
            ..
        }
    ));

    lifecycle.transition(RequestState::StreamingLlm);
    lifecycle.transition(RequestState::Completed);

    assert_eq!(lifecycle.state(), Some(RequestState::Completed));
}

#[test]
fn states_follow_only_where_the_lifecycle_allows() {
    assert!(valid_transition(RequestState::Started, RequestState::StreamingLlm));
    assert!(valid_transition(RequestState::StreamingLlm, RequestState::DispatchingTool));
    assert!(valid_transition(RequestState::DispatchingTool, RequestState::StreamingLlm));
    assert!(valid_transition(RequestState::StreamingLlm, RequestState::StreamingLlm));
    assert!(!valid_transition(RequestState::Started, RequestState::Completed));
    assert!(!valid_transition(RequestState::Started, RequestState::DispatchingTool));
    assert!(!valid_transition(RequestState::Completed, RequestState::Completed));
    assert!(!valid_transition(RequestState::Cancelled, RequestState::StreamingLlm));
}

#[test]
fn lifecycle_measures_time_by_the_clock() {
    let lifecycle = RequestLifecycle::default();
    let before = lifecycle.elapsed_ms();
    let start = std::time::Instant::now();
    while start.elapsed().as_millis() < 5 {}
    assert!(lifecycle.elapsed_ms() >= before + 4);
    assert!(RequestState::Failed.is_terminal());
    assert!(!RequestState::StreamingLlm.is_terminal());
}

#[test]
fn sequential_tool_result_is_reinjected_before_final_answer() {
    let runtime = calculator_runtime();
    let mut context = ConversationContext::new();
    let mut outside = world(vec![
        vec![Ok(operation_call("call_1", "add", 20, 22)), Ok(TokenEvent::Done)],
        vec![Ok(token("The answer is 42.")), Ok(TokenEvent::Done)],
    ]);

    let (answer, _) = run_turn(&runtime, &mut context, "What is 20 + 22?", &mut outside);

    assert_eq!(answer.expect("turn should succeed"), "The answer is 42.");
    assert!(context.messages().iter().any(|message| message.role == "tool"
        && message.tool_call_id.as_deref() == Some("call_1")
        && message.content == "{\"result\":42.0}"));
    assert_eq!(outside.requests.len(), 2);
    assert_eq!(outside.requests[0].tools.len(), 1);
    assert_eq!(outside.requests[0].model, "test-model");
    assert!(outside.requests[1].messages.iter().any(|message| message.role == "tool"));
}

#[test]
fn context_preserves_tool_results_across_two_turns() {
    let runtime = calculator_runtime();
    let mut context = ConversationContext::new();
    let mut outside = world(vec![
        vec![Ok(operation_call("call_1", "multiply", 6, 7)), Ok(TokenEvent::Done)],
        vec![Ok(token("It is 42.")), Ok(TokenEvent::Done)],
        vec![
            Ok(token("The previous tool result is still in context.")),
            Ok(TokenEvent::Done),
        ],
    ]);

    let (first, _) = run_turn(&runtime, &mut context, "What is 6 * 7?", &mut outside);
    first.expect("first turn should succeed");
    let (second, _) =
        run_turn(&runtime, &mut context, "Can you use that result again?", &mut outside);
    second.expect("second turn should succeed");

    let tool_result_count =
        context.messages().iter().filter(|message| message.role == "tool").count();
    assert_eq!(tool_result_count, 1);
    assert_eq!(context.messages().last().expect("last message").role, "assistant");
}

#[test]
fn emits_lifecycle_latency_and_tool_events() {
    let runtime = calculator_runtime();
    let mut context = ConversationContext::new();
    let mut outside = world(vec![
        vec![Ok(operation_call("call_1", "add", 20, 22)), Ok(TokenEvent::Done)],
        vec![Ok(token("The answer is 42.")), Ok(TokenEvent::Done)],
    ]);

    let (answer, events) = run_turn(&runtime, &mut context, "What is 20 + 22?", &mut outside);

    assert_eq!(answer.expect("turn should succeed"), "The answer is 42.");
    assert_event(&events, |event| {
        matches!(
            event,
            RuntimeEvent::Lifecycle { from: None, to: RequestState::Started, .. }
        )
    });
    assert_event(&events, |event| {
        matches!(event, RuntimeEvent::Lifecycle { to: RequestState::StreamingLlm, .. })
    });
    assert_event(&events, |event| {
        matches!(
            event,
            RuntimeEvent::ToolDispatchStart { call_id, tool_name, .. }
                if call_id == "call_1" && tool_name == "calculator"
        )
    });
    assert_event(&events, |event| matches!(event, RuntimeEvent::LlmFirstToken { .. }));
    assert_event(&events, |event| {
        matches!(
            event,
            RuntimeEvent::AssistantToken { text, .. } if text == "The answer is 42."
        )
    });
    assert_event(&events, |event| {
        matches!(
            event,
            RuntimeEvent::TurnCompleted { output_chars, .. }
                if *output_chars == "The answer is 42.".len()
        )
    });
    assert!(matches!(
        events.last(),
        Some(RuntimeEvent::Lifecycle { to: RequestState::Completed, .. })
    ));
}

#[test]
fn emits_assistant_token_events_in_stream_order() {
    let runtime = plain_runtime();
    let mut context = ConversationContext::new();
    let mut outside = world(vec![vec![
        Ok(token("Hel")),
        Ok(token("lo")),
        Ok(token(", world")),
        Ok(TokenEvent::Done),
    ]]);

    let (answer, events) = run_turn(&runtime, &mut context, "say hello", &mut outside);

    assert_eq!(answer.expect("turn should succeed"), "Hello, world");
    let tokens = events
        .iter()
        .filter_map(|event| match event {
            RuntimeEvent::AssistantToken { text, .. } => Some(text.as_str()),
            _ => None,
        })
        .collect::<Vec<_>>();
    assert_eq!(tokens, vec!["Hel", "lo", ", world"]);
    assert!(matches!(
        events.last(),
        Some(RuntimeEvent::Lifecycle { to: RequestState::Completed, .. })
    ));
}

#[test]
fn cancellation_drops_active_llm_stream() {
    let runtime = plain_runtime();
    let mut context = ConversationContext::new();
    let mut outside = world(vec![Vec::new()]);
    outside.cancel_in_stream = true;

    let (result, events) = run_turn(&runtime, &mut context, "hello", &mut outside);

    assert!(matches!(result, Err(RuntimeError::Cancelled)));
    assert!(matches!(
        events.last(),
        Some(RuntimeEvent::Lifecycle { to: RequestState::Cancelled, .. })
    ));
    assert_eq!(outside.most.0, 1);
    assert_eq!(outside.streams.get(), 0);
}

#[test]
fn cancellation_drops_active_tool_future() {
    let mut tools: ToolRegistry = ToolRegistry::new();
    tools
        .register(Arc::new(NamedTool { name: "hanging", timeout_ms: 30_000 }))
        .expect("tool should register");
    let runtime = AgentRuntime::new((), tools, RuntimeConfig::new("test"));
    let mut context = ConversationContext::new();
    let mut outside =
        world(vec![vec![Ok(empty_call("call_1", "hanging")), Ok(TokenEvent::Done)]]);
    outside.cancel_in_tool = true;

    let (result, events) = run_turn(&runtime, &mut context, "call a tool", &mut outside);

    assert!(matches!(result, Err(RuntimeError::Cancelled)));
    assert!(!events.iter().any(|event| matches!(event, RuntimeEvent::ToolDispatchEnd { .. })));
    assert_eq!(outside.most, (1, 1));
    assert_eq!(outside.calls.get(), 0);
}

#[test]
fn partial_assistant_text_is_not_committed_after_cancellation() {
    let runtime = plain_runtime();
    let mut context = ConversationContext::new();
    let mut outside = world(vec![vec![Ok(token("partial answer"))]]);
    outside.cancel_in_stream = true;

    let (result, events) = run_turn(&runtime, &mut context, "hello", &mut outside);

    assert_event(&events, |event| {
        matches!(event, RuntimeEvent::AssistantToken { text, .. } if text == "partial answer")
    });
    assert!(matches!(result, Err(RuntimeError::Cancelled)));
    assert!(
        context.messages().iter().all(|message| message.role != "assistant"),
        "partial assistant output should not be committed: {:#?}",
        context.messages()
    );
}

#[test]
fn tool_timeout_emits_timeout_and_failed_lifecycle_events() {
    let mut tools: ToolRegistry = ToolRegistry::new();
    tools
        .register(Arc::new(NamedTool { name: "slow_runtime", timeout_ms: 10 }))
        .expect("tool should register");
    let runtime = AgentRuntime::new((), tools, RuntimeConfig::new("test"));
    let mut context = ConversationContext::new();
    let mut outside =
        world(vec![vec![Ok(empty_call("call_1", "slow_runtime")), Ok(TokenEvent::Done)]]);
    outside.tool_times_out = true;

    let (result, events) = run_turn(&runtime, &mut context, "call a slow tool", &mut outside);

    assert!(matches!(result, Err(RuntimeError::Tool(ToolError::Timeout { .. }))));
    assert_event(&events, |event| {
        matches!(
            event,
            RuntimeEvent::ToolTimeout { call_id, tool_name, timeout_ms, .. }
                if call_id == "call_1" && tool_name == "slow_runtime" && *timeout_ms == 10
        )
    });
    assert_event(&events, |event| {
        matches!(
            event,
            RuntimeEvent::ToolDispatchEnd { success: false, duration_ms: 7, .. }
        )
    });
    assert!(matches!(
        events.last(),
        Some(RuntimeEvent::Lifecycle { to: RequestState::Failed, .. })
    ));
}

#[test]
fn rounds_of_tool_calls_are_limited() {
    let runtime = calculator_runtime();
    let mut context = ConversationContext::new();
    let scripts = (0..5)
        .map(|_| vec![Ok(operation_call("c", "add", 1, 1)), Ok(TokenEvent::Done)])
        .collect();
    let mut outside = world(scripts);

    let (result, _) = run_turn(&runtime, &mut context, "loop", &mut outside);

    match result {
        Err(error) => {
            assert!(matches!(error, RuntimeError::MaxToolRounds { max_rounds: 4 }));
            assert_eq!(error.message(), "exceeded maximum tool rounds: 4");
        }
        Ok(answer) => panic!("tool rounds should be limited: {answer}"),
    }
    assert_eq!(outside.requests.len(), 5);
}

#[test]
fn stream_errors_and_unknown_tools_fail_the_turn() {
    let runtime = plain_runtime();
    let mut context = ConversationContext::new();
    let mut outside = world(vec![vec![Ok(token("x")), Err(LlmError::ProviderTimeout)]]);
    let (result, events) = run_turn(&runtime, &mut context, "hello", &mut outside);
    assert!(matches!(result, Err(RuntimeError::Llm(LlmError::ProviderTimeout))));
    assert!(matches!(
        events.last(),
        Some(RuntimeEvent::Lifecycle { to: RequestState::Failed, .. })
    ));
    assert_eq!(context.messages().len(), 1);

    let mut outside = world(vec![vec![Ok(empty_call("c", "nothing"))]]);
    let (result, _) = run_turn(&runtime, &mut context, "hello", &mut outside);
    match result {
        Err(error) => {
            assert_eq!(error.message(), "tool not found: nothing");
            assert!(!error.is_cancelled());
        }
        Ok(answer) => panic!("an unknown tool should fail the turn: {answer}"),
    }
    assert_eq!(RuntimeError::Cancelled.message(), "turn was cancelled");
}

#[test]
fn cancelled_before_the_first_stream_opens_none() {
    let runtime = plain_runtime();
    let mut context = ConversationContext::with_system_prompt("be brief");
    let step = runtime.begin_turn(&mut context, "hello", 0);
    let step = runtime.advance(step.turn, &mut context, TurnInput::Proceed { cancelled: true }, 3);
    assert!(matches!(step.action, TurnAction::Finish(Err(RuntimeError::Cancelled))));
    assert_eq!(context.messages().len(), 2);
    assert_eq!(context.messages()[0].role, "system");
}

#[test]
fn empty_answers_are_not_committed() {
    let runtime = plain_runtime();
    let mut context = ConversationContext::new();
    let mut outside = world(vec![vec![Ok(TokenEvent::Done)]]);
    let (answer, _) = run_turn(&runtime, &mut context, "hello", &mut outside);
    assert_eq!(answer.expect("turn should succeed"), "");
    assert_eq!(context.messages().len(), 1);
}

#[test]
fn demo_tools_are_listed_in_the_order_of_their_names() {
    let tools = demo_tools();
    let names: Vec<String> =
        tools.specs().into_iter().map(|spec| spec.name).collect();
    assert_eq!(names, vec!["calculator", "mock_crm_lookup"]);
    let args = object_of(vec![member("customer_id", text_value("cust_123"))]);
    let customer = match tools.tool("mock_crm_lookup") {
        Some(DemoTool::Crm(crm)) => crm.call(&args).expect("customer should be found"),
        other => panic!("the lookup should be registered: {other:?}"),
    };
    assert_eq!(
        customer.to_text(),
        "{\"customer_id\":\"cust_123\",\"name\":\"Ada Lovelace\",\"plan\":\"Enterprise\",\"renewal_status\":\"green\"}"
    );
}
