//! The demos: their tools, and a provider that answers without a model.
use vstd::prelude::*;

use crate::json::{
    member, member_views, object_in_order, text_value, JsonMember, JsonMemberView, JsonView,
};
use crate::llm::{ChatMessage, ChatMessageView, ChatRequest, TokenEvent, TokenEventView};
use crate::text::{
    concatenated, fragments, fragments_preserve_text, split_inclusive, text_eq, views,
    views_of_push,
};
use crate::tools::{
    CalculatorTool, MockCrmLookupTool, Tool, ToolDefinition, ToolDefinitionView, ToolRegistry,
};

verus! {

/// A tool of a demo.
#[derive(Debug, Clone)]
pub enum DemoTool {
    Calculator(CalculatorTool),
    Crm(MockCrmLookupTool),
}

impl DemoTool {
    /// The tool's definition.
    pub open spec fn described(&self) -> ToolDefinitionView {
        match self {
            DemoTool::Calculator(tool) => tool.described(),
            DemoTool::Crm(tool) => tool.described(),
        }
    }
}

impl Tool for DemoTool {
    fn definition(&self) -> (definition: ToolDefinition)
        ensures
            definition@ == self.described(),
    {
        match self {
            DemoTool::Calculator(tool) => tool.definition(),
            DemoTool::Crm(tool) => tool.definition(),
        }
    }
}

/// The customer of the demo.
pub open spec fn demo_customer() -> JsonView {
    JsonView::Object(
        seq![
            JsonMemberView { key: "customer_id"@, value: JsonView::Text("cust_123"@) },
            JsonMemberView { key: "name"@, value: JsonView::Text("Ada Lovelace"@) },
            JsonMemberView { key: "plan"@, value: JsonView::Text("Enterprise"@) },
            JsonMemberView { key: "renewal_status"@, value: JsonView::Text("green"@) },
        ],
    )
}

/// The two tools under their names.
pub open spec fn demo_toolbox(calculator: CalculatorTool, crm: MockCrmLookupTool) -> Map<
    Seq<char>,
    DemoTool,
> {
    Map::empty().insert("calculator"@, DemoTool::Calculator(calculator)).insert(
        "mock_crm_lookup"@,
        DemoTool::Crm(crm),
    )
}

/// The tools of a demo: the calculator, and the lookup of one customer.
pub fn demo_tools() -> (tools: ToolRegistry<DemoTool>)
    ensures
        exists|calculator: CalculatorTool, crm: MockCrmLookupTool|
            {
                &&& tools@ == #[trigger] demo_toolbox(calculator, crm)
                &&& calculator.limit().total_nanos() == 250_000_000
                &&& crm.limit().total_nanos() == 250_000_000
                &&& crm.known() == seq![JsonMemberView { key: "cust_123"@, value: demo_customer() }]
            },
{
    let customer = object_in_order(
        vec![
            member("customer_id", text_value("cust_123")),
            member("name", text_value("Ada Lovelace")),
            member("plan", text_value("Enterprise")),
            member("renewal_status", text_value("green")),
        ],
    );
    assert(customer@->Object_0 =~= demo_customer()->Object_0);
    let mut customers: Vec<JsonMember> = Vec::new();
    customers.push(member("cust_123", customer));
    proof {
        crate::json::member_views_index(customers@);
        assert(member_views(customers@) =~= seq![
            JsonMemberView { key: "cust_123"@, value: demo_customer() },
        ]);
    }
    let calculator = CalculatorTool::default();
    let crm = MockCrmLookupTool::new(customers);
    let ghost tools = demo_toolbox(calculator, crm);
    let mut registry = ToolRegistry::new();
    let first = registry.register(DemoTool::Calculator(calculator));
    proof {
        reveal_strlit("calculator");
        reveal_strlit("mock_crm_lookup");
        assert("calculator"@.len() != "mock_crm_lookup"@.len());
    }
    let second = registry.register(DemoTool::Crm(crm));
    assert(first is Ok && second is Ok);
    assert(registry@ == tools);
    registry
}

/// What the user said last; nothing where there is no message of theirs.
pub open spec fn last_user_text(messages: Seq<ChatMessageView>) -> Seq<char>
    decreases messages.len(),
{
    if messages.len() == 0 {
        Seq::empty()
    } else if messages.last().role == "user"@ {
        messages.last().content
    } else {
        last_user_text(messages.drop_last())
    }
}

/// The answer of the demo: what the user said, word by word, after a fixed text.
pub open spec fn fake_answer(messages: Seq<ChatMessageView>) -> Seq<TokenEventView> {
    fragments("fake voice response: "@ + last_user_text(messages), ' ').map_values(
        |text: Seq<char>| TokenEventView::Token { text },
    ).push(TokenEventView::Done)
}

fn find_last_user_text(messages: &Vec<ChatMessage>) -> (text: String)
    ensures
        text@ == last_user_text(views(messages@)),
{
    let ghost all = views(messages@);
    let mut i: usize = messages.len();
    assert(all.take(i as int) =~= all);
    while i > 0
        invariant
            i <= messages@.len(),
            all == views(messages@),
            last_user_text(all) == last_user_text(all.take(i as int)),
        decreases i,
    {
        let message = &messages[i - 1];
        assert(all.take(i as int).last() == message@);
        assert(all.take(i as int).drop_last() =~= all.take(i - 1));
        if text_eq(message.role.as_str(), "user") {
            return message.content.clone();
        }
        i = i - 1;
    }
    let text = String::new();
    assert(text@ =~= Seq::empty());
    text
}

/// The answer of the demo to a request.
pub fn fake_voice_events(request: &ChatRequest) -> (events: Vec<TokenEvent>)
    ensures
        views(events@) == fake_answer(request@.messages),
{
    let response = "fake voice response: ".to_owned().concat(
        find_last_user_text(&request.messages).as_str(),
    );
    let words = split_inclusive(response.as_str(), ' ');
    let ghost all = views(words@).map_values(|text: Seq<char>| TokenEventView::Token { text });
    let mut events: Vec<TokenEvent> = Vec::new();
    let mut i: usize = 0;
    while i < words.len()
        invariant
            i <= words@.len(),
            all == views(words@).map_values(|text: Seq<char>| TokenEventView::Token { text }),
            views(events@) == all.take(i as int),
        decreases words@.len() - i,
    {
        let ghost before = events@;
        let event = TokenEvent::Token { text: words[i].clone() };
        events.push(event);
        i = i + 1;
        proof {
            views_of_push(before, event);
            assert(views(events@) =~= all.take(i as int));
        }
    }
    let ghost before = events@;
    events.push(TokenEvent::Done);
    proof {
        views_of_push(before, events@.last());
        assert(all.take(i as int) =~= all);
    }
    events
}

/// The text of all tokens.
pub open spec fn answer_text(events: Seq<TokenEventView>) -> Seq<char> {
    concatenated(
        events.map_values(
            |event: TokenEventView|
                match event {
                    TokenEventView::Token { text } => text,
                    _ => Seq::empty(),
                },
        ),
    )
}

/// The answer of the demo is what the user said last, after a fixed text, and then its end.
pub proof fn the_demo_answers_what_was_said(
    before: Seq<ChatMessageView>,
    message: ChatMessageView,
    after: Seq<ChatMessageView>,
)
    requires
        message.role == "user"@,
        forall|i: int| 0 <= i < after.len() ==> (#[trigger] after[i]).role != "user"@,
    ensures
        ({
            let events = fake_answer(before.push(message) + after);
            &&& events.len() > 0
            &&& events.last() is Done
            &&& forall|i: int|
                0 <= i < events.len() - 1 ==> #[trigger] events[i] is Token
            &&& answer_text(events.drop_last()) == "fake voice response: "@ + message.content
        }),
{
    let all = before.push(message) + after;
    said_last(before, message, after);
    let said = "fake voice response: "@ + message.content;
    let words = fragments(said, ' ');
    let events = fake_answer(all);
    fragments_preserve_text(said, ' ');
    let text = |event: TokenEventView|
        match event {
            TokenEventView::Token { text } => text,
            _ => Seq::empty(),
        };
    assert(events.drop_last().map_values(text) =~= words);
}

proof fn said_last(
    before: Seq<ChatMessageView>,
    message: ChatMessageView,
    after: Seq<ChatMessageView>,
)
    requires
        message.role == "user"@,
        forall|i: int| 0 <= i < after.len() ==> (#[trigger] after[i]).role != "user"@,
    ensures
        last_user_text(before.push(message) + after) == message.content,
    decreases after.len(),
{
    let all = before.push(message) + after;
    if after.len() == 0 {
        assert(all.last() == message);
    } else {
        let rest = after.drop_last();
        assert(after[after.len() - 1].role != "user"@);
        assert forall|i: int| 0 <= i < rest.len() implies (#[trigger] rest[i]).role != "user"@ by {
            assert(after[i].role != "user"@);
        }
        said_last(before, message, rest);
        assert(all.drop_last() =~= before.push(message) + rest);
        assert(all.last() == after.last());
    }
}

/// The tools of a demo are two, each under the name that it gives itself; neither changes anything,
/// and both may be called again.
pub proof fn demo_tools_stand_under_their_names(
    calculator: CalculatorTool,
    crm: MockCrmLookupTool,
    name: Seq<char>,
)
    ensures
        ({
            let tools = demo_toolbox(calculator, crm);
            &&& tools.contains_key(calculator.described().name)
            &&& tools.contains_key(crm.described().name)
            &&& tools.dom().len() == 2
            &&& tools.contains_key(name) ==> {
                &&& tools[name].described().name == name
                &&& tools[name].described().metadata.read_only
                &&& tools[name].described().metadata.idempotent
                &&& tools[name].described().metadata.mutates_resource is None
            }
        }),
{
    reveal_strlit("calculator");
    reveal_strlit("mock_crm_lookup");
    assert("calculator"@.len() == 10 && "mock_crm_lookup"@.len() == 15);
}

} // verus!
