//! A tool that looks up customers in a fixed list.
use vstd::prelude::*;

use crate::json::{
    array_of, find_member, found, found_first, member, member_views, object_in_order, text_value,
    the_first_of_a_key_is_found, JsonMember, JsonMemberView, JsonValue, JsonView,
};
use crate::time::Duration;
use crate::tools::calculator::{
    a_type_admits_its_values, not_of_type, of_type, required_str, type_object,
};
use crate::tools::validation::{conforms, each_property_is_held_to_its_schema};
use crate::tools::{
    Result, Tool, ToolDefinition, ToolDefinitionView, ToolError, ToolErrorView, ToolMetadata,
    ToolMetadataView,
};

verus! {

/// Looks up a customer by its identifier.
#[derive(Debug, Clone)]
pub struct MockCrmLookupTool {
    timeout: Duration,
    customers: Vec<JsonMember>,
}

/// The schema of the lookup's arguments.
pub open spec fn lookup_parameters() -> JsonView {
    JsonView::Object(
        seq![
            JsonMemberView { key: "additionalProperties"@, value: JsonView::Bool(false) },
            JsonMemberView {
                key: "properties"@,
                value: JsonView::Object(
                    seq![JsonMemberView { key: "customer_id"@, value: of_type("string"@) }],
                ),
            },
            JsonMemberView {
                key: "required"@,
                value: JsonView::Array(seq![JsonView::Text("customer_id"@)]),
            },
            JsonMemberView { key: "type"@, value: JsonView::Text("object"@) },
        ],
    )
}

fn parameters() -> (value: JsonValue)
    ensures
        value@ == lookup_parameters(),
{
    let properties = object_in_order(vec![member("customer_id", type_object("string"))]);
    assert(properties@->Object_0 =~= seq![
        JsonMemberView { key: "customer_id"@, value: of_type("string"@) },
    ]);
    let required = array_of(vec![text_value("customer_id")]);
    assert(required@->Array_0 =~= seq![JsonView::Text("customer_id"@)]);
    let value = object_in_order(
        vec![
            member("additionalProperties", JsonValue::Bool(false)),
            member("properties", properties),
            member("required", required),
            member("type", text_value("object")),
        ],
    );
    assert(value@->Object_0 =~= seq![
        JsonMemberView { key: "additionalProperties"@, value: JsonView::Bool(false) },
        JsonMemberView { key: "properties"@, value: properties@ },
        JsonMemberView { key: "required"@, value: required@ },
        JsonMemberView { key: "type"@, value: JsonView::Text("object"@) },
    ]);
    value
}

impl MockCrmLookupTool {
    /// How long a call may take.
    pub closed spec fn limit(&self) -> Duration {
        self.timeout
    }

    /// The customers, each under its identifier; the first one of an identifier counts.
    pub closed spec fn known(&self) -> Seq<JsonMemberView> {
        member_views(self.customers@)
    }

    pub fn new(customers: Vec<JsonMember>) -> (tool: MockCrmLookupTool)
        ensures
            tool.known() == member_views(customers@),
            tool.limit().total_nanos() == 250_000_000,
    {
        MockCrmLookupTool { timeout: Duration::from_millis(250), customers }
    }

    /// The customer that a call asks for.
    pub fn call(&self, args: &JsonValue) -> (result: Result<JsonValue>)
        ensures
            match args@.text_member("customer_id"@) {
                None => result is Err && result->Err_0@ == not_of_type(
                    "mock_crm_lookup"@,
                    "customer_id"@,
                    "string"@,
                ),
                Some(id) => match found(self.known(), id) {
                    Some(customer) => result is Ok && result->Ok_0@ == customer,
                    None => result is Err && result->Err_0@ == (ToolErrorView::CallFailed {
                        name: "mock_crm_lookup"@,
                        message: "customer "@ + id + " was not found"@,
                    }),
                },
            },
    {
        let id = match required_str("mock_crm_lookup", args, "customer_id") {
            Ok(id) => id,
            Err(error) => {
                return Err(error);
            },
        };
        match find_member(&self.customers, id) {
            Some(customer) => Ok(customer.clone()),
            None => Err(
                ToolError::CallFailed {
                    name: "mock_crm_lookup".to_owned(),
                    message: "customer ".to_owned().concat(id).concat(" was not found"),
                },
            ),
        }
    }
}

impl MockCrmLookupTool {
    /// The tool's definition.
    pub open spec fn described(&self) -> ToolDefinitionView {
        ToolDefinitionView {
            name: "mock_crm_lookup"@,
            description: "Looks up a mock CRM customer by customer_id."@,
            parameters: lookup_parameters(),
            metadata: ToolMetadataView::read_only(self.limit()),
        }
    }
}

impl Tool for MockCrmLookupTool {
    fn definition(&self) -> (definition: ToolDefinition)
        ensures
            definition@ == self.described(),
    {
        ToolDefinition {
            name: "mock_crm_lookup".to_owned(),
            description: "Looks up a mock CRM customer by customer_id.".to_owned(),
            parameters: parameters(),
            metadata: ToolMetadata::read_only(self.timeout),
        }
    }
}

/// The schema of the lookup admits exactly the objects that hold a text as the customer's identifier
/// and nothing else.
pub proof fn the_lookup_takes_an_identifier_alone(args: JsonView)
    ensures
        conforms(lookup_parameters(), args) <==> {
            &&& args is Object
            &&& forall|i: int|
                0 <= i < args->Object_0.len() ==> (#[trigger] args->Object_0[i]).key
                    == "customer_id"@
            &&& args.text_member("customer_id"@) is Some
        },
{
    reveal_strlit("additionalProperties");
    reveal_strlit("properties");
    reveal_strlit("required");
    reveal_strlit("type");
    reveal_strlit("enum");
    reveal_strlit("object");
    reveal_strlit("string");
    reveal_strlit("number");
    reveal_strlit("array");
    assert("additionalProperties"@.len() == 20 && "properties"@.len() == 10 && "required"@.len() == 8
        && "type"@.len() == 4 && "enum"@.len() == 4);
    assert("type"@[0] == 't' && "enum"@[0] == 'e');
    assert("object"@[0] == 'o' && "string"@[0] == 's' && "number"@[0] == 'n');
    assert("array"@.len() == 5 && "string"@.len() == 6);
    let schema = lookup_parameters();
    let parts = schema->Object_0;
    assert(parts[0].key != "properties"@ && parts[0].key != "required"@ && parts[0].key != "type"@);
    assert(parts[1].key != "required"@ && parts[1].key != "type"@ && parts[2].key != "type"@);
    found_first(parts, "additionalProperties"@, 0);
    found_first(parts, "properties"@, 1);
    found_first(parts, "required"@, 2);
    found_first(parts, "type"@, 3);
    the_first_of_a_key_is_found(parts, "enum"@);
    assert(parts[0].key != "enum"@ && parts[1].key != "enum"@ && parts[2].key != "enum"@
        && parts[3].key != "enum"@);
    let properties = parts[1].value->Object_0;
    let required = parts[2].value->Array_0;
    assert(schema.text_member("type"@) == Some("object"@));
    assert(schema.array_member("enum"@) is None);
    assert(schema.array_member("required"@) == Some(required));
    assert(schema.member("properties"@) == Some(JsonView::Object(properties)));
    assert(schema.member("additionalProperties"@) == Some(JsonView::Bool(false)));
    assert(schema.object_member("properties"@) == properties);
    if let JsonView::Object(members) = args {
        each_property_is_held_to_its_schema(properties, members);
        let id = found(members, "customer_id"@);
        if let Some(value) = id {
            a_type_admits_its_values("string"@, value);
        }
        assert(properties[0].key == "customer_id"@);
        assert(required[0] == JsonView::Text("customer_id"@));
        assert forall|key: Seq<char>| #[trigger] found(properties, key) is Some <==> key
            == "customer_id"@ by {
            the_first_of_a_key_is_found(properties, key);
        }
        if conforms(schema, args) {
            assert(found(members, required[0]->Text_0) is Some);
            assert(conforms(properties[0].value, id->0));
            assert forall|i: int| 0 <= i < members.len() implies (#[trigger] members[i]).key
                == "customer_id"@ by {
                assert(found(properties, members[i].key) is Some);
            }
        }
    }
}

/// A lookup gives the customer whose identifier is the one that was asked for, and fails exactly
/// where none is asked for or there is no such customer.
pub proof fn a_lookup_gives_the_customer_asked_for(
    tool: MockCrmLookupTool,
    args: JsonValue,
    result: Result<JsonValue>,
)
    requires
        call_ensures(MockCrmLookupTool::call, (&tool, &args), result),
    ensures
        result is Ok ==> exists|i: int|
            0 <= i < tool.known().len() && args@.text_member("customer_id"@) == Some(
                (#[trigger] tool.known()[i]).key,
            ) && tool.known()[i].value == result->Ok_0@,
        result is Err ==> forall|i: int|
            0 <= i < tool.known().len() ==> args@.text_member("customer_id"@) != Some(
                (#[trigger] tool.known()[i]).key,
            ),
        result is Err ==> (result->Err_0@ is CallFailed <==> args@.text_member("customer_id"@)
            is Some),
{
    if let Some(id) = args@.text_member("customer_id"@) {
        the_first_of_a_key_is_found(tool.known(), id);
    }
}

} // verus!
