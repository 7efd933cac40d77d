//! A tool that performs one arithmetic operation.
use vstd::prelude::*;

use crate::json::{
    array_of, found, found_first, is_zero, member, object_in_order, same_json, text_value,
    the_first_of_a_key_is_found, JsonMemberView, JsonNumber, JsonNumberView, JsonValue, JsonView,
};
use crate::text::text_eq;
use crate::time::Duration;
use crate::tools::validation::{
    conforms, each_property_is_held_to_its_schema, has_type, is_allowed,
};
use crate::tools::{
    Result, Tool, ToolDefinition, ToolDefinitionView, ToolError, ToolErrorView, ToolMetadata,
    ToolMetadataView,
};

verus! {

/// Adds, subtracts, multiplies or divides two numbers.
#[derive(Debug, Clone, Copy)]
pub struct CalculatorTool {
    timeout: Duration,
}

/// The four operations.
#[derive(Debug, Clone, Copy, PartialEq, Eq, Structural)]
pub enum CalculatorOperation {
    Add,
    Subtract,
    Multiply,
    Divide,
}

/// An operation to perform: its operands are numbers, and a divisor is not zero.
#[derive(Debug)]
pub struct Calculation {
    pub operation: CalculatorOperation,
    pub a: JsonNumber,
    pub b: JsonNumber,
}

pub struct CalculationView {
    pub operation: CalculatorOperation,
    pub a: JsonNumberView,
    pub b: JsonNumberView,
}

impl View for Calculation {
    type V = CalculationView;

    open spec fn view(&self) -> CalculationView {
        CalculationView { operation: self.operation, a: self.a@, b: self.b@ }
    }
}

impl Default for CalculatorTool {
    fn default() -> (tool: Self)
        ensures
            tool.limit().total_nanos() == 250_000_000,
    {
        CalculatorTool { timeout: Duration::from_millis(250) }
    }
}

/// An object with the single member `type`.
pub open spec fn of_type(name: Seq<char>) -> JsonView {
    JsonView::Object(seq![JsonMemberView { key: "type"@, value: JsonView::Text(name) }])
}

/// The schema of the calculator's arguments.
pub open spec fn calculator_parameters() -> JsonView {
    JsonView::Object(
        seq![
            JsonMemberView { key: "additionalProperties"@, value: JsonView::Bool(false) },
            JsonMemberView {
                key: "properties"@,
                value: JsonView::Object(
                    seq![
                        JsonMemberView { key: "a"@, value: of_type("number"@) },
                        JsonMemberView { key: "b"@, value: of_type("number"@) },
                        JsonMemberView {
                            key: "operation"@,
                            value: JsonView::Object(
                                seq![
                                    JsonMemberView {
                                        key: "enum"@,
                                        value: JsonView::Array(
                                            seq![
                                                JsonView::Text("add"@),
                                                JsonView::Text("subtract"@),
                                                JsonView::Text("multiply"@),
                                                JsonView::Text("divide"@),
                                            ],
                                        ),
                                    },
                                    JsonMemberView {
                                        key: "type"@,
                                        value: JsonView::Text("string"@),
                                    },
                                ],
                            ),
                        },
                    ],
                ),
            },
            JsonMemberView {
                key: "required"@,
                value: JsonView::Array(
                    seq![
                        JsonView::Text("operation"@),
                        JsonView::Text("a"@),
                        JsonView::Text("b"@),
                    ],
                ),
            },
            JsonMemberView { key: "type"@, value: JsonView::Text("object"@) },
        ],
    )
}

/// An object with the single member `type`.
pub(crate) fn type_object(name: &str) -> (value: JsonValue)
    ensures
        value@ == of_type(name@),
{
    let value = object_in_order(vec![member("type", text_value(name))]);
    assert(value@->Object_0 =~= of_type(name@)->Object_0);
    value
}

fn parameters() -> (value: JsonValue)
    ensures
        value@ == calculator_parameters(),
{
    let options = array_of(
        vec![
            text_value("add"),
            text_value("subtract"),
            text_value("multiply"),
            text_value("divide"),
        ],
    );
    assert(options@->Array_0 =~= seq![
        JsonView::Text("add"@),
        JsonView::Text("subtract"@),
        JsonView::Text("multiply"@),
        JsonView::Text("divide"@),
    ]);
    let operation = object_in_order(vec![member("enum", options), member("type", text_value("string"))]);
    assert(operation@->Object_0 =~= seq![
        JsonMemberView { key: "enum"@, value: options@ },
        JsonMemberView { key: "type"@, value: JsonView::Text("string"@) },
    ]);
    let properties = object_in_order(
        vec![
            member("a", type_object("number")),
            member("b", type_object("number")),
            member("operation", operation),
        ],
    );
    assert(properties@->Object_0 =~= seq![
        JsonMemberView { key: "a"@, value: of_type("number"@) },
        JsonMemberView { key: "b"@, value: of_type("number"@) },
        JsonMemberView { key: "operation"@, value: operation@ },
    ]);
    let required = array_of(vec![text_value("operation"), text_value("a"), text_value("b")]);
    assert(required@->Array_0 =~= seq![
        JsonView::Text("operation"@),
        JsonView::Text("a"@),
        JsonView::Text("b"@),
    ]);
    let value = object_in_order(
        vec![
            member("additionalProperties", JsonValue::Bool(false)),
            member("properties", properties),
            member("required", required),
            member("type", text_value("object")),
        ],
    );
    assert(value@->Object_0 =~= seq![
        JsonMemberView { key: "additionalProperties"@, value: JsonView::Bool(false) },
        JsonMemberView { key: "properties"@, value: properties@ },
        JsonMemberView { key: "required"@, value: required@ },
        JsonMemberView { key: "type"@, value: JsonView::Text("object"@) },
    ]);
    value
}

impl CalculatorTool {
    /// How long a call may take.
    pub closed spec fn limit(&self) -> Duration {
        self.timeout
    }
}

impl CalculatorTool {
    /// The tool's definition.
    pub open spec fn described(&self) -> ToolDefinitionView {
        ToolDefinitionView {
            name: "calculator"@,
            description: "Performs one arithmetic operation on two numbers."@,
            parameters: calculator_parameters(),
            metadata: ToolMetadataView::read_only(self.limit()),
        }
    }
}

impl Tool for CalculatorTool {
    fn definition(&self) -> (definition: ToolDefinition)
        ensures
            definition@ == self.described(),
    {
        ToolDefinition {
            name: "calculator".to_owned(),
            description: "Performs one arithmetic operation on two numbers.".to_owned(),
            parameters: parameters(),
            metadata: ToolMetadata::read_only(self.timeout),
        }
    }
}

/// The error of an argument that is missing or of another type.
pub open spec fn not_of_type(
    tool: Seq<char>,
    field: Seq<char>,
    expected: Seq<char>,
) -> ToolErrorView {
    ToolErrorView::InvalidArguments { tool, message: "$."@ + field + " must be "@ + expected }
}

/// The text argument `field`.
pub fn required_str<'a>(tool: &str, args: &'a JsonValue, field: &str) -> (text: Result<&'a str>)
    ensures
        match args@.text_member(field@) {
            Some(value) => text is Ok && text->Ok_0@ == value,
            None => text is Err && text->Err_0@ == not_of_type(tool@, field@, "string"@),
        },
{
    if let Some(value) = args.get(field) {
        if let Some(text) = value.as_str() {
            return Ok(text);
        }
    }
    Err(
        ToolError::InvalidArguments {
            tool: tool.to_owned(),
            message: "$.".to_owned().concat(field).concat(" must be ").concat("string"),
        },
    )
}

/// The numeric argument `field`.
pub fn required_number<'a>(tool: &str, args: &'a JsonValue, field: &str) -> (number: Result<
    &'a JsonNumber,
>)
    ensures
        match args@.member(field@) {
            Some(JsonView::Number(value)) => number is Ok && number->Ok_0@ == value,
            _ => number is Err && number->Err_0@ == not_of_type(tool@, field@, "number"@),
        },
{
    if let Some(JsonValue::Number(number)) = args.get(field) {
        return Ok(number);
    }
    Err(
        ToolError::InvalidArguments {
            tool: tool.to_owned(),
            message: "$.".to_owned().concat(field).concat(" must be ").concat("number"),
        },
    )
}

/// The operation of a name.
pub open spec fn operation_named(name: Seq<char>) -> Option<CalculatorOperation> {
    if name == "add"@ {
        Some(CalculatorOperation::Add)
    } else if name == "subtract"@ {
        Some(CalculatorOperation::Subtract)
    } else if name == "multiply"@ {
        Some(CalculatorOperation::Multiply)
    } else if name == "divide"@ {
        Some(CalculatorOperation::Divide)
    } else {
        None
    }
}

/// What a call of the calculator comes to: the calculation to perform, or the error.
pub open spec fn calculation(args: JsonView) -> std::result::Result<
    CalculationView,
    ToolErrorView,
> {
    let name = args.text_member("operation"@);
    if name is None {
        Err(not_of_type("calculator"@, "operation"@, "string"@))
    } else {
        match args.member("a"@) {
            Some(JsonView::Number(a)) => match args.member("b"@) {
                Some(JsonView::Number(b)) => match operation_named(name.unwrap()) {
                    Some(operation) => if operation == CalculatorOperation::Divide && is_zero(b) {
                        Err(
                            ToolErrorView::CallFailed {
                                name: "calculator"@,
                                message: "division by zero"@,
                            },
                        )
                    } else {
                        Ok(CalculationView { operation, a, b })
                    },
                    None => Err(
                        ToolErrorView::InvalidArguments {
                            tool: "calculator"@,
                            message: "operation is not supported"@,
                        },
                    ),
                },
                _ => Err(not_of_type("calculator"@, "b"@, "number"@)),
            },
            _ => Err(not_of_type("calculator"@, "a"@, "number"@)),
        }
    }
}

impl CalculatorTool {
    /// The calculation that a call asks for.
    pub fn call(&self, args: &JsonValue) -> (result: Result<Calculation>)
        ensures
            match calculation(args@) {
                Ok(expected) => result is Ok && result->Ok_0@ == expected,
                Err(error) => result is Err && result->Err_0@ == error,
            },
    {
        let name = match required_str("calculator", args, "operation") {
            Ok(name) => name,
            Err(error) => {
                return Err(error);
            },
        };
        let a = match required_number("calculator", args, "a") {
            Ok(a) => a,
            Err(error) => {
                return Err(error);
            },
        };
        let b = match required_number("calculator", args, "b") {
            Ok(b) => b,
            Err(error) => {
                return Err(error);
            },
        };
        let operation = if text_eq(name, "add") {
            CalculatorOperation::Add
        } else if text_eq(name, "subtract") {
            CalculatorOperation::Subtract
        } else if text_eq(name, "multiply") {
            CalculatorOperation::Multiply
        } else if text_eq(name, "divide") {
            if b.is_zero() {
                return Err(
                    ToolError::CallFailed {
                        name: "calculator".to_owned(),
                        message: "division by zero".to_owned(),
                    },
                );
            }
            CalculatorOperation::Divide
        } else {
            return Err(
                ToolError::InvalidArguments {
                    tool: "calculator".to_owned(),
                    message: "operation is not supported".to_owned(),
                },
            );
        };
        Ok(Calculation { operation, a: a.clone(), b: b.clone() })
    }
}

/// The result of a call: an object with the number under `result`, or null where there is none.
pub fn calculation_result(number: Option<JsonNumber>) -> (value: JsonValue)
    ensures
        value@ == JsonView::Object(
            seq![
                JsonMemberView {
                    key: "result"@,
                    value: match number {
                        Some(number) => JsonView::Number(number@),
                        None => JsonView::Null,
                    },
                },
            ],
        ),
{
    let result = match number {
        Some(number) => JsonValue::Number(number),
        None => JsonValue::Null,
    };
    let ghost expected = seq![JsonMemberView { key: "result"@, value: result@ }];
    let value = object_in_order(vec![member("result", result)]);
    assert(value@->Object_0 =~= expected);
    value
}

proof fn argument_names_differ()
    ensures
        "add"@ != "subtract"@,
        "add"@ != "multiply"@,
        "add"@ != "divide"@,
        "subtract"@ != "multiply"@,
        "subtract"@ != "divide"@,
        "multiply"@ != "divide"@,
{
    reveal_strlit("add");
    reveal_strlit("subtract");
    reveal_strlit("multiply");
    reveal_strlit("divide");
    assert("add"@.len() == 3 && "subtract"@.len() == 8 && "multiply"@.len() == 8
        && "divide"@.len() == 6);
    assert("subtract"@[0] == 's' && "multiply"@[0] == 'm');
}

/// A calculation is of the two numbers that the arguments hold, in their order, by the operation of
/// the name that they hold. There is one exactly where both are numbers and the name is that of an
/// operation, except for a division by zero.
pub proof fn a_calculation_takes_its_arguments(args: JsonView)
    ensures
        ({
            let result = calculation(args);
            let name = args.text_member("operation"@);
            let numbers = args.member("a"@) is Some && args.member("a"@)->0 is Number
                && args.member("b"@) is Some && args.member("b"@)->0 is Number;
            let known = name == Some("add"@) || name == Some("subtract"@) || name == Some(
                "multiply"@,
            ) || name == Some("divide"@);
            let by_zero = name == Some("divide"@) && is_zero(args.member("b"@)->0->Number_0);
            &&& result is Ok <==> numbers && known && !by_zero
            &&& result matches Ok(calculation) ==> {
                &&& args.member("a"@) == Some(JsonView::Number(calculation.a))
                &&& args.member("b"@) == Some(JsonView::Number(calculation.b))
                &&& calculation.operation is Add <==> name == Some("add"@)
                &&& calculation.operation is Subtract <==> name == Some("subtract"@)
                &&& calculation.operation is Multiply <==> name == Some("multiply"@)
                &&& calculation.operation is Divide <==> name == Some("divide"@)
            }
            &&& numbers && by_zero ==> result is Err && result->Err_0 is CallFailed
            &&& result is Err && !(numbers && by_zero) ==> result->Err_0 is InvalidArguments
        }),
{
    argument_names_differ();
}

/// A number is zero exactly where it is the integer zero, or a fraction that is written as zero, with
/// either sign.
pub proof fn zero_is_zero_in_any_form(n: JsonNumberView)
    ensures
        n is Int ==> (is_zero(n) <==> n->Int_0 == 0),
        n is Float ==> (is_zero(n) <==> n->Float_0 == "0.0"@ || n->Float_0 == "-0.0"@),
{
}

proof fn schema_words_differ()
    ensures
        "additionalProperties"@.len() == 20,
        "properties"@.len() == 10,
        "required"@.len() == 8,
        "type"@.len() == 4,
        "enum"@.len() == 4,
        "type"@ != "enum"@,
        "operation"@.len() == 9,
        "a"@.len() == 1,
        "b"@.len() == 1,
        "a"@ != "b"@,
        "object"@.len() == 6,
        "number"@.len() == 6,
        "string"@.len() == 6,
        "object"@ != "number"@,
        "object"@ != "string"@,
        "number"@ != "string"@,
        "array"@.len() == 5,
{
    reveal_strlit("additionalProperties");
    reveal_strlit("properties");
    reveal_strlit("required");
    reveal_strlit("type");
    reveal_strlit("enum");
    assert("type"@[0] == 't' && "enum"@[0] == 'e');
    reveal_strlit("operation");
    reveal_strlit("a");
    reveal_strlit("b");
    assert("a"@[0] == 'a' && "b"@[0] == 'b');
    reveal_strlit("object");
    reveal_strlit("number");
    reveal_strlit("string");
    reveal_strlit("array");
    assert("object"@[0] == 'o' && "number"@[0] == 'n' && "string"@[0] == 's');
}

/// A schema that asks for a type alone admits the values of that type.
pub(crate) proof fn a_type_admits_its_values(name: Seq<char>, value: JsonView)
    requires
        name != "object"@,
    ensures
        conforms(of_type(name), value) <==> has_type(value, name),
{
    schema_words_differ();
    let schema = of_type(name)->Object_0;
    found_first(schema, "type"@, 0);
    the_first_of_a_key_is_found(schema, "enum"@);
    assert(schema[0].key != "enum"@);
    assert(of_type(name).text_member("type"@) == Some(name));
    assert(of_type(name).array_member("enum"@) is None);
}

spec fn operation_schema() -> JsonView {
    JsonView::Object(
        seq![
            JsonMemberView { key: "enum"@, value: JsonView::Array(operation_names()) },
            JsonMemberView { key: "type"@, value: JsonView::Text("string"@) },
        ],
    )
}

spec fn operation_names() -> Seq<JsonView> {
    seq![
        JsonView::Text("add"@),
        JsonView::Text("subtract"@),
        JsonView::Text("multiply"@),
        JsonView::Text("divide"@),
    ]
}

proof fn operations_are_admitted_by_name(value: JsonView)
    ensures
        conforms(operation_schema(), value) <==> value == JsonView::Text("add"@) || value
            == JsonView::Text("subtract"@) || value == JsonView::Text("multiply"@) || value
            == JsonView::Text("divide"@),
{
    schema_words_differ();
    let schema = operation_schema()->Object_0;
    let names = operation_names();
    found_first(schema, "enum"@, 0);
    assert(schema[0].key != "type"@);
    found_first(schema, "type"@, 1);
    assert(operation_schema().text_member("type"@) == Some("string"@));
    assert(operation_schema().array_member("enum"@) == Some(names));
    assert(is_allowed(names, value) <==> value == names[0] || value == names[1] || value == names[2]
        || value == names[3]) by {
        if is_allowed(names, value) {
            let i = choose|i: int| 0 <= i < names.len() && same_json(#[trigger] names[i], value);
            assert(names[i] is Text);
            assert(value == names[i]);
        }
        if value == names[0] || value == names[1] || value == names[2] || value == names[3] {
            let i: int = if value == names[0] {
                0
            } else if value == names[1] {
                1
            } else if value == names[2] {
                2
            } else {
                3
            };
            assert(same_json(names[i], value));
        }
    }
    assert(has_type(value, "string"@) <==> value is Text);
}

/// The schema of the calculator admits exactly the objects that hold two numbers and the name of an
/// operation, and nothing else; what it admits can be calculated, except for a division by zero.
pub proof fn what_the_schema_admits_is_calculated(args: JsonView)
    ensures
        conforms(calculator_parameters(), args) <==> {
            &&& args is Object
            &&& forall|i: int|
                0 <= i < args->Object_0.len() ==> (#[trigger] args->Object_0[i]).key == "a"@
                    || args->Object_0[i].key == "b"@ || args->Object_0[i].key == "operation"@
            &&& args.member("a"@) is Some && args.member("a"@)->0 is Number
            &&& args.member("b"@) is Some && args.member("b"@)->0 is Number
            &&& args.text_member("operation"@) is Some && operation_named(
                args.text_member("operation"@)->0,
            ) is Some
        },
        conforms(calculator_parameters(), args) ==> calculation(args) is Ok || (args.text_member(
            "operation"@,
        ) == Some("divide"@) && is_zero(args.member("b"@)->0->Number_0)),
{
    schema_words_differ();
    let schema = calculator_parameters();
    let parts = schema->Object_0;
    assert(parts[0].key != "properties"@ && parts[0].key != "required"@ && parts[0].key != "type"@);
    assert(parts[1].key != "required"@ && parts[1].key != "type"@ && parts[2].key != "type"@);
    found_first(parts, "additionalProperties"@, 0);
    found_first(parts, "properties"@, 1);
    found_first(parts, "required"@, 2);
    found_first(parts, "type"@, 3);
    the_first_of_a_key_is_found(parts, "enum"@);
    assert(parts[0].key != "enum"@ && parts[1].key != "enum"@ && parts[2].key != "enum"@
        && parts[3].key != "enum"@);
    let properties = parts[1].value->Object_0;
    let required = parts[2].value->Array_0;
    assert(schema.text_member("type"@) == Some("object"@));
    assert(schema.array_member("enum"@) is None);
    assert(schema.array_member("required"@) == Some(required));
    assert(schema.member("properties"@) == Some(JsonView::Object(properties)));
    assert(schema.member("additionalProperties"@) == Some(JsonView::Bool(false)));
    assert(schema.object_member("properties"@) == properties);
    assert(properties[2].value == operation_schema());
    if let JsonView::Object(members) = args {
        each_property_is_held_to_its_schema(properties, members);
        let a = found(members, "a"@);
        let b = found(members, "b"@);
        let operation = found(members, "operation"@);
        if let Some(value) = a {
            a_type_admits_its_values("number"@, value);
        }
        if let Some(value) = b {
            a_type_admits_its_values("number"@, value);
        }
        if let Some(value) = operation {
            operations_are_admitted_by_name(value);
        }
        assert(properties[0].key == "a"@ && properties[1].key == "b"@ && properties[2].key
            == "operation"@);
        assert(required[0] == JsonView::Text("operation"@) && required[1] == JsonView::Text("a"@)
            && required[2] == JsonView::Text("b"@));
        assert forall|key: Seq<char>| #[trigger] found(properties, key) is Some <==> key == "a"@
            || key == "b"@ || key == "operation"@ by {
            the_first_of_a_key_is_found(properties, key);
            if key == "a"@ {
                assert(properties[0].key == key);
            } else if key == "b"@ {
                assert(properties[1].key == key);
            } else if key == "operation"@ {
                assert(properties[2].key == key);
            }
        }
        if conforms(schema, args) {
            assert(found(members, required[0]->Text_0) is Some);
            assert(found(members, required[1]->Text_0) is Some);
            assert(found(members, required[2]->Text_0) is Some);
            assert(conforms(properties[0].value, a->0));
            assert(conforms(properties[1].value, b->0));
            assert(conforms(properties[2].value, operation->0));
            assert forall|i: int| 0 <= i < members.len() implies (#[trigger] members[i]).key == "a"@
                || members[i].key == "b"@ || members[i].key == "operation"@ by {
                assert(found(properties, members[i].key) is Some);
            }
        }
    }
}

} // verus!
