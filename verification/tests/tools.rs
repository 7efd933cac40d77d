use std::sync::atomic::{AtomicU64, Ordering};
use std::sync::Arc;

use ai_runtime::json::{array_of, member, object_of, text_value};
use ai_runtime::tools::calculator::{calculation_result, CalculatorOperation};
use ai_runtime::tools::finish_call;
use ai_runtime::tools::validation::validate_arguments;
use ai_runtime::{
    CalculatorTool, Duration, JsonMember, JsonNumber, JsonValue, MockCrmLookupTool, Tool,
    ToolDefinition, ToolError, ToolMetadata, ToolRegistry,
};

fn number(value: u64) -> JsonValue {
    JsonValue::Number(JsonNumber::PosInt(value))
}

fn float(text: &str) -> JsonValue {
    JsonValue::Number(JsonNumber::Float(text.to_string()))
}

fn calculator() -> ToolRegistry {
    let mut registry: ToolRegistry = ToolRegistry::new();
    registry.register(Arc::new(CalculatorTool::default())).expect("tool should register");
    registry
}

fn operands(operation: &str, a: JsonValue, b: JsonValue) -> JsonValue {
    object_of(vec![member("operation", text_value(operation)), member("a", a), member("b", b)])
}

fn fault(schema: &JsonValue, value: &JsonValue) -> Option<String> {
    match validate_arguments("t", schema, value) {
        Ok(()) => None,
        Err(ToolError::InvalidArguments { tool, message }) => {
            assert_eq!(tool, "t");
            Some(message)
        }
        Err(other) => panic!("validation gives one kind of error: {other:?}"),
    }
}

#[test]
fn registry_dispatches_registered_tool() {
    let registry = calculator();
    let args = operands("multiply", number(6), number(7));

    let definition = registry.begin_call("calculator", &args).expect("call should be admitted");
    assert_eq!(definition.metadata.timeout.as_millis(), 250);
    let calculation = CalculatorTool::default().call(&args).expect("tool call should succeed");
    assert_eq!(calculation.operation, CalculatorOperation::Multiply);
    assert!(calculation.a.same(&JsonNumber::PosInt(6)));
    assert!(calculation.b.same(&JsonNumber::PosInt(7)));

    let output = calculation_result(Some(JsonNumber::Float("42.0".to_string())));
    let result = finish_call(&definition, Some(Ok(output))).expect("tool call should succeed");
    assert!(result.same(&object_of(vec![member("result", float("42.0"))])));
}

#[test]
fn registry_rejects_invalid_arguments_before_dispatch() {
    let registry = calculator();
    let args = object_of(vec![
        member("operation", text_value("multiply")),
        member("a", number(6)),
        member("extra", JsonValue::Bool(true)),
    ]);

    match registry.begin_call("calculator", &args) {
        Err(error) => {
            assert!(matches!(error, ToolError::InvalidArguments { .. }));
            assert_eq!(
                error.message(),
                "invalid arguments for tool calculator: $.b is required"
            );
        }
        Ok(_) => panic!("invalid args should fail"),
    }
}

struct SlowTool;

impl Tool for SlowTool {
    fn definition(&self) -> ToolDefinition {
        ToolDefinition {
            name: "slow".to_string(),
            description: "Sleeps longer than its timeout.".to_string(),
            parameters: object_of(vec![
                member("type", text_value("object")),
                member("additionalProperties", JsonValue::Bool(false)),
                member("properties", object_of(Vec::new())),
            ]),
            metadata: ToolMetadata::read_only(Duration::from_millis(10)),
        }
    }
}

#[test]
fn registry_returns_timeout_for_slow_tool() {
    let mut registry: ToolRegistry = ToolRegistry::new();
    registry.register(Arc::new(SlowTool)).expect("tool should register");

    let definition =
        registry.begin_call("slow", &object_of(Vec::new())).expect("call should be admitted");
    let err = finish_call(&definition, None).expect_err("slow tool should time out");

    assert_eq!(err.message(), "tool timed out: slow");
    assert!(matches!(err, ToolError::Timeout { name } if name == "slow"));
}

#[test]
fn names_are_registered_once_and_listed_in_order() {
    let mut registry: ToolRegistry = ToolRegistry::new();
    registry.register(Arc::new(SlowTool)).expect("tool should register");
    registry.register(Arc::new(CalculatorTool::default())).expect("tool should register");
    registry.register(Arc::new(MockCrmLookupTool::new(Vec::new()))).expect("tool should register");
    match registry.register(Arc::new(SlowTool)) {
        Err(error) => assert_eq!(error.message(), "tool already registered: slow"),
        Ok(()) => panic!("a name should be registered once"),
    }
    let names: Vec<String> =
        registry.definitions().into_iter().map(|definition| definition.name).collect();
    assert_eq!(names, vec!["calculator", "mock_crm_lookup", "slow"]);
    assert!(registry.definition("slow").is_some());
    assert!(registry.definition("slo").is_none());
    assert!(matches!(
        registry.begin_call("slo", &JsonValue::Null),
        Err(ToolError::NotFound { name }) if name == "slo"
    ));
}

#[test]
fn calculator_names_what_is_wrong() {
    let call = |args: JsonValue| match CalculatorTool::default().call(&args) {
        Ok(calculation) => panic!("call should fail: {calculation:?}"),
        Err(error) => error.message(),
    };
    let prefix = "invalid arguments for tool calculator: ";
    assert_eq!(call(JsonValue::Null), format!("{prefix}$.operation must be string"));
    assert_eq!(
        call(operands("add", JsonValue::Null, number(1))),
        format!("{prefix}$.a must be number")
    );
    assert_eq!(
        call(operands("add", number(1), text_value("1"))),
        format!("{prefix}$.b must be number")
    );
    assert_eq!(
        call(operands("power", number(1), number(1))),
        format!("{prefix}operation is not supported")
    );
    for zero in [number(0), float("0.0"), float("-0.0")] {
        assert_eq!(
            call(operands("divide", number(1), zero)),
            "tool calculator failed: division by zero"
        );
    }
    assert!(CalculatorTool::default().call(&operands("divide", number(1), float("0.5"))).is_ok());
    assert_eq!(calculation_result(None).to_text(), "{\"result\":null}");
}

#[test]
fn calculator_schema_is_what_the_model_is_told() {
    let definition = CalculatorTool::default().definition();
    assert_eq!(
        definition.spec().parameters.to_text(),
        "{\"additionalProperties\":false,\"properties\":{\"a\":{\"type\":\"number\"},\"b\":{\"type\":\"number\"},\"operation\":{\"enum\":[\"add\",\"subtract\",\"multiply\",\"divide\"],\"type\":\"string\"}},\"required\":[\"operation\",\"a\",\"b\"],\"type\":\"object\"}"
    );
    assert!(definition.metadata.read_only);
    assert!(definition.metadata.idempotent);
    assert!(definition.metadata.mutates_resource.is_none());
}

#[test]
fn customers_are_looked_up_by_identifier() {
    let tool = MockCrmLookupTool::new(vec![JsonMember {
        key: "cust_1".to_string(),
        value: text_value("Ada"),
    }]);
    let args = |id: &str| object_of(vec![member("customer_id", text_value(id))]);
    assert!(tool.call(&args("cust_1")).expect("found").same(&text_value("Ada")));
    match tool.call(&args("cust_2")) {
        Err(error) => {
            assert_eq!(error.message(), "tool mock_crm_lookup failed: customer cust_2 was not found")
        }
        Ok(value) => panic!("customer should not be found: {value:?}"),
    }
    assert!(tool.call(&JsonValue::Null).is_err());
    assert_eq!(
        tool.definition().parameters.to_text(),
        "{\"additionalProperties\":false,\"properties\":{\"customer_id\":{\"type\":\"string\"}},\"required\":[\"customer_id\"],\"type\":\"object\"}"
    );
}

#[test]
fn validation_follows_the_schema_into_objects() {
    let of_type = |name: &str| object_of(vec![member("type", text_value(name))]);
    let inner = object_of(vec![
        member("type", text_value("object")),
        member("properties", object_of(vec![member("n", of_type("integer"))])),
    ]);
    let schema = object_of(vec![
        member("type", text_value("object")),
        member("required", array_of(vec![text_value("in"), number(1)])),
        member("properties", object_of(vec![member("in", inner)])),
    ]);
    let given = |n: JsonValue| object_of(vec![member("in", object_of(vec![member("n", n)]))]);

    assert_eq!(fault(&schema, &given(number(1))), None);
    assert_eq!(
        fault(&schema, &given(JsonValue::Number(JsonNumber::NegInt(-1)))),
        None
    );
    assert_eq!(
        fault(&schema, &given(float("1.5"))),
        Some("$.in.n must be integer".to_string())
    );
    assert_eq!(
        fault(&schema, &object_of(Vec::new())),
        Some("$.in is required".to_string())
    );
    assert_eq!(fault(&schema, &JsonValue::Null), Some("$ must be object".to_string()));
    assert_eq!(
        fault(&schema, &object_of(vec![member("in", JsonValue::Bool(true))])),
        Some("$.in must be object".to_string())
    );
}

#[test]
fn validation_knows_types_and_allowed_values() {
    let of_type = |name: &str| object_of(vec![member("type", text_value(name))]);
    let values = [
        ("object", object_of(Vec::new())),
        ("array", array_of(Vec::new())),
        ("string", text_value("")),
        ("integer", number(3)),
        ("boolean", JsonValue::Bool(false)),
        ("null", JsonValue::Null),
    ];
    for (name, _) in &values {
        for (other, value) in &values {
            let expected =
                if name == other { None } else { Some(format!("$ must be {name}")) };
            assert_eq!(fault(&of_type(name), value), expected);
        }
    }
    assert_eq!(fault(&of_type("number"), &float("0.5")), None);
    assert_eq!(fault(&of_type("unheard-of"), &JsonValue::Null), None);

    let options = object_of(vec![member(
        "enum",
        array_of(vec![text_value("a"), number(2), float("0.0")]),
    )]);
    assert_eq!(fault(&options, &text_value("a")), None);
    assert_eq!(fault(&options, &number(2)), None);
    assert_eq!(fault(&options, &float("-0.0")), None);
    let refused = Some("$ is not one of the allowed values".to_string());
    assert_eq!(fault(&options, &text_value("b")), refused);
    assert_eq!(fault(&options, &float("2.0")), refused);

    let closed = object_of(vec![
        member("type", text_value("object")),
        member("additionalProperties", JsonValue::Bool(false)),
    ]);
    assert_eq!(
        fault(&closed, &object_of(vec![member("k", JsonValue::Null)])),
        Some("$.k is not allowed".to_string())
    );
}

/// A tool that gives another definition each time.
struct ChangingTool {
    asked: AtomicU64,
}

impl Tool for ChangingTool {
    fn definition(&self) -> ToolDefinition {
        let asked = self.asked.fetch_add(1, Ordering::SeqCst);
        ToolDefinition {
            name: if asked == 0 { "changing".to_string() } else { format!("a{asked}") },
            description: format!("asked {asked} times before"),
            parameters: object_of(vec![member("type", text_value("object"))]),
            metadata: ToolMetadata::read_only(Duration::from_millis(asked)),
        }
    }
}

#[test]
fn tools_are_asked_again_for_their_definitions() {
    let mut registry: ToolRegistry = ToolRegistry::default();
    registry.register(Arc::new(CalculatorTool::default())).expect("tool should register");
    let tool = Arc::new(ChangingTool { asked: AtomicU64::new(0) });
    registry.register(tool.clone()).expect("tool should register");
    let twin = registry.clone();

    let names: Vec<String> = registry.specs().into_iter().map(|spec| spec.name).collect();
    assert_eq!(names, vec!["a1", "calculator"]);
    assert_eq!(twin.definition("changing").map(|d| d.name), Some("a2".to_string()));
    assert!(registry.definition("a2").is_none());
    let args = object_of(Vec::new());
    let definition = registry.begin_call("changing", &args).expect("call should be admitted");
    assert_eq!(definition.metadata.timeout.as_millis(), 3);
    match registry.begin_call("changing", &JsonValue::Null) {
        Err(error) => {
            assert_eq!(error.message(), "invalid arguments for tool a4: $ must be object")
        }
        Ok(_) => panic!("the arguments should be refused"),
    }
    assert_eq!(tool.asked.load(Ordering::SeqCst), 5);
    assert_eq!(registry.tool("changing").expect("registered").definition().name, "a5");
}

#[test]
fn definitions_and_calls_can_be_compared() {
    let definition = CalculatorTool::default().definition();
    assert!(definition == definition.clone());
    let mut other = definition.clone();
    other.metadata.idempotent = false;
    assert!(definition != other);
    assert!(definition.metadata != other.metadata);
    assert_eq!(number(1), number(1));
    assert_ne!(number(1), float("1.0"));
}
