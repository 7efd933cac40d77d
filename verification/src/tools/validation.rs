//! Holding a tool's arguments to the schema of its parameters.
use vstd::prelude::*;

use crate::json::{
    find_member, found, item_views, item_views_index, member_views, member_views_index, same_json,
    JsonMember, JsonMemberView, JsonNumber, JsonNumberView, JsonValue, JsonView,
};
use crate::text::text_eq;
use crate::tools::{Result, ToolError, ToolErrorView};

verus! {

/// Whether `value` is of the JSON type `name`; a name that is no type holds of every value.
pub open spec fn has_type(value: JsonView, name: Seq<char>) -> bool {
    if name == "object"@ {
        value is Object
    } else if name == "array"@ {
        value is Array
    } else if name == "string"@ {
        value is Text
    } else if name == "number"@ {
        value is Number
    } else if name == "integer"@ {
        value matches JsonView::Number(n) && n is Int
    } else if name == "boolean"@ {
        value is Bool
    } else if name == "null"@ {
        value is Null
    } else {
        true
    }
}

/// Whether `value` equals one of `options`.
pub open spec fn is_allowed(options: Seq<JsonView>, value: JsonView) -> bool {
    exists|i: int| 0 <= i < options.len() && same_json(#[trigger] options[i], value)
}

/// The first text of `required` that is no key of `members`.
pub open spec fn first_missing(
    required: Seq<JsonView>,
    members: Seq<JsonMemberView>,
) -> Option<Seq<char>>
    decreases required.len(),
{
    if required.len() == 0 {
        None
    } else {
        match required[0] {
            JsonView::Text(field) if found(members, field) is None => Some(field),
            _ => first_missing(required.drop_first(), members),
        }
    }
}

/// The first key of `members` that is no key of `properties`.
pub open spec fn first_unknown(
    members: Seq<JsonMemberView>,
    properties: Seq<JsonMemberView>,
) -> Option<Seq<char>>
    decreases members.len(),
{
    if members.len() == 0 {
        None
    } else if found(properties, members[0].key) is None {
        Some(members[0].key)
    } else {
        first_unknown(members.drop_first(), properties)
    }
}

/// A value under a key is a part of its object.
pub proof fn member_is_part(value: JsonView, key: Seq<char>)
    ensures
        value.member(key) matches Some(part) ==> decreases_to!(value => part),
{
    if let JsonView::Object(members) = value {
        found_is_part(members, key);
        if let Some(part) = found(members, key) {
            let i = choose|i: int| 0 <= i < members.len() && (#[trigger] members[i]).value == part;
            assert(decreases_to!(value => value->Object_0));
            assert(decreases_to!(members => members[i]));
        }
    }
}

proof fn found_is_part(members: Seq<JsonMemberView>, key: Seq<char>)
    ensures
        found(members, key) matches Some(part) ==> exists|i: int|
            0 <= i < members.len() && (#[trigger] members[i]).value == part,
    decreases members.len(),
{
    if members.len() > 0 {
        if members[0].key != key {
            found_is_part(members.drop_first(), key);
            if let Some(part) = found(members, key) {
                let rest = members.drop_first();
                let i = choose|i: int| 0 <= i < rest.len() && (#[trigger] rest[i]).value == part;
                assert(members[i + 1].value == part);
            }
        } else {
            assert(members[0].value == found(members, key).unwrap());
        }
    }
}

/// What is wrong with `value` under `schema`, at `path`: the first fault that is found, or none.
pub open spec fn violation(schema: JsonView, value: JsonView, path: Seq<char>) -> Option<Seq<char>>
    decreases schema, 1nat,
{
    let expected = schema.text_member("type"@);
    let options = schema.array_member("enum"@);
    if expected is Some && !has_type(value, expected.unwrap()) {
        Some(path + " must be "@ + expected.unwrap())
    } else if options is Some && !is_allowed(options.unwrap(), value) {
        Some(path + " is not one of the allowed values"@)
    } else if expected == Some("object"@) {
        object_violation(schema, value, path)
    } else {
        None
    }
}

/// What is wrong with `value` under an object's schema: a required key that is missing, then a key
/// that is not allowed, then what is wrong with the value of a property.
pub open spec fn object_violation(
    schema: JsonView,
    value: JsonView,
    path: Seq<char>,
) -> Option<Seq<char>>
    decreases schema, 0nat,
{
    proof {
        member_is_part(schema, "properties"@);
    }
    match value {
        JsonView::Object(members) => {
            let missing = match schema.array_member("required"@) {
                Some(required) => first_missing(required, members),
                None => None,
            };
            let properties = schema.object_member("properties"@);
            let unknown = if schema.member("additionalProperties"@) == Some(JsonView::Bool(false)) {
                first_unknown(members, properties)
            } else {
                None
            };
            if missing is Some {
                Some(path + "."@ + missing.unwrap() + " is required"@)
            } else if unknown is Some {
                Some(path + "."@ + unknown.unwrap() + " is not allowed"@)
            } else {
                match schema.member("properties"@) {
                    Some(JsonView::Object(properties)) => properties_violation(
                        properties,
                        members,
                        path,
                    ),
                    _ => None,
                }
            }
        },
        _ => Some(path + " must be object"@),
    }
}

/// What is wrong with the first value that its property's schema does not admit.
pub open spec fn properties_violation(
    properties: Seq<JsonMemberView>,
    members: Seq<JsonMemberView>,
    path: Seq<char>,
) -> Option<Seq<char>>
    decreases properties, 2nat,
{
    if properties.len() == 0 {
        None
    } else {
        let first = match found(members, properties[0].key) {
            Some(value) => violation(
                properties[0].value,
                value,
                path + "."@ + properties[0].key,
            ),
            None => None,
        };
        if first is Some {
            first
        } else {
            properties_violation(properties.drop_first(), members, path)
        }
    }
}

/// The outcome of a validation: success where nothing is wrong, and otherwise an error that says
/// what is.
pub open spec fn tells(result: Result<()>, tool: Seq<char>, fault: Option<Seq<char>>) -> bool {
    match fault {
        None => result is Ok,
        Some(message) => result is Err && result->Err_0@ == (ToolErrorView::InvalidArguments {
            tool,
            message,
        }),
    }
}

/// Holds `args` to a tool's schema; `$` names the whole.
pub fn validate_arguments(tool: &str, schema: &JsonValue, args: &JsonValue) -> (result: Result<()>)
    ensures
        tells(result, tool@, violation(schema@, args@, "$"@)),
{
    validate_value(tool, schema, args, "$")
}

fn invalid(tool: &str, message: String) -> (result: Result<()>)
    ensures
        tells(result, tool@, Some(message@)),
{
    Err(ToolError::InvalidArguments { tool: tool.to_owned(), message })
}

/// The text under `key` of a schema.
fn get_text<'a>(schema: &'a JsonValue, key: &str) -> (text: Option<&'a str>)
    ensures
        text is Some <==> schema@.text_member(key@) is Some,
        text matches Some(text) ==> schema@.text_member(key@) == Some(text@),
{
    match schema.get(key) {
        Some(value) => value.as_str(),
        None => None,
    }
}

/// Whether `value` is of the JSON type `name`.
fn type_matches(value: &JsonValue, name: &str) -> (matches: bool)
    ensures
        matches == has_type(value@, name@),
{
    if text_eq(name, "object") {
        matches!(value, JsonValue::Object(_))
    } else if text_eq(name, "array") {
        matches!(value, JsonValue::Array(_))
    } else if text_eq(name, "string") {
        matches!(value, JsonValue::Text(_))
    } else if text_eq(name, "number") {
        matches!(value, JsonValue::Number(_))
    } else if text_eq(name, "integer") {
        match value {
            JsonValue::Number(JsonNumber::PosInt(_)) => true,
            JsonValue::Number(JsonNumber::NegInt(_)) => true,
            _ => false,
        }
    } else if text_eq(name, "boolean") {
        matches!(value, JsonValue::Bool(_))
    } else if text_eq(name, "null") {
        matches!(value, JsonValue::Null)
    } else {
        true
    }
}

/// Whether `value` equals one of `options`.
fn contains_value(options: &Vec<JsonValue>, value: &JsonValue) -> (contains: bool)
    ensures
        contains == is_allowed(item_views(options@), value@),
{
    broadcast use item_views_index;

    let ghost all = item_views(options@);
    let mut i: usize = 0;
    while i < options.len()
        invariant
            i <= options@.len(),
            all == item_views(options@),
            all.len() == options@.len(),
            forall|j: int| 0 <= j < all.len() ==> #[trigger] all[j] == options@[j]@,
            forall|j: int| 0 <= j < i ==> !same_json(#[trigger] all[j], value@),
        decreases options@.len() - i,
    {
        if options[i].same(value) {
            assert(same_json(all[i as int], value@));
            return true;
        }
        assert(all[i as int] == options@[i as int]@);
        i = i + 1;
    }
    false
}

/// Holds `value`, which stands at `path`, to `schema`.
pub fn validate_value(
    tool: &str,
    schema: &JsonValue,
    value: &JsonValue,
    path: &str,
) -> (result: Result<()>)
    ensures
        tells(result, tool@, violation(schema@, value@, path@)),
    decreases schema, 1nat,
{
    let expected = get_text(schema, "type");
    if let Some(name) = expected {
        if !type_matches(value, name) {
            return invalid(tool, path.to_owned().concat(" must be ").concat(name));
        }
    }
    let options = match schema.get("enum") {
        Some(options) => options.as_array(),
        None => None,
    };
    if let Some(options) = options {
        if !contains_value(options, value) {
            return invalid(tool, path.to_owned().concat(" is not one of the allowed values"));
        }
    }
    if let Some(name) = expected {
        if text_eq(name, "object") {
            return validate_object(tool, schema, value, path);
        }
    }
    Ok(())
}

/// The first text of `required` that is no key of `members`.
fn find_missing<'a>(required: &'a Vec<JsonValue>, members: &Vec<JsonMember>) -> (field: Option<
    &'a str,
>)
    ensures
        match field {
            Some(field) => first_missing(item_views(required@), member_views(members@)) == Some(
                field@,
            ),
            None => first_missing(item_views(required@), member_views(members@)) is None,
        },
{
    let ghost all = item_views(required@);
    let ghost keys = member_views(members@);
    let mut i: usize = 0;
    proof {
        item_views_index(required@);
        assert(all.skip(0) =~= all);
    }
    while i < required.len()
        invariant
            i <= required@.len(),
            all == item_views(required@),
            all.len() == required@.len(),
            keys == member_views(members@),
            forall|j: int| 0 <= j < all.len() ==> #[trigger] all[j] == required@[j]@,
            first_missing(all, keys) == first_missing(all.skip(i as int), keys),
        decreases required@.len() - i,
    {
        assert(all.skip(i as int)[0] == required@[i as int]@);
        assert(all.skip(i as int).drop_first() =~= all.skip(i + 1));
        if let Some(field) = required[i].as_str() {
            if find_member(members, field).is_none() {
                return Some(field);
            }
        }
        i = i + 1;
    }
    None
}

/// The first key of `members` that is no key of `properties`.
fn find_unknown<'a>(members: &'a Vec<JsonMember>, properties: &Vec<JsonMember>) -> (key: Option<
    &'a str,
>)
    ensures
        match key {
            Some(key) => first_unknown(member_views(members@), member_views(properties@)) == Some(
                key@,
            ),
            None => first_unknown(member_views(members@), member_views(properties@)) is None,
        },
{
    let ghost all = member_views(members@);
    let ghost known = member_views(properties@);
    let mut i: usize = 0;
    proof {
        member_views_index(members@);
        assert(all.skip(0) =~= all);
    }
    while i < members.len()
        invariant
            i <= members@.len(),
            all == member_views(members@),
            all.len() == members@.len(),
            known == member_views(properties@),
            forall|j: int| 0 <= j < all.len() ==> #[trigger] all[j] == members@[j]@,
            first_unknown(all, known) == first_unknown(all.skip(i as int), known),
        decreases members@.len() - i,
    {
        assert(all.skip(i as int)[0] == members@[i as int]@);
        assert(all.skip(i as int).drop_first() =~= all.skip(i + 1));
        if find_member(properties, members[i].key.as_str()).is_none() {
            return Some(members[i].key.as_str());
        }
        i = i + 1;
    }
    None
}

/// Holds `value`, which stands at `path`, to an object's schema.
pub fn validate_object(
    tool: &str,
    schema: &JsonValue,
    value: &JsonValue,
    path: &str,
) -> (result: Result<()>)
    ensures
        tells(result, tool@, object_violation(schema@, value@, path@)),
    decreases schema, 0nat,
{
    let members = match value.as_object() {
        Some(members) => members,
        None => {
            return invalid(tool, path.to_owned().concat(" must be object"));
        },
    };
    let required = match schema.get("required") {
        Some(required) => required.as_array(),
        None => None,
    };
    if let Some(required) = required {
        if let Some(field) = find_missing(required, members) {
            return invalid(
                tool,
                path.to_owned().concat(".").concat(field).concat(" is required"),
            );
        }
    }
    let none: Vec<JsonMember> = Vec::new();
    let properties = match schema.get("properties") {
        Some(properties) => match properties.as_object() {
            Some(properties) => properties,
            None => &none,
        },
        None => &none,
    };
    assert(member_views(properties@) =~= schema@.object_member("properties"@));
    let closed = match schema.get("additionalProperties") {
        Some(JsonValue::Bool(allowed)) => !*allowed,
        _ => false,
    };
    if closed {
        if let Some(key) = find_unknown(members, properties) {
            return invalid(
                tool,
                path.to_owned().concat(".").concat(key).concat(" is not allowed"),
            );
        }
    }
    let ghost all = member_views(properties@);
    let ghost given = member_views(members@);
    let mut i: usize = 0;
    proof {
        member_views_index(properties@);
        assert(all.skip(0) =~= all);
    }
    while i < properties.len()
        invariant
            i <= properties@.len(),
            all.len() == properties@.len(),
            given == member_views(members@),
            forall|j: int| 0 <= j < all.len() ==> #[trigger] all[j] == properties@[j]@,
            properties_violation(all, given, path@) == properties_violation(
                all.skip(i as int),
                given,
                path@,
            ),
            object_violation(schema@, value@, path@) == properties_violation(all, given, path@),
            forall|j: int|
                0 <= j < properties@.len() ==> decreases_to!(*schema => (#[trigger] properties@[j]).value),
        decreases properties@.len() - i,
    {
        assert(all.skip(i as int)[0] == properties@[i as int]@);
        assert(all.skip(i as int).drop_first() =~= all.skip(i + 1));
        let property = &properties[i];
        if let Some(part) = find_member(members, property.key.as_str()) {
            let part_path = path.to_owned().concat(".").concat(property.key.as_str());
            validate_value(tool, &property.value, part, part_path.as_str())?;
        }
        i = i + 1;
    }
    Ok(())
}

/// Whether `schema` admits `value`.
pub open spec fn conforms(schema: JsonView, value: JsonView) -> bool
    decreases schema, 1nat,
{
    proof {
        member_is_part(schema, "properties"@);
    }
    let expected = schema.text_member("type"@);
    let options = schema.array_member("enum"@);
    &&& expected is Some ==> has_type(value, expected.unwrap())
    &&& options is Some ==> is_allowed(options.unwrap(), value)
    &&& expected == Some("object"@) ==> (match value {
        JsonView::Object(members) => {
            &&& schema.array_member("required"@) matches Some(required)
                ==> forall|i: int| #![trigger required[i]]
                    0 <= i < required.len() ==> (required[i] matches JsonView::Text(field)
                        ==> found(members, field) is Some)
            &&& schema.member("additionalProperties"@) == Some(JsonView::Bool(false))
                ==> forall|i: int|
                    0 <= i < members.len() ==> found(
                        schema.object_member("properties"@),
                        (#[trigger] members[i]).key,
                    ) is Some
            &&& (match schema.member("properties"@) {
                Some(JsonView::Object(properties)) => properties_conform(properties, members),
                _ => true,
            })
        },
        _ => false,
    })
}

/// Whether each property's schema admits the value under its key, where there is one.
pub open spec fn properties_conform(
    properties: Seq<JsonMemberView>,
    members: Seq<JsonMemberView>,
) -> bool
    decreases properties, 2nat,
{
    properties.len() == 0 || {
        &&& found(members, properties[0].key) matches Some(value) ==> conforms(
            properties[0].value,
            value,
        )
        &&& properties_conform(properties.drop_first(), members)
    }
}

proof fn nothing_missing(required: Seq<JsonView>, members: Seq<JsonMemberView>)
    ensures
        first_missing(required, members) is None <==> forall|i: int|
            #![trigger required[i]]
            0 <= i < required.len() ==> (required[i] matches JsonView::Text(field) ==> found(
                members,
                field,
            ) is Some),
    decreases required.len(),
{
    if required.len() > 0 {
        let rest = required.drop_first();
        nothing_missing(rest, members);
        if first_missing(required, members) is None {
            assert forall|i: int| #![trigger required[i]] 0 <= i < required.len() implies (
            required[i] matches JsonView::Text(field) ==> found(members, field) is Some) by {
                if i > 0 {
                    assert(rest[i - 1] == required[i]);
                }
            }
        } else if required[0] matches JsonView::Text(field) && found(members, field) is None {
            assert(!(required[0] matches JsonView::Text(field) ==> found(members, field) is Some));
        } else {
            let i = choose|i: int| #![trigger rest[i]]
                0 <= i < rest.len() && !(rest[i] matches JsonView::Text(field) ==> found(
                    members,
                    field,
                ) is Some);
            assert(required[i + 1] == rest[i]);
        }
    }
}

proof fn nothing_unknown(members: Seq<JsonMemberView>, properties: Seq<JsonMemberView>)
    ensures
        first_unknown(members, properties) is None <==> forall|i: int|
            0 <= i < members.len() ==> found(properties, (#[trigger] members[i]).key) is Some,
    decreases members.len(),
{
    if members.len() > 0 {
        let rest = members.drop_first();
        nothing_unknown(rest, properties);
        if first_unknown(members, properties) is None {
            assert forall|i: int| 0 <= i < members.len() implies found(
                properties,
                (#[trigger] members[i]).key,
            ) is Some by {
                if i > 0 {
                    assert(rest[i - 1] == members[i]);
                }
            }
        } else if found(properties, members[0].key) is Some {
            let i = choose|i: int|
                0 <= i < rest.len() && found(properties, (#[trigger] rest[i]).key) is None;
            assert(members[i + 1] == rest[i]);
        }
    }
}

/// A value is found at fault exactly where its schema does not admit it, whatever the path.
pub proof fn fault_means_not_admitted(schema: JsonView, value: JsonView, path: Seq<char>)
    ensures
        violation(schema, value, path) is None <==> conforms(schema, value),
    decreases schema, 1nat,
{
    member_is_part(schema, "properties"@);
    if schema.text_member("type"@) == Some("object"@) {
        if let JsonView::Object(members) = value {
            if let Some(required) = schema.array_member("required"@) {
                nothing_missing(required, members);
            }
            nothing_unknown(members, schema.object_member("properties"@));
            if let Some(JsonView::Object(properties)) = schema.member("properties"@) {
                properties_fault_means_not_admitted(properties, members, path);
            }
        }
    }
}

proof fn properties_fault_means_not_admitted(
    properties: Seq<JsonMemberView>,
    members: Seq<JsonMemberView>,
    path: Seq<char>,
)
    ensures
        properties_violation(properties, members, path) is None <==> properties_conform(
            properties,
            members,
        ),
    decreases properties, 2nat,
{
    if properties.len() > 0 {
        if let Some(value) = found(members, properties[0].key) {
            fault_means_not_admitted(
                properties[0].value,
                value,
                path + "."@ + properties[0].key,
            );
        }
        properties_fault_means_not_admitted(properties.drop_first(), members, path);
    }
}

/// The name of the type that a value is of.
pub open spec fn own_type(value: JsonView) -> Seq<char> {
    match value {
        JsonView::Null => "null"@,
        JsonView::Bool(_) => "boolean"@,
        JsonView::Number(_) => "number"@,
        JsonView::Text(_) => "string"@,
        JsonView::Array(_) => "array"@,
        JsonView::Object(_) => "object"@,
    }
}

proof fn type_names_differ()
    ensures
        "object"@ != "string"@,
        "object"@ != "number"@,
        "string"@ != "number"@,
        "integer"@ != "boolean"@,
        "object"@.len() == 6,
        "string"@.len() == 6,
        "number"@.len() == 6,
        "integer"@.len() == 7,
        "boolean"@.len() == 7,
        "array"@.len() == 5,
        "null"@.len() == 4,
{
    reveal_strlit("object");
    reveal_strlit("string");
    reveal_strlit("number");
    reveal_strlit("integer");
    reveal_strlit("boolean");
    reveal_strlit("array");
    reveal_strlit("null");
    assert("object"@[0] == 'o' && "string"@[0] == 's' && "number"@[0] == 'n');
    assert("integer"@[0] == 'i' && "boolean"@[0] == 'b');
}

/// A value is of one type, and an integer also of another: of the types that there are, a value is
/// of the one that is its own, and of the integers exactly where it is a number without a fraction.
/// A name that is no type holds of every value.
pub proof fn a_value_is_of_its_type(value: JsonView, other: JsonView, name: Seq<char>)
    ensures
        has_type(value, own_type(other)) <==> own_type(value) == own_type(other),
        own_type(value) == own_type(other) <==> (value is Null && other is Null) || (value is Bool
            && other is Bool) || (value is Number && other is Number) || (value is Text && other
            is Text) || (value is Array && other is Array) || (value is Object && other is Object),
        has_type(value, "integer"@) <==> (value is Number && value->Number_0 is Int),
        (forall|any: JsonView| own_type(any) != name) && name != "integer"@ ==> has_type(
            value,
            name,
        ),
{
    type_names_differ();
    if (forall|any: JsonView| own_type(any) != name) && name != "integer"@ {
        assert(own_type(JsonView::Null) != name);
        assert(own_type(JsonView::Bool(true)) != name);
        assert(own_type(JsonView::Number(JsonNumberView::Int(0))) != name);
        assert(own_type(JsonView::Text(name)) != name);
        assert(own_type(JsonView::Array(Seq::empty())) != name);
        assert(own_type(JsonView::Object(Seq::empty())) != name);
    }
}

/// The required field that is told to be missing is the first one that is, and the key that is told
/// not to be allowed is the first one that no property has.
pub proof fn the_first_fault_is_told(
    required: Seq<JsonView>,
    members: Seq<JsonMemberView>,
    properties: Seq<JsonMemberView>,
)
    ensures
        first_missing(required, members) matches Some(field) ==> found(members, field) is None
            && exists|i: int|
            #![trigger required[i]]
            0 <= i < required.len() && required[i] == JsonView::Text(field) && forall|j: int|
                #![trigger required[j]]
                0 <= j < i && required[j] is Text ==> found(members, required[j]->Text_0) is Some,
        first_unknown(members, properties) matches Some(key) ==> found(properties, key) is None
            && exists|i: int|
            0 <= i < members.len() && (#[trigger] members[i]).key == key && forall|j: int|
                0 <= j < i ==> found(properties, (#[trigger] members[j]).key) is Some,
{
    first_missing_has_place(required, members);
    first_unknown_has_place(members, properties);
}

proof fn first_missing_has_place(required: Seq<JsonView>, members: Seq<JsonMemberView>)
    ensures
        first_missing(required, members) matches Some(field) ==> found(members, field) is None
            && exists|i: int|
            #![trigger required[i]]
            0 <= i < required.len() && required[i] == JsonView::Text(field) && forall|j: int|
                #![trigger required[j]]
                0 <= j < i && required[j] is Text ==> found(members, required[j]->Text_0) is Some,
    decreases required.len(),
{
    if let Some(field) = first_missing(required, members) {
        if required[0] is Text && found(members, required[0]->Text_0) is None {
            assert(required[0] == JsonView::Text(field));
        } else {
            let rest = required.drop_first();
            first_missing_has_place(rest, members);
            let i = choose|i: int|
                #![trigger rest[i]]
                0 <= i < rest.len() && rest[i] == JsonView::Text(field) && forall|j: int|
                    #![trigger rest[j]]
                    0 <= j < i && rest[j] is Text ==> found(members, rest[j]->Text_0) is Some;
            assert(required[i + 1] == JsonView::Text(field));
            assert forall|j: int|
                #![trigger required[j]]
                0 <= j < i + 1 && required[j] is Text implies found(
                members,
                required[j]->Text_0,
            ) is Some by {
                if j > 0 {
                    assert(rest[j - 1] == required[j]);
                }
            }
        }
    }
}

proof fn first_unknown_has_place(members: Seq<JsonMemberView>, properties: Seq<JsonMemberView>)
    ensures
        first_unknown(members, properties) matches Some(key) ==> found(properties, key) is None
            && exists|i: int|
            0 <= i < members.len() && (#[trigger] members[i]).key == key && forall|j: int|
                0 <= j < i ==> found(properties, (#[trigger] members[j]).key) is Some,
    decreases members.len(),
{
    if let Some(key) = first_unknown(members, properties) {
        if found(properties, members[0].key) is None {
            assert(members[0].key == key);
        } else {
            let rest = members.drop_first();
            first_unknown_has_place(rest, properties);
            let i = choose|i: int|
                0 <= i < rest.len() && (#[trigger] rest[i]).key == key && forall|j: int|
                    0 <= j < i ==> found(properties, (#[trigger] rest[j]).key) is Some;
            assert(members[i + 1].key == key);
            assert forall|j: int| 0 <= j < i + 1 implies found(
                properties,
                (#[trigger] members[j]).key,
            ) is Some by {
                if j > 0 {
                    assert(rest[j - 1] == members[j]);
                }
            }
        }
    }
}

/// What is told of a fault begins with the place of the value, and depends on it in nothing else:
/// where the value stands does not matter to whether it is at fault, nor to which fault is told.
pub proof fn a_fault_is_told_by_its_place(schema: JsonView, value: JsonView, path: Seq<char>)
    ensures
        violation(schema, value, path) == (match violation(schema, value, Seq::empty()) {
            Some(message) => Some(path + message),
            None => None,
        }),
    decreases schema, 1nat,
{
    member_is_part(schema, "properties"@);
    let none = Seq::<char>::empty();
    let expected = schema.text_member("type"@);
    if expected is Some {
        assert(path + (none + " must be "@ + expected.unwrap()) =~= path + " must be "@
            + expected.unwrap());
    }
    assert(path + (none + " is not one of the allowed values"@) =~= path
        + " is not one of the allowed values"@);
    assert(path + (none + " must be object"@) =~= path + " must be object"@);
    if let JsonView::Object(members) = value {
        if let Some(required) = schema.array_member("required"@) {
            if let Some(field) = first_missing(required, members) {
                assert(path + (none + "."@ + field + " is required"@) =~= path + "."@ + field
                    + " is required"@);
            }
        }
        if let Some(key) = first_unknown(members, schema.object_member("properties"@)) {
            assert(path + (none + "."@ + key + " is not allowed"@) =~= path + "."@ + key
                + " is not allowed"@);
        }
        if let Some(JsonView::Object(properties)) = schema.member("properties"@) {
            a_property_fault_is_told_by_its_place(properties, members, path);
        }
    }
}

proof fn a_property_fault_is_told_by_its_place(
    properties: Seq<JsonMemberView>,
    members: Seq<JsonMemberView>,
    path: Seq<char>,
)
    ensures
        properties_violation(properties, members, path) == (match properties_violation(
            properties,
            members,
            Seq::empty(),
        ) {
            Some(message) => Some(path + message),
            None => None,
        }),
    decreases properties, 2nat,
{
    if properties.len() > 0 {
        let none = Seq::<char>::empty();
        let key = properties[0].key;
        if let Some(value) = found(members, key) {
            let schema = properties[0].value;
            a_fault_is_told_by_its_place(schema, value, path + "."@ + key);
            a_fault_is_told_by_its_place(schema, value, none + "."@ + key);
            if let Some(message) = violation(schema, value, none) {
                assert(path + (none + "."@ + key + message) =~= path + "."@ + key + message);
            }
        }
        a_property_fault_is_told_by_its_place(properties.drop_first(), members, path);
    }
}

/// What is told of each fault: a value of another type than the schema's, one that is not among those
/// allowed, a required field that is missing, and a key that is not allowed, in this order.
pub proof fn each_fault_is_told(
    schema: JsonView,
    value: JsonView,
    path: Seq<char>,
    name: Seq<char>,
    options: Seq<JsonView>,
)
    requires
        schema.text_member("type"@) == Some(name),
    ensures
        !has_type(value, name) ==> violation(schema, value, path) == Some(
            path + " must be "@ + name,
        ),
        has_type(value, name) && schema.array_member("enum"@) == Some(options) && !is_allowed(
            options,
            value,
        ) ==> violation(schema, value, path) == Some(path + " is not one of the allowed values"@),
        name == "object"@ && value is Object && schema.array_member("enum"@) is None ==> ({
            let members = value->Object_0;
            let required = match schema.array_member("required"@) {
                Some(required) => required,
                None => Seq::empty(),
            };
            let strict = schema.member("additionalProperties"@) == Some(JsonView::Bool(false));
            let unknown = first_unknown(members, schema.object_member("properties"@));
            &&& first_missing(required, members) matches Some(field) ==> violation(
                schema,
                value,
                path,
            ) == Some(path + "."@ + field + " is required"@)
            &&& first_missing(required, members) is None && strict && unknown is Some ==> violation(
                schema,
                value,
                path,
            ) == Some(path + "."@ + unknown->0 + " is not allowed"@)
        }),
{
    type_names_differ();
}

/// Of the properties that a schema has, the first one at fault is told, at its key.
pub proof fn the_first_property_at_fault_is_told(
    properties: Seq<JsonMemberView>,
    members: Seq<JsonMemberView>,
    path: Seq<char>,
    i: int,
)
    requires
        0 <= i < properties.len(),
        forall|j: int|
            0 <= j < i ==> (found(members, (#[trigger] properties[j]).key) matches Some(value)
                ==> conforms(properties[j].value, value)),
        found(members, properties[i].key) is Some,
        !conforms(properties[i].value, found(members, properties[i].key)->0),
    ensures
        properties_violation(properties, members, path) is Some,
        properties_violation(properties, members, path) == violation(
            properties[i].value,
            found(members, properties[i].key)->0,
            path + "."@ + properties[i].key,
        ),
    decreases i,
{
    let first = properties[0];
    if let Some(value) = found(members, first.key) {
        fault_means_not_admitted(first.value, value, path + "."@ + first.key);
    }
    if i > 0 {
        let rest = properties.drop_first();
        assert(found(members, properties[0].key) matches Some(value) ==> conforms(
            properties[0].value,
            value,
        ));
        assert forall|j: int| 0 <= j < i - 1 implies (found(
            members,
            (#[trigger] rest[j]).key,
        ) matches Some(value) ==> conforms(rest[j].value, value)) by {
            assert(rest[j] == properties[j + 1]);
        }
        assert(rest[i - 1] == properties[i]);
        the_first_property_at_fault_is_told(rest, members, path, i - 1);
    }
}

/// The properties of an object are admitted exactly where each value under a property's key is
/// admitted by that property's schema.
pub proof fn each_property_is_held_to_its_schema(
    properties: Seq<JsonMemberView>,
    members: Seq<JsonMemberView>,
)
    ensures
        properties_conform(properties, members) <==> forall|i: int|
            0 <= i < properties.len() ==> (found(members, (#[trigger] properties[i]).key) matches Some(
                value,
            ) ==> conforms(properties[i].value, value)),
    decreases properties.len(),
{
    if properties.len() > 0 {
        let rest = properties.drop_first();
        each_property_is_held_to_its_schema(rest, members);
        if properties_conform(properties, members) {
            assert forall|i: int| 0 <= i < properties.len() implies (found(
                members,
                (#[trigger] properties[i]).key,
            ) matches Some(value) ==> conforms(properties[i].value, value)) by {
                if i > 0 {
                    assert(rest[i - 1] == properties[i]);
                }
            }
        }
        if forall|i: int|
            0 <= i < properties.len() ==> (found(
                members,
                (#[trigger] properties[i]).key,
            ) matches Some(value) ==> conforms(properties[i].value, value)) {
            assert(found(members, properties[0].key) matches Some(value) ==> conforms(
                properties[0].value,
                value,
            ));
            assert forall|i: int| 0 <= i < rest.len() implies (found(
                members,
                (#[trigger] rest[i]).key,
            ) matches Some(value) ==> conforms(rest[i].value, value)) by {
                assert(rest[i] == properties[i + 1]);
            }
        }
    }
}

} // verus!
