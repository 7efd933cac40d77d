use ai_runtime::json::{array_of, member, object_of, text_value};
use ai_runtime::stats::sort;
use ai_runtime::streams::{ActiveStreamLease, StreamCounter};
use ai_runtime::text::{
    decimal_text, is_before, join, parse_number, split_inclusive, text_eq, trim, trim_end_char,
};
use ai_runtime::{Duration, JsonNumber, JsonValue};

#[test]
fn json_text_is_compact_and_escaped() {
    let value = object_of(vec![
        member("z", array_of(vec![JsonValue::Null, JsonValue::Bool(true)])),
        member("a", text_value("q\"\\\n\u{1}\u{e9}")),
        member("n", JsonValue::Number(JsonNumber::NegInt(-9_223_372_036_854_775_808))),
        member("u", JsonValue::Number(JsonNumber::PosInt(18_446_744_073_709_551_615))),
    ]);
    assert_eq!(
        value.to_text(),
        "{\"a\":\"q\\\"\\\\\\n\\u0001\u{e9}\",\"n\":-9223372036854775808,\"u\":18446744073709551615,\"z\":[null,true]}"
    );
    let read: serde_json::Value = serde_json::from_str(&value.to_text()).expect("text is JSON");
    assert_eq!(read.to_string(), value.to_text());
}

#[test]
fn objects_are_ordered_and_keep_the_last_value() {
    let value = object_of(vec![
        member("b", text_value("1")),
        member("a", text_value("2")),
        member("b", text_value("3")),
    ]);
    assert_eq!(value.to_text(), "{\"a\":\"2\",\"b\":\"3\"}");
    assert!(value.get("b").expect("member").same(&text_value("3")));
    assert!(value.get("c").is_none());
    assert!(JsonValue::Null.get("a").is_none());
    assert!(value.same(&value.clone()));
}

#[test]
fn objects_are_equal_whatever_the_order_of_their_members() {
    let a = || member("a", text_value("1"));
    let b = || member("b", text_value("2"));
    let object = |members| JsonValue::Object(members);
    assert!(object(vec![a(), b()]).same(&object(vec![b(), a()])));
    assert!(object(vec![a(), b()]).same(&object_of(vec![b(), a()])));
    assert!(!object(vec![a(), b()]).same(&object(vec![a()])));
    assert!(!object(vec![a()]).same(&object(vec![a(), b()])));
    assert!(!object(vec![a()]).same(&object(vec![b()])));
    assert!(!object(vec![a()]).same(&object(vec![member("a", text_value("2"))])));
    assert!(object(vec![a(), member("a", text_value("2"))]).same(&object(vec![a()])));
    assert!(object(Vec::new()).same(&object(Vec::new())));
    assert!(!object(Vec::new()).same(&array_of(Vec::new())));
}

#[test]
fn every_control_character_is_escaped() {
    let hex = "0123456789abcdef".as_bytes();
    for code in 0..0x80_u32 {
        let c = char::from_u32(code).expect("ASCII");
        let expected = match c {
            '"' => "\\\"".to_string(),
            '\\' => "\\\\".to_string(),
            '\u{8}' => "\\b".to_string(),
            '\t' => "\\t".to_string(),
            '\n' => "\\n".to_string(),
            '\u{c}' => "\\f".to_string(),
            '\r' => "\\r".to_string(),
            c if code < 32 => format!(
                "\\u00{}{}",
                hex[code as usize / 16] as char,
                hex[c as usize % 16] as char
            ),
            c => c.to_string(),
        };
        assert_eq!(text_value(&c.to_string()).to_text(), format!("\"{expected}\""));
    }
}

#[test]
fn integers_and_fractions_are_different_numbers() {
    let float = |text: &str| JsonNumber::Float(text.to_string());
    assert!(JsonNumber::PosInt(5).same(&JsonNumber::NegInt(5)));
    assert!(!JsonNumber::PosInt(5).same(&JsonNumber::NegInt(-5)));
    assert!(!JsonNumber::PosInt(5).same(&float("5.0")));
    assert!(float("0.0").same(&float("-0.0")));
    assert!(!float("1.5").same(&float("2.5")));
}

#[test]
fn decimal_texts_round_trip() {
    for n in [0, 7, 10, 4_294_967_296, u64::MAX] {
        assert_eq!(decimal_text(n as u128), n.to_string());
        assert_eq!(parse_number(&n.to_string(), u64::MAX), Some(n));
    }
    assert_eq!(decimal_text(u128::MAX), u128::MAX.to_string());
    assert_eq!(parse_number("+12", 12), Some(12));
    assert_eq!(parse_number("0012", 12), Some(12));
    assert_eq!(parse_number("13", 12), None);
    assert_eq!(parse_number("18446744073709551616", u64::MAX), None);
    for bad in ["", "+", "-1", " 1", "1a", "++1"] {
        assert_eq!(parse_number(bad, u64::MAX), None);
    }
}

#[test]
fn texts_are_cut_and_joined() {
    assert_eq!(trim(" \u{3000}a b\t\n"), "a b");
    assert_eq!(trim("\u{200b}x"), "\u{200b}x");
    assert_eq!(trim(" \n"), "");
    assert_eq!(trim_end_char("a//b//", '/'), "a//b");
    assert_eq!(split_inclusive("a b ", ' '), vec!["a ", "b "]);
    assert_eq!(split_inclusive("", ' '), Vec::<String>::new());
    assert_eq!(join(&vec!["a".to_string(), "b".to_string()], ", "), "a, b");
    assert!(text_eq("a", "a"));
    assert!(!text_eq("a", "ab"));
    assert!(is_before("a", "ab"));
    assert!(is_before("Z", "a"));
    assert!(!is_before("b", "ab"));
}

#[test]
fn white_space_is_that_of_unicode() {
    for code in 0..=0x10ffff_u32 {
        if let Some(c) = char::from_u32(code) {
            assert_eq!(ai_runtime::text::is_white_space(c), c.is_whitespace());
        }
    }
}

#[test]
fn spans_of_time_are_exact() {
    assert_eq!(Duration::from_millis(1_234).as_secs(), 1);
    assert_eq!(Duration::from_millis(1_234).subsec_nanos(), 234_000_000);
    assert_eq!(Duration::from_secs(2).as_millis(), 2_000);
    assert_eq!(Duration::from_parts(1, 999_999_999).map(|span| span.as_millis()), Some(1_999));
    assert!(Duration::from_parts(0, 1_000_000_000).is_none());
}

#[test]
fn samples_are_put_in_order() {
    assert_eq!(sort(&vec![3, 1, 2, 1]), vec![1, 1, 2, 3]);
    assert_eq!(sort(&Vec::new()), Vec::<u128>::new());
}

#[test]
fn leases_are_given_back_once() {
    let mut counter = StreamCounter::new();
    let mut first = ActiveStreamLease::new(&mut counter);
    let mut second = ActiveStreamLease::new(&mut counter);
    assert_eq!(counter.count(), 2);
    first.release(&mut counter);
    first.release(&mut counter);
    assert_eq!(counter.count(), 1);
    second.release(&mut counter);
    assert_eq!(counter.count(), 0);
}
