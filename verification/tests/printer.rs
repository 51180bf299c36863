use crawler_core::printer::{format_value, pretty_printer, JsonMember, JsonValue};

fn member(key: &str, value: JsonValue) -> JsonMember {
    JsonMember { key: key.to_string(), value }
}

fn text(s: &str) -> JsonValue {
    JsonValue::Text(s.to_string())
}

fn number(s: &str) -> JsonValue {
    JsonValue::Number(s.to_string())
}

#[test]
fn plain_values() {
    assert_eq!(pretty_printer(JsonValue::Null), "null");
    assert_eq!(pretty_printer(JsonValue::Bool(true)), "true");
    assert_eq!(pretty_printer(JsonValue::Bool(false)), "false");
    assert_eq!(pretty_printer(number("12.5")), "12.5");
    assert_eq!(pretty_printer(text("hello")), "hello");
    assert_eq!(pretty_printer(JsonValue::Array(vec![])), "");
    assert_eq!(pretty_printer(JsonValue::Object(vec![])), "");
}

#[test]
fn flat_object_is_a_list() {
    let v = JsonValue::Object(vec![member("a", number("1")), member("b", text("x"))]);
    assert_eq!(pretty_printer(v), "├─ a: 1\n└─ b: x\n");
}

#[test]
fn nested_values_are_indented() {
    let v = JsonValue::Object(vec![
        member("a", JsonValue::Object(vec![member("b", JsonValue::Bool(true))])),
        member(
            "c",
            JsonValue::Array(vec![
                number("1"),
                JsonValue::Array(vec![number("2")]),
                JsonValue::Object(vec![]),
            ]),
        ),
    ]);
    assert_eq!(
        pretty_printer(v),
        "├─ a: \n│  └─ b: true\n└─ c: \n│  ├─ 1\n│  ├─ \n│  │  └─ 2\n│  └─ \n"
    );
}

#[test]
fn single_object_member_is_boxed() {
    let v = JsonValue::Object(vec![member(
        "Title",
        JsonValue::Object(vec![
            member("k", text("v")),
            member("list", JsonValue::Array(vec![number("1")])),
            member("n", JsonValue::Null),
        ]),
    )]);
    let expected = format!(
        "╭─ Title {}\n├─ k: v\n├─ list: \n│  └─ 1\n╰─ n: null\n╰{}\n",
        "─".repeat(47),
        "─".repeat(59)
    );
    assert_eq!(pretty_printer(v), expected);
}

#[test]
fn long_title_gets_no_rule() {
    let title = "t".repeat(70);
    let v = JsonValue::Object(vec![member(&title, JsonValue::Object(vec![]))]);
    let expected = format!("╭─ {} \n╰{}\n", title, "─".repeat(59));
    assert_eq!(pretty_printer(v), expected);
}

#[test]
fn rule_is_measured_on_the_last_line_of_the_title() {
    let v = JsonValue::Object(vec![member("first\nsecond", JsonValue::Object(vec![]))]);
    let expected = format!("╭─ first\nsecond {}\n╰{}\n", "─".repeat(53), "─".repeat(59));
    assert_eq!(pretty_printer(v), expected);
}

#[test]
fn single_plain_member_is_not_boxed() {
    let v = JsonValue::Object(vec![member("only", text("one"))]);
    assert_eq!(pretty_printer(v), "└─ only: one\n");
}

#[test]
fn format_value_appends_at_depth() {
    let mut out = String::from(">");
    format_value(&JsonValue::Array(vec![text("a"), text("b")]), &mut out, 2);
    assert_eq!(out, ">│  │  ├─ a\n│  │  └─ b\n");
}
