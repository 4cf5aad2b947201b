use todo_service::json::{todo_json, todo_list_json};
use todo_service::num::{i32_to_string, parse_i32};
use todo_service::todo::Todo;

fn todo(id: i32, content: &str) -> Todo {
    Todo { id, content: content.to_string() }
}

#[test]
fn todo_json_plain() {
    let t = todo(1, "buy milk");
    assert_eq!(todo_json(&t), "{\"id\":1,\"content\":\"buy milk\"}");
}

#[test]
fn todo_json_negative_id() {
    let t = todo(-12, "x");
    assert_eq!(todo_json(&t), "{\"id\":-12,\"content\":\"x\"}");
}

#[test]
fn todo_json_escapes_quote_and_backslash() {
    let t = todo(3, "a\"b\\c");
    assert_eq!(todo_json(&t), "{\"id\":3,\"content\":\"a\\\"b\\\\c\"}");
}

#[test]
fn todo_json_escapes_controls() {
    let t = todo(4, "a\nb\tc\u{1}d\u{1f}e");
    assert_eq!(
        todo_json(&t),
        "{\"id\":4,\"content\":\"a\\nb\\tc\\u0001d\\u001fe\"}"
    );
}

#[test]
fn todo_json_keeps_unicode_raw() {
    let t = todo(5, "caf\u{e9} \u{1F600}");
    assert_eq!(todo_json(&t), "{\"id\":5,\"content\":\"caf\u{e9} \u{1F600}\"}");
}

#[test]
fn todo_json_matches_serde() {
    let cases = vec![
        (1, "buy milk".to_string()),
        (2, "a\"b\\c/d".to_string()),
        (3, "line\nbreak\r\ttab \u{8}\u{c}".to_string()),
        (4, "ctrl \u{1}\u{1f}\u{7f}".to_string()),
        (-5, "caf\u{e9} \u{1F600}".to_string()),
        (0, "".to_string()),
    ];
    for (id, content) in cases {
        let mine = todo_json(&todo(id, &content));
        let parsed: serde_json::Value = serde_json::from_str(&mine).expect("own output must parse");
        assert_eq!(parsed["id"].as_i64().unwrap(), id as i64);
        assert_eq!(parsed["content"].as_str().unwrap(), content);
    }
}

#[test]
fn todo_list_json_empty() {
    let ts: Vec<Todo> = Vec::new();
    assert_eq!(todo_list_json(&ts), "[]");
}

#[test]
fn todo_list_json_two_items() {
    let ts = vec![todo(1, "a"), todo(2, "b")];
    assert_eq!(
        todo_list_json(&ts),
        "[{\"id\":1,\"content\":\"a\"},{\"id\":2,\"content\":\"b\"}]"
    );
}

#[test]
fn i32_to_string_cases() {
    assert_eq!(i32_to_string(0), "0");
    assert_eq!(i32_to_string(7), "7");
    assert_eq!(i32_to_string(10), "10");
    assert_eq!(i32_to_string(1234567890), "1234567890");
    assert_eq!(i32_to_string(-1), "-1");
    assert_eq!(i32_to_string(i32::MAX), "2147483647");
    assert_eq!(i32_to_string(i32::MIN), "-2147483648");
}

#[test]
fn parse_i32_accepts_what_std_accepts() {
    assert_eq!(parse_i32("0"), Some(0));
    assert_eq!(parse_i32("123"), Some(123));
    assert_eq!(parse_i32("+5"), Some(5));
    assert_eq!(parse_i32("-0"), Some(0));
    assert_eq!(parse_i32("007"), Some(7));
    assert_eq!(parse_i32("2147483647"), Some(i32::MAX));
    assert_eq!(parse_i32("-2147483648"), Some(i32::MIN));
}

#[test]
fn parse_i32_rejects_what_std_rejects() {
    assert_eq!(parse_i32(""), None);
    assert_eq!(parse_i32("-"), None);
    assert_eq!(parse_i32("+"), None);
    assert_eq!(parse_i32("12a"), None);
    assert_eq!(parse_i32("a12"), None);
    assert_eq!(parse_i32(" 12"), None);
    assert_eq!(parse_i32("1.5"), None);
    assert_eq!(parse_i32("--4"), None);
    assert_eq!(parse_i32("2147483648"), None);
    assert_eq!(parse_i32("-2147483649"), None);
    assert_eq!(parse_i32("99999999999999999999"), None);
}

#[test]
fn parse_i32_agrees_with_std_on_samples() {
    let samples = [
        "0", "1", "-1", "+42", "2147483647", "2147483648", "-2147483648", "-2147483649", "", "-",
        "007", "12a", "\u{665}3",
    ];
    for s in samples {
        assert_eq!(parse_i32(s), s.parse::<i32>().ok(), "sample {:?}", s);
    }
}
