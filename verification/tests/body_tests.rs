use todo_service::body::parse_content_body;

#[test]
fn body_plain() {
    assert_eq!(
        parse_content_body("{\"content\":\"buy milk\"}").as_deref(),
        Some("buy milk")
    );
}

#[test]
fn body_whitespace_everywhere() {
    assert_eq!(
        parse_content_body(" \t\r\n{ \"content\" :\n\"x\" } \n").as_deref(),
        Some("x")
    );
}

#[test]
fn body_empty_content() {
    assert_eq!(parse_content_body("{\"content\":\"\"}").as_deref(), Some(""));
}

#[test]
fn body_short_escapes() {
    assert_eq!(
        parse_content_body("{\"content\":\"a\\\"b\\\\c\\/d\\ne\\tf\\rg\\bh\\fi\"}").as_deref(),
        Some("a\"b\\c/d\ne\tf\rg\u{8}h\u{c}i")
    );
}

#[test]
fn body_unicode_escapes() {
    assert_eq!(
        parse_content_body("{\"content\":\"\\u0041\\u00e9\\u6c34\"}").as_deref(),
        Some("A\u{e9}\u{6c34}")
    );
    assert_eq!(
        parse_content_body("{\"content\":\"\\uD83D\\uDE00\"}").as_deref(),
        Some("\u{1F600}")
    );
    assert_eq!(
        parse_content_body("{\"content\":\"\\ud83d\\ude00\"}").as_deref(),
        Some("\u{1F600}")
    );
}

#[test]
fn body_raw_unicode() {
    assert_eq!(
        parse_content_body("{\"content\":\"caf\u{e9} \u{1F600}\"}").as_deref(),
        Some("caf\u{e9} \u{1F600}")
    );
}

#[test]
fn body_rejects_lone_surrogates() {
    assert_eq!(parse_content_body("{\"content\":\"\\uD800\"}"), None);
    assert_eq!(parse_content_body("{\"content\":\"\\uDC00\"}"), None);
    assert_eq!(parse_content_body("{\"content\":\"\\uD83Dx\"}"), None);
}

#[test]
fn body_rejects_malformed() {
    assert_eq!(parse_content_body(""), None);
    assert_eq!(parse_content_body("{}"), None);
    assert_eq!(parse_content_body("[]"), None);
    assert_eq!(parse_content_body("{\"content\":}"), None);
    assert_eq!(parse_content_body("{\"content\":42}"), None);
    assert_eq!(parse_content_body("{\"content\":\"x\""), None);
    assert_eq!(parse_content_body("{\"content\":\"x\"} junk"), None);
    assert_eq!(parse_content_body("{\"content\":\"x\",\"y\":\"z\"}"), None);
    assert_eq!(parse_content_body("{\"other\":\"x\"}"), None);
    assert_eq!(parse_content_body("{\"content\":\"unterminated}"), None);
    assert_eq!(parse_content_body("{\"content\":\"bad\\qescape\"}"), None);
    assert_eq!(parse_content_body("{\"content\":\"bad\\u12g4\"}"), None);
    assert_eq!(parse_content_body("{\"content\":\"raw\ncontrol\"}"), None);
}

#[test]
fn body_agrees_with_serde_rendering() {
    let contents = [
        "buy milk",
        "",
        "a\"b\\c/d",
        "line\nbreak\ttab\r\u{8}\u{c}",
        "ctrl \u{1}\u{1f}",
        "caf\u{e9} \u{1F600}",
    ];
    for content in contents {
        let mut obj = serde_json::Map::new();
        obj.insert(
            "content".to_string(),
            serde_json::Value::String(content.to_string()),
        );
        let body = serde_json::to_string(&serde_json::Value::Object(obj)).unwrap();
        assert_eq!(parse_content_body(&body).as_deref(), Some(content), "body {:?}", body);
    }
}
