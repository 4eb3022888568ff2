use bunyan_view::{EntryWriter, FieldValue, LeftoverField, LogEntry, LogLevel, StyledWriter, Timestamp};

fn base_time() -> Timestamp {
    Timestamp {
        year: 2024,
        month: 1,
        day: 2,
        hour: 3,
        minute: 4,
        second: 5,
        millisecond: 6,
        offset_negative: false,
        offset_hours: 0,
        offset_minutes: 0,
    }
}

fn entry_with(leftover: Vec<LeftoverField>) -> LogEntry {
    LogEntry {
        version: 0,
        level: LogLevel::Info,
        name: "svc".to_string(),
        hostname: String::new(),
        pid: 42,
        time: base_time(),
        message: "started".to_string(),
        leftover,
    }
}

fn text_field(key: &str, value: &str) -> LeftoverField {
    LeftoverField { key: key.to_string(), value: FieldValue::Text(value.to_string()) }
}

fn render(entry: &LogEntry, stylize: bool) -> String {
    let formatter = EntryWriter::new();
    let mut writer = StyledWriter::new(stylize);
    formatter.write_formatted(&mut writer, entry);
    writer.flush()
}

#[test]
fn end_to_end_plain() {
    let entry = entry_with(vec![text_field("foo", "bar")]);
    let out = render(&entry, false);
    assert_eq!(
        out.as_str(),
        "[2024-01-02T03:04:05.006+00:00]  INFO: svc/42 on <no-hostname>: started (foo=bar)"
    );
}

#[test]
fn end_to_end_styled() {
    let entry = entry_with(vec![text_field("foo", "bar")]);
    let out = render(&entry, true);
    assert_eq!(
        out.as_str(),
        "[\x1b[37m2024-01-02T03:04:05.006+00:00\x1b[39m] \x1b[36m INFO\x1b[39m: svc/42 on \
         <no-hostname>: \x1b[36mstarted\x1b[39m (\x1b[1mfoo\x1b[22m=bar)"
    );
}

#[test]
fn formatting_is_deterministic() {
    let entry = entry_with(vec![
        text_field("foo", "bar"),
        text_field("stack", "line1\nline2"),
    ]);
    let first = render(&entry, true);
    let second = render(&entry, true);
    assert_eq!(first, second);
}

#[test]
fn hostname_is_shown_when_present() {
    let mut entry = entry_with(vec![]);
    entry.hostname = "box1".to_string();
    let out = render(&entry, false);
    assert_eq!(out.as_str(), "[2024-01-02T03:04:05.006+00:00]  INFO: svc/42 on box1: started");
}

#[test]
fn detail_block_for_multiline_value() {
    let entry = entry_with(vec![text_field("stack", "line1\nline2")]);
    let out = render(&entry, false);
    assert_eq!(
        out.as_str(),
        "[2024-01-02T03:04:05.006+00:00]  INFO: svc/42 on <no-hostname>: started\n    \
         stack: line1\n    line2"
    );
}

#[test]
fn classification_boundary_at_fifty_chars() {
    let fifty = "a".repeat(50);
    let entry = entry_with(vec![text_field("k", &fifty)]);
    let out = render(&entry, false);
    assert!(out.ends_with(&format!(" (k={fifty})")));

    let fifty_one = "a".repeat(51);
    let entry = entry_with(vec![text_field("k", &fifty_one)]);
    let out = render(&entry, false);
    assert!(out.ends_with(&format!("started\n    k: {fifty_one}")));
}

#[test]
fn newline_makes_a_detail_regardless_of_length() {
    let entry = entry_with(vec![text_field("k", "a\nb")]);
    let out = render(&entry, false);
    assert!(out.ends_with("started\n    k: a\n    b"));
}

#[test]
fn quoting_rules_for_extras() {
    let entry = entry_with(vec![text_field("k", "hello world")]);
    let out = render(&entry, false);
    assert!(out.ends_with(" (k=\"hello world\")"));

    let entry = entry_with(vec![text_field("k", "hello")]);
    let out = render(&entry, false);
    assert!(out.ends_with(" (k=hello)"));

    let entry = entry_with(vec![text_field("k", "")]);
    let out = render(&entry, false);
    assert!(out.ends_with(" (k=\"\")"));
}

#[test]
fn extras_render_in_reverse_insertion_order() {
    let entry = entry_with(vec![
        text_field("a", "1"),
        text_field("b", "2"),
        text_field("c", "3"),
    ]);
    let out = render(&entry, false);
    assert!(out.ends_with("started (c=3, b=2, a=1)"));
}

#[test]
fn extras_precede_details() {
    let entry = entry_with(vec![
        text_field("stack", "line1\nline2"),
        text_field("foo", "bar"),
    ]);
    let out = render(&entry, false);
    assert!(out.ends_with("started (foo=bar)\n    stack: line1\n    line2"));
}

#[test]
fn details_are_separated_by_marker() {
    let long = "x".repeat(51);
    let entry = entry_with(vec![
        text_field("d1", &long),
        text_field("d2", "a\nb"),
    ]);
    let out = render(&entry, false);
    assert!(out.ends_with(&format!("started\n    d1: {long}\n    --\n    d2: a\n    b")));
}

#[test]
fn crlf_line_breaks_are_normalized_in_details() {
    let entry = entry_with(vec![text_field("k", "a\r\nb")]);
    let out = render(&entry, false);
    assert!(out.ends_with("started\n    k: a\n    b"));
}

#[test]
fn trailing_newline_does_not_add_an_empty_line() {
    let entry = entry_with(vec![text_field("k", "abc\n")]);
    let out = render(&entry, false);
    assert!(out.ends_with("started\n    k: abc"));
}

#[test]
fn scalar_composites_render_inline_without_quotes() {
    let entry = entry_with(vec![
        LeftoverField { key: "ok".to_string(), value: FieldValue::Composite(serde_json::Value::Bool(true)) },
        LeftoverField { key: "n".to_string(), value: FieldValue::Composite(serde_json::Value::Null) },
        LeftoverField {
            key: "num".to_string(),
            value: FieldValue::Composite(serde_json::Value::from(7u64)),
        },
    ]);
    let out = render(&entry, false);
    assert!(out.ends_with("started (num=7, n=null, ok=true)"));
}

#[test]
fn array_composite_renders_as_indented_detail() {
    let list = serde_json::Value::Array(vec![
        serde_json::Value::from(1u64),
        serde_json::Value::from(2u64),
    ]);
    let entry = entry_with(vec![LeftoverField {
        key: "list".to_string(),
        value: FieldValue::Composite(list),
    }]);
    let out = render(&entry, false);
    assert!(out.ends_with("started\n    list: [\n      1,\n      2\n    ]"));
}

#[test]
fn custom_level_renders_token_without_style() {
    let mut entry = entry_with(vec![]);
    entry.level = LogLevel::Custom(35);
    let out = render(&entry, true);
    assert!(out.contains("] LVL35: svc/42"));
}

#[test]
fn timestamp_pads_components_and_keeps_negative_offset() {
    let mut entry = entry_with(vec![]);
    entry.time = Timestamp {
        year: 999,
        month: 12,
        day: 31,
        hour: 23,
        minute: 59,
        second: 59,
        millisecond: 7,
        offset_negative: true,
        offset_hours: 5,
        offset_minutes: 30,
    };
    let out = render(&entry, false);
    assert!(out.starts_with("[0999-12-31T23:59:59.007-05:30] "));
}
