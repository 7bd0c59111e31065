use firelite::functions::colors::{
    colorize_http_method, colorize_log_value, colorize_status_field, decorate_worker_message,
    write_colored_json,
};
use firelite::functions::records::{
    compact_worker_record, is_worker_record_continuation, parse_worker_record_field,
    worker_log_message, PendingRecord,
};
use firelite::functions::worker_log::{
    expand_escaped_whitespace, format_log_value, format_text_worker_log_line,
    format_worker_log_line, level_from_severity, render_log_value, strip_ansi_sequences,
    FormattedWorkerLog, LogLevel,
};
use firelite::json::Json;
use firelite::log_level::{colors_wanted, level_from_str, parse_log_level};

#[test]
fn formats_firebase_structured_logs_for_terminal_output() {
    let formatted = format_worker_log_line(
        r#"{"severity":"INFO","message":"created user","uid":"alice","attempt":2}"#,
        LogLevel::Warn,
    );

    assert_eq!(
        formatted,
        FormattedWorkerLog {
            level: LogLevel::Info,
            message: "created user | attempt=2 uid=alice".to_string(),
            structured: true,
        }
    );
}

#[test]
fn preserves_plain_worker_output() {
    let formatted = format_worker_log_line("plain stderr line", LogLevel::Warn);

    assert_eq!(
        formatted,
        FormattedWorkerLog {
            level: LogLevel::Warn,
            message: "plain stderr line".to_string(),
            structured: false,
        }
    );
}

#[test]
fn expands_escaped_stack_trace_lines() {
    let formatted = format_worker_log_line(
        r#"Error: failed\n    at handler (index.js:10:2)\n    at processTask (index.js:20:4)"#,
        LogLevel::Error,
    );

    assert_eq!(
        formatted.message,
        "Error: failed\n    at handler (index.js:10:2)\n    at processTask (index.js:20:4)"
    );
}

#[test]
fn expanded_texts_stay_as_they_are() {
    let once = expand_escaped_whitespace(r"a\n\n\tb\\nt\\tn");
    assert_eq!(once, "a\n\n\tb\\\nt\\\tn");
    assert_eq!(expand_escaped_whitespace(&once), once);
}

#[test]
fn pretty_prints_structured_logs_without_a_message_field() {
    let formatted = format_worker_log_line(
        r#"{"executionId":"request-1","data":{"durationMillis":1,"statusCode":400}}"#,
        LogLevel::Info,
    );

    assert_eq!(
        formatted.message,
        "{\n  \"data\": {\n    \"durationMillis\": 1,\n    \"statusCode\": 400\n  },\n  \"executionId\": \"request-1\"\n}"
    );
}

#[test]
fn compacts_trpc_request_context() {
    let record = r#"trpc endpoint success
  executionId: "emulatorRequest:abc",
  sessionId: "session-1",
  userId: "user-1",
  data: {
    "path": "admin.userRent.listUserRents",
    "type": "mutation",
    "durationMillis": 348
  }
}"#;

    assert_eq!(
        compact_worker_record(record),
        "trpc endpoint success path=admin.userRent.listUserRents type=mutation duration=348ms"
    );
}

#[test]
fn compacts_request_context_with_escaped_newlines() {
    let record = expand_escaped_whitespace(
        r#"trpc endpoint success\n  executionId: "request-1",\n  data: {\n    "path": "admin.users.list",\n    "durationMillis": 12\n  }"#,
    );

    assert_eq!(
        compact_worker_record(&record),
        "trpc endpoint success path=admin.users.list duration=12ms"
    );
}

#[test]
fn compacts_response_context() {
    let record = r#"Response
  executionId: "emulatorRequest:abc",
  sessionId: "session-1",
  userId: "user-1",
  data: {
    "durationMillis": 406,
    "endpoint": "/admin.userRent.listUserRents",
    "statusCode": 200
  }
}"#;

    assert_eq!(
        compact_worker_record(record),
        "Response duration=406ms endpoint=/admin.userRent.listUserRents status=200"
    );
}

#[test]
fn colors_http_methods_and_statuses_for_terminals() {
    assert_eq!(
        decorate_worker_message("GET /api/users 200 - 4ms", LogLevel::Info, false, true),
        "\u{1b}[1;36mGET\u{1b}[0m /api/users 200 - 4ms"
    );
    assert_eq!(
        decorate_worker_message("POST /api/users 201 - 8ms", LogLevel::Info, false, true),
        "\u{1b}[1;32mPOST\u{1b}[0m /api/users 201 - 8ms"
    );
    assert_eq!(
        decorate_worker_message(
            "Response endpoint=/api/users status=500",
            LogLevel::Info,
            false,
            true,
        ),
        "Response endpoint=/api/users status=\u{1b}[31m500\u{1b}[0m"
    );
}

#[test]
fn syntax_highlights_structured_json_logs() {
    let formatted = format_worker_log_line(
        r#"{"severity":"WARN","data":{"ok":false,"attempt":2},"name":"worker"}"#,
        LogLevel::Info,
    );
    let decorated = decorate_worker_message(
        &formatted.message,
        formatted.level,
        formatted.structured,
        true,
    );

    assert!(decorated.contains("\u{1b}[36m\"data\"\u{1b}[0m"));
    assert!(decorated.contains("\u{1b}[35mfalse\u{1b}[0m"));
    assert!(decorated.contains("\u{1b}[33m2\u{1b}[0m"));
    assert!(decorated.contains("\u{1b}[32m\"worker\"\u{1b}[0m"));
}

#[test]
fn keeps_redirected_logs_free_of_ansi_codes() {
    assert_eq!(
        decorate_worker_message("DELETE /api/users/1 204 - 3ms", LogLevel::Info, false, false),
        "DELETE /api/users/1 204 - 3ms"
    );
}

#[test]
fn strips_ansi_sequences_from_worker_output() {
    let formatted = format_worker_log_line(
        r#"[11:26:20] \x1b[34mDEBUG\x1b[39m: \x1b[36mUpdating user\x1b[39m"#,
        LogLevel::Info,
    );

    assert_eq!(
        formatted,
        FormattedWorkerLog {
            level: LogLevel::Debug,
            message: "Updating user".to_string(),
            structured: false,
        }
    );
}

#[test]
fn strips_real_escape_characters() {
    assert_eq!(strip_ansi_sequences("\u{1b}[1;31mred\u{1b}[0m text"), "red text");
    assert!(!strip_ansi_sequences("a\u{1b}[3").contains('\u{1b}'));
    assert_eq!(strip_ansi_sequences("none"), "none");
}

#[test]
fn severities_name_levels() {
    assert_eq!(level_from_severity("debug"), Some(LogLevel::Debug));
    assert_eq!(level_from_severity("NOTICE"), Some(LogLevel::Info));
    assert_eq!(level_from_severity("WARNING"), Some(LogLevel::Warn));
    assert_eq!(level_from_severity("Critical"), Some(LogLevel::Error));
    assert_eq!(level_from_severity("loud"), None);
}

#[test]
fn severity_alone_leaves_the_fields() {
    let value = Json::parse(br#"{"severity":"ERROR","message":"broken"}"#);
    let formatted = format_log_value("unused", value, LogLevel::Info);
    assert_eq!(formatted.level, LogLevel::Error);
    assert_eq!(formatted.message, "broken");
    assert!(formatted.structured);
}

#[test]
fn bracketed_lines_tell_their_level() {
    let formatted = format_text_worker_log_line("[10:00:00] ERROR: went wrong", LogLevel::Info);
    assert_eq!(
        formatted,
        Some(FormattedWorkerLog {
            level: LogLevel::Error,
            message: "went wrong".to_string(),
            structured: false,
        })
    );
    assert_eq!(format_text_worker_log_line("no bracket", LogLevel::Info), None);
}

#[test]
fn log_values_are_rendered() {
    assert_eq!(render_log_value(&Json::text("two\\nlines")), "two\nlines");
    assert_eq!(render_log_value(&Json::unsigned(7)), "7");
    assert_eq!(render_log_value(&Json::Bool(true)), "true");
    assert_eq!(render_log_value(&Json::Null), "null");
}

fn dim(text: &str) -> String {
    format!("\u{1b}[2m{text}\u{1b}[0m")
}

#[test]
fn colored_json_has_one_color_per_sort_of_value() {
    let value = Json::parse(br#"{"a":[1,null],"b":"x","c":{}}"#).unwrap();
    let expected = [
        dim("{"),
        format!("\n  \u{1b}[36m\"a\"\u{1b}[0m{}{}", dim(": "), dim("[")),
        format!("\n    \u{1b}[33m1\u{1b}[0m{}", dim(",")),
        format!("\n    {}\n  {}{}", dim("null"), dim("]"), dim(",")),
        format!("\n  \u{1b}[36m\"b\"\u{1b}[0m{}\u{1b}[32m\"x\"\u{1b}[0m{}", dim(": "), dim(",")),
        format!("\n  \u{1b}[36m\"c\"\u{1b}[0m{}{}{}", dim(": "), dim("{"), dim("}")),
        format!("\n{}", dim("}")),
    ]
    .concat();
    assert_eq!(write_colored_json(&value, ""), expected);
}

fn without_codes(text: &str) -> String {
    let mut plain = String::new();
    let mut rest = text;
    while let Some((before, after)) = rest.split_once('\u{1b}') {
        plain.push_str(before);
        rest = after.split_once('m').unwrap().1;
    }
    plain + rest
}

#[test]
fn colored_json_without_its_codes_is_pretty_json() {
    for text in [
        r#"{"a":[1,-2.5,null,[],{}],"b":{"c\u001b[31m":"x\ty\u0007"},"d":true}"#,
        "[]",
        "[[],[{}]]",
        "\"text\"",
    ] {
        let value = Json::parse(text.as_bytes()).unwrap();
        assert_eq!(without_codes(&write_colored_json(&value, "")), value.render_pretty());
    }
}

#[test]
fn methods_and_statuses_are_colored_apart() {
    assert_eq!(colorize_http_method("GETTING ready"), "GETTING ready");
    assert_eq!(colorize_http_method("DELETE /x"), "\u{1b}[1;31mDELETE\u{1b}[0m /x");
    assert_eq!(colorize_status_field("status=200 ok"), "status=\u{1b}[32m200\u{1b}[0m ok");
    assert_eq!(colorize_status_field("status=404"), "status=\u{1b}[33m404\u{1b}[0m");
    assert_eq!(colorize_status_field("status=none"), "status=none");
}

#[test]
fn structured_values_are_colored_as_json() {
    let value = Json::parse(b"{\"a\":1}");
    assert_eq!(
        colorize_log_value("{\"a\":1}", value, LogLevel::Info),
        format!(
            "{}\n  \u{1b}[36m\"a\"\u{1b}[0m{}\u{1b}[33m1\u{1b}[0m\n{}",
            dim("{"),
            dim(": "),
            dim("}")
        )
    );
}

#[test]
fn record_fields_are_read() {
    assert_eq!(
        parse_worker_record_field("    \"path\": \"admin.users\","),
        Some(("path".to_string(), "admin.users".to_string()))
    );
    assert_eq!(parse_worker_record_field("no field"), None);
}

#[test]
fn continuations_are_told_from_new_records() {
    assert!(is_worker_record_continuation("  indented"));
    assert!(is_worker_record_continuation(""));
    assert!(!is_worker_record_continuation("}"));
    assert!(!is_worker_record_continuation("new record"));
}

#[test]
fn lines_are_joined_to_records() {
    let mut pending = PendingRecord::new();
    assert_eq!(pending.take_line("first"), None);
    assert_eq!(pending.take_line("  more"), None);
    assert_eq!(pending.take_line("second"), Some("first\n  more".to_string()));
    assert_eq!(pending.flush(), Some("second".to_string()));
    assert_eq!(pending.flush(), None);
}

#[test]
fn records_become_messages() {
    let (level, message) = worker_log_message(
        r#"{"severity":"WARNING","message":"slow","ms":12}"#,
        LogLevel::Info,
        false,
    );
    assert_eq!(level, LogLevel::Warn);
    assert_eq!(message, "slow | ms=12");
}

#[test]
fn redirected_records_have_no_escape_characters() {
    let record = r#"{"severity":"INFO","message":"\u001b[31mred\u001b[0m alert"}"#;
    let (_, plain) = worker_log_message(record, LogLevel::Info, false);
    assert_eq!(plain, "red alert");
    let (_, colored) = worker_log_message(record, LogLevel::Info, true);
    assert!(colored.contains('\u{1b}'));
}

#[test]
fn level_names_are_read() {
    assert_eq!(level_from_str(" DEBUG "), Some(LogLevel::Debug));
    assert_eq!(level_from_str("verbose"), None);
    assert_eq!(parse_log_level("warn"), Some(LogLevel::Warn));
    assert_eq!(parse_log_level("info,firelite=debug"), Some(LogLevel::Debug));
    assert_eq!(parse_log_level("hyper=trace,error"), Some(LogLevel::Error));
    assert_eq!(parse_log_level(""), None);
}

#[test]
fn colors_go_to_terminals() {
    assert!(colors_wanted(None, false, Some("xterm"), true, false));
    assert!(!colors_wanted(None, false, Some("dumb"), true, false));
    assert!(!colors_wanted(None, true, None, true, false));
    assert!(colors_wanted(Some("1"), true, Some("dumb"), false, false));
    assert!(!colors_wanted(Some("0"), false, None, false, false));
    assert!(colors_wanted(None, false, None, false, true));
}
