//! The output of the worker: records of several lines, structured logs, and colours.

use crate::json::{
    field_of, object_view, parsed_json, pretty_json, rendered_json, Fields, Json, JsonView,
};
use crate::text::{
    chars_of, cut, front_is_not_replaced, front_not_matched, join, join3, joined, lacks,
    nothing_replaced, occurs_at, replace, replaced, replaced_first, replaced_pair_is_gone,
    same_text, split_once, strip_prefix, without_prefix,
};
use crate::trim::{to_ascii_uppercase, upper_case};
use vstd::prelude::*;
use vstd::utf8::encode_utf8;

verus! {

/// How much a log message matters.
#[derive(Clone, Copy, PartialEq, Eq, Structural, Debug)]
pub enum LogLevel {
    Error,
    Warn,
    Info,
    Debug,
    Trace,
}

/// Whether `c` is an ASCII letter.
pub open spec fn is_letter(c: char) -> bool {
    'a' <= c <= 'z' || 'A' <= c <= 'Z'
}

/// What follows the code of a terminal sequence, which ends with a letter.
pub open spec fn after_code(s: Seq<char>) -> Seq<char>
    decreases s.len(),
{
    if s.len() == 0 {
        s
    } else if is_letter(s[0]) {
        s.skip(1)
    } else {
        after_code(s.skip(1))
    }
}

/// Whether `s` starts with the escape character written out, and a bracket.
pub open spec fn has_written_escape(s: Seq<char>) -> bool {
    s.len() >= 5 && s[0] == '\\' && s[1] == 'x' && s[2] == '1' && s[3] == 'b' && s[4] == '['
}

/// What follows a code is no longer than what holds it.
pub proof fn after_code_shorter(s: Seq<char>)
    ensures
        after_code(s).len() <= s.len(),
    decreases s.len(),
{
    if s.len() > 0 && !is_letter(s[0]) {
        after_code_shorter(s.skip(1));
    }
}

/// `s` without terminal sequences: an escape character, or one written out, with a bracket
/// behind it starts one, and an escape character alone is dropped.
pub open spec fn without_ansi(s: Seq<char>) -> Seq<char>
    decreases s.len(),
{
    if s.len() == 0 {
        s
    } else {
        proof {
            after_code_shorter(s.skip(2));
            after_code_shorter(s.skip(5));
        }
        if s[0] == '\u{1b}' {
            if s.len() > 1 && s[1] == '[' {
                without_ansi(after_code(s.skip(2)))
            } else {
                without_ansi(s.skip(1))
            }
        } else if has_written_escape(s) {
            without_ansi(after_code(s.skip(5)))
        } else {
            seq![s[0]] + without_ansi(s.skip(1))
        }
    }
}

fn skip_code(chars: &Vec<char>, from: usize) -> (r: usize)
    requires
        from <= chars@.len(),
    ensures
        from <= r <= chars@.len(),
        chars@.skip(r as int) == after_code(chars@.skip(from as int)),
{
    let mut i: usize = from;
    while i < chars.len()
        invariant
            from <= i <= chars@.len(),
            after_code(chars@.skip(from as int)) == after_code(chars@.skip(i as int)),
        decreases chars@.len() - i,
    {
        let c = chars[i];
        assert(chars@.skip(i as int)[0] == c);
        assert(chars@.skip(i as int).skip(1) =~= chars@.skip(i + 1));
        i += 1;
        if ('a' <= c && c <= 'z') || ('A' <= c && c <= 'Z') {
            return i;
        }
    }
    i
}

/// `line` without terminal sequences.
pub fn strip_ansi_sequences(line: &str) -> (r: String)
    ensures
        r@ == without_ansi(line@),
{
    let chars = chars_of(line);
    let end: usize = chars.len();
    let mut r = String::new();
    let mut i: usize = 0;
    assert(chars@.skip(0) =~= chars@);
    assert(r@ + without_ansi(chars@) =~= without_ansi(chars@));
    while i < end
        invariant
            end == chars@.len(),
            i <= end,
            chars@ == line@,
            r@ + without_ansi(chars@.skip(i as int)) == without_ansi(line@),
        decreases end - i,
    {
        let c = chars[i];
        let ghost rest = chars@.skip(i as int);
        let ghost before = r@;
        proof {
            after_code_shorter(rest.skip(2));
            after_code_shorter(rest.skip(5));
            assert(rest[0] == c);
            assert(rest.skip(1) =~= chars@.skip(i + 1));
            if rest.len() > 1 {
                assert(rest[1] == chars@[i + 1]);
                assert(rest.skip(2) =~= chars@.skip(i + 2));
            }
            if rest.len() >= 5 {
                assert(rest[2] == chars@[i + 2] && rest[3] == chars@[i + 3] && rest[4] == chars@[i
                    + 4]);
                assert(rest.skip(5) =~= chars@.skip(i + 5));
            }
        }
        if c == '\u{1b}' {
            if end - i > 1 && chars[i + 1] == '[' {
                i = skip_code(&chars, i + 2);
            } else {
                i += 1;
            }
        } else if end - i >= 5 && c == '\\' && chars[i + 1] == 'x' && chars[i + 2] == '1' && chars[i
            + 3] == 'b' && chars[i + 4] == '[' {
            i = skip_code(&chars, i + 5);
        } else {
            r.push(c);
            i += 1;
            assert(r@ + without_ansi(rest.skip(1)) =~= before + (seq![c] + without_ansi(
                rest.skip(1),
            )));
        }
    }
    assert(chars@.skip(i as int).len() == 0);
    assert(r@ + chars@.skip(i as int) =~= r@);
    r
}

/// No escape character is left in a line without terminal sequences.
pub proof fn stripped_has_no_escape(s: Seq<char>)
    ensures
        !without_ansi(s).contains('\u{1b}'),
    decreases s.len(),
{
    if s.len() > 0 {
        after_code_shorter(s.skip(2));
        after_code_shorter(s.skip(5));
        if s[0] == '\u{1b}' {
            if s.len() > 1 && s[1] == '[' {
                stripped_has_no_escape(after_code(s.skip(2)));
            } else {
                stripped_has_no_escape(s.skip(1));
            }
        } else if has_written_escape(s) {
            stripped_has_no_escape(after_code(s.skip(5)));
        } else {
            stripped_has_no_escape(s.skip(1));
            let rest = without_ansi(s.skip(1));
            let all = seq![s[0]] + rest;
            assert forall|i: int| 0 <= i < all.len() implies all[i] != '\u{1b}' by {
                if i > 0 {
                    assert(all[i] == rest[i - 1]);
                    assert(rest.contains(rest[i - 1]));
                }
            }
        }
    }
}

/// The level that a severity stands for.
pub open spec fn severity_level(severity: Seq<char>) -> Option<LogLevel> {
    let s = upper_case(severity);
    if s == "DEBUG"@ {
        Some(LogLevel::Debug)
    } else if s == "INFO"@ || s == "NOTICE"@ {
        Some(LogLevel::Info)
    } else if s == "WARNING"@ || s == "WARN"@ {
        Some(LogLevel::Warn)
    } else if s == "ERROR"@ || s == "CRITICAL"@ || s == "ALERT"@ || s == "EMERGENCY"@ {
        Some(LogLevel::Error)
    } else if s == "TRACE"@ {
        Some(LogLevel::Trace)
    } else {
        None
    }
}

/// The level that a severity stands for.
pub fn level_from_severity(severity: &str) -> (r: Option<LogLevel>)
    ensures
        r == severity_level(severity@),
{
    let s = to_ascii_uppercase(severity);
    let s: &str = s.as_str();
    if same_text(s, "DEBUG") {
        Some(LogLevel::Debug)
    } else if same_text(s, "INFO") || same_text(s, "NOTICE") {
        Some(LogLevel::Info)
    } else if same_text(s, "WARNING") || same_text(s, "WARN") {
        Some(LogLevel::Warn)
    } else if same_text(s, "ERROR") || same_text(s, "CRITICAL") || same_text(s, "ALERT")
        || same_text(s, "EMERGENCY") {
        Some(LogLevel::Error)
    } else if same_text(s, "TRACE") {
        Some(LogLevel::Trace)
    } else {
        None
    }
}

/// `value` with line feeds and tabs for those that are written out.
pub open spec fn expanded(value: Seq<char>) -> Seq<char> {
    replaced(replaced(value, "\\n"@, "\n"@), "\\t"@, "\t"@)
}

/// `value` with line feeds and tabs for those that are written out.
pub fn expand_escaped_whitespace(value: &str) -> (r: String)
    ensures
        r@ == expanded(value@),
{
    proof {
        reveal_strlit("\\n");
        reveal_strlit("\\t");
    }
    let once = replace(value, "\\n", "\n");
    replace(once.as_str(), "\\t", "\t")
}

/// An expanded text has no line feed and no tab that is written out, and a second pass leaves it as
/// it is.
pub proof fn expansion_is_complete(value: Seq<char>)
    ensures
        lacks(expanded(value), "\\n"@),
        lacks(expanded(value), "\\t"@),
        expanded(expanded(value)) == expanded(value),
{
    reveal_strlit("\\n");
    reveal_strlit("\\t");
    reveal_strlit("\n");
    reveal_strlit("\t");
    let once = replaced(value, "\\n"@, "\n"@);
    replaced_pair_is_gone(value, "\\n"@, "\n"@, "\\n"@);
    replaced_pair_is_gone(once, "\\t"@, "\t"@, "\\n"@);
    replaced_pair_is_gone(once, "\\t"@, "\t"@, "\\t"@);
    nothing_replaced(expanded(value), "\\n"@, "\n"@);
    nothing_replaced(expanded(value), "\\t"@, "\t"@);
}

/// A value in a structured log as text.
pub open spec fn log_text(v: JsonView) -> Seq<char> {
    match v {
        JsonView::Text(s) => expanded(s),
        JsonView::Number(_, s) => s,
        JsonView::Bool(b) => if b {
            "true"@
        } else {
            "false"@
        },
        JsonView::Null => "null"@,
        _ => rendered_json(v),
    }
}

/// A value in a structured log as text.
pub fn render_log_value(value: &Json) -> (r: String)
    ensures
        r@ == log_text(value.deep_view()),
{
    match value {
        Json::Text(s) => expand_escaped_whitespace(s.as_str()),
        Json::Number(n) => n.as_text().to_owned(),
        Json::Bool(b) => if *b {
            "true".to_owned()
        } else {
            "false".to_owned()
        },
        Json::Null => "null".to_owned(),
        _ => value.render(),
    }
}

/// Whether a field of a structured log is not part of its message.
pub open spec fn is_log_metadata(name: Seq<char>) -> bool {
    ||| name == "severity"@
    ||| name == "message"@
    ||| name == "textPayload"@
    ||| name == "time"@
    ||| name == "timestamp"@
    ||| name == "logging.googleapis.com/labels"@
    ||| name == "logging.googleapis.com/sourceLocation"@
    ||| name == "logging.googleapis.com/trace"@
}

/// Whether a field of a structured log is not part of its message.
pub fn is_structured_log_metadata(key: &str) -> (r: bool)
    ensures
        r == is_log_metadata(key@),
{
    same_text(key, "severity") || same_text(key, "message") || same_text(key, "textPayload")
        || same_text(key, "time") || same_text(key, "timestamp") || same_text(
        key,
        "logging.googleapis.com/labels",
    ) || same_text(key, "logging.googleapis.com/sourceLocation") || same_text(
        key,
        "logging.googleapis.com/trace",
    )
}

/// A line of the worker's output as it is logged.
#[derive(Debug, PartialEq, Eq)]
pub struct FormattedWorkerLog {
    pub level: LogLevel,
    pub message: String,
    pub structured: bool,
}

/// What a line of the worker's output as it is logged holds.
#[verifier::ext_equal]
pub struct LogView {
    pub level: LogLevel,
    pub message: Seq<char>,
    pub structured: bool,
}

impl DeepView for FormattedWorkerLog {
    type V = LogView;

    open spec fn deep_view(&self) -> LogView {
        LogView { level: self.level, message: self.message@, structured: self.structured }
    }
}

/// The fields of a structured log behind its message.
pub open spec fn log_fields(fields: Fields) -> Seq<Seq<char>>
    decreases fields.len(),
{
    if fields.len() == 0 {
        Seq::empty()
    } else {
        let before = log_fields(fields.drop_last());
        if is_log_metadata(fields.last().0) {
            before
        } else {
            before.push(fields.last().0 + "="@ + log_text(fields.last().1))
        }
    }
}

/// The message of a structured log: its own, or that of its text.
pub open spec fn primary_message(fields: Fields) -> Option<JsonView> {
    match field_of(fields, "message"@) {
        Some(v) => Some(v),
        None => field_of(fields, "textPayload"@),
    }
}

/// The level of a structured log.
pub open spec fn structured_level(fields: Fields, fallback: LogLevel) -> LogLevel {
    match JsonView::Object(fields).text_in("severity"@) {
        Some(severity) => match severity_level(severity) {
            Some(level) => level,
            None => fallback,
        },
        None => fallback,
    }
}

/// A structured log: its message, or all of it where it has none, and its other fields where it
/// has one.
pub open spec fn structured_log(fields: Fields, fallback: LogLevel) -> LogView {
    let primary = primary_message(fields);
    let message = if primary is Some && log_text(primary->0).len() > 0 {
        log_text(primary->0)
    } else {
        pretty_json(JsonView::Object(fields))
    };
    LogView {
        level: structured_level(fields, fallback),
        message: if primary is Some && log_fields(fields).len() > 0 {
            message + " | "@ + joined(log_fields(fields), " "@)
        } else {
            message
        },
        structured: true,
    }
}

/// A log line of text with its time in brackets and its severity, if it is one.
pub open spec fn bracketed_log(line: Seq<char>, fallback: LogLevel) -> Option<LogView> {
    match without_prefix(line, "["@) {
        None => None,
        Some(rest) => match cut(rest, "] "@) {
            None => None,
            Some((_, rest)) => match cut(rest, ": "@) {
                None => None,
                Some((severity, message)) => Some(
                    LogView {
                        level: match severity_level(severity) {
                            Some(level) => level,
                            None => fallback,
                        },
                        message: expanded(message),
                        structured: false,
                    },
                ),
            },
        },
    }
}

/// A line of the worker's output as it is logged, by the JSON value that the line is, if it is
/// one.
pub open spec fn formatted_log(line: Seq<char>, value: Option<JsonView>, fallback: LogLevel) -> LogView {
    match value {
        Some(JsonView::Object(fields)) => structured_log(fields, fallback),
        _ => match bracketed_log(line, fallback) {
            Some(log) => log,
            None => LogView { level: fallback, message: expanded(line), structured: false },
        },
    }
}

/// A log line of text with its time in brackets and its severity, if it is one.
pub fn format_text_worker_log_line(line: &str, fallback_level: LogLevel) -> (r: Option<
    FormattedWorkerLog,
>)
    ensures
        r.deep_view() == bracketed_log(line@, fallback_level),
{
    let rest = match strip_prefix(line, "[") {
        Some(rest) => rest,
        None => {
            return None;
        },
    };
    let rest = match split_once(rest, "] ") {
        Some((_, rest)) => rest,
        None => {
            return None;
        },
    };
    match split_once(rest, ": ") {
        Some((severity, message)) => {
            let level = match level_from_severity(severity) {
                Some(level) => level,
                None => fallback_level,
            };
            Some(
                FormattedWorkerLog {
                    level,
                    message: expand_escaped_whitespace(message),
                    structured: false,
                },
            )
        },
        None => None,
    }
}

fn render_log_fields(fields: &Vec<(String, Json)>) -> (r: Vec<String>)
    ensures
        r.deep_view() == log_fields(fields.deep_view()),
{
    let ghost all = fields.deep_view();
    let mut r: Vec<String> = Vec::new();
    let mut i: usize = 0;
    assert(all.take(0) =~= Seq::empty());
    assert(r.deep_view() =~= Seq::empty());
    while i < fields.len()
        invariant
            i <= fields@.len(),
            all == fields.deep_view(),
            r.deep_view() == log_fields(all.take(i as int)),
        decreases fields@.len() - i,
    {
        let ghost before = r.deep_view();
        assert(all.take(i + 1).drop_last() =~= all.take(i as int));
        assert(all.take(i + 1).last() == (
            fields@[i as int].0@,
            fields@[i as int].1.deep_view(),
        ));
        if !is_structured_log_metadata(fields[i].0.as_str()) {
            let text = join3(
                fields[i].0.as_str(),
                "=",
                render_log_value(&fields[i].1).as_str(),
            );
            let ghost shown = text@;
            r.push(text);
            assert(r.deep_view() =~= before.push(shown));
        }
        i += 1;
    }
    assert(all.take(i as int) =~= all);
    r
}

/// A line of the worker's output as it is logged, by the JSON value that the line is, if it is
/// one.
pub fn format_log_value(line: &str, value: Option<Json>, fallback_level: LogLevel) -> (r:
    FormattedWorkerLog)
    ensures
        r.deep_view() == formatted_log(line@, value.deep_view(), fallback_level),
{
    match value {
        Some(Json::Object(fields)) => {
            proof {
                object_view(fields);
            }
            let whole = Json::Object(fields);
            let level = match whole.text_in("severity") {
                Some(severity) => match level_from_severity(severity) {
                    Some(level) => level,
                    None => fallback_level,
                },
                None => fallback_level,
            };
            let primary = match whole.get("message") {
                Some(found) => Some(found),
                None => whole.get("textPayload"),
            };
            let rendered = match primary {
                Some(found) => render_log_value(found),
                None => String::new(),
            };
            let has_primary = primary.is_some();
            let mut message = if rendered.as_str().is_empty() {
                whole.render_pretty()
            } else {
                rendered
            };
            if has_primary {
                if let Json::Object(fields) = &whole {
                    let others = render_log_fields(fields);
                    assert(others.deep_view().len() == others@.len());
                    if others.len() > 0 {
                        message.append(" | ");
                        message.append(join(&others, " ").as_str());
                    }
                }
            }
            FormattedWorkerLog { level, message, structured: true }
        },
        _ => match format_text_worker_log_line(line, fallback_level) {
            Some(formatted) => formatted,
            None => FormattedWorkerLog {
                level: fallback_level,
                message: expand_escaped_whitespace(line),
                structured: false,
            },
        },
    }
}

/// A line of the worker's output as it is logged.
pub fn format_worker_log_line(line: &str, fallback_level: LogLevel) -> (r: FormattedWorkerLog)
    ensures
        r.deep_view() == formatted_log(
            without_ansi(line@),
            parsed_json(encode_utf8(without_ansi(line@))),
            fallback_level,
        ),
{
    let line = strip_ansi_sequences(line);
    let value = Json::parse(line.as_str().as_bytes());
    format_log_value(line.as_str(), value, fallback_level)
}

/// Only what is written out is expanded, each to what it stands for: a text without a backslash
/// stays as it is, in front of a written line feed or tab as well.
pub proof fn expansion_changes_nothing_else(a: Seq<char>, rest: Seq<char>)
    requires
        !a.contains('\\'),
    ensures
        expanded(a) == a,
        expanded(a + rest) == a + expanded(rest),
        expanded("\\n"@ + rest) == "\n"@ + expanded(rest),
        expanded("\\t"@ + rest) == "\t"@ + expanded(rest),
{
    reveal_strlit("\\n");
    reveal_strlit("\\t");
    reveal_strlit("\n");
    reveal_strlit("\t");
    let n = "\\n"@;
    let t = "\\t"@;
    let none: Seq<char> = Seq::empty();
    assert(n[0] == '\\' && t[0] == '\\' && n[1] == 'n' && t[1] == 't');
    front_is_not_replaced(a, rest, n, "\n"@);
    front_is_not_replaced(a, replaced(rest, n, "\n"@), t, "\t"@);
    front_is_not_replaced(a, none, n, "\n"@);
    front_is_not_replaced(a, none, t, "\t"@);
    assert(lacks(none, n) && lacks(none, t));
    nothing_replaced(none, n, "\n"@);
    nothing_replaced(none, t, "\t"@);
    assert(a + none =~= a);
    lone_front(n, rest, "\n"@);
    lone_front(t, replaced(rest, n, "\n"@), "\t"@);
    let feed = "\n"@;
    assert(feed[0] == '\n');
    front_is_not_replaced(feed, replaced(rest, n, feed), t, "\t"@);
    pair_stays(t, rest, n, feed);
}

proof fn lone_front(p: Seq<char>, rest: Seq<char>, q: Seq<char>)
    requires
        p.len() == 2,
        p[0] == '\\',
        p[1] != '\\',
    ensures
        replaced(p + rest, p, q) == q + replaced(rest, p, q),
{
    let none: Seq<char> = Seq::empty();
    assert(none + p + rest =~= p + rest);
    assert forall|i: int| !#[trigger] occurs_at(none + p.drop_last(), p, i) by {}
    replaced_first(none, p, rest, q);
    assert(none + q + replaced(rest, p, q) =~= q + replaced(rest, p, q));
}

proof fn pair_stays(front: Seq<char>, rest: Seq<char>, p: Seq<char>, q: Seq<char>)
    requires
        front.len() == 2,
        front[0] == '\\',
        front[1] != '\\',
        p.len() == 2,
        p[0] == '\\',
        front[1] != p[1],
    ensures
        replaced(front + rest, p, q) == front + replaced(rest, p, q),
{
    let whole = front + rest;
    assert forall|i: int| 0 <= i < front.len() implies !#[trigger] occurs_at(whole, p, i) by {
        if occurs_at(whole, p, i) {
            assert(whole.subrange(i, i + 2)[0] == whole[i]);
            assert(whole.subrange(i, i + 2)[1] == whole[i + 1]);
        }
    }
    front_not_matched(front, rest, p, q);
}

} // verus!
