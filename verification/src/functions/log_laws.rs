//! What is logged of what a worker writes, and at which level.

use crate::functions::records::{
    compacted, detail_of, details_of, field_in, fields_in, is_context, record_after, record_ended,
};
use crate::functions::worker_log::{
    after_code, bracketed_log, expanded, formatted_log, is_letter, is_log_metadata, log_fields,
    log_text, severity_level, structured_log, without_ansi, LogLevel, LogView,
};
use crate::json::{field_of, pretty_json, rendered_json, Fields, JsonView};
use crate::log_level::{level_named, level_set, levels_set};
use crate::text::{cut, cut_reads_back, joined, lacks, lines_of, one_char_lacks, pieces};
use crate::trim::{
    is_space, lower_case, other_ends_stay, tight_text_stays, trimmed, upper_case, without_trailing,
};
use vstd::prelude::*;

verus! {

proof fn severities_differ()
    ensures
        "DEBUG"@ != "INFO"@,
        "DEBUG"@ != "NOTICE"@,
        "DEBUG"@ != "WARNING"@,
        "DEBUG"@ != "WARN"@,
        "DEBUG"@ != "ERROR"@,
        "DEBUG"@ != "CRITICAL"@,
        "DEBUG"@ != "ALERT"@,
        "DEBUG"@ != "EMERGENCY"@,
        "DEBUG"@ != "TRACE"@,
        "INFO"@ != "NOTICE"@,
        "INFO"@ != "WARNING"@,
        "INFO"@ != "WARN"@,
        "INFO"@ != "ERROR"@,
        "INFO"@ != "CRITICAL"@,
        "INFO"@ != "ALERT"@,
        "INFO"@ != "EMERGENCY"@,
        "INFO"@ != "TRACE"@,
        "NOTICE"@ != "WARNING"@,
        "NOTICE"@ != "WARN"@,
        "NOTICE"@ != "ERROR"@,
        "NOTICE"@ != "CRITICAL"@,
        "NOTICE"@ != "ALERT"@,
        "NOTICE"@ != "EMERGENCY"@,
        "NOTICE"@ != "TRACE"@,
        "WARNING"@ != "WARN"@,
        "WARNING"@ != "ERROR"@,
        "WARNING"@ != "CRITICAL"@,
        "WARNING"@ != "ALERT"@,
        "WARNING"@ != "EMERGENCY"@,
        "WARNING"@ != "TRACE"@,
        "WARN"@ != "ERROR"@,
        "WARN"@ != "CRITICAL"@,
        "WARN"@ != "ALERT"@,
        "WARN"@ != "EMERGENCY"@,
        "WARN"@ != "TRACE"@,
        "ERROR"@ != "CRITICAL"@,
        "ERROR"@ != "ALERT"@,
        "ERROR"@ != "EMERGENCY"@,
        "ERROR"@ != "TRACE"@,
        "CRITICAL"@ != "ALERT"@,
        "CRITICAL"@ != "EMERGENCY"@,
        "CRITICAL"@ != "TRACE"@,
        "ALERT"@ != "EMERGENCY"@,
        "ALERT"@ != "TRACE"@,
        "EMERGENCY"@ != "TRACE"@,
{
    reveal_strlit("DEBUG");
    reveal_strlit("INFO");
    reveal_strlit("NOTICE");
    reveal_strlit("WARNING");
    reveal_strlit("WARN");
    reveal_strlit("ERROR");
    reveal_strlit("CRITICAL");
    reveal_strlit("ALERT");
    reveal_strlit("EMERGENCY");
    reveal_strlit("TRACE");
    assert("DEBUG"@.len() == 5);
    assert("INFO"@.len() == 4);
    assert("NOTICE"@.len() == 6);
    assert("WARNING"@.len() == 7);
    assert("WARN"@.len() == 4);
    assert("ERROR"@.len() == 5);
    assert("CRITICAL"@.len() == 8);
    assert("ALERT"@.len() == 5);
    assert("EMERGENCY"@.len() == 9);
    assert("TRACE"@.len() == 5);
    assert("DEBUG"@[0] == 'D' && "ERROR"@[0] == 'E');
    assert("DEBUG"@[0] == 'D' && "ALERT"@[0] == 'A');
    assert("DEBUG"@[0] == 'D' && "TRACE"@[0] == 'T');
    assert("INFO"@[0] == 'I' && "WARN"@[0] == 'W');
    assert("ERROR"@[0] == 'E' && "ALERT"@[0] == 'A');
    assert("ERROR"@[0] == 'E' && "TRACE"@[0] == 'T');
    assert("ALERT"@[0] == 'A' && "TRACE"@[0] == 'T');
}

/// The level that each severity stands for, in whatever case it is written. Any other text is no
/// severity.
pub proof fn severity_stands_for_level(s: Seq<char>)
    ensures
        severity_level(s) == Some(LogLevel::Debug) <==> upper_case(s) == "DEBUG"@,
        severity_level(s) == Some(LogLevel::Info) <==> upper_case(s) == "INFO"@ || upper_case(s) == "NOTICE"@,
        severity_level(s) == Some(LogLevel::Warn) <==> upper_case(s) == "WARNING"@ || upper_case(s) == "WARN"@,
        severity_level(s) == Some(LogLevel::Error) <==> upper_case(s) == "ERROR"@ || upper_case(s) == "CRITICAL"@ || upper_case(s) == "ALERT"@ || upper_case(s) == "EMERGENCY"@,
        severity_level(s) == Some(LogLevel::Trace) <==> upper_case(s) == "TRACE"@,
        severity_level(s) is None <==> upper_case(s) != "DEBUG"@ && upper_case(s) != "INFO"@ && upper_case(s) != "NOTICE"@ && upper_case(s) != "WARNING"@ && upper_case(s) != "WARN"@ && upper_case(s) != "ERROR"@ && upper_case(s) != "CRITICAL"@ && upper_case(s) != "ALERT"@ && upper_case(s) != "EMERGENCY"@ && upper_case(s) != "TRACE"@,
{
    severities_differ();
}

/// A line of the form `[time] severity: message` is logged as its message, at the level that its
/// severity stands for, or else at the level of its stream.
pub proof fn bracketed_line_is_its_message(
    time: Seq<char>,
    severity: Seq<char>,
    message: Seq<char>,
    fallback: LogLevel,
)
    requires
        lacks(time + "]"@, "] "@),
        lacks(severity + ":"@, ": "@),
    ensures
        bracketed_log("["@ + time + "] "@ + severity + ": "@ + message, fallback) == Some(
            LogView {
                level: if severity_level(severity) is Some {
                    severity_level(severity)->0
                } else {
                    fallback
                },
                message: expanded(message),
                structured: false,
            },
        ),
{
    reveal_strlit("[");
    reveal_strlit("]");
    reveal_strlit(":");
    reveal_strlit("] ");
    reveal_strlit(": ");
    let line = "["@ + time + "] "@ + severity + ": "@ + message;
    let inner = severity + ": "@ + message;
    assert(line.subrange(0, 1) =~= "["@);
    assert(line.skip(1) =~= time + "] "@ + inner);
    assert("] "@.drop_last() =~= "]"@);
    assert(": "@.drop_last() =~= ":"@);
    cut_reads_back(time, "] "@, inner);
    cut_reads_back(severity, ": "@, message);
}

/// A line that is neither a JSON object nor of that form is logged as it is, with line feeds and
/// tabs for those that are written out, at the level of its stream. A JSON object is logged as one.
pub proof fn plain_line_is_logged_as_it_is(
    line: Seq<char>,
    value: Option<JsonView>,
    fallback: LogLevel,
)
    ensures
        !(value is Some && value->0 is Object) && bracketed_log(line, fallback) is None
            ==> formatted_log(line, value, fallback) == (LogView {
            level: fallback,
            message: expanded(line),
            structured: false,
        }),
        !(value is Some && value->0 is Object) && bracketed_log(line, fallback) is Some
            ==> formatted_log(line, value, fallback) == bracketed_log(line, fallback)->0,
        value is Some && value->0 is Object ==> formatted_log(line, value, fallback)
            == structured_log(value->0->Object_0, fallback),
        !"["@.is_prefix_of(line) ==> bracketed_log(line, fallback) is None,
{
}

/// A JSON object is logged at the level of its `severity`, as its `message` or else its
/// `textPayload`, and behind that its other fields one by one; without such a text the whole object
/// stands for it.
pub proof fn object_is_logged_by_its_message(fields: Fields, fallback: LogLevel)
    ensures
        ({
            let log = structured_log(fields, fallback);
            let severity = JsonView::Object(fields).text_in("severity"@);
            let given = if field_of(fields, "message"@) is Some {
                field_of(fields, "message"@)
            } else {
                field_of(fields, "textPayload"@)
            };
            let text = log_text(given->0);
            let others = log_fields(fields);
            let whole = pretty_json(JsonView::Object(fields));
            &&& log.structured
            &&& severity is Some && severity_level(severity->0) is Some ==> Some(log.level)
                == severity_level(severity->0)
            &&& severity is None || severity_level(severity->0) is None ==> log.level == fallback
            &&& given is None ==> log.message == whole
            &&& given is Some && text.len() > 0 && others.len() == 0 ==> log.message == text
            &&& given is Some && text.len() == 0 && others.len() == 0 ==> log.message == whole
            &&& given is Some && text.len() > 0 && others.len() > 0 ==> log.message == text
                + " | "@ + joined(others, " "@)
            &&& given is Some && text.len() == 0 && others.len() > 0 ==> log.message == whole
                + " | "@ + joined(others, " "@)
        }),
{
}

/// The other fields of a JSON object are all but those that say what the log is about, in their
/// order, each as its name and its value.
pub proof fn other_fields_are_logged(fields: Fields)
    ensures
        log_fields(fields) == fields.filter(
            |f: (Seq<char>, JsonView)|
                !seq![
                    "severity"@,
                    "message"@,
                    "textPayload"@,
                    "time"@,
                    "timestamp"@,
                    "logging.googleapis.com/labels"@,
                    "logging.googleapis.com/sourceLocation"@,
                    "logging.googleapis.com/trace"@,
                ].contains(f.0),
        ).map_values(|f: (Seq<char>, JsonView)| f.0 + "="@ + log_text(f.1)),
    decreases fields.len(),
{
    reveal(Seq::filter);
    let names = seq![
        "severity"@,
        "message"@,
        "textPayload"@,
        "time"@,
        "timestamp"@,
        "logging.googleapis.com/labels"@,
        "logging.googleapis.com/sourceLocation"@,
        "logging.googleapis.com/trace"@,
    ];
    let other = |f: (Seq<char>, JsonView)| !names.contains(f.0);
    let told = |f: (Seq<char>, JsonView)| f.0 + "="@ + log_text(f.1);
    if fields.len() > 0 {
        let head = fields.drop_last();
        other_fields_are_logged(head);
        let last = fields.last();
        assert(names[0] == "severity"@ && names[1] == "message"@ && names[2] == "textPayload"@
            && names[3] == "time"@ && names[4] == "timestamp"@ && names[5]
            == "logging.googleapis.com/labels"@ && names[6]
            == "logging.googleapis.com/sourceLocation"@ && names[7]
            == "logging.googleapis.com/trace"@);
        assert(names.contains(last.0) == is_log_metadata(last.0)) by {
            if is_log_metadata(last.0) {
                assert(last.0 == names[0] || last.0 == names[1] || last.0 == names[2] || last.0
                    == names[3] || last.0 == names[4] || last.0 == names[5] || last.0 == names[6]
                    || last.0 == names[7]);
            }
        }
        if other(last) {
            assert(fields.filter(other).map_values(told) =~= head.filter(other).map_values(
                told,
            ).push(told(last)));
        } else {
            assert(fields.filter(other).map_values(told) =~= head.filter(other).map_values(told));
        }
    } else {
        assert(fields.filter(other).map_values(told) =~= Seq::empty());
    }
}

/// A value is logged as its text, without quotes, or else as its JSON text.
pub proof fn value_is_logged_as_text(v: JsonView)
    ensures
        v is Text ==> log_text(v) == expanded(v->Text_0),
        v is Number ==> log_text(v) == v->Number_1,
        v == JsonView::Bool(true) ==> log_text(v) == "true"@,
        v == JsonView::Bool(false) ==> log_text(v) == "false"@,
        v is Null ==> log_text(v) == "null"@,
        v is Array || v is Object ==> log_text(v) == rendered_json(v),
{
}

proof fn code_ends_at_letter(middle: Seq<char>, end: char, rest: Seq<char>)
    requires
        forall|i: int| 0 <= i < middle.len() ==> !is_letter(#[trigger] middle[i]),
        is_letter(end),
    ensures
        after_code(middle + seq![end] + rest) == rest,
    decreases middle.len(),
{
    let s = middle + seq![end] + rest;
    if middle.len() == 0 {
        assert(s.skip(1) =~= rest);
        assert(s[0] == end);
    } else {
        let m = middle.skip(1);
        assert(s.skip(1) =~= m + seq![end] + rest);
        assert(s[0] == middle[0]);
        assert forall|i: int| 0 <= i < m.len() implies !is_letter(#[trigger] m[i]) by {
            assert(m[i] == middle[i + 1]);
        }
        code_ends_at_letter(m, end, rest);
    }
}

/// Colour codes are taken out of a line, be they codes or codes that are written out, and every
/// character that is in none stays.
pub proof fn codes_come_out(middle: Seq<char>, end: char, rest: Seq<char>, c: char)
    requires
        forall|i: int| 0 <= i < middle.len() ==> !is_letter(#[trigger] middle[i]),
        is_letter(end),
        c != '\u{1b}',
        c != '\\',
    ensures
        without_ansi(seq!['\u{1b}', '['] + middle + seq![end] + rest) == without_ansi(rest),
        without_ansi(seq!['\\', 'x', '1', 'b', '['] + middle + seq![end] + rest) == without_ansi(
            rest,
        ),
        without_ansi(seq![c] + rest) == seq![c] + without_ansi(rest),
{
    let code = seq!['\u{1b}', '['] + middle + seq![end] + rest;
    assert(code.skip(2) =~= middle + seq![end] + rest);
    assert(code[0] == '\u{1b}' && code[1] == '[');
    code_ends_at_letter(middle, end, rest);
    let written = seq!['\\', 'x', '1', 'b', '['] + middle + seq![end] + rest;
    assert(written.skip(5) =~= middle + seq![end] + rest);
    assert(written[0] == '\\' && written[1] == 'x' && written[2] == '1' && written[3] == 'b'
        && written[4] == '[');
    let kept = seq![c] + rest;
    assert(kept[0] == c);
    assert(kept.skip(1) =~= rest);
}

/// A line without an escape character and without a backslash stays as it is.
pub proof fn line_without_codes_stays(s: Seq<char>)
    requires
        !s.contains('\u{1b}'),
        !s.contains('\\'),
    ensures
        without_ansi(s) == s,
    decreases s.len(),
{
    if s.len() > 0 {
        let rest = s.skip(1);
        assert(s.contains(s[0]));
        assert forall|i: int| 0 <= i < rest.len() implies #[trigger] rest[i] != '\u{1b}' && rest[i]
            != '\\' by {
            assert(rest[i] == s[i + 1]);
            assert(s.contains(s[i + 1]));
        }
        line_without_codes_stays(rest);
        assert(seq![s[0]] + rest =~= s);
    }
}

/// A line goes on the record before it where it is empty or starts with white space; every other
/// line ends that record and starts the next.
pub proof fn indented_line_goes_on(pending: Option<Seq<char>>, line: Seq<char>)
    ensures
        ({
            let goes_on = line.len() == 0 || is_space(line[0]);
            &&& pending is Some && goes_on ==> record_after(pending, line) == pending->0 + "\n"@
                + line && record_ended(pending, line) is None
            &&& pending is Some && !goes_on ==> record_after(pending, line) == line && record_ended(
                pending,
                line,
            ) == pending
            &&& pending is None ==> record_after(pending, line) == line && record_ended(
                pending,
                line,
            ) is None
        }),
{
}

/// What is told of a field of a record: its name and its value, the duration in milliseconds, and
/// nothing of brackets.
pub proof fn field_is_told(key: Seq<char>, value: Seq<char>)
    ensures
        value == "{"@ || value == "}"@ ==> detail_of(key, value) is None,
        value != "{"@ && value != "}"@ && key == "durationMillis"@ ==> detail_of(key, value) == Some(
            "duration="@ + value + "ms"@,
        ),
        value != "{"@ && value != "}"@ && key == "statusCode"@ ==> detail_of(key, value) == Some(
            "status="@ + value,
        ),
        value != "{"@ && value != "}"@ && key != "durationMillis"@ && key != "statusCode"@
            ==> detail_of(key, value) == Some(key + "="@ + value),
{
    reveal_strlit("durationMillis");
    reveal_strlit("statusCode");
    assert("durationMillis"@.len() == 14 && "statusCode"@.len() == 10);
}

/// A record with the context of a request is told on one line, its first with what follows of its
/// fields, but for the context itself; a record without stays as it is.
pub proof fn record_of_request_is_told_on_one_line(record: Seq<char>)
    ensures
        ({
            let all = lines_of(record);
            let fields = fields_in(all.skip(1));
            let about = exists|i: int|
                0 <= i < fields.len() && seq!["executionId"@, "sessionId"@, "userId"@].contains(
                    (#[trigger] fields[i]).0,
                );
            let told = details_of(fields);
            &&& all.len() == 0 || !about ==> compacted(record) == record
            &&& all.len() > 0 && about && told.len() == 0 ==> compacted(record) == trimmed(all[0])
            &&& all.len() > 0 && about && told.len() > 0 ==> compacted(record) == trimmed(all[0])
                + " "@ + joined(told, " "@)
        }),
{
    let all = lines_of(record);
    let fields = fields_in(all.skip(1));
    let names = seq!["executionId"@, "sessionId"@, "userId"@];
    assert(names[0] == "executionId"@ && names[1] == "sessionId"@ && names[2] == "userId"@);
    assert forall|i: int| 0 <= i < fields.len() implies names.contains((#[trigger] fields[i]).0)
        == is_context(fields[i].0) by {
        if is_context(fields[i].0) {
            assert(fields[i].0 == names[0] || fields[i].0 == names[1] || fields[i].0 == names[2]);
        }
    }
}

/// The fields that are told of such a record are all of its fields but the context, in their order.
pub proof fn fields_are_told_in_order(
    fields: Seq<(Seq<char>, Seq<char>)>,
    key: Seq<char>,
    value: Seq<char>,
)
    ensures
        ({
            let before = details_of(fields);
            let after = details_of(fields.push((key, value)));
            let about = key == "executionId"@ || key == "sessionId"@ || key == "userId"@;
            &&& about || detail_of(key, value) is None ==> after == before
            &&& !about && detail_of(key, value) is Some ==> after == before.push(
                detail_of(key, value)->0,
            )
        }),
{
    assert(fields.push((key, value)).drop_last() =~= fields);
}

proof fn level_names_differ()
    ensures
        "trace"@ != "debug"@,
        "trace"@ != "info"@,
        "trace"@ != "warn"@,
        "trace"@ != "error"@,
        "debug"@ != "info"@,
        "debug"@ != "warn"@,
        "debug"@ != "error"@,
        "info"@ != "warn"@,
        "info"@ != "error"@,
        "warn"@ != "error"@,
{
    reveal_strlit("trace");
    reveal_strlit("debug");
    reveal_strlit("info");
    reveal_strlit("warn");
    reveal_strlit("error");
    assert("trace"@.len() == 5);
    assert("debug"@.len() == 5);
    assert("info"@.len() == 4);
    assert("warn"@.len() == 4);
    assert("error"@.len() == 5);
    assert("trace"@[0] == 't' && "debug"@[0] == 'd');
    assert("trace"@[0] == 't' && "error"@[0] == 'e');
    assert("debug"@[0] == 'd' && "error"@[0] == 'e');
    assert("info"@[0] == 'i' && "warn"@[0] == 'w');
}

/// The level that each name stands for, in whatever case and with whatever space around it.
pub proof fn name_stands_for_level(value: Seq<char>)
    ensures
        level_named(value) == Some(LogLevel::Trace) <==> lower_case(trimmed(value)) == "trace"@,
        level_named(value) == Some(LogLevel::Debug) <==> lower_case(trimmed(value)) == "debug"@,
        level_named(value) == Some(LogLevel::Info) <==> lower_case(trimmed(value)) == "info"@,
        level_named(value) == Some(LogLevel::Warn) <==> lower_case(trimmed(value)) == "warn"@,
        level_named(value) == Some(LogLevel::Error) <==> lower_case(trimmed(value)) == "error"@,
{
    level_names_differ();
}

/// Of the directives that are set, the last that names this program counts, or else the last that
/// names none; those for others and empty ones do not.
pub proof fn last_directive_counts(directives: Seq<Seq<char>>, last: Seq<char>, value: Seq<char>)
    ensures
        ({
            let before = levels_set(directives);
            let after = levels_set(directives.push(last));
            let one = trimmed(last);
            let named = cut(one, "="@);
            &&& one.len() == 0 ==> after == before
            &&& one.len() > 0 && named is None ==> after == (level_named(one), before.1)
            &&& one.len() > 0 && named is Some && trimmed((named->0).0) == "firelite"@ ==> after == (
                before.0,
                level_named((named->0).1),
            )
            &&& one.len() > 0 && named is Some && trimmed((named->0).0) != "firelite"@ ==> after
                == before
            &&& levels_set(Seq::empty()) == (None::<LogLevel>, None::<LogLevel>)
            &&& levels_set(pieces(value, ","@)).1 is Some ==> level_set(value) == levels_set(
                pieces(value, ","@),
            ).1
            &&& levels_set(pieces(value, ","@)).1 is None ==> level_set(value) == levels_set(
                pieces(value, ","@),
            ).0
        }),
{
    assert(directives.push(last).drop_last() =~= directives);
}

/// A field of a record is its name and its value, without space around them.
pub proof fn field_reads_back(key: Seq<char>, value: Seq<char>)
    requires
        key.len() > 0,
        !key.contains(':'),
        !is_space(key[0]),
        !is_space(key.last()),
        key[0] != '"',
        key.last() != '"',
        value.len() > 0,
        !is_space(value[0]),
        !is_space(value.last()),
        value[0] != '"',
        value.last() != '"',
        value.last() != ',',
    ensures
        field_in(key + ":"@ + " "@ + value) == Some((key, value)),
        field_in(key + ":"@ + " "@ + value + ","@) == Some((key, value)),
{
    reveal_strlit(":");
    reveal_strlit(" ");
    reveal_strlit(",");
    assert(":"@ =~= seq![':']);
    let line = key + ":"@ + " "@ + value;
    let ended = line + ","@;
    assert(line =~= key + ":"@ + (" "@ + value));
    tight_text_stays(line);
    tight_text_stays(ended);
    tight_text_stays(key);
    tight_text_stays(value);
    assert(without_trailing(line, ',') == line);
    assert(ended.drop_last() =~= line);
    assert(ended.last() == ',');
    reveal_with_fuel(without_trailing, 2);
    assert(without_trailing(ended, ',') == line);
    one_char_lacks(key, ':');
    cut_reads_back(key, ":"@, " "@ + value);
    other_ends_stay(key, '"');
    other_ends_stay(value, '"');
    assert(without_trailing(value, ',') == value);
}

} // verus!
