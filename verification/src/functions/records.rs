//! Records of several lines in the worker's output, and what is logged of them.

use crate::functions::colors::{decorate_worker_message, decorated};
use crate::functions::worker_log::{
    expand_escaped_whitespace, expanded, format_worker_log_line, formatted_log,
    strip_ansi_sequences, stripped_has_no_escape, without_ansi, LogLevel,
};
use crate::json::parsed_json;
use crate::text::{cut, join, join2, join3, joined, lines, lines_of, same_text, split_once};
use crate::trim::{
    is_space, space, trim, trim_char, trim_end_char, trimmed, without_leading, without_trailing,
};
use vstd::prelude::*;
use vstd::utf8::encode_utf8;

verus! {

/// The name and the value in a line of a record, if it has both.
pub open spec fn field_in(line: Seq<char>) -> Option<(Seq<char>, Seq<char>)> {
    match cut(without_trailing(trimmed(line), ','), ":"@) {
        None => None,
        Some((key, value)) => {
            let key = without_trailing(without_leading(trimmed(key), '"'), '"');
            let value = without_trailing(
                without_leading(without_trailing(trimmed(value), ','), '"'),
                '"',
            );
            if key.len() > 0 && value.len() > 0 {
                Some((key, value))
            } else {
                None
            }
        },
    }
}

/// The name and the value in a line of a record, if it has both.
pub fn parse_worker_record_field(line: &str) -> (r: Option<(String, String)>)
    ensures
        r.deep_view() == field_in(line@),
{
    match split_once(trim_end_char(trim(line), ','), ":") {
        None => None,
        Some((key, value)) => {
            let key = trim_char(trim(key), '"');
            let value = trim_char(trim_end_char(trim(value), ','), '"');
            if key.is_empty() || value.is_empty() {
                None
            } else {
                Some((key.to_owned(), value.to_owned()))
            }
        },
    }
}

/// Whether a field only says whose request a record is of.
pub open spec fn is_context(key: Seq<char>) -> bool {
    key == "executionId"@ || key == "sessionId"@ || key == "userId"@
}

/// Whether a field only says whose request a record is of.
pub fn is_request_context_metadata(key: &str) -> (r: bool)
    ensures
        r == is_context(key@),
{
    same_text(key, "executionId") || same_text(key, "sessionId") || same_text(key, "userId")
}

/// What is logged of a field, if anything.
pub open spec fn detail_of(key: Seq<char>, value: Seq<char>) -> Option<Seq<char>> {
    if value == "{"@ || value == "}"@ {
        None
    } else if key == "durationMillis"@ {
        Some("duration="@ + value + "ms"@)
    } else if key == "statusCode"@ {
        Some("status="@ + value)
    } else {
        Some(key + "="@ + value)
    }
}

/// What is logged of a field, if anything.
pub fn format_request_context_field(key: &str, value: &str) -> (r: Option<String>)
    ensures
        r.deep_view() == detail_of(key@, value@),
{
    if same_text(value, "{") || same_text(value, "}") {
        None
    } else if same_text(key, "durationMillis") {
        Some(join3("duration=", value, "ms"))
    } else if same_text(key, "statusCode") {
        Some(join2("status=", value))
    } else {
        Some(join3(key, "=", value))
    }
}

/// The fields in lines.
pub open spec fn fields_in(all: Seq<Seq<char>>) -> Seq<(Seq<char>, Seq<char>)>
    decreases all.len(),
{
    if all.len() == 0 {
        Seq::empty()
    } else {
        let before = fields_in(all.drop_last());
        match field_in(all.last()) {
            Some(field) => before.push(field),
            None => before,
        }
    }
}

/// Whether one of the fields only says whose request a record is of.
pub open spec fn has_context(fields: Seq<(Seq<char>, Seq<char>)>) -> bool {
    exists|i: int| 0 <= i < fields.len() && is_context((#[trigger] fields[i]).0)
}

/// What is logged of fields.
pub open spec fn details_of(fields: Seq<(Seq<char>, Seq<char>)>) -> Seq<Seq<char>>
    decreases fields.len(),
{
    if fields.len() == 0 {
        Seq::empty()
    } else {
        let before = details_of(fields.drop_last());
        let last = fields.last();
        if is_context(last.0) {
            before
        } else {
            match detail_of(last.0, last.1) {
                Some(detail) => before.push(detail),
                None => before,
            }
        }
    }
}

/// A record of a request on one line: its heading and what is logged of its fields. A record of
/// another kind stays as it is.
pub open spec fn compacted(record: Seq<char>) -> Seq<char> {
    let all = lines_of(record);
    let fields = fields_in(all.skip(1));
    let heading = if all.len() > 0 {
        trimmed(all[0])
    } else {
        Seq::empty()
    };
    if all.len() == 0 || !has_context(fields) {
        record
    } else if details_of(fields).len() == 0 {
        heading
    } else {
        heading + " "@ + joined(details_of(fields), " "@)
    }
}

fn read_fields(all: &Vec<String>) -> (r: Vec<(String, String)>)
    requires
        all@.len() > 0,
    ensures
        r.deep_view() == fields_in(all.deep_view().skip(1)),
{
    let ghost rest = all.deep_view().skip(1);
    let mut r: Vec<(String, String)> = Vec::new();
    let mut i: usize = 1;
    assert(rest.take(0) =~= Seq::empty());
    assert(r.deep_view() =~= Seq::empty());
    while i < all.len()
        invariant
            1 <= i <= all@.len(),
            rest == all.deep_view().skip(1),
            r.deep_view() == fields_in(rest.take(i - 1)),
        decreases all@.len() - i,
    {
        let ghost before = r.deep_view();
        assert(rest.take(i as int).drop_last() =~= rest.take(i - 1));
        assert(rest.take(i as int).last() == all@[i as int]@);
        if let Some(field) = parse_worker_record_field(all[i].as_str()) {
            let ghost shown = field.deep_view();
            r.push(field);
            assert(r.deep_view() =~= before.push(shown));
        }
        i += 1;
    }
    assert(rest.take(i - 1) =~= rest);
    r
}

fn find_context(fields: &Vec<(String, String)>) -> (r: bool)
    ensures
        r == has_context(fields.deep_view()),
{
    let mut i: usize = 0;
    while i < fields.len()
        invariant
            i <= fields@.len(),
            forall|j: int| 0 <= j < i ==> !is_context((#[trigger] fields.deep_view()[j]).0),
        decreases fields@.len() - i,
    {
        if is_request_context_metadata(fields[i].0.as_str()) {
            assert(is_context(fields.deep_view()[i as int].0));
            return true;
        }
        i += 1;
    }
    false
}

fn read_details(fields: &Vec<(String, String)>) -> (r: Vec<String>)
    ensures
        r.deep_view() == details_of(fields.deep_view()),
{
    let ghost all = fields.deep_view();
    let mut r: Vec<String> = Vec::new();
    let mut i: usize = 0;
    assert(all.take(0) =~= Seq::empty());
    assert(r.deep_view() =~= Seq::empty());
    while i < fields.len()
        invariant
            i <= fields@.len(),
            all == fields.deep_view(),
            r.deep_view() == details_of(all.take(i as int)),
        decreases fields@.len() - i,
    {
        let ghost before = r.deep_view();
        assert(all.take(i + 1).drop_last() =~= all.take(i as int));
        assert(all.take(i + 1).last() == (fields@[i as int].0@, fields@[i as int].1@));
        if !is_request_context_metadata(fields[i].0.as_str()) {
            if let Some(detail) = format_request_context_field(
                fields[i].0.as_str(),
                fields[i].1.as_str(),
            ) {
                let ghost shown = detail@;
                r.push(detail);
                assert(r.deep_view() =~= before.push(shown));
            }
        }
        i += 1;
    }
    assert(all.take(i as int) =~= all);
    r
}

/// A record of a request on one line.
pub fn compact_worker_record(record: &str) -> (r: String)
    ensures
        r@ == compacted(record@),
{
    let all = lines(record);
    assert(all.deep_view().len() == all@.len());
    if all.len() == 0 {
        return record.to_owned();
    }
    let fields = read_fields(&all);
    if !find_context(&fields) {
        return record.to_owned();
    }
    let heading = trim(all[0].as_str());
    assert(all.deep_view()[0] == all@[0]@);
    let details = read_details(&fields);
    assert(details.deep_view().len() == details@.len());
    if details.len() == 0 {
        heading.to_owned()
    } else {
        join3(heading, " ", join(&details, " ").as_str())
    }
}

/// Whether a line goes on with the record before it: it is empty or starts with space.
pub open spec fn continues(line: Seq<char>) -> bool {
    line.len() == 0 || is_space(line[0])
}

/// Whether a line goes on with the record before it.
pub fn is_worker_record_continuation(line: &str) -> (r: bool)
    ensures
        r == continues(line@),
{
    if line.is_empty() {
        return true;
    }
    space(line.get_char(0))
}

/// What a record is logged as: the level and the text. Where there are no colours, the text has no
/// terminal sequences of its own either.
pub open spec fn logged(record: Seq<char>, fallback: LogLevel, colors: bool) -> (LogLevel, Seq<char>) {
    let line = without_ansi(compacted(expanded(record)));
    let log = formatted_log(line, parsed_json(encode_utf8(line)), fallback);
    (
        log.level,
        if colors {
            decorated(log.message, log.level, log.structured, true)
        } else {
            without_ansi(log.message)
        },
    )
}

/// What a record is logged as: the level and the text.
pub fn worker_log_message(record: &str, fallback_level: LogLevel, colors: bool) -> (r: (
    LogLevel,
    String,
))
    ensures
        (r.0, r.1@) == logged(record@, fallback_level, colors),
        !colors ==> !r.1@.contains('\u{1b}'),
{
    let text = expand_escaped_whitespace(record);
    let line = compact_worker_record(text.as_str());
    let formatted = format_worker_log_line(line.as_str(), fallback_level);
    let message = if colors {
        decorate_worker_message(
            formatted.message.as_str(),
            formatted.level,
            formatted.structured,
            true,
        )
    } else {
        proof {
            stripped_has_no_escape(formatted.message@);
        }
        let plain = strip_ansi_sequences(formatted.message.as_str());
        decorate_worker_message(plain.as_str(), formatted.level, formatted.structured, false)
    };
    (formatted.level, message)
}

/// The record that is being put together from the lines of a stream.
#[derive(Debug)]
pub struct PendingRecord {
    pub record: Option<String>,
}

/// The record after a line: one that goes on with it is added, and any other starts a new one.
pub open spec fn record_after(pending: Option<Seq<char>>, line: Seq<char>) -> Seq<char> {
    match pending {
        Some(record) => if continues(line) {
            record + "\n"@ + line
        } else {
            line
        },
        None => line,
    }
}

/// The record that a line brings to its end, if any.
pub open spec fn record_ended(pending: Option<Seq<char>>, line: Seq<char>) -> Option<Seq<char>> {
    if pending is Some && !continues(line) {
        pending
    } else {
        None
    }
}

impl PendingRecord {
    /// No line yet.
    pub fn new() -> (r: PendingRecord)
        ensures
            r.record is None,
    {
        PendingRecord { record: None }
    }

    /// Takes a line and gives the record that it brings to its end, if any.
    pub fn take_line(&mut self, line: &str) -> (r: Option<String>)
        ensures
            r.deep_view() == record_ended(old(self).record.deep_view(), line@),
            final(self).record.deep_view() == Some(
                record_after(old(self).record.deep_view(), line@),
            ),
    {
        match self.record.take() {
            Some(record) => {
                if is_worker_record_continuation(line) {
                    self.record = Some(join3(record.as_str(), "\n", line));
                    None
                } else {
                    self.record = Some(line.to_owned());
                    Some(record)
                }
            },
            None => {
                self.record = Some(line.to_owned());
                None
            },
        }
    }

    /// Gives the record, when no line comes for a while or the stream ends.
    pub fn flush(&mut self) -> (r: Option<String>)
        ensures
            r.deep_view() == old(self).record.deep_view(),
            final(self).record is None,
    {
        self.record.take()
    }
}

/// The records that a row of lines makes, the last of them unfinished.
pub open spec fn records_of(all: Seq<Seq<char>>) -> Seq<Seq<char>>
    decreases all.len(),
{
    if all.len() == 0 {
        Seq::empty()
    } else {
        let before = records_of(all.drop_last());
        if before.len() > 0 && continues(all.last()) {
            before.drop_last().push(before.last() + "\n"@ + all.last())
        } else {
            before.push(all.last())
        }
    }
}

/// Putting a stream together line by line loses and repeats no line: a line ends a record exactly
/// where the rows of lines say, and the record that goes on is the last of them.
pub proof fn lines_make_records(all: Seq<Seq<char>>, line: Seq<char>)
    ensures
        ({
            let before = records_of(all);
            let after = records_of(all.push(line));
            let pending = if before.len() > 0 {
                Some(before.last())
            } else {
                None
            };
            &&& after.last() == record_after(pending, line)
            &&& record_ended(pending, line) matches Some(record) ==> after
                == before.push(line) && before.last() == record
            &&& record_ended(pending, line) is None && before.len() > 0 ==> after.drop_last()
                == before.drop_last()
        }),
{
    assert(all.push(line).drop_last() =~= all);
    let before = records_of(all);
    let after = records_of(all.push(line));
    if before.len() > 0 && continues(line) {
        assert(after.drop_last() =~= before.drop_last());
    }
}

/// Without colours nothing is added to a message, and what is logged of any record has no escape
/// character in it.
pub proof fn no_colors_when_disabled(
    message: Seq<char>,
    level: LogLevel,
    structured: bool,
    record: Seq<char>,
)
    ensures
        decorated(message, level, structured, false) == message,
        !logged(record, level, false).1.contains('\u{1b}'),
{
    let line = without_ansi(compacted(expanded(record)));
    stripped_has_no_escape(formatted_log(line, parsed_json(encode_utf8(line)), level).message);
}

} // verus!
