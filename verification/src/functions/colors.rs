//! Colours for the worker's output on a terminal.

use crate::decimal::is_digit;
use crate::functions::worker_log::LogLevel;
use crate::json::{
    array_view, in_brackets, no_controls, numbers_plain, object_view, parsed_json, pretty_fields,
    pretty_items, pretty_text, quoted, Json, JsonView,
};
use crate::text::{
    chars_of, cut, cut_is_at_first, cut_reads_back, join, join2, joined, lacks, one_char_lacks,
    pieces, same_text, split, split_once,
};
use vstd::prelude::*;
use vstd::utf8::encode_utf8;

verus! {

/// A bracket or a comma, dimmed.
pub open spec fn dimmed(s: Seq<char>) -> Seq<char> {
    "\u{1b}[2m"@ + s + "\u{1b}[0m"@
}

/// What stands between two entries of an array or an object.
pub open spec fn entry_separator() -> Seq<char> {
    dimmed(","@) + "\n"@
}

/// An array or an object: its entries on lines of their own between its brackets.
pub open spec fn bracketed(
    open: Seq<char>,
    close: Seq<char>,
    entries: Seq<Seq<char>>,
    indent: Seq<char>,
) -> Seq<char> {
    if entries.len() == 0 {
        dimmed(open) + dimmed(close)
    } else {
        dimmed(open) + "\n"@ + joined(entries, entry_separator()) + "\n"@ + indent + dimmed(close)
    }
}

/// A JSON value over several lines and in colours, its first line behind `indent`.
pub open spec fn colored(v: JsonView, indent: Seq<char>) -> Seq<char>
    decreases v,
{
    match v {
        JsonView::Object(fields) => bracketed(
            "{"@,
            "}"@,
            colored_fields(fields, indent),
            indent,
        ),
        JsonView::Array(items) => bracketed("["@, "]"@, colored_items(items, indent), indent),
        JsonView::Text(s) => "\u{1b}[32m"@ + quoted(s) + "\u{1b}[0m"@,
        JsonView::Number(_, s) => "\u{1b}[33m"@ + s + "\u{1b}[0m"@,
        JsonView::Bool(b) => "\u{1b}[35m"@ + (if b {
            "true"@
        } else {
            "false"@
        }) + "\u{1b}[0m"@,
        JsonView::Null => "\u{1b}[2mnull\u{1b}[0m"@,
    }
}

/// The entries of a JSON object, each on its line.
pub open spec fn colored_fields(fields: Seq<(Seq<char>, JsonView)>, indent: Seq<char>) -> Seq<
    Seq<char>,
>
    decreases fields,
{
    if fields.len() == 0 {
        Seq::empty()
    } else {
        colored_fields(fields.subrange(0, fields.len() - 1), indent).push(
            indent + "  "@ + "\u{1b}[36m"@ + quoted(fields[fields.len() - 1].0) + "\u{1b}[0m"@
                + dimmed(": "@) + colored(fields[fields.len() - 1].1, indent + "  "@),
        )
    }
}

/// The entries of a JSON array, each on its line.
pub open spec fn colored_items(items: Seq<JsonView>, indent: Seq<char>) -> Seq<Seq<char>>
    decreases items,
{
    if items.len() == 0 {
        Seq::empty()
    } else {
        colored_items(items.subrange(0, items.len() - 1), indent).push(
            indent + "  "@ + colored(items[items.len() - 1], indent + "  "@),
        )
    }
}

/// How many digits a text starts with.
pub open spec fn digit_run(s: Seq<char>) -> int
    decreases s.len(),
{
    if s.len() > 0 && is_digit(s[0]) {
        1 + digit_run(s.skip(1))
    } else {
        0
    }
}

/// The length of the colour code that a text starts with: an escape character, a bracket, digits
/// and the letter m; zero where it starts with none.
pub open spec fn code_length(s: Seq<char>) -> int {
    if s.len() > 1 && s[0] == '\u{1b}' && s[1] == '[' {
        let run = digit_run(s.skip(2));
        if 0 <= run && 2 + run < s.len() && s[2 + run] == 'm' {
            run + 3
        } else {
            0
        }
    } else {
        0
    }
}

/// A text without its colour codes.
pub open spec fn without_codes(s: Seq<char>) -> Seq<char>
    decreases s.len(),
{
    if s.len() == 0 {
        s
    } else if 0 < code_length(s) <= s.len() {
        without_codes(s.skip(code_length(s)))
    } else {
        seq![s[0]] + without_codes(s.skip(1))
    }
}

/// Whether a text shows as another once colour codes are taken out, whatever follows.
spec fn shows(x: Seq<char>, y: Seq<char>) -> bool {
    forall|rest: Seq<char>| #[trigger] without_codes(x + rest) == y + without_codes(rest)
}

spec fn no_escape(s: Seq<char>) -> bool {
    forall|i: int| 0 <= i < s.len() ==> #[trigger] s[i] != '\u{1b}'
}

proof fn plain_start(x: Seq<char>, rest: Seq<char>)
    requires
        no_escape(x),
    ensures
        without_codes(x + rest) == x + without_codes(rest),
    decreases x.len(),
{
    if x.len() == 0 {
        assert(x + rest =~= rest);
        assert(x + without_codes(rest) =~= without_codes(rest));
    } else {
        let tail = x.skip(1);
        assert((x + rest)[0] == x[0]);
        assert((x + rest).skip(1) =~= tail + rest);
        plain_start(tail, rest);
        assert(seq![x[0]] + (tail + without_codes(rest)) =~= x + without_codes(rest));
    }
}

proof fn plain_shows(x: Seq<char>)
    requires
        no_escape(x),
    ensures
        shows(x, x),
{
    assert forall|rest: Seq<char>| #[trigger] without_codes(x + rest) == x + without_codes(rest) by {
        plain_start(x, rest);
    }
}

proof fn both_show(a: Seq<char>, p: Seq<char>, b: Seq<char>, q: Seq<char>)
    requires
        shows(a, p),
        shows(b, q),
    ensures
        shows(a + b, p + q),
{
    assert forall|rest: Seq<char>| #[trigger]
        without_codes((a + b) + rest) == (p + q) + without_codes(rest) by {
        assert((a + b) + rest =~= a + (b + rest));
        assert(without_codes(a + (b + rest)) == p + without_codes(b + rest));
        assert(p + (q + without_codes(rest)) =~= (p + q) + without_codes(rest));
    }
}

proof fn digit_run_is(s: Seq<char>, n: int)
    requires
        0 <= n < s.len(),
        forall|i: int| 0 <= i < n ==> is_digit(#[trigger] s[i]),
        !is_digit(s[n]),
    ensures
        digit_run(s) == n,
    decreases n,
{
    if n > 0 {
        let tail = s.skip(1);
        assert forall|i: int| 0 <= i < n - 1 implies is_digit(#[trigger] tail[i]) by {
            assert(tail[i] == s[i + 1]);
        }
        digit_run_is(tail, n - 1);
    }
}

/// Whether a text is a colour code.
spec fn is_code(s: Seq<char>) -> bool {
    &&& s.len() >= 3
    &&& s[0] == '\u{1b}'
    &&& s[1] == '['
    &&& s.last() == 'm'
    &&& forall|i: int| 2 <= i < s.len() - 1 ==> is_digit(#[trigger] s[i])
}

proof fn code_shows(code: Seq<char>)
    requires
        is_code(code),
    ensures
        shows(code, Seq::empty()),
{
    assert forall|rest: Seq<char>| #[trigger] without_codes(code + rest) == Seq::<char>::empty()
        + without_codes(rest) by {
        let all = code + rest;
        let n = code.len() - 3;
        let tail = all.skip(2);
        assert forall|i: int| 0 <= i < n implies is_digit(#[trigger] tail[i]) by {
            assert(tail[i] == code[i + 2]);
        }
        assert(tail[n] == code[n + 2]);
        digit_run_is(tail, n);
        assert(all[2 + n] == 'm');
        assert(code_length(all) == code.len());
        assert(all.skip(code.len() as int) =~= rest);
        assert(Seq::<char>::empty() + without_codes(rest) =~= without_codes(rest));
    }
}

proof fn codes_show()
    ensures
        shows("\u{1b}[0m"@, Seq::empty()),
        shows("\u{1b}[2m"@, Seq::empty()),
        shows("\u{1b}[32m"@, Seq::empty()),
        shows("\u{1b}[33m"@, Seq::empty()),
        shows("\u{1b}[35m"@, Seq::empty()),
        shows("\u{1b}[36m"@, Seq::empty()),
{
    reveal_strlit("\u{1b}[0m");
    reveal_strlit("\u{1b}[2m");
    reveal_strlit("\u{1b}[32m");
    reveal_strlit("\u{1b}[33m");
    reveal_strlit("\u{1b}[35m");
    reveal_strlit("\u{1b}[36m");
    code_shows("\u{1b}[0m"@);
    code_shows("\u{1b}[2m"@);
    code_shows("\u{1b}[32m"@);
    code_shows("\u{1b}[33m"@);
    code_shows("\u{1b}[35m"@);
    code_shows("\u{1b}[36m"@);
}

/// A text between a colour code and the one that ends it shows as the text.
proof fn painted_shows(code: Seq<char>, x: Seq<char>)
    requires
        shows(code, Seq::empty()),
        no_escape(x),
    ensures
        shows(code + x + "\u{1b}[0m"@, x),
{
    codes_show();
    plain_shows(x);
    both_show(code, Seq::empty(), x, x);
    both_show(code + x, Seq::empty() + x, "\u{1b}[0m"@, Seq::empty());
    assert(Seq::empty() + x + Seq::<char>::empty() =~= x);
}

/// Whether every text in `v` is quoted without control characters.
spec fn quotes_plain(v: JsonView) -> bool
    decreases v,
{
    match v {
        JsonView::Text(s) => no_controls(quoted(s)),
        JsonView::Array(items) => forall|i: int|
            0 <= i < items.len() ==> quotes_plain(#[trigger] items[i]),
        JsonView::Object(fields) => forall|i: int|
            0 <= i < fields.len() ==> no_controls(quoted((#[trigger] fields[i]).0))
                && quotes_plain(fields[i].1),
        _ => true,
    }
}

spec fn all_show(xs: Seq<Seq<char>>, ys: Seq<Seq<char>>) -> bool {
    xs.len() == ys.len() && forall|i: int|
        0 <= i < xs.len() ==> shows(#[trigger] xs[i], ys[i])
}

proof fn joined_shows(xs: Seq<Seq<char>>, ys: Seq<Seq<char>>, p: Seq<char>, q: Seq<char>)
    requires
        all_show(xs, ys),
        shows(p, q),
    ensures
        shows(joined(xs, p), joined(ys, q)),
    decreases xs.len(),
{
    if xs.len() == 0 {
        plain_shows(Seq::empty());
    } else if xs.len() == 1 {
        assert(shows(xs[0], ys[0]));
    } else {
        let xh = xs.drop_last();
        let yh = ys.drop_last();
        assert forall|i: int| 0 <= i < xh.len() implies shows(#[trigger] xh[i], yh[i]) by {
            assert(xh[i] == xs[i] && yh[i] == ys[i]);
        }
        joined_shows(xh, yh, p, q);
        both_show(joined(xh, p), joined(yh, q), p, q);
        assert(shows(xs[xs.len() - 1], ys[xs.len() - 1]));
        both_show(joined(xh, p) + p, joined(yh, q) + q, xs.last(), ys.last());
    }
}

proof fn brackets_show(
    open: Seq<char>,
    close: Seq<char>,
    xs: Seq<Seq<char>>,
    ys: Seq<Seq<char>>,
    indent: Seq<char>,
)
    requires
        all_show(xs, ys),
        no_escape(open),
        no_escape(close),
        no_escape(indent),
    ensures
        shows(bracketed(open, close, xs, indent), in_brackets(open, close, ys, indent)),
{
    codes_show();
    reveal_strlit(",");
    reveal_strlit("\n");
    reveal_strlit(",\n");
    painted_shows("\u{1b}[2m"@, open);
    painted_shows("\u{1b}[2m"@, close);
    painted_shows("\u{1b}[2m"@, ","@);
    plain_shows("\n"@);
    plain_shows(indent);
    if xs.len() == 0 {
        both_show(dimmed(open), open, dimmed(close), close);
    } else {
        both_show(dimmed(","@), ","@, "\n"@, "\n"@);
        assert(","@ + "\n"@ =~= ",\n"@);
        joined_shows(xs, ys, entry_separator(), ",\n"@);
        let body = joined(xs, entry_separator());
        let plain = joined(ys, ",\n"@);
        both_show(dimmed(open), open, "\n"@, "\n"@);
        both_show(dimmed(open) + "\n"@, open + "\n"@, body, plain);
        both_show(dimmed(open) + "\n"@ + body, open + "\n"@ + plain, "\n"@, "\n"@);
        both_show(
            dimmed(open) + "\n"@ + body + "\n"@,
            open + "\n"@ + plain + "\n"@,
            indent,
            indent,
        );
        both_show(
            dimmed(open) + "\n"@ + body + "\n"@ + indent,
            open + "\n"@ + plain + "\n"@ + indent,
            dimmed(close),
            close,
        );
    }
}

proof fn controls_and_escapes(s: Seq<char>)
    requires
        no_controls(s),
    ensures
        no_escape(s),
{
    assert forall|i: int| 0 <= i < s.len() implies #[trigger] s[i] != '\u{1b}' by {
        assert(s[i] >= ' ');
    }
}

proof fn inner_is_plain(indent: Seq<char>)
    requires
        no_escape(indent),
    ensures
        no_escape(indent + "  "@),
{
    reveal_strlit("  ");
}

/// A JSON value in colours shows as the same value over several lines.
proof fn colored_shows(v: JsonView, indent: Seq<char>)
    requires
        quotes_plain(v),
        numbers_plain(v),
        no_escape(indent),
    ensures
        shows(colored(v, indent), pretty_text(v, indent)),
    decreases v,
{
    codes_show();
    match v {
        JsonView::Object(fields) => {
            fields_show(fields, indent);
            reveal_strlit("{");
            reveal_strlit("}");
            brackets_show(
                "{"@,
                "}"@,
                colored_fields(fields, indent),
                pretty_fields(fields, indent),
                indent,
            );
        },
        JsonView::Array(items) => {
            items_show(items, indent);
            reveal_strlit("[");
            reveal_strlit("]");
            brackets_show(
                "["@,
                "]"@,
                colored_items(items, indent),
                pretty_items(items, indent),
                indent,
            );
        },
        JsonView::Text(s) => {
            controls_and_escapes(quoted(s));
            painted_shows("\u{1b}[32m"@, quoted(s));
        },
        JsonView::Number(_, s) => {
            controls_and_escapes(s);
            painted_shows("\u{1b}[33m"@, s);
        },
        JsonView::Bool(b) => {
            reveal_strlit("true");
            reveal_strlit("false");
            painted_shows("\u{1b}[35m"@, if b { "true"@ } else { "false"@ });
        },
        JsonView::Null => {
            reveal_strlit("null");
            reveal_strlit("\u{1b}[2m");
            reveal_strlit("\u{1b}[0m");
            reveal_strlit("\u{1b}[2mnull\u{1b}[0m");
            assert("\u{1b}[2m"@ + "null"@ + "\u{1b}[0m"@ =~= "\u{1b}[2mnull\u{1b}[0m"@);
            painted_shows("\u{1b}[2m"@, "null"@);
        },
    }
}

proof fn fields_show(fields: Seq<(Seq<char>, JsonView)>, indent: Seq<char>)
    requires
        forall|i: int|
            0 <= i < fields.len() ==> no_controls(quoted((#[trigger] fields[i]).0))
                && quotes_plain(fields[i].1) && numbers_plain(fields[i].1),
        no_escape(indent),
    ensures
        all_show(colored_fields(fields, indent), pretty_fields(fields, indent)),
    decreases fields,
{
    if fields.len() > 0 {
        let head = fields.subrange(0, fields.len() - 1);
        let last = fields[fields.len() - 1];
        let inner = indent + "  "@;
        assert forall|i: int| 0 <= i < head.len() implies no_controls(
            quoted((#[trigger] head[i]).0),
        ) && quotes_plain(head[i].1) && numbers_plain(head[i].1) by {
            assert(head[i] == fields[i]);
        }
        fields_show(head, indent);
        inner_is_plain(indent);
        colored_shows(last.1, inner);
        codes_show();
        controls_and_escapes(quoted(last.0));
        let key = "\u{1b}[36m"@ + quoted(last.0) + "\u{1b}[0m"@;
        painted_shows("\u{1b}[36m"@, quoted(last.0));
        reveal_strlit(": ");
        painted_shows("\u{1b}[2m"@, ": "@);
        plain_shows(inner);
        both_show(inner, inner, key, quoted(last.0));
        both_show(inner + key, inner + quoted(last.0), dimmed(": "@), ": "@);
        both_show(
            inner + key + dimmed(": "@),
            inner + quoted(last.0) + ": "@,
            colored(last.1, inner),
            pretty_text(last.1, inner),
        );
        let entry = indent + "  "@ + "\u{1b}[36m"@ + quoted(last.0) + "\u{1b}[0m"@ + dimmed(": "@)
            + colored(last.1, inner);
        assert(entry =~= inner + key + dimmed(": "@) + colored(last.1, inner));
        let xs = colored_fields(fields, indent);
        let ys = pretty_fields(fields, indent);
        assert forall|i: int| 0 <= i < xs.len() implies shows(#[trigger] xs[i], ys[i]) by {
            let before = colored_fields(head, indent);
            if i < before.len() {
                assert(shows(before[i], pretty_fields(head, indent)[i]));
            }
        }
    }
}

proof fn items_show(items: Seq<JsonView>, indent: Seq<char>)
    requires
        forall|i: int|
            0 <= i < items.len() ==> quotes_plain(#[trigger] items[i]) && numbers_plain(items[i]),
        no_escape(indent),
    ensures
        all_show(colored_items(items, indent), pretty_items(items, indent)),
    decreases items,
{
    if items.len() > 0 {
        let head = items.subrange(0, items.len() - 1);
        let last = items[items.len() - 1];
        let inner = indent + "  "@;
        assert forall|i: int| 0 <= i < head.len() implies quotes_plain(#[trigger] head[i])
            && numbers_plain(head[i]) by {
            assert(head[i] == items[i]);
        }
        items_show(head, indent);
        inner_is_plain(indent);
        colored_shows(last, inner);
        plain_shows(inner);
        both_show(inner, inner, colored(last, inner), pretty_text(last, inner));
        let xs = colored_items(items, indent);
        let ys = pretty_items(items, indent);
        assert forall|i: int| 0 <= i < xs.len() implies shows(#[trigger] xs[i], ys[i]) by {
            let before = colored_items(head, indent);
            if i < before.len() {
                assert(shows(before[i], pretty_items(head, indent)[i]));
            }
        }
    }
}

/// Without its colour codes, a JSON value in colours is the value over several lines.
proof fn codes_leave_pretty(v: JsonView, indent: Seq<char>)
    requires
        quotes_plain(v),
        numbers_plain(v),
        no_controls(indent),
    ensures
        without_codes(colored(v, indent)) == pretty_text(v, indent),
{
    let none: Seq<char> = Seq::empty();
    controls_and_escapes(indent);
    colored_shows(v, indent);
    assert(colored(v, indent) + none =~= colored(v, indent));
    assert(without_codes(colored(v, indent) + none) == pretty_text(v, indent) + without_codes(none));
    assert(pretty_text(v, indent) + none =~= pretty_text(v, indent));
}

fn dim(s: &str) -> (r: String)
    ensures
        r@ == dimmed(s@),
{
    let mut r = "\u{1b}[2m".to_owned();
    r.append(s);
    r.append("\u{1b}[0m");
    r
}

fn quote(s: &str) -> (r: String)
    ensures
        r@ == quoted(s@),
        no_controls(quoted(s@)),
{
    Json::text(s).render()
}

fn paint(code: &str, s: &str) -> (r: String)
    ensures
        r@ == code@ + s@ + "\u{1b}[0m"@,
{
    let mut r = code.to_owned();
    r.append(s);
    r.append("\u{1b}[0m");
    r
}

fn bracket(open: &str, close: &str, entries: &Vec<String>, indent: &str) -> (r: String)
    ensures
        r@ == bracketed(open@, close@, entries.deep_view(), indent@),
{
    assert(entries.deep_view().len() == entries@.len());
    let mut r = dim(open);
    if entries.len() > 0 {
        let separator = join2(dim(",").as_str(), "\n");
        r.append("\n");
        r.append(join(entries, separator.as_str()).as_str());
        r.append("\n");
        r.append(indent);
    }
    r.append(dim(close).as_str());
    r
}

/// A JSON value over several lines and in colours, its first line behind `indent`. Without the
/// colour codes it is the value over several lines.
pub fn write_colored_json(value: &Json, indent: &str) -> (r: String)
    ensures
        r@ == colored(value.deep_view(), indent@),
        numbers_plain(value.deep_view()) && no_controls(indent@) ==> without_codes(r@)
            == pretty_text(value.deep_view(), indent@),
{
    let r = color_json(value, indent);
    proof {
        if numbers_plain(value.deep_view()) && no_controls(indent@) {
            codes_leave_pretty(value.deep_view(), indent@);
        }
    }
    r
}

fn color_json(value: &Json, indent: &str) -> (r: String)
    ensures
        r@ == colored(value.deep_view(), indent@),
        quotes_plain(value.deep_view()),
    decreases value,
{
    match value {
        Json::Object(fields) => {
            let inner = join2(indent, "  ");
            let ghost views = fields.deep_view();
            let mut entries: Vec<String> = Vec::new();
            let mut i: usize = 0;
            assert(views.take(0) =~= Seq::empty());
            assert(entries.deep_view() =~= Seq::empty());
            while i < fields.len()
                invariant
                    *value == Json::Object(*fields),
                    i <= fields@.len(),
                    inner@ == indent@ + "  "@,
                    views == fields.deep_view(),
                    entries.deep_view() == colored_fields(views.take(i as int), indent@),
                    forall|j: int|
                        0 <= j < i ==> no_controls(quoted((#[trigger] views[j]).0))
                            && quotes_plain(views[j].1),
                decreases fields@.len() - i,
            {
                let ghost before = entries.deep_view();
                let ghost upto = views.take(i + 1);
                assert(upto.subrange(0, upto.len() - 1) =~= views.take(i as int));
                assert(upto[upto.len() - 1] == (
                    fields@[i as int].0@,
                    fields@[i as int].1.deep_view(),
                ));
                assert(decreases_to!(*value => (*value)->Object_0));
                assert(decreases_to!(*fields => fields[i as int]));
                assert(decreases_to!(fields[i as int] => fields[i as int].1));
                let mut entry = inner.clone();
                entry.append("\u{1b}[36m");
                entry.append(quote(fields[i].0.as_str()).as_str());
                entry.append("\u{1b}[0m");
                entry.append(dim(": ").as_str());
                entry.append(color_json(&fields[i].1, inner.as_str()).as_str());
                let ghost shown = entry@;
                entries.push(entry);
                assert(entries.deep_view() =~= before.push(shown));
                i += 1;
            }
            assert(views.take(i as int) =~= views);
            proof {
                object_view(*fields);
            }
            bracket("{", "}", &entries, indent)
        },
        Json::Array(items) => {
            let inner = join2(indent, "  ");
            let ghost views = items.deep_view();
            let mut entries: Vec<String> = Vec::new();
            let mut i: usize = 0;
            assert(views.take(0) =~= Seq::empty());
            assert(entries.deep_view() =~= Seq::empty());
            while i < items.len()
                invariant
                    *value == Json::Array(*items),
                    i <= items@.len(),
                    inner@ == indent@ + "  "@,
                    views == items.deep_view(),
                    entries.deep_view() == colored_items(views.take(i as int), indent@),
                    forall|j: int| 0 <= j < i ==> quotes_plain(#[trigger] views[j]),
                decreases items@.len() - i,
            {
                let ghost before = entries.deep_view();
                let ghost upto = views.take(i + 1);
                assert(upto.subrange(0, upto.len() - 1) =~= views.take(i as int));
                assert(upto[upto.len() - 1] == items@[i as int].deep_view());
                assert(decreases_to!(*value => (*value)->Array_0));
                assert(decreases_to!(*items => items[i as int]));
                let mut entry = inner.clone();
                entry.append(color_json(&items[i], inner.as_str()).as_str());
                let ghost shown = entry@;
                entries.push(entry);
                assert(entries.deep_view() =~= before.push(shown));
                i += 1;
            }
            assert(views.take(i as int) =~= views);
            proof {
                array_view(*items);
            }
            bracket("[", "]", &entries, indent)
        },
        Json::Text(s) => paint("\u{1b}[32m", quote(s.as_str()).as_str()),
        Json::Number(n) => paint("\u{1b}[33m", n.as_text()),
        Json::Bool(b) => paint("\u{1b}[35m", if *b { "true" } else { "false" }),
        Json::Null => "\u{1b}[2mnull\u{1b}[0m".to_owned(),
    }
}

/// The colour of a method of HTTP.
pub open spec fn method_color(method: Seq<char>) -> Option<Seq<char>> {
    if method == "GET"@ || method == "HEAD"@ {
        Some("36"@)
    } else if method == "POST"@ {
        Some("32"@)
    } else if method == "PUT"@ {
        Some("33"@)
    } else if method == "PATCH"@ {
        Some("35"@)
    } else if method == "DELETE"@ {
        Some("31"@)
    } else if method == "OPTIONS"@ {
        Some("34"@)
    } else {
        None
    }
}

/// A message with the method that it starts with in colour.
pub open spec fn with_method_colored(message: Seq<char>) -> Seq<char> {
    match cut(message, " "@) {
        None => message,
        Some((method, rest)) => match method_color(method) {
            None => message,
            Some(color) => "\u{1b}[1;"@ + color + "m"@ + method + "\u{1b}[0m "@ + rest,
        },
    }
}

/// A message with the method that it starts with in colour.
pub fn colorize_http_method(message: &str) -> (r: String)
    ensures
        r@ == with_method_colored(message@),
{
    let (method, rest) = match split_once(message, " ") {
        Some(parts) => parts,
        None => {
            return message.to_owned();
        },
    };
    let color: &str = if same_text(method, "GET") || same_text(method, "HEAD") {
        "36"
    } else if same_text(method, "POST") {
        "32"
    } else if same_text(method, "PUT") {
        "33"
    } else if same_text(method, "PATCH") {
        "35"
    } else if same_text(method, "DELETE") {
        "31"
    } else if same_text(method, "OPTIONS") {
        "34"
    } else {
        return message.to_owned();
    };
    let mut r = "\u{1b}[1;".to_owned();
    r.append(color);
    r.append("m");
    r.append(method);
    r.append("\u{1b}[0m ");
    r.append(rest);
    r
}

/// The colour of a status, by its first digit.
pub open spec fn status_color(status: Seq<char>) -> Option<Seq<char>> {
    if status.len() == 0 {
        None
    } else if status[0] == '2' || status[0] == '3' {
        Some("32"@)
    } else if status[0] == '4' {
        Some("33"@)
    } else if status[0] == '5' {
        Some("31"@)
    } else {
        None
    }
}

/// A message with the first status in it in colour.
pub open spec fn with_status_colored(message: Seq<char>) -> Seq<char> {
    match cut(message, "status="@) {
        None => message,
        Some((before, rest)) => {
            let run = digit_run(rest);
            let status = rest.take(run);
            match status_color(status) {
                None => message,
                Some(color) => before + "status="@ + "\u{1b}["@ + color + "m"@ + status
                    + "\u{1b}[0m"@ + rest.skip(run),
            }
        },
    }
}

proof fn digit_run_bounds(s: Seq<char>)
    ensures
        0 <= digit_run(s) <= s.len(),
    decreases s.len(),
{
    if s.len() > 0 && is_digit(s[0]) {
        digit_run_bounds(s.skip(1));
    }
}

fn count_digits(chars: &Vec<char>) -> (r: usize)
    ensures
        r == digit_run(chars@),
        r <= chars@.len(),
{
    let mut i: usize = 0;
    assert(chars@.skip(0) =~= chars@);
    proof {
        digit_run_bounds(chars@);
    }
    while i < chars.len() && '0' <= chars[i] && chars[i] <= '9'
        invariant
            i <= chars@.len(),
            digit_run(chars@) == i + digit_run(chars@.skip(i as int)),
        decreases chars@.len() - i,
    {
        assert(chars@.skip(i as int)[0] == chars@[i as int]);
        assert(chars@.skip(i as int).skip(1) =~= chars@.skip(i + 1));
        i += 1;
    }
    assert(i < chars@.len() ==> chars@.skip(i as int)[0] == chars@[i as int]);
    assert(digit_run(chars@.skip(i as int)) == 0);
    i
}

/// A message with the first status in it in colour.
pub fn colorize_status_field(message: &str) -> (r: String)
    ensures
        r@ == with_status_colored(message@),
{
    let (before, rest) = match split_once(message, "status=") {
        Some(parts) => parts,
        None => {
            return message.to_owned();
        },
    };
    let chars = chars_of(rest);
    let run: usize = count_digits(&chars);
    if run == 0 {
        return message.to_owned();
    }
    let first = chars[0];
    assert(rest@.take(run as int)[0] == first);
    let color: &str = if first == '2' || first == '3' {
        "32"
    } else if first == '4' {
        "33"
    } else if first == '5' {
        "31"
    } else {
        return message.to_owned();
    };
    let mut r = before.to_owned();
    r.append("status=");
    r.append("\u{1b}[");
    r.append(color);
    r.append("m");
    r.append(rest.substring_char(0, run));
    r.append("\u{1b}[0m");
    r.append(rest.substring_char(run, chars.len()));
    r
}

/// The summary of a structured log in the colour of its level.
pub open spec fn colored_summary(message: Seq<char>, level: LogLevel) -> Seq<char> {
    match level {
        LogLevel::Info => message,
        LogLevel::Error => "\u{1b}["@ + "1;31"@ + "m"@ + message + "\u{1b}[0m"@,
        LogLevel::Warn => "\u{1b}["@ + "1;33"@ + "m"@ + message + "\u{1b}[0m"@,
        _ => "\u{1b}["@ + "2"@ + "m"@ + message + "\u{1b}[0m"@,
    }
}

/// The summary of a structured log in the colour of its level.
pub fn colorize_log_summary(message: &str, level: LogLevel) -> (r: String)
    ensures
        r@ == colored_summary(message@, level),
{
    let color: &str = match level {
        LogLevel::Error => "1;31",
        LogLevel::Warn => "1;33",
        LogLevel::Debug => "2",
        LogLevel::Trace => "2",
        LogLevel::Info => {
            return message.to_owned();
        },
    };
    let mut r = "\u{1b}[".to_owned();
    r.append(color);
    r.append("m");
    r.append(message);
    r.append("\u{1b}[0m");
    r
}

/// A field of a structured log in colours.
pub open spec fn colored_field(field: Seq<char>) -> Seq<char> {
    match cut(field, "="@) {
        None => field,
        Some((key, value)) => "\u{1b}[36m"@ + key + "\u{1b}[0m=\u{1b}[32m"@ + value
            + "\u{1b}[0m"@,
    }
}

/// A structured log in colours: as JSON where it is, and otherwise its summary and its fields.
pub open spec fn colored_log(message: Seq<char>, value: Option<JsonView>, level: LogLevel) -> Seq<char> {
    match value {
        Some(v) => colored(v, Seq::empty()),
        None => match cut(message, " | "@) {
            None => colored_summary(message, level),
            Some((summary, fields)) => colored_summary(summary, level) + " \u{1b}[2m|\u{1b}[0m "@
                + joined(
                pieces(fields, " "@).map_values(|field: Seq<char>| colored_field(field)),
                " "@,
            ),
        },
    }
}

fn color_fields(fields: &str) -> (r: Vec<String>)
    ensures
        r.deep_view() == pieces(fields@, " "@).map_values(
            |field: Seq<char>| colored_field(field),
        ),
{
    proof {
        reveal_strlit(" ");
    }
    let parts = split(fields, " ");
    let ghost wanted = pieces(fields@, " "@).map_values(|field: Seq<char>| colored_field(field));
    let mut r: Vec<String> = Vec::new();
    let mut i: usize = 0;
    assert(r.deep_view() =~= wanted.take(0));
    while i < parts.len()
        invariant
            i <= parts@.len(),
            parts.deep_view() == pieces(fields@, " "@),
            wanted == pieces(fields@, " "@).map_values(|field: Seq<char>| colored_field(field)),
            r.deep_view() == wanted.take(i as int),
        decreases parts@.len() - i,
    {
        let ghost before = r.deep_view();
        let part: &str = parts[i];
        assert(parts.deep_view()[i as int] == part@);
        let text = match split_once(part, "=") {
            Some((key, value)) => {
                let mut text = "\u{1b}[36m".to_owned();
                text.append(key);
                text.append("\u{1b}[0m=\u{1b}[32m");
                text.append(value);
                text.append("\u{1b}[0m");
                text
            },
            None => part.to_owned(),
        };
        r.push(text);
        assert(r.deep_view() =~= before.push(wanted[i as int]));
        i += 1;
        assert(r.deep_view() =~= wanted.take(i as int));
    }
    assert(wanted.take(i as int) =~= wanted);
    r
}

/// A structured log in colours, by the JSON value that it is, if it is one.
pub fn colorize_log_value(message: &str, value: Option<Json>, level: LogLevel) -> (r: String)
    ensures
        r@ == colored_log(message@, value.deep_view(), level),
{
    if let Some(value) = value {
        proof {
            reveal_strlit("");
            assert(""@ =~= Seq::<char>::empty());
        }
        return write_colored_json(&value, "");
    }
    match split_once(message, " | ") {
        None => colorize_log_summary(message, level),
        Some((summary, fields)) => {
            let mut r = colorize_log_summary(summary, level);
            r.append(" \u{1b}[2m|\u{1b}[0m ");
            r.append(join(&color_fields(fields), " ").as_str());
            r
        },
    }
}

/// A structured log in colours.
pub fn colorize_structured_log(message: &str, level: LogLevel) -> (r: String)
    ensures
        r@ == colored_log(message@, parsed_json(encode_utf8(message@)), level),
{
    let value = Json::parse(message.as_bytes());
    colorize_log_value(message, value, level)
}

/// A message as it goes to the terminal.
pub open spec fn decorated(
    message: Seq<char>,
    level: LogLevel,
    structured: bool,
    enabled: bool,
) -> Seq<char> {
    if !enabled {
        message
    } else if structured {
        colored_log(message, parsed_json(encode_utf8(message)), level)
    } else {
        with_status_colored(with_method_colored(message))
    }
}

/// A message as it goes to the terminal: as it is, unless colours are enabled.
pub fn decorate_worker_message(message: &str, level: LogLevel, structured: bool, enabled: bool) -> (r:
    String)
    ensures
        r@ == decorated(message@, level, structured, enabled),
{
    if !enabled {
        return message.to_owned();
    }
    if structured {
        return colorize_structured_log(message, level);
    }
    colorize_status_field(colorize_http_method(message).as_str())
}

proof fn methods_differ()
    ensures
        "GET"@ != "HEAD"@,
        "GET"@ != "POST"@,
        "GET"@ != "PUT"@,
        "GET"@ != "PATCH"@,
        "GET"@ != "DELETE"@,
        "GET"@ != "OPTIONS"@,
        "HEAD"@ != "POST"@,
        "HEAD"@ != "PUT"@,
        "HEAD"@ != "PATCH"@,
        "HEAD"@ != "DELETE"@,
        "HEAD"@ != "OPTIONS"@,
        "POST"@ != "PUT"@,
        "POST"@ != "PATCH"@,
        "POST"@ != "DELETE"@,
        "POST"@ != "OPTIONS"@,
        "PUT"@ != "PATCH"@,
        "PUT"@ != "DELETE"@,
        "PUT"@ != "OPTIONS"@,
        "PATCH"@ != "DELETE"@,
        "PATCH"@ != "OPTIONS"@,
        "DELETE"@ != "OPTIONS"@,
{
    reveal_strlit("GET");
    reveal_strlit("HEAD");
    reveal_strlit("POST");
    reveal_strlit("PUT");
    reveal_strlit("PATCH");
    reveal_strlit("DELETE");
    reveal_strlit("OPTIONS");
    assert("GET"@.len() == 3);
    assert("HEAD"@.len() == 4);
    assert("POST"@.len() == 4);
    assert("PUT"@.len() == 3);
    assert("PATCH"@.len() == 5);
    assert("DELETE"@.len() == 6);
    assert("OPTIONS"@.len() == 7);
    assert("GET"@[0] == 'G' && "PUT"@[0] == 'P');
    assert("HEAD"@[0] == 'H' && "POST"@[0] == 'P');
}

/// Each method of a request has its colour.
pub proof fn method_has_its_color(method: Seq<char>)
    ensures
        method == "GET"@ ==> method_color(method) == Some("36"@),
        method == "HEAD"@ ==> method_color(method) == Some("36"@),
        method == "POST"@ ==> method_color(method) == Some("32"@),
        method == "PUT"@ ==> method_color(method) == Some("33"@),
        method == "PATCH"@ ==> method_color(method) == Some("35"@),
        method == "DELETE"@ ==> method_color(method) == Some("31"@),
        method == "OPTIONS"@ ==> method_color(method) == Some("34"@),
        method_color(method) is None <==> method != "GET"@ && method != "HEAD"@ && method != "POST"@ && method != "PUT"@ && method != "PATCH"@ && method != "DELETE"@ && method != "OPTIONS"@,
{
    methods_differ();
}

/// A message that starts with a method of a request has that in its colour, and nothing else of it
/// changes; every other message stays as it is.
pub proof fn method_is_colored(method: Seq<char>, rest: Seq<char>)
    requires
        !method.contains(' '),
    ensures
        method_color(method) is Some ==> with_method_colored(method + " "@ + rest)
            == "\u{1b}[1;"@ + method_color(method)->0 + "m"@ + method + "\u{1b}[0m "@ + rest,
        method_color(method) is None ==> with_method_colored(method + " "@ + rest) == method + " "@
            + rest,
        with_method_colored(method) == method,
{
    reveal_strlit(" ");
    assert(" "@ =~= seq![' ']);
    one_char_lacks(method, ' ');
    cut_reads_back(method, " "@, rest);
    cut_is_at_first(method, " "@);
}

proof fn run_of_digits(digits: Seq<char>, rest: Seq<char>)
    requires
        forall|i: int| 0 <= i < digits.len() ==> is_digit(#[trigger] digits[i]),
        rest.len() > 0 ==> !is_digit(rest[0]),
    ensures
        digit_run(digits + rest) == digits.len(),
    decreases digits.len(),
{
    let s = digits + rest;
    if digits.len() > 0 {
        let d = digits.skip(1);
        assert(s.skip(1) =~= d + rest);
        assert(s[0] == digits[0]);
        assert forall|i: int| 0 <= i < d.len() implies is_digit(#[trigger] d[i]) by {
            assert(d[i] == digits[i + 1]);
        }
        run_of_digits(d, rest);
    } else {
        assert(s =~= rest);
    }
}

/// The first status in a message has the colour of its kind: green for what went well, yellow for
/// what the client did wrong, red for what the server did. Nothing else of the message changes.
pub proof fn status_is_colored(before: Seq<char>, digits: Seq<char>, rest: Seq<char>)
    requires
        lacks(before + "status"@, "status="@),
        digits.len() > 0,
        forall|i: int| 0 <= i < digits.len() ==> is_digit(#[trigger] digits[i]),
        rest.len() > 0 ==> !is_digit(rest[0]),
    ensures
        ({
            let message = before + "status="@ + (digits + rest);
            let with = |color: Seq<char>|
                before + "status="@ + "\u{1b}["@ + color + "m"@ + digits + "\u{1b}[0m"@ + rest;
            let kind = digits[0];
            let shown = with_status_colored(message);
            &&& kind == '2' || kind == '3' ==> shown == with("32"@)
            &&& kind == '4' ==> shown == with("33"@)
            &&& kind == '5' ==> shown == with("31"@)
            &&& !('2' <= kind <= '5') ==> shown == message
        }),
{
    reveal_strlit("status");
    reveal_strlit("status=");
    assert("status="@.drop_last() =~= "status"@);
    cut_reads_back(before, "status="@, digits + rest);
    run_of_digits(digits, rest);
    let tail = digits + rest;
    assert(tail.take(digits.len() as int) =~= digits);
    assert(tail.skip(digits.len() as int) =~= rest);
}

/// A message without a status stays as it is.
pub proof fn message_without_status_stays(message: Seq<char>)
    requires
        lacks(message, "status="@),
    ensures
        with_status_colored(message) == message,
{
    cut_is_at_first(message, "status="@);
}

/// What a log says is red for an error and yellow for a warning, plain for information and dim below
/// that.
pub proof fn summary_has_color_of_level(message: Seq<char>, level: LogLevel)
    ensures
        level == LogLevel::Info ==> colored_summary(message, level) == message,
        level == LogLevel::Error ==> colored_summary(message, level) == "\u{1b}["@ + "1;31"@
            + "m"@ + message + "\u{1b}[0m"@,
        level == LogLevel::Warn ==> colored_summary(message, level) == "\u{1b}["@ + "1;33"@ + "m"@
            + message + "\u{1b}[0m"@,
        level == LogLevel::Debug || level == LogLevel::Trace ==> colored_summary(message, level)
            == "\u{1b}["@ + "2"@ + "m"@ + message + "\u{1b}[0m"@,
{
}

/// What is written is coloured where that is wanted: a log of a JSON object as JSON, or else as what
/// it says and its fields, and every other line by its method and its status.
pub proof fn lines_are_colored_by_kind(message: Seq<char>, level: LogLevel, structured: bool)
    ensures
        ({
            let value = parsed_json(encode_utf8(message));
            let parts = cut(message, " | "@);
            let shown = decorated(message, level, structured, true);
            &&& decorated(message, level, structured, false) == message
            &&& !structured ==> shown == with_status_colored(with_method_colored(message))
            &&& structured && value is Some ==> shown == colored(value->0, Seq::empty())
            &&& structured && value is None && parts is None ==> shown == colored_summary(
                message,
                level,
            )
            &&& structured && value is None && parts is Some ==> shown == colored_summary(
                (parts->0).0,
                level,
            ) + " \u{1b}[2m|\u{1b}[0m "@ + joined(
                pieces((parts->0).1, " "@).map_values(|field: Seq<char>| colored_field(field)),
                " "@,
            )
        }),
{
}

/// A field has its name and its value in colours, and a text that is no field has none.
pub proof fn field_is_colored(key: Seq<char>, value: Seq<char>)
    requires
        !key.contains('='),
    ensures
        colored_field(key + "="@ + value) == "\u{1b}[36m"@ + key + "\u{1b}[0m=\u{1b}[32m"@ + value
            + "\u{1b}[0m"@,
        colored_field(key) == key,
{
    reveal_strlit("=");
    assert("="@ =~= seq!['=']);
    one_char_lacks(key, '=');
    cut_reads_back(key, "="@, value);
    cut_is_at_first(key, "="@);
}

} // verus!
