//! JSON values, and their text through `serde_json`.

use crate::decimal::decimal;
use crate::text::joined;
use crate::text_order::{
    place, text_lt, text_lt_irreflexive, text_lt_total, text_lt_transitive, Placement,
};
use serde_json::{Number, Value};
use vstd::prelude::*;
use vstd::utf8::encode_utf8;

verus! {

/// A number of `serde_json`.
#[verifier::external_type_specification]
#[verifier::external_body]
pub struct ExNumber(serde_json::Number);

/// A value of `serde_json`.
#[verifier::external_type_specification]
#[verifier::external_body]
pub struct ExValue(serde_json::Value);

/// A JSON number: its text, and its value where that is a whole number from 0 that fits 64
/// bits.
#[derive(Debug)]
pub struct JsonNumber {
    raw: Number,
    unsigned: Option<u64>,
    text: String,
}

impl View for JsonNumber {
    type V = (Option<u64>, Seq<char>);

    closed spec fn view(&self) -> (Option<u64>, Seq<char>) {
        (self.unsigned, self.text@)
    }
}

/// A JSON value. The fields of an object are in the order of their names.
#[derive(Debug)]
pub enum Json {
    Null,
    Bool(bool),
    Number(JsonNumber),
    Text(String),
    Array(Vec<Json>),
    Object(Vec<(String, Json)>),
}

/// What a JSON value holds.
#[verifier::ext_equal]
pub enum JsonView {
    Null,
    Bool(bool),
    Number(Option<u64>, Seq<char>),
    Text(Seq<char>),
    Array(Seq<JsonView>),
    Object(Seq<(Seq<char>, JsonView)>),
}

/// What `j` holds.
pub open spec fn json_view(j: Json) -> JsonView
    decreases j,
{
    match j {
        Json::Null => JsonView::Null,
        Json::Bool(b) => JsonView::Bool(b),
        Json::Number(n) => JsonView::Number(n@.0, n@.1),
        Json::Text(s) => JsonView::Text(s@),
        Json::Array(items) => JsonView::Array(
            Seq::new(
                items@.len(),
                |i: int|
                    if 0 <= i < items@.len() {
                        json_view(items@[i])
                    } else {
                        JsonView::Null
                    },
            ),
        ),
        Json::Object(fields) => JsonView::Object(
            Seq::new(
                fields@.len(),
                |i: int|
                    if 0 <= i < fields@.len() {
                        (fields@[i].0@, json_view(fields@[i].1))
                    } else {
                        (Seq::empty(), JsonView::Null)
                    },
            ),
        ),
    }
}

impl DeepView for Json {
    type V = JsonView;

    open spec fn deep_view(&self) -> JsonView {
        json_view(*self)
    }
}

/// The fields of an object.
pub type Fields = Seq<(Seq<char>, JsonView)>;

/// What an array holds.
pub proof fn array_view(items: Vec<Json>)
    ensures
        json_view(Json::Array(items)) == JsonView::Array(items.deep_view()),
{
    match json_view(Json::Array(items)) {
        JsonView::Array(s) => {
            assert(s =~= items.deep_view());
        },
        _ => {},
    }
}

/// What an object holds.
pub proof fn object_view(fields: Vec<(String, Json)>)
    ensures
        json_view(Json::Object(fields)) == JsonView::Object(fields.deep_view()),
{
    match json_view(Json::Object(fields)) {
        JsonView::Object(s) => {
            assert(s =~= fields.deep_view());
        },
        _ => {},
    }
}

/// Whether the names of the fields are in order, each once.
pub open spec fn names_ordered(fields: Fields) -> bool {
    forall|i: int, j: int|
        0 <= i < j < fields.len() ==> text_lt((#[trigger] fields[i]).0, (#[trigger] fields[j]).0)
}

/// Whether every object in `v` has its fields in order, each once.
pub open spec fn ordered_json(v: JsonView) -> bool
    decreases v,
{
    match v {
        JsonView::Array(items) => forall|i: int|
            0 <= i < items.len() ==> ordered_json(#[trigger] items[i]),
        JsonView::Object(fields) => names_ordered(fields) && forall|i: int|
            0 <= i < fields.len() ==> ordered_json((#[trigger] fields[i]).1),
        _ => true,
    }
}

/// Whether arrays and objects stand in each other at most `depth` deep.
pub open spec fn nests_within(v: JsonView, depth: nat) -> bool
    decreases depth,
{
    match v {
        JsonView::Array(items) => depth > 0 && forall|i: int|
            0 <= i < items.len() ==> nests_within(#[trigger] items[i], (depth - 1) as nat),
        JsonView::Object(fields) => depth > 0 && forall|i: int|
            0 <= i < fields.len() ==> nests_within((#[trigger] fields[i]).1, (depth - 1) as nat),
        _ => true,
    }
}

/// The name by which `serde_json` knows an object that stands for the JSON text in its first field:
/// with its feature `raw_value` it reads that text in place of an object that starts with this
/// name.
pub open spec fn raw_mark() -> Seq<char> {
    "$serde_json::private::RawValue"@
}

/// Whether no object in `v` stands for a JSON text in its first field.
pub open spec fn no_raw_object(v: JsonView) -> bool
    decreases v,
{
    match v {
        JsonView::Array(items) => forall|i: int|
            0 <= i < items.len() ==> no_raw_object(#[trigger] items[i]),
        JsonView::Object(fields) => (fields.len() > 0 ==> fields[0].0 != raw_mark()) && forall|
            i: int,
        |
            0 <= i < fields.len() ==> no_raw_object((#[trigger] fields[i]).1),
        _ => true,
    }
}

/// Whether the text of `v` is read as the value that it was written from: the objects in it are in
/// order, no deeper than a text is read, and none stands for a JSON text.
pub open spec fn can_be_read(v: JsonView) -> bool {
    ordered_json(v) && nests_within(v, MAX_NESTING as nat) && no_raw_object(v)
}

/// Whether two values are the same but for the text of numbers that are negative or not whole.
pub open spec fn reads_alike(a: JsonView, b: JsonView) -> bool
    decreases b,
{
    match (a, b) {
        (JsonView::Number(m, s), JsonView::Number(n, t)) => m == n && (n is Some ==> s == t),
        (JsonView::Array(x), JsonView::Array(y)) => x.len() == y.len() && forall|i: int|
            0 <= i < y.len() ==> reads_alike(#[trigger] x[i], y[i]),
        (JsonView::Object(x), JsonView::Object(y)) => x.len() == y.len() && forall|i: int|
            0 <= i < y.len() ==> (#[trigger] x[i]).0 == y[i].0 && reads_alike(x[i].1, y[i].1),
        (JsonView::Array(_), _) => false,
        (JsonView::Object(_), _) => false,
        (JsonView::Number(_, _), _) => false,
        _ => a == b,
    }
}

/// How deep arrays and objects may nest in a text that is read, those apart that come out of a
/// JSON text within it.
pub const MAX_NESTING: usize = 127;

/// What `serde_json::from_slice` reads from a JSON text into a `Value`.
pub uninterp spec fn parsed_json(bytes: Seq<u8>) -> Option<JsonView>;

/// What `serde_json::to_string` writes for a `Value`.
pub uninterp spec fn rendered_json(v: JsonView) -> Seq<char>;

/// What `serde_json::to_string_pretty` writes for a `Value`.
pub uninterp spec fn pretty_json(v: JsonView) -> Seq<char>;

/// The text that a text is as a JSON value.
pub open spec fn quoted(s: Seq<char>) -> Seq<char> {
    rendered_json(JsonView::Text(s))
}

/// An array or an object over several lines: its entries between its brackets.
pub open spec fn in_brackets(
    open: Seq<char>,
    close: Seq<char>,
    entries: Seq<Seq<char>>,
    indent: Seq<char>,
) -> Seq<char> {
    if entries.len() == 0 {
        open + close
    } else {
        open + "\n"@ + joined(entries, ",\n"@) + "\n"@ + indent + close
    }
}

/// A JSON value over several lines, its first line behind `indent`: each entry of an array or an
/// object on a line of its own, two spaces further in.
pub open spec fn pretty_text(v: JsonView, indent: Seq<char>) -> Seq<char>
    decreases v,
{
    match v {
        JsonView::Object(fields) => in_brackets("{"@, "}"@, pretty_fields(fields, indent), indent),
        JsonView::Array(items) => in_brackets("["@, "]"@, pretty_items(items, indent), indent),
        JsonView::Text(s) => quoted(s),
        JsonView::Number(_, s) => s,
        JsonView::Bool(b) => if b {
            "true"@
        } else {
            "false"@
        },
        JsonView::Null => "null"@,
    }
}

/// The entries of a JSON object, each on its line.
pub open spec fn pretty_fields(fields: Seq<(Seq<char>, JsonView)>, indent: Seq<char>) -> Seq<
    Seq<char>,
>
    decreases fields,
{
    if fields.len() == 0 {
        Seq::empty()
    } else {
        pretty_fields(fields.subrange(0, fields.len() - 1), indent).push(
            indent + "  "@ + quoted(fields[fields.len() - 1].0) + ": "@ + pretty_text(
                fields[fields.len() - 1].1,
                indent + "  "@,
            ),
        )
    }
}

/// The entries of a JSON array, each on its line.
pub open spec fn pretty_items(items: Seq<JsonView>, indent: Seq<char>) -> Seq<Seq<char>>
    decreases items,
{
    if items.len() == 0 {
        Seq::empty()
    } else {
        pretty_items(items.subrange(0, items.len() - 1), indent).push(
            indent + "  "@ + pretty_text(items[items.len() - 1], indent + "  "@),
        )
    }
}

/// Whether a text has no control characters.
pub open spec fn no_controls(s: Seq<char>) -> bool {
    forall|i: int| 0 <= i < s.len() ==> #[trigger] s[i] >= ' '
}

/// Whether the numbers in `v` are written without control characters.
pub open spec fn numbers_plain(v: JsonView) -> bool
    decreases v,
{
    match v {
        JsonView::Number(_, s) => no_controls(s),
        JsonView::Array(items) => forall|i: int|
            0 <= i < items.len() ==> numbers_plain(#[trigger] items[i]),
        JsonView::Object(fields) => forall|i: int|
            0 <= i < fields.len() ==> numbers_plain((#[trigger] fields[i]).1),
        _ => true,
    }
}

/// A `serde_json::Value` as a JSON value of this library, part by part.
#[verifier::external_body]
fn json_of_value(value: Value) -> Json {
    match value {
        Value::Null => Json::Null,
        Value::Bool(b) => Json::Bool(b),
        Value::Number(n) => Json::Number(
            JsonNumber { unsigned: n.as_u64(), text: n.to_string(), raw: n },
        ),
        Value::String(s) => Json::Text(s),
        Value::Array(items) => Json::Array(items.into_iter().map(json_of_value).collect()),
        Value::Object(fields) => Json::Object(
            fields.into_iter().map(|(k, v)| (k, json_of_value(v))).collect(),
        ),
    }
}

/// A JSON value of this library as a `serde_json::Value`, part by part.
#[verifier::external_body]
fn value_of_json(json: &Json) -> Value {
    match json {
        Json::Null => Value::Null,
        Json::Bool(b) => Value::Bool(*b),
        Json::Number(n) => Value::Number(n.raw.clone()),
        Json::Text(s) => Value::String(s.clone()),
        Json::Array(items) => Value::Array(items.iter().map(value_of_json).collect()),
        Json::Object(fields) => Value::Object(
            fields.iter().map(|(k, v)| (k.clone(), value_of_json(v))).collect(),
        ),
    }
}

/// `serde_json::from_slice` into a `Value`: what it reads depends on the bytes alone. The map
/// that it puts the fields of an object in holds them in the order of their names, and `Display`
/// of a `Number` is made of digits, signs, a point and an `e`. Which texts it refuses is not said,
/// nor how deep the value nests: in place of an object that starts with `raw_mark` it reads the
/// JSON text in that field, anew and to its full depth.
#[verifier::external_body]
fn read_json(bytes: &[u8]) -> (r: Option<Json>)
    ensures
        r.deep_view() == parsed_json(bytes@),
        r matches Some(j) ==> ordered_json(j.deep_view()) && numbers_plain(j.deep_view()),
{
    serde_json::from_slice::<Value>(bytes).ok().map(json_of_value)
}

/// `serde_json::to_string` of a `Value`, which does not fail. Reading the text gives the value
/// back, where its objects have their fields in order, nest no deeper than can be read, and none
/// starts with the name `raw_mark`, for which another value is read; a number that is negative or
/// not whole is read as one again, but not with the same digits for certain. Control characters
/// are escaped, so that the text has none.
#[verifier::external_body]
fn write_json(json: &Json) -> (r: String)
    ensures
        r@ == rendered_json(json.deep_view()),
        can_be_read(json.deep_view()) ==> parsed_json(encode_utf8(r@)) is Some && reads_alike(
            parsed_json(encode_utf8(r@))->0,
            json.deep_view(),
        ),
        no_controls(r@),
{
    value_of_json(json).to_string()
}

/// `serde_json::to_string_pretty` of a `Value`, which does not fail: entries on lines of their own,
/// two spaces further in for each level, texts and numbers as `to_string` writes them. The map that
/// holds the fields of an object has them in the order of their names, so that this is said of
/// values whose fields are in order.
#[verifier::external_body]
fn write_json_pretty(json: &Json) -> (r: String)
    ensures
        r@ == pretty_json(json.deep_view()),
        ordered_json(json.deep_view()) ==> r@ == pretty_text(json.deep_view(), Seq::empty()),
{
    serde_json::to_string_pretty(&value_of_json(json)).unwrap()
}

/// `serde_json::Number::from` of a `u64`, and the decimal notation that `Display` gives it.
#[verifier::external_body]
fn number_of(n: u64) -> (r: JsonNumber)
    ensures
        r@ == (Some(n), decimal(n as nat)),
{
    let raw = Number::from(n);
    JsonNumber { unsigned: raw.as_u64(), text: raw.to_string(), raw }
}

/// The value of the field `name`.
pub open spec fn field_of(fields: Fields, name: Seq<char>) -> Option<JsonView>
    decreases fields.len(),
{
    if fields.len() == 0 {
        None
    } else if fields[0].0 == name {
        Some(fields[0].1)
    } else {
        field_of(fields.drop_first(), name)
    }
}

/// The fields with `value` under `name`, in place of what was there.
pub open spec fn with_field(fields: Fields, name: Seq<char>, value: JsonView) -> Fields
    decreases fields.len(),
{
    if fields.len() == 0 || text_lt(name, fields[0].0) {
        seq![(name, value)] + fields
    } else if fields[0].0 == name {
        seq![(name, value)] + fields.drop_first()
    } else {
        seq![fields[0]] + with_field(fields.drop_first(), name, value)
    }
}

/// The fields with each of `more` put over them in turn.
pub open spec fn with_fields(fields: Fields, more: Fields) -> Fields
    decreases more.len(),
{
    if more.len() == 0 {
        fields
    } else {
        with_field(with_fields(fields, more.drop_last()), more.last().0, more.last().1)
    }
}

impl JsonView {
    /// The value of the field `name`, where this is an object that has it.
    pub open spec fn get(self, name: Seq<char>) -> Option<JsonView> {
        match self {
            JsonView::Object(fields) => field_of(fields, name),
            _ => None,
        }
    }

    /// The text, where this is one.
    pub open spec fn text(self) -> Option<Seq<char>> {
        match self {
            JsonView::Text(s) => Some(s),
            _ => None,
        }
    }

    /// The number, where this is a whole one from 0 that fits 64 bits.
    pub open spec fn unsigned(self) -> Option<u64> {
        match self {
            JsonView::Number(n, _) => n,
            _ => None,
        }
    }

    /// The text in the field `name`.
    pub open spec fn text_in(self, name: Seq<char>) -> Option<Seq<char>> {
        match self.get(name) {
            Some(v) => v.text(),
            None => None,
        }
    }

    /// The whole number in the field `name`.
    pub open spec fn unsigned_in(self, name: Seq<char>) -> Option<u64> {
        match self.get(name) {
            Some(v) => v.unsigned(),
            None => None,
        }
    }
}

impl JsonNumber {
    /// The text of the number.
    pub fn as_text(&self) -> (r: &str)
        ensures
            r@ == self@.1,
    {
        self.text.as_str()
    }
}

/// The value of the field `name` among `fields`.
pub fn find_field<'a>(fields: &'a Vec<(String, Json)>, name: &str) -> (r: Option<&'a Json>)
    ensures
        r.deep_view() == field_of(fields.deep_view(), name@),
{
    let mut i: usize = 0;
    assert(fields.deep_view().skip(0) =~= fields.deep_view());
    while i < fields.len()
        invariant
            i <= fields@.len(),
            field_of(fields.deep_view(), name@) == field_of(
                fields.deep_view().skip(i as int),
                name@,
            ),
        decreases fields@.len() - i,
    {
        assert(fields.deep_view().skip(i as int).drop_first() =~= fields.deep_view().skip(i + 1));
        match place(fields[i].0.as_str(), name) {
            Placement::Same => {
                return Some(&fields[i].1);
            },
            _ => {},
        }
        i += 1;
    }
    None
}

proof fn with_field_at(fields: Fields, i: int, name: Seq<char>, value: JsonView)
    requires
        0 <= i <= fields.len(),
        forall|j: int| 0 <= j < i ==> text_lt((#[trigger] fields[j]).0, name),
    ensures
        with_field(fields, name, value) == fields.take(i) + with_field(fields.skip(i), name, value),
    decreases i,
{
    if i == 0 {
        assert(fields.skip(0) =~= fields);
        assert(fields.take(0) + with_field(fields, name, value) =~= with_field(
            fields,
            name,
            value,
        ));
    } else {
        let rest = fields.drop_first();
        assert(text_lt(fields[0].0, name));
        text_lt_irreflexive(name);
        if text_lt(name, fields[0].0) {
            text_lt_transitive(name, fields[0].0, name);
        }
        assert forall|j: int| 0 <= j < i - 1 implies text_lt((#[trigger] rest[j]).0, name) by {
            assert(rest[j] == fields[j + 1]);
        }
        with_field_at(rest, i - 1, name, value);
        assert(rest.skip(i - 1) =~= fields.skip(i));
        assert(seq![fields[0]] + (rest.take(i - 1) + with_field(fields.skip(i), name, value))
            =~= fields.take(i) + with_field(fields.skip(i), name, value));
    }
}

/// Puts `value` under `name` among fields that are in order.
pub fn put_field(fields: &mut Vec<(String, Json)>, name: &str, value: Json)
    ensures
        final(fields).deep_view() == with_field(old(fields).deep_view(), name@, value.deep_view()),
{
    let ghost before = fields.deep_view();
    let mut i: usize = 0;
    while i < fields.len()
        invariant
            i <= fields@.len(),
            fields.deep_view() == before,
            before == old(fields).deep_view(),
            forall|j: int| 0 <= j < i ==> text_lt((#[trigger] before[j]).0, name@),
        decreases fields@.len() - i,
    {
        proof {
            with_field_at(before, i as int, name@, value.deep_view());
            assert(before.skip(i as int)[0] == before[i as int]);
            assert(before[i as int].0 == fields@[i as int].0@);
        }
        match place(fields[i].0.as_str(), name) {
            Placement::Before => {},
            Placement::Same => {
                proof {
                    text_lt_irreflexive(name@);
                }
                let ghost pair = (name@, value.deep_view());
                fields[i] = (name.to_owned(), value);
                assert(fields.deep_view() =~= before.update(i as int, pair));
                assert(before.update(i as int, pair) =~= before.take(i as int) + (seq![pair]
                    + before.skip(i as int).drop_first()));
                return;
            },
            Placement::After => {
                let ghost pair = (name@, value.deep_view());
                fields.insert(i, (name.to_owned(), value));
                assert(fields.deep_view() =~= before.insert(i as int, pair));
                assert(before.insert(i as int, pair) =~= before.take(i as int) + (seq![pair]
                    + before.skip(i as int)));
                return;
            },
        }
        i += 1;
    }
    proof {
        with_field_at(before, i as int, name@, value.deep_view());
    }
    let ghost pair = (name@, value.deep_view());
    fields.push((name.to_owned(), value));
    assert(fields.deep_view() =~= before.push(pair));
    assert(before.push(pair) =~= before.take(i as int) + (seq![pair] + before.skip(i as int)));
}

impl Json {
    /// The JSON value that a text stands for, where it is one.
    pub fn parse(bytes: &[u8]) -> (r: Option<Json>)
        ensures
            r.deep_view() == parsed_json(bytes@),
            r matches Some(j) ==> ordered_json(j.deep_view()) && numbers_plain(j.deep_view()),
    {
        read_json(bytes)
    }

    /// The compact text of the value. Reading that text gives the value back, where it nests no
    /// deeper than a text is read and no object in it stands for a JSON text.
    pub fn render(&self) -> (r: String)
        ensures
            r@ == rendered_json(self.deep_view()),
            can_be_read(self.deep_view()) ==> parsed_json(encode_utf8(r@)) is Some && reads_alike(
                parsed_json(encode_utf8(r@))->0,
                self.deep_view(),
            ),
            no_controls(r@),
    {
        write_json(self)
    }

    /// The text of the value over several lines.
    pub fn render_pretty(&self) -> (r: String)
        ensures
            r@ == pretty_json(self.deep_view()),
            ordered_json(self.deep_view()) ==> r@ == pretty_text(self.deep_view(), Seq::empty()),
    {
        write_json_pretty(self)
    }

    /// A whole number.
    pub fn unsigned(n: u64) -> (r: Json)
        ensures
            r.deep_view() == JsonView::Number(Some(n), decimal(n as nat)),
    {
        Json::Number(number_of(n))
    }

    /// A text.
    pub fn text(s: &str) -> (r: Json)
        ensures
            r.deep_view() == JsonView::Text(s@),
    {
        Json::Text(s.to_owned())
    }

    /// The value of the field `name`, where this is an object that has it.
    pub fn get(&self, name: &str) -> (r: Option<&Json>)
        ensures
            r.deep_view() == self.deep_view().get(name@),
    {
        match self {
            Json::Object(fields) => {
                proof {
                    object_view(*fields);
                }
                find_field(fields, name)
            },
            _ => None,
        }
    }

    /// The text, where this is one.
    pub fn as_str(&self) -> (r: Option<&str>)
        ensures
            r.deep_view() == self.deep_view().text(),
    {
        match self {
            Json::Text(s) => Some(s.as_str()),
            _ => None,
        }
    }

    /// The number, where this is a whole one from 0 that fits 64 bits.
    pub fn as_u64(&self) -> (r: Option<u64>)
        ensures
            r == self.deep_view().unsigned(),
    {
        match self {
            Json::Number(n) => n.unsigned,
            _ => None,
        }
    }

    /// The text in the field `name`.
    pub fn text_in(&self, name: &str) -> (r: Option<&str>)
        ensures
            r.deep_view() == self.deep_view().text_in(name@),
    {
        match self.get(name) {
            Some(v) => v.as_str(),
            None => None,
        }
    }

    /// The whole number in the field `name`.
    pub fn unsigned_in(&self, name: &str) -> (r: Option<u64>)
        ensures
            r == self.deep_view().unsigned_in(name@),
    {
        match self.get(name) {
            Some(v) => v.as_u64(),
            None => None,
        }
    }
}

/// An object with these fields, which are in order.
pub fn object(fields: Vec<(String, Json)>) -> (r: Json)
    ensures
        r.deep_view() == JsonView::Object(fields.deep_view()),
{
    proof {
        object_view(fields);
    }
    Json::Object(fields)
}

/// No fields.
pub fn no_fields() -> (r: Vec<(String, Json)>)
    ensures
        r.deep_view() == Seq::<(Seq<char>, JsonView)>::empty(),
{
    let r: Vec<(String, Json)> = Vec::new();
    assert(r.deep_view() =~= Seq::<(Seq<char>, JsonView)>::empty());
    r
}

/// The values of `fields` and `more` under a name after `more` was put over `fields`.
pub open spec fn over(fields: Fields, more: Fields, name: Seq<char>) -> Option<JsonView> {
    match field_of(more, name) {
        Some(v) => Some(v),
        None => field_of(fields, name),
    }
}

proof fn ordered_tail(fields: Fields)
    requires
        names_ordered(fields),
        fields.len() > 0,
    ensures
        names_ordered(fields.drop_first()),
        forall|j: int|
            0 <= j < fields.drop_first().len() ==> text_lt(
                fields[0].0,
                (#[trigger] fields.drop_first()[j]).0,
            ),
{
    let rest = fields.drop_first();
    assert forall|i: int, j: int| 0 <= i < j < rest.len() implies text_lt(
        (#[trigger] rest[i]).0,
        (#[trigger] rest[j]).0,
    ) by {
        assert(rest[i] == fields[i + 1] && rest[j] == fields[j + 1]);
    }
    assert forall|j: int| 0 <= j < rest.len() implies text_lt(
        fields[0].0,
        (#[trigger] rest[j]).0,
    ) by {
        assert(rest[j] == fields[j + 1]);
    }
}

/// Fields stay in order when one is put among them.
pub proof fn put_keeps_order(fields: Fields, name: Seq<char>, value: JsonView)
    requires
        names_ordered(fields),
    ensures
        names_ordered(with_field(fields, name, value)),
        forall|bound: Seq<char>|
            (forall|j: int| 0 <= j < fields.len() ==> text_lt(bound, (#[trigger] fields[j]).0))
                && text_lt(bound, name) ==> forall|j: int|
                0 <= j < with_field(fields, name, value).len() ==> #[trigger] text_lt(
                    bound,
                    with_field(fields, name, value)[j].0,
                ),
    decreases fields.len(),
{
    let all = with_field(fields, name, value);
    if fields.len() == 0 {
    } else if text_lt(name, fields[0].0) {
        assert forall|i: int, j: int| 0 <= i < j < all.len() implies text_lt(
            (#[trigger] all[i]).0,
            (#[trigger] all[j]).0,
        ) by {
            assert(all[j] == fields[j - 1]);
            if i > 0 {
                assert(all[i] == fields[i - 1]);
            } else if j > 1 {
                assert(text_lt(fields[0].0, fields[j - 1].0));
                text_lt_transitive(name, fields[0].0, fields[j - 1].0);
            }
        }
        assert forall|bound: Seq<char>|
            (forall|j: int| 0 <= j < fields.len() ==> text_lt(bound, (#[trigger] fields[j]).0))
                && text_lt(bound, name) implies forall|j: int|
            0 <= j < all.len() ==> #[trigger] text_lt(bound, all[j].0) by {
            assert forall|j: int| 0 <= j < all.len() implies #[trigger] text_lt(
                bound,
                all[j].0,
            ) by {
                if j > 0 {
                    assert(all[j] == fields[j - 1]);
                }
            }
        }
    } else {
        let rest = fields.drop_first();
        ordered_tail(fields);
        let tail = if fields[0].0 == name {
            rest
        } else {
            with_field(rest, name, value)
        };
        put_keeps_order(rest, name, value);
        text_lt_total(name, fields[0].0);
        let first = all[0].0;
        assert(all =~= seq![all[0]] + tail);
        if fields[0].0 != name {
            assert(text_lt(first, name));
            assert(forall|j: int| 0 <= j < tail.len() ==> #[trigger] text_lt(first, tail[j].0));
        }
        assert forall|i: int, j: int| 0 <= i < j < all.len() implies text_lt(
            (#[trigger] all[i]).0,
            (#[trigger] all[j]).0,
        ) by {
            assert(all[j] == tail[j - 1]);
            if i > 0 {
                assert(all[i] == tail[i - 1]);
            } else {
                assert(text_lt(first, tail[j - 1].0));
            }
        }
        assert forall|bound: Seq<char>|
            (forall|j: int| 0 <= j < fields.len() ==> text_lt(bound, (#[trigger] fields[j]).0))
                && text_lt(bound, name) implies forall|j: int|
            0 <= j < all.len() ==> #[trigger] text_lt(bound, all[j].0) by {
            assert forall|j: int| 0 <= j < rest.len() implies text_lt(
                bound,
                (#[trigger] rest[j]).0,
            ) by {
                assert(rest[j] == fields[j + 1]);
            }
            assert(text_lt(bound, fields[0].0));
            assert forall|j: int| 0 <= j < all.len() implies #[trigger] text_lt(
                bound,
                all[j].0,
            ) by {
                if j > 0 {
                    assert(all[j] == tail[j - 1]);
                    if fields[0].0 != name {
                        assert(text_lt(bound, with_field(rest, name, value)[j - 1].0));
                    }
                }
            }
        }
    }
}

/// A field that was put among ordered fields is found there, and the others are as before.
pub proof fn put_is_found(fields: Fields, name: Seq<char>, value: JsonView, other: Seq<char>)
    requires
        names_ordered(fields),
    ensures
        field_of(with_field(fields, name, value), other) == if other == name {
            Some(value)
        } else {
            field_of(fields, other)
        },
    decreases fields.len(),
{
    let all = with_field(fields, name, value);
    if fields.len() == 0 || text_lt(name, fields[0].0) {
        assert(all.drop_first() =~= fields);
    } else if fields[0].0 == name {
        assert(all.drop_first() =~= fields.drop_first());
    } else {
        ordered_tail(fields);
        assert(all.drop_first() =~= with_field(fields.drop_first(), name, value));
        put_is_found(fields.drop_first(), name, value, other);
    }
}

proof fn last_field(more: Fields, name: Seq<char>)
    requires
        names_ordered(more),
        more.len() > 0,
    ensures
        field_of(more, name) == if name == more.last().0 {
            Some(more.last().1)
        } else {
            field_of(more.drop_last(), name)
        },
    decreases more.len(),
{
    if more.len() > 1 {
        ordered_tail(more);
        last_field(more.drop_first(), name);
        assert(more.drop_first().drop_last() =~= more.drop_last().drop_first());
        assert(more.drop_first().last() == more.last());
        assert(text_lt(more[0].0, more[more.len() - 1].0));
        text_lt_irreflexive(more[0].0);
        assert(more.drop_last()[0] == more[0]);
    } else {
        assert(more.drop_first().len() == 0 && more.drop_last().len() == 0);
        assert(field_of(more.drop_first(), name) is None);
        assert(field_of(more.drop_last(), name) is None);
    }
}

/// Fields put over others in turn: they stay in order, and the later ones are found first.
pub proof fn fields_put_over(fields: Fields, more: Fields)
    requires
        names_ordered(fields),
        names_ordered(more),
    ensures
        names_ordered(with_fields(fields, more)),
        forall|name: Seq<char>| #[trigger]
            field_of(with_fields(fields, more), name) == over(fields, more, name),
    decreases more.len(),
{
    if more.len() > 0 {
        let head = more.drop_last();
        assert forall|i: int, j: int| 0 <= i < j < head.len() implies text_lt(
            (#[trigger] head[i]).0,
            (#[trigger] head[j]).0,
        ) by {
            assert(head[i] == more[i] && head[j] == more[j]);
        }
        fields_put_over(fields, head);
        let so_far = with_fields(fields, head);
        put_keeps_order(so_far, more.last().0, more.last().1);
        assert forall|name: Seq<char>| #[trigger]
            field_of(with_fields(fields, more), name) == over(fields, more, name) by {
            put_is_found(so_far, more.last().0, more.last().1, name);
            last_field(more, name);
            assert(field_of(so_far, name) == over(fields, head, name));
        }
    }
}

/// A value that reads like another has fields that read like the other's.
pub proof fn alike_fields(a: Fields, b: Fields, name: Seq<char>)
    requires
        reads_alike(JsonView::Object(a), JsonView::Object(b)),
    ensures
        field_of(a, name) is Some == field_of(b, name) is Some,
        field_of(b, name) is Some ==> reads_alike(field_of(a, name)->0, field_of(b, name)->0),
    decreases b.len(),
{
    if b.len() > 0 {
        assert(a[0].0 == b[0].0 && reads_alike(a[0].1, b[0].1));
        let ra = a.drop_first();
        let rb = b.drop_first();
        assert forall|i: int| 0 <= i < rb.len() implies (#[trigger] ra[i]).0 == rb[i].0
            && reads_alike(ra[i].1, rb[i].1) by {
            assert(ra[i] == a[i + 1] && rb[i] == b[i + 1]);
        }
        assert(reads_alike(JsonView::Object(ra), JsonView::Object(rb)));
        alike_fields(ra, rb, name);
    }
}

/// A field that is put into an object is found there, and all others are found as before.
pub proof fn put_leaves_others(fields: Fields, name: Seq<char>, value: JsonView)
    requires
        names_ordered(fields),
    ensures
        names_ordered(with_field(fields, name, value)),
        forall|other: Seq<char>| #[trigger]
            field_of(with_field(fields, name, value), other) == if other == name {
                Some(value)
            } else {
                field_of(fields, other)
            },
{
    put_keeps_order(fields, name, value);
    assert forall|other: Seq<char>| #[trigger]
        field_of(with_field(fields, name, value), other) == if other == name {
            Some(value)
        } else {
            field_of(fields, other)
        } by {
        put_is_found(fields, name, value, other);
    }
}

} // verus!
