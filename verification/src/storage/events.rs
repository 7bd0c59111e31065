//! The event that tells of a stored object.

use crate::calendar::{format_timestamp_ms, timestamp_text};
use crate::decimal::{decimal_round_trip, parse_u64, parsed_decimal};
use crate::fresh::{is_uuid, random_uuid};
use crate::json::{
    no_fields, object, put_field, put_leaves_others, with_field, Fields, Json, JsonView,
};
use crate::storage::objects::{told, MetadataView, ObjectMetadata, ObjectView};
use crate::text::{join2, join3};
use crate::text_map::{listing, TextMap};
use vstd::prelude::*;

verus! {

/// A time in milliseconds that is given in decimal notation; one that is not is taken as zero.
pub open spec fn time_in(text: Seq<char>) -> Seq<char> {
    timestamp_text(
        match parsed_decimal(text, u64::MAX as nat) {
            Some(ms) => ms,
            None => 0,
        },
    )
}

/// Texts by name as the fields of an object.
pub open spec fn text_fields(texts: Map<Seq<char>, Seq<char>>) -> Fields {
    listing(texts).map_values(|pair: (Seq<char>, Seq<char>)| (pair.0, JsonView::Text(pair.1)))
}

/// What the event tells of the object.
pub open spec fn object_data(m: MetadataView) -> Fields {
    let f = with_field(Seq::empty(), "bucket"@, JsonView::Text(m.bucket));
    let f = with_field(f, "name"@, JsonView::Text(m.name));
    let f = with_field(f, "generation"@, JsonView::Text(m.generation));
    let f = with_field(f, "metageneration"@, JsonView::Text(m.metageneration));
    let f = with_field(f, "contentType"@, JsonView::Text(m.content_type));
    let f = with_field(f, "size"@, JsonView::Text(m.size));
    let f = with_field(f, "crc32c"@, JsonView::Text(m.crc32c));
    let f = with_field(f, "timeCreated"@, JsonView::Text(time_in(m.time_created)));
    let f = with_field(f, "updated"@, JsonView::Text(time_in(m.updated)));
    with_field(f, "metadata"@, JsonView::Object(text_fields(m.metadata)))
}

/// The event that tells of a stored object.
pub open spec fn finalized_event(m: MetadataView, id: Seq<char>) -> JsonView {
    let f = with_field(Seq::empty(), "specversion"@, JsonView::Text("1.0"@));
    let f = with_field(f, "id"@, JsonView::Text(id));
    let f = with_field(
        f,
        "source"@,
        JsonView::Text("//storage.googleapis.com/projects/_/buckets/"@ + m.bucket),
    );
    let f = with_field(f, "type"@, JsonView::Text("google.cloud.storage.object.v1.finalized"@));
    let f = with_field(f, "subject"@, JsonView::Text("objects/"@ + m.name));
    let f = with_field(f, "time"@, JsonView::Text(time_in(m.updated)));
    JsonView::Object(with_field(f, "data"@, JsonView::Object(object_data(m))))
}

/// A time in milliseconds that is given in decimal notation; one that is not is taken as zero.
pub fn format_time(text: &str) -> (r: String)
    ensures
        r@ == time_in(text@),
{
    let ms: u64 = match parse_u64(text) {
        Some(ms) => ms,
        None => 0,
    };
    format_timestamp_ms(ms)
}

/// Texts by name as a JSON object.
pub fn texts_as_json(texts: &TextMap<String>) -> (r: Json)
    ensures
        r.deep_view() == JsonView::Object(text_fields(texts.deep_view())),
{
    let ghost wanted = text_fields(texts.deep_view());
    let mut fields = no_fields();
    let count: usize = texts.len();
    let mut i: usize = 0;
    assert(fields.deep_view() =~= wanted.take(0));
    while i < count
        invariant
            count == listing(texts.deep_view()).len(),
            wanted == text_fields(texts.deep_view()),
            i <= count,
            fields.deep_view() == wanted.take(i as int),
        decreases count - i,
    {
        let ghost before = fields.deep_view();
        let name = texts.key_at(i).clone();
        let value = Json::text(texts.value_at(i).as_str());
        let ghost pair = (name@, value.deep_view());
        fields.push((name, value));
        assert(fields.deep_view() =~= before.push(pair));
        assert(pair == wanted[i as int]);
        i += 1;
        assert(fields.deep_view() =~= wanted.take(i as int));
    }
    assert(wanted.take(count as int) =~= wanted);
    object(fields)
}

/// What an event tells of the object.
pub fn object_as_json(m: &ObjectMetadata) -> (r: Json)
    ensures
        r.deep_view() == JsonView::Object(object_data(m.deep_view())),
{
    let mut data = no_fields();
    put_field(&mut data, "bucket", Json::text(m.bucket.as_str()));
    put_field(&mut data, "name", Json::text(m.name.as_str()));
    put_field(&mut data, "generation", Json::text(m.generation.as_str()));
    put_field(&mut data, "metageneration", Json::text(m.metageneration.as_str()));
    put_field(&mut data, "contentType", Json::text(m.content_type.as_str()));
    put_field(&mut data, "size", Json::text(m.size.as_str()));
    put_field(&mut data, "crc32c", Json::text(m.crc32c.as_str()));
    let created = format_time(m.time_created.as_str());
    put_field(&mut data, "timeCreated", Json::text(created.as_str()));
    let updated = format_time(m.updated.as_str());
    put_field(&mut data, "updated", Json::text(updated.as_str()));
    put_field(&mut data, "metadata", texts_as_json(&m.metadata));
    object(data)
}

/// What comes with the object in the first form of the event.
pub open spec fn finalize_context(m: MetadataView, id: Seq<char>) -> JsonView {
    let resource = with_field(
        Seq::empty(),
        "name"@,
        JsonView::Text("projects/_/buckets/"@ + m.bucket + "/objects/"@ + m.name),
    );
    let resource = with_field(resource, "service"@, JsonView::Text("storage.googleapis.com"@));
    let f = with_field(Seq::empty(), "eventId"@, JsonView::Text(id));
    let f = with_field(f, "eventType"@, JsonView::Text("google.storage.object.finalize"@));
    let f = with_field(f, "timestamp"@, JsonView::Text(time_in(m.updated)));
    JsonView::Object(with_field(f, "resource"@, JsonView::Object(resource)))
}

/// What comes with the object in the first form of the event, under the id `id`.
pub fn object_finalize_context(m: &ObjectMetadata, id: &str) -> (r: Json)
    ensures
        r.deep_view() == finalize_context(m.deep_view(), id@),
{
    let mut name = join3("projects/_/buckets/", m.bucket.as_str(), "/objects/");
    name.append(m.name.as_str());
    let mut resource = no_fields();
    put_field(&mut resource, "name", Json::text(name.as_str()));
    put_field(&mut resource, "service", Json::text("storage.googleapis.com"));
    let time = format_time(m.updated.as_str());
    let mut context = no_fields();
    put_field(&mut context, "eventId", Json::text(id));
    put_field(&mut context, "eventType", Json::text("google.storage.object.finalize"));
    put_field(&mut context, "timestamp", Json::text(time.as_str()));
    put_field(&mut context, "resource", object(resource));
    object(context)
}

/// The event that tells of a stored object, under the id `id`.
pub fn object_finalized_event(m: &ObjectMetadata, id: &str) -> (r: Json)
    ensures
        r.deep_view() == finalized_event(m.deep_view(), id@),
{
    let source = join2("//storage.googleapis.com/projects/_/buckets/", m.bucket.as_str());
    let subject = join2("objects/", m.name.as_str());
    let updated = format_time(m.updated.as_str());
    let mut event = no_fields();
    put_field(&mut event, "specversion", Json::text("1.0"));
    put_field(&mut event, "id", Json::text(id));
    put_field(&mut event, "source", Json::text(source.as_str()));
    put_field(&mut event, "type", Json::text("google.cloud.storage.object.v1.finalized"));
    put_field(&mut event, "subject", Json::text(subject.as_str()));
    put_field(&mut event, "time", Json::text(updated.as_str()));
    put_field(&mut event, "data", object_as_json(m));
    object(event)
}

/// The event that tells of a stored object, under a random id.
pub fn new_object_finalized_event(m: &ObjectMetadata) -> (r: Json)
    ensures
        exists|id: Seq<char>|
            is_uuid(id) && r.deep_view() == #[trigger] finalized_event(m.deep_view(), id),
{
    let id = random_uuid();
    object_finalized_event(m, id.as_str())
}

/// The times in the event are those at which the object was made and stored.
pub proof fn event_tells_times(bucket: Seq<char>, object: ObjectView)
    ensures
        time_in(told(bucket, object).time_created) == timestamp_text(object.created_at_ms as nat),
        time_in(told(bucket, object).updated) == timestamp_text(object.updated_at_ms as nat),
{
    decimal_round_trip(object.created_at_ms as nat, u64::MAX as nat);
    decimal_round_trip(object.updated_at_ms as nat, u64::MAX as nat);
}

proof fn object_names_differ()
    ensures
        "bucket"@ != "name"@,
        "bucket"@ != "generation"@,
        "bucket"@ != "metageneration"@,
        "bucket"@ != "contentType"@,
        "bucket"@ != "size"@,
        "bucket"@ != "crc32c"@,
        "bucket"@ != "timeCreated"@,
        "bucket"@ != "updated"@,
        "bucket"@ != "metadata"@,
        "name"@ != "generation"@,
        "name"@ != "metageneration"@,
        "name"@ != "contentType"@,
        "name"@ != "size"@,
        "name"@ != "crc32c"@,
        "name"@ != "timeCreated"@,
        "name"@ != "updated"@,
        "name"@ != "metadata"@,
        "generation"@ != "metageneration"@,
        "generation"@ != "contentType"@,
        "generation"@ != "size"@,
        "generation"@ != "crc32c"@,
        "generation"@ != "timeCreated"@,
        "generation"@ != "updated"@,
        "generation"@ != "metadata"@,
        "metageneration"@ != "contentType"@,
        "metageneration"@ != "size"@,
        "metageneration"@ != "crc32c"@,
        "metageneration"@ != "timeCreated"@,
        "metageneration"@ != "updated"@,
        "metageneration"@ != "metadata"@,
        "contentType"@ != "size"@,
        "contentType"@ != "crc32c"@,
        "contentType"@ != "timeCreated"@,
        "contentType"@ != "updated"@,
        "contentType"@ != "metadata"@,
        "size"@ != "crc32c"@,
        "size"@ != "timeCreated"@,
        "size"@ != "updated"@,
        "size"@ != "metadata"@,
        "crc32c"@ != "timeCreated"@,
        "crc32c"@ != "updated"@,
        "crc32c"@ != "metadata"@,
        "timeCreated"@ != "updated"@,
        "timeCreated"@ != "metadata"@,
        "updated"@ != "metadata"@,
{
    reveal_strlit("bucket");
    reveal_strlit("name");
    reveal_strlit("generation");
    reveal_strlit("metageneration");
    reveal_strlit("contentType");
    reveal_strlit("size");
    reveal_strlit("crc32c");
    reveal_strlit("timeCreated");
    reveal_strlit("updated");
    reveal_strlit("metadata");
    assert("bucket"@.len() == 6);
    assert("name"@.len() == 4);
    assert("generation"@.len() == 10);
    assert("metageneration"@.len() == 14);
    assert("contentType"@.len() == 11);
    assert("size"@.len() == 4);
    assert("crc32c"@.len() == 6);
    assert("timeCreated"@.len() == 11);
    assert("updated"@.len() == 7);
    assert("metadata"@.len() == 8);
    assert("bucket"@[0] == 'b' && "crc32c"@[0] == 'c');
    assert("name"@[0] == 'n' && "size"@[0] == 's');
    assert("contentType"@[0] == 'c' && "timeCreated"@[0] == 't');
}

proof fn event_names_differ()
    ensures
        "specversion"@ != "id"@,
        "specversion"@ != "source"@,
        "specversion"@ != "type"@,
        "specversion"@ != "subject"@,
        "specversion"@ != "time"@,
        "specversion"@ != "data"@,
        "id"@ != "source"@,
        "id"@ != "type"@,
        "id"@ != "subject"@,
        "id"@ != "time"@,
        "id"@ != "data"@,
        "source"@ != "type"@,
        "source"@ != "subject"@,
        "source"@ != "time"@,
        "source"@ != "data"@,
        "type"@ != "subject"@,
        "type"@ != "time"@,
        "type"@ != "data"@,
        "subject"@ != "time"@,
        "subject"@ != "data"@,
        "time"@ != "data"@,
{
    reveal_strlit("specversion");
    reveal_strlit("id");
    reveal_strlit("source");
    reveal_strlit("type");
    reveal_strlit("subject");
    reveal_strlit("time");
    reveal_strlit("data");
    assert("specversion"@.len() == 11);
    assert("id"@.len() == 2);
    assert("source"@.len() == 6);
    assert("type"@.len() == 4);
    assert("subject"@.len() == 7);
    assert("time"@.len() == 4);
    assert("data"@.len() == 4);
    assert("type"@[1] == 'y' && "time"@[1] == 'i');
    assert("type"@[0] == 't' && "data"@[0] == 'd');
    assert("time"@[0] == 't' && "data"@[0] == 'd');
}

proof fn context_names_differ()
    ensures
        "eventId"@ != "eventType"@,
        "eventId"@ != "timestamp"@,
        "eventId"@ != "resource"@,
        "eventType"@ != "timestamp"@,
        "eventType"@ != "resource"@,
        "timestamp"@ != "resource"@,
{
    reveal_strlit("eventId");
    reveal_strlit("eventType");
    reveal_strlit("timestamp");
    reveal_strlit("resource");
    assert("eventId"@.len() == 7);
    assert("eventType"@.len() == 9);
    assert("timestamp"@.len() == 9);
    assert("resource"@.len() == 8);
    assert("eventType"@[0] == 'e' && "timestamp"@[0] == 't');
}

proof fn resource_names_differ()
    ensures
        "name"@ != "service"@,
{
    reveal_strlit("name");
    reveal_strlit("service");
    assert("name"@.len() == 4);
    assert("service"@.len() == 7);
}

/// The event that a stored object gives off tells which object it is, in which bucket, and all that
/// is told of it.
#[verifier::rlimit(50)]
pub proof fn event_tells_object(m: MetadataView, id: Seq<char>)
    ensures
        ({
            let event = finalized_event(m, id);
            let data = event.get("data"@)->0;
            &&& event.text_in("specversion"@) == Some("1.0"@)
            &&& event.text_in("id"@) == Some(id)
            &&& event.text_in("source"@) == Some(
                "//storage.googleapis.com/projects/_/buckets/"@ + m.bucket,
            )
            &&& event.text_in("type"@) == Some("google.cloud.storage.object.v1.finalized"@)
            &&& event.text_in("subject"@) == Some("objects/"@ + m.name)
            &&& event.text_in("time"@) == Some(time_in(m.updated))
            &&& event.get("data"@) is Some
            &&& data.text_in("bucket"@) == Some(m.bucket)
            &&& data.text_in("name"@) == Some(m.name)
            &&& data.text_in("generation"@) == Some(m.generation)
            &&& data.text_in("metageneration"@) == Some(m.metageneration)
            &&& data.text_in("contentType"@) == Some(m.content_type)
            &&& data.text_in("size"@) == Some(m.size)
            &&& data.text_in("crc32c"@) == Some(m.crc32c)
            &&& data.text_in("timeCreated"@) == Some(time_in(m.time_created))
            &&& data.text_in("updated"@) == Some(time_in(m.updated))
            &&& data.get("metadata"@) == Some(JsonView::Object(text_fields(m.metadata)))
        }),
{
    object_names_differ();
    event_names_differ();
    let none: Fields = Seq::empty();
    put_leaves_others(none, "bucket"@, JsonView::Text(m.bucket));
    let f1 = with_field(none, "bucket"@, JsonView::Text(m.bucket));
    put_leaves_others(f1, "name"@, JsonView::Text(m.name));
    let f2 = with_field(f1, "name"@, JsonView::Text(m.name));
    put_leaves_others(f2, "generation"@, JsonView::Text(m.generation));
    let f3 = with_field(f2, "generation"@, JsonView::Text(m.generation));
    put_leaves_others(f3, "metageneration"@, JsonView::Text(m.metageneration));
    let f4 = with_field(f3, "metageneration"@, JsonView::Text(m.metageneration));
    put_leaves_others(f4, "contentType"@, JsonView::Text(m.content_type));
    let f5 = with_field(f4, "contentType"@, JsonView::Text(m.content_type));
    put_leaves_others(f5, "size"@, JsonView::Text(m.size));
    let f6 = with_field(f5, "size"@, JsonView::Text(m.size));
    put_leaves_others(f6, "crc32c"@, JsonView::Text(m.crc32c));
    let f7 = with_field(f6, "crc32c"@, JsonView::Text(m.crc32c));
    put_leaves_others(f7, "timeCreated"@, JsonView::Text(time_in(m.time_created)));
    let f8 = with_field(f7, "timeCreated"@, JsonView::Text(time_in(m.time_created)));
    put_leaves_others(f8, "updated"@, JsonView::Text(time_in(m.updated)));
    let f9 = with_field(f8, "updated"@, JsonView::Text(time_in(m.updated)));
    put_leaves_others(f9, "metadata"@, JsonView::Object(text_fields(m.metadata)));
    let f10 = with_field(f9, "metadata"@, JsonView::Object(text_fields(m.metadata)));
    put_leaves_others(none, "specversion"@, JsonView::Text("1.0"@));
    let g1 = with_field(none, "specversion"@, JsonView::Text("1.0"@));
    put_leaves_others(g1, "id"@, JsonView::Text(id));
    let g2 = with_field(g1, "id"@, JsonView::Text(id));
    put_leaves_others(g2, "source"@, JsonView::Text("//storage.googleapis.com/projects/_/buckets/"@ + m.bucket));
    let g3 = with_field(g2, "source"@, JsonView::Text("//storage.googleapis.com/projects/_/buckets/"@ + m.bucket));
    put_leaves_others(g3, "type"@, JsonView::Text("google.cloud.storage.object.v1.finalized"@));
    let g4 = with_field(g3, "type"@, JsonView::Text("google.cloud.storage.object.v1.finalized"@));
    put_leaves_others(g4, "subject"@, JsonView::Text("objects/"@ + m.name));
    let g5 = with_field(g4, "subject"@, JsonView::Text("objects/"@ + m.name));
    put_leaves_others(g5, "time"@, JsonView::Text(time_in(m.updated)));
    let g6 = with_field(g5, "time"@, JsonView::Text(time_in(m.updated)));
    put_leaves_others(g6, "data"@, JsonView::Object(object_data(m)));
    let g7 = with_field(g6, "data"@, JsonView::Object(object_data(m)));
}

/// The first form of the event tells its id, when it was, and which object it is.
pub proof fn context_tells_object(m: MetadataView, id: Seq<char>)
    ensures
        ({
            let context = finalize_context(m, id);
            let resource = context.get("resource"@)->0;
            &&& context.text_in("eventId"@) == Some(id)
            &&& context.text_in("eventType"@) == Some("google.storage.object.finalize"@)
            &&& context.text_in("timestamp"@) == Some(time_in(m.updated))
            &&& context.get("resource"@) is Some
            &&& resource.text_in("name"@) == Some(
                "projects/_/buckets/"@ + m.bucket + "/objects/"@ + m.name,
            )
            &&& resource.text_in("service"@) == Some("storage.googleapis.com"@)
        }),
{
    context_names_differ();
    resource_names_differ();
    let none: Fields = Seq::empty();
    put_leaves_others(none, "name"@, JsonView::Text("projects/_/buckets/"@ + m.bucket + "/objects/"@ + m.name));
    let r1 = with_field(none, "name"@, JsonView::Text("projects/_/buckets/"@ + m.bucket + "/objects/"@ + m.name));
    put_leaves_others(r1, "service"@, JsonView::Text("storage.googleapis.com"@));
    let r2 = with_field(r1, "service"@, JsonView::Text("storage.googleapis.com"@));
    put_leaves_others(none, "eventId"@, JsonView::Text(id));
    let f1 = with_field(none, "eventId"@, JsonView::Text(id));
    put_leaves_others(f1, "eventType"@, JsonView::Text("google.storage.object.finalize"@));
    let f2 = with_field(f1, "eventType"@, JsonView::Text("google.storage.object.finalize"@));
    put_leaves_others(f2, "timestamp"@, JsonView::Text(time_in(m.updated)));
    let f3 = with_field(f2, "timestamp"@, JsonView::Text(time_in(m.updated)));
    put_leaves_others(f3, "resource"@, JsonView::Object(r2));
    let f4 = with_field(f3, "resource"@, JsonView::Object(r2));
}

/// Custom metadata is told text by text, in the order of the names.
pub proof fn texts_are_told(texts: Map<Seq<char>, Seq<char>>)
    ensures
        text_fields(texts).len() == listing(texts).len(),
        forall|i: int|
            0 <= i < listing(texts).len() ==> (#[trigger] text_fields(texts)[i]).0 == listing(
                texts,
            )[i].0 && text_fields(texts)[i].1 == JsonView::Text(listing(texts)[i].1),
{
}

} // verus!
