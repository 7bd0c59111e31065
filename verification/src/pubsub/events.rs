//! The events that tell functions of a message, in the two forms that functions take them.

use crate::json::{
    no_fields, object, put_field, put_leaves_others, with_field, Fields, Json, JsonView,
};
use crate::pubsub::state::{MessageView, PubsubMessage};
use crate::storage::events::{format_time, text_fields, texts_as_json, time_in};
use crate::text::join2;
use vstd::prelude::*;

verus! {

/// A message as a JSON object: attributes and ordering key are left out where there are none.
pub open spec fn message_fields(m: MessageView) -> Fields {
    let f = with_field(Seq::empty(), "data"@, JsonView::Text(m.data));
    let f = with_field(f, "messageId"@, JsonView::Text(m.message_id));
    let f = with_field(f, "publishTime"@, JsonView::Text(m.publish_time));
    let f = if text_fields(m.attributes).len() > 0 {
        with_field(f, "attributes"@, JsonView::Object(text_fields(m.attributes)))
    } else {
        f
    };
    match m.ordering_key {
        Some(key) => with_field(f, "orderingKey"@, JsonView::Text(key)),
        None => f,
    }
}

/// The event that tells of a message.
pub open spec fn published_event(topic: Seq<char>, m: MessageView) -> JsonView {
    let data = with_field(Seq::empty(), "message"@, JsonView::Object(message_fields(m)));
    let f = with_field(Seq::empty(), "specversion"@, JsonView::Text("1.0"@));
    let f = with_field(f, "id"@, JsonView::Text(m.message_id));
    let f = with_field(f, "source"@, JsonView::Text("//pubsub.googleapis.com/"@ + topic));
    let f = with_field(
        f,
        "type"@,
        JsonView::Text("google.cloud.pubsub.topic.v1.messagePublished"@),
    );
    let f = with_field(f, "time"@, JsonView::Text(time_in(m.publish_time)));
    JsonView::Object(with_field(f, "data"@, JsonView::Object(data)))
}

/// What comes with a message in the first form of the event.
pub open spec fn publish_context(topic: Seq<char>, m: MessageView) -> JsonView {
    let resource = with_field(Seq::empty(), "name"@, JsonView::Text(topic));
    let resource = with_field(resource, "service"@, JsonView::Text("pubsub.googleapis.com"@));
    let f = with_field(Seq::empty(), "eventId"@, JsonView::Text(m.message_id));
    let f = with_field(f, "eventType"@, JsonView::Text("google.pubsub.topic.publish"@));
    let f = with_field(f, "timestamp"@, JsonView::Text(time_in(m.publish_time)));
    JsonView::Object(with_field(f, "resource"@, JsonView::Object(resource)))
}

/// A message as a JSON object.
pub fn message_as_json(m: &PubsubMessage) -> (r: Json)
    ensures
        r.deep_view() == JsonView::Object(message_fields(m.deep_view())),
{
    let mut fields = no_fields();
    put_field(&mut fields, "data", Json::text(m.data.as_str()));
    put_field(&mut fields, "messageId", Json::text(m.message_id.as_str()));
    put_field(&mut fields, "publishTime", Json::text(m.publish_time.as_str()));
    if m.attributes.len() > 0 {
        put_field(&mut fields, "attributes", texts_as_json(&m.attributes));
    }
    if let Some(key) = &m.ordering_key {
        put_field(&mut fields, "orderingKey", Json::text(key.as_str()));
    }
    object(fields)
}

/// The event that tells of a message.
pub fn message_published_event(topic: &str, m: &PubsubMessage) -> (r: Json)
    ensures
        r.deep_view() == published_event(topic@, m.deep_view()),
{
    let mut data = no_fields();
    put_field(&mut data, "message", message_as_json(m));
    let source = join2("//pubsub.googleapis.com/", topic);
    let time = format_time(m.publish_time.as_str());
    let mut event = no_fields();
    put_field(&mut event, "specversion", Json::text("1.0"));
    put_field(&mut event, "id", Json::text(m.message_id.as_str()));
    put_field(&mut event, "source", Json::text(source.as_str()));
    put_field(
        &mut event,
        "type",
        Json::text("google.cloud.pubsub.topic.v1.messagePublished"),
    );
    put_field(&mut event, "time", Json::text(time.as_str()));
    put_field(&mut event, "data", object(data));
    object(event)
}

/// What comes with a message in the first form of the event.
pub fn topic_publish_context(topic: &str, m: &PubsubMessage) -> (r: Json)
    ensures
        r.deep_view() == publish_context(topic@, m.deep_view()),
{
    let mut resource = no_fields();
    put_field(&mut resource, "name", Json::text(topic));
    put_field(&mut resource, "service", Json::text("pubsub.googleapis.com"));
    let time = format_time(m.publish_time.as_str());
    let mut context = no_fields();
    put_field(&mut context, "eventId", Json::text(m.message_id.as_str()));
    put_field(&mut context, "eventType", Json::text("google.pubsub.topic.publish"));
    put_field(&mut context, "timestamp", Json::text(time.as_str()));
    put_field(&mut context, "resource", object(resource));
    object(context)
}

proof fn message_names_differ()
    ensures
        "data"@ != "messageId"@,
        "data"@ != "publishTime"@,
        "data"@ != "attributes"@,
        "data"@ != "orderingKey"@,
        "messageId"@ != "publishTime"@,
        "messageId"@ != "attributes"@,
        "messageId"@ != "orderingKey"@,
        "publishTime"@ != "attributes"@,
        "publishTime"@ != "orderingKey"@,
        "attributes"@ != "orderingKey"@,
{
    reveal_strlit("data");
    reveal_strlit("messageId");
    reveal_strlit("publishTime");
    reveal_strlit("attributes");
    reveal_strlit("orderingKey");
    assert("data"@.len() == 4);
    assert("messageId"@.len() == 9);
    assert("publishTime"@.len() == 11);
    assert("attributes"@.len() == 10);
    assert("orderingKey"@.len() == 11);
    assert("publishTime"@[0] == 'p' && "orderingKey"@[0] == 'o');
}

proof fn event_names_differ()
    ensures
        "specversion"@ != "id"@,
        "specversion"@ != "source"@,
        "specversion"@ != "type"@,
        "specversion"@ != "time"@,
        "specversion"@ != "data"@,
        "id"@ != "source"@,
        "id"@ != "type"@,
        "id"@ != "time"@,
        "id"@ != "data"@,
        "source"@ != "type"@,
        "source"@ != "time"@,
        "source"@ != "data"@,
        "type"@ != "time"@,
        "type"@ != "data"@,
        "time"@ != "data"@,
{
    reveal_strlit("specversion");
    reveal_strlit("id");
    reveal_strlit("source");
    reveal_strlit("type");
    reveal_strlit("time");
    reveal_strlit("data");
    assert("specversion"@.len() == 11);
    assert("id"@.len() == 2);
    assert("source"@.len() == 6);
    assert("type"@.len() == 4);
    assert("time"@.len() == 4);
    assert("data"@.len() == 4);
    assert("type"@[1] == 'y' && "time"@[1] == 'i');
    assert("type"@[0] == 't' && "data"@[0] == 'd');
    assert("time"@[0] == 't' && "data"@[0] == 'd');
}

proof fn context_names_differ()
    ensures
        "eventId"@ != "eventType"@,
        "eventId"@ != "timestamp"@,
        "eventId"@ != "resource"@,
        "eventType"@ != "timestamp"@,
        "eventType"@ != "resource"@,
        "timestamp"@ != "resource"@,
{
    reveal_strlit("eventId");
    reveal_strlit("eventType");
    reveal_strlit("timestamp");
    reveal_strlit("resource");
    assert("eventId"@.len() == 7);
    assert("eventType"@.len() == 9);
    assert("timestamp"@.len() == 9);
    assert("resource"@.len() == 8);
    assert("eventType"@[0] == 'e' && "timestamp"@[0] == 't');
}

proof fn resource_names_differ()
    ensures
        "name"@ != "service"@,
{
    reveal_strlit("name");
    reveal_strlit("service");
    assert("name"@.len() == 4);
    assert("service"@.len() == 7);
}

/// A message is told with all that it holds: its data, its id and when it was published, and its
/// attributes and its key where it has any.
pub proof fn message_is_told(m: MessageView)
    ensures
        ({
            let told = JsonView::Object(message_fields(m));
            &&& told.text_in("data"@) == Some(m.data)
            &&& told.text_in("messageId"@) == Some(m.message_id)
            &&& told.text_in("publishTime"@) == Some(m.publish_time)
            &&& text_fields(m.attributes).len() > 0 ==> told.get("attributes"@) == Some(
                JsonView::Object(text_fields(m.attributes)),
            )
            &&& text_fields(m.attributes).len() == 0 ==> told.get("attributes"@) is None
            &&& m.ordering_key is Some ==> told.text_in("orderingKey"@) == m.ordering_key
            &&& m.ordering_key is None ==> told.get("orderingKey"@) is None
        }),
{
    message_names_differ();
    let none: Fields = Seq::empty();
    put_leaves_others(none, "data"@, JsonView::Text(m.data));
    let f1 = with_field(none, "data"@, JsonView::Text(m.data));
    put_leaves_others(f1, "messageId"@, JsonView::Text(m.message_id));
    let f2 = with_field(f1, "messageId"@, JsonView::Text(m.message_id));
    put_leaves_others(f2, "publishTime"@, JsonView::Text(m.publish_time));
    let f3 = with_field(f2, "publishTime"@, JsonView::Text(m.publish_time));
    let attributes = JsonView::Object(text_fields(m.attributes));
    put_leaves_others(f3, "attributes"@, attributes);
    let g = if text_fields(m.attributes).len() > 0 {
        with_field(f3, "attributes"@, attributes)
    } else {
        f3
    };
    if let Some(key) = m.ordering_key {
        put_leaves_others(g, "orderingKey"@, JsonView::Text(key));
    }
}

/// The event of a published message tells its topic and holds the message.
pub proof fn event_tells_message(topic: Seq<char>, m: MessageView)
    ensures
        ({
            let event = published_event(topic, m);
            &&& event.text_in("specversion"@) == Some("1.0"@)
            &&& event.text_in("id"@) == Some(m.message_id)
            &&& event.text_in("source"@) == Some("//pubsub.googleapis.com/"@ + topic)
            &&& event.text_in("type"@) == Some("google.cloud.pubsub.topic.v1.messagePublished"@)
            &&& event.text_in("time"@) == Some(time_in(m.publish_time))
            &&& event.get("data"@) is Some
            &&& event.get("data"@)->0.get("message"@) == Some(
                JsonView::Object(message_fields(m)),
            )
        }),
{
    event_names_differ();
    let none: Fields = Seq::empty();
    let message = JsonView::Object(message_fields(m));
    put_leaves_others(none, "message"@, message);
    let data = JsonView::Object(with_field(none, "message"@, message));
    put_leaves_others(none, "specversion"@, JsonView::Text("1.0"@));
    let f1 = with_field(none, "specversion"@, JsonView::Text("1.0"@));
    put_leaves_others(f1, "id"@, JsonView::Text(m.message_id));
    let f2 = with_field(f1, "id"@, JsonView::Text(m.message_id));
    put_leaves_others(f2, "source"@, JsonView::Text("//pubsub.googleapis.com/"@ + topic));
    let f3 = with_field(f2, "source"@, JsonView::Text("//pubsub.googleapis.com/"@ + topic));
    put_leaves_others(f3, "type"@, JsonView::Text("google.cloud.pubsub.topic.v1.messagePublished"@));
    let f4 = with_field(f3, "type"@, JsonView::Text("google.cloud.pubsub.topic.v1.messagePublished"@));
    put_leaves_others(f4, "time"@, JsonView::Text(time_in(m.publish_time)));
    let f5 = with_field(f4, "time"@, JsonView::Text(time_in(m.publish_time)));
    put_leaves_others(f5, "data"@, data);
    let f6 = with_field(f5, "data"@, data);
}

/// The first form of the event tells the message's id, when it was published, and its topic.
pub proof fn context_tells_message(topic: Seq<char>, m: MessageView)
    ensures
        ({
            let context = publish_context(topic, m);
            let resource = context.get("resource"@)->0;
            &&& context.text_in("eventId"@) == Some(m.message_id)
            &&& context.text_in("eventType"@) == Some("google.pubsub.topic.publish"@)
            &&& context.text_in("timestamp"@) == Some(time_in(m.publish_time))
            &&& context.get("resource"@) is Some
            &&& resource.text_in("name"@) == Some(topic)
            &&& resource.text_in("service"@) == Some("pubsub.googleapis.com"@)
        }),
{
    context_names_differ();
    resource_names_differ();
    let none: Fields = Seq::empty();
    put_leaves_others(none, "name"@, JsonView::Text(topic));
    let r1 = with_field(none, "name"@, JsonView::Text(topic));
    put_leaves_others(r1, "service"@, JsonView::Text("pubsub.googleapis.com"@));
    let r2 = with_field(r1, "service"@, JsonView::Text("pubsub.googleapis.com"@));
    put_leaves_others(none, "eventId"@, JsonView::Text(m.message_id));
    let f1 = with_field(none, "eventId"@, JsonView::Text(m.message_id));
    put_leaves_others(f1, "eventType"@, JsonView::Text("google.pubsub.topic.publish"@));
    let f2 = with_field(f1, "eventType"@, JsonView::Text("google.pubsub.topic.publish"@));
    put_leaves_others(f2, "timestamp"@, JsonView::Text(time_in(m.publish_time)));
    let f3 = with_field(f2, "timestamp"@, JsonView::Text(time_in(m.publish_time)));
    put_leaves_others(f3, "resource"@, JsonView::Object(r2));
    let f4 = with_field(f3, "resource"@, JsonView::Object(r2));
}

} // verus!
