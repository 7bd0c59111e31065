use firelite::functions::descriptors::{ActiveWorker, FunctionDescriptor, TriggerKind};
use firelite::functions::dispatch::{find_recipients, message_event_key, EventForm};
use firelite::json::Json;
use firelite::pubsub::errors::PubsubError;
use firelite::pubsub::events::{message_as_json, message_published_event, topic_publish_context};
use firelite::pubsub::grpc::{decode_publish, encode_publish_answer, find_project_of_topic};
use firelite::pubsub::state::{
    normalize_topic_name, route_subscription_action, route_topic_action, PublishMessage, PubsubState,
    SubscriptionAction,
};
use firelite::pubsub::wire::{read_fields, read_frame, write_field, write_frame};
use firelite::text_map::TextMap;

fn texts(pairs: &[(&str, &str)]) -> TextMap<String> {
    let mut map = TextMap::new();
    for (key, value) in pairs {
        map.insert(key.to_string(), value.to_string());
    }
    map
}

fn message(data: &str, attributes: &[(&str, &str)]) -> PublishMessage {
    PublishMessage {
        data: data.to_string(),
        attributes: texts(attributes),
        ordering_key: None,
    }
}

/// A request to publish one message, as a client encodes it.
fn publish_frame(topic: &str, data: &[u8], attributes: &[(&str, &str)]) -> Vec<u8> {
    let mut message = Vec::new();
    write_field(&mut message, 1, data);
    for (key, value) in attributes {
        let mut entry = Vec::new();
        write_field(&mut entry, 1, key.as_bytes());
        write_field(&mut entry, 2, value.as_bytes());
        write_field(&mut message, 2, &entry);
    }
    let mut request = Vec::new();
    write_field(&mut request, 1, topic.as_bytes());
    write_field(&mut request, 2, &message);
    write_frame(&request)
}

#[test]
fn pubsub_topic_subscription_publish_pull_ack_flow() {
    let mut state = PubsubState::new();
    let created = state.create_topic("demo-firelite", "events", texts(&[("env", "local")]));
    assert_eq!(created.name, "projects/demo-firelite/topics/events");
    assert_eq!(created.labels.get("env").map(|v| v.as_str()), Some("local"));

    let subscription = state
        .create_subscription(
            "demo-firelite",
            "events-sub",
            "projects/demo-firelite/topics/events",
            Some(20),
        )
        .unwrap();
    assert_eq!(subscription.name, "projects/demo-firelite/subscriptions/events-sub");
    assert_eq!(subscription.ack_deadline_seconds, 20);

    assert!(state.can_publish("demo-firelite", 1));
    let published = state
        .publish_topic(
            "demo-firelite",
            "events:publish",
            vec![message("aGVsbG8=", &[("type", "greeting")])],
            5,
        )
        .unwrap();
    assert_eq!(published.len(), 1);
    assert_eq!(published[0].message_id, "1");
    assert_eq!(published[0].publish_time, "5");

    assert_eq!(
        route_subscription_action("events-sub:pull"),
        Ok(("events-sub", SubscriptionAction::Pull))
    );
    assert!(state.can_pull("demo-firelite", "events-sub"));
    let pulled = state
        .pull_subscription("demo-firelite", "events-sub", Some(1))
        .unwrap();
    assert_eq!(pulled.len(), 1);
    assert_eq!(pulled[0].message.data, "aGVsbG8=");
    assert_eq!(
        pulled[0].message.attributes.get("type").map(|v| v.as_str()),
        Some("greeting")
    );

    let ack_ids = vec![pulled[0].ack_id.clone()];
    state
        .acknowledge_subscription("demo-firelite", "events-sub", &ack_ids)
        .unwrap();
    let after = state
        .pull_subscription("demo-firelite", "events-sub", Some(1))
        .unwrap();
    assert_eq!(after.len(), 0);
}

#[test]
fn several_messages_go_through_in_order_and_once() {
    let mut state = PubsubState::new();
    state.create_topic("demo-firelite", "events", TextMap::new());
    let topic = "projects/demo-firelite/topics/events";
    state.create_subscription("demo-firelite", "events-sub", topic, None).unwrap();
    let sent = state
        .publish(
            "demo-firelite",
            topic,
            vec![message("YQ==", &[]), message("Yg==", &[("k", "v")]), message("Yw==", &[])],
            5,
        )
        .unwrap();
    let ids: Vec<&str> = sent.iter().map(|m| m.message_id.as_str()).collect();
    assert_eq!(ids, vec!["1", "2", "3"]);

    let first = state.pull_subscription("demo-firelite", "events-sub", Some(2)).unwrap();
    assert_eq!(first.len(), 2);
    assert_eq!(first[0].message.message_id, "1");
    assert_eq!(first[0].message.data, "YQ==");
    assert_eq!(first[1].message.message_id, "2");
    assert_eq!(first[1].message.data, "Yg==");
    assert_eq!(first[1].message.attributes.get("k").map(|v| v.as_str()), Some("v"));
    assert_ne!(first[0].ack_id, first[1].ack_id);

    let acks = vec![first[0].ack_id.clone(), first[1].ack_id.clone()];
    state.acknowledge_subscription("demo-firelite", "events-sub", &acks).unwrap();
    state.publish("demo-firelite", topic, vec![message("ZA==", &[])], 6).unwrap();
    let rest = state.pull_subscription("demo-firelite", "events-sub", Some(9)).unwrap();
    let ids: Vec<&str> = rest.iter().map(|m| m.message.message_id.as_str()).collect();
    assert_eq!(ids, vec!["3", "4"]);
    let none = state.pull_subscription("demo-firelite", "events-sub", Some(9)).unwrap();
    assert_eq!(none.len(), 0);
}

#[test]
fn pubsub_project_reset_clears_topics_and_subscriptions() {
    let mut state = PubsubState::default();
    state.create_topic("demo-reset", "events", TextMap::new());
    state
        .create_subscription(
            "demo-reset",
            "events-sub",
            "projects/demo-reset/topics/events",
            None,
        )
        .unwrap();
    state.create_topic("demo-kept", "events", TextMap::new());
    state.reset_project("demo-reset");
    assert_eq!(state.list_topics("demo-reset").len(), 0);
    assert_eq!(state.list_subscriptions("demo-reset").len(), 0);
    assert_eq!(state.list_topics("demo-kept").len(), 1);
}

#[test]
fn pubsub_publish_requires_existing_topic() {
    let mut state = PubsubState::new();
    let missing = state
        .publish_topic("demo-firelite", "missing:publish", Vec::new(), 1)
        .unwrap_err();
    assert_eq!(missing.status(), 404);
    assert_eq!(missing.message(), "TOPIC_NOT_FOUND");
    assert_eq!(missing.reason(), "Not Found");
}

#[test]
fn pubsub_grpc_publish_accepts_node_sdk_shape() {
    let mut state = PubsubState::new();
    let topic = state.create_topic("demo-firelite", "sdk-events", TextMap::new());
    assert_eq!(topic.name, "projects/demo-firelite/topics/sdk-events");
    state
        .create_subscription(
            "demo-firelite",
            "sdk-events-sub",
            "projects/demo-firelite/topics/sdk-events",
            None,
        )
        .unwrap();
    let request = decode_publish(&publish_frame(
        "projects/demo-firelite/topics/sdk-events",
        b"hello",
        &[("type", "greeting")],
    ))
    .unwrap();
    assert!(state.can_publish(&request.project_id, request.messages.len()));
    let messages = state.grpc_publish(request, 1);
    let answer = write_frame(&encode_publish_answer(&messages));
    let fields = read_fields(&read_frame(&answer).unwrap()).unwrap();
    assert_eq!(fields.len(), 1);
    assert_eq!(fields[0].number, 1);
    assert_eq!(fields[0].bytes.as_deref(), Some(b"1".as_slice()));

    let pulled = state
        .pull_subscription("demo-firelite", "sdk-events-sub", Some(1))
        .unwrap();
    assert_eq!(pulled[0].message.data, "aGVsbG8=");
    assert_eq!(
        pulled[0].message.attributes.get("type").map(|v| v.as_str()),
        Some("greeting")
    );
}

#[test]
fn pubsub_grpc_publish_auto_creates_missing_topic() {
    let mut state = PubsubState::new();
    let request = decode_publish(&publish_frame(
        "projects/demo-firelite/topics/auto-created",
        b"hello",
        &[],
    ))
    .unwrap();
    state.grpc_publish(request, 1);
    let topic = state.get_topic("demo-firelite", "auto-created").unwrap();
    assert_eq!(topic.name, "projects/demo-firelite/topics/auto-created");
}

fn event_functions() -> Option<ActiveWorker> {
    let function = |name: &str, event_type: &str, resource: Json| FunctionDescriptor {
        entry_id: name.to_string(),
        name: name.to_string(),
        region: "us-central1".to_string(),
        trigger: TriggerKind::Event {
            event_type: Some(event_type.to_string()),
            resource: Some(resource),
        },
    };
    Some(ActiveWorker {
        generation: 1,
        base_url: "http://127.0.0.1:4000".to_string(),
        functions: vec![
            function(
                "gen1",
                "google.pubsub.topic.publish",
                Json::text("projects/demo-firelite/topics/events"),
            ),
            function(
                "gen2",
                "google.cloud.pubsub.topic.v1.messagePublished",
                Json::parse(br#"{"topic":"events"}"#).unwrap(),
            ),
        ],
    })
}

#[test]
fn pubsub_publish_dispatches_gen1_and_gen2_function_event_shapes() {
    let mut state = PubsubState::new();
    let topic = state.create_topic("demo-firelite", "events", TextMap::new()).name;
    let mut input = message("aGVsbG8=", &[("kind", "greeting")]);
    input.ordering_key = Some("ordered".to_string());
    let published = state
        .publish_topic("demo-firelite", "events:publish", vec![input], 1_709_210_096_789)
        .unwrap();

    let active = event_functions();
    let key = message_event_key("demo-firelite", &topic);
    let recipients = find_recipients("demo-firelite", &active, &key);
    assert_eq!(recipients.len(), 2);
    assert_eq!(recipients[0].form, EventForm::First);
    assert_eq!(recipients[1].form, EventForm::Present);

    let gen1 = message_as_json(&published[0]);
    assert_eq!(gen1.text_in("data"), Some("aGVsbG8="));
    assert_eq!(gen1.get("attributes").unwrap().text_in("kind"), Some("greeting"));
    assert_eq!(gen1.text_in("orderingKey"), Some("ordered"));
    let context = topic_publish_context(&topic, &published[0]);
    assert_eq!(context.text_in("eventType"), Some("google.pubsub.topic.publish"));
    assert_eq!(
        context.get("resource").unwrap().text_in("name"),
        Some("projects/demo-firelite/topics/events")
    );
    let gen2 = message_published_event(&topic, &published[0]);
    assert_eq!(
        gen2.text_in("type"),
        Some("google.cloud.pubsub.topic.v1.messagePublished")
    );
    assert_eq!(
        gen2.text_in("source"),
        Some("//pubsub.googleapis.com/projects/demo-firelite/topics/events")
    );
    assert_eq!(gen2.text_in("time"), Some("2024-02-29T12:34:56.789Z"));
    let inner = gen2.get("data").unwrap().get("message").unwrap();
    assert_eq!(inner.text_in("data"), Some("aGVsbG8="));
    assert_eq!(inner.text_in("orderingKey"), Some("ordered"));
    assert_eq!(inner.text_in("messageId"), gen1.text_in("messageId"));
    assert_eq!(inner.text_in("publishTime"), gen1.text_in("publishTime"));

    let foreign = decode_publish(&publish_frame(
        "projects/other-project/topics/events",
        b"ignored",
        &[],
    ))
    .unwrap();
    let key = message_event_key(&foreign.project_id, &foreign.topic);
    assert!(find_recipients("demo-firelite", &active, &key).is_empty());
    let key = message_event_key("demo-firelite", "projects/demo-firelite/topics/other-events");
    assert!(find_recipients("demo-firelite", &active, &key).is_empty());
}

#[test]
fn messages_come_in_order_and_once() {
    let mut state = PubsubState::new();
    state.create_topic("p", "t", TextMap::new());
    state.create_subscription("p", "s", "t", None).unwrap();
    state
        .publish_topic("p", "t:publish", vec![message("a", &[]), message("b", &[])], 1)
        .unwrap();
    let later = state.publish_topic("p", "t:publish", vec![message("c", &[])], 2).unwrap();
    assert_eq!(later[0].message_id, "3");
    let first = state.pull_subscription("p", "s", Some(2)).unwrap();
    let data: Vec<&str> = first.iter().map(|r| r.message.data.as_str()).collect();
    assert_eq!(data, vec!["a", "b"]);
    assert_ne!(first[0].ack_id, first[1].ack_id);
    let second = state.pull_subscription("p", "s", None).unwrap();
    assert_eq!(second.len(), 1);
    assert_eq!(second[0].message.data, "c");
    assert_eq!(state.pull_subscription("p", "s", None).unwrap().len(), 0);
}

#[test]
fn topics_go_with_their_subscriptions() {
    let mut state = PubsubState::new();
    state.create_topic("p", "t", TextMap::new());
    state.create_topic("p", "u", TextMap::new());
    state.create_subscription("p", "s", "t", None).unwrap();
    let kept = state.create_subscription("p", "v", "u", None).unwrap();
    assert_eq!(kept.ack_deadline_seconds, 10);
    state.delete_topic("p", "t").unwrap();
    assert_eq!(state.delete_topic("p", "t"), Err(PubsubError::TopicNotFound));
    let left = state.list_subscriptions("p");
    assert_eq!(left.len(), 1);
    assert_eq!(left[0].name, "projects/p/subscriptions/v");
    assert!(state.get_subscription("p", "v").is_ok());
    state.delete_subscription("p", "v").unwrap();
    assert_eq!(
        state.get_subscription("p", "v").unwrap_err(),
        PubsubError::SubscriptionNotFound
    );
}

#[test]
fn unknown_names_are_refused() {
    let mut state = PubsubState::new();
    assert_eq!(
        state.get_topic("p", "t").unwrap_err().message(),
        "TOPIC_NOT_FOUND"
    );
    assert_eq!(
        state.create_subscription("p", "s", "t", None).unwrap_err(),
        PubsubError::TopicNotFound
    );
    assert_eq!(
        state.pull_subscription("p", "s", None).unwrap_err(),
        PubsubError::SubscriptionNotFound
    );
    assert_eq!(
        state.acknowledge_subscription("p", "s", &Vec::new()),
        Err(PubsubError::SubscriptionNotFound)
    );
    assert_eq!(
        state.publish_topic("p", "t:dance", Vec::new(), 1).unwrap_err(),
        PubsubError::UnsupportedTopicAction
    );
    assert_eq!(route_topic_action("t:publish"), Ok("t"));
    assert_eq!(
        route_subscription_action("s:dance"),
        Err(PubsubError::UnsupportedSubscriptionAction)
    );
    assert_eq!(
        route_subscription_action("s:acknowledge"),
        Ok(("s", SubscriptionAction::Acknowledge))
    );
    assert_eq!(PubsubError::InvalidPullRequest.status(), 400);
    assert_eq!(
        PubsubError::InvalidAcknowledgeRequest.message(),
        "INVALID_ACKNOWLEDGE_REQUEST"
    );
}

#[test]
fn topic_names_are_completed() {
    assert_eq!(normalize_topic_name("p", "t"), "projects/p/topics/t");
    assert_eq!(normalize_topic_name("p", "projects/q/topics/t"), "projects/q/topics/t");
    assert_eq!(find_project_of_topic("projects/p/topics/t"), Some("p"));
    assert_eq!(find_project_of_topic("projects//topics/t"), None);
    assert_eq!(find_project_of_topic("t"), None);
}

#[test]
fn frames_and_fields_round_trip() {
    let long = vec![7u8; 300];
    let mut out = Vec::new();
    write_field(&mut out, 3, b"abc");
    write_field(&mut out, 1, &long);
    assert_eq!(&out[..5], b"\x1a\x03abc");
    assert_eq!(&out[5..8], b"\x0a\xac\x02");
    let fields = read_fields(&out).unwrap();
    assert_eq!(fields.len(), 2);
    assert_eq!(fields[0].number, 3);
    assert_eq!(fields[1].bytes.as_deref(), Some(long.as_slice()));
    let frame = write_frame(&out);
    assert_eq!(&frame[..5], &[0, 0, 0, 1, 0x34]);
    assert_eq!(read_frame(&frame), Some(out));
}

#[test]
fn broken_frames_are_refused() {
    assert!(read_frame(b"\0\0\0").is_none());
    assert!(read_frame(b"\0\0\0\0\x05abc").is_none());
    assert!(read_fields(b"\x0a\x05ab").is_none());
    assert!(decode_publish(b"").is_none());
    assert!(decode_publish(&publish_frame("no-project", b"x", &[])).is_none());
    let mut request = Vec::new();
    write_field(&mut request, 1, b"\xff");
    assert!(decode_publish(&write_frame(&request)).is_none());
}

#[test]
fn snapshots_show_one_project() {
    let mut state = PubsubState::new();
    state.create_topic("p", "t", TextMap::new());
    state.create_topic("q", "t", TextMap::new());
    state.create_subscription("p", "s", "t", Some(30)).unwrap();
    let (topics, subscriptions) = state.project_snapshot("p");
    assert_eq!(topics.len(), 1);
    assert_eq!(subscriptions.len(), 1);
    assert_eq!(subscriptions[0].topic, "projects/p/topics/t");
    assert_eq!(subscriptions[0].ack_deadline_seconds, 30);
}
