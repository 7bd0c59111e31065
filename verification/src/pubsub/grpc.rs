//! Publishing over gRPC.

use crate::base64_text::{base64_text, encode_standard};
use crate::pubsub::state::{
    ids_left, ids_of, numbered, published, PublishMessage, PublishView, PubsubMessage,
    PubsubProjectView, PubsubState, PubsubView, TopicRecord,
};
use crate::pubsub::wire::{
    fields_of, framed_message, read_fields, read_frame, read_text, utf8_text, write_field,
    written_fields, Field, FieldView,
};
use crate::text::{cut, split_once, strip_prefix, without_prefix};
use crate::text_map::TextMap;
use vstd::prelude::*;
use vstd::utf8::encode_utf8;

verus! {

/// The bytes of the last field of that number, or none.
pub open spec fn last_bytes(fields: Seq<FieldView>, number: nat) -> Seq<u8>
    decreases fields.len(),
{
    if fields.len() == 0 {
        Seq::empty()
    } else {
        match fields.last() {
            (found, Some(bytes)) => if found == number {
                bytes
            } else {
                last_bytes(fields.drop_last(), number)
            },
            (_, None) => last_bytes(fields.drop_last(), number),
        }
    }
}

/// The text of the last field of that number.
pub open spec fn last_text(fields: Seq<FieldView>, number: nat) -> Option<Seq<char>> {
    utf8_text(last_bytes(fields, number))
}

/// The name and value in an entry of a map.
pub open spec fn entry_of(bytes: Seq<u8>) -> Option<(Seq<char>, Seq<char>)> {
    match fields_of(bytes) {
        None => None,
        Some(fields) => match (last_text(fields, 1), last_text(fields, 2)) {
            (Some(name), Some(value)) => Some((name, value)),
            _ => None,
        },
    }
}

/// The attributes among the fields of a message.
pub open spec fn attributes_of(fields: Seq<FieldView>) -> Option<Map<Seq<char>, Seq<char>>>
    decreases fields.len(),
{
    if fields.len() == 0 {
        Some(Map::empty())
    } else {
        match attributes_of(fields.drop_last()) {
            None => None,
            Some(before) => match fields.last() {
                (number, Some(bytes)) => if number == 2 {
                    match entry_of(bytes) {
                        Some((name, value)) => Some(before.insert(name, value)),
                        None => None,
                    }
                } else {
                    Some(before)
                },
                (_, None) => Some(before),
            },
        }
    }
}

/// A message to publish: its data in Base64, its attributes, and its ordering key if it has one.
pub open spec fn message_of(bytes: Seq<u8>) -> Option<PublishView> {
    match fields_of(bytes) {
        None => None,
        Some(fields) => match (attributes_of(fields), last_text(fields, 5)) {
            (Some(attributes), Some(key)) => Some(
                PublishView {
                    data: base64_text(last_bytes(fields, 1), false),
                    attributes,
                    ordering_key: if key.len() > 0 {
                        Some(key)
                    } else {
                        None
                    },
                },
            ),
            _ => None,
        },
    }
}

/// The messages among the fields of a request.
pub open spec fn messages_of(fields: Seq<FieldView>) -> Option<Seq<PublishView>>
    decreases fields.len(),
{
    if fields.len() == 0 {
        Some(Seq::empty())
    } else {
        match messages_of(fields.drop_last()) {
            None => None,
            Some(before) => match fields.last() {
                (number, Some(bytes)) => if number == 2 {
                    match message_of(bytes) {
                        Some(message) => Some(before.push(message)),
                        None => None,
                    }
                } else {
                    Some(before)
                },
                (_, None) => Some(before),
            },
        }
    }
}

/// The project of a topic that is given by its full name.
pub open spec fn project_of_topic(topic: Seq<char>) -> Option<Seq<char>> {
    match without_prefix(topic, "projects/"@) {
        Some(rest) => match cut(rest, "/topics/"@) {
            Some((project_id, name)) => if project_id.len() > 0 && name.len() > 0 {
                Some(project_id)
            } else {
                None
            },
            None => None,
        },
        None => None,
    }
}

/// A request to publish.
#[derive(Debug)]
pub struct GrpcPublish {
    pub project_id: String,
    pub topic: String,
    pub messages: Vec<PublishMessage>,
}

/// What a request to publish holds.
#[verifier::ext_equal]
pub struct GrpcPublishView {
    pub project_id: Seq<char>,
    pub topic: Seq<char>,
    pub messages: Seq<PublishView>,
}

impl DeepView for GrpcPublish {
    type V = GrpcPublishView;

    open spec fn deep_view(&self) -> GrpcPublishView {
        GrpcPublishView {
            project_id: self.project_id@,
            topic: self.topic@,
            messages: self.messages.deep_view(),
        }
    }
}

/// The request to publish in a frame, if there is one.
pub open spec fn publish_request(frame: Seq<u8>) -> Option<GrpcPublishView> {
    match framed_message(frame) {
        None => None,
        Some(message) => match fields_of(message) {
            None => None,
            Some(fields) => match (last_text(fields, 1), messages_of(fields)) {
                (Some(topic), Some(messages)) => match project_of_topic(topic) {
                    Some(project_id) => Some(GrpcPublishView { project_id, topic, messages }),
                    None => None,
                },
                _ => None,
            },
        },
    }
}

fn find_bytes(fields: &Vec<Field>, number: u64) -> (r: Vec<u8>)
    ensures
        r@ == last_bytes(fields.deep_view(), number as nat),
{
    let ghost all = fields.deep_view();
    let mut i: usize = fields.len();
    assert(all.take(i as int) =~= all);
    while i > 0
        invariant
            i <= fields@.len(),
            all == fields.deep_view(),
            last_bytes(all, number as nat) == last_bytes(all.take(i as int), number as nat),
        decreases i,
    {
        assert(all.take(i as int).drop_last() =~= all.take(i - 1));
        assert(all.take(i as int).last() == fields@[i - 1].deep_view());
        i -= 1;
        if fields[i].number == number {
            if let Some(bytes) = &fields[i].bytes {
                return vstd::slice::slice_to_vec(bytes.as_slice());
            }
        }
    }
    Vec::new()
}

fn find_text(fields: &Vec<Field>, number: u64) -> (r: Option<String>)
    ensures
        r.deep_view() == last_text(fields.deep_view(), number as nat),
{
    read_text(&find_bytes(fields, number))
}

fn read_entry(bytes: &Vec<u8>) -> (r: Option<(String, String)>)
    ensures
        r.deep_view() == entry_of(bytes@),
{
    match read_fields(bytes.as_slice()) {
        Some(fields) => match (find_text(&fields, 1), find_text(&fields, 2)) {
            (Some(name), Some(value)) => Some((name, value)),
            _ => None,
        },
        None => None,
    }
}

proof fn attributes_fail(fields: Seq<FieldView>, i: int)
    requires
        0 <= i <= fields.len(),
        attributes_of(fields.take(i)) is None,
    ensures
        attributes_of(fields) is None,
    decreases fields.len() - i,
{
    if i < fields.len() {
        assert(fields.take(i + 1).drop_last() =~= fields.take(i));
        attributes_fail(fields, i + 1);
    } else {
        assert(fields.take(i) =~= fields);
    }
}

fn read_attributes(fields: &Vec<Field>) -> (r: Option<TextMap<String>>)
    ensures
        r.deep_view() == attributes_of(fields.deep_view()),
{
    let ghost all = fields.deep_view();
    let mut attributes: TextMap<String> = TextMap::new();
    let mut i: usize = 0;
    assert(all.take(0) =~= Seq::empty());
    while i < fields.len()
        invariant
            i <= fields@.len(),
            all == fields.deep_view(),
            attributes_of(all.take(i as int)) == Some(attributes.deep_view()),
        decreases fields@.len() - i,
    {
        assert(all.take(i + 1).drop_last() =~= all.take(i as int));
        assert(all.take(i + 1).last() == fields@[i as int].deep_view());
        if fields[i].number == 2 {
            if let Some(bytes) = &fields[i].bytes {
                match read_entry(bytes) {
                    Some((name, value)) => {
                        attributes.insert(name, value);
                    },
                    None => {
                        proof {
                            attributes_fail(all, i + 1);
                        }
                        return None;
                    },
                }
            }
        }
        i += 1;
    }
    assert(all.take(i as int) =~= all);
    Some(attributes)
}

fn read_message(bytes: &Vec<u8>) -> (r: Option<PublishMessage>)
    ensures
        r.deep_view() == message_of(bytes@),
{
    let fields = match read_fields(bytes.as_slice()) {
        Some(fields) => fields,
        None => {
            return None;
        },
    };
    let attributes = match read_attributes(&fields) {
        Some(attributes) => attributes,
        None => {
            return None;
        },
    };
    let key = match find_text(&fields, 5) {
        Some(key) => key,
        None => {
            return None;
        },
    };
    let data = encode_standard(find_bytes(&fields, 1).as_slice());
    let ordering_key = if key.as_str().is_empty() {
        None
    } else {
        Some(key)
    };
    Some(PublishMessage { data, attributes, ordering_key })
}

proof fn messages_fail(fields: Seq<FieldView>, i: int)
    requires
        0 <= i <= fields.len(),
        messages_of(fields.take(i)) is None,
    ensures
        messages_of(fields) is None,
    decreases fields.len() - i,
{
    if i < fields.len() {
        assert(fields.take(i + 1).drop_last() =~= fields.take(i));
        messages_fail(fields, i + 1);
    } else {
        assert(fields.take(i) =~= fields);
    }
}

fn read_messages(fields: &Vec<Field>) -> (r: Option<Vec<PublishMessage>>)
    ensures
        r.deep_view() == messages_of(fields.deep_view()),
{
    let ghost all = fields.deep_view();
    let mut messages: Vec<PublishMessage> = Vec::new();
    let mut i: usize = 0;
    assert(all.take(0) =~= Seq::empty());
    assert(messages.deep_view() =~= Seq::empty());
    while i < fields.len()
        invariant
            i <= fields@.len(),
            all == fields.deep_view(),
            messages_of(all.take(i as int)) == Some(messages.deep_view()),
        decreases fields@.len() - i,
    {
        let ghost before = messages.deep_view();
        assert(all.take(i + 1).drop_last() =~= all.take(i as int));
        assert(all.take(i + 1).last() == fields@[i as int].deep_view());
        if fields[i].number == 2 {
            if let Some(bytes) = &fields[i].bytes {
                match read_message(bytes) {
                    Some(message) => {
                        let ghost shown = message.deep_view();
                        messages.push(message);
                        assert(messages.deep_view() =~= before.push(shown));
                    },
                    None => {
                        proof {
                            messages_fail(all, i + 1);
                        }
                        return None;
                    },
                }
            }
        }
        i += 1;
    }
    assert(all.take(i as int) =~= all);
    Some(messages)
}

/// The project of a topic that is given by its full name.
pub fn find_project_of_topic<'a>(topic: &'a str) -> (r: Option<&'a str>)
    ensures
        r.deep_view() == project_of_topic(topic@),
{
    match strip_prefix(topic, "projects/") {
        Some(rest) => match split_once(rest, "/topics/") {
            Some((project_id, name)) => {
                if project_id.is_empty() || name.is_empty() {
                    None
                } else {
                    Some(project_id)
                }
            },
            None => None,
        },
        None => None,
    }
}

/// The request to publish in a frame, if there is one.
pub fn decode_publish(frame: &[u8]) -> (r: Option<GrpcPublish>)
    ensures
        r.deep_view() == publish_request(frame@),
{
    let message = match read_frame(frame) {
        Some(message) => message,
        None => {
            return None;
        },
    };
    let fields = match read_fields(message.as_slice()) {
        Some(fields) => fields,
        None => {
            return None;
        },
    };
    let topic = match find_text(&fields, 1) {
        Some(topic) => topic,
        None => {
            return None;
        },
    };
    let messages = match read_messages(&fields) {
        Some(messages) => messages,
        None => {
            return None;
        },
    };
    match find_project_of_topic(topic.as_str()) {
        Some(project_id) => {
            let project_id = project_id.to_owned();
            Some(GrpcPublish { project_id, topic, messages })
        },
        None => None,
    }
}

/// The texts in UTF-8.
pub open spec fn all_utf8(texts: Seq<Seq<char>>) -> Seq<Seq<u8>> {
    texts.map_values(|text: Seq<char>| encode_utf8(text))
}

/// The answer with the ids of the messages that were published.
pub open spec fn publish_answer(ids: Seq<Seq<char>>) -> Seq<u8> {
    written_fields(1, all_utf8(ids))
}

/// The answer with the ids of the messages that were published.
pub fn encode_publish_answer(messages: &Vec<PubsubMessage>) -> (r: Vec<u8>)
    ensures
        r@ == publish_answer(ids_of(messages.deep_view())),
{
    let ghost ids = all_utf8(ids_of(messages.deep_view()));
    let mut out: Vec<u8> = Vec::new();
    let mut i: usize = 0;
    assert(ids.skip(0) =~= ids);
    assert(out@ + written_fields(1, ids) =~= written_fields(1, ids));
    while i < messages.len()
        invariant
            i <= messages@.len(),
            ids == all_utf8(ids_of(messages.deep_view())),
            out@ + written_fields(1, ids.skip(i as int)) == written_fields(1, ids),
        decreases messages@.len() - i,
    {
        let ghost before = out@;
        let ghost rest = ids.skip(i as int);
        assert(rest.drop_first() =~= ids.skip(i + 1));
        assert(ids[i as int] == encode_utf8(messages@[i as int].message_id@));
        write_field(&mut out, 1, messages[i].message_id.as_str().as_bytes());
        assert(out@ + written_fields(1, rest.drop_first()) =~= before + written_fields(1, rest));
        i += 1;
    }
    assert(ids.skip(i as int).len() == 0);
    assert(out@ + Seq::<u8>::empty() =~= out@);
    out
}

/// The state with a topic, made if there is none.
pub open spec fn with_topic(v: PubsubView, project_id: Seq<char>, topic: Seq<char>) -> PubsubView {
    let p = v.project(project_id);
    v.with_project(
        project_id,
        if p.topics.contains_key(topic) {
            p
        } else {
            PubsubProjectView { topics: p.topics.insert(topic, Map::empty()), ..p }
        },
    )
}

/// The state after a request to publish: the topic is made if there is none.
pub open spec fn grpc_publish_step(v: PubsubView, request: GrpcPublishView, now_ms: u64) -> PubsubView {
    let w = with_topic(v, request.project_id, request.topic);
    w.with_project(
        request.project_id,
        published(w.project(request.project_id), request.topic, request.messages, now_ms),
    )
}

impl PubsubState {
    /// Publishes on a topic, which is made if there is none, and hands out copies of the
    /// messages.
    pub fn grpc_publish(&mut self, request: GrpcPublish, now_ms: u64) -> (r: Vec<PubsubMessage>)
        requires
            ids_left(old(self).deep_view(), request.project_id@, request.messages@.len()),
        ensures
            final(self).deep_view() == grpc_publish_step(
                old(self).deep_view(),
                request.deep_view(),
                now_ms,
            ),
            r.deep_view() == numbered(
                request.messages.deep_view(),
                old(self).deep_view().project(request.project_id@).next_message_id,
                now_ms,
            ),
    {
        let ghost before = self.deep_view();
        let mut project = self.take_project(request.project_id.as_str());
        if !project.topics.contains_key(request.topic.as_str()) {
            project.topics.insert(
                request.topic.clone(),
                TopicRecord { labels: TextMap::new() },
            );
        }
        let ghost p = project.deep_view();
        let messages = project.publish(request.topic.as_str(), request.messages, now_ms);
        self.put_project(request.project_id.as_str(), project);
        proof {
            let id = request.project_id@;
            let w = with_topic(before, id, request.topic@);
            assert(w.project(id) == p);
            assert(forall|q: PubsubProjectView|
                w.projects.insert(id, q) =~= before.projects.insert(id, q));
        }
        messages
    }
}

} // verus!
