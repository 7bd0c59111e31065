//! The topics and subscriptions of all projects, and the requests on them.

use crate::decimal::{decimal, decimal_text};
use crate::pubsub::errors::{pubsub_outcome, PubsubError};
use crate::text::{join2, same_text, starts_with, strip_suffix, without_suffix};
use crate::text_map::{clone_texts, keep_values, listing, TextMap};
use std::collections::VecDeque;
use vstd::prelude::*;

verus! {

/// A message that was published.
#[derive(Debug)]
pub struct PubsubMessage {
    pub data: String,
    pub attributes: TextMap<String>,
    pub message_id: String,
    pub publish_time: String,
    pub ordering_key: Option<String>,
}

/// What a message holds.
#[verifier::ext_equal]
pub struct MessageView {
    pub data: Seq<char>,
    pub attributes: Map<Seq<char>, Seq<char>>,
    pub message_id: Seq<char>,
    pub publish_time: Seq<char>,
    pub ordering_key: Option<Seq<char>>,
}

impl DeepView for PubsubMessage {
    type V = MessageView;

    open spec fn deep_view(&self) -> MessageView {
        MessageView {
            data: self.data@,
            attributes: self.attributes.deep_view(),
            message_id: self.message_id@,
            publish_time: self.publish_time@,
            ordering_key: self.ordering_key.deep_view(),
        }
    }
}

impl Clone for PubsubMessage {
    fn clone(&self) -> (r: Self)
        ensures
            r.deep_view() == self.deep_view(),
    {
        PubsubMessage {
            data: self.data.clone(),
            attributes: clone_texts(&self.attributes),
            message_id: self.message_id.clone(),
            publish_time: self.publish_time.clone(),
            ordering_key: self.ordering_key.clone(),
        }
    }
}

/// A topic.
#[derive(Debug)]
pub struct TopicRecord {
    pub labels: TextMap<String>,
}

impl DeepView for TopicRecord {
    type V = Map<Seq<char>, Seq<char>>;

    open spec fn deep_view(&self) -> Map<Seq<char>, Seq<char>> {
        self.labels.deep_view()
    }
}

/// A subscription: the messages that wait, and those that were pulled and not acknowledged.
#[derive(Debug)]
pub struct SubscriptionRecord {
    pub topic: String,
    pub ack_deadline_seconds: i32,
    pub pending: VecDeque<PubsubMessage>,
    pub outstanding: TextMap<PubsubMessage>,
}

/// What a subscription holds.
#[verifier::ext_equal]
pub struct SubscriptionView {
    pub topic: Seq<char>,
    pub ack_deadline_seconds: i32,
    pub pending: Seq<MessageView>,
    pub outstanding: Map<Seq<char>, MessageView>,
}

impl DeepView for SubscriptionRecord {
    type V = SubscriptionView;

    open spec fn deep_view(&self) -> SubscriptionView {
        SubscriptionView {
            topic: self.topic@,
            ack_deadline_seconds: self.ack_deadline_seconds,
            pending: self.pending.deep_view(),
            outstanding: self.outstanding.deep_view(),
        }
    }
}

/// The topics and subscriptions of a project.
#[derive(Debug)]
pub struct ProjectPubsubState {
    pub topics: TextMap<TopicRecord>,
    pub subscriptions: TextMap<SubscriptionRecord>,
    pub next_message_id: u64,
    pub next_ack_id: u64,
}

/// What a project holds.
#[verifier::ext_equal]
pub struct PubsubProjectView {
    pub topics: Map<Seq<char>, Map<Seq<char>, Seq<char>>>,
    pub subscriptions: Map<Seq<char>, SubscriptionView>,
    pub next_message_id: u64,
    pub next_ack_id: u64,
}

impl DeepView for ProjectPubsubState {
    type V = PubsubProjectView;

    open spec fn deep_view(&self) -> PubsubProjectView {
        PubsubProjectView {
            topics: self.topics.deep_view(),
            subscriptions: self.subscriptions.deep_view(),
            next_message_id: self.next_message_id,
            next_ack_id: self.next_ack_id,
        }
    }
}

impl PubsubProjectView {
    /// A project without topics.
    pub open spec fn empty() -> PubsubProjectView {
        PubsubProjectView {
            topics: Map::empty(),
            subscriptions: Map::empty(),
            next_message_id: 0,
            next_ack_id: 0,
        }
    }
}

impl ProjectPubsubState {
    /// A project without topics.
    pub fn new() -> (r: Self)
        ensures
            r.deep_view() == PubsubProjectView::empty(),
    {
        ProjectPubsubState {
            topics: TextMap::new(),
            subscriptions: TextMap::new(),
            next_message_id: 0,
            next_ack_id: 0,
        }
    }
}

/// The full name of a topic.
pub open spec fn topic_named(project_id: Seq<char>, topic: Seq<char>) -> Seq<char> {
    "projects/"@ + project_id + "/topics/"@ + topic
}

/// The full name of a subscription.
pub open spec fn subscription_named(project_id: Seq<char>, subscription: Seq<char>) -> Seq<char> {
    "projects/"@ + project_id + "/subscriptions/"@ + subscription
}

/// The full name of a topic that may be given by its full name already.
pub open spec fn normal_topic(project_id: Seq<char>, topic: Seq<char>) -> Seq<char> {
    if "projects/"@.is_prefix_of(topic) {
        topic
    } else {
        topic_named(project_id, topic)
    }
}

/// The full name of a topic.
pub fn topic_name(project_id: &str, topic: &str) -> (r: String)
    ensures
        r@ == topic_named(project_id@, topic@),
{
    let mut r = join2("projects/", project_id);
    r.append("/topics/");
    r.append(topic);
    r
}

/// The full name of a subscription.
pub fn subscription_name(project_id: &str, subscription: &str) -> (r: String)
    ensures
        r@ == subscription_named(project_id@, subscription@),
{
    let mut r = join2("projects/", project_id);
    r.append("/subscriptions/");
    r.append(subscription);
    r
}

/// The full name of a topic that may be given by its full name already.
pub fn normalize_topic_name(project_id: &str, topic: &str) -> (r: String)
    ensures
        r@ == normal_topic(project_id@, topic@),
{
    if starts_with(topic, "projects/") {
        topic.to_owned()
    } else {
        topic_name(project_id, topic)
    }
}

/// A message that is to be published.
#[derive(Debug)]
pub struct PublishMessage {
    pub data: String,
    pub attributes: TextMap<String>,
    pub ordering_key: Option<String>,
}

/// What a message that is to be published holds.
#[verifier::ext_equal]
pub struct PublishView {
    pub data: Seq<char>,
    pub attributes: Map<Seq<char>, Seq<char>>,
    pub ordering_key: Option<Seq<char>>,
}

impl DeepView for PublishMessage {
    type V = PublishView;

    open spec fn deep_view(&self) -> PublishView {
        PublishView {
            data: self.data@,
            attributes: self.attributes.deep_view(),
            ordering_key: self.ordering_key.deep_view(),
        }
    }
}

/// The messages as they are published: numbered on from `last_id`.
pub open spec fn numbered(inputs: Seq<PublishView>, last_id: u64, now_ms: u64) -> Seq<MessageView> {
    Seq::new(
        inputs.len(),
        |i: int|
            MessageView {
                data: inputs[i].data,
                attributes: inputs[i].attributes,
                message_id: decimal((last_id + 1 + i) as nat),
                publish_time: decimal(now_ms as nat),
                ordering_key: inputs[i].ordering_key,
            },
    )
}

/// A subscription with more messages, if they are of its topic.
pub open spec fn delivered(s: SubscriptionView, topic: Seq<char>, messages: Seq<MessageView>) -> SubscriptionView {
    if s.topic == topic {
        SubscriptionView { pending: s.pending + messages, ..s }
    } else {
        s
    }
}

/// The project after messages were published on a topic.
pub open spec fn published(
    p: PubsubProjectView,
    topic: Seq<char>,
    inputs: Seq<PublishView>,
    now_ms: u64,
) -> PubsubProjectView {
    let messages = numbered(inputs, p.next_message_id, now_ms);
    PubsubProjectView {
        subscriptions: p.subscriptions.map_values(
            |s: SubscriptionView| delivered(s, topic, messages),
        ),
        next_message_id: (p.next_message_id + inputs.len()) as u64,
        ..p
    }
}

/// The ids of messages.
pub open spec fn ids_of(messages: Seq<MessageView>) -> Seq<Seq<char>> {
    messages.map_values(|m: MessageView| m.message_id)
}

fn number_messages(inputs: Vec<PublishMessage>, last_id: u64, now_ms: u64) -> (r: Vec<PubsubMessage>)
    requires
        last_id + inputs@.len() <= u64::MAX,
    ensures
        r.deep_view() == numbered(inputs.deep_view(), last_id, now_ms),
        r@.len() == inputs@.len(),
{
    let ghost views = inputs.deep_view();
    let ghost wanted = numbered(views, last_id, now_ms);
    let ghost total = inputs@.len();
    let mut rest = inputs;
    let mut r: Vec<PubsubMessage> = Vec::new();
    let mut id: u64 = last_id;
    assert(r.deep_view() =~= wanted.take(0));
    assert(views.skip(0) =~= views);
    while rest.len() > 0
        invariant
            views.len() == total,
            wanted == numbered(views, last_id, now_ms),
            last_id + total <= u64::MAX,
            last_id <= id <= last_id + total,
            r@.len() == id - last_id,
            rest.deep_view() == views.skip(id - last_id),
            rest@.len() == total - (id - last_id),
            r.deep_view() == wanted.take(id - last_id),
        decreases rest@.len(),
    {
        let ghost i = id - last_id;
        let ghost before = r.deep_view();
        let ghost rest_before = rest.deep_view();
        let input = rest.remove(0);
        assert(rest_before[0] == input.deep_view());
        assert(rest.deep_view() =~= rest_before.drop_first());
        assert(views[i] == views.skip(i)[0]);
        id = id + 1;
        let message = PubsubMessage {
            data: input.data,
            attributes: input.attributes,
            message_id: decimal_text(id),
            publish_time: decimal_text(now_ms),
            ordering_key: input.ordering_key,
        };
        assert(message.deep_view() == wanted[i]);
        r.push(message);
        assert(r.deep_view() =~= before.push(wanted[i]));
        assert(r.deep_view() =~= wanted.take(i + 1));
        assert(rest.deep_view() =~= views.skip(i + 1));
    }
    assert(wanted.take(id - last_id) =~= wanted);
    r
}

fn deliver(s: SubscriptionRecord, topic: &str, messages: &Vec<PubsubMessage>) -> (r:
    SubscriptionRecord)
    ensures
        r.deep_view() == delivered(s.deep_view(), topic@, messages.deep_view()),
{
    if !same_text(s.topic.as_str(), topic) {
        return s;
    }
    let mut s = s;
    let ghost start = s.pending.deep_view();
    let ghost held = s.deep_view();
    let ghost all = messages.deep_view();
    let mut i: usize = 0;
    assert(start + all.take(0) =~= start);
    while i < messages.len()
        invariant
            i <= messages@.len(),
            all == messages.deep_view(),
            s.deep_view() == (SubscriptionView { pending: start + all.take(i as int), ..held }),
        decreases messages@.len() - i,
    {
        let ghost before = s.pending.deep_view();
        s.pending.push_back(messages[i].clone());
        assert(s.pending.deep_view() =~= before.push(all[i as int]));
        i += 1;
        assert(s.pending.deep_view() =~= start + all.take(i as int));
    }
    assert(all.take(i as int) =~= all);
    s
}

impl ProjectPubsubState {
    /// Publishes messages on a topic and hands out copies of them.
    pub fn publish(&mut self, topic: &str, inputs: Vec<PublishMessage>, now_ms: u64) -> (r: Vec<
        PubsubMessage,
    >)
        requires
            old(self).deep_view().next_message_id + inputs@.len() <= u64::MAX,
        ensures
            final(self).deep_view() == published(
                old(self).deep_view(),
                topic@,
                inputs.deep_view(),
                now_ms,
            ),
            r.deep_view() == numbered(
                inputs.deep_view(),
                old(self).deep_view().next_message_id,
                now_ms,
            ),
    {
        let ghost count = inputs@.len();
        assert(inputs.deep_view().len() == count);
        let messages = number_messages(inputs, self.next_message_id, now_ms);
        self.next_message_id = self.next_message_id + messages.len() as u64;
        let ghost views = messages.deep_view();
        let to_each = |s: SubscriptionRecord| -> (d: SubscriptionRecord)
            ensures
                d.deep_view() == delivered(s.deep_view(), topic@, messages.deep_view()),
        {
            deliver(s, topic, &messages)
        };
        self.subscriptions.update_all(
            to_each,
            Ghost(|s: SubscriptionView| delivered(s, topic@, views)),
        );
        messages
    }
}

/// A message that was pulled, and the id under which to acknowledge it.
#[derive(Debug)]
pub struct ReceivedMessage {
    pub ack_id: String,
    pub message: PubsubMessage,
}

impl DeepView for ReceivedMessage {
    type V = (Seq<char>, MessageView);

    open spec fn deep_view(&self) -> (Seq<char>, MessageView) {
        (self.ack_id@, self.message.deep_view())
    }
}

/// The id under which a pulled message is acknowledged.
pub open spec fn ack_id(n: nat) -> Seq<char> {
    "ack-"@ + decimal(n)
}

/// The first `count` of the messages, with ids to acknowledge them that go on from `last_ack`.
pub open spec fn handed_out(pending: Seq<MessageView>, last_ack: u64, count: nat) -> Seq<
    (Seq<char>, MessageView),
> {
    Seq::new(count, |i: int| (ack_id((last_ack + 1 + i) as nat), pending[i]))
}

/// The messages that wait to be acknowledged, with more of them.
pub open spec fn with_outstanding(
    outstanding: Map<Seq<char>, MessageView>,
    more: Seq<(Seq<char>, MessageView)>,
) -> Map<Seq<char>, MessageView>
    decreases more.len(),
{
    if more.len() == 0 {
        outstanding
    } else {
        with_outstanding(outstanding, more.drop_last()).insert(more.last().0, more.last().1)
    }
}

/// A subscription after the first `count` of its messages were pulled.
pub open spec fn pulled(s: SubscriptionView, last_ack: u64, count: nat) -> SubscriptionView {
    SubscriptionView {
        pending: s.pending.skip(count as int),
        outstanding: with_outstanding(s.outstanding, handed_out(s.pending, last_ack, count)),
        ..s
    }
}

/// How many messages a pull takes: as many as are asked for, but one at least, and no more than
/// wait.
pub open spec fn pull_count(max_messages: Option<usize>, waiting: nat) -> nat {
    let wanted = match max_messages {
        Some(max) => if max < 1 {
            1nat
        } else {
            max as nat
        },
        None => 1,
    };
    if wanted < waiting {
        wanted
    } else {
        waiting
    }
}

fn pull_from(s: &mut SubscriptionRecord, last_ack: u64, max_messages: Option<usize>) -> (r: Vec<
    ReceivedMessage,
>)
    requires
        last_ack + old(s).pending@.len() <= u64::MAX,
    ensures
        ({
            let held = old(s).deep_view();
            let count = pull_count(max_messages, held.pending.len());
            &&& final(s).deep_view() == pulled(held, last_ack, count)
            &&& r.deep_view() == handed_out(held.pending, last_ack, count)
            &&& r@.len() == count
        }),
{
    let wanted: usize = match max_messages {
        Some(max) => if max < 1 {
            1
        } else {
            max
        },
        None => 1,
    };
    let ghost held = s.deep_view();
    let ghost waiting = s.pending@.len();
    assert(held.pending.len() == waiting);
    let mut r: Vec<ReceivedMessage> = Vec::new();
    assert(held.pending.skip(0) =~= held.pending);
    assert(handed_out(held.pending, last_ack, 0) =~= Seq::empty());
    assert(r.deep_view() =~= handed_out(held.pending, last_ack, 0));
    while r.len() < wanted && s.pending.len() > 0
        invariant
            1 <= wanted,
            held.pending.len() == waiting,
            last_ack + waiting <= u64::MAX,
            r@.len() <= wanted,
            r@.len() + s.pending@.len() == waiting,
            s.deep_view() == pulled(held, last_ack, r@.len()),
            r.deep_view() == handed_out(held.pending, last_ack, r@.len()),
        decreases s.pending@.len(),
    {
        let ghost n = r@.len();
        let ghost before = r.deep_view();
        let ghost pending_before = s.pending.deep_view();
        let ghost s_before = s.deep_view();
        let message = s.pending.pop_front().unwrap();
        assert(pending_before[0] == message.deep_view());
        assert(s.pending.deep_view() =~= pending_before.skip(1));
        assert(held.pending.skip(n as int).skip(1) =~= held.pending.skip(n as int + 1));
        assert(message.deep_view() == held.pending[n as int]);
        let id = join2("ack-", decimal_text(last_ack + r.len() as u64 + 1).as_str());
        let ghost more = handed_out(held.pending, last_ack, n + 1);
        assert(more.drop_last() =~= handed_out(held.pending, last_ack, n));
        assert(more.last() == (id@, message.deep_view()));
        s.outstanding.insert(id.clone(), message.clone());
        let received = ReceivedMessage { ack_id: id, message };
        let ghost shown = received.deep_view();
        r.push(received);
        assert(r.deep_view() =~= before.push(shown));
        assert(r.deep_view() =~= more);
    }
    r
}

/// The messages that wait to be acknowledged, without those that were.
pub open spec fn without_acknowledged(
    outstanding: Map<Seq<char>, MessageView>,
    ids: Seq<Seq<char>>,
) -> Map<Seq<char>, MessageView>
    decreases ids.len(),
{
    if ids.len() == 0 {
        outstanding
    } else {
        without_acknowledged(outstanding, ids.drop_last()).remove(ids.last())
    }
}

fn acknowledge_in(s: &mut SubscriptionRecord, ids: &Vec<String>)
    ensures
        final(s).deep_view() == (SubscriptionView {
            outstanding: without_acknowledged(
                old(s).deep_view().outstanding,
                ids.deep_view(),
            ),
            ..old(s).deep_view()
        }),
{
    let ghost held = s.deep_view();
    let ghost all = ids.deep_view();
    let mut i: usize = 0;
    assert(all.take(0) =~= Seq::empty());
    while i < ids.len()
        invariant
            i <= ids@.len(),
            all == ids.deep_view(),
            s.deep_view() == (SubscriptionView {
                outstanding: without_acknowledged(held.outstanding, all.take(i as int)),
                ..held
            }),
        decreases ids@.len() - i,
    {
        assert(all.take(i + 1).drop_last() =~= all.take(i as int));
        assert(all.take(i + 1).last() == ids@[i as int]@);
        s.outstanding.remove(ids[i].as_str());
        i += 1;
    }
    assert(all.take(i as int) =~= all);
}

/// What is told of a topic.
#[derive(Debug)]
pub struct TopicResponse {
    pub name: String,
    pub labels: TextMap<String>,
}

impl DeepView for TopicResponse {
    type V = (Seq<char>, Map<Seq<char>, Seq<char>>);

    open spec fn deep_view(&self) -> (Seq<char>, Map<Seq<char>, Seq<char>>) {
        (self.name@, self.labels.deep_view())
    }
}

/// What is told of a topic.
pub fn topic_response(name: &str, topic: &TopicRecord) -> (r: TopicResponse)
    ensures
        r.deep_view() == (name@, topic.deep_view()),
{
    TopicResponse { name: name.to_owned(), labels: clone_texts(&topic.labels) }
}

/// What is told of a subscription.
#[derive(Debug)]
pub struct SubscriptionResponse {
    pub name: String,
    pub topic: String,
    pub ack_deadline_seconds: i32,
}

/// What is told of a subscription.
#[verifier::ext_equal]
pub struct SubscriptionToldView {
    pub name: Seq<char>,
    pub topic: Seq<char>,
    pub ack_deadline_seconds: i32,
}

impl DeepView for SubscriptionResponse {
    type V = SubscriptionToldView;

    open spec fn deep_view(&self) -> SubscriptionToldView {
        SubscriptionToldView {
            name: self.name@,
            topic: self.topic@,
            ack_deadline_seconds: self.ack_deadline_seconds,
        }
    }
}

/// What is told of a subscription.
pub open spec fn told_subscription(name: Seq<char>, s: SubscriptionView) -> SubscriptionToldView {
    SubscriptionToldView { name, topic: s.topic, ack_deadline_seconds: s.ack_deadline_seconds }
}

/// What is told of a subscription.
pub fn subscription_response(name: &str, subscription: &SubscriptionRecord) -> (r:
    SubscriptionResponse)
    ensures
        r.deep_view() == told_subscription(name@, subscription.deep_view()),
{
    SubscriptionResponse {
        name: name.to_owned(),
        topic: subscription.topic.clone(),
        ack_deadline_seconds: subscription.ack_deadline_seconds,
    }
}

/// What is told of all topics of a project, in the order of their names.
pub open spec fn told_topics(p: PubsubProjectView) -> Seq<(Seq<char>, Map<Seq<char>, Seq<char>>)> {
    listing(p.topics)
}

/// What is told of all subscriptions of a project, in the order of their names.
pub open spec fn told_subscriptions(p: PubsubProjectView) -> Seq<SubscriptionToldView> {
    listing(p.subscriptions).map_values(
        |pair: (Seq<char>, SubscriptionView)| told_subscription(pair.0, pair.1),
    )
}

impl ProjectPubsubState {
    /// What is told of all topics.
    pub fn list_topics(&self) -> (r: Vec<TopicResponse>)
        ensures
            r.deep_view() == told_topics(self.deep_view()),
    {
        let ghost all = told_topics(self.deep_view());
        let mut r: Vec<TopicResponse> = Vec::new();
        let count: usize = self.topics.len();
        let mut i: usize = 0;
        assert(r.deep_view() =~= all.take(0));
        while i < count
            invariant
                all == told_topics(self.deep_view()),
                count == all.len(),
                i <= count,
                r.deep_view() == all.take(i as int),
            decreases count - i,
        {
            let ghost before = r.deep_view();
            r.push(topic_response(self.topics.key_at(i).as_str(), self.topics.value_at(i)));
            assert(r.deep_view() =~= before.push(all[i as int]));
            i += 1;
            assert(r.deep_view() =~= all.take(i as int));
        }
        assert(all.take(count as int) =~= all);
        r
    }

    /// What is told of all subscriptions.
    pub fn list_subscriptions(&self) -> (r: Vec<SubscriptionResponse>)
        ensures
            r.deep_view() == told_subscriptions(self.deep_view()),
    {
        let ghost all = told_subscriptions(self.deep_view());
        let mut r: Vec<SubscriptionResponse> = Vec::new();
        let count: usize = self.subscriptions.len();
        let mut i: usize = 0;
        assert(r.deep_view() =~= all.take(0));
        while i < count
            invariant
                all == told_subscriptions(self.deep_view()),
                count == listing(self.deep_view().subscriptions).len(),
                i <= count,
                r.deep_view() == all.take(i as int),
            decreases count - i,
        {
            let ghost before = r.deep_view();
            r.push(
                subscription_response(
                    self.subscriptions.key_at(i).as_str(),
                    self.subscriptions.value_at(i),
                ),
            );
            assert(r.deep_view() =~= before.push(all[i as int]));
            i += 1;
            assert(r.deep_view() =~= all.take(i as int));
        }
        assert(all.take(count as int) =~= all);
        r
    }
}

/// The topics and subscriptions of all projects.
#[derive(Debug)]
pub struct PubsubState {
    pub projects: TextMap<ProjectPubsubState>,
}

/// What the projects hold.
#[verifier::ext_equal]
pub struct PubsubView {
    pub projects: Map<Seq<char>, PubsubProjectView>,
}

impl DeepView for PubsubState {
    type V = PubsubView;

    open spec fn deep_view(&self) -> PubsubView {
        PubsubView { projects: self.projects.deep_view() }
    }
}

impl PubsubView {
    /// What a project holds; one that nobody has used holds nothing.
    pub open spec fn project(self, project_id: Seq<char>) -> PubsubProjectView {
        if self.projects.contains_key(project_id) {
            self.projects[project_id]
        } else {
            PubsubProjectView::empty()
        }
    }

    /// The state with another content of a project.
    pub open spec fn with_project(self, project_id: Seq<char>, p: PubsubProjectView) -> PubsubView {
        PubsubView { projects: self.projects.insert(project_id, p) }
    }
}

/// The state after a topic was made or changed, and what is told of it.
pub open spec fn create_topic_step(
    v: PubsubView,
    project_id: Seq<char>,
    topic: Seq<char>,
    labels: Map<Seq<char>, Seq<char>>,
) -> PubsubView {
    let p = v.project(project_id);
    v.with_project(
        project_id,
        PubsubProjectView {
            topics: p.topics.insert(topic_named(project_id, topic), labels),
            ..p
        },
    )
}

/// The state after a topic was deleted, with all subscriptions to it.
pub open spec fn delete_topic_step(v: PubsubView, project_id: Seq<char>, topic: Seq<char>) -> (
    PubsubView,
    Result<(), PubsubError>,
) {
    let name = topic_named(project_id, topic);
    let p = v.project(project_id);
    if !p.topics.contains_key(name) {
        (v, Err(PubsubError::TopicNotFound))
    } else {
        (
            v.with_project(
                project_id,
                PubsubProjectView {
                    topics: p.topics.remove(name),
                    subscriptions: keep_values(
                        p.subscriptions,
                        |s: SubscriptionView| s.topic != name,
                    ),
                    ..p
                },
            ),
            Ok(()),
        )
    }
}

/// The state after messages were published on a topic, and the messages.
pub open spec fn publish_step(
    v: PubsubView,
    project_id: Seq<char>,
    topic: Seq<char>,
    inputs: Seq<PublishView>,
    now_ms: u64,
) -> (PubsubView, Result<Seq<MessageView>, PubsubError>) {
    let p = v.project(project_id);
    if !p.topics.contains_key(topic) {
        (v, Err(PubsubError::TopicNotFound))
    } else {
        (
            v.with_project(project_id, published(p, topic, inputs, now_ms)),
            Ok(numbered(inputs, p.next_message_id, now_ms)),
        )
    }
}

/// A subscription that was just made.
pub open spec fn new_subscription(topic: Seq<char>, ack_deadline_seconds: Option<i32>) -> SubscriptionView {
    SubscriptionView {
        topic,
        ack_deadline_seconds: match ack_deadline_seconds {
            Some(seconds) => seconds,
            None => 10,
        },
        pending: Seq::empty(),
        outstanding: Map::empty(),
    }
}

/// The state after a subscription was made, and what is told of it.
pub open spec fn create_subscription_step(
    v: PubsubView,
    project_id: Seq<char>,
    subscription: Seq<char>,
    topic: Seq<char>,
    ack_deadline_seconds: Option<i32>,
) -> (PubsubView, Result<SubscriptionToldView, PubsubError>) {
    let p = v.project(project_id);
    let topic = normal_topic(project_id, topic);
    let name = subscription_named(project_id, subscription);
    if !p.topics.contains_key(topic) {
        (v, Err(PubsubError::TopicNotFound))
    } else {
        let made = new_subscription(topic, ack_deadline_seconds);
        (
            v.with_project(
                project_id,
                PubsubProjectView { subscriptions: p.subscriptions.insert(name, made), ..p },
            ),
            Ok(told_subscription(name, made)),
        )
    }
}

/// The state with another content of a subscription.
pub open spec fn with_subscription(
    v: PubsubView,
    project_id: Seq<char>,
    name: Seq<char>,
    s: SubscriptionView,
) -> PubsubView {
    let p = v.project(project_id);
    v.with_project(
        project_id,
        PubsubProjectView { subscriptions: p.subscriptions.insert(name, s), ..p },
    )
}

/// The state after a subscription was deleted.
pub open spec fn delete_subscription_step(
    v: PubsubView,
    project_id: Seq<char>,
    subscription: Seq<char>,
) -> (PubsubView, Result<(), PubsubError>) {
    let p = v.project(project_id);
    let name = subscription_named(project_id, subscription);
    if !p.subscriptions.contains_key(name) {
        (v, Err(PubsubError::SubscriptionNotFound))
    } else {
        (
            v.with_project(
                project_id,
                PubsubProjectView { subscriptions: p.subscriptions.remove(name), ..p },
            ),
            Ok(()),
        )
    }
}

/// What is told of a topic.
pub open spec fn found_topic(v: PubsubView, project_id: Seq<char>, topic: Seq<char>) -> Result<
    (Seq<char>, Map<Seq<char>, Seq<char>>),
    PubsubError,
> {
    let name = topic_named(project_id, topic);
    let topics = v.project(project_id).topics;
    if topics.contains_key(name) {
        Ok((name, topics[name]))
    } else {
        Err(PubsubError::TopicNotFound)
    }
}

/// What is told of a subscription.
pub open spec fn found_subscription(
    v: PubsubView,
    project_id: Seq<char>,
    subscription: Seq<char>,
) -> Result<SubscriptionToldView, PubsubError> {
    let name = subscription_named(project_id, subscription);
    let subscriptions = v.project(project_id).subscriptions;
    if subscriptions.contains_key(name) {
        Ok(told_subscription(name, subscriptions[name]))
    } else {
        Err(PubsubError::SubscriptionNotFound)
    }
}

/// The state after a project was forgotten.
pub open spec fn without_project(v: PubsubView, project_id: Seq<char>) -> PubsubView {
    PubsubView { projects: v.projects.remove(project_id) }
}

/// The state after messages were pulled, and the messages.
pub open spec fn pull_step(
    v: PubsubView,
    project_id: Seq<char>,
    subscription: Seq<char>,
    max_messages: Option<usize>,
) -> (PubsubView, Result<Seq<(Seq<char>, MessageView)>, PubsubError>) {
    let p = v.project(project_id);
    let name = subscription_named(project_id, subscription);
    if !p.subscriptions.contains_key(name) {
        (v, Err(PubsubError::SubscriptionNotFound))
    } else {
        let s = p.subscriptions[name];
        let count = pull_count(max_messages, s.pending.len());
        (
            v.with_project(
                project_id,
                PubsubProjectView {
                    subscriptions: p.subscriptions.insert(
                        name,
                        pulled(s, p.next_ack_id, count),
                    ),
                    next_ack_id: (p.next_ack_id + count) as u64,
                    ..p
                },
            ),
            Ok(handed_out(s.pending, p.next_ack_id, count)),
        )
    }
}

/// The state after messages were acknowledged.
pub open spec fn acknowledge_step(
    v: PubsubView,
    project_id: Seq<char>,
    subscription: Seq<char>,
    ids: Seq<Seq<char>>,
) -> (PubsubView, Result<(), PubsubError>) {
    let p = v.project(project_id);
    let name = subscription_named(project_id, subscription);
    if !p.subscriptions.contains_key(name) {
        (v, Err(PubsubError::SubscriptionNotFound))
    } else {
        let s = p.subscriptions[name];
        (
            with_subscription(
                v,
                project_id,
                name,
                SubscriptionView {
                    outstanding: without_acknowledged(s.outstanding, ids),
                    ..s
                },
            ),
            Ok(()),
        )
    }
}

/// Whether a project has numbers left for messages.
pub open spec fn ids_left(v: PubsubView, project_id: Seq<char>, count: nat) -> bool {
    v.project(project_id).next_message_id + count <= u64::MAX
}

/// Whether a project has numbers left to acknowledge the messages that wait in a subscription.
pub open spec fn acks_left(v: PubsubView, project_id: Seq<char>, subscription: Seq<char>) -> bool {
    let p = v.project(project_id);
    let name = subscription_named(project_id, subscription);
    p.subscriptions.contains_key(name) ==> p.next_ack_id + p.subscriptions[name].pending.len()
        <= u64::MAX
}

impl Default for PubsubState {
    fn default() -> (r: PubsubState)
        ensures
            r.deep_view() == (PubsubView { projects: Map::empty() }),
    {
        PubsubState::new()
    }
}

impl PubsubState {
    /// No topics yet.
    pub fn new() -> (r: PubsubState)
        ensures
            r.deep_view() == (PubsubView { projects: Map::empty() }),
    {
        PubsubState { projects: TextMap::new() }
    }

    pub(crate) fn take_project(&mut self, project_id: &str) -> (p: ProjectPubsubState)
        ensures
            p.deep_view() == old(self).deep_view().project(project_id@),
            forall|q: PubsubProjectView| #[trigger]
                final(self).deep_view().with_project(project_id@, q) == old(
                    self,
                ).deep_view().with_project(project_id@, q),
    {
        let ghost before = self.deep_view();
        let taken = self.projects.remove(project_id);
        assert forall|q: PubsubProjectView| #[trigger]
            self.deep_view().with_project(project_id@, q) == before.with_project(
                project_id@,
                q,
            ) by {
            assert(before.projects.remove(project_id@).insert(project_id@, q)
                =~= before.projects.insert(project_id@, q));
        }
        match taken {
            Some(p) => p,
            None => ProjectPubsubState::new(),
        }
    }

    pub(crate) fn put_project(&mut self, project_id: &str, p: ProjectPubsubState)
        ensures
            final(self).deep_view() == old(self).deep_view().with_project(
                project_id@,
                p.deep_view(),
            ),
    {
        self.projects.insert(project_id.to_owned(), p);
    }

    fn topic(&self, project_id: &str, name: &str) -> (r: Option<&TopicRecord>)
        ensures
            r is Some == self.deep_view().project(project_id@).topics.contains_key(name@),
            r matches Some(t) ==> t.deep_view() == self.deep_view().project(
                project_id@,
            ).topics[name@],
    {
        match self.projects.get(project_id) {
            Some(project) => project.topics.get(name),
            None => None,
        }
    }

    fn subscription(&self, project_id: &str, name: &str) -> (r: Option<&SubscriptionRecord>)
        ensures
            r is Some == self.deep_view().project(project_id@).subscriptions.contains_key(name@),
            r matches Some(s) ==> s.deep_view() == self.deep_view().project(
                project_id@,
            ).subscriptions[name@],
    {
        match self.projects.get(project_id) {
            Some(project) => project.subscriptions.get(name),
            None => None,
        }
    }

    /// Makes a topic, or changes the labels of one.
    pub fn create_topic(&mut self, project_id: &str, topic: &str, labels: TextMap<String>) -> (r:
        TopicResponse)
        ensures
            final(self).deep_view() == create_topic_step(
                old(self).deep_view(),
                project_id@,
                topic@,
                labels.deep_view(),
            ),
            r.deep_view() == (topic_named(project_id@, topic@), labels.deep_view()),
    {
        let name = topic_name(project_id, topic);
        let mut project = self.take_project(project_id);
        let record = TopicRecord { labels };
        let r = topic_response(name.as_str(), &record);
        project.topics.insert(name, record);
        self.put_project(project_id, project);
        r
    }

    /// What is told of a topic.
    pub fn get_topic(&self, project_id: &str, topic: &str) -> (r: Result<TopicResponse, PubsubError>)
        ensures
            pubsub_outcome(r) == found_topic(self.deep_view(), project_id@, topic@),
    {
        let name = topic_name(project_id, topic);
        match self.topic(project_id, name.as_str()) {
            Some(record) => Ok(topic_response(name.as_str(), record)),
            None => Err(PubsubError::TopicNotFound),
        }
    }

    /// What is told of all topics of a project.
    pub fn list_topics(&self, project_id: &str) -> (r: Vec<TopicResponse>)
        ensures
            r.deep_view() == told_topics(self.deep_view().project(project_id@)),
    {
        match self.projects.get(project_id) {
            Some(project) => project.list_topics(),
            None => ProjectPubsubState::new().list_topics(),
        }
    }

    /// Deletes a topic and all subscriptions to it.
    pub fn delete_topic(&mut self, project_id: &str, topic: &str) -> (r: Result<(), PubsubError>)
        ensures
            (final(self).deep_view(), r) == delete_topic_step(
                old(self).deep_view(),
                project_id@,
                topic@,
            ),
    {
        let name = topic_name(project_id, topic);
        if self.topic(project_id, name.as_str()).is_none() {
            return Err(PubsubError::TopicNotFound);
        }
        let mut project = self.take_project(project_id);
        project.topics.remove(name.as_str());
        let elsewhere = |s: &SubscriptionRecord| -> (kept: bool)
            ensures
                kept == (s.deep_view().topic != name@),
        {
            !same_text(s.topic.as_str(), name.as_str())
        };
        project.subscriptions.retain(
            elsewhere,
            Ghost(|s: SubscriptionView| s.topic != name@),
        );
        self.put_project(project_id, project);
        Ok(())
    }

    /// Whether a project has numbers left for messages.
    pub fn can_publish(&self, project_id: &str, count: usize) -> (r: bool)
        ensures
            r == ids_left(self.deep_view(), project_id@, count as nat),
    {
        match self.projects.get(project_id) {
            Some(project) => count as u64 <= u64::MAX - project.next_message_id,
            None => true,
        }
    }

    /// Publishes messages on a topic, given by its full name, and hands out copies of them.
    pub fn publish(
        &mut self,
        project_id: &str,
        topic: &str,
        inputs: Vec<PublishMessage>,
        now_ms: u64,
    ) -> (r: Result<Vec<PubsubMessage>, PubsubError>)
        requires
            ids_left(old(self).deep_view(), project_id@, inputs@.len()),
        ensures
            (final(self).deep_view(), pubsub_outcome(r)) == publish_step(
                old(self).deep_view(),
                project_id@,
                topic@,
                inputs.deep_view(),
                now_ms,
            ),
    {
        if self.topic(project_id, topic).is_none() {
            return Err(PubsubError::TopicNotFound);
        }
        let mut project = self.take_project(project_id);
        let messages = project.publish(topic, inputs, now_ms);
        self.put_project(project_id, project);
        Ok(messages)
    }

    /// Publishes messages, where the action on a topic is to publish.
    pub fn publish_topic(
        &mut self,
        project_id: &str,
        topic_action: &str,
        inputs: Vec<PublishMessage>,
        now_ms: u64,
    ) -> (r: Result<Vec<PubsubMessage>, PubsubError>)
        requires
            ids_left(old(self).deep_view(), project_id@, inputs@.len()),
        ensures
            (final(self).deep_view(), pubsub_outcome(r)) == match without_suffix(
                topic_action@,
                ":publish"@,
            ) {
                Some(topic) => publish_step(
                    old(self).deep_view(),
                    project_id@,
                    topic_named(project_id@, topic),
                    inputs.deep_view(),
                    now_ms,
                ),
                None => (old(self).deep_view(), Err(PubsubError::UnsupportedTopicAction)),
            },
    {
        match route_topic_action(topic_action) {
            Ok(topic) => {
                let name = topic_name(project_id, topic);
                self.publish(project_id, name.as_str(), inputs, now_ms)
            },
            Err(e) => Err(e),
        }
    }

    /// Makes a subscription to a topic, in place of one of that name.
    pub fn create_subscription(
        &mut self,
        project_id: &str,
        subscription: &str,
        topic: &str,
        ack_deadline_seconds: Option<i32>,
    ) -> (r: Result<SubscriptionResponse, PubsubError>)
        ensures
            (final(self).deep_view(), pubsub_outcome(r)) == create_subscription_step(
                old(self).deep_view(),
                project_id@,
                subscription@,
                topic@,
                ack_deadline_seconds,
            ),
    {
        let name = subscription_name(project_id, subscription);
        let topic = normalize_topic_name(project_id, topic);
        if self.topic(project_id, topic.as_str()).is_none() {
            return Err(PubsubError::TopicNotFound);
        }
        let pending: VecDeque<PubsubMessage> = VecDeque::new();
        assert(pending.deep_view() =~= Seq::empty());
        let record = SubscriptionRecord {
            topic,
            ack_deadline_seconds: match ack_deadline_seconds {
                Some(seconds) => seconds,
                None => 10,
            },
            pending,
            outstanding: TextMap::new(),
        };
        let r = subscription_response(name.as_str(), &record);
        let mut project = self.take_project(project_id);
        project.subscriptions.insert(name, record);
        self.put_project(project_id, project);
        Ok(r)
    }

    /// What is told of a subscription.
    pub fn get_subscription(&self, project_id: &str, subscription: &str) -> (r: Result<
        SubscriptionResponse,
        PubsubError,
    >)
        ensures
            pubsub_outcome(r) == found_subscription(
                self.deep_view(),
                project_id@,
                subscription@,
            ),
    {
        let name = subscription_name(project_id, subscription);
        match self.subscription(project_id, name.as_str()) {
            Some(record) => Ok(subscription_response(name.as_str(), record)),
            None => Err(PubsubError::SubscriptionNotFound),
        }
    }

    /// What is told of all subscriptions of a project.
    pub fn list_subscriptions(&self, project_id: &str) -> (r: Vec<SubscriptionResponse>)
        ensures
            r.deep_view() == told_subscriptions(self.deep_view().project(project_id@)),
    {
        match self.projects.get(project_id) {
            Some(project) => project.list_subscriptions(),
            None => ProjectPubsubState::new().list_subscriptions(),
        }
    }

    /// Deletes a subscription.
    pub fn delete_subscription(&mut self, project_id: &str, subscription: &str) -> (r: Result<
        (),
        PubsubError,
    >)
        ensures
            (final(self).deep_view(), r) == delete_subscription_step(
                old(self).deep_view(),
                project_id@,
                subscription@,
            ),
    {
        let name = subscription_name(project_id, subscription);
        if self.subscription(project_id, name.as_str()).is_none() {
            return Err(PubsubError::SubscriptionNotFound);
        }
        let mut project = self.take_project(project_id);
        project.subscriptions.remove(name.as_str());
        self.put_project(project_id, project);
        Ok(())
    }

    /// Whether a project has numbers left to acknowledge the messages that wait in a
    /// subscription.
    pub fn can_pull(&self, project_id: &str, subscription: &str) -> (r: bool)
        ensures
            r == acks_left(self.deep_view(), project_id@, subscription@),
    {
        let name = subscription_name(project_id, subscription);
        match self.projects.get(project_id) {
            Some(project) => match project.subscriptions.get(name.as_str()) {
                Some(s) => {
                    assert(s.pending.deep_view().len() == s.pending@.len());
                    s.pending.len() as u64 <= u64::MAX - project.next_ack_id
                },
                None => true,
            },
            None => true,
        }
    }

    /// Pulls messages of a subscription; they then wait to be acknowledged.
    pub fn pull_subscription(
        &mut self,
        project_id: &str,
        subscription: &str,
        max_messages: Option<usize>,
    ) -> (r: Result<Vec<ReceivedMessage>, PubsubError>)
        requires
            acks_left(old(self).deep_view(), project_id@, subscription@),
        ensures
            (final(self).deep_view(), pubsub_outcome(r)) == pull_step(
                old(self).deep_view(),
                project_id@,
                subscription@,
                max_messages,
            ),
    {
        let name = subscription_name(project_id, subscription);
        if self.subscription(project_id, name.as_str()).is_none() {
            return Err(PubsubError::SubscriptionNotFound);
        }
        let mut project = self.take_project(project_id);
        let ghost p = project.deep_view();
        let mut s = project.subscriptions.remove(name.as_str()).unwrap();
        assert(s.pending.deep_view().len() == s.pending@.len());
        let received = pull_from(&mut s, project.next_ack_id, max_messages);
        project.next_ack_id = project.next_ack_id + received.len() as u64;
        let ghost after = s.deep_view();
        project.subscriptions.insert(name, s);
        assert(p.subscriptions.remove(name@).insert(name@, after) =~= p.subscriptions.insert(
            name@,
            after,
        ));
        self.put_project(project_id, project);
        Ok(received)
    }

    /// Acknowledges messages that were pulled.
    pub fn acknowledge_subscription(
        &mut self,
        project_id: &str,
        subscription: &str,
        ack_ids: &Vec<String>,
    ) -> (r: Result<(), PubsubError>)
        ensures
            (final(self).deep_view(), r) == acknowledge_step(
                old(self).deep_view(),
                project_id@,
                subscription@,
                ack_ids.deep_view(),
            ),
    {
        let name = subscription_name(project_id, subscription);
        if self.subscription(project_id, name.as_str()).is_none() {
            return Err(PubsubError::SubscriptionNotFound);
        }
        let mut project = self.take_project(project_id);
        let ghost p = project.deep_view();
        let mut s = project.subscriptions.remove(name.as_str()).unwrap();
        acknowledge_in(&mut s, ack_ids);
        let ghost after = s.deep_view();
        project.subscriptions.insert(name, s);
        assert(p.subscriptions.remove(name@).insert(name@, after) =~= p.subscriptions.insert(
            name@,
            after,
        ));
        self.put_project(project_id, project);
        Ok(())
    }

    /// What is told of all topics and subscriptions of a project.
    pub fn project_snapshot(&self, project_id: &str) -> (r: (
        Vec<TopicResponse>,
        Vec<SubscriptionResponse>,
    ))
        ensures
            r.0.deep_view() == told_topics(self.deep_view().project(project_id@)),
            r.1.deep_view() == told_subscriptions(self.deep_view().project(project_id@)),
    {
        (self.list_topics(project_id), self.list_subscriptions(project_id))
    }

    /// Forgets all that a project holds.
    pub fn reset_project(&mut self, project_id: &str)
        ensures
            final(self).deep_view() == without_project(old(self).deep_view(), project_id@),
    {
        self.projects.remove(project_id);
    }
}

/// The topic that an action names, where it asks to publish.
pub fn route_topic_action<'a>(action: &'a str) -> (r: Result<&'a str, PubsubError>)
    ensures
        match without_suffix(action@, ":publish"@) {
            Some(topic) => r is Ok && r->Ok_0@ == topic,
            None => r == Err::<&'a str, PubsubError>(PubsubError::UnsupportedTopicAction),
        },
{
    match strip_suffix(action, ":publish") {
        Some(topic) => Ok(topic),
        None => Err(PubsubError::UnsupportedTopicAction),
    }
}

/// What an action on a subscription asks for.
#[derive(Clone, Copy, PartialEq, Eq, Structural, Debug)]
pub enum SubscriptionAction {
    Pull,
    Acknowledge,
}

/// The subscription that an action names, and what it asks for.
pub open spec fn subscription_action_of(action: Seq<char>) -> Option<
    (Seq<char>, SubscriptionAction),
> {
    match without_suffix(action, ":pull"@) {
        Some(subscription) => Some((subscription, SubscriptionAction::Pull)),
        None => match without_suffix(action, ":acknowledge"@) {
            Some(subscription) => Some((subscription, SubscriptionAction::Acknowledge)),
            None => None,
        },
    }
}

/// The subscription that an action names, and what it asks for.
pub fn route_subscription_action<'a>(action: &'a str) -> (r: Result<
    (&'a str, SubscriptionAction),
    PubsubError,
>)
    ensures
        match subscription_action_of(action@) {
            Some((subscription, found)) => r is Ok && r->Ok_0.0@ == subscription && r->Ok_0.1
                == found,
            None => r == Err::<(&'a str, SubscriptionAction), PubsubError>(
                PubsubError::UnsupportedSubscriptionAction,
            ),
        },
{
    match strip_suffix(action, ":pull") {
        Some(subscription) => Ok((subscription, SubscriptionAction::Pull)),
        None => match strip_suffix(action, ":acknowledge") {
            Some(subscription) => Ok((subscription, SubscriptionAction::Acknowledge)),
            None => Err(PubsubError::UnsupportedSubscriptionAction),
        },
    }
}

} // verus!
