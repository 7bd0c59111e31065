//! What each request does to topics, subscriptions and messages.

use crate::decimal::decimal;
use crate::pubsub::errors::PubsubError;
use crate::pubsub::grpc::{grpc_publish_step, project_of_topic, GrpcPublishView};
use crate::pubsub::laws::{acknowledged_is_gone, pulled_waits_for_acknowledgement};
use crate::pubsub::state::{
    acknowledge_step, create_subscription_step, create_topic_step, delete_subscription_step,
    delete_topic_step, found_subscription, found_topic, handed_out, publish_step, pull_count,
    pull_step, subscription_action_of, told_subscriptions, told_topics, with_outstanding,
    without_project, MessageView, PublishView, PubsubProjectView, PubsubView, SubscriptionAction,
    SubscriptionView,
};
use crate::text::{cut, cut_is_at_first, cut_reads_back, lacks};
use crate::text_map::listing;
use vstd::prelude::*;

verus! {

/// The full name of a subscription.
pub open spec fn full_subscription(project_id: Seq<char>, subscription: Seq<char>) -> Seq<char> {
    "projects/"@ + project_id + "/subscriptions/"@ + subscription
}

/// The full name of a topic.
pub open spec fn full_topic(project_id: Seq<char>, topic: Seq<char>) -> Seq<char> {
    "projects/"@ + project_id + "/topics/"@ + topic
}

proof fn old_outstanding_stays(
    outstanding: Map<Seq<char>, MessageView>,
    more: Seq<(Seq<char>, MessageView)>,
    id: Seq<char>,
)
    requires
        forall|i: int| 0 <= i < more.len() ==> (#[trigger] more[i]).0 != id,
    ensures
        with_outstanding(outstanding, more).contains_key(id) == outstanding.contains_key(id),
        outstanding.contains_key(id) ==> with_outstanding(outstanding, more)[id]
            == outstanding[id],
    decreases more.len(),
{
    if more.len() > 0 {
        let head = more.drop_last();
        assert forall|i: int| 0 <= i < head.len() implies (#[trigger] head[i]).0 != id by {
            assert(head[i] == more[i]);
        }
        old_outstanding_stays(outstanding, head, id);
        assert(more[more.len() - 1].0 != id);
    }
}

/// A pull gives as many messages as are asked for, but one at least, or all that wait where there
/// are fewer: the first ones, in their order. Each waits for its acknowledgement from then on,
/// under an id of its own, and the others go on waiting to be pulled.
#[verifier::rlimit(50)]
pub proof fn pull_gives_what_is_asked(
    v: PubsubView,
    project_id: Seq<char>,
    subscription: Seq<char>,
    max_messages: Option<usize>,
)
    ensures
        ({
            let name = full_subscription(project_id, subscription);
            let p = v.project(project_id);
            let before = p.subscriptions[name];
            let (w, r) = pull_step(v, project_id, subscription, max_messages);
            let q = w.project(project_id);
            let after = q.subscriptions[name];
            let got = r->Ok_0;
            let asked: int = if max_messages is Some && max_messages->0 > 1 {
                max_messages->0 as int
            } else {
                1
            };
            &&& !p.subscriptions.contains_key(name) ==> w == v && r == Err::<
                Seq<(Seq<char>, MessageView)>,
                _,
            >(PubsubError::SubscriptionNotFound)
            &&& p.subscriptions.contains_key(name) ==> {
                &&& r is Ok
                &&& asked <= before.pending.len() ==> got.len() == asked
                &&& asked > before.pending.len() ==> got.len() == before.pending.len()
                &&& forall|i: int|
                    0 <= i < got.len() ==> (#[trigger] got[i]).1 == before.pending[i] && got[i].0
                        == "ack-"@ + decimal((p.next_ack_id + 1 + i) as nat)
                &&& forall|i: int|
                    0 <= i < got.len() ==> after.outstanding.contains_key(
                        (#[trigger] got[i]).0,
                    ) && after.outstanding[got[i].0] == got[i].1
                &&& forall|id: Seq<char>|
                    (forall|i: int| 0 <= i < got.len() ==> (#[trigger] got[i]).0 != id) ==> (
                    #[trigger] after.outstanding.contains_key(id))
                        == before.outstanding.contains_key(id) && (before.outstanding.contains_key(
                        id,
                    ) ==> after.outstanding[id] == before.outstanding[id])
                &&& after.pending == before.pending.skip(got.len() as int)
                &&& after.topic == before.topic
                &&& after.ack_deadline_seconds == before.ack_deadline_seconds
                &&& p.next_ack_id + got.len() <= u64::MAX ==> q.next_ack_id == p.next_ack_id
                    + got.len()
                &&& q.next_message_id == p.next_message_id
                &&& q.topics == p.topics
                &&& q.subscriptions == p.subscriptions.insert(name, after)
            }
        }),
{
    let name = full_subscription(project_id, subscription);
    let p = v.project(project_id);
    if p.subscriptions.contains_key(name) {
        let before = p.subscriptions[name];
        let (w, r) = pull_step(v, project_id, subscription, max_messages);
        let after = w.project(project_id).subscriptions[name];
        let got = r->Ok_0;
        let count = pull_count(max_messages, before.pending.len());
        assert(got == handed_out(before.pending, p.next_ack_id, count));
        assert forall|i: int| 0 <= i < got.len() implies after.outstanding.contains_key(
            (#[trigger] got[i]).0,
        ) && after.outstanding[got[i].0] == got[i].1 by {
            pulled_waits_for_acknowledgement(before, p.next_ack_id, count, i);
        }
        assert forall|id: Seq<char>|
            (forall|i: int| 0 <= i < got.len() ==> (#[trigger] got[i]).0 != id) implies (
        #[trigger] after.outstanding.contains_key(id)) == before.outstanding.contains_key(id) && (
        before.outstanding.contains_key(id) ==> after.outstanding[id] == before.outstanding[id]) by {
            old_outstanding_stays(before.outstanding, got, id);
        }
    }
}

/// Messages that are published on a topic that there is are numbered on from the last message of
/// the project, keep what they hold, and go to the end of every subscription to the topic and of
/// no other.
pub proof fn publish_reaches_all_subscriptions(
    v: PubsubView,
    project_id: Seq<char>,
    topic: Seq<char>,
    inputs: Seq<PublishView>,
    now_ms: u64,
)
    requires
        v.project(project_id).next_message_id + inputs.len() <= u64::MAX,
    ensures
        ({
            let p = v.project(project_id);
            let (w, r) = publish_step(v, project_id, topic, inputs, now_ms);
            let q = w.project(project_id);
            let sent = r->Ok_0;
            &&& !p.topics.contains_key(topic) ==> w == v && r == Err::<Seq<MessageView>, _>(
                PubsubError::TopicNotFound,
            )
            &&& p.topics.contains_key(topic) ==> {
                &&& r is Ok
                &&& sent.len() == inputs.len()
                &&& forall|i: int| #![trigger sent[i]]
                    0 <= i < sent.len() ==> {
                        &&& sent[i].data == inputs[i].data
                        &&& sent[i].attributes == inputs[i].attributes
                        &&& sent[i].ordering_key == inputs[i].ordering_key
                        &&& sent[i].message_id == decimal((p.next_message_id + 1 + i) as nat)
                        &&& sent[i].publish_time == decimal(now_ms as nat)
                    }
                &&& forall|name: Seq<char>| #[trigger]
                    q.subscriptions.contains_key(name) == p.subscriptions.contains_key(name)
                &&& forall|name: Seq<char>| #[trigger]
                    p.subscriptions.contains_key(name) ==> q.subscriptions[name] == (
                    SubscriptionView {
                        pending: if p.subscriptions[name].topic == topic {
                            p.subscriptions[name].pending + sent
                        } else {
                            p.subscriptions[name].pending
                        },
                        ..p.subscriptions[name]
                    })
                &&& q.topics == p.topics
                &&& q.next_message_id == p.next_message_id + inputs.len()
                &&& q.next_ack_id == p.next_ack_id
            }
        }),
{
}

/// A topic is there once it was made, with the labels it was given, and nothing else changes.
pub proof fn made_topic_is_there(
    v: PubsubView,
    project_id: Seq<char>,
    topic: Seq<char>,
    labels: Map<Seq<char>, Seq<char>>,
)
    ensures
        ({
            let p = v.project(project_id);
            let q = create_topic_step(v, project_id, topic, labels).project(project_id);
            let name = full_topic(project_id, topic);
            &&& q.topics.contains_key(name)
            &&& q.topics[name] == labels
            &&& q == (PubsubProjectView { topics: p.topics.insert(name, labels), ..p })
        }),
{
}

/// A topic that there is can be deleted, with all subscriptions to it and no others.
pub proof fn deleted_topic_is_gone(v: PubsubView, project_id: Seq<char>, topic: Seq<char>)
    ensures
        ({
            let p = v.project(project_id);
            let (w, r) = delete_topic_step(v, project_id, topic);
            let q = w.project(project_id);
            let name = full_topic(project_id, topic);
            &&& !p.topics.contains_key(name) ==> w == v && r == Err::<(), _>(
                PubsubError::TopicNotFound,
            )
            &&& p.topics.contains_key(name) ==> {
                &&& r is Ok
                &&& q.topics == p.topics.remove(name)
                &&& forall|s: Seq<char>| #[trigger]
                    q.subscriptions.contains_key(s) <==> p.subscriptions.contains_key(s)
                        && p.subscriptions[s].topic != name
                &&& forall|s: Seq<char>| #[trigger]
                    q.subscriptions.contains_key(s) ==> q.subscriptions[s] == p.subscriptions[s]
                &&& q.next_message_id == p.next_message_id
                &&& q.next_ack_id == p.next_ack_id
            }
        }),
{
}

/// A subscription is made to a topic that there is, which may be given by its full name or its
/// last part. Nothing waits in it at first, and it has ten seconds for acknowledgements unless it
/// is given another time.
pub proof fn made_subscription_is_there(
    v: PubsubView,
    project_id: Seq<char>,
    subscription: Seq<char>,
    topic: Seq<char>,
    deadline: Option<i32>,
)
    ensures
        ({
            let p = v.project(project_id);
            let (w, r) = create_subscription_step(v, project_id, subscription, topic, deadline);
            let q = w.project(project_id);
            let name = full_subscription(project_id, subscription);
            let full = if "projects/"@.is_prefix_of(topic) {
                topic
            } else {
                full_topic(project_id, topic)
            };
            let made = q.subscriptions[name];
            &&& !p.topics.contains_key(full) ==> w == v && r is Err && r->Err_0
                == PubsubError::TopicNotFound
            &&& p.topics.contains_key(full) ==> {
                &&& r is Ok
                &&& r->Ok_0.name == name
                &&& r->Ok_0.topic == full
                &&& r->Ok_0.ack_deadline_seconds == made.ack_deadline_seconds
                &&& made.topic == full
                &&& made.pending.len() == 0
                &&& made.outstanding == Map::<Seq<char>, MessageView>::empty()
                &&& deadline is Some ==> made.ack_deadline_seconds == deadline->0
                &&& deadline is None ==> made.ack_deadline_seconds == 10
                &&& q == (PubsubProjectView {
                    subscriptions: p.subscriptions.insert(name, made),
                    ..p
                })
            }
        }),
{
}

/// A subscription that was deleted is gone, and nothing else with it.
pub proof fn deleted_subscription_is_gone(
    v: PubsubView,
    project_id: Seq<char>,
    subscription: Seq<char>,
)
    ensures
        ({
            let p = v.project(project_id);
            let (w, r) = delete_subscription_step(v, project_id, subscription);
            let q = w.project(project_id);
            let name = full_subscription(project_id, subscription);
            &&& !p.subscriptions.contains_key(name) ==> w == v && r == Err::<(), _>(
                PubsubError::SubscriptionNotFound,
            )
            &&& p.subscriptions.contains_key(name) ==> r is Ok && q == (PubsubProjectView {
                subscriptions: p.subscriptions.remove(name),
                ..p
            })
        }),
{
}

/// An acknowledgement takes away the messages whose ids it gives and no others; those that wait to
/// be pulled stay.
pub proof fn acknowledgement_takes_what_it_names(
    v: PubsubView,
    project_id: Seq<char>,
    subscription: Seq<char>,
    ids: Seq<Seq<char>>,
)
    ensures
        ({
            let p = v.project(project_id);
            let (w, r) = acknowledge_step(v, project_id, subscription, ids);
            let q = w.project(project_id);
            let name = full_subscription(project_id, subscription);
            let before = p.subscriptions[name];
            let after = q.subscriptions[name];
            &&& !p.subscriptions.contains_key(name) ==> w == v && r == Err::<(), _>(
                PubsubError::SubscriptionNotFound,
            )
            &&& p.subscriptions.contains_key(name) ==> {
                &&& r is Ok
                &&& forall|id: Seq<char>| #[trigger]
                    after.outstanding.contains_key(id) <==> before.outstanding.contains_key(id)
                        && !ids.contains(id)
                &&& forall|id: Seq<char>| #[trigger]
                    after.outstanding.contains_key(id) ==> after.outstanding[id]
                        == before.outstanding[id]
                &&& after == (SubscriptionView { outstanding: after.outstanding, ..before })
                &&& q == (PubsubProjectView {
                    subscriptions: p.subscriptions.insert(name, after),
                    ..p
                })
            }
        }),
{
    let p = v.project(project_id);
    let name = full_subscription(project_id, subscription);
    if p.subscriptions.contains_key(name) {
        let before = p.subscriptions[name].outstanding;
        let after = acknowledge_step(v, project_id, subscription, ids).0.project(
            project_id,
        ).subscriptions[name].outstanding;
        assert forall|id: Seq<char>| #[trigger] after.contains_key(id) implies after[id]
            == before[id] by {
            acknowledged_is_gone(before, ids, id);
        }
        assert forall|id: Seq<char>| #[trigger] after.contains_key(id) <==> before.contains_key(id)
            && !ids.contains(id) by {
            acknowledged_is_gone(before, ids, id);
        }
    }
}

/// An action names the subscription in front of it.
pub proof fn action_names_its_subscription(action: Seq<char>, subscription: Seq<char>)
    ensures
        subscription_action_of(subscription + ":pull"@) == Some(
            (subscription, SubscriptionAction::Pull),
        ),
        subscription_action_of(subscription + ":acknowledge"@) == Some(
            (subscription, SubscriptionAction::Acknowledge),
        ),
        subscription_action_of(action) is None <==> !":pull"@.is_suffix_of(action)
            && !":acknowledge"@.is_suffix_of(action),
{
    reveal_strlit(":pull");
    reveal_strlit(":acknowledge");
    let pull = subscription + ":pull"@;
    assert(pull.subrange(pull.len() - 5, pull.len() as int) =~= ":pull"@);
    assert(pull.take(pull.len() - 5) =~= subscription);
    let ack = subscription + ":acknowledge"@;
    assert(ack.subrange(ack.len() - 12, ack.len() as int) =~= ":acknowledge"@);
    assert(ack.take(ack.len() - 12) =~= subscription);
    assert(ack.last() == 'e' && ":pull"@.last() == 'l');
    if ":pull"@.is_suffix_of(ack) {
        assert(ack.subrange(ack.len() - 5, ack.len() as int).last() == ack.last());
    }
}

/// The project of a topic is the one that its full name starts with.
pub proof fn topic_names_its_project(project_id: Seq<char>, topic: Seq<char>, name: Seq<char>)
    requires
        project_id.len() > 0,
        topic.len() > 0,
        lacks(project_id + "/topics"@, "/topics/"@),
    ensures
        project_of_topic(full_topic(project_id, topic)) == Some(project_id),
        project_of_topic(name) is Some ==> exists|rest: Seq<char>|
            rest.len() > 0 && name == #[trigger] full_topic(project_of_topic(name)->0, rest),
{
    reveal_strlit("projects/");
    reveal_strlit("/topics/");
    reveal_strlit("/topics");
    let full = full_topic(project_id, topic);
    let rest = project_id + "/topics/"@ + topic;
    assert(full.subrange(0, 9) =~= "projects/"@);
    assert(full.skip(9) =~= rest);
    assert("/topics/"@.drop_last() =~= "/topics"@);
    cut_reads_back(project_id, "/topics/"@, topic);
    if project_of_topic(name) is Some {
        let behind = name.skip(9);
        cut_is_at_first(behind, "/topics/"@);
        let (front, left) = cut(behind, "/topics/"@)->0;
        assert(name.subrange(0, 9) == "projects/"@);
        assert(name =~= "projects/"@ + behind);
        assert(project_of_topic(name) == Some(front));
        assert(left.len() > 0);
        assert(name =~= full_topic(front, left));
        assert(name == full_topic(project_of_topic(name)->0, left));
    }
}

/// What is told of topics and subscriptions is what is kept of them, each by its full name.
pub proof fn kept_is_told(v: PubsubView, project_id: Seq<char>, name: Seq<char>)
    ensures
        ({
            let p = v.project(project_id);
            let topic = full_topic(project_id, name);
            let subscription = full_subscription(project_id, name);
            let t = found_topic(v, project_id, name);
            let s = found_subscription(v, project_id, name);
            let topics = told_topics(p);
            let subscriptions = told_subscriptions(p);
            &&& p.topics.contains_key(topic) ==> t == Ok::<_, PubsubError>(
                (topic, p.topics[topic]),
            )
            &&& !p.topics.contains_key(topic) ==> t is Err && t->Err_0
                == PubsubError::TopicNotFound
            &&& p.subscriptions.contains_key(subscription) ==> s is Ok && s->Ok_0.name
                == subscription && s->Ok_0.topic == p.subscriptions[subscription].topic
                && s->Ok_0.ack_deadline_seconds
                == p.subscriptions[subscription].ack_deadline_seconds
            &&& !p.subscriptions.contains_key(subscription) ==> s is Err && s->Err_0
                == PubsubError::SubscriptionNotFound
            &&& topics == listing(p.topics)
            &&& subscriptions.len() == listing(p.subscriptions).len()
            &&& forall|i: int| #![trigger subscriptions[i]]
                0 <= i < subscriptions.len() ==> subscriptions[i].name == listing(
                    p.subscriptions,
                )[i].0 && subscriptions[i].topic == listing(p.subscriptions)[i].1.topic
                    && subscriptions[i].ack_deadline_seconds == listing(
                    p.subscriptions,
                )[i].1.ack_deadline_seconds
        }),
{
}

/// Over gRPC messages go the same way as over HTTP, and a topic that is not there is made for them,
/// without labels.
pub proof fn grpc_publishes_like_http(v: PubsubView, request: GrpcPublishView, now_ms: u64)
    ensures
        ({
            let p = v.project(request.project_id);
            let made = v.with_project(
                request.project_id,
                PubsubProjectView {
                    topics: p.topics.insert(request.topic, Map::empty()),
                    ..p
                },
            );
            let w = grpc_publish_step(v, request, now_ms);
            &&& p.topics.contains_key(request.topic) ==> w.project(request.project_id)
                == publish_step(
                v,
                request.project_id,
                request.topic,
                request.messages,
                now_ms,
            ).0.project(request.project_id)
            &&& !p.topics.contains_key(request.topic) ==> w.project(request.project_id)
                == publish_step(
                made,
                request.project_id,
                request.topic,
                request.messages,
                now_ms,
            ).0.project(request.project_id)
        }),
{
}

/// A project that was forgotten has no topics and no subscriptions, and all others are as they were.
pub proof fn forgotten_project_holds_nothing(v: PubsubView, project_id: Seq<char>, other: Seq<char>)
    ensures
        ({
            let w = without_project(v, project_id);
            let p = w.project(project_id);
            &&& p.topics == Map::<Seq<char>, Map<Seq<char>, Seq<char>>>::empty()
            &&& p.subscriptions == Map::<Seq<char>, SubscriptionView>::empty()
            &&& other != project_id ==> w.project(other) == v.project(other)
        }),
{
}

} // verus!
