//! What holds of topics and subscriptions whatever is asked of them.

use crate::decimal::{decimal, decimal_round_trip};
use crate::pubsub::errors::PubsubError;
use crate::pubsub::grpc::{grpc_publish_step, GrpcPublishView};
use crate::pubsub::state::{
    ack_id, acknowledge_step, create_subscription_step, create_topic_step, delete_subscription_step,
    delete_topic_step, delivered, handed_out, numbered, publish_step, published, pull_count,
    pull_step, pulled, subscription_named, topic_named, with_outstanding, without_acknowledged,
    MessageView, PublishView, PubsubProjectView, PubsubView, SubscriptionView,
};
use vstd::prelude::*;

verus! {

/// No two numbers have the same decimal notation.
proof fn decimals_differ(m: nat, n: nat)
    requires
        decimal(m) == decimal(n),
    ensures
        m == n,
{
    let max = if m < n { n } else { m };
    decimal_round_trip(m, max);
    decimal_round_trip(n, max);
}

/// No two numbers give the same id to acknowledge a message.
pub(crate) proof fn ack_ids_differ(m: nat, n: nat)
    requires
        ack_id(m) == ack_id(n),
    ensures
        m == n,
{
    assert(ack_id(m).skip("ack-"@.len() as int) =~= decimal(m));
    assert(ack_id(n).skip("ack-"@.len() as int) =~= decimal(n));
    decimals_differ(m, n);
}

/// The messages of a request get ids that differ from each other and from all ids that the
/// project has given out before.
pub proof fn message_ids_are_new(inputs: Seq<PublishView>, last_id: u64, now_ms: u64)
    requires
        last_id + inputs.len() <= u64::MAX,
    ensures
        forall|i: int, j: int|
            0 <= i < j < inputs.len() ==> (#[trigger] numbered(inputs, last_id, now_ms)[i]).message_id
                != (#[trigger] numbered(inputs, last_id, now_ms)[j]).message_id,
        forall|i: int, n: nat|
            0 <= i < inputs.len() && n <= last_id ==> (#[trigger] numbered(
                inputs,
                last_id,
                now_ms,
            )[i]).message_id != #[trigger] decimal(n),
{
    let messages = numbered(inputs, last_id, now_ms);
    assert forall|i: int, j: int| 0 <= i < j < inputs.len() implies (
    #[trigger] messages[i]).message_id != (#[trigger] messages[j]).message_id by {
        if messages[i].message_id == messages[j].message_id {
            decimals_differ((last_id + 1 + i) as nat, (last_id + 1 + j) as nat);
        }
    }
    assert forall|i: int, n: nat| 0 <= i < inputs.len() && n <= last_id implies (
    #[trigger] messages[i]).message_id != #[trigger] decimal(n) by {
        if messages[i].message_id == decimal(n) {
            decimals_differ((last_id + 1 + i) as nat, n);
        }
    }
}

/// A message that is published reaches every subscription to its topic once, behind the messages
/// that wait there, and no other subscription.
pub proof fn publish_reaches_subscribers(
    p: PubsubProjectView,
    topic: Seq<char>,
    inputs: Seq<PublishView>,
    now_ms: u64,
    name: Seq<char>,
)
    requires
        p.subscriptions.contains_key(name),
    ensures
        ({
            let q = published(p, topic, inputs, now_ms);
            let before = p.subscriptions[name];
            let after = q.subscriptions[name];
            &&& q.subscriptions.contains_key(name)
            &&& after.outstanding == before.outstanding
            &&& before.topic == topic ==> after.pending == before.pending + numbered(
                inputs,
                p.next_message_id,
                now_ms,
            )
            &&& before.topic != topic ==> after == before
        }),
{
}

/// A pull hands out the messages in the order in which they were published, and leaves the rest
/// waiting in that order.
pub proof fn pull_keeps_order(s: SubscriptionView, last_ack: u64, max_messages: Option<usize>)
    ensures
        ({
            let count = pull_count(max_messages, s.pending.len());
            let received = handed_out(s.pending, last_ack, count);
            &&& received.map_values(|r: (Seq<char>, MessageView)| r.1) + pulled(
                s,
                last_ack,
                count,
            ).pending == s.pending
            &&& s.pending.len() > 0 ==> received.len() > 0
        }),
{
    let count = pull_count(max_messages, s.pending.len());
    let received = handed_out(s.pending, last_ack, count);
    assert(received.map_values(|r: (Seq<char>, MessageView)| r.1) + pulled(
        s,
        last_ack,
        count,
    ).pending =~= s.pending);
}

proof fn outstanding_holds(
    outstanding: Map<Seq<char>, MessageView>,
    more: Seq<(Seq<char>, MessageView)>,
    i: int,
)
    requires
        0 <= i < more.len(),
        forall|a: int, b: int|
            0 <= a < b < more.len() ==> (#[trigger] more[a]).0 != (#[trigger] more[b]).0,
    ensures
        with_outstanding(outstanding, more).contains_key(more[i].0),
        with_outstanding(outstanding, more)[more[i].0] == more[i].1,
    decreases more.len(),
{
    if i < more.len() - 1 {
        let head = more.drop_last();
        assert forall|a: int, b: int| 0 <= a < b < head.len() implies (#[trigger] head[a]).0 != (
        #[trigger] head[b]).0 by {
            assert(head[a] == more[a] && head[b] == more[b]);
        }
        outstanding_holds(outstanding, head, i);
        assert(head[i] == more[i]);
        assert(more[i].0 != more[more.len() - 1].0);
    }
}

/// A message that was pulled waits under its id to be acknowledged.
pub proof fn pulled_waits_for_acknowledgement(
    s: SubscriptionView,
    last_ack: u64,
    count: nat,
    i: int,
)
    requires
        count <= s.pending.len(),
        0 <= i < count,
    ensures
        ({
            let after = pulled(s, last_ack, count);
            let received = handed_out(s.pending, last_ack, count)[i];
            &&& after.outstanding.contains_key(received.0)
            &&& after.outstanding[received.0] == s.pending[i]
        }),
{
    let more = handed_out(s.pending, last_ack, count);
    assert forall|a: int, b: int| 0 <= a < b < more.len() implies (#[trigger] more[a]).0 != (
    #[trigger] more[b]).0 by {
        if more[a].0 == more[b].0 {
            ack_ids_differ((last_ack + 1 + a) as nat, (last_ack + 1 + b) as nat);
        }
    }
    outstanding_holds(s.outstanding, more, i);
}

/// A message that was acknowledged is gone, and the others stay.
pub proof fn acknowledged_is_gone(
    outstanding: Map<Seq<char>, MessageView>,
    ids: Seq<Seq<char>>,
    id: Seq<char>,
)
    ensures
        ids.contains(id) ==> !without_acknowledged(outstanding, ids).contains_key(id),
        !ids.contains(id) ==> without_acknowledged(outstanding, ids).contains_key(id)
            == outstanding.contains_key(id),
        !ids.contains(id) && outstanding.contains_key(id) ==> without_acknowledged(
            outstanding,
            ids,
        )[id] == outstanding[id],
    decreases ids.len(),
{
    if ids.len() > 0 {
        let head = ids.drop_last();
        acknowledged_is_gone(outstanding, head, id);
        assert(ids =~= head.push(ids.last()));
        if head.contains(id) {
            let i = choose|i: int| 0 <= i < head.len() && head[i] == id;
            assert(ids[i] == id);
        }
        if ids.contains(id) && ids.last() != id {
            let i = choose|i: int| 0 <= i < ids.len() && ids[i] == id;
            assert(head[i] == id);
        }
        if ids.last() == id {
            assert(ids[ids.len() - 1] == id);
        }
    }
}

/// The deletion of a topic leaves no subscription to it, and leaves all others as they were.
pub proof fn topic_goes_with_its_subscriptions(
    v: PubsubView,
    project_id: Seq<char>,
    topic: Seq<char>,
    name: Seq<char>,
)
    requires
        v.project(project_id).topics.contains_key(topic_named(project_id, topic)),
    ensures
        ({
            let p = v.project(project_id);
            let q = delete_topic_step(v, project_id, topic).0.project(project_id);
            let full = topic_named(project_id, topic);
            &&& !q.topics.contains_key(full)
            &&& q.subscriptions.contains_key(name) ==> q.subscriptions[name].topic != full
            &&& p.subscriptions.contains_key(name) && p.subscriptions[name].topic != full
                ==> q.subscriptions.contains_key(name) && q.subscriptions[name]
                == p.subscriptions[name]
        }),
{
}

/// A message goes from its publication to a subscriber for whom nothing else waits, as it was
/// published, and is gone once it was acknowledged: the next pull gives nothing.
pub proof fn message_goes_through(
    v: PubsubView,
    project_id: Seq<char>,
    topic: Seq<char>,
    subscription: Seq<char>,
    input: PublishView,
    now_ms: u64,
    max_messages: Option<usize>,
)
    requires
        v.project(project_id).topics.contains_key(topic),
        v.project(project_id).subscriptions.contains_key(
            subscription_named(project_id, subscription),
        ),
        v.project(project_id).subscriptions[subscription_named(project_id, subscription)].topic
            == topic,
        v.project(project_id).subscriptions[subscription_named(
            project_id,
            subscription,
        )].pending.len() == 0,
    ensures
        ({
            let (w, sent) = publish_step(v, project_id, topic, seq![input], now_ms);
            let (x, got) = pull_step(w, project_id, subscription, max_messages);
            let ack = ack_id((v.project(project_id).next_ack_id + 1) as nat);
            let (y, done) = acknowledge_step(x, project_id, subscription, seq![ack]);
            let after = y.project(project_id).subscriptions[subscription_named(
                project_id,
                subscription,
            )];
            &&& sent is Ok
            &&& sent->Ok_0.len() == 1
            &&& sent->Ok_0[0].data == input.data
            &&& sent->Ok_0[0].attributes == input.attributes
            &&& sent->Ok_0[0].ordering_key == input.ordering_key
            &&& got == Ok::<_, PubsubError>(seq![(ack, sent->Ok_0[0])])
            &&& done is Ok
            &&& !after.outstanding.contains_key(ack)
            &&& pull_step(y, project_id, subscription, max_messages).1 == Ok::<_, PubsubError>(
                Seq::<(Seq<char>, MessageView)>::empty(),
            )
        }),
{
    let name = subscription_named(project_id, subscription);
    let p = v.project(project_id);
    let ack = ack_id((p.next_ack_id + 1) as nat);
    let (w, sent) = publish_step(v, project_id, topic, seq![input], now_ms);
    let waiting = w.project(project_id).subscriptions[name];
    assert(waiting == delivered(p.subscriptions[name], topic, sent->Ok_0));
    assert(waiting.pending =~= seq![sent->Ok_0[0]]);
    let (x, got) = pull_step(w, project_id, subscription, max_messages);
    assert(got->Ok_0 =~= seq![(ack, sent->Ok_0[0])]);
    let (y, done) = acknowledge_step(x, project_id, subscription, seq![ack]);
    assert(seq![ack].drop_last() =~= Seq::<Seq<char>>::empty());
    assert(pull_step(y, project_id, subscription, max_messages).1->Ok_0 =~= Seq::<
        (Seq<char>, MessageView),
    >::empty());
}

/// Whether two states are the same but for one project.
pub open spec fn same_but(v: PubsubView, w: PubsubView, project_id: Seq<char>) -> bool {
    forall|id: Seq<char>|
        id != project_id ==> (#[trigger] w.projects.contains_key(id) == v.projects.contains_key(
            id,
        )) && (v.projects.contains_key(id) ==> w.projects[id] == v.projects[id])
}

/// A request changes at most the project that it names.
pub proof fn requests_stay_in_project(
    v: PubsubView,
    project_id: Seq<char>,
    name: Seq<char>,
    topic: Seq<char>,
    labels: Map<Seq<char>, Seq<char>>,
    inputs: Seq<PublishView>,
    now_ms: u64,
    deadline: Option<i32>,
    max_messages: Option<usize>,
    ids: Seq<Seq<char>>,
)
    ensures
        same_but(v, create_topic_step(v, project_id, topic, labels), project_id),
        same_but(v, delete_topic_step(v, project_id, topic).0, project_id),
        same_but(v, publish_step(v, project_id, topic, inputs, now_ms).0, project_id),
        same_but(
            v,
            create_subscription_step(v, project_id, name, topic, deadline).0,
            project_id,
        ),
        same_but(v, delete_subscription_step(v, project_id, name).0, project_id),
        same_but(v, pull_step(v, project_id, name, max_messages).0, project_id),
        same_but(v, acknowledge_step(v, project_id, name, ids).0, project_id),
        same_but(
            v,
            grpc_publish_step(v, GrpcPublishView { project_id, topic, messages: inputs }, now_ms),
            project_id,
        ),
{
}

/// A topic that nobody made can be published on over gRPC, which makes it; over HTTP that is
/// refused.
pub proof fn grpc_makes_topic(v: PubsubView, request: GrpcPublishView, now_ms: u64)
    requires
        !v.project(request.project_id).topics.contains_key(request.topic),
    ensures
        grpc_publish_step(v, request, now_ms).project(request.project_id).topics.contains_key(
            request.topic,
        ),
        publish_step(v, request.project_id, request.topic, request.messages, now_ms) == (
            v,
            Err::<Seq<MessageView>, PubsubError>(PubsubError::TopicNotFound),
        ),
{
}

} // verus!
