//! The way of messages from their publication to a subscriber.

use crate::decimal::decimal;
use crate::pubsub::grpc::{grpc_publish_step, with_topic, GrpcPublishView};
use crate::pubsub::laws::{ack_ids_differ, acknowledged_is_gone, message_ids_are_new};
use crate::pubsub::state::{
    acknowledge_step, create_subscription_step, create_topic_step, delete_subscription_step,
    delete_topic_step, delivered, ids_left, numbered, publish_step, published, pull_count,
    pull_step, subscription_named, MessageView, PublishView, PubsubProjectView, PubsubView,
};
use vstd::prelude::*;

verus! {

/// The ids to acknowledge messages.
pub open spec fn ack_ids(received: Seq<(Seq<char>, MessageView)>) -> Seq<Seq<char>> {
    received.map_values(|r: (Seq<char>, MessageView)| r.0)
}

/// Messages that are published on a topic get an id each, no two the same, and nothing else of
/// them changes. A subscriber for whom nothing else waited pulls them as they were published, in
/// their order and as many as were asked for, each with an id of its own to acknowledge it. Once
/// these were acknowledged they are gone, and the rest waits for the next pull.
pub proof fn messages_go_through(
    v: PubsubView,
    project_id: Seq<char>,
    topic: Seq<char>,
    subscription: Seq<char>,
    inputs: Seq<PublishView>,
    now_ms: u64,
    max_messages: Option<usize>,
)
    requires
        ids_left(v, project_id, inputs.len()),
        v.project(project_id).topics.contains_key(topic),
        v.project(project_id).subscriptions.contains_key(
            subscription_named(project_id, subscription),
        ),
        v.project(project_id).subscriptions[subscription_named(project_id, subscription)].topic
            == topic,
        v.project(project_id).subscriptions[subscription_named(
            project_id,
            subscription,
        )].pending.len() == 0,
    ensures
        ({
            let name = subscription_named(project_id, subscription);
            let (w, sent) = publish_step(v, project_id, topic, inputs, now_ms);
            let (x, got) = pull_step(w, project_id, subscription, max_messages);
            let acks = ack_ids(got->Ok_0);
            let (y, done) = acknowledge_step(x, project_id, subscription, acks);
            let after = y.project(project_id).subscriptions[name];
            let count = pull_count(max_messages, inputs.len());
            &&& sent is Ok
            &&& sent->Ok_0.len() == inputs.len()
            &&& forall|i: int| #![trigger sent->Ok_0[i]]
                0 <= i < inputs.len() ==> sent->Ok_0[i].data == inputs[i].data
                    && sent->Ok_0[i].attributes == inputs[i].attributes
                    && sent->Ok_0[i].ordering_key == inputs[i].ordering_key
            &&& forall|i: int, j: int|
                0 <= i < j < inputs.len() ==> (#[trigger] sent->Ok_0[i]).message_id != (
                #[trigger] sent->Ok_0[j]).message_id
            &&& got is Ok
            &&& got->Ok_0.len() == count
            &&& forall|i: int|
                0 <= i < count ==> (#[trigger] got->Ok_0[i]).1 == sent->Ok_0[i]
            &&& forall|i: int, j: int|
                0 <= i < j < count ==> (#[trigger] got->Ok_0[i]).0 != (#[trigger] got->Ok_0[j]).0
            &&& done is Ok
            &&& after.pending == sent->Ok_0.skip(count as int)
            &&& forall|i: int|
                0 <= i < count ==> !after.outstanding.contains_key((#[trigger] got->Ok_0[i]).0)
        }),
{
    let name = subscription_named(project_id, subscription);
    let p = v.project(project_id);
    let (w, sent) = publish_step(v, project_id, topic, inputs, now_ms);
    message_ids_are_new(inputs, p.next_message_id, now_ms);
    let waiting = w.project(project_id).subscriptions[name];
    assert(waiting == delivered(p.subscriptions[name], topic, sent->Ok_0));
    assert(waiting.pending =~= sent->Ok_0);
    let (x, got) = pull_step(w, project_id, subscription, max_messages);
    let received = got->Ok_0;
    assert forall|i: int, j: int| 0 <= i < j < received.len() implies (#[trigger] received[i]).0
        != (#[trigger] received[j]).0 by {
        if received[i].0 == received[j].0 {
            ack_ids_differ((p.next_ack_id + 1 + i) as nat, (p.next_ack_id + 1 + j) as nat);
        }
    }
    let acks = ack_ids(received);
    let held = x.project(project_id).subscriptions[name].outstanding;
    let (y, done) = acknowledge_step(x, project_id, subscription, acks);
    let after = y.project(project_id).subscriptions[name];
    assert forall|i: int| 0 <= i < received.len() implies !after.outstanding.contains_key(
        (#[trigger] received[i]).0,
    ) by {
        assert(acks[i] == received[i].0);
        acknowledged_is_gone(held, acks, received[i].0);
    }
}

/// A request that changes topics, subscriptions or messages, none of which forgets a project.
pub enum PubsubStep {
    CreateTopic {
        project_id: Seq<char>,
        topic: Seq<char>,
        labels: Map<Seq<char>, Seq<char>>,
    },
    DeleteTopic { project_id: Seq<char>, topic: Seq<char> },
    Publish { project_id: Seq<char>, topic: Seq<char>, inputs: Seq<PublishView>, now_ms: u64 },
    GrpcPublish { request: GrpcPublishView, now_ms: u64 },
    CreateSubscription {
        project_id: Seq<char>,
        subscription: Seq<char>,
        topic: Seq<char>,
        deadline: Option<i32>,
    },
    DeleteSubscription { project_id: Seq<char>, subscription: Seq<char> },
    Pull { project_id: Seq<char>, subscription: Seq<char>, max_messages: Option<usize> },
    Acknowledge { project_id: Seq<char>, subscription: Seq<char>, ids: Seq<Seq<char>> },
}

/// Whether there are ids left for the messages of a request.
pub open spec fn can_be_numbered(v: PubsubView, step: PubsubStep) -> bool {
    match step {
        PubsubStep::Publish { project_id, inputs, .. } => ids_left(v, project_id, inputs.len()),
        PubsubStep::GrpcPublish { request, .. } => ids_left(
            v,
            request.project_id,
            request.messages.len(),
        ),
        _ => true,
    }
}

/// The state after a request.
pub open spec fn after_request(v: PubsubView, step: PubsubStep) -> PubsubView {
    match step {
        PubsubStep::CreateTopic { project_id, topic, labels } => create_topic_step(
            v,
            project_id,
            topic,
            labels,
        ),
        PubsubStep::DeleteTopic { project_id, topic } => delete_topic_step(
            v,
            project_id,
            topic,
        ).0,
        PubsubStep::Publish { project_id, topic, inputs, now_ms } => publish_step(
            v,
            project_id,
            topic,
            inputs,
            now_ms,
        ).0,
        PubsubStep::GrpcPublish { request, now_ms } => grpc_publish_step(v, request, now_ms),
        PubsubStep::CreateSubscription { project_id, subscription, topic, deadline } =>
            create_subscription_step(v, project_id, subscription, topic, deadline).0,
        PubsubStep::DeleteSubscription { project_id, subscription } => delete_subscription_step(
            v,
            project_id,
            subscription,
        ).0,
        PubsubStep::Pull { project_id, subscription, max_messages } => pull_step(
            v,
            project_id,
            subscription,
            max_messages,
        ).0,
        PubsubStep::Acknowledge { project_id, subscription, ids } => acknowledge_step(
            v,
            project_id,
            subscription,
            ids,
        ).0,
    }
}

/// The state after several requests.
pub open spec fn after_requests(v: PubsubView, steps: Seq<PubsubStep>) -> PubsubView
    decreases steps.len(),
{
    if steps.len() == 0 {
        v
    } else {
        after_request(after_requests(v, steps.drop_last()), steps.last())
    }
}

/// Whether there are ids left for the messages of all of several requests.
pub open spec fn all_can_be_numbered(v: PubsubView, steps: Seq<PubsubStep>) -> bool
    decreases steps.len(),
{
    steps.len() > 0 ==> all_can_be_numbered(v, steps.drop_last()) && can_be_numbered(
        after_requests(v, steps.drop_last()),
        steps.last(),
    )
}

/// Whether the message of number `n` was published in the project and does not wait in the
/// subscription.
pub open spec fn not_waiting(v: PubsubView, project_id: Seq<char>, name: Seq<char>, n: nat) -> bool {
    let p = v.project(project_id);
    &&& n <= p.next_message_id
    &&& p.subscriptions.contains_key(name) ==> forall|i: int|
        0 <= i < p.subscriptions[name].pending.len() ==> (
        #[trigger] p.subscriptions[name].pending[i]).message_id != decimal(n)
}

proof fn request_keeps_not_waiting(
    v: PubsubView,
    step: PubsubStep,
    project_id: Seq<char>,
    name: Seq<char>,
    n: nat,
)
    requires
        can_be_numbered(v, step),
        not_waiting(v, project_id, name, n),
    ensures
        not_waiting(after_request(v, step), project_id, name, n),
{
    let p = v.project(project_id);
    match step {
        PubsubStep::Publish { inputs, now_ms, .. } => {
            if ids_left(v, project_id, inputs.len()) {
                message_ids_are_new(inputs, p.next_message_id, now_ms);
            }
        },
        PubsubStep::GrpcPublish { request, now_ms } => {
            if ids_left(v, project_id, request.messages.len()) {
                message_ids_are_new(request.messages, p.next_message_id, now_ms);
            }
        },
        _ => {},
    }
}

/// A message that was published and does not wait in a subscription never waits there again,
/// whatever requests come.
pub proof fn never_waits_again(
    v: PubsubView,
    steps: Seq<PubsubStep>,
    project_id: Seq<char>,
    name: Seq<char>,
    n: nat,
)
    requires
        all_can_be_numbered(v, steps),
        not_waiting(v, project_id, name, n),
    ensures
        not_waiting(after_requests(v, steps), project_id, name, n),
    decreases steps.len(),
{
    if steps.len() > 0 {
        never_waits_again(v, steps.drop_last(), project_id, name, n);
        request_keeps_not_waiting(
            after_requests(v, steps.drop_last()),
            steps.last(),
            project_id,
            name,
            n,
        );
    }
}

/// Whether an id is that of a message up to number `last`.
pub open spec fn given_id(id: Seq<char>, last: u64) -> bool {
    exists|k: nat| k <= last && #[trigger] decimal(k) == id
}

/// Whether messages that wait have ids up to number `last`, no two the same.
pub open spec fn each_once(pending: Seq<MessageView>, last: u64) -> bool {
    &&& forall|i: int|
        0 <= i < pending.len() ==> given_id((#[trigger] pending[i]).message_id, last)
    &&& forall|i: int, j: int|
        0 <= i < j < pending.len() ==> (#[trigger] pending[i]).message_id != (
        #[trigger] pending[j]).message_id
}

/// Whether no message waits twice in a subscription of the project.
pub open spec fn project_waits_once(p: PubsubProjectView) -> bool {
    forall|name: Seq<char>| #[trigger]
        p.subscriptions.contains_key(name) ==> each_once(
            p.subscriptions[name].pending,
            p.next_message_id,
        )
}

/// Whether no message waits twice in a subscription.
pub open spec fn all_wait_once(v: PubsubView) -> bool {
    forall|project_id: Seq<char>| project_waits_once(#[trigger] v.project(project_id))
}

proof fn delivery_waits_once(
    pending: Seq<MessageView>,
    last: u64,
    inputs: Seq<PublishView>,
    now_ms: u64,
)
    requires
        each_once(pending, last),
        last + inputs.len() <= u64::MAX,
    ensures
        each_once(pending, (last + inputs.len()) as u64),
        each_once(pending + numbered(inputs, last, now_ms), (last + inputs.len()) as u64),
{
    let new = numbered(inputs, last, now_ms);
    let all = pending + new;
    let end = (last + inputs.len()) as u64;
    message_ids_are_new(inputs, last, now_ms);
    assert forall|i: int| 0 <= i < pending.len() implies given_id(
        (#[trigger] pending[i]).message_id,
        end,
    ) by {
        let k = choose|k: nat| k <= last && #[trigger] decimal(k) == pending[i].message_id;
        assert(decimal(k) == pending[i].message_id);
    }
    assert forall|i: int| 0 <= i < all.len() implies given_id(
        (#[trigger] all[i]).message_id,
        end,
    ) by {
        if i < pending.len() {
            assert(all[i] == pending[i]);
        } else {
            assert(all[i] == new[i - pending.len()]);
            assert(decimal((last + 1 + i - pending.len()) as nat) == all[i].message_id);
        }
    }
    assert forall|i: int, j: int| 0 <= i < j < all.len() implies (#[trigger] all[i]).message_id
        != (#[trigger] all[j]).message_id by {
        if j < pending.len() {
            assert(all[i] == pending[i] && all[j] == pending[j]);
        } else if i < pending.len() {
            assert(all[i] == pending[i] && all[j] == new[j - pending.len()]);
            let k = choose|k: nat| k <= last && #[trigger] decimal(k) == pending[i].message_id;
            assert(new[j - pending.len()].message_id != decimal(k));
        } else {
            assert(all[i] == new[i - pending.len()] && all[j] == new[j - pending.len()]);
        }
    }
}

proof fn publication_waits_once(
    p: PubsubProjectView,
    topic: Seq<char>,
    inputs: Seq<PublishView>,
    now_ms: u64,
)
    requires
        project_waits_once(p),
        p.next_message_id + inputs.len() <= u64::MAX,
    ensures
        project_waits_once(published(p, topic, inputs, now_ms)),
{
    let q = published(p, topic, inputs, now_ms);
    assert forall|name: Seq<char>| #[trigger] q.subscriptions.contains_key(name) implies each_once(
        q.subscriptions[name].pending,
        q.next_message_id,
    ) by {
        assert(p.subscriptions.contains_key(name));
        delivery_waits_once(p.subscriptions[name].pending, p.next_message_id, inputs, now_ms);
    }
}

proof fn pull_waits_once(pending: Seq<MessageView>, last: u64, count: nat)
    requires
        each_once(pending, last),
        count <= pending.len(),
    ensures
        each_once(pending.skip(count as int), last),
{
    let rest = pending.skip(count as int);
    assert forall|i: int| 0 <= i < rest.len() implies given_id(
        (#[trigger] rest[i]).message_id,
        last,
    ) by {
        assert(rest[i] == pending[i + count]);
    }
    assert forall|i: int, j: int| 0 <= i < j < rest.len() implies (#[trigger] rest[i]).message_id
        != (#[trigger] rest[j]).message_id by {
        assert(rest[i] == pending[i + count] && rest[j] == pending[j + count]);
    }
}

/// Every request keeps it so that no message waits twice in a subscription.
pub proof fn requests_keep_waiting_once(v: PubsubView, step: PubsubStep)
    requires
        can_be_numbered(v, step),
        all_wait_once(v),
    ensures
        all_wait_once(after_request(v, step)),
{
    let w = after_request(v, step);
    assert forall|project_id: Seq<char>| project_waits_once(#[trigger] w.project(project_id)) by {
        let p = v.project(project_id);
        assert(project_waits_once(p));
        match step {
            PubsubStep::Publish { topic, inputs, now_ms, .. } => {
                if ids_left(v, project_id, inputs.len()) {
                    publication_waits_once(p, topic, inputs, now_ms);
                }
            },
            PubsubStep::GrpcPublish { request, now_ms } => {
                if request.project_id == project_id {
                    let made = with_topic(v, project_id, request.topic).project(project_id);
                    assert(made.subscriptions == p.subscriptions);
                    publication_waits_once(made, request.topic, request.messages, now_ms);
                }
            },
            PubsubStep::Pull { subscription, max_messages, .. } => {
                let name = subscription_named(project_id, subscription);
                if p.subscriptions.contains_key(name) {
                    let pending = p.subscriptions[name].pending;
                    pull_waits_once(
                        pending,
                        p.next_message_id,
                        pull_count(max_messages, pending.len()),
                    );
                }
            },
            _ => {},
        }
    }
}

/// In every state that requests lead to from nothing, no message waits twice in a subscription.
pub proof fn reached_waits_once(v: PubsubView, steps: Seq<PubsubStep>)
    requires
        v.projects == Map::<Seq<char>, PubsubProjectView>::empty(),
        all_can_be_numbered(v, steps),
    ensures
        all_wait_once(after_requests(v, steps)),
    decreases steps.len(),
{
    if steps.len() > 0 {
        reached_waits_once(v, steps.drop_last());
        requests_keep_waiting_once(after_requests(v, steps.drop_last()), steps.last());
    }
}

/// A message that was pulled is not pulled from that subscription again, whatever requests come
/// between, acknowledged or not.
pub proof fn pulled_once(
    v: PubsubView,
    project_id: Seq<char>,
    subscription: Seq<char>,
    max_messages: Option<usize>,
    steps: Seq<PubsubStep>,
    again: Option<usize>,
)
    requires
        all_wait_once(v),
        all_can_be_numbered(pull_step(v, project_id, subscription, max_messages).0, steps),
    ensures
        ({
            let (w, first) = pull_step(v, project_id, subscription, max_messages);
            let later = pull_step(
                after_requests(w, steps),
                project_id,
                subscription,
                again,
            ).1;
            first is Ok && later is Ok ==> forall|i: int, j: int|
                0 <= i < first->Ok_0.len() && 0 <= j < later->Ok_0.len() ==> (
                #[trigger] first->Ok_0[i]).1.message_id != (
                #[trigger] later->Ok_0[j]).1.message_id
        }),
{
    let name = subscription_named(project_id, subscription);
    let p = v.project(project_id);
    let (w, first) = pull_step(v, project_id, subscription, max_messages);
    let end = after_requests(w, steps);
    let later = pull_step(end, project_id, subscription, again).1;
    if first is Ok && later is Ok {
        assert(project_waits_once(p));
        let pending = p.subscriptions[name].pending;
        let rest = w.project(project_id).subscriptions[name].pending;
        assert forall|i: int, j: int|
            0 <= i < first->Ok_0.len() && 0 <= j < later->Ok_0.len() implies (
        #[trigger] first->Ok_0[i]).1.message_id != (#[trigger] later->Ok_0[j]).1.message_id by {
            assert(first->Ok_0[i].1 == pending[i]);
            let n = choose|n: nat|
                n <= p.next_message_id && #[trigger] decimal(n) == pending[i].message_id;
            assert forall|k: int| 0 <= k < rest.len() implies (#[trigger] rest[k]).message_id
                != decimal(n) by {
                assert(rest[k] == pending[first->Ok_0.len() + k]);
            }
            assert(not_waiting(w, project_id, name, n));
            never_waits_again(w, steps, project_id, name, n);
            assert(later->Ok_0[j].1 == end.project(project_id).subscriptions[name].pending[j]);
        }
    }
}

} // verus!
