//! Which functions an event goes to, and in which form.

use crate::functions::descriptors::{ActiveWorker, FunctionDescriptor, TriggerKind};
use crate::json::{object_view, Fields, Json, JsonView};
use crate::text::{cut, join2, same_text, split_once};
use crate::text_map::TextMap;
use vstd::prelude::*;

verus! {

/// The forms in which functions take events.
#[derive(Clone, Copy, PartialEq, Eq, Structural, Debug)]
pub enum EventForm {
    /// The data and its context apart.
    First,
    /// One event that holds both.
    Present,
}

/// What an event is matched by.
#[derive(Debug)]
pub struct EventKey {
    /// The project whose functions take the event, where it is kept to one.
    pub project_id: Option<String>,
    /// The type of the event in its present form.
    pub event_type: String,
    /// The type of the event in its first form.
    pub first_type: String,
    /// What filters match.
    pub attributes: TextMap<String>,
    /// The full name of what the event is of.
    pub resource: String,
}

/// What an event is matched by.
#[verifier::ext_equal]
pub struct EventKeyView {
    pub project_id: Option<Seq<char>>,
    pub event_type: Seq<char>,
    pub first_type: Seq<char>,
    pub attributes: Map<Seq<char>, Seq<char>>,
    pub resource: Seq<char>,
}

impl DeepView for EventKey {
    type V = EventKeyView;

    open spec fn deep_view(&self) -> EventKeyView {
        EventKeyView {
            project_id: self.project_id.deep_view(),
            event_type: self.event_type@,
            first_type: self.first_type@,
            attributes: self.attributes.deep_view(),
            resource: self.resource@,
        }
    }
}

/// Whether one filter matches.
pub open spec fn one_filter_matches(
    filter: (Seq<char>, JsonView),
    attributes: Map<Seq<char>, Seq<char>>,
) -> bool {
    attributes.contains_key(filter.0) && filter.1 == JsonView::Text(attributes[filter.0])
}

/// Whether all filters match.
pub open spec fn filters_match(filters: Fields, attributes: Map<Seq<char>, Seq<char>>) -> bool {
    forall|i: int| 0 <= i < filters.len() ==> one_filter_matches(#[trigger] filters[i], attributes)
}

/// The form in which a function takes an event, if it takes it: a function for the present form
/// by its filters, and one for the first form by the resource that it names.
pub open spec fn form_taken(trigger: TriggerKind, key: EventKeyView) -> Option<EventForm> {
    match trigger {
        TriggerKind::Event { event_type, resource } => {
            let wanted = event_type.deep_view();
            if wanted == Some(key.event_type) {
                match resource.deep_view() {
                    None => Some(EventForm::Present),
                    Some(JsonView::Object(filters)) => if filters_match(filters, key.attributes) {
                        Some(EventForm::Present)
                    } else {
                        None
                    },
                    Some(_) => None,
                }
            } else if wanted == Some(key.first_type) && resource.deep_view() == Some(
                JsonView::Text(key.resource),
            ) {
                Some(EventForm::First)
            } else {
                None
            }
        },
        _ => None,
    }
}

fn check_filters(filters: &Vec<(String, Json)>, attributes: &TextMap<String>) -> (r: bool)
    ensures
        r == filters_match(filters.deep_view(), attributes.deep_view()),
{
    let ghost all = filters.deep_view();
    let mut i: usize = 0;
    while i < filters.len()
        invariant
            i <= filters@.len(),
            all == filters.deep_view(),
            forall|j: int|
                0 <= j < i ==> one_filter_matches(#[trigger] all[j], attributes.deep_view()),
        decreases filters@.len() - i,
    {
        assert(all[i as int] == (filters@[i as int].0@, filters@[i as int].1.deep_view()));
        let matches = match (filters[i].1.as_str(), attributes.get(filters[i].0.as_str())) {
            (Some(wanted), Some(given)) => same_text(wanted, given.as_str()),
            _ => false,
        };
        if !matches {
            assert(!one_filter_matches(all[i as int], attributes.deep_view()));
            return false;
        }
        i += 1;
    }
    true
}

/// The form in which a function takes an event, if it takes it.
pub fn event_form(trigger: &TriggerKind, key: &EventKey) -> (r: Option<EventForm>)
    ensures
        r == form_taken(*trigger, key.deep_view()),
{
    match trigger {
        TriggerKind::Event { event_type, resource } => {
            let wanted: &str = match event_type {
                Some(wanted) => wanted.as_str(),
                None => {
                    return None;
                },
            };
            if same_text(wanted, key.event_type.as_str()) {
                match resource {
                    None => Some(EventForm::Present),
                    Some(Json::Object(filters)) => {
                        proof {
                            object_view(*filters);
                        }
                        if check_filters(filters, &key.attributes) {
                            Some(EventForm::Present)
                        } else {
                            None
                        }
                    },
                    Some(_) => None,
                }
            } else if same_text(wanted, key.first_type.as_str()) {
                match resource {
                    Some(named) => match named.as_str() {
                        Some(name) => {
                            if same_text(name, key.resource.as_str()) {
                                Some(EventForm::First)
                            } else {
                                None
                            }
                        },
                        None => None,
                    },
                    None => None,
                }
            } else {
                None
            }
        },
        _ => None,
    }
}

/// The functions that take an event, each with the form in which it does.
pub open spec fn recipients_among(functions: Seq<FunctionDescriptor>, key: EventKeyView) -> Seq<
    (Seq<char>, EventForm),
>
    decreases functions.len(),
{
    if functions.len() == 0 {
        Seq::empty()
    } else {
        let before = recipients_among(functions.drop_last(), key);
        match form_taken(functions.last().trigger, key) {
            Some(form) => before.push((functions.last().entry_id@, form)),
            None => before,
        }
    }
}

/// The functions of a project that take an event: none where the event is kept to another project
/// or no worker is running.
pub open spec fn recipients(
    project_id: Seq<char>,
    active: Option<ActiveWorker>,
    key: EventKeyView,
) -> Seq<(Seq<char>, EventForm)> {
    if active is Some && (key.project_id is None || key.project_id == Some(project_id)) {
        recipients_among(active->0.functions@, key)
    } else {
        Seq::empty()
    }
}

/// A function that takes an event, and the form in which it does.
#[derive(Debug)]
pub struct Recipient {
    pub entry_id: String,
    pub form: EventForm,
}

impl DeepView for Recipient {
    type V = (Seq<char>, EventForm);

    open spec fn deep_view(&self) -> (Seq<char>, EventForm) {
        (self.entry_id@, self.form)
    }
}

/// The functions of a project that take an event, in their order.
pub fn find_recipients(project_id: &str, active: &Option<ActiveWorker>, key: &EventKey) -> (r: Vec<
    Recipient,
>)
    ensures
        r.deep_view() == recipients(project_id@, *active, key.deep_view()),
{
    let mut r: Vec<Recipient> = Vec::new();
    assert(r.deep_view() =~= Seq::empty());
    if let Some(only) = &key.project_id {
        if !same_text(project_id, only.as_str()) {
            return r;
        }
    }
    if let Some(worker) = active {
        let ghost all = worker.functions@;
        let mut i: usize = 0;
        assert(all.take(0) =~= Seq::empty());
        while i < worker.functions.len()
            invariant
                i <= worker.functions@.len(),
                all == worker.functions@,
                r.deep_view() == recipients_among(all.take(i as int), key.deep_view()),
            decreases worker.functions@.len() - i,
        {
            let ghost before = r.deep_view();
            assert(all.take(i + 1).drop_last() =~= all.take(i as int));
            assert(all.take(i + 1).last() == all[i as int]);
            if let Some(form) = event_form(&worker.functions[i].trigger, key) {
                let recipient = Recipient { entry_id: worker.functions[i].entry_id.clone(), form };
                let ghost shown = recipient.deep_view();
                r.push(recipient);
                assert(r.deep_view() =~= before.push(shown));
            }
            i += 1;
        }
        assert(all.take(i as int) =~= all);
    }
    r
}

/// The id of a topic in its full name: what stands behind the word for topics.
pub open spec fn topic_id(topic: Seq<char>) -> Seq<char> {
    match cut(topic, "/topics/"@) {
        Some((_, id)) => id,
        None => topic,
    }
}

/// By what functions take the event of a message published on a topic.
pub open spec fn message_key(project_id: Seq<char>, topic: Seq<char>) -> EventKeyView {
    EventKeyView {
        project_id: Some(project_id),
        event_type: "google.cloud.pubsub.topic.v1.messagePublished"@,
        first_type: "google.pubsub.topic.publish"@,
        attributes: Map::<Seq<char>, Seq<char>>::empty().insert("topic"@, topic_id(topic)),
        resource: topic,
    }
}

/// By what functions take the event of an object stored in a bucket.
pub open spec fn object_key(bucket: Seq<char>) -> EventKeyView {
    EventKeyView {
        project_id: None,
        event_type: "google.cloud.storage.object.v1.finalized"@,
        first_type: "google.storage.object.finalize"@,
        attributes: Map::<Seq<char>, Seq<char>>::empty().insert("bucket"@, bucket),
        resource: "projects/_/buckets/"@ + bucket,
    }
}

/// What the event of a message on a topic is matched by.
pub fn message_event_key(project_id: &str, topic: &str) -> (r: EventKey)
    ensures
        r.deep_view() == message_key(project_id@, topic@),
{
    let id: &str = match split_once(topic, "/topics/") {
        Some((_, id)) => id,
        None => topic,
    };
    let mut attributes: TextMap<String> = TextMap::new();
    attributes.insert("topic".to_owned(), id.to_owned());
    EventKey {
        project_id: Some(project_id.to_owned()),
        event_type: "google.cloud.pubsub.topic.v1.messagePublished".to_owned(),
        first_type: "google.pubsub.topic.publish".to_owned(),
        attributes,
        resource: topic.to_owned(),
    }
}

/// What the event of a stored object is matched by: its bucket, whatever project that counts to.
pub fn object_event_key(bucket: &str) -> (r: EventKey)
    ensures
        r.deep_view() == object_key(bucket@),
{
    let mut attributes: TextMap<String> = TextMap::new();
    attributes.insert("bucket".to_owned(), bucket.to_owned());
    EventKey {
        project_id: None,
        event_type: "google.cloud.storage.object.v1.finalized".to_owned(),
        first_type: "google.storage.object.finalize".to_owned(),
        attributes,
        resource: join2("projects/_/buckets/", bucket),
    }
}

/// An event that is kept to one project goes to no function of another.
pub proof fn events_stay_in_project(
    project_id: Seq<char>,
    active: Option<ActiveWorker>,
    key: EventKeyView,
)
    requires
        key.project_id is Some,
        key.project_id != Some(project_id),
    ensures
        recipients(project_id, active, key).len() == 0,
{
}

} // verus!
