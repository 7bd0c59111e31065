//! Which function a request or an event reaches, and which files count.

use crate::functions::descriptors::{
    any_matches, descriptor_matches, filtered, http_function, proxy_target, serves, ActiveWorker,
    FunctionDescriptor, ProxyError, TriggerKind,
};
use crate::functions::dispatch::{
    filters_match, form_taken, message_key, object_key, one_filter_matches, recipients,
    recipients_among, EventForm, EventKeyView,
};
use crate::functions::routes::{
    filter_matches, is_hop_by_hop, keeps_header, passes, route_of, RouteView,
};
use crate::json::JsonView;
use crate::percent::percent_encoded;
use crate::text::{
    cut_reads_back, first_piece, joined, lacks, one_char_lacks, only_piece, pieces,
    pieces_make_up_text,
};
use crate::trim::{lower_case, without_leading};
use vstd::prelude::*;

verus! {

/// Whether a function takes HTTP requests, be they calls or not, under that region and name.
pub open spec fn takes_requests(
    d: FunctionDescriptor,
    region: Seq<char>,
    name: Seq<char>,
) -> bool {
    (exists|callable: bool| d.trigger == (TriggerKind::Https { callable })) && d.region@ == region
        && d.name@ == name
}

/// A request finds a function exactly where one of that region and name takes HTTP requests, be
/// they calls or not. Of several it is the last.
pub proof fn request_finds_its_function(
    functions: Seq<FunctionDescriptor>,
    region: Seq<char>,
    name: Seq<char>,
)
    ensures
        ({
            let found = http_function(functions, region, name);
            &&& found is Some <==> exists|i: int|
                0 <= i < functions.len() && takes_requests(#[trigger] functions[i], region, name)
            &&& found is Some ==> exists|i: int|
                0 <= i < functions.len() && #[trigger] functions[i] == found->0 && takes_requests(
                    functions[i],
                    region,
                    name,
                ) && forall|j: int|
                    i < j < functions.len() ==> !takes_requests(
                        #[trigger] functions[j],
                        region,
                        name,
                    )
        }),
    decreases functions.len(),
{
    if functions.len() > 0 {
        let last = functions.len() - 1;
        let head = functions.drop_last();
        match functions[last].trigger {
            TriggerKind::Https { callable } => {
                assert(functions[last].trigger == (TriggerKind::Https { callable }));
            },
            _ => {},
        }
        assert(takes_requests(functions[last], region, name) == serves(
            functions[last],
            region,
            name,
        ));
        request_finds_its_function(head, region, name);
        if !serves(functions[last], region, name) {
            if http_function(head, region, name) is Some {
                let i = choose|i: int|
                    0 <= i < head.len() && #[trigger] head[i] == http_function(
                        head,
                        region,
                        name,
                    )->0 && takes_requests(head[i], region, name) && forall|j: int|
                        i < j < head.len() ==> !takes_requests(#[trigger] head[j], region, name);
                assert(functions[i] == head[i]);
                assert forall|j: int| i < j < functions.len() implies !takes_requests(
                    #[trigger] functions[j],
                    region,
                    name,
                ) by {
                    if j < last {
                        assert(functions[j] == head[j]);
                    }
                }
            }
            if exists|i: int|
                0 <= i < functions.len() && takes_requests(#[trigger] functions[i], region, name) {
                let i = choose|i: int|
                    0 <= i < functions.len() && takes_requests(
                        #[trigger] functions[i],
                        region,
                        name,
                    );
                assert(head[i] == functions[i]);
            }
        } else {
            assert(functions[last] == http_function(functions, region, name)->0);
        }
    }
}

proof fn part_of_path(part: Seq<char>)
    requires
        !part.contains('/'),
    ensures
        lacks(part, "/"@),
        lacks(part + "/"@.drop_last(), "/"@),
{
    reveal_strlit("/");
    assert("/"@ =~= seq!['/']);
    one_char_lacks(part, '/');
}

/// The path of a request names its project, its region and its function, and what follows is
/// handed on to the function.
#[verifier::rlimit(50)]
pub proof fn path_names_its_function(
    project_id: Seq<char>,
    region: Seq<char>,
    name: Seq<char>,
    rest: Seq<char>,
)
    requires
        project_id.len() > 0,
        region.len() > 0,
        name.len() > 0,
        !project_id.contains('/'),
        !region.contains('/'),
        !name.contains('/'),
    ensures
        route_of("/"@ + project_id + "/"@ + region + "/"@ + name) == Some(
            RouteView { project_id, region, name, suffix: "/"@ },
        ),
        route_of("/"@ + project_id + "/"@ + region + "/"@ + name + "/"@ + rest) == Some(
            RouteView { project_id, region, name, suffix: "/"@ + rest },
        ),
{
    reveal_strlit("/");
    let slash = "/"@;
    assert(slash =~= seq!['/']);
    part_of_path(project_id);
    part_of_path(region);
    part_of_path(name);
    let short = project_id + slash + (region + slash + name);
    let path = "/"@ + project_id + "/"@ + region + "/"@ + name;
    assert(path.drop_first() =~= short);
    assert(short[0] == project_id[0]);
    assert(project_id.contains(project_id[0]));
    reveal_with_fuel(without_leading, 3);
    assert(without_leading(path, '/') == short);
    first_piece(project_id, slash, region + slash + name);
    first_piece(region, slash, name);
    only_piece(name, slash);
    let parts = pieces(short, slash);
    assert(parts =~= seq![project_id, region, name]);
    assert(parts.skip(3) =~= Seq::<Seq<char>>::empty());
    assert("/"@ + joined(parts.skip(3), "/"@) =~= "/"@);
    let long = project_id + slash + (region + slash + (name + slash + rest));
    let whole = "/"@ + project_id + "/"@ + region + "/"@ + name + "/"@ + rest;
    assert(whole.drop_first() =~= long);
    assert(long[0] == project_id[0]);
    assert(without_leading(whole, '/') == long);
    first_piece(project_id, slash, region + slash + (name + slash + rest));
    first_piece(region, slash, name + slash + rest);
    first_piece(name, slash, rest);
    pieces_make_up_text(rest, slash);
    let all = pieces(long, slash);
    assert(all =~= seq![project_id, region, name] + pieces(rest, slash));
    assert(all.skip(3) =~= pieces(rest, slash));
}

/// A path without three parts that are not empty, behind the slashes it starts with, names no
/// function; the three name the project, the region and the function, however many slashes there
/// are in front.
pub proof fn short_path_names_nothing(path: Seq<char>)
    ensures
        ({
            let parts = pieces(without_leading(path, '/'), "/"@);
            let route = route_of(path)->0;
            &&& route_of(path) is None <==> parts.len() < 3 || parts[0].len() == 0
                || parts[1].len() == 0 || parts[2].len() == 0
            &&& route_of(path) is Some ==> route.project_id == parts[0] && route.region == parts[1]
                && route.name == parts[2] && route.suffix == "/"@ + joined(parts.skip(3), "/"@)
        }),
{
}

/// A request goes to the function that its path names, with what follows in the path and the
/// query; each reason for which it goes nowhere has its own answer.
pub proof fn request_goes_to_its_function(
    project_id: Seq<char>,
    active: Option<ActiveWorker>,
    path: Seq<char>,
    query: Option<Seq<char>>,
    i: int,
)
    ensures
        ({
            let r = proxy_target(project_id, active, path, query);
            let route = route_of(path)->0;
            let functions = active->0.functions@;
            let ours = route_of(path) is Some && route.project_id == project_id;
            &&& route_of(path) is None ==> r == Err::<Seq<char>, _>(ProxyError::UnexpectedPath)
            &&& route_of(path) is Some && route.project_id != project_id ==> r == Err::<
                Seq<char>,
                _,
            >(ProxyError::OtherProject)
            &&& ours && active is None ==> r == Err::<Seq<char>, _>(ProxyError::Loading)
            &&& ours && active is Some && (forall|k: int|
                0 <= k < functions.len() ==> !takes_requests(
                    #[trigger] functions[k],
                    route.region,
                    route.name,
                )) ==> r == Err::<Seq<char>, _>(ProxyError::FunctionNotFound)
            &&& ours && active is Some && 0 <= i < functions.len() && takes_requests(
                functions[i],
                route.region,
                route.name,
            ) && (forall|k: int|
                i < k < functions.len() ==> !takes_requests(
                    #[trigger] functions[k],
                    route.region,
                    route.name,
                )) ==> r == Ok::<_, ProxyError>(
                active->0.base_url@ + "/__firelite__/invoke/"@ + percent_encoded(
                    functions[i].entry_id@,
                ) + route.suffix + (match query {
                    Some(query) => "?"@ + query,
                    None => Seq::empty(),
                }),
            )
        }),
{
    if route_of(path) is Some && active is Some {
        let route = route_of(path)->0;
        let functions = active->0.functions@;
        request_finds_its_function(functions, route.region, route.name);
        if 0 <= i < functions.len() && takes_requests(functions[i], route.region, route.name) && (
        forall|k: int|
            i < k < functions.len() ==> !takes_requests(
                #[trigger] functions[k],
                route.region,
                route.name,
            )) {
            let found = http_function(functions, route.region, route.name);
            let j = choose|j: int|
                0 <= j < functions.len() && #[trigger] functions[j] == found->0 && takes_requests(
                    functions[j],
                    route.region,
                    route.name,
                ) && forall|k: int|
                    j < k < functions.len() ==> !takes_requests(
                        #[trigger] functions[k],
                        route.region,
                        route.name,
                    );
            assert(i == j);
            let url = active->0.base_url@ + "/__firelite__/invoke/"@ + percent_encoded(
                functions[i].entry_id@,
            ) + route.suffix;
            match query {
                Some(q) => {
                    assert(url + "?"@ + q =~= url + ("?"@ + q));
                },
                None => {
                    assert(url + Seq::<char>::empty() =~= url);
                },
            }
        }
    }
}

/// Whether a name is the filter, or starts with it and a dot or a slash.
pub open spec fn under(value: Seq<char>, filter: Seq<char>) -> bool {
    value == filter || (filter + "."@).is_prefix_of(value) || (filter + "/"@).is_prefix_of(value)
}

proof fn under_is_match(value: Seq<char>, filter: Seq<char>)
    ensures
        filter_matches(value, filter) == under(value, filter),
{
    reveal_strlit(".");
    reveal_strlit("/");
    let n = filter.len() as int;
    if filter_matches(value, filter) && value != filter {
        assert(value.subrange(0, n) == filter);
        if value[n] == '.' {
            assert(value.subrange(0, n + 1) =~= filter + "."@);
        } else {
            assert(value.subrange(0, n + 1) =~= filter + "/"@);
        }
    }
    if (filter + "."@).is_prefix_of(value) {
        let head = value.subrange(0, n + 1);
        assert(head == filter + "."@);
        assert(head[n] == '.');
        assert(value.subrange(0, n) =~= head.subrange(0, n));
        assert(head.subrange(0, n) =~= filter);
    }
    if (filter + "/"@).is_prefix_of(value) {
        let head = value.subrange(0, n + 1);
        assert(head == filter + "/"@);
        assert(head[n] == '/');
        assert(value.subrange(0, n) =~= head.subrange(0, n));
        assert(head.subrange(0, n) =~= filter);
    }
}

/// Without filters all names pass; with some, those that are a filter or come under one.
pub proof fn filters_pass_what_comes_under(filters: Seq<Seq<char>>, value: Seq<char>)
    ensures
        passes(filters, value) <==> filters.len() == 0 || exists|i: int|
            0 <= i < filters.len() && under(value, #[trigger] filters[i]),
{
    assert forall|i: int| 0 <= i < filters.len() implies filter_matches(
        value,
        #[trigger] filters[i],
    ) == under(value, filters[i]) by {
        under_is_match(value, filters[i]);
    }
    if passes(filters, value) && filters.len() > 0 {
        let i = choose|i: int|
            0 <= i < filters.len() && filter_matches(value, #[trigger] filters[i]);
        assert(under(value, filters[i]));
    }
    if exists|i: int| 0 <= i < filters.len() && under(value, #[trigger] filters[i]) {
        let i = choose|i: int| 0 <= i < filters.len() && under(value, #[trigger] filters[i]);
        assert(filter_matches(value, filters[i]));
    }
}

/// Without filters a worker has all its functions; with some, those whose entry or name comes
/// under one of them, in their order.
pub proof fn worker_has_what_filters_name(
    descriptors: Seq<FunctionDescriptor>,
    filters: Seq<Seq<char>>,
)
    ensures
        filters.len() == 0 ==> filtered(descriptors, filters) == descriptors,
        filters.len() > 0 ==> filtered(descriptors, filters) == descriptors.filter(
            |d: FunctionDescriptor|
                exists|i: int|
                    0 <= i < filters.len() && (under(d.entry_id@, #[trigger] filters[i]) || under(
                        d.name@,
                        filters[i],
                    )),
        ),
{
    let mine = |d: FunctionDescriptor|
        exists|i: int|
            0 <= i < filters.len() && (under(d.entry_id@, #[trigger] filters[i]) || under(
                d.name@,
                filters[i],
            ));
    let theirs = |d: FunctionDescriptor| any_matches(d, filters);
    assert forall|d: FunctionDescriptor| #[trigger] mine(d) == theirs(d) by {
        if mine(d) {
            let i = choose|i: int|
                0 <= i < filters.len() && (under(d.entry_id@, #[trigger] filters[i]) || under(
                    d.name@,
                    filters[i],
                ));
            under_is_match(d.entry_id@, filters[i]);
            under_is_match(d.name@, filters[i]);
            assert(descriptor_matches(d, filters[i]));
        }
        if theirs(d) {
            let i = choose|i: int|
                0 <= i < filters.len() && descriptor_matches(d, #[trigger] filters[i]);
            under_is_match(d.entry_id@, filters[i]);
            under_is_match(d.name@, filters[i]);
            assert(under(d.entry_id@, filters[i]) || under(d.name@, filters[i]));
        }
    }
    assert(mine =~= theirs);
}

/// Whether a function waits for an event in its present form: it names the event's type, and every
/// filter it gives is an attribute of the event with that value.
pub open spec fn waits_for_present(trigger: TriggerKind, key: EventKeyView) -> bool {
    &&& trigger is Event
    &&& trigger->event_type.deep_view() == Some(key.event_type)
    &&& trigger->resource is None || (trigger->resource->0.deep_view() is Object && forall|i: int|
        0 <= i < trigger->resource->0.deep_view()->Object_0.len() ==> {
            let filter = #[trigger] trigger->resource->0.deep_view()->Object_0[i];
            key.attributes.contains_key(filter.0) && filter.1 == JsonView::Text(
                key.attributes[filter.0],
            )
        })
}

/// Whether a function waits for an event in its first form: it names that form of the event's
/// type, and what the event is of.
pub open spec fn waits_for_first(trigger: TriggerKind, key: EventKeyView) -> bool {
    &&& trigger is Event
    &&& trigger->event_type.deep_view() == Some(key.first_type)
    &&& trigger->resource is Some
    &&& trigger->resource->0.deep_view() == JsonView::Text(key.resource)
}

proof fn form_is_what_it_waits_for(trigger: TriggerKind, key: EventKeyView)
    requires
        key.event_type != key.first_type,
    ensures
        form_taken(trigger, key) == if waits_for_present(trigger, key) {
            Some(EventForm::Present)
        } else if waits_for_first(trigger, key) {
            Some(EventForm::First)
        } else {
            None
        },
{
    match trigger {
        TriggerKind::Event { event_type, resource } => {
            match resource {
                Some(found) => {
                    match found.deep_view() {
                        JsonView::Object(filters) => {
                            assert(trigger->resource->0.deep_view()->Object_0 == filters);
                            if filters_match(filters, key.attributes) {
                                assert forall|i: int| 0 <= i < filters.len() implies ({
                                    let filter = #[trigger] filters[i];
                                    key.attributes.contains_key(filter.0) && filter.1
                                        == JsonView::Text(key.attributes[filter.0])
                                }) by {
                                    assert(one_filter_matches(filters[i], key.attributes));
                                }
                            }
                        },
                        _ => {},
                    }
                },
                None => {},
            }
        },
        _ => {},
    }
}

/// An event reaches every function that waits for it, each once and in the form that it waits for,
/// and no other; those of another project than the event is kept to it does not reach.
pub proof fn event_reaches_those_who_wait(
    project_id: Seq<char>,
    active: Option<ActiveWorker>,
    key: EventKeyView,
)
    requires
        key.event_type != key.first_type,
    ensures
        ({
            let reached = recipients(project_id, active, key);
            let functions = active->0.functions@;
            &&& active is None ==> reached.len() == 0
            &&& key.project_id is Some && key.project_id != Some(project_id) ==> reached.len()
                == 0
            &&& active is Some && (key.project_id is None || key.project_id == Some(project_id))
                ==> reached == functions.filter(
                |d: FunctionDescriptor|
                    waits_for_present(d.trigger, key) || waits_for_first(d.trigger, key),
            ).map_values(
                |d: FunctionDescriptor|
                    (
                        d.entry_id@,
                        if waits_for_present(d.trigger, key) {
                            EventForm::Present
                        } else {
                            EventForm::First
                        },
                    ),
            )
        }),
{
    if active is Some {
        among_are_those_who_wait(active->0.functions@, key);
    }
}

proof fn among_are_those_who_wait(functions: Seq<FunctionDescriptor>, key: EventKeyView)
    requires
        key.event_type != key.first_type,
    ensures
        recipients_among(functions, key) == functions.filter(
            |d: FunctionDescriptor|
                waits_for_present(d.trigger, key) || waits_for_first(d.trigger, key),
        ).map_values(
            |d: FunctionDescriptor|
                (
                    d.entry_id@,
                    if waits_for_present(d.trigger, key) {
                        EventForm::Present
                    } else {
                        EventForm::First
                    },
                ),
        ),
    decreases functions.len(),
{
    reveal(Seq::filter);
    let waits = |d: FunctionDescriptor|
        waits_for_present(d.trigger, key) || waits_for_first(d.trigger, key);
    let sent = |d: FunctionDescriptor|
        (
            d.entry_id@,
            if waits_for_present(d.trigger, key) {
                EventForm::Present
            } else {
                EventForm::First
            },
        );
    if functions.len() > 0 {
        among_are_those_who_wait(functions.drop_last(), key);
        form_is_what_it_waits_for(functions.last().trigger, key);
        let before = functions.drop_last().filter(waits);
        if waits(functions.last()) {
            assert(before.push(functions.last()).map_values(sent) =~= before.map_values(sent).push(
                sent(functions.last()),
            ));
        }
    } else {
        assert(functions.filter(waits).map_values(sent) =~= Seq::empty());
    }
}

/// The headers that stay between two machines, and are not passed on, however they are written.
pub proof fn headers_not_passed_on(name: Seq<char>)
    ensures
        is_hop_by_hop(name) <==> seq![
            "connection"@,
            "content-length"@,
            "keep-alive"@,
            "proxy-authenticate"@,
            "proxy-authorization"@,
            "te"@,
            "trailer"@,
            "transfer-encoding"@,
            "upgrade"@,
        ].contains(lower_case(name)),
        keeps_header(name) <==> !seq!["host"@, "content-length"@].contains(lower_case(name)),
{
    let names = seq![
        "connection"@,
        "content-length"@,
        "keep-alive"@,
        "proxy-authenticate"@,
        "proxy-authorization"@,
        "te"@,
        "trailer"@,
        "transfer-encoding"@,
        "upgrade"@,
    ];
    let n = lower_case(name);
    assert(names[0] == "connection"@ && names[1] == "content-length"@ && names[2] == "keep-alive"@
        && names[3] == "proxy-authenticate"@ && names[4] == "proxy-authorization"@ && names[5]
        == "te"@ && names[6] == "trailer"@ && names[7] == "transfer-encoding"@ && names[8]
        == "upgrade"@);
    assert(names.contains(n) ==> is_hop_by_hop(name));
    assert(is_hop_by_hop(name) ==> n == names[0] || n == names[1] || n == names[2] || n == names[3]
        || n == names[4] || n == names[5] || n == names[6] || n == names[7] || n == names[8]);
    let kept = seq!["host"@, "content-length"@];
    assert(kept[0] == "host"@ && kept[1] == "content-length"@);
}

/// A message wakes the functions that wait for its topic, be it by the last part of the topic's name
/// or, in the first form, by the whole of it; only those of its project.
#[verifier::rlimit(50)]
pub proof fn message_wakes_functions_of_its_topic(
    project_id: Seq<char>,
    topic: Seq<char>,
    trigger: TriggerKind,
)
    requires
        lacks("projects/"@ + project_id + "/topics"@, "/topics/"@),
    ensures
        ({
            let full = "projects/"@ + project_id + "/topics/"@ + topic;
            let key = message_key(project_id, full);
            &&& key.project_id == Some(project_id)
            &&& trigger is Event && trigger->event_type.deep_view() == Some(
                "google.cloud.pubsub.topic.v1.messagePublished"@,
            ) && trigger->resource.deep_view() == Some(
                JsonView::Object(seq![("topic"@, JsonView::Text(topic))]),
            ) ==> waits_for_present(trigger, key)
            &&& waits_for_present(trigger, key) && trigger->resource is Some
                && trigger->resource->0.deep_view()->Object_0.contains(
                ("topic"@, JsonView::Text(topic)),
            ) ==> trigger->event_type.deep_view() == Some(
                "google.cloud.pubsub.topic.v1.messagePublished"@,
            )
            &&& forall|other: Seq<char>|
                other != topic && waits_for_present(trigger, key) && trigger->resource is Some
                    ==> !#[trigger] trigger->resource->0.deep_view()->Object_0.contains(
                    ("topic"@, JsonView::Text(other)),
                )
            &&& waits_for_first(trigger, key) <==> trigger is Event
                && trigger->event_type.deep_view() == Some("google.pubsub.topic.publish"@)
                && trigger->resource.deep_view() == Some(JsonView::Text(full))
        }),
{
    reveal_strlit("/topics/");
    reveal_strlit("/topics");
    let front = "projects/"@ + project_id;
    let full = "projects/"@ + project_id + "/topics/"@ + topic;
    assert("/topics/"@.drop_last() =~= "/topics"@);
    cut_reads_back(front, "/topics/"@, topic);
    let key = message_key(project_id, full);
    assert(key.attributes["topic"@] == topic);
    assert forall|other: Seq<char>|
        other != topic && waits_for_present(trigger, key) && trigger->resource is Some implies
        !#[trigger] trigger->resource->0.deep_view()->Object_0.contains(
        ("topic"@, JsonView::Text(other)),
    ) by {
        let filters = trigger->resource->0.deep_view()->Object_0;
        let one = ("topic"@, JsonView::Text(other));
        if filters.contains(one) {
            let i = choose|i: int| 0 <= i < filters.len() && filters[i] == one;
            assert(trigger->resource->0.deep_view()->Object_0[i] == one);
        }
    }
}

/// An object wakes the functions that wait for its bucket, of whatever project.
pub proof fn object_wakes_functions_of_its_bucket(bucket: Seq<char>, trigger: TriggerKind)
    ensures
        ({
            let key = object_key(bucket);
            &&& key.project_id is None
            &&& trigger is Event && trigger->event_type.deep_view() == Some(
                "google.cloud.storage.object.v1.finalized"@,
            ) && (trigger->resource is None || trigger->resource.deep_view() == Some(
                JsonView::Object(seq![("bucket"@, JsonView::Text(bucket))]),
            )) ==> waits_for_present(trigger, key)
            &&& forall|other: Seq<char>|
                other != bucket && waits_for_present(trigger, key) && trigger->resource is Some
                    ==> !#[trigger] trigger->resource->0.deep_view()->Object_0.contains(
                    ("bucket"@, JsonView::Text(other)),
                )
            &&& waits_for_first(trigger, key) <==> trigger is Event
                && trigger->event_type.deep_view() == Some("google.storage.object.finalize"@)
                && trigger->resource.deep_view() == Some(
                JsonView::Text("projects/_/buckets/"@ + bucket),
            )
        }),
{
    let key = object_key(bucket);
    assert(key.attributes["bucket"@] == bucket);
    assert forall|other: Seq<char>|
        other != bucket && waits_for_present(trigger, key) && trigger->resource is Some implies
        !#[trigger] trigger->resource->0.deep_view()->Object_0.contains(
        ("bucket"@, JsonView::Text(other)),
    ) by {
        let filters = trigger->resource->0.deep_view()->Object_0;
        let one = ("bucket"@, JsonView::Text(other));
        if filters.contains(one) {
            let i = choose|i: int| 0 <= i < filters.len() && filters[i] == one;
            assert(trigger->resource->0.deep_view()->Object_0[i] == one);
        }
    }
}

} // verus!
