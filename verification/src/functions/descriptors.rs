//! The functions of a worker, and where a request to one goes.

use crate::functions::routes::{
    filter_matches, function_id_matches_filter, parse_function_route, route_of,
};
use crate::json::Json;
use crate::percent::{percent_encode, percent_encoded};
use crate::text::same_text;
use vstd::prelude::*;

verus! {

/// What starts a function.
#[derive(Debug)]
pub enum TriggerKind {
    Https { callable: bool },
    Schedule {
        schedule: Option<Json>,
        time_zone: Option<String>,
        retry_config: Option<Json>,
        topic: Option<String>,
    },
    Event { event_type: Option<String>, resource: Option<Json> },
}

/// A function of a worker.
#[derive(Debug)]
pub struct FunctionDescriptor {
    pub entry_id: String,
    pub name: String,
    pub region: String,
    pub trigger: TriggerKind,
}

/// Whether a filter matches a function by its export or its name.
pub open spec fn descriptor_matches(d: FunctionDescriptor, filter: Seq<char>) -> bool {
    filter_matches(d.entry_id@, filter) || filter_matches(d.name@, filter)
}

/// Whether one of the filters matches a function.
pub open spec fn any_matches(d: FunctionDescriptor, filters: Seq<Seq<char>>) -> bool {
    exists|i: int| 0 <= i < filters.len() && descriptor_matches(d, #[trigger] filters[i])
}

/// Whether a filter matches a function by its export or its name.
pub fn descriptor_matches_filter(descriptor: &FunctionDescriptor, filter: &str) -> (r: bool)
    ensures
        r == descriptor_matches(*descriptor, filter@),
{
    function_id_matches_filter(descriptor.entry_id.as_str(), filter)
        || function_id_matches_filter(descriptor.name.as_str(), filter)
}

fn some_filter_matches(descriptor: &FunctionDescriptor, filters: &Vec<String>) -> (r: bool)
    ensures
        r == any_matches(*descriptor, filters.deep_view()),
{
    let mut i: usize = 0;
    while i < filters.len()
        invariant
            i <= filters@.len(),
            forall|j: int|
                0 <= j < i ==> !descriptor_matches(*descriptor, #[trigger] filters.deep_view()[j]),
        decreases filters@.len() - i,
    {
        if descriptor_matches_filter(descriptor, filters[i].as_str()) {
            assert(descriptor_matches(*descriptor, filters.deep_view()[i as int]));
            return true;
        }
        i += 1;
    }
    false
}

/// The functions that the filters leave: all where there are none.
pub open spec fn filtered(
    descriptors: Seq<FunctionDescriptor>,
    filters: Seq<Seq<char>>,
) -> Seq<FunctionDescriptor> {
    if filters.len() == 0 {
        descriptors
    } else {
        descriptors.filter(|d: FunctionDescriptor| any_matches(d, filters))
    }
}

/// The functions that the filters leave, in their order.
pub fn filter_descriptors(descriptors: Vec<FunctionDescriptor>, filters: &Vec<String>) -> (r: Vec<
    FunctionDescriptor,
>)
    ensures
        r@ == filtered(descriptors@, filters.deep_view()),
{
    assert(filters.deep_view().len() == filters@.len());
    if filters.len() == 0 {
        return descriptors;
    }
    let ghost all = descriptors@;
    let ghost keep = |d: FunctionDescriptor| any_matches(d, filters.deep_view());
    let mut rest = descriptors;
    let mut r: Vec<FunctionDescriptor> = Vec::new();
    let ghost mut i: int = 0;
    assert(all.skip(0) =~= all);
    assert(r@ =~= all.take(0).filter(keep)) by {
        reveal(Seq::filter);
    }
    while rest.len() > 0
        invariant
            0 <= i <= all.len(),
            keep == (|d: FunctionDescriptor| any_matches(d, filters.deep_view())),
            rest@ == all.skip(i),
            r@ == all.take(i).filter(keep),
        decreases rest@.len(),
    {
        proof {
            reveal(Seq::filter);
            assert(all.take(i + 1).drop_last() =~= all.take(i));
            assert(all.take(i + 1).last() == all[i] && all[i] == all.skip(i)[0]);
        }
        let descriptor = rest.remove(0);
        if some_filter_matches(&descriptor, filters) {
            r.push(descriptor);
        }
        proof {
            i = i + 1;
            assert(rest@ =~= all.skip(i));
        }
    }
    proof {
        assert(all.skip(i).len() == 0);
        assert(all.take(i) =~= all);
    }
    r
}

/// A worker that is running.
#[derive(Debug)]
pub struct ActiveWorker {
    pub generation: u64,
    pub base_url: String,
    pub functions: Vec<FunctionDescriptor>,
}

/// Whether a function is the one that requests to this region and name are for.
pub open spec fn serves(d: FunctionDescriptor, region: Seq<char>, name: Seq<char>) -> bool {
    d.trigger is Https && d.region@ == region && d.name@ == name
}

/// The function that requests to this region and name are for: of several, the last.
pub open spec fn http_function(
    functions: Seq<FunctionDescriptor>,
    region: Seq<char>,
    name: Seq<char>,
) -> Option<FunctionDescriptor>
    decreases functions.len(),
{
    if functions.len() == 0 {
        None
    } else if serves(functions.last(), region, name) {
        Some(functions.last())
    } else {
        http_function(functions.drop_last(), region, name)
    }
}

impl ActiveWorker {
    /// The function that requests to this region and name are for.
    pub fn find_http_function(&self, region: &str, name: &str) -> (r: Option<&FunctionDescriptor>)
        ensures
            match http_function(self.functions@, region@, name@) {
                Some(d) => r == Some(&d),
                None => r is None,
            },
    {
        let ghost all = self.functions@;
        let mut i: usize = self.functions.len();
        assert(all.take(i as int) =~= all);
        while i > 0
            invariant
                i <= self.functions@.len(),
                all == self.functions@,
                http_function(all, region@, name@) == http_function(
                    all.take(i as int),
                    region@,
                    name@,
                ),
            decreases i,
        {
            assert(all.take(i as int).drop_last() =~= all.take(i - 1));
            assert(all.take(i as int).last() == all[i - 1]);
            i -= 1;
            let d = &self.functions[i];
            let https = match d.trigger {
                TriggerKind::Https { .. } => true,
                _ => false,
            };
            if https && same_text(d.region.as_str(), region) && same_text(d.name.as_str(), name) {
                return Some(d);
            }
        }
        None
    }
}

/// Why a request does not reach a function.
#[derive(Clone, Copy, PartialEq, Eq, Structural, Debug)]
pub enum ProxyError {
    UnexpectedPath,
    OtherProject,
    Loading,
    FunctionNotFound,
    InvalidMethod,
    RequestFailed,
    ResponseFailed,
    InvalidResponse,
}

impl ProxyError {
    /// The HTTP status of the answer.
    pub open spec fn code(self) -> u16 {
        match self {
            ProxyError::UnexpectedPath => 404,
            ProxyError::OtherProject => 404,
            ProxyError::Loading => 503,
            ProxyError::FunctionNotFound => 404,
            ProxyError::InvalidMethod => 400,
            ProxyError::RequestFailed => 502,
            ProxyError::ResponseFailed => 502,
            ProxyError::InvalidResponse => 500,
        }
    }

    /// The text of the answer.
    pub open spec fn text(self) -> Seq<char> {
        match self {
            ProxyError::UnexpectedPath => "expected /{project}/{region}/{functionName}"@,
            ProxyError::OtherProject => "project not served by this worker"@,
            ProxyError::Loading => "functions worker is still loading"@,
            ProxyError::FunctionNotFound => "function not found"@,
            ProxyError::InvalidMethod => "invalid method"@,
            ProxyError::RequestFailed => "function worker request failed"@,
            ProxyError::ResponseFailed => "function worker response failed"@,
            ProxyError::InvalidResponse => "invalid function response"@,
        }
    }

    /// The HTTP status of the answer.
    pub fn status(&self) -> (r: u16)
        ensures
            r == self.code(),
    {
        match self {
            ProxyError::UnexpectedPath => 404,
            ProxyError::OtherProject => 404,
            ProxyError::Loading => 503,
            ProxyError::FunctionNotFound => 404,
            ProxyError::InvalidMethod => 400,
            ProxyError::RequestFailed => 502,
            ProxyError::ResponseFailed => 502,
            ProxyError::InvalidResponse => 500,
        }
    }

    /// The text of the answer.
    pub fn message(&self) -> (r: &'static str)
        ensures
            r@ == self.text(),
    {
        match self {
            ProxyError::UnexpectedPath => "expected /{project}/{region}/{functionName}",
            ProxyError::OtherProject => "project not served by this worker",
            ProxyError::Loading => "functions worker is still loading",
            ProxyError::FunctionNotFound => "function not found",
            ProxyError::InvalidMethod => "invalid method",
            ProxyError::RequestFailed => "function worker request failed",
            ProxyError::ResponseFailed => "function worker response failed",
            ProxyError::InvalidResponse => "invalid function response",
        }
    }
}

/// A URL with a query, where there is one.
pub open spec fn with_query(url: Seq<char>, query: Option<Seq<char>>) -> Seq<char> {
    match query {
        Some(query) => url + "?"@ + query,
        None => url,
    }
}

/// Adds a query to a URL, where there is one.
pub fn append_query(url: &mut String, query: Option<&str>)
    ensures
        final(url)@ == with_query(old(url)@, query.deep_view()),
{
    if let Some(query) = query {
        url.append("?");
        url.append(query);
    }
}

/// Where the worker takes a request to a function.
pub open spec fn invoke_url(
    base_url: Seq<char>,
    entry_id: Seq<char>,
    suffix: Seq<char>,
    query: Option<Seq<char>>,
) -> Seq<char> {
    with_query(
        base_url + "/__firelite__/invoke/"@ + percent_encoded(entry_id) + suffix,
        query,
    )
}

/// Where a request to the functions of a project goes.
pub open spec fn proxy_target(
    project_id: Seq<char>,
    active: Option<ActiveWorker>,
    path: Seq<char>,
    query: Option<Seq<char>>,
) -> Result<Seq<char>, ProxyError> {
    match route_of(path) {
        None => Err(ProxyError::UnexpectedPath),
        Some(route) => if route.project_id != project_id {
            Err(ProxyError::OtherProject)
        } else {
            match active {
                None => Err(ProxyError::Loading),
                Some(worker) => match http_function(
                    worker.functions@,
                    route.region,
                    route.name,
                ) {
                    None => Err(ProxyError::FunctionNotFound),
                    Some(d) => Ok(
                        invoke_url(worker.base_url@, d.entry_id@, route.suffix, query),
                    ),
                },
            }
        },
    }
}

/// Where a request to the functions of a project goes.
pub fn plan_proxy(
    project_id: &str,
    active: &Option<ActiveWorker>,
    path: &str,
    query: Option<&str>,
) -> (r: Result<String, ProxyError>)
    ensures
        match proxy_target(project_id@, *active, path@, query.deep_view()) {
            Ok(target) => r is Ok && r->Ok_0@ == target,
            Err(e) => r == Err::<String, ProxyError>(e),
        },
{
    let route = match parse_function_route(path) {
        Some(route) => route,
        None => {
            return Err(ProxyError::UnexpectedPath);
        },
    };
    if !same_text(route.project_id.as_str(), project_id) {
        return Err(ProxyError::OtherProject);
    }
    let worker = match active {
        Some(worker) => worker,
        None => {
            return Err(ProxyError::Loading);
        },
    };
    match worker.find_http_function(route.region.as_str(), route.name.as_str()) {
        Some(d) => {
            let mut target = worker.base_url.clone();
            target.append("/__firelite__/invoke/");
            target.append(percent_encode(d.entry_id.as_str()).as_str());
            target.append(route.suffix.as_str());
            append_query(&mut target, query);
            Ok(target)
        },
        None => Err(ProxyError::FunctionNotFound),
    }
}

/// Each request that goes nowhere is answered with its own status and message.
pub proof fn refusal_is_told(e: ProxyError)
    ensures
        e is UnexpectedPath ==> e.code() == 404 && e.text() == "expected /{project}/{region}/{functionName}"@,
        e is OtherProject ==> e.code() == 404 && e.text() == "project not served by this worker"@,
        e is Loading ==> e.code() == 503 && e.text() == "functions worker is still loading"@,
        e is FunctionNotFound ==> e.code() == 404 && e.text() == "function not found"@,
        e is InvalidMethod ==> e.code() == 400 && e.text() == "invalid method"@,
        e is RequestFailed ==> e.code() == 502 && e.text() == "function worker request failed"@,
        e is ResponseFailed ==> e.code() == 502 && e.text() == "function worker response failed"@,
        e is InvalidResponse ==> e.code() == 500 && e.text() == "invalid function response"@,
{
}

} // verus!
