//! Workers that were attached from outside, and the requests that go to them.

use crate::decimal::{decimal, decimal_text};
use crate::functions::descriptors::{append_query, with_query};
use crate::functions::routes::{parse_function_route, passes, passes_filters, route_of};
use crate::text::{join3, same_text};
use crate::text_map::{can_list, insertion_can_list, listing, TextMap};
use crate::trim::{trim, trimmed};
use vstd::prelude::*;

verus! {

/// A worker that was attached.
#[derive(Debug)]
pub struct FunctionAttachment {
    pub id: String,
    pub project_id: String,
    pub workdir: String,
    pub functions_host: String,
    pub functions_port: u16,
    pub filters: Vec<String>,
    pub attached_at_ms: u64,
}

/// What an attached worker holds.
#[verifier::ext_equal]
pub struct AttachmentView {
    pub id: Seq<char>,
    pub project_id: Seq<char>,
    pub workdir: Seq<char>,
    pub functions_host: Seq<char>,
    pub functions_port: u16,
    pub filters: Seq<Seq<char>>,
    pub attached_at_ms: u64,
}

impl DeepView for FunctionAttachment {
    type V = AttachmentView;

    open spec fn deep_view(&self) -> AttachmentView {
        AttachmentView {
            id: self.id@,
            project_id: self.project_id@,
            workdir: self.workdir@,
            functions_host: self.functions_host@,
            functions_port: self.functions_port,
            filters: self.filters.deep_view(),
            attached_at_ms: self.attached_at_ms,
        }
    }
}

/// Copies of texts.
pub fn clone_list(texts: &Vec<String>) -> (r: Vec<String>)
    ensures
        r.deep_view() == texts.deep_view(),
{
    let ghost all = texts.deep_view();
    let mut r: Vec<String> = Vec::new();
    let mut i: usize = 0;
    assert(r.deep_view() =~= all.take(0));
    while i < texts.len()
        invariant
            i <= texts@.len(),
            all == texts.deep_view(),
            r.deep_view() == all.take(i as int),
        decreases texts@.len() - i,
    {
        let ghost before = r.deep_view();
        r.push(texts[i].clone());
        assert(r.deep_view() =~= before.push(all[i as int]));
        i += 1;
        assert(r.deep_view() =~= all.take(i as int));
    }
    assert(all.take(i as int) =~= all);
    r
}

impl Clone for FunctionAttachment {
    fn clone(&self) -> (r: Self)
        ensures
            r.deep_view() == self.deep_view(),
    {
        FunctionAttachment {
            id: self.id.clone(),
            project_id: self.project_id.clone(),
            workdir: self.workdir.clone(),
            functions_host: self.functions_host.clone(),
            functions_port: self.functions_port,
            filters: clone_list(&self.filters),
            attached_at_ms: self.attached_at_ms,
        }
    }
}

/// A worker that is to be attached.
#[derive(Debug)]
pub struct AttachRequest {
    pub project_id: String,
    pub workdir: String,
    pub functions_host: String,
    pub functions_port: u16,
    pub filters: Vec<String>,
}

/// The workers that are attached.
#[derive(Debug)]
pub struct AttachmentsResponse {
    pub attachments: Vec<FunctionAttachment>,
}

/// The id of an attached worker.
pub open spec fn attachment_named(project_id: Seq<char>, host: Seq<char>, port: u16) -> Seq<char> {
    project_id + "@"@ + host + ":"@ + decimal(port as nat)
}

/// The id of an attached worker: its project and where it listens.
pub fn attachment_id(project_id: &str, functions_host: &str, functions_port: u16) -> (r: String)
    ensures
        r@ == attachment_named(project_id@, functions_host@, functions_port),
{
    let mut r = join3(project_id, "@", functions_host);
    r.append(":");
    r.append(decimal_text(functions_port as u64).as_str());
    r
}

/// Whether a worker can be attached: all that names it is there.
pub open spec fn can_attach(request: AttachRequest) -> bool {
    &&& trimmed(request.project_id@).len() > 0
    &&& trimmed(request.workdir@).len() > 0
    &&& trimmed(request.functions_host@).len() > 0
    &&& request.functions_port != 0
}

/// A worker as it is attached.
pub open spec fn attached(request: AttachRequest, now_ms: u64) -> AttachmentView {
    AttachmentView {
        id: attachment_named(
            request.project_id@,
            request.functions_host@,
            request.functions_port,
        ),
        project_id: request.project_id@,
        workdir: request.workdir@,
        functions_host: request.functions_host@,
        functions_port: request.functions_port,
        filters: request.filters.deep_view(),
        attached_at_ms: now_ms,
    }
}

/// The workers that are attached, by id.
#[derive(Debug)]
pub struct AttachmentsState {
    pub attachments: TextMap<FunctionAttachment>,
}

impl DeepView for AttachmentsState {
    type V = Map<Seq<char>, AttachmentView>;

    open spec fn deep_view(&self) -> Map<Seq<char>, AttachmentView> {
        self.attachments.deep_view()
    }
}

/// Whether a worker takes requests to a function of a project.
pub open spec fn takes(a: AttachmentView, project_id: Seq<char>, function_name: Seq<char>) -> bool {
    a.project_id == project_id && passes(a.filters, function_name)
}

/// The first of the workers that takes requests to a function.
pub open spec fn first_taking(
    pairs: Seq<(Seq<char>, AttachmentView)>,
    project_id: Seq<char>,
    function_name: Seq<char>,
) -> Option<AttachmentView>
    decreases pairs.len(),
{
    if pairs.len() == 0 {
        None
    } else if takes(pairs[0].1, project_id, function_name) {
        Some(pairs[0].1)
    } else {
        first_taking(pairs.drop_first(), project_id, function_name)
    }
}

/// Why a request does not reach an attached worker.
#[derive(Clone, Copy, PartialEq, Eq, Structural, Debug)]
pub enum AttachedProxyError {
    UnexpectedPath,
    NoWorker,
    InvalidMethod,
    RequestFailed,
    ResponseFailed,
    InvalidResponse,
}

impl AttachedProxyError {
    /// The HTTP status of the answer.
    pub open spec fn code(self) -> u16 {
        match self {
            AttachedProxyError::UnexpectedPath => 404,
            AttachedProxyError::NoWorker => 404,
            AttachedProxyError::InvalidMethod => 400,
            AttachedProxyError::RequestFailed => 502,
            AttachedProxyError::ResponseFailed => 502,
            AttachedProxyError::InvalidResponse => 500,
        }
    }

    /// The text of the answer.
    pub open spec fn text(self) -> Seq<char> {
        match self {
            AttachedProxyError::UnexpectedPath => ""@,
            AttachedProxyError::NoWorker => "no attached functions worker for route"@,
            AttachedProxyError::InvalidMethod => "invalid method"@,
            AttachedProxyError::RequestFailed => "attached functions worker request failed"@,
            AttachedProxyError::ResponseFailed => "attached functions worker response failed"@,
            AttachedProxyError::InvalidResponse => "invalid function response"@,
        }
    }

    /// The HTTP status of the answer.
    pub fn status(&self) -> (r: u16)
        ensures
            r == self.code(),
    {
        match self {
            AttachedProxyError::UnexpectedPath => 404,
            AttachedProxyError::NoWorker => 404,
            AttachedProxyError::InvalidMethod => 400,
            AttachedProxyError::RequestFailed => 502,
            AttachedProxyError::ResponseFailed => 502,
            AttachedProxyError::InvalidResponse => 500,
        }
    }

    /// The text of the answer.
    pub fn message(&self) -> (r: &'static str)
        ensures
            r@ == self.text(),
    {
        match self {
            AttachedProxyError::UnexpectedPath => "",
            AttachedProxyError::NoWorker => "no attached functions worker for route",
            AttachedProxyError::InvalidMethod => "invalid method",
            AttachedProxyError::RequestFailed => "attached functions worker request failed",
            AttachedProxyError::ResponseFailed => "attached functions worker response failed",
            AttachedProxyError::InvalidResponse => "invalid function response",
        }
    }
}

/// Where an attached worker takes a request.
pub open spec fn attached_url(a: AttachmentView, path: Seq<char>, query: Option<Seq<char>>) -> Seq<char> {
    with_query(
        "http://"@ + a.functions_host + ":"@ + decimal(a.functions_port as nat) + path,
        query,
    )
}

/// Where a request to the functions of attached workers goes.
pub open spec fn attached_target(
    attachments: Map<Seq<char>, AttachmentView>,
    path: Seq<char>,
    query: Option<Seq<char>>,
) -> Result<Seq<char>, AttachedProxyError> {
    match route_of(path) {
        None => Err(AttachedProxyError::UnexpectedPath),
        Some(route) => match first_taking(listing(attachments), route.project_id, route.name) {
            None => Err(AttachedProxyError::NoWorker),
            Some(a) => Ok(attached_url(a, path, query)),
        },
    }
}

impl AttachmentsState {
    /// No workers yet.
    pub fn new() -> (r: AttachmentsState)
        ensures
            r.deep_view() == Map::<Seq<char>, AttachmentView>::empty(),
    {
        AttachmentsState { attachments: TextMap::new() }
    }

    /// The workers that are attached, in the order of their ids.
    pub fn list_attachments(&self) -> (r: AttachmentsResponse)
        ensures
            r.attachments.deep_view() == listing(self.deep_view()).map_values(
                |pair: (Seq<char>, AttachmentView)| pair.1,
            ),
    {
        let ghost all = listing(self.deep_view()).map_values(
            |pair: (Seq<char>, AttachmentView)| pair.1,
        );
        let mut attachments: Vec<FunctionAttachment> = Vec::new();
        let count: usize = self.attachments.len();
        let mut i: usize = 0;
        assert(attachments.deep_view() =~= all.take(0));
        while i < count
            invariant
                count == listing(self.deep_view()).len(),
                all == listing(self.deep_view()).map_values(
                    |pair: (Seq<char>, AttachmentView)| pair.1,
                ),
                i <= count,
                attachments.deep_view() == all.take(i as int),
            decreases count - i,
        {
            let ghost before = attachments.deep_view();
            attachments.push(self.attachments.value_at(i).clone());
            assert(attachments.deep_view() =~= before.push(all[i as int]));
            i += 1;
            assert(attachments.deep_view() =~= all.take(i as int));
        }
        assert(all.take(count as int) =~= all);
        AttachmentsResponse { attachments }
    }

    /// The worker that takes requests to a function: the first of the project whose filters pass
    /// its name.
    pub fn find_attachment_for_function(&self, project_id: &str, function_name: &str) -> (r: Option<
        &FunctionAttachment,
    >)
        ensures
            r.deep_view() == first_taking(
                listing(self.deep_view()),
                project_id@,
                function_name@,
            ),
    {
        let ghost all = listing(self.deep_view());
        let count: usize = self.attachments.len();
        let mut i: usize = 0;
        assert(all.skip(0) =~= all);
        while i < count
            invariant
                all == listing(self.deep_view()),
                count == all.len(),
                i <= count,
                first_taking(all, project_id@, function_name@) == first_taking(
                    all.skip(i as int),
                    project_id@,
                    function_name@,
                ),
            decreases count - i,
        {
            assert(all.skip(i as int)[0] == all[i as int]);
            assert(all.skip(i as int).drop_first() =~= all.skip(i + 1));
            let a = self.attachments.value_at(i);
            if same_text(a.project_id.as_str(), project_id) && passes_filters(
                &a.filters,
                function_name,
            ) {
                return Some(a);
            }
            i += 1;
        }
        None
    }

    /// Where a request to the functions of attached workers goes.
    pub fn plan_attached_proxy(&self, path: &str, query: Option<&str>) -> (r: Result<
        String,
        AttachedProxyError,
    >)
        ensures
            match attached_target(self.deep_view(), path@, query.deep_view()) {
                Ok(target) => r is Ok && r->Ok_0@ == target,
                Err(e) => r == Err::<String, AttachedProxyError>(e),
            },
    {
        let route = match parse_function_route(path) {
            Some(route) => route,
            None => {
                return Err(AttachedProxyError::UnexpectedPath);
            },
        };
        match self.find_attachment_for_function(route.project_id.as_str(), route.name.as_str()) {
            Some(a) => {
                let mut target = join3("http://", a.functions_host.as_str(), ":");
                target.append(decimal_text(a.functions_port as u64).as_str());
                target.append(path);
                append_query(&mut target, query);
                Ok(target)
            },
            None => Err(AttachedProxyError::NoWorker),
        }
    }
}

/// The workers that are attached once another was, and that other; none where it cannot be.
pub open spec fn attach_step(
    attachments: Map<Seq<char>, AttachmentView>,
    request: AttachRequest,
    now_ms: u64,
) -> Option<(Map<Seq<char>, AttachmentView>, AttachmentView)> {
    if can_attach(request) {
        let a = attached(request, now_ms);
        Some((attachments.insert(a.id, a), a))
    } else {
        None
    }
}

/// Attaches a worker, in place of one that listens at the same place for the same project; the
/// HTTP status of the answer where the request leaves out what names it.
pub fn register_attachment(
    state: &mut AttachmentsState,
    payload: AttachRequest,
    now_ms: u64,
) -> (r: Result<FunctionAttachment, u16>)
    ensures
        match attach_step(old(state).deep_view(), payload, now_ms) {
            Some((after, a)) => r is Ok && r->Ok_0.deep_view() == a && final(state).deep_view()
                == after,
            None => r == Err::<FunctionAttachment, u16>(400) && *final(state) == *old(state),
        },
{
    if trim(payload.project_id.as_str()).is_empty() || trim(payload.workdir.as_str()).is_empty()
        || trim(payload.functions_host.as_str()).is_empty() || payload.functions_port == 0 {
        return Err(400);
    }
    let id = attachment_id(
        payload.project_id.as_str(),
        payload.functions_host.as_str(),
        payload.functions_port,
    );
    let attachment = FunctionAttachment {
        id: id.clone(),
        project_id: payload.project_id,
        workdir: payload.workdir,
        functions_host: payload.functions_host,
        functions_port: payload.functions_port,
        filters: payload.filters,
        attached_at_ms: now_ms,
    };
    let copy = attachment.clone();
    state.attachments.insert(id, attachment);
    Ok(copy)
}

/// Where one of the workers takes requests to a function, the first that does is found.
proof fn one_taking_is_found(
    pairs: Seq<(Seq<char>, AttachmentView)>,
    at: int,
    project_id: Seq<char>,
    function_name: Seq<char>,
)
    requires
        0 <= at < pairs.len(),
        takes(pairs[at].1, project_id, function_name),
    ensures
        exists|i: int|
            0 <= i <= at && takes((#[trigger] pairs[i]).1, project_id, function_name)
                && first_taking(pairs, project_id, function_name) == Some(pairs[i].1),
    decreases pairs.len(),
{
    if takes(pairs[0].1, project_id, function_name) {
        assert(first_taking(pairs, project_id, function_name) == Some(pairs[0].1));
    } else {
        let rest = pairs.drop_first();
        assert(rest[at - 1] == pairs[at]);
        one_taking_is_found(rest, at - 1, project_id, function_name);
        let i = choose|i: int|
            0 <= i <= at - 1 && takes((#[trigger] rest[i]).1, project_id, function_name)
                && first_taking(rest, project_id, function_name) == Some(rest[i].1);
        assert(rest[i] == pairs[i + 1]);
    }
}

/// Once a worker is attached, requests to the functions of its project that its filters pass reach
/// a worker that takes them; where no other takes them, the one that was attached.
pub proof fn attached_worker_is_found(
    attachments: Map<Seq<char>, AttachmentView>,
    request: AttachRequest,
    now_ms: u64,
    function_name: Seq<char>,
)
    requires
        passes(request.filters.deep_view(), function_name),
        can_list(attachments),
    ensures
        ({
            let a = attached(request, now_ms);
            let found = first_taking(
                listing(attachments.insert(a.id, a)),
                request.project_id@,
                function_name,
            );
            &&& found is Some
            &&& takes(found->0, request.project_id@, function_name)
            &&& (forall|id: Seq<char>| #[trigger]
                attachments.contains_key(id) && id != a.id ==> !takes(
                    attachments[id],
                    request.project_id@,
                    function_name,
                )) ==> found == Some(a)
        }),
{
    let a = attached(request, now_ms);
    let after = attachments.insert(a.id, a);
    let pairs = listing(after);
    insertion_can_list(attachments, a.id, a);
    assert(after.contains_key(a.id));
    let at = choose|i: int| 0 <= i < pairs.len() && (#[trigger] pairs[i]).0 == a.id;
    assert(pairs[at].1 == a);
    one_taking_is_found(pairs, at, request.project_id@, function_name);
    let i = choose|i: int|
        0 <= i <= at && takes((#[trigger] pairs[i]).1, request.project_id@, function_name)
            && first_taking(pairs, request.project_id@, function_name) == Some(pairs[i].1);
    assert(after.contains_key(pairs[i].0) && after[pairs[i].0] == pairs[i].1);
}

/// A worker can be attached that gives a project, a directory, a host and a port, none of them
/// blank. It is kept as it came, under its project, host and port, and no other is touched.
pub proof fn attached_worker_is_kept(
    attachments: Map<Seq<char>, AttachmentView>,
    request: AttachRequest,
    now_ms: u64,
)
    ensures
        ({
            let r = attach_step(attachments, request, now_ms);
            let (after, a) = r->0;
            &&& r is Some <==> trimmed(request.project_id@).len() > 0 && trimmed(
                request.workdir@,
            ).len() > 0 && trimmed(request.functions_host@).len() > 0 && request.functions_port
                != 0
            &&& r is Some ==> {
                &&& a.id == request.project_id@ + "@"@ + request.functions_host@ + ":"@ + decimal(
                    request.functions_port as nat,
                )
                &&& a.project_id == request.project_id@
                &&& a.workdir == request.workdir@
                &&& a.functions_host == request.functions_host@
                &&& a.functions_port == request.functions_port
                &&& a.filters == request.filters.deep_view()
                &&& a.attached_at_ms == now_ms
                &&& after == attachments.insert(a.id, a)
            }
        }),
{
}

/// A request goes to the first attached worker of its project, in the order of their ids, whose
/// filters the function's name passes: to the worker's host and port, with the path and the query
/// as they came. Without such a worker it goes nowhere, and so does one whose path names no
/// function.
pub proof fn request_goes_to_first_worker(
    attachments: Map<Seq<char>, AttachmentView>,
    path: Seq<char>,
    query: Option<Seq<char>>,
    i: int,
)
    ensures
        ({
            let r = attached_target(attachments, path, query);
            let route = route_of(path)->0;
            let all = listing(attachments);
            let fits = |k: int|
                all[k].1.project_id == route.project_id && passes(all[k].1.filters, route.name);
            let a = all[i].1;
            &&& route_of(path) is None ==> r == Err::<Seq<char>, _>(
                AttachedProxyError::UnexpectedPath,
            )
            &&& route_of(path) is Some && (forall|k: int| 0 <= k < all.len() ==> !#[trigger] fits(k))
                ==> r == Err::<Seq<char>, _>(AttachedProxyError::NoWorker)
            &&& route_of(path) is Some && 0 <= i < all.len() && fits(i) && (forall|k: int|
                0 <= k < i ==> !#[trigger] fits(k)) ==> r == Ok::<_, AttachedProxyError>(
                "http://"@ + a.functions_host + ":"@ + decimal(a.functions_port as nat) + path + (
                match query {
                    Some(query) => "?"@ + query,
                    None => Seq::empty(),
                }),
            )
        }),
{
    if route_of(path) is Some {
        let route = route_of(path)->0;
        let all = listing(attachments);
        let fits = |k: int|
            all[k].1.project_id == route.project_id && passes(all[k].1.filters, route.name);
        if forall|k: int| 0 <= k < all.len() ==> !#[trigger] fits(k) {
            assert forall|k: int| 0 <= k < all.len() implies !takes(
                (#[trigger] all[k]).1,
                route.project_id,
                route.name,
            ) by {
                assert(!fits(k));
            }
            none_taking(all, route.project_id, route.name);
        }
        if 0 <= i < all.len() && fits(i) && (forall|k: int| 0 <= k < i ==> !#[trigger] fits(k)) {
            assert forall|k: int| 0 <= k < i implies !takes(
                (#[trigger] all[k]).1,
                route.project_id,
                route.name,
            ) by {
                assert(!fits(k));
            }
            first_taking_is(all, i, route.project_id, route.name);
            let a = all[i].1;
            let url = "http://"@ + a.functions_host + ":"@ + decimal(a.functions_port as nat)
                + path;
            match query {
                Some(q) => {
                    assert(url + "?"@ + q =~= url + ("?"@ + q));
                },
                None => {
                    assert(url + Seq::<char>::empty() =~= url);
                },
            }
        }
    }
}

proof fn none_taking(
    pairs: Seq<(Seq<char>, AttachmentView)>,
    project_id: Seq<char>,
    name: Seq<char>,
)
    requires
        forall|k: int| 0 <= k < pairs.len() ==> !takes((#[trigger] pairs[k]).1, project_id, name),
    ensures
        first_taking(pairs, project_id, name) is None,
    decreases pairs.len(),
{
    if pairs.len() > 0 {
        let rest = pairs.drop_first();
        assert forall|k: int| 0 <= k < rest.len() implies !takes(
            (#[trigger] rest[k]).1,
            project_id,
            name,
        ) by {
            assert(rest[k] == pairs[k + 1]);
        }
        assert(!takes(pairs[0].1, project_id, name));
        none_taking(rest, project_id, name);
    }
}

proof fn first_taking_is(
    pairs: Seq<(Seq<char>, AttachmentView)>,
    i: int,
    project_id: Seq<char>,
    name: Seq<char>,
)
    requires
        0 <= i < pairs.len(),
        takes(pairs[i].1, project_id, name),
        forall|k: int| 0 <= k < i ==> !takes((#[trigger] pairs[k]).1, project_id, name),
    ensures
        first_taking(pairs, project_id, name) == Some(pairs[i].1),
    decreases i,
{
    if i > 0 {
        let rest = pairs.drop_first();
        assert forall|k: int| 0 <= k < i - 1 implies !takes(
            (#[trigger] rest[k]).1,
            project_id,
            name,
        ) by {
            assert(rest[k] == pairs[k + 1]);
        }
        assert(!takes(pairs[0].1, project_id, name));
        assert(rest[i - 1] == pairs[i]);
        first_taking_is(rest, i - 1, project_id, name);
    }
}

/// Each request that goes nowhere is answered with its own status and message.
pub proof fn refusal_is_told(e: AttachedProxyError)
    ensures
        e is UnexpectedPath ==> e.code() == 404 && e.text() == ""@,
        e is NoWorker ==> e.code() == 404 && e.text() == "no attached functions worker for route"@,
        e is InvalidMethod ==> e.code() == 400 && e.text() == "invalid method"@,
        e is RequestFailed ==> e.code() == 502 && e.text() == "attached functions worker request failed"@,
        e is ResponseFailed ==> e.code() == 502 && e.text() == "attached functions worker response failed"@,
        e is InvalidResponse ==> e.code() == 500 && e.text() == "invalid function response"@,
{
}

} // verus!
