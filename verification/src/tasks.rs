//! Cloud Tasks: tasks that are kept in queues and dispatched to a local target.

use crate::base64_text::{base64_bytes, bytes_of_standard};
use crate::decimal::{decimal, decimal_text, is_digit};
use crate::fresh::{is_uuid, random_uuid};
use crate::functions::routes::{is_hop_by_hop, is_hop_by_hop_header, passes, passes_filters};
use crate::json::Json;
use crate::text::{chars_of, join2, join3, same_text, strip_prefix, without_prefix};
use crate::text_map::{can_list, insertion_can_list, listing, TextMap};
use crate::trim::{trim, trimmed};
use vstd::prelude::*;
use vstd::utf8::{
    decode_utf8, encode_utf8, encode_utf8_decode_utf8, encode_utf8_valid_utf8, is_char_boundary,
    is_char_boundary_start_end_of_seq,
};

verus! {

/// What a task asks a target for.
#[derive(Debug)]
pub struct HttpRequest {
    pub http_method: Option<String>,
    pub url: Option<String>,
    pub headers: TextMap<String>,
    pub body: Option<String>,
    pub oidc_token: Option<Json>,
}

/// A task.
#[derive(Debug)]
pub struct Task {
    pub name: Option<String>,
    pub http_request: HttpRequest,
    pub schedule_time: Option<Json>,
    pub dispatch_deadline: Option<Json>,
}

/// How far a task is.
#[derive(Clone, Copy, PartialEq, Eq, Structural, Debug)]
pub enum TaskStatus {
    Created,
    Succeeded,
    Failed,
    Deleted,
}

/// A task that is kept.
#[derive(Debug)]
pub struct TaskRecord {
    pub task: Task,
    pub queue_name: String,
    pub status: TaskStatus,
    pub created_at_ms: u64,
    pub dispatched_at_ms: Option<u64>,
}

/// What a task that is kept holds.
#[verifier::ext_equal]
pub struct TaskView {
    pub task: Task,
    pub queue_name: Seq<char>,
    pub status: TaskStatus,
    pub created_at_ms: u64,
    pub dispatched_at_ms: Option<u64>,
}

impl DeepView for TaskRecord {
    type V = TaskView;

    open spec fn deep_view(&self) -> TaskView {
        TaskView {
            task: self.task,
            queue_name: self.queue_name@,
            status: self.status,
            created_at_ms: self.created_at_ms,
            dispatched_at_ms: self.dispatched_at_ms,
        }
    }
}

/// The worker that takes the tasks of queues that are functions.
#[derive(Debug)]
pub struct FunctionsTarget {
    pub project_id: String,
    pub functions_host: String,
    pub functions_port: u16,
    pub filters: Vec<String>,
}

/// All tasks by name, and the worker that takes those of functions.
#[derive(Debug)]
pub struct TasksState {
    pub tasks: TextMap<TaskRecord>,
    pub functions_target: Option<FunctionsTarget>,
}

/// What the tasks hold.
#[verifier::ext_equal]
pub struct TasksView {
    pub tasks: Map<Seq<char>, TaskView>,
    pub functions_target: Option<FunctionsTarget>,
}

impl DeepView for TasksState {
    type V = TasksView;

    open spec fn deep_view(&self) -> TasksView {
        TasksView { tasks: self.tasks.deep_view(), functions_target: self.functions_target }
    }
}

/// Why a request on tasks is refused.
#[derive(Debug)]
pub enum TasksError {
    AlreadyExists,
    NotFound,
    NoFunctionsWorker,
    InvalidHttpMethod,
    InvalidTaskUrl,
    UnsupportedTaskUrlScheme,
    InvalidTaskBody,
    TaskDispatchFailed,
    /// The target answered that it failed.
    TargetFailed(String),
}

impl TasksError {
    /// The HTTP status of the answer.
    pub open spec fn code(self) -> u16 {
        match self {
            TasksError::AlreadyExists => 409,
            TasksError::NotFound => 404,
            TasksError::NoFunctionsWorker => 404,
            TasksError::InvalidHttpMethod => 400,
            TasksError::InvalidTaskUrl => 400,
            TasksError::UnsupportedTaskUrlScheme => 400,
            TasksError::InvalidTaskBody => 400,
            TasksError::TaskDispatchFailed => 502,
            TasksError::TargetFailed(_) => 502,
        }
    }

    /// The message of the answer.
    pub open spec fn text(self) -> Seq<char> {
        match self {
            TasksError::AlreadyExists => "ALREADY_EXISTS"@,
            TasksError::NotFound => "NOT_FOUND"@,
            TasksError::NoFunctionsWorker => "NO_FUNCTIONS_WORKER"@,
            TasksError::InvalidHttpMethod => "INVALID_HTTP_METHOD"@,
            TasksError::InvalidTaskUrl => "INVALID_TASK_URL"@,
            TasksError::UnsupportedTaskUrlScheme => "UNSUPPORTED_TASK_URL_SCHEME"@,
            TasksError::InvalidTaskBody => "INVALID_TASK_BODY"@,
            TasksError::TaskDispatchFailed => "TASK_DISPATCH_FAILED"@,
            TasksError::TargetFailed(message) => message@,
        }
    }

    /// The HTTP status of the answer.
    pub fn status(&self) -> (r: u16)
        ensures
            r == self.code(),
    {
        match self {
            TasksError::AlreadyExists => 409,
            TasksError::NotFound => 404,
            TasksError::NoFunctionsWorker => 404,
            TasksError::InvalidHttpMethod => 400,
            TasksError::InvalidTaskUrl => 400,
            TasksError::UnsupportedTaskUrlScheme => 400,
            TasksError::InvalidTaskBody => 400,
            TasksError::TaskDispatchFailed => 502,
            TasksError::TargetFailed(_) => 502,
        }
    }

    /// The message of the answer.
    pub fn message(&self) -> (r: &str)
        ensures
            r@ == self.text(),
    {
        match self {
            TasksError::AlreadyExists => "ALREADY_EXISTS",
            TasksError::NotFound => "NOT_FOUND",
            TasksError::NoFunctionsWorker => "NO_FUNCTIONS_WORKER",
            TasksError::InvalidHttpMethod => "INVALID_HTTP_METHOD",
            TasksError::InvalidTaskUrl => "INVALID_TASK_URL",
            TasksError::UnsupportedTaskUrlScheme => "UNSUPPORTED_TASK_URL_SCHEME",
            TasksError::InvalidTaskBody => "INVALID_TASK_BODY",
            TasksError::TaskDispatchFailed => "TASK_DISPATCH_FAILED",
            TasksError::TargetFailed(message) => message.as_str(),
        }
    }

    /// The reason phrase of the status.
    pub fn reason(&self) -> (r: &'static str)
        ensures
            r@ == match self.code() {
                409 => "Conflict"@,
                404 => "Not Found"@,
                502 => "Bad Gateway"@,
                _ => "Bad Request"@,
            },
    {
        match self {
            TasksError::AlreadyExists => "Conflict",
            TasksError::NotFound => "Not Found",
            TasksError::NoFunctionsWorker => "Not Found",
            TasksError::TaskDispatchFailed => "Bad Gateway",
            TasksError::TargetFailed(_) => "Bad Gateway",
            _ => "Bad Request",
        }
    }
}

/// The full name of a queue.
pub open spec fn queue_named(project_id: Seq<char>, location_id: Seq<char>, queue_id: Seq<char>) -> Seq<
    char,
> {
    "projects/"@ + project_id + "/locations/"@ + location_id + "/queues/"@ + queue_id
}

/// The full name of a queue.
pub fn queue_name(project_id: &str, location_id: &str, queue_id: &str) -> (r: String)
    ensures
        r@ == queue_named(project_id@, location_id@, queue_id@),
{
    let mut r = join3("projects/", project_id, "/locations/");
    r.append(location_id);
    r.append("/queues/");
    r.append(queue_id);
    r
}

/// The full name of a task.
pub open spec fn task_named(queue: Seq<char>, task_id: Seq<char>) -> Seq<char> {
    queue + "/tasks/"@ + task_id
}

/// The full name of a task.
pub fn task_name(queue: &str, task_id: &str) -> (r: String)
    ensures
        r@ == task_named(queue@, task_id@),
{
    join3(queue, "/tasks/", task_id)
}

/// The name of a task that is created: its own, or one with the id `id`.
pub open spec fn created_name(task: Task, queue: Seq<char>, id: Seq<char>) -> Seq<char> {
    match task.name {
        Some(name) => name@,
        None => task_named(queue, id),
    }
}

/// What comes of the creation of a task: a name that is taken is refused, and nothing changes;
/// otherwise the task is kept under its name, and nothing else changes.
pub open spec fn begun(
    v: TasksView,
    w: TasksView,
    r: Result<String, TasksError>,
    task: Task,
    queue: Seq<char>,
    id: Seq<char>,
    now_ms: u64,
) -> bool {
    let name = created_name(task, queue, id);
    if v.tasks.contains_key(name) {
        r is Err && r->Err_0 is AlreadyExists && w == v
    } else {
        let kept = w.tasks[name];
        &&& r is Ok && r->Ok_0@ == name
        &&& w == (TasksView { tasks: v.tasks.insert(name, kept), ..v })
        &&& kept.task.name.deep_view() == Some(name)
        &&& kept.task.http_request == task.http_request
        &&& kept.task.schedule_time == task.schedule_time
        &&& kept.task.dispatch_deadline == task.dispatch_deadline
        &&& kept.queue_name == queue
        &&& kept.status == TaskStatus::Created
        &&& kept.created_at_ms == now_ms
        &&& kept.dispatched_at_ms is None
    }
}

impl Default for TasksState {
    fn default() -> (r: TasksState)
        ensures
            r.deep_view() == (TasksView { tasks: Map::empty(), functions_target: None }),
    {
        TasksState::new()
    }
}

/// The state after it was noted how the dispatch of a task ended.
pub open spec fn with_status(
    v: TasksView,
    name: Seq<char>,
    status: TaskStatus,
    now_ms: u64,
) -> TasksView {
    if v.tasks.contains_key(name) {
        TasksView {
            tasks: v.tasks.insert(
                name,
                TaskView { status, dispatched_at_ms: Some(now_ms), ..v.tasks[name] },
            ),
            ..v
        }
    } else {
        v
    }
}

/// The state after a task was deleted.
pub open spec fn delete_step(v: TasksView, name: Seq<char>) -> (TasksView, Result<(), TasksError>) {
    if v.tasks.contains_key(name) {
        (
            TasksView {
                tasks: v.tasks.insert(
                    name,
                    TaskView { status: TaskStatus::Deleted, ..v.tasks[name] },
                ),
                ..v
            },
            Ok(()),
        )
    } else {
        (v, Err(TasksError::NotFound))
    }
}

/// The task of that name, where there is one that is not deleted.
pub open spec fn live_task(v: TasksView, name: Seq<char>) -> Option<Task> {
    if v.tasks.contains_key(name) && v.tasks[name].status != TaskStatus::Deleted {
        Some(v.tasks[name].task)
    } else {
        None
    }
}

impl TasksState {
    /// No tasks yet.
    pub fn new() -> (r: TasksState)
        ensures
            r.deep_view() == (TasksView { tasks: Map::empty(), functions_target: None }),
    {
        TasksState { tasks: TextMap::new(), functions_target: None }
    }

    /// Sets the worker that takes the tasks of functions.
    pub fn set_functions_target(&mut self, target: FunctionsTarget)
        ensures
            final(self).deep_view() == (TasksView {
                functions_target: Some(target),
                ..old(self).deep_view()
            }),
    {
        self.functions_target = Some(target);
    }

    /// Keeps a new task, under its own name or one with the id `id`, and gives the name.
    pub fn begin_task(&mut self, queue: &str, task: Task, id: &str, now_ms: u64) -> (r: Result<
        String,
        TasksError,
    >)
        ensures
            begun(old(self).deep_view(), final(self).deep_view(), r, task, queue@, id@, now_ms),
    {
        let name = match &task.name {
            Some(name) => name.clone(),
            None => task_name(queue, id),
        };
        if self.tasks.contains_key(name.as_str()) {
            return Err(TasksError::AlreadyExists);
        }
        let record = TaskRecord {
            task: Task {
                name: Some(name.clone()),
                http_request: task.http_request,
                schedule_time: task.schedule_time,
                dispatch_deadline: task.dispatch_deadline,
            },
            queue_name: queue.to_owned(),
            status: TaskStatus::Created,
            created_at_ms: now_ms,
            dispatched_at_ms: None,
        };
        self.tasks.insert(name.clone(), record);
        Ok(name)
    }

    /// Keeps a new task, under its own name or one with a random id, and gives the name.
    pub fn create_task(&mut self, queue: &str, task: Task, now_ms: u64) -> (r: Result<
        String,
        TasksError,
    >)
        ensures
            exists|id: Seq<char>|
                is_uuid(id) && #[trigger] begun(
                    old(self).deep_view(),
                    final(self).deep_view(),
                    r,
                    task,
                    queue@,
                    id,
                    now_ms,
                ),
    {
        let id = random_uuid();
        self.begin_task(queue, task, id.as_str(), now_ms)
    }

    /// Notes how the dispatch of a task ended.
    pub fn update_task_status(&mut self, name: &str, status: TaskStatus, now_ms: u64)
        ensures
            final(self).deep_view() == with_status(
                old(self).deep_view(),
                name@,
                status,
                now_ms,
            ),
    {
        let ghost before = self.deep_view().tasks;
        match self.tasks.remove(name) {
            Some(mut record) => {
                record.status = status;
                record.dispatched_at_ms = Some(now_ms);
                let ghost after = record.deep_view();
                self.tasks.insert(name.to_owned(), record);
                assert(before.remove(name@).insert(name@, after) =~= before.insert(name@, after));
            },
            None => {
                assert(before.remove(name@) =~= before);
            },
        }
    }

    /// Deletes a task: it is kept, and its name stays taken, but it is not shown any more.
    pub fn delete_task(&mut self, queue: &str, task_id: &str) -> (r: Result<(), TasksError>)
        ensures
            (final(self).deep_view(), r) == delete_step(
                old(self).deep_view(),
                task_named(queue@, task_id@),
            ),
    {
        let name = task_name(queue, task_id);
        let ghost before = self.deep_view().tasks;
        match self.tasks.remove(name.as_str()) {
            Some(mut record) => {
                record.status = TaskStatus::Deleted;
                let ghost after = record.deep_view();
                self.tasks.insert(name, record);
                assert(before.remove(name@).insert(name@, after) =~= before.insert(name@, after));
                Ok(())
            },
            None => {
                assert(before.remove(name@) =~= before);
                Err(TasksError::NotFound)
            },
        }
    }

    /// A task that is not deleted.
    pub fn get_task(&self, queue: &str, task_id: &str) -> (r: Result<&Task, TasksError>)
        ensures
            match live_task(self.deep_view(), task_named(queue@, task_id@)) {
                Some(task) => r is Ok && *r->Ok_0 == task,
                None => r is Err && r->Err_0 is NotFound,
            },
    {
        let name = task_name(queue, task_id);
        match self.tasks.get(name.as_str()) {
            Some(record) => {
                if record.status == TaskStatus::Deleted {
                    Err(TasksError::NotFound)
                } else {
                    Ok(&record.task)
                }
            },
            None => Err(TasksError::NotFound),
        }
    }

    /// The tasks of a queue that are not deleted, in the order of their names.
    pub fn list_tasks<'a>(&'a self, queue: &str) -> (r: Vec<&'a Task>)
        ensures
            r@ == shown_tasks(listing(self.deep_view().tasks), queue@).as_ref(),
    {
        let ghost all = listing(self.deep_view().tasks);
        let mut r: Vec<&'a Task> = Vec::new();
        let count: usize = self.tasks.len();
        let mut i: usize = 0;
        assert(all.take(0) =~= Seq::empty());
        assert(r@ =~= shown_tasks(all.take(0), queue@).as_ref());
        while i < count
            invariant
                all == listing(self.deep_view().tasks),
                count == all.len(),
                i <= count,
                r@ == shown_tasks(all.take(i as int), queue@).as_ref(),
            decreases count - i,
        {
            assert(all.take(i + 1).drop_last() =~= all.take(i as int));
            assert(all.take(i + 1).last() == all[i as int]);
            let record = self.tasks.value_at(i);
            if same_text(record.queue_name.as_str(), queue) && record.status
                != TaskStatus::Deleted {
                r.push(&record.task);
            }
            i += 1;
            assert(r@ =~= shown_tasks(all.take(i as int), queue@).as_ref());
        }
        assert(all.take(count as int) =~= all);
        r
    }
}

/// The tasks of a queue that are not deleted.
pub open spec fn shown_tasks(pairs: Seq<(Seq<char>, TaskView)>, queue: Seq<char>) -> Seq<Task>
    decreases pairs.len(),
{
    if pairs.len() == 0 {
        Seq::empty()
    } else {
        let before = shown_tasks(pairs.drop_last(), queue);
        if pairs.last().1.queue_name == queue && pairs.last().1.status != TaskStatus::Deleted {
            before.push(pairs.last().1.task)
        } else {
            before
        }
    }
}

/// Whether `c` may stand in the name of an HTTP method.
pub open spec fn is_method_char(c: char) -> bool {
    ||| 'a' <= c <= 'z'
    ||| 'A' <= c <= 'Z'
    ||| '0' <= c <= '9'
    ||| c == '!'
    ||| '#' <= c <= '\''
    ||| c == '*'
    ||| c == '+'
    ||| c == '-'
    ||| c == '.'
    ||| '^' <= c <= '`'
    ||| c == '|'
    ||| c == '~'
}

/// Whether a text is the name of an HTTP method.
pub open spec fn is_method(s: Seq<char>) -> bool {
    s.len() > 0 && forall|i: int| 0 <= i < s.len() ==> is_method_char(#[trigger] s[i])
}

/// `<reqwest::Method as FromStr>::from_str`: it takes a text that is not empty and all of token
/// characters.
#[verifier::external_body]
fn method_parses(text: &str) -> (r: bool)
    ensures
        r == is_method(text@),
{
    text.parse::<reqwest::Method>().is_ok()
}

/// The scheme of a URL and its host, if it has one, as `reqwest::Url::parse` reads them; `None`
/// for a text that it refuses.
pub uninterp spec fn parsed_url(text: Seq<char>) -> Option<(Seq<char>, Option<Seq<char>>)>;

/// `reqwest::Url::parse`, with `scheme` and `host_str` of what it reads, all of which depend on
/// the text alone.
#[verifier::external_body]
fn parse_url(text: &str) -> (r: Option<(String, Option<String>)>)
    ensures
        r.deep_view() == parsed_url(text@),
{
    reqwest::Url::parse(text).ok().map(
        |url| (url.scheme().to_string(), url.host_str().map(|host| host.to_string())),
    )
}

/// Whether `c` may stand in an IPv4 address.
pub open spec fn is_address_char(c: char) -> bool {
    is_digit(c) || c == '.'
}

/// Whether a text is made of digits and dots alone.
pub open spec fn all_address_chars(s: Seq<char>) -> bool {
    forall|i: int| 0 <= i < s.len() ==> is_address_char(#[trigger] s[i])
}

fn has_address_chars_only(s: &str) -> (r: bool)
    ensures
        r == all_address_chars(s@),
{
    let chars = chars_of(s);
    let mut i: usize = 0;
    while i < chars.len()
        invariant
            i <= chars@.len(),
            chars@ == s@,
            forall|j: int| 0 <= j < i ==> is_address_char(#[trigger] s@[j]),
        decreases chars@.len() - i,
    {
        let c = chars[i];
        if !(('0' <= c && c <= '9') || c == '.') {
            assert(!is_address_char(s@[i as int]));
            return false;
        }
        i += 1;
    }
    true
}

/// Whether a host is this machine: by name, or by an address that loops back to it.
pub open spec fn is_local(host: Seq<char>) -> bool {
    ||| host == "localhost"@
    ||| host == "[::1]"@
    ||| match without_prefix(host, "127."@) {
        Some(rest) => all_address_chars(rest),
        None => false,
    }
}

/// Whether a host is this machine: by name, or by an address that loops back to it.
pub fn is_local_host(host: &str) -> (r: bool)
    ensures
        r == is_local(host@),
{
    if same_text(host, "localhost") || same_text(host, "[::1]") {
        return true;
    }
    match strip_prefix(host, "127.") {
        Some(rest) => has_address_chars_only(rest),
        None => false,
    }
}

/// Why a URL with this scheme and host cannot be asked: it is not of `http`, or it has no host.
pub open spec fn url_refusal(url: Option<(Seq<char>, Option<Seq<char>>)>) -> Option<TasksError> {
    match url {
        None => Some(TasksError::InvalidTaskUrl),
        Some((scheme, host)) => if scheme != "http"@ {
            Some(TasksError::UnsupportedTaskUrlScheme)
        } else if host is None {
            Some(TasksError::InvalidTaskUrl)
        } else {
            None
        },
    }
}

/// Why a URL with this scheme and host is no target that a task may name: it cannot be asked, or
/// its host is not this machine.
pub open spec fn target_refusal(url: Option<(Seq<char>, Option<Seq<char>>)>) -> Option<TasksError> {
    if url_refusal(url) is Some {
        url_refusal(url)
    } else if !is_local((url->0).1->0) {
        Some(TasksError::InvalidTaskUrl)
    } else {
        None
    }
}

/// Whether a URL with this scheme and host can be asked.
pub fn check_url(url: &Option<(String, Option<String>)>) -> (r: Result<(), TasksError>)
    ensures
        match url_refusal(url.deep_view()) {
            Some(e) => r == Err::<(), TasksError>(e),
            None => r is Ok,
        },
{
    match url {
        None => Err(TasksError::InvalidTaskUrl),
        Some((scheme, host)) => {
            if !same_text(scheme.as_str(), "http") {
                Err(TasksError::UnsupportedTaskUrlScheme)
            } else if host.is_none() {
                Err(TasksError::InvalidTaskUrl)
            } else {
                Ok(())
            }
        },
    }
}

/// Whether a URL with this scheme and host is a target that a task may name.
pub fn check_target(url: &Option<(String, Option<String>)>) -> (r: Result<(), TasksError>)
    ensures
        match target_refusal(url.deep_view()) {
            Some(e) => r == Err::<(), TasksError>(e),
            None => r is Ok,
        },
{
    if let Err(e) = check_url(url) {
        return Err(e);
    }
    if let Some((_, Some(host))) = url {
        if !is_local_host(host.as_str()) {
            return Err(TasksError::InvalidTaskUrl);
        }
    }
    Ok(())
}

/// Whether a URL is a target that a task may name: dispatch goes to local `http` URLs alone.
pub fn validate_task_target(target: &str) -> (r: Result<(), TasksError>)
    ensures
        match target_refusal(parsed_url(target@)) {
            Some(e) => r == Err::<(), TasksError>(e),
            None => r is Ok,
        },
{
    check_target(&parse_url(target))
}

/// The body of a task's request, which comes in Base64; `None` where it is not.
pub open spec fn body_of(body: Option<Seq<char>>) -> Option<Seq<u8>> {
    match body {
        Some(text) => base64_bytes(text, false),
        None => Some(Seq::empty()),
    }
}

/// The body of a task's request.
pub fn decode_body(body: Option<&str>) -> (r: Result<Vec<u8>, TasksError>)
    ensures
        match body_of(body.deep_view()) {
            Some(bytes) => r is Ok && r->Ok_0@ == bytes,
            None => r is Err && r->Err_0 is InvalidTaskBody,
        },
{
    match body {
        Some(text) => match bytes_of_standard(text) {
            Some(bytes) => {
                assert(bytes.deep_view() =~= bytes@);
                Ok(bytes)
            },
            None => Err(TasksError::InvalidTaskBody),
        },
        None => Ok(Vec::new()),
    }
}

/// Whether the worker takes the tasks of a function of a project.
pub open spec fn target_takes(
    target: Option<FunctionsTarget>,
    project_id: Seq<char>,
    function_name: Seq<char>,
) -> bool {
    target is Some && target->0.project_id@ == project_id && passes(
        target->0.filters.deep_view(),
        function_name,
    )
}

/// Whether a task names the URL that it goes to.
pub open spec fn names_target(url: Option<Seq<char>>) -> bool {
    url is Some && url->0.len() > 0
}

/// Where a task goes: to the URL that it names, or to the worker that takes its queue.
pub open spec fn dispatch_target(
    functions_target: Option<FunctionsTarget>,
    project_id: Seq<char>,
    location_id: Seq<char>,
    queue_id: Seq<char>,
    url: Option<Seq<char>>,
) -> Option<Seq<char>> {
    if names_target(url) {
        url
    } else if target_takes(functions_target, project_id, queue_id) {
        Some(
            "http://"@ + functions_target->0.functions_host@ + ":"@ + decimal(
                functions_target->0.functions_port as nat,
            ) + "/"@ + project_id + "/"@ + location_id + "/"@ + queue_id,
        )
    } else {
        None
    }
}

/// The method of a task's request: `POST` unless it names another.
pub open spec fn dispatch_method(method: Option<Seq<char>>) -> Seq<char> {
    match method {
        Some(method) => method,
        None => "POST"@,
    }
}

/// The headers that a task passes on: all but those that concern one connection.
pub open spec fn passed_headers(pairs: Seq<(Seq<char>, Seq<char>)>) -> Seq<(Seq<char>, Seq<char>)>
    decreases pairs.len(),
{
    if pairs.len() == 0 {
        Seq::empty()
    } else {
        let before = passed_headers(pairs.drop_last());
        if is_hop_by_hop(pairs.last().0) {
            before
        } else {
            before.push(pairs.last())
        }
    }
}

/// The headers of the request that dispatches a task.
pub open spec fn dispatch_headers(
    headers: Map<Seq<char>, Seq<char>>,
    queue: Seq<char>,
    name: Seq<char>,
) -> Seq<(Seq<char>, Seq<char>)> {
    passed_headers(listing(headers)) + seq![
        ("X-CloudTasks-QueueName"@, queue),
        ("X-CloudTasks-TaskName"@, name),
        ("X-CloudTasks-TaskRetryCount"@, "0"@),
        ("X-CloudTasks-TaskExecutionCount"@, "0"@),
    ]
}

/// The request that dispatches a task.
#[derive(Debug)]
pub struct DispatchPlan {
    pub target: String,
    pub method: String,
    pub headers: Vec<(String, String)>,
    pub body: Vec<u8>,
}

/// What the request that dispatches a task holds.
#[verifier::ext_equal]
pub struct DispatchView {
    pub target: Seq<char>,
    pub method: Seq<char>,
    pub headers: Seq<(Seq<char>, Seq<char>)>,
    pub body: Seq<u8>,
}

impl DeepView for DispatchPlan {
    type V = DispatchView;

    open spec fn deep_view(&self) -> DispatchView {
        DispatchView {
            target: self.target@,
            method: self.method@,
            headers: self.headers.deep_view(),
            body: self.body@,
        }
    }
}

/// The request that dispatches a task, or why there is none. A URL that the task names has to be
/// local; that of the worker is wherever the worker was set up.
pub open spec fn dispatch_plan(
    functions_target: Option<FunctionsTarget>,
    project_id: Seq<char>,
    location_id: Seq<char>,
    queue_id: Seq<char>,
    task: Task,
) -> Result<DispatchView, TasksError> {
    match dispatch_target(
        functions_target,
        project_id,
        location_id,
        queue_id,
        task.http_request.url.deep_view(),
    ) {
        None => Err(TasksError::NoFunctionsWorker),
        Some(target) => {
            let method = dispatch_method(task.http_request.http_method.deep_view());
            if !is_method(method) {
                Err(TasksError::InvalidHttpMethod)
            } else {
                match if names_target(task.http_request.url.deep_view()) {
                    target_refusal(parsed_url(target))
                } else {
                    url_refusal(parsed_url(target))
                } {
                    Some(e) => Err(e),
                    None => match body_of(task.http_request.body.deep_view()) {
                        None => Err(TasksError::InvalidTaskBody),
                        Some(body) => Ok(
                            DispatchView {
                                target,
                                method,
                                headers: dispatch_headers(
                                    task.http_request.headers.deep_view(),
                                    queue_named(project_id, location_id, queue_id),
                                    match task.name {
                                        Some(name) => name@,
                                        None => Seq::empty(),
                                    },
                                ),
                                body,
                            },
                        ),
                    },
                }
            }
        },
    }
}

fn pair(name: &str, value: &str) -> (r: (String, String))
    ensures
        r.deep_view() == (name@, value@),
{
    (name.to_owned(), value.to_owned())
}

fn make_headers(headers: &TextMap<String>, queue: &str, name: &str) -> (r: Vec<(String, String)>)
    ensures
        r.deep_view() == dispatch_headers(headers.deep_view(), queue@, name@),
{
    let ghost all = listing(headers.deep_view());
    let mut r: Vec<(String, String)> = Vec::new();
    let count: usize = headers.len();
    let mut i: usize = 0;
    assert(all.take(0) =~= Seq::empty());
    assert(r.deep_view() =~= Seq::empty());
    while i < count
        invariant
            all == listing(headers.deep_view()),
            count == all.len(),
            i <= count,
            r.deep_view() == passed_headers(all.take(i as int)),
        decreases count - i,
    {
        let ghost before = r.deep_view();
        assert(all.take(i + 1).drop_last() =~= all.take(i as int));
        assert(all.take(i + 1).last() == all[i as int]);
        if !is_hop_by_hop_header(headers.key_at(i).as_str()) {
            r.push(pair(headers.key_at(i).as_str(), headers.value_at(i).as_str()));
            assert(r.deep_view() =~= before.push(all[i as int]));
        }
        i += 1;
    }
    assert(all.take(count as int) =~= all);
    let ghost passed = r.deep_view();
    r.push(pair("X-CloudTasks-QueueName", queue));
    r.push(pair("X-CloudTasks-TaskName", name));
    r.push(pair("X-CloudTasks-TaskRetryCount", "0"));
    r.push(pair("X-CloudTasks-TaskExecutionCount", "0"));
    assert(r.deep_view() =~= dispatch_headers(headers.deep_view(), queue@, name@));
    r
}

impl TasksState {
    /// The worker that takes the tasks of a function of a project.
    pub fn find_functions_target(&self, project_id: &str, function_name: &str) -> (r: Option<
        &FunctionsTarget,
    >)
        ensures
            r is Some == target_takes(
                self.deep_view().functions_target,
                project_id@,
                function_name@,
            ),
            r matches Some(target) ==> Some(*target) == self.deep_view().functions_target,
    {
        match &self.functions_target {
            Some(target) => {
                if same_text(target.project_id.as_str(), project_id) && passes_filters(
                    &target.filters,
                    function_name,
                ) {
                    Some(target)
                } else {
                    None
                }
            },
            None => None,
        }
    }

    /// The request that dispatches a task.
    pub fn plan_dispatch(
        &self,
        project_id: &str,
        location_id: &str,
        queue_id: &str,
        task: &Task,
    ) -> (r: Result<DispatchPlan, TasksError>)
        ensures
            match dispatch_plan(
                self.deep_view().functions_target,
                project_id@,
                location_id@,
                queue_id@,
                *task,
            ) {
                Ok(plan) => r is Ok && r->Ok_0.deep_view() == plan,
                Err(e) => r == Err::<DispatchPlan, TasksError>(e),
            },
    {
        let named = match &task.http_request.url {
            Some(url) => if url.as_str().is_empty() {
                None
            } else {
                Some(url.clone())
            },
            None => None,
        };
        let is_named = named.is_some();
        let target = match named {
            Some(url) => url,
            None => match self.find_functions_target(project_id, queue_id) {
                Some(worker) => {
                    let mut url = join3("http://", worker.functions_host.as_str(), ":");
                    url.append(decimal_text(worker.functions_port as u64).as_str());
                    url.append("/");
                    url.append(project_id);
                    url.append("/");
                    url.append(location_id);
                    url.append("/");
                    url.append(queue_id);
                    url
                },
                None => {
                    return Err(TasksError::NoFunctionsWorker);
                },
            },
        };
        let method = match &task.http_request.http_method {
            Some(method) => method.clone(),
            None => "POST".to_owned(),
        };
        if !method_parses(method.as_str()) {
            return Err(TasksError::InvalidHttpMethod);
        }
        let checked = if is_named {
            validate_task_target(target.as_str())
        } else {
            check_url(&parse_url(target.as_str()))
        };
        if let Err(e) = checked {
            return Err(e);
        }
        let given = match &task.http_request.body {
            Some(body) => Some(body.as_str()),
            None => None,
        };
        let body = match decode_body(given) {
            Ok(body) => body,
            Err(_) => {
                return Err(TasksError::InvalidTaskBody);
            },
        };
        let name: &str = match &task.name {
            Some(name) => name.as_str(),
            None => "",
        };
        proof {
            reveal_strlit("");
            assert(""@ =~= Seq::<char>::empty());
        }
        let queue = queue_name(project_id, location_id, queue_id);
        let headers = make_headers(&task.http_request.headers, queue.as_str(), name);
        Ok(DispatchPlan { target, method, headers, body })
    }
}

/// The last place at or before `end` where a character starts or the text ends.
pub open spec fn boundary_before(bytes: Seq<u8>, end: int) -> int
    decreases end,
{
    if end <= 0 || is_char_boundary(bytes, end) {
        end
    } else {
        boundary_before(bytes, end - 1)
    }
}

/// A text of at most 800 bytes, or as much of it as fits them with dots behind.
pub open spec fn truncated(detail: Seq<char>) -> Seq<char> {
    let bytes = encode_utf8(detail);
    if bytes.len() <= 800 {
        detail
    } else {
        decode_utf8(bytes.take(boundary_before(bytes, 800))) + "..."@
    }
}

/// A text of at most 800 bytes, or as much of it as fits them with dots behind.
pub fn truncate_error_detail(detail: &str) -> (r: String)
    ensures
        r@ == truncated(detail@),
{
    let bytes = detail.as_bytes();
    if bytes.len() <= 800 {
        return detail.to_owned();
    }
    let ghost all = bytes@;
    let mut end: usize = 800;
    proof {
        encode_utf8_valid_utf8(detail@);
        is_char_boundary_start_end_of_seq(all);
    }
    while !detail.is_char_boundary(end)
        invariant
            all == encode_utf8(detail@),
            is_char_boundary(all, 0),
            end <= 800,
            boundary_before(all, 800) == boundary_before(all, end as int),
        decreases end,
    {
        end -= 1;
    }
    let (head, _) = detail.split_at(end);
    proof {
        encode_utf8_decode_utf8(head@);
        assert(encode_utf8(head@) =~= all.take(end as int));
    }
    let mut r = head.to_owned();
    r.append("...");
    r
}

/// What is said of a target that answered with a failure.
pub open spec fn target_failure(status: u16, body: Seq<char>) -> Seq<char> {
    let detail = trimmed(body);
    let head = "TASK_DISPATCH_HTTP_"@ + decimal(status as nat);
    if detail.len() == 0 {
        head
    } else {
        head + ": "@ + truncated(detail)
    }
}

/// Whether the answer of a target is a success, by its status.
pub open spec fn is_success(status: u16) -> bool {
    200 <= status < 300
}

/// What failed in a dispatch, by the answer of the target: nothing, that there was no answer, or
/// what is told of the answer.
pub open spec fn failure_of(answer: Option<(u16, Seq<char>)>) -> Option<Option<Seq<char>>> {
    match answer {
        None => Some(None),
        Some((status, body)) => if is_success(status) {
            None
        } else {
            Some(Some(target_failure(status, body)))
        },
    }
}

/// What comes of a dispatch, by the answer of the target: `None` where there was none.
pub fn dispatch_result(answer: Option<(u16, &str)>) -> (r: Result<(), TasksError>)
    ensures
        match failure_of(answer.deep_view()) {
            None => r is Ok,
            Some(None) => r is Err && r->Err_0 is TaskDispatchFailed,
            Some(Some(text)) => r is Err && r->Err_0 is TargetFailed && r->Err_0.text() == text,
        },
{
    match answer {
        None => Err(TasksError::TaskDispatchFailed),
        Some((status, body)) => {
            if 200 <= status && status < 300 {
                return Ok(());
            }
            let detail = trim(body);
            let mut message = join2("TASK_DISPATCH_HTTP_", decimal_text(status as u64).as_str());
            if !detail.is_empty() {
                message.append(": ");
                message.append(truncate_error_detail(detail).as_str());
            }
            Err(TasksError::TargetFailed(message))
        },
    }
}

/// How far a task is once it was dispatched.
pub open spec fn ended_as(succeeded: bool) -> TaskStatus {
    if succeeded {
        TaskStatus::Succeeded
    } else {
        TaskStatus::Failed
    }
}

/// The status of a task after its dispatch.
pub fn status_after(result: &Result<(), TasksError>) -> (r: TaskStatus)
    ensures
        r == ended_as(*result is Ok),
{
    match result {
        Ok(_) => TaskStatus::Succeeded,
        Err(_) => TaskStatus::Failed,
    }
}

/// A task goes nowhere but to this machine and to the worker that was set up.
pub proof fn dispatch_stays_local(
    functions_target: Option<FunctionsTarget>,
    project_id: Seq<char>,
    location_id: Seq<char>,
    queue_id: Seq<char>,
    task: Task,
)
    requires
        dispatch_plan(functions_target, project_id, location_id, queue_id, task) is Ok,
    ensures
        ({
            let target = dispatch_plan(
                functions_target,
                project_id,
                location_id,
                queue_id,
                task,
            )->Ok_0.target;
            let url = parsed_url(target);
            &&& url is Some && (url->0).0 == "http"@ && (url->0).1 is Some
            &&& is_local((url->0).1->0) || (target_takes(functions_target, project_id, queue_id)
                && ("http://"@ + functions_target->0.functions_host@ + ":"@).is_prefix_of(target))
        }),
{
    let plan = dispatch_plan(functions_target, project_id, location_id, queue_id, task);
    if !names_target(task.http_request.url.deep_view()) {
        let start = "http://"@ + functions_target->0.functions_host@ + ":"@;
        assert(start =~= plan->Ok_0.target.subrange(0, start.len() as int));
    }
}

/// A list shows the tasks of the queue that are not deleted, and no others.
pub proof fn list_shows_live_tasks(pairs: Seq<(Seq<char>, TaskView)>, queue: Seq<char>)
    ensures
        forall|i: int|
            0 <= i < shown_tasks(pairs, queue).len() ==> exists|k: int|
                0 <= k < pairs.len() && #[trigger] shown_tasks(pairs, queue)[i] == (
                #[trigger] pairs[k]).1.task && pairs[k].1.queue_name == queue && pairs[k].1.status
                    != TaskStatus::Deleted,
        forall|k: int|
            0 <= k < pairs.len() && (#[trigger] pairs[k]).1.queue_name == queue
                && pairs[k].1.status != TaskStatus::Deleted ==> shown_tasks(
                pairs,
                queue,
            ).contains(pairs[k].1.task),
    decreases pairs.len(),
{
    if pairs.len() > 0 {
        let head = pairs.drop_last();
        list_shows_live_tasks(head, queue);
        let before = shown_tasks(head, queue);
        let all = shown_tasks(pairs, queue);
        assert forall|i: int| 0 <= i < all.len() implies exists|k: int|
            0 <= k < pairs.len() && #[trigger] all[i] == (#[trigger] pairs[k]).1.task
                && pairs[k].1.queue_name == queue && pairs[k].1.status != TaskStatus::Deleted by {
            if i < before.len() {
                assert(all[i] == before[i]);
                let k = choose|k: int|
                    0 <= k < head.len() && before[i] == (#[trigger] head[k]).1.task
                        && head[k].1.queue_name == queue && head[k].1.status
                        != TaskStatus::Deleted;
                assert(pairs[k] == head[k]);
            } else {
                assert(all[i] == pairs[pairs.len() - 1].1.task);
            }
        }
        assert forall|k: int|
            0 <= k < pairs.len() && (#[trigger] pairs[k]).1.queue_name == queue
                && pairs[k].1.status != TaskStatus::Deleted implies all.contains(
            pairs[k].1.task,
        ) by {
            if k < head.len() {
                assert(head[k] == pairs[k]);
                assert(before.contains(head[k].1.task));
                let i = choose|i: int| 0 <= i < before.len() && before[i] == head[k].1.task;
                assert(all[i] == before[i]);
            } else {
                assert(all[all.len() - 1] == pairs[k].1.task);
            }
        }
    }
}

/// A task that was created is shown in its queue.
pub proof fn created_task_is_shown(
    v: TasksView,
    w: TasksView,
    r: Result<String, TasksError>,
    task: Task,
    queue: Seq<char>,
    id: Seq<char>,
    now_ms: u64,
)
    requires
        can_list(v.tasks),
        begun(v, w, r, task, queue, id, now_ms),
        r is Ok,
    ensures
        shown_tasks(listing(w.tasks), queue).contains(w.tasks[r->Ok_0@].task),
{
    let name = r->Ok_0@;
    insertion_can_list(v.tasks, name, w.tasks[name]);
    let pairs = listing(w.tasks);
    assert(w.tasks.contains_key(name));
    let k = choose|k: int| 0 <= k < pairs.len() && (#[trigger] pairs[k]).0 == name;
    list_shows_live_tasks(pairs, queue);
    assert(pairs[k].1 == w.tasks[name]);
}

/// Whether a task is among those kept under another name than `name`.
pub open spec fn kept_elsewhere(tasks: Map<Seq<char>, TaskView>, name: Seq<char>, task: Task) -> bool {
    exists|other: Seq<char>| #[trigger]
        tasks.contains_key(other) && other != name && tasks[other].task == task
}

/// A task that was deleted is not shown any more: what a list shows is kept under other names.
pub proof fn deleted_task_is_not_shown(
    tasks: Map<Seq<char>, TaskView>,
    name: Seq<char>,
    queue: Seq<char>,
)
    requires
        can_list(tasks),
        tasks.contains_key(name),
    ensures
        ({
            let after = tasks.insert(
                name,
                TaskView { status: TaskStatus::Deleted, ..tasks[name] },
            );
            forall|i: int|
                0 <= i < shown_tasks(listing(after), queue).len() ==> kept_elsewhere(
                    after,
                    name,
                    #[trigger] shown_tasks(listing(after), queue)[i],
                )
        }),
{
    let deleted = TaskView { status: TaskStatus::Deleted, ..tasks[name] };
    let after = tasks.insert(name, deleted);
    insertion_can_list(tasks, name, deleted);
    let pairs = listing(after);
    let shown = shown_tasks(pairs, queue);
    list_shows_live_tasks(pairs, queue);
    assert forall|i: int| 0 <= i < shown.len() implies kept_elsewhere(
        after,
        name,
        #[trigger] shown[i],
    ) by {
        let k = choose|k: int|
            0 <= k < pairs.len() && shown[i] == (#[trigger] pairs[k]).1.task
                && pairs[k].1.queue_name == queue && pairs[k].1.status != TaskStatus::Deleted;
        assert(after.contains_key(pairs[k].0) && after[pairs[k].0] == pairs[k].1);
    }
}

/// The name of a task stays taken, also when the task was dispatched or deleted: a second task of
/// that name is refused.
pub proof fn task_name_stays_taken(
    v: TasksView,
    w: TasksView,
    r: Result<String, TasksError>,
    task: Task,
    queue: Seq<char>,
    id: Seq<char>,
    now_ms: u64,
    kept: TaskView,
)
    requires
        task.name is Some,
        v.tasks.contains_key(task.name->0@),
        begun(
            TasksView { tasks: v.tasks.insert(task.name->0@, kept), ..v },
            w,
            r,
            task,
            queue,
            id,
            now_ms,
        ),
    ensures
        r is Err,
        r->Err_0 is AlreadyExists,
{
}

/// Each refusal is answered with its own status and message.
pub proof fn refusal_is_told(e: TasksError)
    ensures
        e is AlreadyExists ==> e.code() == 409 && e.text() == "ALREADY_EXISTS"@,
        e is NotFound ==> e.code() == 404 && e.text() == "NOT_FOUND"@,
        e is NoFunctionsWorker ==> e.code() == 404 && e.text() == "NO_FUNCTIONS_WORKER"@,
        e is InvalidHttpMethod ==> e.code() == 400 && e.text() == "INVALID_HTTP_METHOD"@,
        e is InvalidTaskUrl ==> e.code() == 400 && e.text() == "INVALID_TASK_URL"@,
        e is UnsupportedTaskUrlScheme ==> e.code() == 400 && e.text() == "UNSUPPORTED_TASK_URL_SCHEME"@,
        e is InvalidTaskBody ==> e.code() == 400 && e.text() == "INVALID_TASK_BODY"@,
        e is TaskDispatchFailed ==> e.code() == 502 && e.text() == "TASK_DISPATCH_FAILED"@,
{
}

/// A list shows the tasks of the queue that are not deleted, each once and in the order of their
/// names.
pub proof fn list_keeps_order(pairs: Seq<(Seq<char>, TaskView)>, queue: Seq<char>)
    ensures
        shown_tasks(pairs, queue) == pairs.filter(
            |pair: (Seq<char>, TaskView)|
                pair.1.queue_name == queue && !(pair.1.status is Deleted),
        ).map_values(|pair: (Seq<char>, TaskView)| pair.1.task),
    decreases pairs.len(),
{
    reveal(Seq::filter);
    let live = |pair: (Seq<char>, TaskView)|
        pair.1.queue_name == queue && !(pair.1.status is Deleted);
    let task = |pair: (Seq<char>, TaskView)| pair.1.task;
    let shown = pairs.filter(live).map_values(task);
    if pairs.len() > 0 {
        let head = pairs.drop_last();
        list_keeps_order(head, queue);
        if live(pairs.last()) {
            assert(shown =~= head.filter(live).map_values(task).push(pairs.last().1.task));
        } else {
            assert(shown =~= head.filter(live).map_values(task));
        }
    } else {
        assert(shown =~= Seq::empty());
    }
}

} // verus!
