//! Where a task goes, what goes with it, and what is kept of it.

use crate::base64_text::base64_bytes;
use crate::decimal::decimal;
use crate::functions::laws::{filters_pass_what_comes_under, under};
use crate::functions::routes::is_hop_by_hop;
use crate::tasks::{
    all_address_chars, begun, boundary_before, delete_step, dispatch_plan, ended_as, failure_of,
    is_address_char, is_local, is_method, is_method_char, live_task, parsed_url, passed_headers,
    truncated, with_status, DispatchView, FunctionsTarget, Task, TaskStatus, TasksError, TasksView,
};
use crate::text_map::listing;
use crate::trim::trimmed;
use vstd::prelude::*;
use vstd::utf8::{
    decode_utf8, encode_utf8, encode_utf8_valid_utf8, is_char_boundary,
    is_char_boundary_start_end_of_seq,
};

verus! {

/// Whether a worker takes what is put in a queue: it serves the project, and has no filters or one
/// that the queue comes under.
pub open spec fn worker_takes(
    worker: Option<FunctionsTarget>,
    project_id: Seq<char>,
    queue_id: Seq<char>,
) -> bool {
    &&& worker is Some
    &&& worker->0.project_id@ == project_id
    &&& worker->0.filters.deep_view().len() == 0 || exists|i: int|
        0 <= i < worker->0.filters.deep_view().len() && under(
            queue_id,
            #[trigger] worker->0.filters.deep_view()[i],
        )
}

/// Whether an address is one over plain HTTP that names a host.
pub open spec fn names_host(address: Seq<char>) -> bool {
    &&& parsed_url(address) is Some
    &&& (parsed_url(address)->0).0 == "http"@
    &&& (parsed_url(address)->0).1 is Some
}

/// A task that names an address goes to that address, whatever worker there is; only one that
/// names none goes to the worker of its queue, under the path of its project, place and queue. A
/// task that names none and whose queue no worker takes goes nowhere.
pub proof fn task_goes_where_it_says(
    worker: Option<FunctionsTarget>,
    project_id: Seq<char>,
    location_id: Seq<char>,
    queue_id: Seq<char>,
    task: Task,
)
    ensures
        ({
            let r = dispatch_plan(worker, project_id, location_id, queue_id, task);
            let url = task.http_request.url.deep_view();
            let named = url is Some && url->0.len() > 0;
            &&& !named && !worker_takes(worker, project_id, queue_id) ==> r == Err::<
                DispatchView,
                _,
            >(TasksError::NoFunctionsWorker)
            &&& r is Ok && named ==> r->Ok_0.target == url->0
            &&& r is Ok && !named ==> worker_takes(worker, project_id, queue_id)
                && r->Ok_0.target == "http://"@ + worker->0.functions_host@ + ":"@ + decimal(
                worker->0.functions_port as nat,
            ) + "/"@ + project_id + "/"@ + location_id + "/"@ + queue_id
        }),
{
    if worker is Some {
        filters_pass_what_comes_under(worker->0.filters.deep_view(), queue_id);
    }
}

/// A task is sent with the method it gives, or else with `POST`; with the bytes that its body
/// stands for, or else with none; and with its own headers, but for those that are not passed on,
/// in front of the names of its queue and of itself.
pub proof fn task_takes_along_what_it_holds(
    worker: Option<FunctionsTarget>,
    project_id: Seq<char>,
    location_id: Seq<char>,
    queue_id: Seq<char>,
    task: Task,
)
    ensures
        ({
            let r = dispatch_plan(worker, project_id, location_id, queue_id, task);
            let plan = r->Ok_0;
            let request = task.http_request;
            r is Ok ==> {
                &&& request.http_method is Some ==> plan.method == request.http_method->0@
                &&& request.http_method is None ==> plan.method == "POST"@
                &&& request.body is None ==> plan.body.len() == 0
                &&& request.body is Some ==> base64_bytes(request.body->0@, false) == Some(
                    plan.body,
                )
                &&& plan.headers == listing(request.headers.deep_view()).filter(
                    |pair: (Seq<char>, Seq<char>)| !is_hop_by_hop(pair.0),
                ) + seq![
                    (
                        "X-CloudTasks-QueueName"@,
                        "projects/"@ + project_id + "/locations/"@ + location_id + "/queues/"@
                            + queue_id,
                    ),
                    (
                        "X-CloudTasks-TaskName"@,
                        if task.name is Some {
                            task.name->0@
                        } else {
                            Seq::empty()
                        },
                    ),
                    ("X-CloudTasks-TaskRetryCount"@, "0"@),
                    ("X-CloudTasks-TaskExecutionCount"@, "0"@),
                ]
            }
        }),
{
    passed_are_kept_in_order(listing(task.http_request.headers.deep_view()));
}

proof fn passed_are_kept_in_order(pairs: Seq<(Seq<char>, Seq<char>)>)
    ensures
        passed_headers(pairs) == pairs.filter(
            |pair: (Seq<char>, Seq<char>)| !is_hop_by_hop(pair.0),
        ),
    decreases pairs.len(),
{
    reveal(Seq::filter);
    if pairs.len() > 0 {
        passed_are_kept_in_order(pairs.drop_last());
    }
}

/// A task can be sent where there is somewhere to send it, its method is one of HTTP, its target is
/// an address over plain HTTP with a host, which is this machine where the task names it, and its
/// body can be decoded. Each of these that fails has its own answer, the first that fails.
#[verifier::rlimit(50)]
pub proof fn task_can_be_sent(
    worker: Option<FunctionsTarget>,
    project_id: Seq<char>,
    location_id: Seq<char>,
    queue_id: Seq<char>,
    task: Task,
)
    ensures
        ({
            let r = dispatch_plan(worker, project_id, location_id, queue_id, task);
            let request = task.http_request;
            let url = request.url.deep_view();
            let named = url is Some && url->0.len() > 0;
            let target = if named {
                url->0
            } else {
                "http://"@ + worker->0.functions_host@ + ":"@ + decimal(
                    worker->0.functions_port as nat,
                ) + "/"@ + project_id + "/"@ + location_id + "/"@ + queue_id
            };
            let somewhere = named || worker_takes(worker, project_id, queue_id);
            let method = request.http_method is None || is_method(request.http_method->0@);
            let address = parsed_url(target);
            let near = !named || is_local((address->0).1->0);
            let body = request.body is None || base64_bytes(request.body->0@, false) is Some;
            &&& r is Ok <==> somewhere && method && names_host(target) && near && body
            &&& somewhere && !method ==> r == Err::<DispatchView, _>(TasksError::InvalidHttpMethod)
            &&& somewhere && method && address is None ==> r == Err::<DispatchView, _>(
                TasksError::InvalidTaskUrl,
            )
            &&& somewhere && method && address is Some && (address->0).0 != "http"@ ==> r == Err::<
                DispatchView,
                _,
            >(TasksError::UnsupportedTaskUrlScheme)
            &&& somewhere && method && address is Some && (address->0).0 == "http"@ && ((
            address->0).1 is None || !near) ==> r == Err::<DispatchView, _>(
                TasksError::InvalidTaskUrl,
            )
            &&& somewhere && method && names_host(target) && near && !body ==> r == Err::<
                DispatchView,
                _,
            >(TasksError::InvalidTaskBody)
        }),
{
    if worker is Some {
        filters_pass_what_comes_under(worker->0.filters.deep_view(), queue_id);
    }
    reveal_strlit("POST");
    assert(is_method("POST"@)) by {
        assert forall|i: int| 0 <= i < "POST"@.len() implies is_method_char(
            #[trigger] "POST"@[i],
        ) by {
            assert("POST"@[0] == 'P' && "POST"@[1] == 'O' && "POST"@[2] == 'S' && "POST"@[3]
                == 'T');
        }
    }
}

/// A method is a word of letters, digits and the marks that HTTP allows in one.
pub proof fn method_is_one_word(s: Seq<char>)
    ensures
        is_method(s) <==> s.len() > 0 && forall|i: int|
            0 <= i < s.len() ==> ('a' <= #[trigger] s[i] <= 'z') || ('A' <= s[i] <= 'Z') || ('0'
                <= s[i] <= '9') || seq![
                '!',
                '#',
                '$',
                '%',
                '&',
                '\'',
                '*',
                '+',
                '-',
                '.',
                '^',
                '_',
                '`',
                '|',
                '~',
            ].contains(s[i]),
{
    let marks = seq!['!', '#', '$', '%', '&', '\'', '*', '+', '-', '.', '^', '_', '`', '|', '~'];
    assert(marks[0] == '!' && marks[1] == '#' && marks[2] == '$' && marks[3] == '%' && marks[4]
        == '&' && marks[5] == '\'' && marks[6] == '*' && marks[7] == '+' && marks[8] == '-'
        && marks[9] == '.' && marks[10] == '^' && marks[11] == '_' && marks[12] == '`' && marks[13]
        == '|' && marks[14] == '~');
    assert forall|c: char|
        ('a' <= c <= 'z') || ('A' <= c <= 'Z') || ('0' <= c <= '9') || #[trigger] marks.contains(
            c,
        ) <==> is_method_char(c) by {
        if '#' <= c <= '\'' {
            assert(c == marks[1] || c == marks[2] || c == marks[3] || c == marks[4] || c
                == marks[5]);
        }
        if '^' <= c <= '`' {
            assert(c == marks[10] || c == marks[11] || c == marks[12]);
        }
        if c == '!' || c == '*' || c == '+' || c == '-' || c == '.' || c == '|' || c == '~' {
            assert(c == marks[0] || c == marks[6] || c == marks[7] || c == marks[8] || c == marks[9]
                || c == marks[13] || c == marks[14]);
        }
    }
    assert forall|i: int| 0 <= i < s.len() implies is_method_char(#[trigger] s[i]) == (('a' <= s[i]
        <= 'z') || ('A' <= s[i] <= 'Z') || ('0' <= s[i] <= '9') || marks.contains(s[i])) by {}
}

/// This machine is known by its name, and by its addresses of the fourth and the sixth kind.
pub proof fn this_machine_is_known(host: Seq<char>)
    ensures
        is_local(host) <==> host == "localhost"@ || host == "[::1]"@ || (host.len() >= 4
            && host.take(4) == seq!['1', '2', '7', '.'] && forall|i: int|
            4 <= i < host.len() ==> ('0' <= #[trigger] host[i] <= '9') || host[i] == '.'),
{
    reveal_strlit("127.");
    assert("127."@ =~= seq!['1', '2', '7', '.']);
    if host.len() >= 4 {
        assert(host.subrange(0, 4) =~= host.take(4));
        let rest = host.skip(4);
        assert forall|i: int| 0 <= i < rest.len() implies rest[i] == host[i + 4] by {}
        if "127."@.is_prefix_of(host) && all_address_chars(rest) {
            assert forall|i: int| 4 <= i < host.len() implies ('0' <= #[trigger] host[i] <= '9')
                || host[i] == '.' by {
                assert(is_address_char(rest[i - 4]));
            }
        }
    }
}

/// A task is created under the name it gives, or else under a name of its queue with a new id, and
/// is kept as it came; one whose name is taken is refused. No other task changes.
pub proof fn created_task_is_kept(
    v: TasksView,
    w: TasksView,
    r: Result<String, TasksError>,
    task: Task,
    queue: Seq<char>,
    id: Seq<char>,
    now_ms: u64,
)
    requires
        begun(v, w, r, task, queue, id, now_ms),
    ensures
        ({
            let name = if task.name is Some {
                task.name->0@
            } else {
                queue + "/tasks/"@ + id
            };
            let kept = w.tasks[name];
            &&& v.tasks.contains_key(name) ==> r is Err && r->Err_0 is AlreadyExists && w == v
            &&& !v.tasks.contains_key(name) ==> {
                &&& r is Ok
                &&& r->Ok_0@ == name
                &&& w.tasks == v.tasks.insert(name, kept)
                &&& w.functions_target == v.functions_target
                &&& kept.task.name is Some && kept.task.name->0@ == name
                &&& kept.task.http_request == task.http_request
                &&& kept.task.schedule_time == task.schedule_time
                &&& kept.task.dispatch_deadline == task.dispatch_deadline
                &&& kept.queue_name == queue
                &&& kept.status is Created
                &&& kept.created_at_ms == now_ms
                &&& kept.dispatched_at_ms is None
                &&& live_task(w, name) == Some(kept.task)
            }
        }),
{
}

/// A task that was deleted is found no more, and one that is not there cannot be deleted. What its
/// dispatch came to is noted of the task that was dispatched. Either way all other tasks stay, and
/// what the task asks for stays too.
pub proof fn task_changes_alone(
    v: TasksView,
    name: Seq<char>,
    status: TaskStatus,
    now_ms: u64,
    other: Seq<char>,
)
    ensures
        ({
            let (w, r) = delete_step(v, name);
            let x = with_status(v, name, status, now_ms);
            &&& r is Ok <==> v.tasks.contains_key(name)
            &&& r is Err ==> r == Err::<(), _>(TasksError::NotFound) && w == v
            &&& live_task(w, name) is None
            &&& v.tasks.contains_key(name) ==> w.tasks.contains_key(name) && w.tasks[name].status
                is Deleted && w.tasks[name].task == v.tasks[name].task
            &&& v.tasks.contains_key(name) ==> x.tasks.contains_key(name) && x.tasks[name].status
                == status && x.tasks[name].dispatched_at_ms == Some(now_ms) && x.tasks[name].task
                == v.tasks[name].task && x.tasks[name].queue_name == v.tasks[name].queue_name
                && x.tasks[name].created_at_ms == v.tasks[name].created_at_ms
            &&& !v.tasks.contains_key(name) ==> x == v
            &&& other != name ==> w.tasks.contains_key(other) == v.tasks.contains_key(other)
                && x.tasks.contains_key(other) == v.tasks.contains_key(other)
            &&& other != name && v.tasks.contains_key(other) ==> w.tasks[other] == v.tasks[other]
                && x.tasks[other] == v.tasks[other]
            &&& live_task(v, other) is Some <==> v.tasks.contains_key(other) && !(
            v.tasks[other].status is Deleted)
            &&& live_task(v, other) is Some ==> live_task(v, other)->0 == v.tasks[other].task
        }),
{
}

/// A dispatch succeeds where the target answers with a status of the two hundreds. Where there is
/// no answer that is told, and any other answer is told with its status and what it says.
pub proof fn answer_decides_dispatch(answer: Option<(u16, Seq<char>)>)
    ensures
        ({
            let failed = failure_of(answer);
            let (status, body) = answer->0;
            let head = "TASK_DISPATCH_HTTP_"@ + decimal(status as nat);
            &&& answer is None ==> failed == Some(None::<Seq<char>>)
            &&& answer is Some && 200 <= status <= 299 ==> failed is None
            &&& answer is Some && !(200 <= status <= 299) && trimmed(body).len() == 0 ==> failed
                == Some(Some(head))
            &&& answer is Some && !(200 <= status <= 299) && trimmed(body).len() > 0
                && encode_utf8(trimmed(body)).len() <= 800 ==> failed == Some(
                Some(head + ": "@ + trimmed(body)),
            )
            &&& answer is Some && !(200 <= status <= 299) && trimmed(body).len() > 0 ==> failed
                == Some(Some(head + ": "@ + truncated(trimmed(body))))
        }),
{
}

proof fn boundary_is_near(bytes: Seq<u8>, end: int)
    requires
        0 <= end <= bytes.len(),
        is_char_boundary(bytes, 0),
    ensures
        0 <= boundary_before(bytes, end) <= end,
        is_char_boundary(bytes, boundary_before(bytes, end)),
        forall|i: int| boundary_before(bytes, end) < i <= end ==> !is_char_boundary(bytes, i),
    decreases end,
{
    if end > 0 && !is_char_boundary(bytes, end) {
        boundary_is_near(bytes, end - 1);
    }
}

/// A long text is cut behind the last whole character in its first eight hundred bytes.
pub proof fn long_text_is_cut(detail: Seq<char>)
    ensures
        encode_utf8(detail).len() <= 800 ==> truncated(detail) == detail,
        encode_utf8(detail).len() > 800 ==> exists|n: int|
            #![trigger encode_utf8(detail).take(n)]
            0 <= n <= 800 && is_char_boundary(encode_utf8(detail), n) && (forall|i: int|
                n < i <= 800 ==> !is_char_boundary(encode_utf8(detail), i)) && truncated(detail)
                == decode_utf8(encode_utf8(detail).take(n)) + "..."@,
{
    let bytes = encode_utf8(detail);
    encode_utf8_valid_utf8(detail);
    is_char_boundary_start_end_of_seq(bytes);
    if bytes.len() > 800 {
        boundary_is_near(bytes, 800);
        let n = boundary_before(bytes, 800);
        assert(truncated(detail) == decode_utf8(bytes.take(n)) + "..."@);
    }
}

/// A task has succeeded once its dispatch has, and has failed once its dispatch has.
pub proof fn dispatch_ends_task(succeeded: bool)
    ensures
        succeeded <==> ended_as(succeeded) is Succeeded,
        !succeeded <==> ended_as(succeeded) is Failed,
{
}

} // verus!
