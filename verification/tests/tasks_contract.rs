use firelite::control::{
    attachment_id, register_attachment, AttachRequest, AttachedProxyError, AttachmentsState,
};
use firelite::tasks::{
    check_target, check_url, decode_body, dispatch_result, is_local_host, queue_name, status_after, truncate_error_detail,
    validate_task_target, FunctionsTarget, HttpRequest, Task, TaskStatus, TasksError, TasksState,
};
use firelite::text_map::TextMap;

fn task(url: Option<&str>, headers: &[(&str, &str)], body: Option<&str>) -> Task {
    let mut map = TextMap::new();
    for (name, value) in headers {
        map.insert(name.to_string(), value.to_string());
    }
    Task {
        name: None,
        http_request: HttpRequest {
            http_method: None,
            url: url.map(|url| url.to_string()),
            headers: map,
            body: body.map(|body| body.to_string()),
            oidc_token: None,
        },
        schedule_time: None,
        dispatch_deadline: None,
    }
}

fn header<'a>(headers: &'a [(String, String)], name: &str) -> Option<&'a str> {
    headers
        .iter()
        .find(|(key, _)| key == name)
        .map(|(_, value)| value.as_str())
}

#[test]
fn task_targets_are_local_http_only() {
    assert!(validate_task_target("http://127.0.0.1:5001/task").is_ok());

    let error = validate_task_target("https://example.test/task").unwrap_err();
    assert_eq!(error.status(), 400);
    assert_eq!(error.message(), "UNSUPPORTED_TASK_URL_SCHEME");
}

#[test]
fn targets_beyond_this_machine_are_refused() {
    for local in [
        "http://localhost:5001/task",
        "http://LOCALHOST/task",
        "http://127.0.0.1/task",
        "http://127.1/task",
        "http://[::1]:8080/task",
    ] {
        assert!(validate_task_target(local).is_ok(), "{local}");
    }
    for remote in [
        "http://example.test/task",
        "http://10.0.0.1/task",
        "http://127.example.test/task",
        "http://localhost.example.test/task",
        "http://[::2]/task",
    ] {
        let error = validate_task_target(remote).unwrap_err();
        assert_eq!(error.status(), 400);
        assert_eq!(error.message(), "INVALID_TASK_URL");
    }
    let state = TasksState::new();
    let request = task(Some("http://example.test/task"), &[], None);
    let error = state.plan_dispatch("p", "l", "q", &request).unwrap_err();
    assert_eq!(error.message(), "INVALID_TASK_URL");
}

#[test]
fn read_urls_are_checked() {
    let url = |scheme: &str, host: Option<&str>| {
        Some((scheme.to_string(), host.map(|host| host.to_string())))
    };
    assert!(check_target(&url("http", Some("127.0.0.1"))).is_ok());
    assert!(check_target(&url("http", Some("example.test"))).is_err());
    assert!(check_target(&url("http", None)).is_err());
    assert!(check_target(&None).is_err());
    assert_eq!(
        check_target(&url("https", Some("localhost"))).unwrap_err().message(),
        "UNSUPPORTED_TASK_URL_SCHEME"
    );
    assert!(check_url(&url("http", Some("example.test"))).is_ok());
    assert!(check_url(&url("http", None)).is_err());
    assert!(is_local_host("localhost"));
    assert!(!is_local_host("127.0.0.1.example"));
}

#[test]
fn workers_on_other_machines_take_their_tasks() {
    let mut state = TasksState::new();
    state.set_functions_target(FunctionsTarget {
        project_id: "p".to_string(),
        functions_host: "192.168.1.5".to_string(),
        functions_port: 5001,
        filters: Vec::new(),
    });
    let plan = state.plan_dispatch("p", "l", "q", &task(None, &[], None)).unwrap();
    assert_eq!(plan.target, "http://192.168.1.5:5001/p/l/q");
}

#[test]
fn cloud_tasks_create_dispatch_list_delete_flow() {
    let mut state = TasksState::new();
    let queue_path = "projects/demo-firelite/locations/us-central1/queues/sendEmail";
    let queue = queue_name("demo-firelite", "us-central1", "sendEmail");
    assert_eq!(queue, queue_path);

    // The body is {"email":"alice@example.test"}.
    let mut request = task(
        Some("http://127.0.0.1:5001/dispatch"),
        &[("content-type", "application/json")],
        Some("eyJlbWFpbCI6ImFsaWNlQGV4YW1wbGUudGVzdCJ9"),
    );
    request.http_request.http_method = Some("POST".to_string());
    let name = state.create_task(&queue, request, 5).unwrap();
    assert!(name.starts_with(&format!("{queue_path}/tasks/")));

    let task_id = name.rsplit('/').next().unwrap();
    let created = state.get_task(&queue, task_id).unwrap();
    assert_eq!(created.name.as_deref(), Some(name.as_str()));
    let plan = state
        .plan_dispatch("demo-firelite", "us-central1", "sendEmail", created)
        .unwrap();
    assert_eq!(plan.target, "http://127.0.0.1:5001/dispatch");
    assert_eq!(plan.method, "POST");
    assert_eq!(plan.body, br#"{"email":"alice@example.test"}"#.to_vec());
    assert_eq!(header(&plan.headers, "X-CloudTasks-QueueName"), Some(queue_path));
    assert_eq!(header(&plan.headers, "X-CloudTasks-TaskName"), Some(name.as_str()));
    assert_eq!(header(&plan.headers, "X-CloudTasks-TaskRetryCount"), Some("0"));
    assert_eq!(header(&plan.headers, "X-CloudTasks-TaskExecutionCount"), Some("0"));
    assert_eq!(header(&plan.headers, "content-type"), Some("application/json"));

    let result = dispatch_result(Some((200, "ok")));
    state.update_task_status(&name, status_after(&result), 6);
    let record = state.tasks.get(&name).unwrap();
    assert_eq!(record.status, TaskStatus::Succeeded);
    assert_eq!(record.created_at_ms, 5);
    assert_eq!(record.dispatched_at_ms, Some(6));

    assert_eq!(state.list_tasks(&queue).len(), 1);
    assert!(state.delete_task(&queue, task_id).is_ok());
    assert_eq!(state.list_tasks(&queue).len(), 0);
    assert_eq!(state.get_task(&queue, task_id).unwrap_err().message(), "NOT_FOUND");
}

#[test]
fn cloud_tasks_create_dispatches_to_configured_function_queue() {
    let mut state = TasksState::default();
    state.set_functions_target(FunctionsTarget {
        project_id: "demo-firelite".to_string(),
        functions_host: "127.0.0.1".to_string(),
        functions_port: 5001,
        filters: vec!["jobs.run".to_string()],
    });
    // The body is {"data":{"jobTaskId":"task-1"}}.
    let request = task(
        None,
        &[
            ("Content-Type", "application/json"),
            ("X-Firelite-Test", "task-dispatch"),
        ],
        Some("eyJkYXRhIjp7ImpvYlRhc2tJZCI6InRhc2stMSJ9fQ=="),
    );
    let plan = state
        .plan_dispatch("demo-firelite", "us-central1", "jobs.run", &request)
        .unwrap();
    assert_eq!(plan.method, "POST");
    assert_eq!(plan.target, "http://127.0.0.1:5001/demo-firelite/us-central1/jobs.run");
    assert_eq!(header(&plan.headers, "X-Firelite-Test"), Some("task-dispatch"));
    assert_eq!(plan.body, br#"{"data":{"jobTaskId":"task-1"}}"#.to_vec());
    assert_eq!(
        header(&plan.headers, "X-CloudTasks-QueueName"),
        Some("projects/demo-firelite/locations/us-central1/queues/jobs.run")
    );

    let queue = queue_name("demo-firelite", "us-central1", "jobs.run");
    let name = state.create_task(&queue, request, 1).unwrap();
    assert!(name
        .starts_with("projects/demo-firelite/locations/us-central1/queues/jobs.run/tasks/"));
}

#[test]
fn tasks_without_a_worker_are_refused() {
    let mut state = TasksState::new();
    let request = task(None, &[], None);
    let error = state
        .plan_dispatch("demo-firelite", "us-central1", "jobs", &request)
        .unwrap_err();
    assert_eq!(error.status(), 404);
    assert_eq!(error.message(), "NO_FUNCTIONS_WORKER");
    assert_eq!(error.reason(), "Not Found");
    state.set_functions_target(FunctionsTarget {
        project_id: "demo-firelite".to_string(),
        functions_host: "127.0.0.1".to_string(),
        functions_port: 5001,
        filters: vec!["other".to_string()],
    });
    assert!(state
        .plan_dispatch("demo-firelite", "us-central1", "jobs", &request)
        .is_err());
    assert!(state
        .plan_dispatch("other-project", "us-central1", "other", &request)
        .is_err());
    assert!(state
        .plan_dispatch("demo-firelite", "us-central1", "other", &request)
        .is_ok());
}

#[test]
fn malformed_tasks_are_refused() {
    let state = TasksState::new();
    let mut request = task(Some("http://localhost/"), &[], None);
    request.http_request.http_method = Some("NOT A METHOD".to_string());
    let error = state.plan_dispatch("p", "l", "q", &request).unwrap_err();
    assert_eq!(error.message(), "INVALID_HTTP_METHOD");
    assert_eq!(error.reason(), "Bad Request");

    request.http_request.http_method = Some("PURGE".to_string());
    assert_eq!(state.plan_dispatch("p", "l", "q", &request).unwrap().method, "PURGE");

    let error = validate_task_target("no url").unwrap_err();
    assert_eq!(error.message(), "INVALID_TASK_URL");

    request.http_request.body = Some("!".to_string());
    let error = state.plan_dispatch("p", "l", "q", &request).unwrap_err();
    assert_eq!(error.message(), "INVALID_TASK_BODY");
    assert_eq!(decode_body(None).unwrap(), Vec::<u8>::new());
}

#[test]
fn hop_by_hop_headers_stay_behind() {
    let state = TasksState::new();
    let request = task(
        Some("http://localhost/"),
        &[("Connection", "close"), ("Host", "x"), ("X-Own", "1")],
        None,
    );
    let plan = state.plan_dispatch("p", "l", "q", &request).unwrap();
    assert_eq!(header(&plan.headers, "Connection"), None);
    assert_eq!(header(&plan.headers, "X-Own"), Some("1"));
    assert_eq!(header(&plan.headers, "X-CloudTasks-TaskName"), Some(""));
}

#[test]
fn task_names_stay_taken() {
    let mut state = TasksState::new();
    let queue = queue_name("p", "l", "q");
    let name = state.begin_task(&queue, task(None, &[], None), "one", 1).unwrap();
    assert_eq!(name, "projects/p/locations/l/queues/q/tasks/one");
    let error = state.begin_task(&queue, task(None, &[], None), "one", 2).unwrap_err();
    assert_eq!(error.status(), 409);
    assert_eq!(error.message(), "ALREADY_EXISTS");
    assert_eq!(error.reason(), "Conflict");
    assert!(state.delete_task(&queue, "one").is_ok());
    assert!(state.begin_task(&queue, task(None, &[], None), "one", 3).is_err());
    assert_eq!(state.delete_task(&queue, "two").unwrap_err().status(), 404);
}

#[test]
fn failed_targets_are_told() {
    let error = dispatch_result(Some((503, " down \n"))).unwrap_err();
    assert_eq!(error.status(), 502);
    assert_eq!(error.message(), "TASK_DISPATCH_HTTP_503: down");
    assert_eq!(error.reason(), "Bad Gateway");
    assert_eq!(dispatch_result(Some((404, ""))).unwrap_err().message(), "TASK_DISPATCH_HTTP_404");
    let error = dispatch_result(None).unwrap_err();
    assert_eq!(error.message(), "TASK_DISPATCH_FAILED");
    assert!(dispatch_result(Some((299, "x"))).is_ok());
    assert_eq!(status_after(&Err(TasksError::TaskDispatchFailed)), TaskStatus::Failed);
    assert_eq!(status_after(&Ok(())), TaskStatus::Succeeded);
}

#[test]
fn long_details_end_at_a_character() {
    let short = "x".repeat(800);
    assert_eq!(truncate_error_detail(&short), short);
    let long = format!("{}\u{e9}tail", "x".repeat(799));
    assert_eq!(truncate_error_detail(&long), format!("{}...", "x".repeat(799)));
}

fn attach(project_id: &str, port: u16, filters: &[&str]) -> AttachRequest {
    AttachRequest {
        project_id: project_id.to_string(),
        workdir: "/srv/functions".to_string(),
        functions_host: "127.0.0.1".to_string(),
        functions_port: port,
        filters: filters.iter().map(|filter| filter.to_string()).collect(),
    }
}

#[test]
fn attached_workers_take_requests() {
    let mut state = AttachmentsState::new();
    let first = register_attachment(&mut state, attach("demo", 5001, &["api"]), 9).unwrap();
    assert_eq!(first.id, "demo@127.0.0.1:5001");
    assert_eq!(first.id, attachment_id("demo", "127.0.0.1", 5001));
    assert_eq!(first.attached_at_ms, 9);
    assert_eq!(
        state.plan_attached_proxy("/demo/us-central1/api/x", Some("a=1")),
        Ok("http://127.0.0.1:5001/demo/us-central1/api/x?a=1".to_string())
    );
    assert_eq!(
        state.plan_attached_proxy("/demo/us-central1/other", None),
        Err(AttachedProxyError::NoWorker)
    );
    assert_eq!(
        state.plan_attached_proxy("/demo", None),
        Err(AttachedProxyError::UnexpectedPath)
    );
    register_attachment(&mut state, attach("demo", 5002, &[]), 10).unwrap();
    register_attachment(&mut state, attach("demo", 5001, &["api", "jobs"]), 11).unwrap();
    let listed = state.list_attachments();
    assert_eq!(listed.attachments.len(), 2);
    assert_eq!(listed.attachments[0].attached_at_ms, 11);
    let found = state.find_attachment_for_function("demo", "mail").unwrap();
    assert_eq!(found.functions_port, 5002);
    assert!(state.find_attachment_for_function("none", "mail").is_none());
}

#[test]
fn nameless_workers_are_not_attached() {
    let mut state = AttachmentsState::new();
    assert_eq!(register_attachment(&mut state, attach(" ", 5001, &[]), 1).unwrap_err(), 400);
    assert_eq!(register_attachment(&mut state, attach("demo", 0, &[]), 1).unwrap_err(), 400);
    let mut request = attach("demo", 1, &[]);
    request.workdir = String::new();
    assert_eq!(register_attachment(&mut state, request, 1).unwrap_err(), 400);
    let mut request = attach("demo", 1, &[]);
    request.functions_host = "\t".to_string();
    assert_eq!(register_attachment(&mut state, request, 1).unwrap_err(), 400);
    assert_eq!(state.list_attachments().attachments.len(), 0);
}

#[test]
fn attached_errors_have_answers() {
    assert_eq!(AttachedProxyError::UnexpectedPath.status(), 404);
    assert_eq!(AttachedProxyError::NoWorker.message(), "no attached functions worker for route");
    assert_eq!(AttachedProxyError::InvalidMethod.status(), 400);
    assert_eq!(AttachedProxyError::RequestFailed.status(), 502);
    assert_eq!(AttachedProxyError::ResponseFailed.status(), 502);
    assert_eq!(AttachedProxyError::InvalidResponse.status(), 500);
}
