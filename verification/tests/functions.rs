use firelite::functions::descriptors::{
    filter_descriptors, plan_proxy, ActiveWorker, FunctionDescriptor, ProxyError, TriggerKind,
};
use firelite::functions::dispatch::{
    find_recipients, message_event_key, object_event_key, EventForm,
};
use firelite::functions::routes::{
    function_id_matches_filter, is_hop_by_hop_header, keeps_request_header, parse_function_route,
};
use firelite::functions::source::{
    extension, file_name, script_name, should_ignore_dir, should_watch_file, visit_entry,
    worker_file_name, Visit,
};
use firelite::functions::supervisor::{NextStep, Supervisor, WaitEvent, Waiting};
use firelite::json::Json;

#[test]
fn parses_function_route_with_suffix() {
    let route = parse_function_route("/demo-firelite/us-central1/api/users/1").unwrap();

    assert_eq!(route.project_id, "demo-firelite");
    assert_eq!(route.region, "us-central1");
    assert_eq!(route.name, "api");
    assert_eq!(route.suffix, "/users/1");
}

#[test]
fn short_routes_are_refused() {
    assert!(parse_function_route("/demo/us-central1").is_none());
    assert!(parse_function_route("/").is_none());
    assert_eq!(parse_function_route("/demo/us-central1/api").unwrap().suffix, "/");
}

#[test]
fn watches_typescript_inputs() {
    assert!(should_watch_file("index.ts"));
    assert!(should_watch_file("src/index.tsx"));
    assert!(should_watch_file("lib/index.js"));
}

#[test]
fn other_files_are_not_watched() {
    assert!(!should_watch_file("README.md"));
    assert!(!should_watch_file("Makefile"));
    assert!(!should_watch_file(".js"));
    assert!(should_ignore_dir("src/node_modules"));
    assert!(should_ignore_dir(".git"));
    assert!(!should_ignore_dir("src/lib"));
    assert_eq!(file_name("a/b.tar.gz/"), Some("b.tar.gz".to_string()));
    assert_eq!(file_name("a/.."), None);
    assert_eq!(extension("a/b.tar.gz"), Some("gz".to_string()));
    assert_eq!(extension("a/.bashrc"), None);
}

fn https(entry_id: &str, name: &str) -> FunctionDescriptor {
    FunctionDescriptor {
        entry_id: entry_id.to_string(),
        name: name.to_string(),
        region: "us-central1".to_string(),
        trigger: TriggerKind::Https { callable: false },
    }
}

fn worker(functions: Vec<FunctionDescriptor>) -> Option<ActiveWorker> {
    Some(ActiveWorker {
        generation: 1,
        base_url: "http://127.0.0.1:4000".to_string(),
        functions,
    })
}

#[test]
fn filters_registered_functions_by_export_or_name() {
    let filters = vec!["api".to_string()];
    let kept = filter_descriptors(
        vec![
            https("api", "api"),
            https("admin", "admin"),
            https("nested.api", "nestedApi"),
        ],
        &filters,
    );
    let worker = worker(kept).unwrap();
    assert!(worker.find_http_function("us-central1", "api").is_some());
    assert!(worker.find_http_function("us-central1", "admin").is_none());
    assert!(worker.find_http_function("us-central1", "nestedApi").is_none());
    assert!(worker.find_http_function("europe-west1", "api").is_none());
}

#[test]
fn filters_take_groups() {
    assert!(function_id_matches_filter("jobs.run", "jobs"));
    assert!(function_id_matches_filter("jobs/run", "jobs"));
    assert!(function_id_matches_filter("jobs", "jobs"));
    assert!(!function_id_matches_filter("jobs-run", "jobs"));
    assert!(!function_id_matches_filter("jobsrun", "jobs"));
    assert!(!function_id_matches_filter("run", "jobs"));
    assert_eq!(filter_descriptors(vec![https("a", "a"), https("b", "b")], &Vec::new()).len(), 2);
}

#[test]
fn proxies_get_and_post_requests_to_http_function() {
    let active = worker(vec![https("api", "api")]);
    let got = plan_proxy(
        "demo-firelite",
        &active,
        "/demo-firelite/us-central1/api/users/1",
        Some("debug=true"),
    );
    assert_eq!(
        got,
        Ok("http://127.0.0.1:4000/__firelite__/invoke/api/users/1?debug=true".to_string())
    );
    let posted = plan_proxy("demo-firelite", &active, "/demo-firelite/us-central1/api", None);
    assert_eq!(posted, Ok("http://127.0.0.1:4000/__firelite__/invoke/api/".to_string()));
}

#[test]
fn unserved_requests_are_refused() {
    let active = worker(vec![https("api", "api")]);
    assert_eq!(plan_proxy("demo", &active, "/x", None), Err(ProxyError::UnexpectedPath));
    assert_eq!(
        plan_proxy("demo", &active, "/other/us-central1/api", None),
        Err(ProxyError::OtherProject)
    );
    assert_eq!(
        plan_proxy("demo", &None, "/demo/us-central1/api", None),
        Err(ProxyError::Loading)
    );
    assert_eq!(
        plan_proxy("demo", &active, "/demo/us-central1/none", None),
        Err(ProxyError::FunctionNotFound)
    );
    assert_eq!(ProxyError::UnexpectedPath.status(), 404);
    assert_eq!(ProxyError::Loading.status(), 503);
    assert_eq!(ProxyError::FunctionNotFound.status(), 404);
}

#[test]
fn discovers_scheduled_functions_without_routing_them_as_http() {
    let scheduled = FunctionDescriptor {
        entry_id: "cleanup".to_string(),
        name: "cleanup".to_string(),
        region: "us-central1".to_string(),
        trigger: TriggerKind::Schedule {
            schedule: Some(Json::text("every 5 minutes")),
            time_zone: Some("UTC".to_string()),
            retry_config: None,
            topic: Some(
                "projects/demo-firelite/topics/firebase-schedule-cleanup-us-central1".to_string(),
            ),
        },
    };
    let worker = worker(vec![scheduled]).unwrap();
    assert!(worker.find_http_function("us-central1", "cleanup").is_none());
}

#[test]
fn discovers_task_queue_functions_as_http_routes() {
    let worker = worker(vec![https("jobs.run", "jobs-run")]).unwrap();
    let found = worker.find_http_function("us-central1", "jobs-run").unwrap();
    assert_eq!(found.entry_id, "jobs.run");
}

#[test]
fn headers_of_one_connection_are_dropped() {
    for name in ["Connection", "transfer-encoding", "Content-Length", "TE", "Upgrade"] {
        assert!(is_hop_by_hop_header(name), "{name}");
    }
    assert!(!is_hop_by_hop_header("content-type"));
    assert!(!keeps_request_header("Host"));
    assert!(!keeps_request_header("content-length"));
    assert!(keeps_request_header("connection"));
}

fn on_event(entry_id: &str, event_type: &str, resource: Option<Json>) -> FunctionDescriptor {
    FunctionDescriptor {
        entry_id: entry_id.to_string(),
        name: entry_id.to_string(),
        region: "us-central1".to_string(),
        trigger: TriggerKind::Event {
            event_type: Some(event_type.to_string()),
            resource,
        },
    }
}

#[test]
fn events_reach_functions_of_both_forms() {
    let active = worker(vec![
        on_event(
            "gen1",
            "google.pubsub.topic.publish",
            Some(Json::text("projects/demo-firelite/topics/events")),
        ),
        on_event(
            "gen2",
            "google.cloud.pubsub.topic.v1.messagePublished",
            Json::parse(br#"{"topic":"events"}"#),
        ),
        https("api", "api"),
    ]);
    let key = message_event_key("demo-firelite", "projects/demo-firelite/topics/events");
    let found = find_recipients("demo-firelite", &active, &key);
    assert_eq!(found.len(), 2);
    assert_eq!(found[0].entry_id, "gen1");
    assert_eq!(found[0].form, EventForm::First);
    assert_eq!(found[1].entry_id, "gen2");
    assert_eq!(found[1].form, EventForm::Present);

    let other = message_event_key("demo-firelite", "projects/demo-firelite/topics/other-events");
    assert!(find_recipients("demo-firelite", &active, &other).is_empty());
    let foreign = message_event_key("other-project", "projects/other-project/topics/events");
    assert!(find_recipients("demo-firelite", &active, &foreign).is_empty());
    assert!(find_recipients("demo-firelite", &None, &key).is_empty());
}

#[test]
fn object_events_go_by_bucket() {
    let active = worker(vec![
        on_event(
            "stored",
            "google.cloud.storage.object.v1.finalized",
            Json::parse(br#"{"bucket":"b1"}"#),
        ),
        on_event("all", "google.cloud.storage.object.v1.finalized", None),
    ]);
    assert_eq!(find_recipients("p", &active, &object_event_key("b1")).len(), 2);
    let found = find_recipients("p", &active, &object_event_key("b2"));
    assert_eq!(found.len(), 1);
    assert_eq!(found[0].entry_id, "all");
    assert_eq!(find_recipients("another", &active, &object_event_key("b1")).len(), 2);
}

#[test]
fn restarts_worker_after_unexpected_exit() {
    let mut supervisor = Supervisor::new(1);
    assert_eq!(supervisor.waiting(), Waiting::ForWorker { reloads: true });
    let step = supervisor.on_event(WaitEvent::WorkerExited);
    assert_eq!(
        step,
        NextStep::Start { generation: 2, drain_reloads: false, withdraw: true }
    );
    assert!(!supervisor.on_started());
    assert_eq!(supervisor.waiting(), Waiting::ForWorker { reloads: true });
    assert!(supervisor.generation >= 2);
}

#[test]
fn delays_double_up_to_a_bound() {
    let mut supervisor = Supervisor::new(1);
    supervisor.on_event(WaitEvent::WorkerExited);
    let mut delays = Vec::new();
    for _ in 0..7 {
        delays.push(supervisor.restart_delay_ms);
        assert!(!supervisor.on_failed());
        supervisor.on_event(WaitEvent::DelayElapsed);
    }
    assert_eq!(delays, vec![250, 500, 1000, 2000, 4000, 5000, 5000]);
    assert_eq!(supervisor.generation, 9);
    supervisor.on_started();
    assert_eq!(supervisor.restart_delay_ms, 250);
}

#[test]
fn reloads_cut_the_wait_short() {
    let mut supervisor = Supervisor::new(1);
    supervisor.on_event(WaitEvent::WorkerExited);
    supervisor.on_failed();
    assert_eq!(supervisor.waiting(), Waiting::ForDelay { reloads: true, ms: 500 });
    supervisor.on_event(WaitEvent::DelayElapsed);
    supervisor.on_failed();
    assert_eq!(supervisor.waiting(), Waiting::ForDelay { reloads: true, ms: 1000 });
    assert_eq!(
        supervisor.on_event(WaitEvent::ReloadRequested),
        NextStep::Start { generation: 4, drain_reloads: true, withdraw: false }
    );
    supervisor.on_started();
    assert_eq!(supervisor.waiting(), Waiting::ForWorker { reloads: true });
    assert_eq!(supervisor.restart_delay_ms, 250);
}

#[test]
fn failed_reloads_keep_the_worker() {
    let mut supervisor = Supervisor::new(1);
    supervisor.on_event(WaitEvent::ReloadRequested);
    assert!(supervisor.on_failed());
    assert_eq!(supervisor.waiting(), Waiting::ForWorker { reloads: true });
    supervisor.on_event(WaitEvent::ReloadRequested);
    assert!(supervisor.on_started());
    supervisor.on_event(WaitEvent::ReloadsClosed);
    assert_eq!(supervisor.waiting(), Waiting::ForWorker { reloads: false });
}

#[test]
fn entries_of_directories_are_sorted_out() {
    assert_eq!(visit_entry("src", true, false), Visit::Descend);
    assert_eq!(visit_entry("node_modules", true, false), Visit::Skip);
    assert_eq!(visit_entry("src/a.ts", false, true), Visit::Watch);
    assert_eq!(visit_entry("src/a.md", false, true), Visit::Skip);
    assert_eq!(visit_entry("src/a.ts", false, false), Visit::Skip);
}

#[test]
fn worker_scripts_are_named_by_their_digest() {
    assert_eq!(
        script_name("0.4.0", &vec![0, 1, 2, 3, 4, 5, 6, 255, 9]),
        "functions_worker-0.4.0-00010203040506ff.cjs"
    );
    assert_eq!(
        worker_file_name("0.4.0", b"abc"),
        "functions_worker-0.4.0-ba7816bf8f01cfea.cjs"
    );
}
