use rexe::scheduler::{
    get_sandbox_path, is_failure_state_str, stream_id_usable, timeout_outcome, Action, Scheduler,
    SchedulerState,
};
use rexe::types::{
    CallType, Event, Offer, RequestedTaskInfo, Subscribed, FrameworkID, TaskStatus, TTYMode, Type,
};

fn request(cpus: u64, mem: u64) -> RequestedTaskInfo {
    RequestedTaskInfo {
        executor: "docker".to_string(),
        image_name: Some("x:1".to_string()),
        cpus,
        gpus: 0,
        mem,
        disk: 0,
        args: "echo hi".to_string(),
        env_args: Vec::new(),
        verbose_output: false,
        tty_mode: TTYMode::Headless,
        attrs: Vec::new(),
        volumes: Vec::new(),
        force_pull: false,
        stderr: false,
        shell: false,
        timeout: 60,
    }
}

fn offer(id: &str, cpus: u64, mem: u64, attrs: Vec<(String, String)>) -> Offer {
    Offer {
        offer_id: id.to_string(),
        agent_id: "AG1".to_string(),
        hostname: "host1".to_string(),
        port: 5051,
        scheme: "http".to_string(),
        cpus,
        gpus: 0,
        mem,
        disk: 0,
        attributes: attrs,
    }
}

fn subscribed_event(fw: &str) -> Event {
    Event {
        event_type: Type::Subscribed,
        subscribed: Some(Subscribed {
            framework_id: FrameworkID { value: fw.to_string() },
            heartbeat_interval_seconds: 15,
        }),
        offers: Vec::new(),
        update: None,
    }
}

fn offers_event(offers: Vec<Offer>) -> Event {
    Event { event_type: Type::Offers, subscribed: None, offers, update: None }
}

fn update_event(state: &str, uuid: Option<&str>) -> Event {
    Event {
        event_type: Type::Update,
        subscribed: None,
        offers: Vec::new(),
        update: Some(TaskStatus {
            state: state.to_string(),
            uuid: uuid.map(|u| u.to_string()),
            executor_id: Some("E1".to_string()),
            container_id: Some("C1".to_string()),
            reason: String::new(),
            message: String::new(),
        }),
    }
}

fn new_scheduler(cpus: u64, mem: u64) -> Scheduler {
    Scheduler::new(
        "http://master:5050".to_string(),
        request(cpus, mem),
        "STREAM1".to_string(),
    )
}

#[test]
fn full_run_subscribe_accept_run_finish() {
    let mut s = new_scheduler(1000, 256000);

    let r = s.handle_message(&subscribed_event("F1"));
    assert!(r.is_empty());
    assert_eq!(s.state, SchedulerState::Subscribed);
    assert_eq!(s.framework_id, "F1");

    // One usable offer: cpus=2, mem=512 MiB against requested 1 / 256 MiB.
    let r = s.handle_message(&offers_event(vec![offer("O1", 2000, 512000, Vec::new())]));
    assert_eq!(r.len(), 1);
    let task_id = match &r[0] {
        Action::DeliverAccept { call, task_id } => {
            assert_eq!(call.message_type, CallType::Accept);
            assert_eq!(call.accept.offer_ids[0].value, "O1");
            assert_eq!(call.accept.operations.len(), 1);
            task_id.clone()
        },
        _ => panic!("expected an accept"),
    };
    assert_eq!(task_id.len(), 10);
    assert_eq!(s.state, SchedulerState::Scheduled);
    assert_eq!(s.agent_id.as_deref(), Some("AG1"));

    let r = s.handle_message(&update_event("TASK_STARTING", Some("U1")));
    assert_eq!(r.len(), 1);
    match &r[0] {
        Action::DeliverAcknowledge { ack } => {
            assert_eq!(ack.acknowledge.uuid, "U1");
            assert_eq!(ack.framework_id.value, "F1");
            assert_eq!(ack.acknowledge.agent_id.value, "AG1");
            assert_eq!(ack.acknowledge.task_id.value, task_id);
        },
        _ => panic!("expected an acknowledgement"),
    }

    let r = s.handle_message(&update_event("TASK_RUNNING", Some("U2")));
    assert_eq!(r.len(), 2);
    match &r[0] {
        Action::DeliverAcknowledge { ack } => assert_eq!(ack.acknowledge.uuid, "U2"),
        _ => panic!("expected an acknowledgement first"),
    }
    match &r[1] {
        Action::StartConsole { request } => {
            assert_eq!(request.agent_api_url, "http://host1:5051/api/v1");
            assert_eq!(request.agent_state_url, "http://host1:5051/state");
            assert_eq!(request.executor_id, "E1");
            assert_eq!(request.container_id, "C1");
            assert_eq!(request.framework_id, "F1");
            assert!(!request.capture_stderr);
        },
        _ => panic!("expected the console to start"),
    }
    assert_eq!(s.state, SchedulerState::Running);

    let r = s.handle_message(&update_event("TASK_FINISHED", None));
    assert_eq!(r.len(), 3);
    assert!(matches!(r[0], Action::FinishConsole));
    match &r[1] {
        Action::DeliverTeardown { teardown } => assert_eq!(teardown.framework_id.value, "F1"),
        _ => panic!("expected a teardown"),
    }
    assert!(matches!(r[2], Action::ExitProcess { code: 0 }));
}

#[test]
fn insufficient_offer_declined_then_sufficient_accepted() {
    let mut s = new_scheduler(1000, 256000);
    s.handle_message(&subscribed_event("F1"));

    // cpus 0.5 < requested 1: declined with the 5 second filter.
    let r = s.handle_message(&offers_event(vec![offer("O1", 500, 512000, Vec::new())]));
    assert_eq!(r.len(), 1);
    match &r[0] {
        Action::DeliverDecline { call } => {
            assert_eq!(call.message_type, CallType::Accept);
            assert!(call.accept.operations.is_empty());
            assert_eq!(call.accept.offer_ids[0].value, "O1");
            assert_eq!(call.accept.filters.unwrap().refuse_seconds, 5);
        },
        _ => panic!("expected a decline"),
    }
    assert_eq!(s.state, SchedulerState::Subscribed);

    let r = s.handle_message(&offers_event(vec![offer("O2", 4000, 512000, Vec::new())]));
    assert!(matches!(r[0], Action::DeliverAccept { .. }));
    assert_eq!(s.state, SchedulerState::Scheduled);
}

#[test]
fn offers_after_acceptance_are_declined_long() {
    let mut s = new_scheduler(1000, 256000);
    s.handle_message(&subscribed_event("F1"));
    let r = s.handle_message(&offers_event(vec![
        offer("O1", 2000, 512000, Vec::new()),
        offer("O2", 8000, 512000, Vec::new()),
    ]));
    assert_eq!(r.len(), 2);
    assert!(matches!(r[0], Action::DeliverAccept { .. }));
    match &r[1] {
        Action::DeliverDecline { call } => {
            assert_eq!(call.accept.filters.unwrap().refuse_seconds, 600);
        },
        _ => panic!("expected a decline"),
    }

    let r = s.handle_message(&offers_event(vec![offer("O3", 9000, 999000, Vec::new())]));
    match &r[0] {
        Action::DeliverDecline { call } => {
            assert_eq!(call.accept.filters.unwrap().refuse_seconds, 600);
        },
        _ => panic!("expected a decline"),
    }
}

#[test]
fn attribute_pattern_decides_usability() {
    let mut s = new_scheduler(1000, 256000);
    s.task_info.attrs = vec![("zone".to_string(), "/us-.*/".to_string())];
    let east = offer("O1", 2000, 512000, vec![("zone".to_string(), "us-east-1".to_string())]);
    let west = offer("O2", 2000, 512000, vec![("zone".to_string(), "eu-west-1".to_string())]);
    assert!(s.is_useable_offer(&east));
    assert!(!s.is_useable_offer(&west));
}

#[test]
fn attribute_equality_and_absence() {
    let mut s = new_scheduler(1000, 256000);
    s.task_info.attrs = vec![("rack".to_string(), "r1".to_string())];
    let same = offer("O1", 2000, 512000, vec![("rack".to_string(), "r1".to_string())]);
    let other = offer("O2", 2000, 512000, vec![("rack".to_string(), "r2".to_string())]);
    let missing = offer("O3", 2000, 512000, Vec::new());
    assert!(s.is_useable_offer(&same));
    assert!(!s.is_useable_offer(&other));
    assert!(!s.is_useable_offer(&missing));
}

#[test]
fn failed_task_tears_down_and_exits_one() {
    let mut s = new_scheduler(1000, 256000);
    s.handle_message(&subscribed_event("F1"));
    s.handle_message(&offers_event(vec![offer("O1", 2000, 512000, Vec::new())]));
    s.handle_message(&update_event("TASK_RUNNING", Some("U1")));

    let r = s.handle_message(&update_event("TASK_FAILED", None));
    assert_eq!(r.len(), 3);
    assert!(matches!(r[0], Action::FinishConsole));
    assert!(matches!(r[1], Action::DeliverTeardown { .. }));
    assert!(matches!(r[2], Action::ExitProcess { code: 1 }));
}

#[test]
fn failure_before_running_skips_the_console() {
    let mut s = new_scheduler(1000, 256000);
    s.handle_message(&subscribed_event("F1"));
    let r = s.handle_message(&update_event("TASK_ERROR", None));
    assert_eq!(r.len(), 2);
    assert!(matches!(r[0], Action::DeliverTeardown { .. }));
    assert!(matches!(r[1], Action::ExitProcess { code: 1 }));
}

#[test]
fn running_update_with_missing_ids_is_fatal() {
    let mut s = new_scheduler(1000, 256000);
    s.handle_message(&subscribed_event("F1"));
    s.handle_message(&offers_event(vec![offer("O1", 2000, 512000, Vec::new())]));
    let e = Event {
        event_type: Type::Update,
        subscribed: None,
        offers: Vec::new(),
        update: Some(TaskStatus {
            state: "TASK_RUNNING".to_string(),
            uuid: None,
            executor_id: None,
            container_id: None,
            reason: String::new(),
            message: String::new(),
        }),
    };
    let r = s.handle_message(&e);
    assert_eq!(r.len(), 2);
    assert!(matches!(r[0], Action::DeliverTeardown { .. }));
    assert!(matches!(r[1], Action::ExitProcess { code: 1 }));
}

#[test]
fn heartbeat_is_ignored() {
    let mut s = new_scheduler(1000, 256000);
    let r = s.handle_message(&Event {
        event_type: Type::Heartbeat,
        subscribed: None,
        offers: Vec::new(),
        update: None,
    });
    assert!(r.is_empty());
    assert_eq!(s.state, SchedulerState::Started);
}

#[test]
fn update_without_uuid_is_not_acknowledged() {
    let mut s = new_scheduler(1000, 256000);
    s.handle_message(&subscribed_event("F1"));
    s.handle_message(&offers_event(vec![offer("O1", 2000, 512000, Vec::new())]));
    let r = s.handle_message(&update_event("TASK_STARTING", None));
    assert!(r.is_empty());
}

#[test]
fn failure_states_are_recognized() {
    for s in [
        "TASK_ERROR",
        "TASK_FAILED",
        "TASK_KILLED",
        "TASK_KILLING",
        "TASK_DROPPED",
        "REASON_EXECUTOR_TERMINATED",
        "REASON_CONTAINER_LAUNCH_FAILED",
    ] {
        assert!(is_failure_state_str(s));
    }
    assert!(!is_failure_state_str("TASK_RUNNING"));
    assert!(!is_failure_state_str("TASK_FINISHED"));
}

#[test]
fn timer_decision_codes() {
    assert_eq!(timeout_outcome(None), Some(10));
    assert_eq!(timeout_outcome(Some(SchedulerState::Scheduled)), None);
    assert_eq!(timeout_outcome(Some(SchedulerState::Subscribed)), Some(20));
}

#[test]
fn stream_id_must_be_present_and_non_empty() {
    assert!(stream_id_usable(&Some("abc".to_string())));
    assert!(!stream_id_usable(&Some(String::new())));
    assert!(!stream_id_usable(&None));
}

#[test]
fn sandbox_path_composition() {
    let p = get_sandbox_path(Some("/work".to_string()), "A1", "F1", "E1", "C1");
    assert_eq!(p, "/work/slaves/A1/frameworks/F1/executors/E1/runs/C1");
    let p = get_sandbox_path(None, "A1", "F1", "E1", "C1");
    assert_eq!(p, "/var/lib/mesos/slaves/A1/frameworks/F1/executors/E1/runs/C1");
}

#[test]
fn usability_is_monotone_in_resources() {
    let mut s = new_scheduler(1000, 256000);
    s.task_info.attrs = vec![("zone".to_string(), "/us-.*/".to_string())];
    let attrs = vec![("zone".to_string(), "us-east-1".to_string())];
    let small = offer("O1", 1000, 256000, attrs.clone());
    let large = offer("O2", 3000, 900000, attrs);
    assert!(s.is_useable_offer(&small));
    assert!(s.is_useable_offer(&large));
}
