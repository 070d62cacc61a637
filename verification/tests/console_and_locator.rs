use rexe::console::{
    attach_container_output_request, decode_read_response, read_file_request,
    route_attach_message, sandbox_file_path, should_continue, should_sleep, tail_advance,
    tail_start, OutputRoute,
};
use rexe::mesos::{
    is_explicit_master_url, leader_url, select_leader, should_close_session, str_le,
    version_probe_url, KeeperState, WatcherStateHandler,
};
use rexe::types::{
    AttachContainerOutputMessage, ContainerOutputData, ReadFileResponse, ReadFileResponseData,
};

fn data_message(message_type: &str, output_type: &str, data: &str) -> AttachContainerOutputMessage {
    AttachContainerOutputMessage {
        message_type: message_type.to_string(),
        data: ContainerOutputData {
            output_type: output_type.to_string(),
            data: data.to_string(),
        },
    }
}

#[test]
fn read_file_request_shape() {
    let r = read_file_request("/sandbox/stdout", 42);
    assert_eq!(r.request_type, "READ_FILE");
    assert_eq!(r.read_file.path, "/sandbox/stdout");
    assert_eq!(r.read_file.offset, 42);
    assert_eq!(r.read_file.length, 102400);
}

#[test]
fn attach_request_shape() {
    let r = attach_container_output_request("C1");
    assert_eq!(r.request_type, "ATTACH_CONTAINER_OUTPUT");
    assert_eq!(r.attach_container_output.container_id.value, "C1");
}

#[test]
fn attach_routes_stdout_and_stderr() {
    // base64("hi\n") and base64("err\n")
    let m = data_message("DATA", "STDOUT", "aGkK");
    match route_attach_message(&m, true) {
        OutputRoute::ToStdout(v) => assert_eq!(v, b"hi\n".to_vec()),
        _ => panic!("expected stdout"),
    }
    let m = data_message("DATA", "STDERR", "ZXJyCg==");
    match route_attach_message(&m, true) {
        OutputRoute::ToStderr(v) => assert_eq!(v, b"err\n".to_vec()),
        _ => panic!("expected stderr"),
    }
}

#[test]
fn attach_drops_stderr_when_not_captured() {
    let m = data_message("DATA", "STDERR", "ZXJyCg==");
    assert!(matches!(route_attach_message(&m, false), OutputRoute::Dropped));
}

#[test]
fn attach_ignores_unknown_records() {
    let m = data_message("PING", "STDOUT", "aGkK");
    assert!(matches!(route_attach_message(&m, true), OutputRoute::Unknown));
    let m = data_message("DATA", "STDMISC", "aGkK");
    assert!(matches!(route_attach_message(&m, true), OutputRoute::Unknown));
}

#[test]
fn attach_flags_malformed_payload() {
    let m = data_message("DATA", "STDOUT", "!!!not-base64!!!");
    assert!(matches!(route_attach_message(&m, true), OutputRoute::Invalid));
}

#[test]
fn read_response_data_is_decoded() {
    let resp = ReadFileResponse {
        request_type: "READ_FILE".to_string(),
        read_file: ReadFileResponseData { size: 3, data: "aGkK".to_string() },
    };
    assert_eq!(decode_read_response(&resp), Some(b"hi\n".to_vec()));
    let bad = ReadFileResponse {
        request_type: "READ_FILE".to_string(),
        read_file: ReadFileResponseData { size: 3, data: "####".to_string() },
    };
    assert_eq!(decode_read_response(&bad), None);
}

#[test]
fn sandbox_file_paths() {
    assert_eq!(sandbox_file_path("/sb", false), "/sb/stdout");
    assert_eq!(sandbox_file_path("/sb", true), "/sb/stderr");
}

#[test]
fn tail_worker_drains_after_stop() {
    let st = tail_start();
    // While running, always poll.
    assert!(should_continue(true, &st));
    // A read of 100 bytes while running.
    let st = tail_advance(&st, true, 100);
    assert_eq!(st.offset, 100);
    // The flag falls: one more read happens because the last one ran under
    // the flag.
    assert!(should_continue(false, &st));
    let st = tail_advance(&st, false, 50);
    assert_eq!(st.offset, 150);
    // Still bytes coming: keep reading.
    assert!(should_continue(false, &st));
    let st = tail_advance(&st, false, 0);
    // An empty read with the flag down ends the worker.
    assert!(!should_continue(false, &st));
}

#[test]
fn tail_idle_poll_sleeps() {
    let st = tail_start();
    let st = tail_advance(&st, true, 0);
    assert!(should_sleep(&st));
    let st = tail_advance(&st, true, 10);
    assert!(!should_sleep(&st));
}

#[test]
fn tail_offset_wraps_at_32_bits() {
    let mut st = tail_start();
    st.offset = u32::MAX - 1;
    let st = tail_advance(&st, true, 3);
    assert_eq!(st.offset, 1);
}

#[test]
fn watcher_state_handler_records_last_state() {
    let mut h = WatcherStateHandler::new();
    assert_eq!(h.get_state(), KeeperState::Disconnected);
    h.set_state(KeeperState::SyncConnected);
    assert_eq!(h.get_state(), KeeperState::SyncConnected);
}

#[test]
fn session_closed_only_when_connected() {
    assert!(should_close_session(KeeperState::SyncConnected));
    assert!(should_close_session(KeeperState::ConnectedReadOnly));
    assert!(!should_close_session(KeeperState::Disconnected));
    assert!(!should_close_session(KeeperState::Expired));
}

#[test]
fn explicit_urls_are_recognized() {
    assert!(is_explicit_master_url("http://master:5050"));
    assert!(is_explicit_master_url("https://master:5050"));
    assert!(!is_explicit_master_url("zk1:2181,zk2:2181/mesos"));
}

#[test]
fn leader_is_the_lexicographically_smallest_info_node() {
    let children = vec![
        "json.info_0000000005".to_string(),
        "json.info_0000000003".to_string(),
        "json.info_0000000010".to_string(),
    ];
    assert_eq!(select_leader(&children), Some("json.info_0000000003".to_string()));
}

#[test]
fn leader_selection_skips_other_nodes() {
    let children = vec![
        "log_replicas".to_string(),
        "json.info_0000000007".to_string(),
    ];
    assert_eq!(select_leader(&children), Some("json.info_0000000007".to_string()));
    let none = vec!["log_replicas".to_string()];
    assert_eq!(select_leader(&none), None);
}

#[test]
fn string_order_is_lexicographic() {
    assert!(str_le("abc", "abd"));
    assert!(str_le("abc", "abc"));
    assert!(str_le("ab", "abc"));
    assert!(!str_le("abd", "abc"));
}

#[test]
fn leader_and_probe_urls() {
    assert_eq!(leader_url("m1", 5050, false), "http://m1:5050");
    assert_eq!(leader_url("m1", 5050, true), "https://m1:5050");
    assert_eq!(version_probe_url("m1", 5050), "https://m1:5050/version");
}
