use rexe::types::{
    accept_request_with_window, acknowledge_request, build_resources, decline_request,
    get_argument_value, get_arguments, parse_key_value, parse_volume_spec, split,
    subscribe_request, teardown_request, CallType, ContainerInfoType, DockerInfoNetwork, Filters,
    Offer, OperationType, RequestedTaskInfo, TTYMode, Volume, VolumeMode, VolumeSpecError,
};

fn basic_request() -> RequestedTaskInfo {
    RequestedTaskInfo {
        executor: "docker".to_string(),
        image_name: Some("x:1".to_string()),
        cpus: 1000,
        gpus: 0,
        mem: 256000,
        disk: 0,
        args: "echo hello".to_string(),
        env_args: Vec::new(),
        verbose_output: false,
        tty_mode: TTYMode::Headless,
        attrs: Vec::new(),
        volumes: Vec::new(),
        force_pull: false,
        stderr: false,
        shell: false,
        timeout: 60,
    }
}

#[test]
fn teardown_call_shape() {
    let c = teardown_request("FW1");
    assert_eq!(c.message_type, CallType::Teardown);
    assert_eq!(c.framework_id.value, "FW1");
}

#[test]
fn acknowledge_call_shape() {
    let c = acknowledge_request("FW1", "A1", "T1", "U1");
    assert_eq!(c.message_type, CallType::Acknowledge);
    assert_eq!(c.framework_id.value, "FW1");
    assert_eq!(c.acknowledge.agent_id.value, "A1");
    assert_eq!(c.acknowledge.task_id.value, "T1");
    assert_eq!(c.acknowledge.uuid, "U1");
}

#[test]
fn decline_is_accept_with_empty_operations() {
    let c = decline_request("FW1", "O1", 5);
    assert_eq!(c.message_type, CallType::Accept);
    assert_eq!(c.framework_id.value, "FW1");
    assert_eq!(c.accept.offer_ids.len(), 1);
    assert_eq!(c.accept.offer_ids[0].value, "O1");
    assert!(c.accept.operations.is_empty());
    assert_eq!(c.accept.filters, Some(Filters { refuse_seconds: 5 }));
}

#[test]
fn subscribe_call_shape() {
    let s = subscribe_request();
    assert_eq!(s.message_type, "SUBSCRIBE");
    assert_eq!(s.subscribe.framework_info.user, "root");
    assert_eq!(s.subscribe.framework_info.name, "RExe task executor");
    assert!(s.subscribe.framework_info.capabilities.is_empty());
}

#[test]
fn resources_always_hold_cpus_and_mem() {
    let info = basic_request();
    let rs = build_resources(&info);
    assert_eq!(rs.len(), 2);
    assert_eq!(rs[0].name, "cpus");
    assert_eq!(rs[0].resource_type, "SCALAR");
    assert_eq!(rs[0].scalar.value, 1000);
    assert_eq!(rs[1].name, "mem");
    assert_eq!(rs[1].scalar.value, 256000);
}

#[test]
fn resources_hold_disk_and_gpus_only_when_requested() {
    let mut info = basic_request();
    info.disk = 512000;
    info.gpus = 2000;
    let rs = build_resources(&info);
    assert_eq!(rs.len(), 4);
    assert_eq!(rs[2].name, "disk");
    assert_eq!(rs[2].scalar.value, 512000);
    assert_eq!(rs[3].name, "gpus");
    assert_eq!(rs[3].scalar.value, 2000);
}

#[test]
fn accept_call_launches_one_docker_task() {
    let info = basic_request();
    let c = accept_request_with_window("FW1", "O1", "A1", "T1", &info, &TTYMode::Headless, None);
    assert_eq!(c.message_type, CallType::Accept);
    assert!(c.accept.filters.is_none());
    assert_eq!(c.accept.offer_ids.len(), 1);
    assert_eq!(c.accept.offer_ids[0].value, "O1");
    assert_eq!(c.accept.operations.len(), 1);
    let op = &c.accept.operations[0];
    assert_eq!(op.operation_type, OperationType::Launch);
    assert_eq!(op.launch.task_infos.len(), 1);
    let t = &op.launch.task_infos[0];
    assert_eq!(t.name, "rexe-command");
    assert_eq!(t.task_id.value, "T1");
    assert_eq!(t.agent_id.value, "A1");
    let ci = t.container.as_ref().unwrap();
    assert_eq!(ci.container_type, ContainerInfoType::Docker);
    assert_eq!(ci.docker.image, "x:1");
    assert_eq!(ci.docker.network, DockerInfoNetwork::Bridge);
    assert!(!ci.docker.privileged);
    assert!(!ci.docker.force_pull_image);
    assert!(ci.tty_info.is_none());
    assert_eq!(t.command.value, "echo");
    assert_eq!(t.command.arguments, vec!["hello".to_string()]);
    assert!(!t.command.shell);
    assert!(t.command.environment.is_none());
}

#[test]
fn accept_call_for_shell_executor_has_no_container() {
    let mut info = basic_request();
    info.executor = "exec".to_string();
    info.image_name = None;
    info.shell = true;
    let c = accept_request_with_window("FW1", "O1", "A1", "T1", &info, &TTYMode::Headless, None);
    let t = &c.accept.operations[0].launch.task_infos[0];
    assert!(t.container.is_none());
    assert!(t.command.shell);
    assert_eq!(t.command.value, "echo hello");
    assert!(t.command.arguments.is_empty());
}

#[test]
fn accept_call_serialises_environment_in_order() {
    let mut info = basic_request();
    info.env_args = vec![
        ("A".to_string(), "1".to_string()),
        ("B".to_string(), "2".to_string()),
    ];
    let c = accept_request_with_window("FW1", "O1", "A1", "T1", &info, &TTYMode::Headless, None);
    let t = &c.accept.operations[0].launch.task_infos[0];
    let env = t.command.environment.as_ref().unwrap();
    assert_eq!(env.variables.len(), 2);
    assert_eq!(env.variables[0].name, "A");
    assert_eq!(env.variables[0].value, "1");
    assert_eq!(env.variables[1].name, "B");
    assert_eq!(env.variables[1].value, "2");
}

#[test]
fn interactive_accept_uses_window_size_or_default() {
    let info = basic_request();
    let c = accept_request_with_window(
        "FW1",
        "O1",
        "A1",
        "T1",
        &info,
        &TTYMode::Interactive,
        Some((80, 25)),
    );
    let t = &c.accept.operations[0].launch.task_infos[0];
    let tty = t.container.as_ref().unwrap().tty_info.unwrap();
    assert_eq!(tty.window_size.columns, 80);
    assert_eq!(tty.window_size.rows, 25);

    let c = accept_request_with_window("FW1", "O1", "A1", "T1", &info, &TTYMode::Interactive, None);
    let t = &c.accept.operations[0].launch.task_infos[0];
    let tty = t.container.as_ref().unwrap().tty_info.unwrap();
    assert_eq!(tty.window_size.columns, 120);
    assert_eq!(tty.window_size.rows, 40);
}

#[test]
fn accept_call_carries_volumes() {
    let mut info = basic_request();
    info.volumes = vec![Volume {
        mode: VolumeMode::RO,
        container_path: "/data".to_string(),
        host_path: "/host/data".to_string(),
    }];
    let c = accept_request_with_window("FW1", "O1", "A1", "T1", &info, &TTYMode::Headless, None);
    let ci = c.accept.operations[0].launch.task_infos[0].container.as_ref().unwrap();
    assert_eq!(ci.volumes.len(), 1);
    assert_eq!(ci.volumes[0].mode, VolumeMode::RO);
    assert_eq!(ci.volumes[0].container_path, "/data");
    assert_eq!(ci.volumes[0].host_path, "/host/data");
}

#[test]
fn split_breaks_on_whitespace() {
    assert_eq!(
        split("a bb  ccc".to_string()),
        vec!["a".to_string(), "bb".to_string(), "ccc".to_string()]
    );
    assert_eq!(split("  lead and trail  ".to_string()).len(), 3);
    assert_eq!(split("".to_string()), Vec::<String>::new());
    assert_eq!(split("   ".to_string()), Vec::<String>::new());
}

#[test]
fn argument_helpers_split_the_command_line() {
    assert_eq!(get_argument_value("ls -l /tmp"), "ls");
    assert_eq!(get_arguments("ls -l /tmp"), vec!["-l".to_string(), "/tmp".to_string()]);
    assert_eq!(get_argument_value(""), "");
    assert!(get_arguments("").is_empty());
    assert_eq!(get_argument_value("single"), "single");
    assert!(get_arguments("single").is_empty());
}

#[test]
fn key_value_splits_at_first_equals() {
    assert_eq!(
        parse_key_value("NAME=value"),
        Some(("NAME".to_string(), "value".to_string()))
    );
    assert_eq!(
        parse_key_value("A=b=c"),
        Some(("A".to_string(), "b=c".to_string()))
    );
    assert_eq!(parse_key_value("novalue"), None);
    assert_eq!(parse_key_value("="), None);
    assert_eq!(parse_key_value("a="), None);
    assert_eq!(parse_key_value("=b"), None);
}

#[test]
fn volume_spec_defaults_to_read_write() {
    let v = parse_volume_spec("/h:/c").unwrap();
    assert_eq!(v.host_path, "/h");
    assert_eq!(v.container_path, "/c");
    assert_eq!(v.mode, VolumeMode::RW);
}

#[test]
fn volume_spec_accepts_mode_in_either_case() {
    let v = parse_volume_spec("/h:/c:ro").unwrap();
    assert_eq!(v.mode, VolumeMode::RO);
    let v = parse_volume_spec("/h:/c:RW").unwrap();
    assert_eq!(v.mode, VolumeMode::RW);
}

#[test]
fn volume_spec_rejects_bad_shapes() {
    assert!(matches!(parse_volume_spec("/h:/c:RX"), Err(VolumeSpecError::BadMode)));
    assert!(matches!(parse_volume_spec("/h"), Err(VolumeSpecError::WrongShape)));
    assert!(matches!(parse_volume_spec("/h:/c:RO:extra"), Err(VolumeSpecError::WrongShape)));
}

#[test]
fn offer_reads_scalars_with_zero_defaults() {
    let o = Offer::from(
        "O1".to_string(),
        "A1".to_string(),
        "h1".to_string(),
        5051,
        "http".to_string(),
        vec![("cpus".to_string(), 2000), ("mem".to_string(), 512000)],
        vec![("zone".to_string(), "us-east-1".to_string())],
    );
    assert_eq!(o.offer_id, "O1");
    assert_eq!(o.agent_id, "A1");
    assert_eq!(o.hostname, "h1");
    assert_eq!(o.port, 5051);
    assert_eq!(o.scheme, "http");
    assert_eq!(o.cpus, 2000);
    assert_eq!(o.mem, 512000);
    assert_eq!(o.disk, 0);
    assert_eq!(o.gpus, 0);
}

#[test]
fn offer_synthesizes_hostname_attribute() {
    let o = Offer::from(
        "O1".to_string(),
        "A1".to_string(),
        "h1".to_string(),
        5051,
        "http".to_string(),
        Vec::new(),
        Vec::new(),
    );
    assert_eq!(
        o.attributes,
        vec![("hostname".to_string(), "h1".to_string())]
    );

    let o = Offer::from(
        "O1".to_string(),
        "A1".to_string(),
        "h1".to_string(),
        5051,
        "http".to_string(),
        Vec::new(),
        vec![("hostname".to_string(), "given".to_string())],
    );
    assert_eq!(
        o.attributes,
        vec![("hostname".to_string(), "given".to_string())]
    );
}
