//! The request model: value types for the cluster's call/event JSON
//! vocabulary, and the builders that produce each outgoing call.
//!
//! Scalar resource quantities (cpus, mem, disk, gpus) are held in thousandths
//! of a unit, so that offer arithmetic is exact; the adapter that puts a call
//! on the wire divides by 1000 when it serialises a `Scalar`.

use vstd::prelude::*;
use crate::strutil::{
    char_is_ws, is_ws_char, lemma_split_ws_snoc_nonws, lemma_split_ws_snoc_ws, split_ws,
};
use vstd::string::StrSliceExecFns;

verus! {

/// How task output is brought to the local terminal.
#[derive(Clone, Copy, PartialEq, Eq, Structural, Debug)]
pub enum TTYMode {
    Interactive,
    Headless,
}

/// A host path mapped into the container, read-only or read-write.
#[derive(Clone, Copy, PartialEq, Eq, Structural, Debug)]
pub enum VolumeMode {
    RW,
    RO,
}

#[derive(Debug)]
pub struct Volume {
    pub mode: VolumeMode,
    pub container_path: String,
    pub host_path: String,
}

/// The user's request, immutable for the run.  `cpus`, `mem` and `disk` are
/// thousandths of a CPU and of a MiB; `gpus` is thousandths of a GPU.
/// `timeout` is the wait-for-offer deadline in seconds; zero or negative
/// means wait without bound.
pub struct RequestedTaskInfo {
    pub executor: String,
    pub image_name: Option<String>,
    pub cpus: u64,
    pub gpus: u64,
    pub mem: u64,
    pub disk: u64,
    pub args: String,
    pub env_args: Vec<(String, String)>,
    pub verbose_output: bool,
    pub tty_mode: TTYMode,
    pub attrs: Vec<(String, String)>,
    pub volumes: Vec<Volume>,
    pub force_pull: bool,
    pub stderr: bool,
    pub shell: bool,
    pub timeout: i64,
}

/// A scalar resource quantity, in thousandths of a unit.
#[derive(Clone, Copy, PartialEq, Eq, Structural, Debug)]
pub struct Scalar {
    pub value: u64,
}

#[derive(Clone, Copy, PartialEq, Eq, Structural, Debug)]
pub enum ContainerInfoType {
    Docker,
    Mesos,
}

#[derive(Clone, Copy, PartialEq, Eq, Structural, Debug)]
pub enum DockerInfoNetwork {
    Host,
    Bridge,
    Disabled,
    User,
}

#[derive(Clone, Copy, PartialEq, Eq, Structural, Debug)]
pub enum OperationType {
    Unknown,
    Launch,
    LaunchGroup,
    Reserve,
    Unreserve,
    Create,
    Destroy,
    CreateVolume,
    CreateBlock,
    DestroyBlock,
}

#[derive(Debug)]
pub struct Parameter {
    pub key: String,
    pub value: String,
}

#[derive(Debug)]
pub struct CommandInfo {
    pub value: String,
    pub arguments: Vec<String>,
    pub shell: bool,
    pub environment: Option<Environment>,
}

#[derive(Debug)]
pub struct PortMapping {
    pub host_port: u16,
    pub container_port: u16,
    pub protocol: String,
}

#[derive(Debug)]
pub struct DockerInfo {
    pub image: String,
    pub network: DockerInfoNetwork,
    pub port_mappings: Vec<PortMapping>,
    pub parameters: Vec<Parameter>,
    pub privileged: bool,
    pub force_pull_image: bool,
}

#[derive(Clone, Copy, PartialEq, Eq, Structural, Debug)]
pub struct WindowSize {
    pub rows: u16,
    pub columns: u16,
}

#[derive(Clone, Copy, PartialEq, Eq, Structural, Debug)]
pub struct TTYInfo {
    pub window_size: WindowSize,
}

#[derive(Debug)]
pub struct ContainerInfo {
    pub container_type: ContainerInfoType,
    pub docker: DockerInfo,
    pub volumes: Vec<Volume>,
    pub tty_info: Option<TTYInfo>,
}

/// One scalar resource demand of the task.
#[derive(Debug)]
pub struct Resource {
    pub name: String,
    pub resource_type: String,
    pub scalar: Scalar,
}

#[derive(Clone, Copy, PartialEq, Eq, Structural, Debug)]
pub enum ExecutorInfoType {
    Unknown,
    Default,
    Custom,
}

#[derive(Debug)]
pub struct Variable {
    pub name: String,
    pub value: String,
}

#[derive(Debug)]
pub struct Environment {
    pub variables: Vec<Variable>,
}

#[derive(Debug)]
pub struct TaskInfo {
    pub name: String,
    pub task_id: ValueContainer,
    pub agent_id: ValueContainer,
    pub container: Option<ContainerInfo>,
    pub command: CommandInfo,
    pub resources: Vec<Resource>,
}

/// An agent's resource offer, parsed from an OFFERS event.  Scalar amounts
/// are thousandths of a unit; a resource missing from the offer is zero.
#[derive(Debug)]
pub struct Offer {
    pub offer_id: String,
    pub agent_id: String,
    pub hostname: String,
    pub port: u16,
    pub scheme: String,
    pub cpus: u64,
    pub gpus: u64,
    pub mem: u64,
    pub disk: u64,
    pub attributes: Vec<(String, String)>,
}

#[derive(Debug)]
pub struct Capability {
    pub capability_type: String,
}

#[derive(Debug)]
pub struct FrameworkInfo {
    pub user: String,
    pub name: String,
    pub capabilities: Vec<Capability>,
}

#[derive(Debug)]
pub struct SubscribeType {
    pub framework_info: FrameworkInfo,
}

#[derive(Debug)]
pub struct SubscribeRequest {
    pub message_type: String,
    pub subscribe: SubscribeType,
}

/// The kinds of event the master's stream delivers.
#[derive(Clone, Copy, PartialEq, Eq, Structural, Debug)]
pub enum Type {
    Unknown,
    Subscribed,
    Offers,
    InverseOffers,
    Rescind,
    RescindInverseOffer,
    Update,
    OfferOperationUpdate,
    Message,
    Failure,
    Error,
    Heartbeat,
}

#[derive(Debug)]
pub struct FrameworkID {
    pub value: String,
}

#[derive(Debug)]
pub struct Subscribed {
    pub framework_id: FrameworkID,
    pub heartbeat_interval_seconds: i32,
}

/// A task status update, as delivered inside an UPDATE event.
#[derive(Debug)]
pub struct TaskStatus {
    pub state: String,
    pub uuid: Option<String>,
    pub executor_id: Option<String>,
    pub container_id: Option<String>,
    pub reason: String,
    pub message: String,
}

/// One event from the master's stream: its kind together with the payload
/// belonging to that kind.
#[derive(Debug)]
pub struct Event {
    pub event_type: Type,
    pub subscribed: Option<Subscribed>,
    pub offers: Vec<Offer>,
    pub update: Option<TaskStatus>,
}

#[derive(Debug)]
pub struct ValueContainer {
    pub value: String,
}

#[derive(Debug)]
pub struct Launch {
    pub task_infos: Vec<TaskInfo>,
}

/// A refusal filter attached to a decline: how long the declined offer's
/// resources need not be re-offered, in seconds.
#[derive(Clone, Copy, PartialEq, Eq, Structural, Debug)]
pub struct Filters {
    pub refuse_seconds: u64,
}

#[derive(Debug)]
pub struct Accept {
    pub offer_ids: Vec<ValueContainer>,
    pub operations: Vec<Operation>,
    pub filters: Option<Filters>,
}

#[derive(Debug)]
pub struct Operation {
    pub operation_type: OperationType,
    pub launch: Launch,
}

#[derive(Clone, Copy, PartialEq, Eq, Structural, Debug)]
pub enum CallType {
    Unknown,
    Subscribe,
    Teardown,
    Accept,
    Decline,
    AcceptInverseOffers,
    DeclineInverseOffers,
    Revive,
    Kill,
    Shutdown,
    Acknowledge,
    AcknowledgeOfferOperationUpdate,
    Reconcile,
    ReconcileOfferOperations,
    Message,
    Request,
    Suppress,
}

#[derive(Debug)]
pub struct Call {
    pub message_type: CallType,
    pub framework_id: FrameworkID,
    pub accept: Accept,
}

#[derive(Debug)]
pub struct TeardownCall {
    pub message_type: CallType,
    pub framework_id: FrameworkID,
}

#[derive(Debug)]
pub struct Acknowledge {
    pub agent_id: ValueContainer,
    pub task_id: ValueContainer,
    pub uuid: String,
}

#[derive(Debug)]
pub struct AcknowledgeCall {
    pub message_type: CallType,
    pub framework_id: FrameworkID,
    pub acknowledge: Acknowledge,
}

#[derive(Debug)]
pub struct ReadFileRequestData {
    pub length: u32,
    pub offset: u32,
    pub path: String,
}

#[derive(Debug)]
pub struct ReadFileResponseData {
    pub size: u32,
    pub data: String,
}

#[derive(Debug)]
pub struct ReadFileRequest {
    pub request_type: String,
    pub read_file: ReadFileRequestData,
}

#[derive(Debug)]
pub struct ReadFileResponse {
    pub request_type: String,
    pub read_file: ReadFileResponseData,
}

#[derive(Debug)]
pub struct AttachContainerOutput {
    pub container_id: ValueContainer,
}

#[derive(Debug)]
pub struct AttachContainerOutputRequest {
    pub request_type: String,
    pub attach_container_output: AttachContainerOutput,
}

#[derive(Debug)]
pub struct ContainerOutputData {
    pub output_type: String,
    pub data: String,
}

#[derive(Debug)]
pub struct AttachContainerOutputMessage {
    pub message_type: String,
    pub data: ContainerOutputData,
}

/// Splits a command line into its whitespace-separated tokens.
pub fn split(input: String) -> (r: Vec<String>)
    ensures
        r.deep_view() == split_ws(input@),
{
    let s = input.as_str();
    let n = s.unicode_len();
    let mut out: Vec<String> = Vec::new();
    let mut start: usize = 0;
    let mut in_token: bool = false;
    let mut i: usize = 0;
    proof {
        assert(s@.take(0) =~= Seq::<char>::empty());
        assert(out.deep_view() =~= Seq::<Seq<char>>::empty());
    }
    while i < n
        invariant
            n == s@.len(),
            i <= n,
            !in_token ==> (i == 0 || is_ws_char(s@[i - 1])) && split_ws(s@.take(i as int))
                == out.deep_view(),
            in_token ==> {
                &&& start < i
                &&& forall|k: int| start <= k < i ==> !is_ws_char(s@[k])
                &&& split_ws(s@.take(i as int)) == out.deep_view().push(
                    s@.subrange(start as int, i as int),
                )
            },
        decreases n - i,
    {
        let c = s.get_char(i);
        proof {
            assert(s@.take(i as int).push(s@[i as int]) =~= s@.take(i + 1));
        }
        if char_is_ws(c) {
            proof {
                lemma_split_ws_snoc_ws(s@.take(i as int), s@[i as int]);
            }
            if in_token {
                let tok = s.substring_char(start, i).to_owned();
                let ghost pre_out = out.deep_view();
                let ghost tok_v = tok@;
                out.push(tok);
                in_token = false;
                proof {
                    assert(tok_v == s@.subrange(start as int, i as int));
                    assert forall|j: int|
                        0 <= j < out.deep_view().len() implies out.deep_view()[j] == pre_out.push(
                        tok_v,
                    )[j] by {}
                    assert(out.deep_view() =~= pre_out.push(tok_v));
                }
            }
        } else {
            proof {
                lemma_split_ws_snoc_nonws(s@.take(i as int), s@[i as int]);
                if in_token {
                    assert(s@.take(i as int).last() == s@[i - 1]);
                    let pre = split_ws(s@.take(i as int));
                    assert(pre.last() == s@.subrange(start as int, i as int));
                    assert(s@.subrange(start as int, i as int).push(s@[i as int]) =~= s@.subrange(
                        start as int,
                        i + 1,
                    ));
                    assert(out.deep_view().push(s@.subrange(start as int, i + 1)) =~= pre.update(
                        pre.len() - 1,
                        pre.last().push(s@[i as int]),
                    ));
                } else {
                    if i > 0 {
                        assert(s@.take(i as int).last() == s@[i - 1]);
                    }
                    assert(seq![s@[i as int]] =~= s@.subrange(i as int, i + 1));
                }
            }
            if !in_token {
                in_token = true;
                start = i;
            }
        }
        i = i + 1;
    }
    proof {
        assert(s@.take(n as int) =~= s@);
    }
    if in_token {
        let tok = s.substring_char(start, n).to_owned();
        let ghost pre_out = out.deep_view();
        let ghost tok_v = tok@;
        out.push(tok);
        proof {
            assert forall|j: int|
                0 <= j < out.deep_view().len() implies out.deep_view()[j] == pre_out.push(
                tok_v,
            )[j] by {}
            assert(out.deep_view() =~= pre_out.push(tok_v));
        }
    }
    out
}

/// The first whitespace-separated token of `input`, or the empty string when
/// there is none.
pub fn get_argument_value(input: &str) -> (r: String)
    ensures
        r@ == if split_ws(input@).len() > 0 {
            split_ws(input@)[0]
        } else {
            Seq::<char>::empty()
        },
{
    let mut tokens = split(input.to_owned());
    if tokens.len() > 0 {
        let ghost dv = tokens.deep_view();
        let first = tokens.remove(0);
        proof {
            assert(first@ == dv[0]);
        }
        first
    } else {
        String::new()
    }
}

/// Every whitespace-separated token of `input` after the first; empty when
/// `input` has no tokens.
pub fn get_arguments(input: &str) -> (r: Vec<String>)
    ensures
        r.deep_view() == if split_ws(input@).len() > 0 {
            split_ws(input@).drop_first()
        } else {
            Seq::<Seq<char>>::empty()
        },
{
    let mut tokens = split(input.to_owned());
    if tokens.len() > 0 {
        let ghost dv = tokens.deep_view();
        tokens.remove(0);
        proof {
            assert(tokens.deep_view() =~= dv.drop_first());
        }
    }
    tokens
}

/// The amount of the first scalar resource entry named `name`, zero when the
/// offer carries none of that name.
pub open spec fn scalar_named(rs: Seq<(String, u64)>, name: Seq<char>) -> u64
    decreases rs.len(),
{
    if rs.len() == 0 {
        0
    } else if rs[0].0@ == name {
        rs[0].1
    } else {
        scalar_named(rs.drop_first(), name)
    }
}

/// Whether some attribute entry is named `name`.
pub open spec fn has_attr(attrs: Seq<(String, String)>, name: Seq<char>) -> bool {
    exists|i: int| 0 <= i < attrs.len() && (#[trigger] attrs[i]).0@ == name
}

/// The value of the first attribute entry named `name`.
pub open spec fn attr_named(attrs: Seq<(String, String)>, name: Seq<char>) -> Option<Seq<char>>
    decreases attrs.len(),
{
    if attrs.len() == 0 {
        None
    } else if attrs[0].0@ == name {
        Some(attrs[0].1@)
    } else {
        attr_named(attrs.drop_first(), name)
    }
}

/// Looks up the first scalar resource entry named `name`.
pub fn scalar_lookup(rs: &Vec<(String, u64)>, name: &str) -> (v: u64)
    ensures
        v == scalar_named(rs@, name@),
{
    let mut i: usize = 0;
    proof {
        assert(rs@.skip(0) =~= rs@);
    }
    while i < rs.len()
        invariant
            i <= rs@.len(),
            scalar_named(rs@, name@) == scalar_named(rs@.skip(i as int), name@),
        decreases rs@.len() - i,
    {
        proof {
            assert(rs@.skip(i as int)[0] == rs@[i as int]);
            assert(rs@.skip(i as int).drop_first() =~= rs@.skip(i + 1));
        }
        if crate::strutil::str_eq(rs[i].0.as_str(), name) {
            return rs[i].1;
        }
        i = i + 1;
    }
    proof {
        assert(rs@.skip(rs@.len() as int) =~= Seq::<(String, u64)>::empty());
    }
    0
}

/// Looks up the first attribute entry named `name`.
pub fn attr_lookup(attrs: &Vec<(String, String)>, name: &str) -> (v: Option<String>)
    ensures
        match v {
            Some(s) => attr_named(attrs@, name@) == Some(s@),
            None => attr_named(attrs@, name@) is None,
        },
{
    let mut i: usize = 0;
    proof {
        assert(attrs@.skip(0) =~= attrs@);
    }
    while i < attrs.len()
        invariant
            i <= attrs@.len(),
            attr_named(attrs@, name@) == attr_named(attrs@.skip(i as int), name@),
        decreases attrs@.len() - i,
    {
        proof {
            assert(attrs@.skip(i as int)[0] == attrs@[i as int]);
            assert(attrs@.skip(i as int).drop_first() =~= attrs@.skip(i + 1));
        }
        if crate::strutil::str_eq(attrs[i].0.as_str(), name) {
            return Some(attrs[i].1.clone());
        }
        i = i + 1;
    }
    proof {
        assert(attrs@.skip(attrs@.len() as int) =~= Seq::<(String, String)>::empty());
    }
    None
}

/// `attr_named` finds an entry exactly when `has_attr` says one exists.
pub proof fn lemma_attr_named_has(attrs: Seq<(String, String)>, name: Seq<char>)
    ensures
        has_attr(attrs, name) <==> attr_named(attrs, name) is Some,
    decreases attrs.len(),
{
    if attrs.len() > 0 {
        lemma_attr_named_has(attrs.drop_first(), name);
        if attrs[0].0@ == name {
        } else {
            assert forall|i: int|
                0 <= i < attrs.len() && (#[trigger] attrs[i]).0@ == name implies has_attr(
                attrs.drop_first(),
                name,
            ) by {
                assert(attrs.drop_first()[i - 1] == attrs[i]);
            }
            assert forall|i: int|
                0 <= i < attrs.drop_first().len() && (#[trigger] attrs.drop_first()[i]).0@
                    == name implies has_attr(attrs, name) by {
                assert(attrs[i + 1] == attrs.drop_first()[i]);
            }
        }
    }
}

impl Offer {
    /// Builds a typed offer from the fields read out of one entry of an
    /// OFFERS event: the identifiers, the agent's address, the scalar
    /// resources by name, and the attributes by name.  A scalar the offer
    /// lacks is zero; when no attribute is named "hostname", one is added
    /// carrying the offer's own hostname.
    pub fn from(
        offer_id: String,
        agent_id: String,
        hostname: String,
        port: u16,
        scheme: String,
        resources: Vec<(String, u64)>,
        attributes: Vec<(String, String)>,
    ) -> (o: Offer)
        ensures
            o.offer_id == offer_id,
            o.agent_id == agent_id,
            o.hostname == hostname,
            o.port == port,
            o.scheme == scheme,
            o.cpus == scalar_named(resources@, "cpus"@),
            o.gpus == scalar_named(resources@, "gpus"@),
            o.mem == scalar_named(resources@, "mem"@),
            o.disk == scalar_named(resources@, "disk"@),
            has_attr(attributes@, "hostname"@) ==> o.attributes@ == attributes@,
            !has_attr(attributes@, "hostname"@) ==> {
                &&& o.attributes@.len() == attributes@.len() + 1
                &&& o.attributes@.take(attributes@.len() as int) == attributes@
                &&& o.attributes@.last().0@ == "hostname"@
                &&& o.attributes@.last().1@ == hostname@
            },
    {
        let cpus = scalar_lookup(&resources, "cpus");
        let gpus = scalar_lookup(&resources, "gpus");
        let mem = scalar_lookup(&resources, "mem");
        let disk = scalar_lookup(&resources, "disk");
        let mut attributes = attributes;
        proof {
            lemma_attr_named_has(attributes@, "hostname"@);
        }
        let have_hostname = attr_lookup(&attributes, "hostname").is_some();
        if !have_hostname {
            let ghost before = attributes@;
            attributes.push(("hostname".to_owned(), hostname.clone()));
            proof {
                assert(attributes@.take(before.len() as int) =~= before);
            }
        }
        Offer {
            offer_id,
            agent_id,
            hostname,
            port,
            scheme,
            cpus,
            gpus,
            mem,
            disk,
            attributes,
        }
    }
}

/// The fixed SUBSCRIBE call this framework registers with: user "root",
/// the tool's framework name, no capabilities.
pub fn subscribe_request() -> (r: SubscribeRequest)
    ensures
        r.message_type@ == "SUBSCRIBE"@,
        r.subscribe.framework_info.user@ == "root"@,
        r.subscribe.framework_info.name@ == "RExe task executor"@,
        r.subscribe.framework_info.capabilities@.len() == 0,
{
    SubscribeRequest {
        message_type: "SUBSCRIBE".to_owned(),
        subscribe: SubscribeType {
            framework_info: FrameworkInfo {
                user: "root".to_owned(),
                name: "RExe task executor".to_owned(),
                capabilities: Vec::new(),
            },
        },
    }
}

/// One scalar resource entry with the given name and amount.
pub open spec fn resource_is(r: Resource, name: Seq<char>, milli: u64) -> bool {
    &&& r.name@ == name
    &&& r.resource_type@ == "SCALAR"@
    &&& r.scalar.value == milli
}

/// The resource list of a task: always cpus and mem, disk only when
/// requested above zero, gpus only when requested above zero.
pub open spec fn resources_match(rs: Seq<Resource>, info: &RequestedTaskInfo) -> bool {
    let with_disk: int = if info.disk > 0 {
        1
    } else {
        0
    };
    let with_gpus: int = if info.gpus > 0 {
        1
    } else {
        0
    };
    &&& rs.len() == 2 + with_disk + with_gpus
    &&& resource_is(rs[0], "cpus"@, info.cpus)
    &&& resource_is(rs[1], "mem"@, info.mem)
    &&& (info.disk > 0 ==> resource_is(rs[2], "disk"@, info.disk))
    &&& (info.gpus > 0 ==> resource_is(rs[2 + with_disk], "gpus"@, info.gpus))
}

/// Builds the scalar resource demands of the request.
pub fn build_resources(task_info: &RequestedTaskInfo) -> (rs: Vec<Resource>)
    ensures
        resources_match(rs@, task_info),
{
    let mut rs: Vec<Resource> = Vec::new();
    rs.push(
        Resource {
            name: "cpus".to_owned(),
            resource_type: "SCALAR".to_owned(),
            scalar: Scalar { value: task_info.cpus },
        },
    );
    rs.push(
        Resource {
            name: "mem".to_owned(),
            resource_type: "SCALAR".to_owned(),
            scalar: Scalar { value: task_info.mem },
        },
    );
    if task_info.disk > 0 {
        rs.push(
            Resource {
                name: "disk".to_owned(),
                resource_type: "SCALAR".to_owned(),
                scalar: Scalar { value: task_info.disk },
            },
        );
    }
    if task_info.gpus > 0 {
        rs.push(
            Resource {
                name: "gpus".to_owned(),
                resource_type: "SCALAR".to_owned(),
                scalar: Scalar { value: task_info.gpus },
            },
        );
    }
    rs
}

/// The environment block of a command: absent when no variables were given,
/// otherwise one entry per variable in the order given.
pub open spec fn environment_matches(env: Option<Environment>, pairs: Seq<(String, String)>) -> bool {
    if pairs.len() == 0 {
        env is None
    } else {
        &&& env matches Some(e)
        &&& e.variables@.len() == pairs.len()
        &&& forall|i: int|
            0 <= i < pairs.len() ==> (#[trigger] e.variables@[i]).name@ == pairs[i].0@
                && e.variables@[i].value@ == pairs[i].1@
    }
}

/// The terminal window recorded in a task's TTY information: the local
/// terminal's size when it is known, 120 columns by 40 rows otherwise.
pub open spec fn spec_window(win: Option<(u16, u16)>) -> WindowSize {
    match win {
        Some(wh) => WindowSize { rows: wh.1, columns: wh.0 },
        None => WindowSize { rows: 40, columns: 120 },
    }
}

/// The container block of a task: present exactly for the docker executor,
/// bridge-networked, never privileged, with the requested volumes and image.
pub open spec fn container_matches(
    c: Option<ContainerInfo>,
    info: &RequestedTaskInfo,
    tty: TTYMode,
    win: Option<(u16, u16)>,
) -> bool {
    if info.executor@ == "docker"@ {
        &&& c matches Some(ci)
        &&& ci.container_type == ContainerInfoType::Docker
        &&& ci.volumes@ == info.volumes@
        &&& (match info.image_name {
            Some(ref im) => ci.docker.image@ == im@,
            None => ci.docker.image@ == Seq::<char>::empty(),
        })
        &&& ci.docker.network == DockerInfoNetwork::Bridge
        &&& ci.docker.port_mappings@.len() == 0
        &&& ci.docker.parameters@.len() == 0
        &&& !ci.docker.privileged
        &&& ci.docker.force_pull_image == info.force_pull
        &&& (match tty {
            TTYMode::Headless => ci.tty_info is None,
            TTYMode::Interactive => ci.tty_info == Some(
                TTYInfo { window_size: spec_window(win) },
            ),
        })
    } else {
        c is None
    }
}

/// The command block of a task: in shell mode the whole argument string is
/// the command value; otherwise the first token is the executable and the
/// remaining tokens are its arguments.
pub open spec fn command_matches(cmd: CommandInfo, info: &RequestedTaskInfo) -> bool {
    &&& cmd.shell == info.shell
    &&& (if info.shell {
        cmd.value@ == info.args@ && cmd.arguments@.len() == 0
    } else {
        &&& cmd.value@ == (if split_ws(info.args@).len() > 0 {
            split_ws(info.args@)[0]
        } else {
            Seq::<char>::empty()
        })
        &&& cmd.arguments.deep_view() == (if split_ws(info.args@).len() > 0 {
            split_ws(info.args@).drop_first()
        } else {
            Seq::<Seq<char>>::empty()
        })
    })
    &&& environment_matches(cmd.environment, info.env_args@)
}

/// The one task launched for the run.
pub open spec fn task_matches(
    t: TaskInfo,
    agent_id: Seq<char>,
    task_id: Seq<char>,
    info: &RequestedTaskInfo,
    tty: TTYMode,
    win: Option<(u16, u16)>,
) -> bool {
    &&& t.name@ == "rexe-command"@
    &&& t.task_id.value@ == task_id
    &&& t.agent_id.value@ == agent_id
    &&& container_matches(t.container, info, tty, win)
    &&& command_matches(t.command, info)
    &&& resources_match(t.resources@, info)
}

/// The shape of an acceptance of `offer_id` launching one task on
/// `agent_id`.
pub open spec fn is_accept_call(
    c: Call,
    framework_id: Seq<char>,
    offer_id: Seq<char>,
    agent_id: Seq<char>,
    task_id: Seq<char>,
    info: &RequestedTaskInfo,
    tty: TTYMode,
    win: Option<(u16, u16)>,
) -> bool {
    &&& c.message_type == CallType::Accept
    &&& c.framework_id.value@ == framework_id
    &&& c.accept.filters is None
    &&& c.accept.offer_ids@.len() == 1
    &&& c.accept.offer_ids@[0].value@ == offer_id
    &&& c.accept.operations@.len() == 1
    &&& c.accept.operations@[0].operation_type == OperationType::Launch
    &&& c.accept.operations@[0].launch.task_infos@.len() == 1
    &&& task_matches(c.accept.operations@[0].launch.task_infos@[0], agent_id, task_id, info, tty, win)
}

/// Copies a volume list entry for entry.
fn clone_volumes(vs: &Vec<Volume>) -> (r: Vec<Volume>)
    ensures
        r@ == vs@,
{
    let mut r: Vec<Volume> = Vec::new();
    let mut i: usize = 0;
    while i < vs.len()
        invariant
            i <= vs@.len(),
            r@ == vs@.take(i as int),
        decreases vs@.len() - i,
    {
        let v = &vs[i];
        r.push(
            Volume {
                mode: v.mode,
                container_path: v.container_path.clone(),
                host_path: v.host_path.clone(),
            },
        );
        proof {
            assert(r@ =~= vs@.take(i + 1));
        }
        i = i + 1;
    }
    proof {
        assert(vs@.take(vs@.len() as int) =~= vs@);
    }
    r
}

/// Relies on terminal_size::terminal_size to report the local terminal's
/// dimensions as (width, height); the result depends on the machine the
/// process runs on and may be absent.
#[verifier::external_body]
fn query_terminal_size() -> (r: Option<(u16, u16)>) {
    match terminal_size::terminal_size() {
        Some((terminal_size::Width(w), terminal_size::Height(h))) => Some((w, h)),
        None => None,
    }
}

/// Builds the TTY information for an interactive task from the local
/// terminal's size, falling back to 120 columns by 40 rows.
pub fn make_tty_info(win: Option<(u16, u16)>) -> (t: TTYInfo)
    ensures
        t == (TTYInfo { window_size: spec_window(win) }),
{
    match win {
        Some((w, h)) => TTYInfo { window_size: WindowSize { rows: h, columns: w } },
        None => TTYInfo { window_size: WindowSize { rows: 40, columns: 120 } },
    }
}

/// Builds the ACCEPT call that launches the task, with the terminal window
/// size given by the caller.
pub fn accept_request_with_window(
    framework_id: &str,
    offer_id: &str,
    agent_id: &str,
    task_id: &str,
    task_info: &RequestedTaskInfo,
    tty_mode: &TTYMode,
    win: Option<(u16, u16)>,
) -> (c: Call)
    ensures
        is_accept_call(
            c,
            framework_id@,
            offer_id@,
            agent_id@,
            task_id@,
            task_info,
            *tty_mode,
            win,
        ),
{
    let mut env_vars: Vec<Variable> = Vec::new();
    let environment: Option<Environment>;
    if task_info.env_args.len() > 0 {
        let mut i: usize = 0;
        while i < task_info.env_args.len()
            invariant
                i <= task_info.env_args@.len(),
                env_vars@.len() == i,
                forall|j: int|
                    0 <= j < i ==> (#[trigger] env_vars@[j]).name@ == task_info.env_args@[j].0@
                        && env_vars@[j].value@ == task_info.env_args@[j].1@,
            decreases task_info.env_args@.len() - i,
        {
            let pair = &task_info.env_args[i];
            env_vars.push(Variable { name: pair.0.clone(), value: pair.1.clone() });
            i = i + 1;
        }
        environment = Some(Environment { variables: env_vars });
    } else {
        environment = None;
    }
    let container: Option<ContainerInfo> = if crate::strutil::str_eq(
        task_info.executor.as_str(),
        "docker",
    ) {
        Some(
            ContainerInfo {
                container_type: ContainerInfoType::Docker,
                volumes: clone_volumes(&task_info.volumes),
                docker: DockerInfo {
                    image: match &task_info.image_name {
                        Some(image) => image.clone(),
                        None => String::new(),
                    },
                    force_pull_image: task_info.force_pull,
                    privileged: false,
                    network: DockerInfoNetwork::Bridge,
                    parameters: Vec::new(),
                    port_mappings: Vec::new(),
                },
                tty_info: match tty_mode {
                    TTYMode::Headless => None,
                    TTYMode::Interactive => Some(make_tty_info(win)),
                },
            },
        )
    } else {
        None
    };
    let command = CommandInfo {
        value: if task_info.shell {
            task_info.args.clone()
        } else {
            get_argument_value(task_info.args.as_str())
        },
        arguments: if task_info.shell {
            Vec::new()
        } else {
            get_arguments(task_info.args.as_str())
        },
        shell: task_info.shell,
        environment,
    };
    let mut offer_ids: Vec<ValueContainer> = Vec::new();
    offer_ids.push(ValueContainer { value: offer_id.to_owned() });
    let mut task_infos: Vec<TaskInfo> = Vec::new();
    task_infos.push(
        TaskInfo {
            name: "rexe-command".to_owned(),
            task_id: ValueContainer { value: task_id.to_owned() },
            agent_id: ValueContainer { value: agent_id.to_owned() },
            container,
            command,
            resources: build_resources(task_info),
        },
    );
    let mut operations: Vec<Operation> = Vec::new();
    operations.push(
        Operation { operation_type: OperationType::Launch, launch: Launch { task_infos } },
    );
    Call {
        message_type: CallType::Accept,
        framework_id: FrameworkID { value: framework_id.to_owned() },
        accept: Accept { offer_ids, operations, filters: None },
    }
}

/// Builds the ACCEPT call that launches the task.  For an interactive task
/// the local terminal is asked for its window size; whatever it reports, the
/// call is the one `accept_request_with_window` builds for that answer.
pub fn accept_request(
    framework_id: &str,
    offer_id: &str,
    agent_id: &str,
    task_id: &str,
    task_info: &RequestedTaskInfo,
    tty_mode: &TTYMode,
) -> (c: Call)
    ensures
        exists|win: Option<(u16, u16)>|
            is_accept_call(
                c,
                framework_id@,
                offer_id@,
                agent_id@,
                task_id@,
                task_info,
                *tty_mode,
                win,
            ),
{
    let win = query_terminal_size();
    let c = accept_request_with_window(
        framework_id,
        offer_id,
        agent_id,
        task_id,
        task_info,
        tty_mode,
        win,
    );
    proof {
        assert(is_accept_call(
            c,
            framework_id@,
            offer_id@,
            agent_id@,
            task_id@,
            task_info,
            *tty_mode,
            win,
        ));
    }
    c
}

/// Position `k` splits `s` into a name and a value: an equals sign that is
/// neither at the start (the name has at least one character, which may
/// itself be an equals sign only at the very start) nor at the end, with no
/// earlier equals sign after the first character.
pub open spec fn is_kv_split(s: Seq<char>, k: int) -> bool {
    &&& 1 <= k <= s.len() - 2
    &&& s[k] == '='
    &&& forall|j: int| 1 <= j < k ==> s[j] != '='
}

/// Splits a `name=value` argument at its first usable equals sign; `None`
/// when there is none, or nothing before or after it.
pub fn parse_key_value(s: &str) -> (r: Option<(String, String)>)
    ensures
        match r {
            Some(p) => exists|k: int|
                is_kv_split(s@, k) && p.0@ == s@.subrange(0, k) && p.1@ == s@.subrange(
                    k + 1,
                    s@.len() as int,
                ),
            None => forall|k: int| !is_kv_split(s@, k),
        },
{
    let n = s.unicode_len();
    if n < 3 {
        proof {
            assert forall|k: int| !is_kv_split(s@, k) by {}
        }
        return None;
    }
    let mut i: usize = 1;
    while i < n - 1
        invariant
            s@.len() == n,
            3 <= n,
            1 <= i <= n - 1,
            forall|j: int| 1 <= j < i ==> s@[j] != '=',
        decreases n - i,
    {
        if s.get_char(i) == '=' {
            let name = s.substring_char(0, i).to_owned();
            let value = s.substring_char(i + 1, n).to_owned();
            proof {
                assert(is_kv_split(s@, i as int));
            }
            return Some((name, value));
        }
        i = i + 1;
    }
    proof {
        assert forall|k: int| !is_kv_split(s@, k) by {
            if 1 <= k <= s@.len() - 2 {
                assert(s@[k] != '=');
            }
        }
    }
    None
}

/// The parts of `s` between occurrences of `sep`, empties kept: the empty
/// string has one empty part, and every separator opens a new part.
pub open spec fn split_on(s: Seq<char>, sep: char) -> Seq<Seq<char>>
    decreases s.len(),
{
    if s.len() == 0 {
        seq![Seq::empty()]
    } else {
        let pre = split_on(s.drop_last(), sep);
        let c = s.last();
        if c == sep {
            pre.push(Seq::empty())
        } else {
            pre.update(pre.len() - 1, pre.last().push(c))
        }
    }
}

/// The parts have at least one entry.
pub proof fn lemma_split_on_nonempty(s: Seq<char>, sep: char)
    ensures
        split_on(s, sep).len() >= 1,
    decreases s.len(),
{
    if s.len() > 0 {
        lemma_split_on_nonempty(s.drop_last(), sep);
    }
}

/// Splits a string at every occurrence of `sep`, empties kept.
pub fn split_string_on(s: &str, sep: char) -> (r: Vec<String>)
    ensures
        r.deep_view() == split_on(s@, sep),
{
    let n = s.unicode_len();
    let mut out: Vec<String> = Vec::new();
    let mut start: usize = 0;
    let mut i: usize = 0;
    proof {
        assert(s@.take(0) =~= Seq::<char>::empty());
    }
    while i < n
        invariant
            n == s@.len(),
            start <= i <= n,
            forall|k: int| start <= k < i ==> s@[k] != sep,
            (start == 0 || s@[start - 1] == sep),
            split_on(s@.take(i as int), sep) == out.deep_view().push(
                s@.subrange(start as int, i as int),
            ),
        decreases n - i,
    {
        let c = s.get_char(i);
        proof {
            assert(s@.take(i as int).push(s@[i as int]) =~= s@.take(i + 1));
            assert(s@.take(i + 1).drop_last() =~= s@.take(i as int));
            assert(s@.take(i + 1).last() == s@[i as int]);
            lemma_split_on_nonempty(s@.take(i as int), sep);
        }
        if c == sep {
            let part = s.substring_char(start, i).to_owned();
            let ghost pre_out = out.deep_view();
            let ghost part_v = part@;
            out.push(part);
            start = i + 1;
            proof {
                assert forall|j: int|
                    0 <= j < out.deep_view().len() implies out.deep_view()[j] == pre_out.push(
                    part_v,
                )[j] by {}
                assert(out.deep_view() =~= pre_out.push(part_v));
                assert(s@.subrange(start as int, i + 1) =~= Seq::<char>::empty());
            }
        } else {
            proof {
                assert(s@.subrange(start as int, i as int).push(s@[i as int]) =~= s@.subrange(
                    start as int,
                    i + 1,
                ));
                let pre = split_on(s@.take(i as int), sep);
                assert(pre.last() == s@.subrange(start as int, i as int));
                assert(out.deep_view().push(s@.subrange(start as int, i + 1)) =~= pre.update(
                    pre.len() - 1,
                    pre.last().push(s@[i as int]),
                ));
            }
        }
        i = i + 1;
    }
    let part = s.substring_char(start, n).to_owned();
    let ghost pre_out = out.deep_view();
    let ghost part_v = part@;
    out.push(part);
    proof {
        assert(s@.take(n as int) =~= s@);
        assert forall|j: int|
            0 <= j < out.deep_view().len() implies out.deep_view()[j] == pre_out.push(
            part_v,
        )[j] by {}
        assert(out.deep_view() =~= pre_out.push(part_v));
    }
    out
}

/// The volume mode named by a two-character part, upper or lower case.
pub open spec fn spec_volume_mode(p: Seq<char>) -> Option<VolumeMode> {
    if p.len() == 2 && (p[0] == 'R' || p[0] == 'r') && (p[1] == 'O' || p[1] == 'o') {
        Some(VolumeMode::RO)
    } else if p.len() == 2 && (p[0] == 'R' || p[0] == 'r') && (p[1] == 'W' || p[1] == 'w') {
        Some(VolumeMode::RW)
    } else {
        None
    }
}

/// Why a volume argument was rejected.
#[derive(Clone, Copy, PartialEq, Eq, Structural, Debug)]
pub enum VolumeSpecError {
    BadMode,
    WrongShape,
}

/// Parses a volume argument `host:container[:RO|RW]`; the mode defaults to
/// read-write.  An unknown mode, or anything but two or three parts, is
/// rejected.
pub fn parse_volume_spec(s: &str) -> (r: Result<Volume, VolumeSpecError>)
    ensures
        ({
            let parts = split_on(s@, ':');
            if parts.len() == 2 {
                r matches Ok(v) && v.host_path@ == parts[0] && v.container_path@ == parts[1]
                    && v.mode == VolumeMode::RW
            } else if parts.len() == 3 {
                match spec_volume_mode(parts[2]) {
                    Some(m) => r matches Ok(v) && v.host_path@ == parts[0] && v.container_path@
                        == parts[1] && v.mode == m,
                    None => r matches Err(e) && e == VolumeSpecError::BadMode,
                }
            } else {
                r matches Err(e) && e == VolumeSpecError::WrongShape
            }
        }),
{
    let mut parts = split_string_on(s, ':');
    if parts.len() == 2 {
        let container_path = parts.pop().unwrap();
        let host_path = parts.pop().unwrap();
        proof {
            assert(host_path@ == split_on(s@, ':')[0]);
            assert(container_path@ == split_on(s@, ':')[1]);
        }
        Ok(Volume { mode: VolumeMode::RW, container_path, host_path })
    } else if parts.len() == 3 {
        let mode_part = parts.pop().unwrap();
        let container_path = parts.pop().unwrap();
        let host_path = parts.pop().unwrap();
        let ms = mode_part.as_str();
        let mode = if ms.unicode_len() == 2 {
            let c0 = ms.get_char(0);
            let c1 = ms.get_char(1);
            if (c0 == 'R' || c0 == 'r') && (c1 == 'O' || c1 == 'o') {
                Some(VolumeMode::RO)
            } else if (c0 == 'R' || c0 == 'r') && (c1 == 'W' || c1 == 'w') {
                Some(VolumeMode::RW)
            } else {
                None
            }
        } else {
            None
        };
        proof {
            assert(host_path@ == split_on(s@, ':')[0]);
            assert(container_path@ == split_on(s@, ':')[1]);
            assert(mode_part@ == split_on(s@, ':')[2]);
        }
        match mode {
            Some(m) => Ok(Volume { mode: m, container_path, host_path }),
            None => Err(VolumeSpecError::BadMode),
        }
    } else {
        Err(VolumeSpecError::WrongShape)
    }
}

/// The shape of a teardown call for `framework_id`.
pub open spec fn is_teardown_call(c: TeardownCall, framework_id: Seq<char>) -> bool {
    &&& c.message_type == CallType::Teardown
    &&& c.framework_id.value@ == framework_id
}

/// Builds the TEARDOWN call for the framework.
pub fn teardown_request(framework_id: &str) -> (c: TeardownCall)
    ensures
        is_teardown_call(c, framework_id@),
{
    TeardownCall {
        message_type: CallType::Teardown,
        framework_id: FrameworkID { value: framework_id.to_owned() },
    }
}

/// The shape of an acknowledgement of the status update carrying `uuid`.
pub open spec fn is_acknowledge_call(
    c: AcknowledgeCall,
    framework_id: Seq<char>,
    agent_id: Seq<char>,
    task_id: Seq<char>,
    uuid: Seq<char>,
) -> bool {
    &&& c.message_type == CallType::Acknowledge
    &&& c.framework_id.value@ == framework_id
    &&& c.acknowledge.agent_id.value@ == agent_id
    &&& c.acknowledge.task_id.value@ == task_id
    &&& c.acknowledge.uuid@ == uuid
}

/// Builds the ACKNOWLEDGE call referencing framework, agent, task and the
/// status update's uuid.
pub fn acknowledge_request(framework_id: &str, agent_id: &str, task_id: &str, uuid: &str) -> (c:
    AcknowledgeCall)
    ensures
        is_acknowledge_call(c, framework_id@, agent_id@, task_id@, uuid@),
{
    AcknowledgeCall {
        message_type: CallType::Acknowledge,
        framework_id: FrameworkID { value: framework_id.to_owned() },
        acknowledge: Acknowledge {
            agent_id: ValueContainer { value: agent_id.to_owned() },
            task_id: ValueContainer { value: task_id.to_owned() },
            uuid: uuid.to_owned(),
        },
    }
}

/// The shape of a decline of `offer_id`: an ACCEPT-typed call whose
/// operations list is empty, carrying a refusal filter.
pub open spec fn is_decline_call(
    c: Call,
    framework_id: Seq<char>,
    offer_id: Seq<char>,
    refuse_seconds: u64,
) -> bool {
    &&& c.message_type == CallType::Accept
    &&& c.framework_id.value@ == framework_id
    &&& c.accept.offer_ids@.len() == 1
    &&& c.accept.offer_ids@[0].value@ == offer_id
    &&& c.accept.operations@.len() == 0
    &&& c.accept.filters == Some(Filters { refuse_seconds })
}

/// Builds the decline of one offer.  A decline is encoded as an ACCEPT with
/// no operations, which the master treats the same way.
pub fn decline_request(framework_id: &str, offer_id: &str, refuse_seconds: u64) -> (c: Call)
    ensures
        is_decline_call(c, framework_id@, offer_id@, refuse_seconds),
{
    let mut offer_ids: Vec<ValueContainer> = Vec::new();
    offer_ids.push(ValueContainer { value: offer_id.to_owned() });
    Call {
        message_type: CallType::Accept,
        framework_id: FrameworkID { value: framework_id.to_owned() },
        accept: Accept {
            offer_ids,
            operations: Vec::new(),
            filters: Some(Filters { refuse_seconds }),
        },
    }
}

/// A decline produced by the request model is exactly an ACCEPT call for the
/// same offer id with an empty operations array: the two shapes are one and
/// the same, so their encodings cannot differ.
pub proof fn lemma_decline_is_empty_accept(
    c: Call,
    framework_id: Seq<char>,
    offer_id: Seq<char>,
    refuse_seconds: u64,
)
    requires
        is_decline_call(c, framework_id, offer_id, refuse_seconds),
    ensures
        c.message_type == CallType::Accept,
        c.accept.operations@.len() == 0,
        c.accept.offer_ids@.len() == 1 && c.accept.offer_ids@[0].value@ == offer_id,
        c.framework_id.value@ == framework_id,
{
}

} // verus!
