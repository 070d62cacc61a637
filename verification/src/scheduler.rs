//! The scheduler state machine.  It consumes the typed events of the
//! master's stream and decides, without performing any transport itself,
//! which calls to send, when to start and stop the console, and when and how
//! the process exits.  The adapter around it posts each emitted call and
//! feeds back the next event.

use vstd::prelude::*;
use crate::strutil::{compose_host_url, dec_str, str_eq};
use crate::types::{
    attr_named, attr_lookup, is_accept_call, is_acknowledge_call, is_decline_call,
    is_teardown_call, accept_request, acknowledge_request, decline_request, teardown_request,
    AcknowledgeCall, Call, Event, Offer, RequestedTaskInfo, TaskStatus, TeardownCall, TTYMode,
    Type,
};
use vstd::string::{StrSliceExecFns, StringExecFns};

verus! {

/// The run's phase, in its monotone order.
#[derive(Clone, Copy, PartialEq, Eq, Structural, Debug)]
pub enum SchedulerState {
    Started,
    Subscribed,
    Scheduled,
    Running,
}

/// The position of a phase in the run's order.
pub open spec fn state_rank(s: SchedulerState) -> int {
    match s {
        SchedulerState::Started => 0,
        SchedulerState::Subscribed => 1,
        SchedulerState::Scheduled => 2,
        SchedulerState::Running => 3,
    }
}

/// Whether a compiled form of `pattern` accepts `text`: `None` when the
/// pattern does not compile, otherwise whether it matches.
pub uninterp spec fn spec_regex_match(pattern: Seq<char>, text: Seq<char>) -> Option<bool>;

/// Relies on regex::Regex::new and regex::Regex::is_match: whether the
/// pattern compiles, and whether it then matches the text, are functions of
/// the two strings alone.
#[verifier::external_body]
fn regex_is_match(pattern: &str, text: &str) -> (r: Option<bool>)
    ensures
        r == spec_regex_match(pattern@, text@),
{
    match regex::Regex::new(pattern) {
        Ok(re) => Some(re.is_match(text)),
        Err(_) => None,
    }
}

/// Whether a requested attribute value is written as a pattern: it starts
/// and ends with a slash, with the pattern between them.
pub open spec fn is_regex_form(v: Seq<char>) -> bool {
    v.len() >= 2 && v[0] == '/' && v.last() == '/'
}

/// The anchored pattern made from a requested attribute value written
/// between slashes.
pub open spec fn anchored_pattern(v: Seq<char>) -> Seq<char> {
    "^(?:"@ + v.subrange(1, v.len() - 1) + ")$"@
}

/// Whether an offered attribute value satisfies a requested one: by the
/// anchored pattern when the request is written between slashes, by
/// character equality otherwise.
pub open spec fn attr_satisfied(req_val: Seq<char>, offer_val: Seq<char>) -> bool {
    if is_regex_form(req_val) {
        spec_regex_match(anchored_pattern(req_val), offer_val) == Some(true)
    } else {
        req_val == offer_val
    }
}

/// Whether the offer's attributes carry `name` with a value satisfying
/// `req_val`; an attribute the offer lacks fails the predicate.
pub open spec fn offer_attr_ok(
    name: Seq<char>,
    req_val: Seq<char>,
    offer_attrs: Seq<(String, String)>,
) -> bool {
    match attr_named(offer_attrs, name) {
        Some(v) => attr_satisfied(req_val, v),
        None => false,
    }
}

/// Whether the offer satisfies the request: every attribute predicate holds
/// and each scalar resource is at least the requested amount.
pub open spec fn spec_usable(info: &RequestedTaskInfo, offer: &Offer) -> bool {
    &&& forall|i: int|
        0 <= i < info.attrs@.len() ==> offer_attr_ok(
            (#[trigger] info.attrs@[i]).0@,
            info.attrs@[i].1@,
            offer.attributes@,
        )
    &&& offer.cpus >= info.cpus
    &&& offer.gpus >= info.gpus
    &&& offer.disk >= info.disk
    &&& offer.mem >= info.mem
}

/// If an offer is usable, any offer with the same attributes and at least
/// its scalar resources is usable for the same request.
pub proof fn lemma_usable_monotonic(info: &RequestedTaskInfo, a: &Offer, b: &Offer)
    requires
        spec_usable(info, a),
        b.cpus >= a.cpus,
        b.mem >= a.mem,
        b.disk >= a.disk,
        b.gpus >= a.gpus,
        b.attributes@ == a.attributes@,
    ensures
        spec_usable(info, b),
{
}

/// Relies on rand's Alphanumeric distribution through
/// SampleString::sample_string, which returns a string of exactly the
/// requested number of alphanumeric characters; the characters are random.
#[verifier::external_body]
fn random_task_id() -> (r: String)
    ensures
        r@.len() == 10,
{
    rand::distr::SampleString::sample_string(
        &rand::distr::Alphanumeric,
        &mut rand::rng(),
        10,
    )
}

/// What the adapter must do to start a console for the now-running task.
/// The state URL serves to read the agent's work directory; the api URL
/// receives the console's operator calls.
pub struct ConsoleRequest {
    pub mode: TTYMode,
    pub agent_api_url: String,
    pub agent_state_url: String,
    pub agent_id: String,
    pub framework_id: String,
    pub executor_id: String,
    pub container_id: String,
    pub capture_stderr: bool,
}

/// One side effect the scheduler asks its adapter to perform, in order.
/// A failed accept delivery is fatal to the run; failed decline,
/// acknowledge and teardown deliveries are logged only.
pub enum Action {
    DeliverAccept { call: Call, task_id: String },
    DeliverDecline { call: Call },
    DeliverAcknowledge { ack: AcknowledgeCall },
    StartConsole { request: ConsoleRequest },
    FinishConsole,
    DeliverTeardown { teardown: TeardownCall },
    ExitProcess { code: i32 },
}

/// The scheduler's mutable run state.  The selection fields are set exactly
/// once, at acceptance.
pub struct Scheduler {
    pub state: SchedulerState,
    pub task_info: RequestedTaskInfo,
    pub scheduler_url: String,
    pub framework_id: String,
    pub stream_id: String,
    pub agent_id: Option<String>,
    pub agent_scheme: Option<String>,
    pub agent_hostname: Option<String>,
    pub agent_port: Option<u16>,
    pub task_id: Option<String>,
}

/// The index of the first usable offer of a batch.
pub open spec fn is_first_usable(info: &RequestedTaskInfo, offers: Seq<Offer>, k: int) -> bool {
    &&& 0 <= k < offers.len()
    &&& spec_usable(info, &offers[k])
    &&& forall|j: int| 0 <= j < k ==> !spec_usable(info, &offers[j])
}

/// Action `j` declines offer `j` with the given refusal period.
pub open spec fn decline_at(r: Seq<Action>, fw: Seq<char>, offers: Seq<Offer>, j: int, refuse: u64) -> bool {
    r[j] matches Action::DeliverDecline { call } && is_decline_call(
        call,
        fw,
        offers[j].offer_id@,
        refuse,
    )
}

/// Action `i` tears the framework down.
pub open spec fn teardown_at(r: Seq<Action>, i: int, fw: Seq<char>) -> bool {
    r[i] matches Action::DeliverTeardown { teardown } && is_teardown_call(teardown, fw)
}

/// Action `i` exits the process with `code`.
pub open spec fn exit_at(r: Seq<Action>, i: int, code: i32) -> bool {
    r[i] matches Action::ExitProcess { code: c } && c == code
}

/// Action `k` accepts offer `k`, launching one task, and the selection
/// recorded afterwards is that offer's agent and the launched task's id.
pub open spec fn accept_at(
    r: Seq<Action>,
    fw: Seq<char>,
    offers: Seq<Offer>,
    k: int,
    info: &RequestedTaskInfo,
    post: &Scheduler,
) -> bool {
    &&& r[k] matches Action::DeliverAccept { call, task_id } && {
        &&& task_id@.len() == 10
        &&& (exists|win: Option<(u16, u16)>|
            is_accept_call(
                call,
                fw,
                offers[k].offer_id@,
                offers[k].agent_id@,
                task_id@,
                info,
                info.tty_mode,
                win,
            ))
        &&& post.task_id matches Some(t) && t@ == task_id@
    }
    &&& post.agent_id matches Some(a) && a@ == offers[k].agent_id@
    &&& post.agent_scheme matches Some(sc) && sc@ == offers[k].scheme@
    &&& post.agent_hostname matches Some(h) && h@ == offers[k].hostname@
    &&& post.agent_port == Some(offers[k].port)
}

/// The selection fields of `post` are those of `pre`.
pub open spec fn selection_unchanged(pre: &Scheduler, post: &Scheduler) -> bool {
    &&& post.agent_id == pre.agent_id
    &&& post.agent_scheme == pre.agent_scheme
    &&& post.agent_hostname == pre.agent_hostname
    &&& post.agent_port == pre.agent_port
    &&& post.task_id == pre.task_id
}

/// The identity fields of `post` are those of `pre`.
pub open spec fn identity_unchanged(pre: &Scheduler, post: &Scheduler) -> bool {
    &&& post.framework_id == pre.framework_id
    &&& post.stream_id == pre.stream_id
    &&& post.scheduler_url == pre.scheduler_url
    &&& post.task_info == pre.task_info
}

/// What one OFFERS batch does.  When the run is already scheduled, every
/// offer is declined with a 600 second refusal.  Otherwise the first usable
/// offer, if any, is accepted and recorded, offers before it are declined
/// with a 5 second refusal and offers after it with 600; with no usable
/// offer everything is declined at 5 seconds and nothing changes.
pub open spec fn offers_outcome(
    pre: &Scheduler,
    post: &Scheduler,
    offers: Seq<Offer>,
    r: Seq<Action>,
) -> bool {
    let fw = pre.framework_id@;
    &&& r.len() == offers.len()
    &&& identity_unchanged(pre, post)
    &&& if state_rank(pre.state) >= 2 {
        &&& post.state == pre.state
        &&& selection_unchanged(pre, post)
        &&& forall|j: int| 0 <= j < offers.len() ==> decline_at(r, fw, offers, j, 600)
    } else if exists|k: int| is_first_usable(&pre.task_info, offers, k) {
        let k = choose|k: int| is_first_usable(&pre.task_info, offers, k);
        &&& post.state == SchedulerState::Scheduled
        &&& accept_at(r, fw, offers, k, &pre.task_info, post)
        &&& forall|j: int| 0 <= j < k ==> decline_at(r, fw, offers, j, 5)
        &&& forall|j: int| k < j < offers.len() ==> decline_at(r, fw, offers, j, 600)
    } else {
        &&& post.state == pre.state
        &&& selection_unchanged(pre, post)
        &&& forall|j: int| 0 <= j < offers.len() ==> decline_at(r, fw, offers, j, 5)
    }
}

/// A malformed event with a missing mandatory payload: the run tears down
/// and exits 1.
pub open spec fn protocol_failure(pre: &Scheduler, post: &Scheduler, r: Seq<Action>) -> bool {
    &&& post == pre
    &&& r.len() == 2
    &&& teardown_at(r, 0, pre.framework_id@)
    &&& exit_at(r, 1, 1)
}

/// What a SUBSCRIBED event does: from the initial state it records the
/// framework id and moves to Subscribed; delivered again later it changes
/// nothing; without its payload it is a protocol failure.
pub open spec fn subscribed_outcome(
    pre: &Scheduler,
    post: &Scheduler,
    payload: &Option<crate::types::Subscribed>,
    r: Seq<Action>,
) -> bool {
    match payload {
        Some(sub) => {
            if pre.state == SchedulerState::Started {
                &&& post.state == SchedulerState::Subscribed
                &&& post.framework_id@ == sub.framework_id.value@
                &&& post.stream_id == pre.stream_id
                &&& post.scheduler_url == pre.scheduler_url
                &&& post.task_info == pre.task_info
                &&& selection_unchanged(pre, post)
                &&& r.len() == 0
            } else {
                post == pre && r.len() == 0
            }
        },
        None => protocol_failure(pre, post, r),
    }
}

/// The terminal failure states of a task.
pub open spec fn is_failure_state(s: Seq<char>) -> bool {
    ||| s == "TASK_ERROR"@
    ||| s == "TASK_FAILED"@
    ||| s == "TASK_KILLED"@
    ||| s == "TASK_KILLING"@
    ||| s == "TASK_DROPPED"@
    ||| s == "REASON_EXECUTOR_TERMINATED"@
    ||| s == "REASON_CONTAINER_LAUNCH_FAILED"@
}

/// An acknowledgement is owed exactly when the update carries a uuid, the
/// run has accepted an offer, and the update is a starting or running
/// transition.
pub open spec fn ack_expected(pre: &Scheduler, status: &TaskStatus) -> bool {
    &&& status.uuid is Some
    &&& state_rank(pre.state) >= 2
    &&& (status.state@ == "TASK_STARTING"@ || status.state@ == "TASK_RUNNING"@)
}

/// Action `i` acknowledges the update's uuid for the recorded framework,
/// agent and task.
pub open spec fn ack_at(r: Seq<Action>, i: int, pre: &Scheduler, status: &TaskStatus) -> bool {
    &&& r[i] matches Action::DeliverAcknowledge { ack } && {
        &&& pre.agent_id matches Some(a)
        &&& pre.task_id matches Some(t)
        &&& status.uuid matches Some(u)
        &&& is_acknowledge_call(ack, pre.framework_id@, a@, t@, u@)
    }
}

/// The console request composed at the Scheduled to Running transition.
pub open spec fn console_request_ok(req: ConsoleRequest, pre: &Scheduler, status: &TaskStatus) -> bool {
    &&& pre.agent_scheme matches Some(sc) && pre.agent_hostname matches Some(h)
        && pre.agent_port matches Some(p) && {
        &&& req.agent_api_url@ == sc@ + "://"@ + h@ + ":"@ + dec_str(p as nat) + "/api/v1"@
        &&& req.agent_state_url@ == sc@ + "://"@ + h@ + ":"@ + dec_str(p as nat) + "/state"@
    }
    &&& pre.agent_id matches Some(a) && req.agent_id@ == a@
    &&& req.framework_id@ == pre.framework_id@
    &&& status.executor_id matches Some(e) && req.executor_id@ == e@
    &&& status.container_id matches Some(c) && req.container_id@ == c@
    &&& req.mode == pre.task_info.tty_mode
    &&& req.capture_stderr == pre.task_info.stderr
}

/// What one UPDATE event does, by the update's state string.
pub open spec fn update_outcome(
    pre: &Scheduler,
    post: &Scheduler,
    status: &TaskStatus,
    r: Seq<Action>,
) -> bool {
    let fw = pre.framework_id@;
    let nack: int = if ack_expected(pre, status) {
        1
    } else {
        0
    };
    &&& identity_unchanged(pre, post)
    &&& selection_unchanged(pre, post)
    &&& if is_failure_state(status.state@) {
        &&& post.state == pre.state
        &&& if pre.state == SchedulerState::Running {
            &&& r.len() == 3
            &&& r[0] is FinishConsole
            &&& teardown_at(r, 1, fw)
            &&& exit_at(r, 2, 1)
        } else {
            &&& r.len() == 2
            &&& teardown_at(r, 0, fw)
            &&& exit_at(r, 1, 1)
        }
    } else if status.state@ == "TASK_STARTING"@ {
        &&& post.state == pre.state
        &&& r.len() == nack
        &&& (ack_expected(pre, status) ==> ack_at(r, 0, pre, status))
    } else if status.state@ == "TASK_RUNNING"@ {
        &&& (ack_expected(pre, status) ==> ack_at(r, 0, pre, status))
        &&& if pre.state == SchedulerState::Scheduled {
            if status.executor_id is Some && status.container_id is Some {
                &&& post.state == SchedulerState::Running
                &&& r.len() == nack + 1
                &&& r[nack] matches Action::StartConsole { request } && console_request_ok(
                    request,
                    pre,
                    status,
                )
            } else {
                &&& post.state == pre.state
                &&& r.len() == nack + 2
                &&& teardown_at(r, nack, fw)
                &&& exit_at(r, nack + 1, 1)
            }
        } else {
            &&& post.state == pre.state
            &&& r.len() == nack
        }
    } else if status.state@ == "TASK_FINISHED"@ {
        &&& post.state == pre.state
        &&& if pre.state == SchedulerState::Running {
            &&& r.len() == 3
            &&& r[0] is FinishConsole
            &&& teardown_at(r, 1, fw)
            &&& exit_at(r, 2, 0)
        } else {
            &&& r.len() == 2
            &&& teardown_at(r, 0, fw)
            &&& exit_at(r, 1, 0)
        }
    } else {
        &&& post == pre
        &&& r.len() == 0
    }
}

impl Scheduler {
    /// The selection fields are present from Scheduled on.
    pub open spec fn wf(&self) -> bool {
        state_rank(self.state) >= 2 ==> {
            &&& self.agent_id is Some
            &&& self.agent_scheme is Some
            &&& self.agent_hostname is Some
            &&& self.agent_port is Some
            &&& self.task_id is Some
        }
    }

    /// A fresh scheduler for one run, before any event.
    pub fn new(scheduler_url: String, task_info: RequestedTaskInfo, stream_id: String) -> (s:
        Scheduler)
        ensures
            s.wf(),
            s.state == SchedulerState::Started,
            s.task_info == task_info,
            s.scheduler_url == scheduler_url,
            s.stream_id == stream_id,
            s.framework_id@ == Seq::<char>::empty(),
            s.agent_id is None,
            s.agent_scheme is None,
            s.agent_hostname is None,
            s.agent_port is None,
            s.task_id is None,
    {
        Scheduler {
            state: SchedulerState::Started,
            task_info,
            scheduler_url,
            framework_id: String::new(),
            stream_id,
            agent_id: None,
            agent_scheme: None,
            agent_hostname: None,
            agent_port: None,
            task_id: None,
        }
    }

    /// Whether an offer has been accepted in this run.
    pub fn is_scheduled(&self) -> (r: bool)
        ensures
            r == (state_rank(self.state) >= 2),
    {
        match self.state {
            SchedulerState::Scheduled => true,
            SchedulerState::Running => true,
            _ => false,
        }
    }

    /// Records the framework id on the SUBSCRIBED event.
    pub fn set_subscribed(&mut self, framework_id: String)
        requires
            old(self).state == SchedulerState::Started,
        ensures
            final(self).state == SchedulerState::Subscribed,
            final(self).framework_id == framework_id,
            final(self).stream_id == old(self).stream_id,
            final(self).scheduler_url == old(self).scheduler_url,
            final(self).task_info == old(self).task_info,
            selection_unchanged(old(self), final(self)),
            final(self).wf(),
    {
        self.state = SchedulerState::Subscribed;
        self.framework_id = framework_id;
    }

    /// Whether one requested attribute predicate holds of the offer.
    pub fn is_useable_attribute(&self, attr_name: &String, attr_value: &String, offer: &Offer) -> (r:
        bool)
        ensures
            r == offer_attr_ok(attr_name@, attr_value@, offer.attributes@),
    {
        let found = attr_lookup(&offer.attributes, attr_name.as_str());
        match found {
            Some(value) => {
                let vs = attr_value.as_str();
                let vlen = vs.unicode_len();
                if vlen >= 2 && vs.get_char(0) == '/' && vs.get_char(vlen - 1) == '/' {
                    let interior = vs.substring_char(1, vlen - 1);
                    let mut pattern = "^(?:".to_owned();
                    pattern.append(interior);
                    pattern.append(")$");
                    proof {
                        assert(pattern@ =~= anchored_pattern(attr_value@));
                    }
                    match regex_is_match(pattern.as_str(), value.as_str()) {
                        Some(m) => m,
                        None => false,
                    }
                } else {
                    str_eq(value.as_str(), vs)
                }
            },
            None => false,
        }
    }

    /// Whether the offer satisfies the whole request.
    pub fn is_useable_offer(&self, offer: &Offer) -> (r: bool)
        ensures
            r == spec_usable(&self.task_info, offer),
    {
        let mut i: usize = 0;
        while i < self.task_info.attrs.len()
            invariant
                i <= self.task_info.attrs@.len(),
                forall|j: int|
                    0 <= j < i ==> offer_attr_ok(
                        (#[trigger] self.task_info.attrs@[j]).0@,
                        self.task_info.attrs@[j].1@,
                        offer.attributes@,
                    ),
            decreases self.task_info.attrs@.len() - i,
        {
            let pair = &self.task_info.attrs[i];
            if !self.is_useable_attribute(&pair.0, &pair.1, offer) {
                return false;
            }
            i = i + 1;
        }
        offer.cpus >= self.task_info.cpus && offer.gpus >= self.task_info.gpus && offer.disk
            >= self.task_info.disk && offer.mem >= self.task_info.mem
    }

    /// The teardown-then-exit tail of every fatal or final path.
    pub fn deregister_exit(&self, exit_code: i32) -> (r: Vec<Action>)
        ensures
            r@.len() == 2,
            teardown_at(r@, 0, self.framework_id@),
            exit_at(r@, 1, exit_code),
    {
        let mut r: Vec<Action> = Vec::new();
        r.push(Action::DeliverTeardown { teardown: teardown_request(self.framework_id.as_str()) });
        r.push(Action::ExitProcess { code: exit_code });
        r
    }

    /// The acknowledgement of one status update's uuid.
    fn acknowledge(&self, uuid: &str) -> (c: AcknowledgeCall)
        requires
            self.wf(),
            state_rank(self.state) >= 2,
        ensures
            self.agent_id matches Some(a) && self.task_id matches Some(t) && is_acknowledge_call(
                c,
                self.framework_id@,
                a@,
                t@,
                uuid@,
            ),
    {
        let agent_id = self.agent_id.as_ref().unwrap();
        let task_id = self.task_id.as_ref().unwrap();
        acknowledge_request(self.framework_id.as_str(), agent_id.as_str(), task_id.as_str(), uuid)
    }

    /// Handles one OFFERS batch: accepts the first usable offer when none
    /// has been accepted yet, declines everything else.
    pub fn handle_offers(&mut self, offers: &Vec<Offer>) -> (r: Vec<Action>)
        requires
            old(self).wf(),
        ensures
            final(self).wf(),
            offers_outcome(old(self), final(self), offers@, r@),
    {
        let ghost pre = *old(self);
        let mut r: Vec<Action> = Vec::new();
        let mut i: usize = 0;
        let ghost mut accepted_k: Option<int> = None;
        while i < offers.len()
            invariant
                self.wf(),
                i <= offers@.len(),
                r@.len() == i,
                identity_unchanged(&pre, self),
                pre.wf(),
                state_rank(pre.state) >= 2 ==> {
                    &&& self.state == pre.state
                    &&& selection_unchanged(&pre, self)
                    &&& accepted_k is None
                    &&& forall|j: int| 0 <= j < i ==> decline_at(r@, pre.framework_id@, offers@, j, 600)
                },
                state_rank(pre.state) < 2 ==> match accepted_k {
                    Some(k) => {
                        &&& is_first_usable(&pre.task_info, offers@, k)
                        &&& k < i
                        &&& self.state == SchedulerState::Scheduled
                        &&& accept_at(r@, pre.framework_id@, offers@, k, &pre.task_info, self)
                        &&& forall|j: int| 0 <= j < k ==> decline_at(r@, pre.framework_id@, offers@, j, 5)
                        &&& forall|j: int| k < j < i ==> decline_at(r@, pre.framework_id@, offers@, j, 600)
                    },
                    None => {
                        &&& self.state == pre.state
                        &&& selection_unchanged(&pre, self)
                        &&& forall|j: int| 0 <= j < i ==> !spec_usable(&pre.task_info, &offers@[j])
                        &&& forall|j: int| 0 <= j < i ==> decline_at(r@, pre.framework_id@, offers@, j, 5)
                    },
                },
            decreases offers@.len() - i,
        {
            let ghost r0 = r@;
            let ghost self0 = *self;
            let offer = &offers[i];
            if !self.is_scheduled() && self.is_useable_offer(offer) {
                let task_id = random_task_id();
                let call = accept_request(
                    self.framework_id.as_str(),
                    offer.offer_id.as_str(),
                    offer.agent_id.as_str(),
                    task_id.as_str(),
                    &self.task_info,
                    &self.task_info.tty_mode,
                );
                let ghost tid = task_id@;
                let ghost call_g = call;
                self.state = SchedulerState::Scheduled;
                self.task_id = Some(task_id.clone());
                self.agent_id = Some(offer.agent_id.clone());
                self.agent_scheme = Some(offer.scheme.clone());
                self.agent_hostname = Some(offer.hostname.clone());
                self.agent_port = Some(offer.port);
                r.push(Action::DeliverAccept { call, task_id });
                proof {
                    accepted_k = Some(i as int);
                    assert(r@.len() == i + 1);
                    assert forall|j: int| 0 <= j < i implies r@[j] == r0[j] by {}
                    assert(r@[i as int] == r@.last());
                    assert(spec_usable(&pre.task_info, &offers@[i as int]));
                    assert(is_first_usable(&pre.task_info, offers@, i as int));
                    let w = choose|w: Option<(u16, u16)>|
                        is_accept_call(
                            call_g,
                            self0.framework_id@,
                            offers@[i as int].offer_id@,
                            offers@[i as int].agent_id@,
                            tid,
                            &self0.task_info,
                            self0.task_info.tty_mode,
                            w,
                        );
                    assert(is_accept_call(
                        call_g,
                        pre.framework_id@,
                        offers@[i as int].offer_id@,
                        offers@[i as int].agent_id@,
                        tid,
                        &pre.task_info,
                        pre.task_info.tty_mode,
                        w,
                    ));
                    assert(self.task_id matches Some(t) && t@ == tid);
                    assert(self.agent_id matches Some(a) && a@ == offers@[i as int].agent_id@);
                    assert(self.agent_scheme matches Some(sc) && sc@ == offers@[i as int].scheme@);
                    assert(self.agent_hostname matches Some(h) && h@ == offers@[i as int].hostname@);
                    assert(self.agent_port == Some(offers@[i as int].port));
                    assert(r@[i as int] matches Action::DeliverAccept { call: c2, task_id: t2 }
                        && c2 == call_g && t2@ == tid);
                    assert(exists|win: Option<(u16, u16)>|
                        is_accept_call(
                            call_g,
                            pre.framework_id@,
                            offers@[i as int].offer_id@,
                            offers@[i as int].agent_id@,
                            tid,
                            &pre.task_info,
                            pre.task_info.tty_mode,
                            win,
                        ));
                    assert(accept_at(r@, pre.framework_id@, offers@, i as int, &pre.task_info, self));
                    assert forall|j: int|
                        0 <= j < i implies decline_at(r@, pre.framework_id@, offers@, j, 5) by {
                        assert(decline_at(r0, pre.framework_id@, offers@, j, 5));
                        assert(r@[j] == r0[j]);
                    }
                }
            } else {
                let refuse: u64 = if self.is_scheduled() {
                    600
                } else {
                    5
                };
                let call = decline_request(
                    self.framework_id.as_str(),
                    offer.offer_id.as_str(),
                    refuse,
                );
                r.push(Action::DeliverDecline { call });
                proof {
                    assert(r@.len() == i + 1);
                    assert forall|j: int| 0 <= j < i implies r@[j] == r0[j] by {}
                    assert(r@[i as int] == r@.last());
                    assert(decline_at(r@, pre.framework_id@, offers@, i as int, refuse));
                    if state_rank(pre.state) >= 2 {
                        assert forall|j: int|
                            0 <= j < i + 1 implies decline_at(
                            r@,
                            pre.framework_id@,
                            offers@,
                            j,
                            600,
                        ) by {
                            if j < i {
                                assert(decline_at(r0, pre.framework_id@, offers@, j, 600));
                                assert(r@[j] == r0[j]);
                            }
                        }
                    } else {
                        match accepted_k {
                            Some(k) => {
                                assert(accept_at(
                                    r0,
                                    pre.framework_id@,
                                    offers@,
                                    k,
                                    &pre.task_info,
                                    &self0,
                                ));
                                assert(r@[k] == r0[k]);
                                assert(accept_at(
                                    r@,
                                    pre.framework_id@,
                                    offers@,
                                    k,
                                    &pre.task_info,
                                    self,
                                ));
                                assert forall|j: int|
                                    0 <= j < k implies decline_at(
                                    r@,
                                    pre.framework_id@,
                                    offers@,
                                    j,
                                    5,
                                ) by {
                                    assert(decline_at(r0, pre.framework_id@, offers@, j, 5));
                                    assert(r@[j] == r0[j]);
                                }
                                assert forall|j: int|
                                    k < j < i + 1 implies decline_at(
                                    r@,
                                    pre.framework_id@,
                                    offers@,
                                    j,
                                    600,
                                ) by {
                                    if j < i {
                                        assert(decline_at(r0, pre.framework_id@, offers@, j, 600));
                                        assert(r@[j] == r0[j]);
                                    }
                                }
                            },
                            None => {
                                assert forall|j: int|
                                    0 <= j < i + 1 implies decline_at(
                                    r@,
                                    pre.framework_id@,
                                    offers@,
                                    j,
                                    5,
                                ) by {
                                    if j < i {
                                        assert(decline_at(r0, pre.framework_id@, offers@, j, 5));
                                        assert(r@[j] == r0[j]);
                                    }
                                }
                            },
                        }
                    }
                }
            }
            i = i + 1;
        }
        proof {
            if state_rank(pre.state) < 2 {
                match accepted_k {
                    Some(k) => {
                        let kc = choose|k2: int| is_first_usable(&pre.task_info, offers@, k2);
                        assert(is_first_usable(&pre.task_info, offers@, k));
                        assert(is_first_usable(&pre.task_info, offers@, kc));
                        if kc < k {
                            assert(!spec_usable(&pre.task_info, &offers@[kc]));
                        } else if k < kc {
                            assert(!spec_usable(&pre.task_info, &offers@[k]));
                        }
                        assert(kc == k);
                    },
                    None => {
                        assert(forall|k: int|
                            !is_first_usable(&pre.task_info, offers@, k));
                    },
                }
            }
        }
        r
    }

    /// Handles one UPDATE by the task's reported state: failure states
    /// drain the console if one runs, tear down and exit 1; starting and
    /// running updates are acknowledged when they carry a uuid; the first
    /// running update starts the console; finished drains the console,
    /// tears down and exits 0.
    pub fn handle_update(&mut self, status: &TaskStatus) -> (r: Vec<Action>)
        requires
            old(self).wf(),
        ensures
            final(self).wf(),
            update_outcome(old(self), final(self), status, r@),
    {
        let mut r: Vec<Action> = Vec::new();
        if is_failure_state_str(status.state.as_str()) {
            if matches!(self.state, SchedulerState::Running) {
                r.push(Action::FinishConsole);
                let mut tail = self.deregister_exit(1);
                r.append(&mut tail);
                proof {
                    assert(teardown_at(r@, 1, self.framework_id@));
                    assert(exit_at(r@, 2, 1));
                }
                return r;
            }
            return self.deregister_exit(1);
        }
        if str_eq(status.state.as_str(), "TASK_STARTING") {
            if self.is_scheduled() {
                match &status.uuid {
                    Some(u) => {
                        r.push(Action::DeliverAcknowledge { ack: self.acknowledge(u.as_str()) });
                    },
                    None => {},
                }
            }
            return r;
        }
        if str_eq(status.state.as_str(), "TASK_RUNNING") {
            if self.is_scheduled() {
                match &status.uuid {
                    Some(u) => {
                        r.push(Action::DeliverAcknowledge { ack: self.acknowledge(u.as_str()) });
                    },
                    None => {},
                }
            }
            if matches!(self.state, SchedulerState::Scheduled) {
                if status.executor_id.is_some() && status.container_id.is_some() {
                    let scheme = self.agent_scheme.as_ref().unwrap();
                    let host = self.agent_hostname.as_ref().unwrap();
                    let port = self.agent_port.unwrap();
                    let base = compose_host_url(scheme.as_str(), host.as_str(), port);
                    let mut api_url = base.clone();
                    api_url.append("/api/v1");
                    let mut state_url = base;
                    state_url.append("/state");
                    let request = ConsoleRequest {
                        mode: self.task_info.tty_mode,
                        agent_api_url: api_url,
                        agent_state_url: state_url,
                        agent_id: self.agent_id.as_ref().unwrap().clone(),
                        framework_id: self.framework_id.clone(),
                        executor_id: status.executor_id.as_ref().unwrap().clone(),
                        container_id: status.container_id.as_ref().unwrap().clone(),
                        capture_stderr: self.task_info.stderr,
                    };
                    self.state = SchedulerState::Running;
                    r.push(Action::StartConsole { request });
                } else {
                    let mut tail = self.deregister_exit(1);
                    let ghost rlen = r@.len() as int;
                    r.append(&mut tail);
                    proof {
                        assert(teardown_at(r@, rlen, self.framework_id@));
                        assert(exit_at(r@, rlen + 1, 1));
                    }
                }
            }
            return r;
        }
        if str_eq(status.state.as_str(), "TASK_FINISHED") {
            if matches!(self.state, SchedulerState::Running) {
                r.push(Action::FinishConsole);
                let mut tail = self.deregister_exit(0);
                r.append(&mut tail);
                proof {
                    assert(teardown_at(r@, 1, self.framework_id@));
                    assert(exit_at(r@, 2, 0));
                }
                return r;
            }
            return self.deregister_exit(0);
        }
        r
    }

    /// Dispatches one event of the master's stream.
    pub fn handle_message(&mut self, event: &Event) -> (r: Vec<Action>)
        requires
            old(self).wf(),
        ensures
            final(self).wf(),
            match event.event_type {
                Type::Subscribed => subscribed_outcome(
                    old(self),
                    final(self),
                    &event.subscribed,
                    r@,
                ),
                Type::Offers => offers_outcome(old(self), final(self), event.offers@, r@),
                Type::Update => match &event.update {
                    Some(st) => update_outcome(old(self), final(self), st, r@),
                    None => protocol_failure(old(self), final(self), r@),
                },
                _ => *final(self) == *old(self) && r@.len() == 0,
            },
    {
        match event.event_type {
            Type::Subscribed => {
                match &event.subscribed {
                    Some(sub) => {
                        if matches!(self.state, SchedulerState::Started) {
                            self.set_subscribed(sub.framework_id.value.clone());
                        }
                        Vec::new()
                    },
                    None => self.deregister_exit(1),
                }
            },
            Type::Offers => self.handle_offers(&event.offers),
            Type::Update => {
                match &event.update {
                    Some(st) => self.handle_update(st),
                    None => self.deregister_exit(1),
                }
            },
            _ => Vec::new(),
        }
    }
}

/// The terminal failure states, tested on the wire string.
pub fn is_failure_state_str(s: &str) -> (r: bool)
    ensures
        r == is_failure_state(s@),
{
    str_eq(s, "TASK_ERROR") || str_eq(s, "TASK_FAILED") || str_eq(s, "TASK_KILLED") || str_eq(
        s,
        "TASK_KILLING",
    ) || str_eq(s, "TASK_DROPPED") || str_eq(s, "REASON_EXECUTOR_TERMINATED") || str_eq(
        s,
        "REASON_CONTAINER_LAUNCH_FAILED",
    )
}

/// The deadline timer's decision when it fires.  `received` is what the
/// timer could read from its channel: nothing means no offer was accepted in
/// time, so the process exits 10; a recorded Scheduled means the run went
/// ahead and the timer does nothing; any other recorded state exits 20.
/// The timeout path exits directly, with no teardown attempt: the timer
/// thread does not reach the run's state.
pub fn timeout_outcome(received: Option<SchedulerState>) -> (r: Option<i32>)
    ensures
        r == match received {
            None => Some(10i32),
            Some(s) => if s == SchedulerState::Scheduled {
                None::<i32>
            } else {
                Some(20i32)
            },
        },
{
    match received {
        None => Some(10),
        Some(s) => {
            if matches!(s, SchedulerState::Scheduled) {
                None
            } else {
                Some(20)
            }
        },
    }
}

/// Whether a subscribe response's stream id header makes the run viable: it
/// must be present and non-empty.
pub fn stream_id_usable(id: &Option<String>) -> (r: bool)
    ensures
        r == (id matches Some(s) && s@.len() > 0),
{
    match id {
        Some(s) => s.as_str().unicode_len() > 0,
        None => false,
    }
}

/// The sandbox directory of the launched task on its agent, composed from
/// the agent's work directory; a missing work directory falls back to
/// /var/lib/mesos.
pub open spec fn spec_sandbox_path(
    work_dir: Seq<char>,
    agent_id: Seq<char>,
    framework_id: Seq<char>,
    executor_id: Seq<char>,
    container_id: Seq<char>,
) -> Seq<char> {
    work_dir + "/slaves/"@ + agent_id + "/frameworks/"@ + framework_id + "/executors/"@
        + executor_id + "/runs/"@ + container_id
}

/// Composes the sandbox path from the agent's reported work directory.
pub fn get_sandbox_path(
    work_dir: Option<String>,
    agent_id: &str,
    framework_id: &str,
    executor_id: &str,
    container_id: &str,
) -> (r: String)
    ensures
        r@ == spec_sandbox_path(
            match work_dir {
                Some(w) => w@,
                None => "/var/lib/mesos"@,
            },
            agent_id@,
            framework_id@,
            executor_id@,
            container_id@,
        ),
{
    let mut path = match work_dir {
        Some(w) => w,
        None => "/var/lib/mesos".to_owned(),
    };
    path.append("/slaves/");
    path.append(agent_id);
    path.append("/frameworks/");
    path.append(framework_id);
    path.append("/executors/");
    path.append(executor_id);
    path.append("/runs/");
    path.append(container_id);
    proof {
        assert(path@ =~= spec_sandbox_path(
            match work_dir {
                Some(w) => w@,
                None => "/var/lib/mesos"@,
            },
            agent_id@,
            framework_id@,
            executor_id@,
            container_id@,
        ));
    }
    path
}

/// The number of accept deliveries among a batch's actions.
pub open spec fn accept_count(r: Seq<Action>) -> int
    decreases r.len(),
{
    if r.len() == 0 {
        0
    } else {
        accept_count(r.drop_last()) + if r.last() is DeliverAccept {
            1int
        } else {
            0int
        }
    }
}

/// Counting accepts from a pointwise description: none anywhere gives zero,
/// exactly one position gives one.
pub proof fn lemma_accept_count_pointwise(r: Seq<Action>, k: Option<int>)
    requires
        match k {
            Some(k) => 0 <= k < r.len() && r[k] is DeliverAccept && forall|j: int|
                0 <= j < r.len() && j != k ==> !((#[trigger] r[j]) is DeliverAccept),
            None => forall|j: int| 0 <= j < r.len() ==> !((#[trigger] r[j]) is DeliverAccept),
        },
    ensures
        accept_count(r) == match k {
            Some(_) => 1int,
            None => 0int,
        },
    decreases r.len(),
{
    if r.len() > 0 {
        match k {
            Some(k) => {
                if k == r.len() - 1 {
                    lemma_accept_count_pointwise(r.drop_last(), None);
                } else {
                    lemma_accept_count_pointwise(r.drop_last(), Some(k));
                }
            },
            None => {
                lemma_accept_count_pointwise(r.drop_last(), None);
            },
        }
    }
}

/// One OFFERS batch emits at most one accept; it emits none when the run is
/// already scheduled, and the run is scheduled after any batch that emitted
/// one.
pub proof fn lemma_offers_accept_bound(
    pre: &Scheduler,
    post: &Scheduler,
    offers: Seq<Offer>,
    r: Seq<Action>,
)
    requires
        offers_outcome(pre, post, offers, r),
    ensures
        0 <= accept_count(r) <= 1,
        state_rank(pre.state) >= 2 ==> accept_count(r) == 0 && state_rank(post.state) >= 2,
        accept_count(r) == 1 ==> state_rank(post.state) >= 2,
        state_rank(post.state) >= state_rank(pre.state),
        accept_count(r) == 0 && state_rank(pre.state) < 2 ==> state_rank(post.state) < 2,
{
    let fw = pre.framework_id@;
    if state_rank(pre.state) >= 2 {
        assert forall|j: int| 0 <= j < r.len() implies !((#[trigger] r[j]) is DeliverAccept) by {
            assert(decline_at(r, fw, offers, j, 600));
        }
        lemma_accept_count_pointwise(r, None);
    } else if exists|k: int| is_first_usable(&pre.task_info, offers, k) {
        let k = choose|k: int| is_first_usable(&pre.task_info, offers, k);
        assert(r[k] is DeliverAccept);
        assert forall|j: int| 0 <= j < r.len() && j != k implies !((#[trigger] r[j])
            is DeliverAccept) by {
            if j < k {
                assert(decline_at(r, fw, offers, j, 5));
            } else {
                assert(decline_at(r, fw, offers, j, 600));
            }
        }
        lemma_accept_count_pointwise(r, Some(k));
    } else {
        assert forall|j: int| 0 <= j < r.len() implies !((#[trigger] r[j]) is DeliverAccept) by {
            assert(decline_at(r, fw, offers, j, 5));
        }
        lemma_accept_count_pointwise(r, None);
    }
}

/// At most one accept across a whole run.  Each entry of `steps` is one
/// OFFERS batch: whether the run was scheduled before it, whether it was
/// scheduled after it, and how many accepts the batch emitted — the three
/// facts `lemma_offers_accept_bound` gives of every batch.  A run starts
/// unscheduled, so over any chain of batches the accepts total at most one.
pub proof fn lemma_at_most_one_accept(steps: Seq<(bool, bool, int)>)
    requires
        steps.len() > 0 ==> !steps[0].0,
        forall|i: int| 0 <= i < steps.len() - 1 ==> (#[trigger] steps[i]).1 == steps[i + 1].0,
        forall|i: int|
            0 <= i < steps.len() ==> {
                let s = #[trigger] steps[i];
                &&& 0 <= s.2 <= 1
                &&& (s.0 ==> s.2 == 0 && s.1)
                &&& (s.2 == 1 ==> s.1)
                &&& (!s.0 && s.2 == 0 ==> !s.1)
            },
    ensures
        accept_trace_total(steps) <= 1,
        steps.len() > 0 ==> accept_trace_total(steps) == if steps.last().1 {
            1int
        } else {
            0int
        },
    decreases steps.len(),
{
    if steps.len() > 0 {
        let prefix = steps.drop_last();
        lemma_at_most_one_accept(prefix);
        if prefix.len() > 0 {
            assert(steps[steps.len() - 2].1 == steps[steps.len() - 1].0);
        }
    }
}

/// Acknowledgements follow the update's uuid exactly: a starting or running
/// update without a uuid produces no acknowledgement at all, and one with a
/// uuid, arriving after an offer was accepted, produces exactly one, as the
/// first action, referencing that uuid and the recorded framework, agent
/// and task.
pub proof fn lemma_ack_iff_uuid(
    pre: &Scheduler,
    post: &Scheduler,
    status: &TaskStatus,
    r: Seq<Action>,
)
    requires
        update_outcome(pre, post, status, r),
        status.state@ == "TASK_STARTING"@ || status.state@ == "TASK_RUNNING"@,
    ensures
        status.uuid is None ==> forall|j: int|
            0 <= j < r.len() ==> !((#[trigger] r[j]) is DeliverAcknowledge),
        ack_expected(pre, status) ==> ack_at(r, 0, pre, status) && forall|j: int|
            1 <= j < r.len() ==> !((#[trigger] r[j]) is DeliverAcknowledge),
{
    reveal_strlit("TASK_STARTING");
    reveal_strlit("TASK_RUNNING");
    reveal_strlit("TASK_ERROR");
    reveal_strlit("TASK_FAILED");
    reveal_strlit("TASK_KILLED");
    reveal_strlit("TASK_KILLING");
    reveal_strlit("TASK_DROPPED");
    reveal_strlit("REASON_EXECUTOR_TERMINATED");
    reveal_strlit("REASON_CONTAINER_LAUNCH_FAILED");
    assert("TASK_STARTING"@.len() == 13);
    assert("TASK_RUNNING"@.len() == 12);
    assert("TASK_ERROR"@.len() == 10);
    assert("TASK_FAILED"@.len() == 11);
    assert("TASK_KILLED"@.len() == 11);
    assert("TASK_KILLING"@.len() == 12);
    assert("TASK_DROPPED"@.len() == 12);
    assert("REASON_EXECUTOR_TERMINATED"@.len() == 26);
    assert("REASON_CONTAINER_LAUNCH_FAILED"@.len() == 30);
    assert("TASK_RUNNING"@[5] == 'R' && "TASK_KILLING"@[5] == 'K' && "TASK_DROPPED"@[5] == 'D');
    assert(!is_failure_state(status.state@));
    let nack: int = if ack_expected(pre, status) {
        1
    } else {
        0
    };
    if status.state@ == "TASK_STARTING"@ {
    } else {
        assert(status.state@ != "TASK_STARTING"@) by {
            reveal_strlit("TASK_STARTING");
            reveal_strlit("TASK_RUNNING");
            assert(status.state@ == "TASK_RUNNING"@);
        };
        if pre.state == SchedulerState::Scheduled {
            if status.executor_id is Some && status.container_id is Some {
                assert forall|j: int|
                    nack <= j < r.len() implies !((#[trigger] r[j]) is DeliverAcknowledge) by {
                    assert(j == nack);
                }
            } else {
                assert forall|j: int|
                    nack <= j < r.len() implies !((#[trigger] r[j]) is DeliverAcknowledge) by {
                    if j == nack {
                        assert(teardown_at(r, nack, pre.framework_id@));
                    } else {
                        assert(exit_at(r, nack + 1, 1));
                    }
                }
            }
        }
    }
}

/// The total number of accepts over a run's OFFERS batches.
pub open spec fn accept_trace_total(steps: Seq<(bool, bool, int)>) -> int
    decreases steps.len(),
{
    if steps.len() == 0 {
        0
    } else {
        accept_trace_total(steps.drop_last()) + steps.last().2
    }
}

} // verus!
