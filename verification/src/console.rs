//! Console back-end decisions.  Two back-ends bring task output to the
//! local terminal: a headless poller that reads the sandbox files through
//! the agent's file-read call, and an interactive one that attaches to the
//! running container's output stream.  The workers, writers and HTTP live
//! in the adapter; every decision they act on — what to request, how to
//! route a record, when to keep reading and when to stop — is here.

use vstd::prelude::*;
use crate::types::{
    AttachContainerOutput, AttachContainerOutputMessage, AttachContainerOutputRequest,
    ReadFileRequest, ReadFileRequestData, ReadFileResponse, ValueContainer,
};
use crate::strutil::str_eq;
use vstd::string::StrSliceExecFns;

verus! {

/// The common contract of the two console back-ends: stop the workers and
/// wait until everything they received has been written out.
pub trait Console {
    fn finish(&mut self);
}

/// The number of bytes one file-read call asks for.
pub const READ_CHUNK: u32 = 102400;

/// Builds the file-read call for one chunk of a sandbox file.
pub fn read_file_request(path: &str, offset: u32) -> (r: ReadFileRequest)
    ensures
        r.request_type@ == "READ_FILE"@,
        r.read_file.path@ == path@,
        r.read_file.offset == offset,
        r.read_file.length == READ_CHUNK,
{
    ReadFileRequest {
        request_type: "READ_FILE".to_owned(),
        read_file: ReadFileRequestData {
            length: READ_CHUNK,
            offset,
            path: path.to_owned(),
        },
    }
}

/// Builds the attach call for a container's output stream.
pub fn attach_container_output_request(container_id: &str) -> (r: AttachContainerOutputRequest)
    ensures
        r.request_type@ == "ATTACH_CONTAINER_OUTPUT"@,
        r.attach_container_output.container_id.value@ == container_id@,
{
    AttachContainerOutputRequest {
        request_type: "ATTACH_CONTAINER_OUTPUT".to_owned(),
        attach_container_output: AttachContainerOutput {
            container_id: ValueContainer { value: container_id.to_owned() },
        },
    }
}

/// What the standard-alphabet base64 decoding of a string is: `None` when
/// the string is not valid base64.
pub uninterp spec fn spec_b64_decode(s: Seq<char>) -> Option<Seq<u8>>;

/// Relies on base64's Engine::decode with the standard alphabet: the result
/// is a function of the encoded string alone.
#[verifier::external_body]
fn b64_decode(s: &str) -> (r: Option<Vec<u8>>)
    ensures
        match r {
            Some(v) => spec_b64_decode(s@) == Some(v@),
            None => spec_b64_decode(s@) is None,
        },
{
    match base64::Engine::decode(&base64::engine::general_purpose::STANDARD, s) {
        Ok(v) => Some(v),
        Err(_) => None,
    }
}

/// Where one attach-stream record's payload goes.
pub enum OutputRoute {
    ToStdout(Vec<u8>),
    ToStderr(Vec<u8>),
    Dropped,
    Unknown,
    Invalid,
}

/// Routes one record of the attach stream: DATA records go to the writer
/// their stream names, standard error is dropped when it is not captured,
/// anything else is unknown and ignored; a payload that does not decode is
/// invalid.
pub fn route_attach_message(msg: &AttachContainerOutputMessage, capture_stderr: bool) -> (r:
    OutputRoute)
    ensures
        ({
            let payload = spec_b64_decode(msg.data.data@);
            if msg.message_type@ != "DATA"@ {
                r is Unknown
            } else if msg.data.output_type@ == "STDOUT"@ {
                match payload {
                    Some(p) => r matches OutputRoute::ToStdout(v) && v@ == p,
                    None => r is Invalid,
                }
            } else if msg.data.output_type@ == "STDERR"@ {
                if capture_stderr {
                    match payload {
                        Some(p) => r matches OutputRoute::ToStderr(v) && v@ == p,
                        None => r is Invalid,
                    }
                } else {
                    r is Dropped
                }
            } else {
                r is Unknown
            }
        }),
{
    if !str_eq(msg.message_type.as_str(), "DATA") {
        return OutputRoute::Unknown;
    }
    if str_eq(msg.data.output_type.as_str(), "STDOUT") {
        match b64_decode(msg.data.data.as_str()) {
            Some(v) => OutputRoute::ToStdout(v),
            None => OutputRoute::Invalid,
        }
    } else if str_eq(msg.data.output_type.as_str(), "STDERR") {
        if capture_stderr {
            match b64_decode(msg.data.data.as_str()) {
                Some(v) => OutputRoute::ToStderr(v),
                None => OutputRoute::Invalid,
            }
        } else {
            OutputRoute::Dropped
        }
    } else {
        OutputRoute::Unknown
    }
}

/// Decodes the data of one file-read response; `None` when the agent's
/// base64 payload is malformed.
pub fn decode_read_response(resp: &ReadFileResponse) -> (r: Option<Vec<u8>>)
    ensures
        match r {
            Some(v) => spec_b64_decode(resp.read_file.data@) == Some(v@),
            None => spec_b64_decode(resp.read_file.data@) is None,
        },
{
    b64_decode(resp.read_file.data.as_str())
}

/// The sandbox file a headless worker tails.
pub fn sandbox_file_path(sandbox_path: &str, stderr: bool) -> (r: String)
    ensures
        r@ == sandbox_path@ + (if stderr {
            "/stderr"@
        } else {
            "/stdout"@
        }),
{
    let mut p = sandbox_path.to_owned();
    if stderr {
        vstd::string::StringExecFns::append(&mut p, "/stderr");
    } else {
        vstd::string::StringExecFns::append(&mut p, "/stdout");
    }
    p
}

/// One headless worker's loop state: the file offset of the next read, how
/// many bytes the last read returned, and whether the shared running flag
/// held when the last read was made.
#[derive(Clone, Copy, PartialEq, Eq, Structural, Debug)]
pub struct TailState {
    pub offset: u32,
    pub last_read: u32,
    pub last_running: bool,
}

/// The state before the first read.
pub fn tail_start() -> (st: TailState)
    ensures
        st == (TailState { offset: 0u32, last_read: 0u32, last_running: false }),
{
    TailState { offset: 0, last_read: 0, last_running: false }
}

/// Whether the worker performs another read: while the flag is up it always
/// does; once the flag falls it reads once more, and then for as long as
/// reads keep returning bytes.
pub open spec fn spec_should_continue(running: bool, st: TailState) -> bool {
    running || st.last_running || st.last_read > 0
}

/// Executable form of `spec_should_continue`.
pub fn should_continue(running: bool, st: &TailState) -> (r: bool)
    ensures
        r == spec_should_continue(running, *st),
{
    running || st.last_running || st.last_read > 0
}

/// Whether the worker rests before the next poll: only an empty read while
/// the run goes on is worth waiting out.
pub fn should_sleep(st: &TailState) -> (r: bool)
    ensures
        r == (st.last_read == 0),
{
    st.last_read == 0
}

/// The worker's state after one read of `n_read` bytes, made while the flag
/// showed `running`.  The offset advances by the bytes actually read, as
/// unsigned 32-bit arithmetic with wrap-around.
pub open spec fn spec_tail_step(st: TailState, running: bool, n_read: u32) -> TailState {
    TailState {
        offset: ((st.offset + n_read) % 0x1_0000_0000) as u32,
        last_read: n_read,
        last_running: running,
    }
}

/// Advances the worker's state after one read.
pub fn tail_advance(st: &TailState, running: bool, n_read: u32) -> (r: TailState)
    ensures
        r == spec_tail_step(*st, running, n_read),
{
    let offset = st.offset.wrapping_add(n_read);
    proof {
        if st.offset + n_read <= u32::MAX {
            vstd::arithmetic::div_mod::lemma_small_mod(
                (st.offset + n_read) as nat,
                0x1_0000_0000nat,
            );
        } else {
            vstd::arithmetic::div_mod::lemma_mod_sub_multiples_vanish(
                st.offset + n_read,
                0x1_0000_0000,
            );
            vstd::arithmetic::div_mod::lemma_small_mod(
                (st.offset + n_read - 0x1_0000_0000) as nat,
                0x1_0000_0000nat,
            );
        }
    }
    TailState { offset, last_read: n_read, last_running: running }
}

/// The worker's state after a whole run of reads made with the flag down.
pub open spec fn spec_tail_fold(st: TailState, sizes: Seq<u32>) -> TailState
    decreases sizes.len(),
{
    if sizes.len() == 0 {
        st
    } else {
        spec_tail_fold(spec_tail_step(st, false, sizes[0]), sizes.drop_first())
    }
}

/// Once the running flag falls, the worker still performs at least one
/// more read: the state left by the last read under the flag keeps the
/// loop alive for one more turn.
pub proof fn lemma_tail_reads_once_after_stop(st: TailState)
    requires
        st.last_running,
    ensures
        spec_should_continue(false, st),
{
}

/// The worker never stops while reads return bytes: after any run of
/// positive-size reads with the flag down, it continues.
pub proof fn lemma_tail_drains_all(st: TailState, sizes: Seq<u32>)
    requires
        sizes.len() > 0,
        forall|i: int| 0 <= i < sizes.len() ==> #[trigger] sizes[i] > 0,
    ensures
        spec_should_continue(false, spec_tail_fold(st, sizes)),
    decreases sizes.len(),
{
    if sizes.len() > 1 {
        lemma_tail_drains_all(spec_tail_step(st, false, sizes[0]), sizes.drop_first());
    } else {
        assert(spec_tail_fold(spec_tail_step(st, false, sizes[0]), sizes.drop_first())
            == spec_tail_step(st, false, sizes[0]));
    }
}

/// The worker stops only right after a read that returned no bytes, with
/// the flag down: nothing read is ever left unwritten.
pub proof fn lemma_tail_stops_only_after_empty_read(running: bool, st: TailState)
    requires
        !spec_should_continue(running, st),
    ensures
        !running,
        !st.last_running,
        st.last_read == 0,
{
}

/// Reads advance the offset by exactly the bytes returned, in order: after
/// any run of reads the offset is the starting offset plus the total bytes
/// read, as unsigned 32-bit arithmetic with wrap-around.
pub proof fn lemma_tail_offset_accumulates(st: TailState, sizes: Seq<u32>)
    ensures
        spec_tail_fold(st, sizes).offset == (st.offset + sum_u32(sizes)) % 0x1_0000_0000,
    decreases sizes.len(),
{
    if sizes.len() == 0 {
        vstd::arithmetic::div_mod::lemma_small_mod(st.offset as nat, 0x1_0000_0000nat);
    } else {
        let st1 = spec_tail_step(st, false, sizes[0]);
        lemma_tail_offset_accumulates(st1, sizes.drop_first());
        assert(st1.offset == (st.offset + sizes[0]) % 0x1_0000_0000);
        assert((((st.offset + sizes[0]) % 0x1_0000_0000) + sum_u32(sizes.drop_first()))
            % 0x1_0000_0000 == (st.offset + sizes[0] + sum_u32(sizes.drop_first()))
            % 0x1_0000_0000) by {
            vstd::arithmetic::div_mod::lemma_add_mod_noop(
                st.offset + sizes[0],
                sum_u32(sizes.drop_first()),
                0x1_0000_0000,
            );
            vstd::arithmetic::div_mod::lemma_mod_twice(st.offset + sizes[0], 0x1_0000_0000);
        };
        assert(sum_u32(sizes) == sizes[0] + sum_u32(sizes.drop_first()));
    }
}

/// The total of a run of read sizes.
pub open spec fn sum_u32(sizes: Seq<u32>) -> int
    decreases sizes.len(),
{
    if sizes.len() == 0 {
        0
    } else {
        sizes[0] + sum_u32(sizes.drop_first())
    }
}

} // verus!
