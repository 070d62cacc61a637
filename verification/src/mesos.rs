//! Master-locator decisions.  The adapter talks to the coordination service
//! and probes the candidate master over HTTP; everything it decides with —
//! which endpoint strings are already URLs, which child node is the leader,
//! and how the master's base URL is composed — is here.

use vstd::prelude::*;
use crate::strutil::{dec_str, has_prefix, push_dec_str, str_has_prefix};
use vstd::string::{StrSliceExecFns, StringExecFns};

verus! {

/// The coordination-service session states the locator distinguishes.
#[derive(Clone, Copy, PartialEq, Eq, Structural, Debug)]
pub enum KeeperState {
    Disconnected,
    SyncConnected,
    AuthFailed,
    ConnectedReadOnly,
    SaslAuthenticated,
    Expired,
}

/// The last session state the connection watcher observed.
pub struct WatcherStateHandler {
    pub state: KeeperState,
}

impl WatcherStateHandler {
    /// A handler that has seen no connection yet.
    pub fn new() -> (h: WatcherStateHandler)
        ensures
            h.state == KeeperState::Disconnected,
    {
        WatcherStateHandler { state: KeeperState::Disconnected }
    }

    /// Records the session state of one watcher event.
    pub fn set_state(&mut self, state: KeeperState)
        ensures
            final(self).state == state,
    {
        self.state = state;
    }

    /// The last recorded session state.
    pub fn get_state(&self) -> (s: KeeperState)
        ensures
            s == self.state,
    {
        self.state
    }
}

/// The session is closed only when its final observed state is a connected
/// one; a dead session is abandoned without a close call.
pub fn should_close_session(state: KeeperState) -> (r: bool)
    ensures
        r == (state == KeeperState::SyncConnected || state == KeeperState::ConnectedReadOnly),
{
    match state {
        KeeperState::SyncConnected => true,
        KeeperState::ConnectedReadOnly => true,
        _ => false,
    }
}

/// Whether the user's endpoint string is already an absolute URL, to be
/// used verbatim; anything else is a coordination-service connect string.
pub fn is_explicit_master_url(s: &str) -> (r: bool)
    ensures
        r == (has_prefix(s@, "http://"@) || has_prefix(s@, "https://"@)),
{
    str_has_prefix(s, "http://") || str_has_prefix(s, "https://")
}

/// Lexicographic order on character sequences, by code point.
pub open spec fn lex_le(a: Seq<char>, b: Seq<char>) -> bool
    decreases a.len(),
{
    if a.len() == 0 {
        true
    } else if b.len() == 0 {
        false
    } else if (a[0] as u32) == (b[0] as u32) {
        lex_le(a.drop_first(), b.drop_first())
    } else {
        (a[0] as u32) < (b[0] as u32)
    }
}

/// The order is total.
pub proof fn lemma_lex_le_total(a: Seq<char>, b: Seq<char>)
    ensures
        lex_le(a, b) || lex_le(b, a),
    decreases a.len(),
{
    if a.len() > 0 && b.len() > 0 && (a[0] as u32) == (b[0] as u32) {
        lemma_lex_le_total(a.drop_first(), b.drop_first());
    }
}

/// The order is reflexive.
pub proof fn lemma_lex_le_refl(a: Seq<char>)
    ensures
        lex_le(a, a),
    decreases a.len(),
{
    if a.len() > 0 {
        lemma_lex_le_refl(a.drop_first());
    }
}

/// The order is transitive.
pub proof fn lemma_lex_le_trans(a: Seq<char>, b: Seq<char>, c: Seq<char>)
    requires
        lex_le(a, b),
        lex_le(b, c),
    ensures
        lex_le(a, c),
    decreases a.len(),
{
    if a.len() > 0 && b.len() > 0 && c.len() > 0 && (a[0] as u32) == (b[0] as u32) && (b[0]
        as u32) == (c[0] as u32) {
        lemma_lex_le_trans(a.drop_first(), b.drop_first(), c.drop_first());
    }
}

/// Executable lexicographic comparison of two strings.
pub fn str_le(a: &str, b: &str) -> (r: bool)
    ensures
        r == lex_le(a@, b@),
{
    let alen = a.unicode_len();
    let blen = b.unicode_len();
    let mut i: usize = 0;
    proof {
        assert(a@.skip(0) =~= a@);
        assert(b@.skip(0) =~= b@);
    }
    while i < alen && i < blen
        invariant
            a@.len() == alen,
            b@.len() == blen,
            i <= alen,
            i <= blen,
            lex_le(a@, b@) == lex_le(a@.skip(i as int), b@.skip(i as int)),
            lex_le(b@, a@) == lex_le(b@.skip(i as int), a@.skip(i as int)),
        decreases alen - i,
    {
        let ca = a.get_char(i);
        let cb = b.get_char(i);
        proof {
            assert(a@.skip(i as int)[0] == a@[i as int]);
            assert(b@.skip(i as int)[0] == b@[i as int]);
            assert(a@.skip(i as int).drop_first() =~= a@.skip(i + 1));
            assert(b@.skip(i as int).drop_first() =~= b@.skip(i + 1));
        }
        if (ca as u32) != (cb as u32) {
            return (ca as u32) < (cb as u32);
        }
        i = i + 1;
    }
    proof {
        if i >= alen {
            assert(a@.skip(i as int).len() == 0);
        } else {
            assert(b@.skip(i as int).len() == 0);
            assert(a@.skip(i as int).len() > 0);
        }
    }
    alen <= blen
}

/// Picks the leader among the coordination children: of the names beginning
/// with "json.info_", the lexicographically smallest; `None` when there is
/// no such child.
pub fn select_leader(children: &Vec<String>) -> (r: Option<String>)
    ensures
        match r {
            Some(x) => {
                &&& exists|i: int| 0 <= i < children@.len() && children@[i] == x
                &&& has_prefix(x@, "json.info_"@)
                &&& forall|j: int|
                    0 <= j < children@.len() && has_prefix(
                        (#[trigger] children@[j])@,
                        "json.info_"@,
                    ) ==> lex_le(x@, children@[j]@)
            },
            None => forall|j: int|
                0 <= j < children@.len() ==> !has_prefix((#[trigger] children@[j])@, "json.info_"@),
        },
{
    let mut best: Option<usize> = None;
    let mut i: usize = 0;
    while i < children.len()
        invariant
            i <= children@.len(),
            match best {
                Some(bi) => {
                    &&& bi < i
                    &&& has_prefix(children@[bi as int]@, "json.info_"@)
                    &&& forall|j: int|
                        0 <= j < i && has_prefix(
                            (#[trigger] children@[j])@,
                            "json.info_"@,
                        ) ==> lex_le(children@[bi as int]@, children@[j]@)
                },
                None => forall|j: int|
                    0 <= j < i ==> !has_prefix((#[trigger] children@[j])@, "json.info_"@),
            },
        decreases children@.len() - i,
    {
        let child = &children[i];
        if str_has_prefix(child.as_str(), "json.info_") {
            match best {
                None => {
                    proof {
                        lemma_lex_le_refl(children@[i as int]@);
                    }
                    best = Some(i);
                },
                Some(bi) => {
                    if str_le(children[bi].as_str(), child.as_str()) {
                        proof {
                            assert(lex_le(children@[bi as int]@, children@[i as int]@));
                        }
                    } else {
                        proof {
                            lemma_lex_le_refl(children@[i as int]@);
                            lemma_lex_le_total(children@[bi as int]@, children@[i as int]@);
                            assert(lex_le(children@[i as int]@, children@[bi as int]@));
                            assert forall|j: int|
                                0 <= j < i + 1 && has_prefix(
                                    (#[trigger] children@[j])@,
                                    "json.info_"@,
                                ) implies lex_le(children@[i as int]@, children@[j]@) by {
                                if j < i {
                                    lemma_lex_le_trans(
                                        children@[i as int]@,
                                        children@[bi as int]@,
                                        children@[j]@,
                                    );
                                }
                            }
                        }
                        best = Some(i);
                    }
                },
            }
        }
        i = i + 1;
    }
    match best {
        Some(bi) => Some(children[bi].clone()),
        None => None,
    }
}

/// The base URL of the discovered leader, from its advertised hostname and
/// port and the outcome of the https probe.
pub fn leader_url(hostname: &str, port: u16, ssl: bool) -> (r: String)
    ensures
        r@ == (if ssl {
            "https://"@
        } else {
            "http://"@
        }) + hostname@ + ":"@ + dec_str(port as nat),
{
    let mut s = if ssl {
        "https://".to_owned()
    } else {
        "http://".to_owned()
    };
    s.append(hostname);
    s.append(":");
    push_dec_str(&mut s, port as u64);
    proof {
        assert(s@ =~= (if ssl {
            "https://"@
        } else {
            "http://"@
        }) + hostname@ + ":"@ + dec_str(port as nat));
    }
    s
}

/// The URL the scheme probe fetches: the candidate master's version
/// endpoint over https.
pub fn version_probe_url(hostname: &str, port: u16) -> (r: String)
    ensures
        r@ == "https://"@ + hostname@ + ":"@ + dec_str(port as nat) + "/version"@,
{
    let mut s = "https://".to_owned();
    s.append(hostname);
    s.append(":");
    push_dec_str(&mut s, port as u64);
    s.append("/version");
    proof {
        assert(s@ =~= "https://"@ + hostname@ + ":"@ + dec_str(port as nat) + "/version"@);
    }
    s
}

} // verus!
