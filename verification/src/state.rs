//! Broker state: the session registry, per-session request queues and the
//! correlation table that routes plugin responses back to waiting callers.
//!
//! All mutable broker state lives in one [`AppState`] value, which the shell
//! keeps behind a single process-wide lock. Every operation here is a plain
//! (non-blocking) state transition; waiting on signals or reply channels
//! happens outside, on handles these operations return.

use vstd::prelude::*;

use crate::outside::{ResponseReceiver, ResponseSender};
use crate::outside::{
    clone_watch_receiver, fresh_request_id, new_response_channel, new_watch_channel, notify_watch,
    response_channel_closed, send_response, str_eq,
};
use crate::{heartbeat_age, CONNECTED_THRESHOLD_SECS, STALE_REAP_SECS};

verus! {

/// A request queued for the plugin to process
pub struct PluginRequest {
    pub id: String,
    pub tool: String,
    pub args: serde_json::Value,
}

/// Mathematical image of a [`PluginRequest`]: its strings as character
/// sequences; the argument payload stays opaque.
#[verifier::ext_equal]
pub struct PluginRequestV {
    pub id: Seq<char>,
    pub tool: Seq<char>,
    pub args: serde_json::Value,
}

impl View for PluginRequest {
    type V = PluginRequestV;

    open spec fn view(&self) -> PluginRequestV {
        PluginRequestV { id: self.id@, tool: self.tool@, args: self.args }
    }
}

/// A response from the plugin
pub struct PluginResponse {
    pub id: String,
    pub success: bool,
    pub result: serde_json::Value,
    pub error: Option<String>,
}

/// Mathematical image of a [`PluginResponse`].
#[verifier::ext_equal]
pub struct PluginResponseV {
    pub id: Seq<char>,
    pub success: bool,
    pub result: serde_json::Value,
    pub error: Option<Seq<char>>,
}

impl View for PluginResponse {
    type V = PluginResponseV;

    open spec fn view(&self) -> PluginResponseV {
        PluginResponseV {
            id: self.id@,
            success: self.success,
            result: self.result,
            error: match &self.error {
                Some(e) => Some(e@),
                None => None,
            },
        }
    }
}

/// Registration payload sent by a plugin when it connects
pub struct SessionRegistration {
    pub session_id: String,
    pub place_id: u64,
    pub place_name: String,
    pub game_id: u64,
}

/// Information about a connected session
pub struct SessionInfo {
    pub session_id: String,
    pub place_id: u64,
    pub place_name: String,
    pub game_id: u64,
    pub connected_at: u64,
}

/// Mathematical image of a [`SessionInfo`].
#[verifier::ext_equal]
pub struct SessionInfoV {
    pub session_id: Seq<char>,
    pub place_id: u64,
    pub place_name: Seq<char>,
    pub game_id: u64,
    pub connected_at: u64,
}

impl View for SessionInfo {
    type V = SessionInfoV;

    open spec fn view(&self) -> SessionInfoV {
        SessionInfoV {
            session_id: self.session_id@,
            place_id: self.place_id,
            place_name: self.place_name@,
            game_id: self.game_id,
            connected_at: self.connected_at,
        }
    }
}

/// Per-session state: each connected IDE instance has its own request queue
/// and its own wake signal for the long-poll waiter.
pub struct SessionState {
    pub info: SessionInfo,
    /// Monotonic clock reading (seconds) of the last poll from this session.
    pub last_heartbeat: u64,
    /// FIFO queue of requests not yet picked up by the plugin.
    pub request_queue: Vec<PluginRequest>,
    pub notify_tx: tokio::sync::watch::Sender<bool>,
    pub notify_rx: tokio::sync::watch::Receiver<bool>,
    /// History of requests already handed to the plugin, in delivery order.
    pub polled: Ghost<Seq<PluginRequestV>>,
}

impl SessionState {
    pub open spec fn id_view(&self) -> Seq<char> {
        self.info.session_id@
    }

    /// The queue contents, as request images in queue order.
    pub open spec fn queue_views(&self) -> Seq<PluginRequestV> {
        self.request_queue@.map_values(|r: PluginRequest| r@)
    }

    /// Every request ever enqueued on this session, in submission order:
    /// first the ones already delivered to the plugin, then the queue.
    pub open spec fn submitted_views(&self) -> Seq<PluginRequestV> {
        self.polled@ + self.queue_views()
    }

    pub open spec fn place_matches(&self, place_id: u64, place_name: Seq<char>) -> bool {
        self.info.place_id == place_id && self.info.place_name@ == place_name
    }

    /// Connected means the last poll is fresh enough.
    pub open spec fn connected(&self, now_secs: u64) -> bool {
        heartbeat_age(now_secs, self.last_heartbeat) < CONNECTED_THRESHOLD_SECS
    }
}

/// One live correlation entry: a request id and the reply channel that the
/// originating caller is waiting on.
pub struct CorrelationEntry {
    pub id: String,
    pub sender: ResponseSender,
}

/// Whether a session with the given id is present in a session list.
pub open spec fn seq_has_session(ss: Seq<SessionState>, id: Seq<char>) -> bool {
    exists|i: int| 0 <= i < ss.len() && ss[i].id_view() == id
}

/// Whether the session list holds a connected session with the given id.
pub open spec fn seq_session_connected(ss: Seq<SessionState>, id: Seq<char>, now_secs: u64) -> bool {
    exists|i: int| 0 <= i < ss.len() && ss[i].id_view() == id && ss[i].connected(now_secs)
}

/// The session `post` is `pre` with the request image `v` appended to its
/// queue; nothing else about the session changed.
pub open spec fn enqueued_on(pre: SessionState, post: SessionState, v: PluginRequestV) -> bool {
    &&& post.info == pre.info
    &&& post.last_heartbeat == pre.last_heartbeat
    &&& post.notify_tx == pre.notify_tx
    &&& post.notify_rx == pre.notify_rx
    &&& post.polled == pre.polled
    &&& post.request_queue@.len() == pre.request_queue@.len() + 1
    &&& forall|k: int|
        0 <= k < pre.request_queue@.len() ==> post.request_queue@[k] == pre.request_queue@[k]
    &&& post.request_queue@[pre.request_queue@.len() as int]@ == v
    &&& post.submitted_views() == pre.submitted_views().push(v)
}

/// The session `post` is `pre` with the head of its queue handed out: the
/// head moved from the queue to the polled history, so the submission
/// history is unchanged.
pub open spec fn polled_on(pre: SessionState, post: SessionState, v: PluginRequestV) -> bool {
    &&& post.info == pre.info
    &&& post.last_heartbeat == pre.last_heartbeat
    &&& post.notify_tx == pre.notify_tx
    &&& post.notify_rx == pre.notify_rx
    &&& pre.request_queue@.len() > 0
    &&& v == pre.request_queue@[0]@
    &&& post.request_queue@ == pre.request_queue@.remove(0)
    &&& post.polled@ == pre.polled@.push(v)
    &&& post.submitted_views() == pre.submitted_views()
}

/// Shared broker state between the HTTP server and the assistant-facing
/// dispatcher.
pub struct AppState {
    /// All connected sessions; ids are unique, as are (place id, place name) pairs.
    pub sessions: Vec<SessionState>,
    /// Currently active session id (where tool calls are routed)
    pub active_session: Option<String>,
    /// Live correlation entries, one per request id awaiting a response
    pub response_channels: Vec<CorrelationEntry>,
    /// Global signal for session registration events
    pub global_notify_tx: tokio::sync::watch::Sender<bool>,
    /// Proxy mode: if true, tool calls are forwarded to the primary broker
    pub proxy_mode: bool,
    /// Primary broker URL (used in proxy mode)
    pub proxy_url: String,
}

/// A session survives a reap pass when its heartbeat is not older than the
/// reap threshold.
pub open spec fn reap_survivor(s: SessionState, now_secs: u64) -> bool {
    heartbeat_age(now_secs, s.last_heartbeat) <= STALE_REAP_SECS
}

/// A session survives a registration: it is not stale, it is not the
/// session being (re-)registered, and it does not sit on the same
/// (place id, place name) pair as the new session.
pub open spec fn registration_survivor(
    s: SessionState,
    reg_id: Seq<char>,
    place_id: u64,
    place_name: Seq<char>,
    now_secs: u64,
) -> bool {
    &&& heartbeat_age(now_secs, s.last_heartbeat) <= STALE_REAP_SECS
    &&& s.id_view() != reg_id
    &&& !s.place_matches(place_id, place_name)
}

/// Where the active pointer lands after sessions were removed: it stays when
/// its session is still there, otherwise it moves to the first remaining
/// session, or is cleared when none is left.
pub open spec fn active_after_removals(
    kept: Seq<SessionState>,
    old_active: Option<Seq<char>>,
) -> Option<Seq<char>> {
    match old_active {
        None => None,
        Some(a) => if seq_has_session(kept, a) {
            Some(a)
        } else if kept.len() > 0 {
            Some(kept[0].id_view())
        } else {
            None
        },
    }
}

/// Like `active_after_removals`, during a registration: an active pointer
/// naming the id being registered stays put, since that session is about to
/// be (re-)inserted.
pub open spec fn active_after_eviction(
    kept: Seq<SessionState>,
    old_active: Option<Seq<char>>,
    reg_id: Seq<char>,
) -> Option<Seq<char>> {
    match old_active {
        None => None,
        Some(a) => if a == reg_id || seq_has_session(kept, a) {
            Some(a)
        } else if kept.len() > 0 {
            Some(kept[0].id_view())
        } else {
            None
        },
    }
}

/// The active session id after a registration: the surviving active session
/// keeps the role only if it is still connected; in every other case the
/// newly registered session takes over.
pub open spec fn active_after_register(
    kept: Seq<SessionState>,
    old_active: Option<Seq<char>>,
    reg_id: Seq<char>,
    now_secs: u64,
) -> Seq<char> {
    match active_after_eviction(kept, old_active, reg_id) {
        None => reg_id,
        Some(a) => if a == reg_id {
            reg_id
        } else if seq_session_connected(kept, a, now_secs) {
            a
        } else {
            reg_id
        },
    }
}

/// `post` is `pre` with the request image `v` enqueued on session `sid` and
/// a correlation entry installed under `v.id`; nothing else changed. If an
/// entry under `v.id` already existed it was replaced in place, otherwise the
/// new entry sits at the end of the table.
pub open spec fn queue_effect(pre: AppState, post: AppState, sid: Seq<char>, v: PluginRequestV) -> bool {
    &&& post.sessions@.len() == pre.sessions@.len()
    &&& forall|j: int|
        0 <= j < pre.sessions@.len() ==> (if pre.sessions@[j].id_view() == sid {
            enqueued_on(pre.sessions@[j], post.sessions@[j], v)
        } else {
            post.sessions@[j] == pre.sessions@[j]
        })
    &&& post.active_session == pre.active_session
    &&& post.global_notify_tx == pre.global_notify_tx
    &&& post.proxy_mode == pre.proxy_mode
    &&& post.proxy_url == pre.proxy_url
    &&& post.corr_has(v.id)
    &&& pre.corr_has(v.id) ==> post.response_channels@.len() == pre.response_channels@.len()
    &&& !pre.corr_has(v.id) ==> post.response_channels@.len() == pre.response_channels@.len() + 1
    &&& forall|k: int|
        0 <= k < pre.response_channels@.len() && pre.response_channels@[k].id@ != v.id
            ==> post.response_channels@[k] == pre.response_channels@[k]
}

/// Filtering a prefix one element further either appends that element (when
/// it satisfies the predicate) or changes nothing.
proof fn lemma_filter_step<A>(s: Seq<A>, pred: spec_fn(A) -> bool, k: int)
    requires
        0 <= k < s.len(),
    ensures
        s.take(k + 1).filter(pred) == (if pred(s[k]) {
            s.take(k).filter(pred).push(s[k])
        } else {
            s.take(k).filter(pred)
        }),
{
    reveal_with_fuel(Seq::filter, 2);
    assert(s.take(k + 1) =~= s.take(k).push(s[k]));
    assert(s.take(k).push(s[k]).drop_last() =~= s.take(k));
    assert(s.take(k).push(s[k]).last() == s[k]);
}

impl AppState {
    pub open spec fn active_view(&self) -> Option<Seq<char>> {
        match &self.active_session {
            Some(a) => Some(a@),
            None => None,
        }
    }

    pub open spec fn has_session(&self, id: Seq<char>) -> bool {
        seq_has_session(self.sessions@, id)
    }

    /// Index of the session with the given id (meaningful under `wf` when
    /// `has_session(id)` holds).
    pub open spec fn session_index(&self, id: Seq<char>) -> int {
        choose|i: int| 0 <= i < self.sessions@.len() && self.sessions@[i].id_view() == id
    }

    pub open spec fn spec_session(&self, id: Seq<char>) -> SessionState {
        self.sessions@[self.session_index(id)]
    }

    pub open spec fn session_connected(&self, id: Seq<char>, now_secs: u64) -> bool {
        seq_session_connected(self.sessions@, id, now_secs)
    }

    /// The active session exists and its heartbeat is fresh.
    pub open spec fn plugin_connected(&self, now_secs: u64) -> bool {
        match self.active_view() {
            Some(a) => self.session_connected(a, now_secs),
            None => false,
        }
    }

    pub open spec fn corr_has(&self, id: Seq<char>) -> bool {
        exists|i: int|
            0 <= i < self.response_channels@.len() && self.response_channels@[i].id@ == id
    }

    /// Index of the correlation entry with the given request id (meaningful
    /// under `wf` when `corr_has(id)` holds).
    pub open spec fn corr_index(&self, id: Seq<char>) -> int {
        choose|i: int|
            0 <= i < self.response_channels@.len() && self.response_channels@[i].id@ == id
    }

    /// Session ids are pairwise distinct.
    pub open spec fn session_ids_distinct(&self) -> bool {
        forall|i: int, j: int|
            0 <= i < j < self.sessions@.len() ==> self.sessions@[i].id_view()
                != self.sessions@[j].id_view()
    }

    /// At most one session per (place id, place name) pair.
    pub open spec fn session_places_distinct(&self) -> bool {
        forall|i: int, j: int|
            0 <= i < j < self.sessions@.len() ==> !(self.sessions@[i].info.place_id
                == self.sessions@[j].info.place_id && self.sessions@[i].info.place_name@
                == self.sessions@[j].info.place_name@)
    }

    /// The active session id, when set, names a present session.
    pub open spec fn active_valid(&self) -> bool {
        match self.active_view() {
            Some(a) => self.has_session(a),
            None => true,
        }
    }

    /// Correlation ids are pairwise distinct.
    pub open spec fn corr_ids_distinct(&self) -> bool {
        forall|i: int, j: int|
            0 <= i < j < self.response_channels@.len() ==> self.response_channels@[i].id@
                != self.response_channels@[j].id@
    }

    /// Well-formedness: established by `new`, preserved by every operation.
    pub open spec fn wf(&self) -> bool {
        &&& self.session_ids_distinct()
        &&& self.session_places_distinct()
        &&& self.active_valid()
        &&& self.corr_ids_distinct()
    }

    /// Everything except the session list and the active pointer is unchanged.
    pub open spec fn same_except_sessions(&self, other: &AppState) -> bool {
        &&& self.response_channels == other.response_channels
        &&& self.global_notify_tx == other.global_notify_tx
        &&& self.proxy_mode == other.proxy_mode
        &&& self.proxy_url == other.proxy_url
    }

    /// Everything except the correlation table is unchanged.
    pub open spec fn same_except_channels(&self, other: &AppState) -> bool {
        &&& self.sessions == other.sessions
        &&& self.active_session == other.active_session
        &&& self.global_notify_tx == other.global_notify_tx
        &&& self.proxy_mode == other.proxy_mode
        &&& self.proxy_url == other.proxy_url
    }

    /// With `wf`, the session found at an index is the one `spec_session` names.
    pub proof fn lemma_session_index_agrees(&self, i: int)
        requires
            self.wf(),
            0 <= i < self.sessions@.len(),
        ensures
            self.session_index(self.sessions@[i].id_view()) == i,
            self.spec_session(self.sessions@[i].id_view()) == self.sessions@[i],
    {
        let id = self.sessions@[i].id_view();
        assert(seq_has_session(self.sessions@, id));
        let k = self.session_index(id);
        if k != i {
            if k < i {
                assert(self.sessions@[k].id_view() != self.sessions@[i].id_view());
            } else {
                assert(self.sessions@[i].id_view() != self.sessions@[k].id_view());
            }
        }
    }

    /// With `wf`, the correlation entry found at an index is the one
    /// `corr_index` names.
    pub proof fn lemma_corr_index_agrees(&self, i: int)
        requires
            self.wf(),
            0 <= i < self.response_channels@.len(),
        ensures
            self.corr_index(self.response_channels@[i].id@) == i,
    {
        let id = self.response_channels@[i].id@;
        assert(self.corr_has(id));
        let k = self.corr_index(id);
        if k != i {
            if k < i {
                assert(self.response_channels@[k].id@ != self.response_channels@[i].id@);
            } else {
                assert(self.response_channels@[i].id@ != self.response_channels@[k].id@);
            }
        }
    }

    /// A fresh broker: no sessions, no active session, empty correlation
    /// table, direct (non-proxy) mode. Also returns the waiter end of the
    /// global registration signal.
    pub fn new() -> (r: (AppState, tokio::sync::watch::Receiver<bool>))
        ensures
            r.0.wf(),
            r.0.sessions@.len() == 0,
            r.0.active_view() is None,
            r.0.response_channels@.len() == 0,
            r.0.proxy_mode == false,
            r.0.proxy_url@ == Seq::<char>::empty(),
    {
        let (global_notify_tx, global_notify_rx) = new_watch_channel();
        let state = AppState {
            sessions: Vec::new(),
            active_session: None,
            response_channels: Vec::new(),
            global_notify_tx,
            proxy_mode: false,
            proxy_url: String::new(),
        };
        proof {
            assert(state.proxy_url@ =~= Seq::<char>::empty());
        }
        (state, global_notify_rx)
    }

    /// Linear scan for the session with the given id.
    fn find_session_index(&self, session_id: &str) -> (r: Option<usize>)
        ensures
            match r {
                Some(i) => i < self.sessions@.len() && self.sessions@[i as int].id_view()
                    == session_id@,
                None => !self.has_session(session_id@),
            },
    {
        let n = self.sessions.len();
        let mut i: usize = 0;
        while i < n
            invariant
                n == self.sessions@.len(),
                i <= n,
                forall|j: int| 0 <= j < i ==> self.sessions@[j].id_view() != session_id@,
            decreases n - i,
        {
            if str_eq(self.sessions[i].info.session_id.as_str(), session_id) {
                return Some(i);
            }
            i = i + 1;
        }
        None
    }

    /// Linear scan for the correlation entry with the given request id.
    fn find_channel_index(&self, id: &str) -> (r: Option<usize>)
        ensures
            match r {
                Some(i) => i < self.response_channels@.len()
                    && self.response_channels@[i as int].id@ == id@,
                None => !self.corr_has(id@),
            },
    {
        let n = self.response_channels.len();
        let mut i: usize = 0;
        while i < n
            invariant
                n == self.response_channels@.len(),
                i <= n,
                forall|j: int| 0 <= j < i ==> self.response_channels@[j].id@ != id@,
            decreases n - i,
        {
            if str_eq(self.response_channels[i].id.as_str(), id) {
                return Some(i);
            }
            i = i + 1;
        }
        None
    }

    /// Switch the active session. Returns whether the session exists; the
    /// active pointer changes exactly when it does.
    pub fn switch_session(&mut self, session_id: &str) -> (r: bool)
        requires
            old(self).wf(),
        ensures
            final(self).wf(),
            r == old(self).has_session(session_id@),
            r ==> final(self).active_view() == Some(session_id@),
            !r ==> final(self).active_session == old(self).active_session,
            final(self).sessions == old(self).sessions,
            final(self).same_except_sessions(old(self)),
    {
        match self.find_session_index(session_id) {
            Some(_) => {
                self.active_session = Some(session_id.to_owned());
                true
            },
            None => false,
        }
    }

    /// Refresh a session's heartbeat to the given clock reading; no-op if the
    /// session is absent.
    pub fn heartbeat(&mut self, session_id: &str, now_secs: u64)
        requires
            old(self).wf(),
        ensures
            final(self).wf(),
            final(self).sessions@.len() == old(self).sessions@.len(),
            forall|j: int|
                0 <= j < old(self).sessions@.len() ==> final(self).sessions@[j] == (
                if old(self).sessions@[j].id_view() == session_id@ {
                    SessionState { last_heartbeat: now_secs, ..old(self).sessions@[j] }
                } else {
                    old(self).sessions@[j]
                }),
            final(self).active_session == old(self).active_session,
            final(self).same_except_sessions(old(self)),
    {
        match self.find_session_index(session_id) {
            Some(i) => {
                let mut s = self.sessions.remove(i);
                s.last_heartbeat = now_secs;
                self.sessions.insert(i, s);
                proof {
                    let os = old(self).sessions@;
                    let ns = self.sessions@;
                    assert forall|j: int| 0 <= j < os.len() implies ns[j] == (
                    if os[j].id_view() == session_id@ {
                        SessionState { last_heartbeat: now_secs, ..os[j] }
                    } else {
                        os[j]
                    }) by {
                        if j != i {
                            assert(ns[j] == os[j]);
                        }
                    }
                    assert forall|j: int| 0 <= j < ns.len() implies ns[j].info == os[j].info by {
                        if j != i {
                            assert(ns[j] == os[j]);
                        }
                    }
                    match old(self).active_view() {
                        Some(a) => {
                            let w = choose|k: int| 0 <= k < os.len() && os[k].id_view() == a;
                            assert(ns[w].id_view() == a);
                        },
                        None => {},
                    }
                }
            },
            None => {},
        }
    }

    /// Whether the given session is present with a fresh heartbeat.
    pub fn is_session_connected(&self, session_id: &str, now_secs: u64) -> (r: bool)
        requires
            self.wf(),
        ensures
            r == self.session_connected(session_id@, now_secs),
    {
        match self.find_session_index(session_id) {
            Some(i) => {
                let hb = self.sessions[i].last_heartbeat;
                let age = if now_secs >= hb {
                    now_secs - hb
                } else {
                    0
                };
                let connected = age < CONNECTED_THRESHOLD_SECS;
                proof {
                    if !connected {
                        assert forall|k: int|
                            0 <= k < self.sessions@.len() && self.sessions@[k].id_view()
                                == session_id@ implies !self.sessions@[k].connected(now_secs) by {
                            if k < i as int {
                                assert(self.sessions@[k].id_view() != self.sessions@[i as int].id_view());
                            } else if k > i as int {
                                assert(self.sessions@[i as int].id_view() != self.sessions@[k].id_view());
                            }
                        }
                    }
                }
                connected
            },
            None => false,
        }
    }

    /// Whether the active session is present and connected.
    pub fn is_plugin_connected(&self, now_secs: u64) -> (r: bool)
        requires
            self.wf(),
        ensures
            r == self.plugin_connected(now_secs),
    {
        let active = match &self.active_session {
            Some(a) => a.clone(),
            None => {
                return false;
            },
        };
        self.is_session_connected(active.as_str(), now_secs)
    }

    /// The active session id.
    pub fn get_active_session(&self) -> (r: Option<&str>)
        ensures
            match r {
                Some(s) => self.active_view() == Some(s@),
                None => self.active_view() is None,
            },
    {
        match &self.active_session {
            Some(s) => Some(s.as_str()),
            None => None,
        }
    }

    /// Info about the active session, when one is set. Under `wf` the active
    /// session is always present, so this is `None` exactly when no session
    /// is active.
    pub fn get_active_session_info(&self) -> (r: Option<&SessionInfo>)
        requires
            self.wf(),
        ensures
            match r {
                Some(info) => {
                    &&& self.active_view() == Some(info.session_id@)
                    &&& info@ == self.spec_session(info.session_id@).info@
                },
                None => self.active_view() is None,
            },
    {
        let active = match &self.active_session {
            Some(a) => a,
            None => {
                return None;
            },
        };
        match self.find_session_index(active.as_str()) {
            Some(i) => {
                proof {
                    self.lemma_session_index_agrees(i as int);
                }
                Some(&self.sessions[i].info)
            },
            None => {
                // unreachable: wf says the active session is present
                None
            },
        }
    }

    /// A snapshot of every session's info, in registry order.
    pub fn list_sessions(&self) -> (r: Vec<SessionInfo>)
        ensures
            r@.len() == self.sessions@.len(),
            forall|i: int| 0 <= i < r@.len() ==> r@[i]@ == self.sessions@[i].info@,
    {
        let n = self.sessions.len();
        let mut out: Vec<SessionInfo> = Vec::new();
        let mut i: usize = 0;
        while i < n
            invariant
                n == self.sessions@.len(),
                i <= n,
                out@.len() == i,
                forall|j: int| 0 <= j < i ==> out@[j]@ == self.sessions@[j].info@,
            decreases n - i,
        {
            let info = &self.sessions[i].info;
            out.push(
                SessionInfo {
                    session_id: info.session_id.clone(),
                    place_id: info.place_id,
                    place_name: info.place_name.clone(),
                    game_id: info.game_id,
                    connected_at: info.connected_at,
                },
            );
            i = i + 1;
        }
        out
    }

    /// Remove a session. If it was active, the active pointer moves to the
    /// first remaining session (registry order), or is cleared when none is
    /// left. Queued requests of the removed session are dropped; correlation
    /// entries stay until their callers give up and are swept.
    pub fn unregister_session(&mut self, session_id: &str)
        requires
            old(self).wf(),
        ensures
            final(self).wf(),
            !old(self).has_session(session_id@) ==> *final(self) == *old(self),
            old(self).has_session(session_id@) ==> final(self).sessions@ == old(
                self,
            ).sessions@.remove(old(self).session_index(session_id@)),
            old(self).has_session(session_id@) ==> final(self).active_view() == (
            if old(self).active_view() == Some(session_id@) {
                if final(self).sessions@.len() > 0 {
                    Some(final(self).sessions@[0].id_view())
                } else {
                    None::<Seq<char>>
                }
            } else {
                old(self).active_view()
            }),
            final(self).same_except_sessions(old(self)),
    {
        let i = match self.find_session_index(session_id) {
            Some(i) => i,
            None => {
                return ;
            },
        };
        proof {
            self.lemma_session_index_agrees(i as int);
            old(self).sessions@.remove_ensures(i as int);
        }
        self.sessions.remove(i);
        let was_active = match &self.active_session {
            Some(a) => str_eq(a.as_str(), session_id),
            None => false,
        };
        if was_active {
            if self.sessions.len() > 0 {
                self.active_session = Some(self.sessions[0].info.session_id.clone());
            } else {
                self.active_session = None;
            }
        }
        proof {
            let os = old(self).sessions@;
            let ns = self.sessions@;
            assert forall|j1: int, j2: int| 0 <= j1 < j2 < ns.len() implies ns[j1].id_view()
                != ns[j2].id_view() && !(ns[j1].info.place_id == ns[j2].info.place_id
                && ns[j1].info.place_name@ == ns[j2].info.place_name@) by {
                let k1 = if j1 < i as int {
                    j1
                } else {
                    j1 + 1
                };
                let k2 = if j2 < i as int {
                    j2
                } else {
                    j2 + 1
                };
                assert(ns[j1] == os[k1]);
                assert(ns[j2] == os[k2]);
            }
            if !was_active {
                match self.active_view() {
                    Some(a) => {
                        let w = old(self).session_index(a);
                        assert(os[w].id_view() == a);
                        assert(w != i as int);
                        if w < i as int {
                            assert(ns[w] == os[w]);
                        } else {
                            assert(ns[w - 1] == os[w]);
                        }
                    },
                    None => {},
                }
            }
        }
    }

    /// Mint a fresh request id, append the request to the given session's
    /// queue, install a correlation entry for it, and wake the session's
    /// long-poll waiter. Returns the id and the caller's end of the reply
    /// channel, or nothing if the session is unknown.
    pub fn queue_request_to_session(
        &mut self,
        session_id: &str,
        tool: &str,
        args: serde_json::Value,
    ) -> (r: Option<(String, ResponseReceiver)>)
        requires
            old(self).wf(),
        ensures
            final(self).wf(),
            r is Some <==> old(self).has_session(session_id@),
            r is None ==> *final(self) == *old(self),
            r matches Some(p) ==> p.0@.len() == 36 && queue_effect(
                *old(self),
                *final(self),
                session_id@,
                (PluginRequestV { id: p.0@, tool: tool@, args }),
            ),
    {
        let i = match self.find_session_index(session_id) {
            Some(i) => i,
            None => {
                return None;
            },
        };
        let id = fresh_request_id();
        let request = PluginRequest { id: id.clone(), tool: tool.to_owned(), args };
        let (tx, rx) = new_response_channel();
        let entry = CorrelationEntry { id: id.clone(), sender: tx };
        let ghost v = PluginRequestV { id: id@, tool: tool@, args };
        let ghost mut ci: int = 0;
        proof {
            assert(request@ =~= v);
        }
        match self.find_channel_index(id.as_str()) {
            Some(k) => {
                proof {
                    self.lemma_corr_index_agrees(k as int);
                    old(self).response_channels@.remove_ensures(k as int);
                    old(self).response_channels@.remove(k as int).insert_ensures(k as int, entry);
                }
                self.response_channels.remove(k);
                self.response_channels.insert(k, entry);
                proof {
                    ci = k as int;
                    assert(self.response_channels@[k as int].id@ == v.id);
                    assert forall|j: int|
                        0 <= j < old(self).response_channels@.len() && old(
                            self,
                        ).response_channels@[j].id@ != v.id implies self.response_channels@[j] == old(
                        self,
                    ).response_channels@[j] by {
                        assert(j != k as int);
                    }
                    assert forall|j1: int, j2: int|
                        0 <= j1 < j2 < self.response_channels@.len() implies self.response_channels@[j1].id@
                        != self.response_channels@[j2].id@ by {
                        if j1 != k as int && j2 != k as int {
                            assert(self.response_channels@[j1] == old(self).response_channels@[j1]);
                            assert(self.response_channels@[j2] == old(self).response_channels@[j2]);
                        } else if j1 == k as int {
                            assert(self.response_channels@[j2] == old(self).response_channels@[j2]);
                            assert(old(self).response_channels@[j2].id@ != old(
                                self,
                            ).response_channels@[k as int].id@);
                        } else {
                            assert(self.response_channels@[j1] == old(self).response_channels@[j1]);
                            assert(old(self).response_channels@[j1].id@ != old(
                                self,
                            ).response_channels@[k as int].id@);
                        }
                    }
                }
            },
            None => {
                self.response_channels.push(entry);
                proof {
                    let oc = old(self).response_channels@;
                    let nc = self.response_channels@;
                    ci = oc.len() as int;
                    assert(nc[oc.len() as int].id@ == v.id);
                    assert forall|j1: int, j2: int| 0 <= j1 < j2 < nc.len() implies nc[j1].id@
                        != nc[j2].id@ by {
                        assert(nc[j1] == oc[j1]);
                        if j2 < oc.len() {
                            assert(nc[j2] == oc[j2]);
                        } else {
                            assert(oc[j1].id@ != v.id);
                        }
                    }
                }
            },
        }
        proof {
            old(self).sessions@.remove_ensures(i as int);
            old(self).sessions@.remove(i as int).insert_ensures(i as int, old(self).sessions@[i as int]);
        }
        let mut s = self.sessions.remove(i);
        s.request_queue.push(request);
        self.sessions.insert(i, s);
        proof {
            let os = old(self).sessions@;
            let ns = self.sessions@;
            assert forall|j: int| 0 <= j < os.len() && j != i as int implies ns[j] == os[j] by {
                os.remove_ensures(i as int);
                os.remove(i as int).insert_ensures(i as int, ns[i as int]);
            }
            assert forall|j: int|
                0 <= j < os.len() && j != i as int implies os[j].id_view() != session_id@ by {
                if j < i as int {
                    assert(os[j].id_view() != os[i as int].id_view());
                } else {
                    assert(os[i as int].id_view() != os[j].id_view());
                }
            }
            assert(enqueued_on(os[i as int], ns[i as int], v)) by {
                let pre = os[i as int];
                let post = ns[i as int];
                assert(post.request_queue@ == pre.request_queue@.push(request));
                assert(post.submitted_views() =~= pre.submitted_views().push(v));
            }
            assert forall|j: int| 0 <= j < os.len() implies ns[j].id_view() == os[j].id_view()
                && ns[j].info == os[j].info by {
                if j != i as int {
                    assert(ns[j] == os[j]);
                }
            }
            match old(self).active_view() {
                Some(a) => {
                    let w = choose|k2: int| 0 <= k2 < os.len() && os[k2].id_view() == a;
                    assert(ns[w].id_view() == a);
                },
                None => {},
            }
        }
        proof {
            assert(0 <= ci < self.response_channels@.len());
            assert(self.response_channels@[ci].id@ == v.id);
        }
        notify_watch(&self.sessions[i].notify_tx);
        Some((id, rx))
    }

    /// Queue a request to the active session. Nothing happens when no
    /// session is active.
    pub fn queue_request(&mut self, tool: &str, args: serde_json::Value) -> (r: Option<
        (String, ResponseReceiver),
    >)
        requires
            old(self).wf(),
        ensures
            final(self).wf(),
            r is Some <==> old(self).active_view() is Some,
            r is None ==> *final(self) == *old(self),
            r matches Some(p) ==> old(self).active_view() matches Some(a) && p.0@.len() == 36
                && queue_effect(
                *old(self),
                *final(self),
                a,
                (PluginRequestV { id: p.0@, tool: tool@, args }),
            ),
    {
        let active = match &self.active_session {
            Some(a) => a.clone(),
            None => {
                return None;
            },
        };
        self.queue_request_to_session(active.as_str(), tool, args)
    }

    /// Hand out the next pending request of a session, moving it from the
    /// queue to the delivered history. Nothing happens when the session is
    /// unknown or its queue is empty.
    pub fn get_pending_request_for_session(&mut self, session_id: &str) -> (r: Option<
        PluginRequest,
    >)
        requires
            old(self).wf(),
        ensures
            final(self).wf(),
            r is Some <==> old(self).has_session(session_id@) && old(self).spec_session(
                session_id@,
            ).request_queue@.len() > 0,
            r is None ==> *final(self) == *old(self),
            r matches Some(req) ==> {
                &&& final(self).sessions@.len() == old(self).sessions@.len()
                &&& forall|j: int|
                    0 <= j < old(self).sessions@.len() ==> (if old(self).sessions@[j].id_view()
                        == session_id@ {
                        polled_on(old(self).sessions@[j], final(self).sessions@[j], req@)
                    } else {
                        final(self).sessions@[j] == old(self).sessions@[j]
                    })
                &&& final(self).active_session == old(self).active_session
                &&& final(self).same_except_sessions(old(self))
            },
    {
        let i = match self.find_session_index(session_id) {
            Some(i) => i,
            None => {
                return None;
            },
        };
        proof {
            self.lemma_session_index_agrees(i as int);
        }
        if self.sessions[i].request_queue.len() == 0 {
            return None;
        }
        proof {
            old(self).sessions@.remove_ensures(i as int);
        }
        let mut s = self.sessions.remove(i);
        let req = s.request_queue.remove(0);
        proof {
            s.polled@ = s.polled@.push(req@);
        }
        self.sessions.insert(i, s);
        proof {
            let os = old(self).sessions@;
            let ns = self.sessions@;
            os.remove(i as int).insert_ensures(i as int, ns[i as int]);
            assert forall|j: int| 0 <= j < os.len() && j != i as int implies ns[j] == os[j] by {}
            assert(polled_on(os[i as int], ns[i as int], req@)) by {
                assert(ns[i as int].submitted_views() =~= os[i as int].submitted_views());
            }
            assert forall|j: int| 0 <= j < os.len() implies ns[j].id_view() == os[j].id_view()
                && ns[j].info == os[j].info by {
                if j != i as int {
                    assert(ns[j] == os[j]);
                }
            }
            match old(self).active_view() {
                Some(a) => {
                    let w = choose|k2: int| 0 <= k2 < os.len() && os[k2].id_view() == a;
                    assert(ns[w].id_view() == a);
                },
                None => {},
            }
        }
        Some(req)
    }

    /// Deliver a plugin response to the caller waiting on its correlation
    /// id. The entry is consumed either way; the result says whether an
    /// entry existed. A response whose caller already gave up is dropped.
    pub fn deliver_response(&mut self, response: PluginResponse) -> (r: bool)
        requires
            old(self).wf(),
        ensures
            final(self).wf(),
            r == old(self).corr_has(response.id@),
            !final(self).corr_has(response.id@),
            !r ==> *final(self) == *old(self),
            r ==> final(self).response_channels@ == old(self).response_channels@.remove(
                old(self).corr_index(response.id@),
            ),
            final(self).same_except_channels(old(self)),
    {
        let k = match self.find_channel_index(response.id.as_str()) {
            Some(k) => k,
            None => {
                return false;
            },
        };
        proof {
            self.lemma_corr_index_agrees(k as int);
            old(self).response_channels@.remove_ensures(k as int);
        }
        let entry = self.response_channels.remove(k);
        let _delivered = send_response(&entry.sender, response);
        proof {
            let oc = old(self).response_channels@;
            let nc = self.response_channels@;
            assert forall|j1: int, j2: int| 0 <= j1 < j2 < nc.len() implies nc[j1].id@
                != nc[j2].id@ by {
                let k1 = if j1 < k as int {
                    j1
                } else {
                    j1 + 1
                };
                let k2 = if j2 < k as int {
                    j2
                } else {
                    j2 + 1
                };
                assert(nc[j1] == oc[k1]);
                assert(nc[j2] == oc[k2]);
            }
            assert forall|j: int| 0 <= j < nc.len() implies nc[j].id@ != response.id@ by {
                let kj = if j < k as int {
                    j
                } else {
                    j + 1
                };
                assert(nc[j] == oc[kj]);
                assert(kj != k as int);
            }
        }
        true
    }

    /// Drop correlation entries whose callers have given up (reply channel
    /// closed). Which entries go depends on the run, so the contract only
    /// says that every remaining entry was already there.
    fn sweep_closed_channels(&mut self)
        requires
            old(self).wf(),
        ensures
            final(self).wf(),
            forall|j: int|
                0 <= j < final(self).response_channels@.len() ==> old(
                    self,
                ).response_channels@.contains(#[trigger] final(self).response_channels@[j]),
            final(self).sessions == old(self).sessions,
            final(self).active_session == old(self).active_session,
            final(self).same_except_channels(old(self)),
    {
        let mut i: usize = 0;
        while i < self.response_channels.len()
            invariant
                old(self).wf(),
                i <= self.response_channels@.len(),
                self.corr_ids_distinct(),
                forall|j: int|
                    0 <= j < self.response_channels@.len() ==> old(
                        self,
                    ).response_channels@.contains(#[trigger] self.response_channels@[j]),
                self.sessions == old(self).sessions,
                self.active_session == old(self).active_session,
                self.global_notify_tx == old(self).global_notify_tx,
                self.proxy_mode == old(self).proxy_mode,
                self.proxy_url == old(self).proxy_url,
            decreases self.response_channels@.len() - i,
        {
            if response_channel_closed(&self.response_channels[i].sender) {
                let ghost c = self.response_channels@;
                self.response_channels.remove(i);
                proof {
                    c.remove_ensures(i as int);
                    assert forall|j1: int, j2: int|
                        0 <= j1 < j2 < self.response_channels@.len() implies self.response_channels@[j1].id@
                        != self.response_channels@[j2].id@ by {
                        let k1 = if j1 < i as int {
                            j1
                        } else {
                            j1 + 1
                        };
                        let k2 = if j2 < i as int {
                            j2
                        } else {
                            j2 + 1
                        };
                        assert(self.response_channels@[j1] == c[k1]);
                        assert(self.response_channels@[j2] == c[k2]);
                    }
                    assert forall|j: int|
                        0 <= j < self.response_channels@.len() implies old(
                        self,
                    ).response_channels@.contains(self.response_channels@[j]) by {
                        let kj = if j < i as int {
                            j
                        } else {
                            j + 1
                        };
                        assert(self.response_channels@[j] == c[kj]);
                    }
                }
            } else {
                i = i + 1;
            }
        }
    }

    /// Remove every session whose heartbeat age is over the reap threshold,
    /// then repair the active pointer as removal demands.
    fn reap_stale_sessions(&mut self, now_secs: u64)
        requires
            old(self).wf(),
        ensures
            final(self).wf(),
            final(self).sessions@ == old(self).sessions@.filter(
                (|s: SessionState| reap_survivor(s, now_secs)),
            ),
            final(self).active_view() == active_after_removals(
                final(self).sessions@,
                old(self).active_view(),
            ),
            final(self).same_except_sessions(old(self)),
    {
        let ghost s0 = self.sessions@;
        let ghost pred = |s: SessionState| reap_survivor(s, now_secs);
        let mut i: usize = 0;
        let ghost mut k: int = 0;
        while i < self.sessions.len()
            invariant
                0 <= k <= s0.len(),
                i as int == s0.take(k).filter(pred).len(),
                self.sessions@ == s0.take(k).filter(pred) + s0.skip(k),
                self.session_ids_distinct(),
                self.session_places_distinct(),
                pred == (|s: SessionState| reap_survivor(s, now_secs)),
                self.active_session == old(self).active_session,
                self.response_channels == old(self).response_channels,
                self.global_notify_tx == old(self).global_notify_tx,
                self.proxy_mode == old(self).proxy_mode,
                self.proxy_url == old(self).proxy_url,
            decreases s0.len() - k,
        {
            proof {
                assert(self.sessions@.len() == i + s0.len() - k);
                assert(self.sessions@[i as int] == s0.skip(k)[0]);
                assert(s0.skip(k)[0] == s0[k]);
                lemma_filter_step(s0, pred, k);
            }
            let hb = self.sessions[i].last_heartbeat;
            let stale = now_secs >= hb && now_secs - hb > STALE_REAP_SECS;
            if stale {
                let ghost c = self.sessions@;
                self.sessions.remove(i);
                proof {
                    k = k + 1;
                    c.remove_ensures(i as int);
                    assert(!pred(s0[k - 1]));
                    assert(self.sessions@ =~= s0.take(k).filter(pred) + s0.skip(k));
                    assert forall|j1: int, j2: int|
                        0 <= j1 < j2 < self.sessions@.len() implies self.sessions@[j1].id_view()
                        != self.sessions@[j2].id_view() && !(self.sessions@[j1].info.place_id
                        == self.sessions@[j2].info.place_id && self.sessions@[j1].info.place_name@
                        == self.sessions@[j2].info.place_name@) by {
                        let k1 = if j1 < i as int {
                            j1
                        } else {
                            j1 + 1
                        };
                        let k2 = if j2 < i as int {
                            j2
                        } else {
                            j2 + 1
                        };
                        assert(self.sessions@[j1] == c[k1]);
                        assert(self.sessions@[j2] == c[k2]);
                    }
                }
            } else {
                proof {
                    assert(pred(s0[k]));
                }
                i = i + 1;
                proof {
                    k = k + 1;
                    assert(self.sessions@ =~= s0.take(k).filter(pred) + s0.skip(k));
                }
            }
        }
        proof {
            assert(k == s0.len());
            assert(s0.take(k) =~= s0);
            assert(s0.skip(k) =~= Seq::<SessionState>::empty());
            assert(self.sessions@ =~= s0.filter(pred));
        }
        let still = match &self.active_session {
            Some(a) => self.find_session_index(a.as_str()).is_some(),
            None => true,
        };
        if !still {
            if self.sessions.len() > 0 {
                self.active_session = Some(self.sessions[0].info.session_id.clone());
            } else {
                self.active_session = None;
            }
        }
        proof {
            assert(pred =~= (|s: SessionState| reap_survivor(s, now_secs)));
        }
    }

    /// Register a session. Stale sessions are reaped first; any session on
    /// the same (place id, place name) pair, and any prior session under the
    /// same id, is evicted; the new session is appended with a fresh
    /// heartbeat and an empty queue. The new session becomes active unless a
    /// still-connected session already holds the role. Every watcher of the
    /// global signal is woken. Returns the session id.
    pub fn register_session(&mut self, reg: SessionRegistration, now_secs: u64, wall_secs: u64) -> (r:
        String)
        requires
            old(self).wf(),
        ensures
            final(self).wf(),
            r@ == reg.session_id@,
            final(self).plugin_connected(now_secs),
            ({
                let kept = old(self).sessions@.filter(
                    (|s: SessionState|
                        registration_survivor(
                            s,
                            reg.session_id@,
                            reg.place_id,
                            reg.place_name@,
                            now_secs,
                        )),
                );
                &&& final(self).sessions@.len() == kept.len() + 1
                &&& forall|j: int| 0 <= j < kept.len() ==> final(self).sessions@[j] == kept[j]
                &&& final(self).sessions@[kept.len() as int].info@ == (SessionInfoV {
                    session_id: reg.session_id@,
                    place_id: reg.place_id,
                    place_name: reg.place_name@,
                    game_id: reg.game_id,
                    connected_at: wall_secs,
                })
                &&& final(self).sessions@[kept.len() as int].last_heartbeat == now_secs
                &&& final(self).sessions@[kept.len() as int].request_queue@.len() == 0
                &&& final(self).sessions@[kept.len() as int].polled@.len() == 0
                &&& final(self).active_view() == Some(
                    active_after_register(
                        kept,
                        old(self).active_view(),
                        reg.session_id@,
                        now_secs,
                    ),
                )
            }),
            forall|j: int|
                0 <= j < final(self).response_channels@.len() ==> old(
                    self,
                ).response_channels@.contains(#[trigger] final(self).response_channels@[j]),
            final(self).global_notify_tx == old(self).global_notify_tx,
            final(self).proxy_mode == old(self).proxy_mode,
            final(self).proxy_url == old(self).proxy_url,
    {
        self.sweep_closed_channels();
        let ghost s0 = self.sessions@;
        let ghost pred = |s: SessionState|
            registration_survivor(s, reg.session_id@, reg.place_id, reg.place_name@, now_secs);
        let ghost ch1 = self.response_channels@;
        let ghost act0 = self.active_session;
        let mut i: usize = 0;
        let ghost mut k: int = 0;
        while i < self.sessions.len()
            invariant
                0 <= k <= s0.len(),
                i as int == s0.take(k).filter(pred).len(),
                self.sessions@ == s0.take(k).filter(pred) + s0.skip(k),
                self.session_ids_distinct(),
                self.session_places_distinct(),
                pred == (|s: SessionState|
                    registration_survivor(
                        s,
                        reg.session_id@,
                        reg.place_id,
                        reg.place_name@,
                        now_secs,
                    )),
                self.active_session == act0,
                self.response_channels@ == ch1,
                self.global_notify_tx == old(self).global_notify_tx,
                self.proxy_mode == old(self).proxy_mode,
                self.proxy_url == old(self).proxy_url,
                self.corr_ids_distinct(),
            decreases s0.len() - k,
        {
            proof {
                assert(self.sessions@.len() == i + s0.len() - k);
                assert(self.sessions@[i as int] == s0.skip(k)[0]);
                assert(s0.skip(k)[0] == s0[k]);
                lemma_filter_step(s0, pred, k);
            }
            let hb = self.sessions[i].last_heartbeat;
            let stale = now_secs >= hb && now_secs - hb > STALE_REAP_SECS;
            let same_id = str_eq(
                self.sessions[i].info.session_id.as_str(),
                reg.session_id.as_str(),
            );
            let same_place = self.sessions[i].info.place_id == reg.place_id && str_eq(
                self.sessions[i].info.place_name.as_str(),
                reg.place_name.as_str(),
            );
            if stale || same_id || same_place {
                let ghost c = self.sessions@;
                self.sessions.remove(i);
                proof {
                    k = k + 1;
                    c.remove_ensures(i as int);
                    assert(!pred(s0[k - 1]));
                    assert(self.sessions@ =~= s0.take(k).filter(pred) + s0.skip(k));
                    assert forall|j1: int, j2: int|
                        0 <= j1 < j2 < self.sessions@.len() implies self.sessions@[j1].id_view()
                        != self.sessions@[j2].id_view() && !(self.sessions@[j1].info.place_id
                        == self.sessions@[j2].info.place_id && self.sessions@[j1].info.place_name@
                        == self.sessions@[j2].info.place_name@) by {
                        let k1 = if j1 < i as int {
                            j1
                        } else {
                            j1 + 1
                        };
                        let k2 = if j2 < i as int {
                            j2
                        } else {
                            j2 + 1
                        };
                        assert(self.sessions@[j1] == c[k1]);
                        assert(self.sessions@[j2] == c[k2]);
                    }
                }
            } else {
                proof {
                    assert(pred(s0[k]));
                }
                i = i + 1;
                proof {
                    k = k + 1;
                    assert(self.sessions@ =~= s0.take(k).filter(pred) + s0.skip(k));
                }
            }
        }
        proof {
            assert(k == s0.len());
            assert(s0.take(k) =~= s0);
            assert(s0.skip(k) =~= Seq::<SessionState>::empty());
            assert(self.sessions@ =~= s0.filter(pred));
        }
        let ghost kept = self.sessions@;
        // repair the active pointer after the evictions; an active pointer
        // naming the id being registered stays, since that session is about
        // to be re-inserted
        let still = match &self.active_session {
            Some(a) => str_eq(a.as_str(), reg.session_id.as_str()) || self.find_session_index(
                a.as_str(),
            ).is_some(),
            None => true,
        };
        if !still {
            if self.sessions.len() > 0 {
                self.active_session = Some(self.sessions[0].info.session_id.clone());
            } else {
                self.active_session = None;
            }
        }
        proof {
            assert(self.active_view() == active_after_eviction(
                kept,
                old(self).active_view(),
                reg.session_id@,
            ));
        }
        let (notify_tx, notify_rx) = new_watch_channel();
        let session_id = reg.session_id.clone();
        let session = SessionState {
            info: SessionInfo {
                session_id: reg.session_id.clone(),
                place_id: reg.place_id,
                place_name: reg.place_name.clone(),
                game_id: reg.game_id,
                connected_at: wall_secs,
            },
            last_heartbeat: now_secs,
            request_queue: Vec::new(),
            notify_tx,
            notify_rx,
            polled: Ghost(Seq::empty()),
        };
        self.sessions.push(session);
        proof {
            let ns = self.sessions@;
            assert(ns.len() == kept.len() + 1);
            assert forall|j: int| 0 <= j < kept.len() implies ns[j] == kept[j] by {}
            assert(ns[kept.len() as int].id_view() == reg.session_id@);
            assert forall|j: int| 0 <= j < kept.len() implies kept[j].id_view() != reg.session_id@
                && !(kept[j].info.place_id == reg.place_id && kept[j].info.place_name@
                == reg.place_name@) by {
                s0.lemma_filter_pred(pred, j);
            }
            assert(self.session_ids_distinct());
            assert(self.session_places_distinct());
            assert(self.active_valid()) by {
                match self.active_view() {
                    Some(a) => {
                        if a == reg.session_id@ {
                            assert(ns[kept.len() as int].id_view() == a);
                        } else {
                            assert(seq_has_session(kept, a));
                            let w = choose|w: int|
                                0 <= w < kept.len() && kept[w].id_view() == a;
                            assert(ns[w].id_view() == a);
                        }
                    },
                    None => {},
                }
            }
        }
        let make_active = match &self.active_session {
            Some(_) => !self.is_plugin_connected(now_secs),
            None => true,
        };
        if make_active {
            self.active_session = Some(reg.session_id.clone());
        }
        proof {
            let ns = self.sessions@;
            let newi = kept.len() as int;
            assert(ns[newi].connected(now_secs));
            match active_after_eviction(kept, old(self).active_view(), reg.session_id@) {
                None => {
                    assert(self.active_view() == Some(reg.session_id@));
                },
                Some(a) => {
                    if a == reg.session_id@ {
                        // the mid-state active named the new session, which is connected
                        assert(seq_session_connected(ns, a, now_secs)) by {
                            assert(ns[newi].id_view() == a);
                        }
                        assert(self.active_view() == Some(reg.session_id@));
                    } else {
                        assert(seq_session_connected(ns, a, now_secs) == seq_session_connected(
                            kept,
                            a,
                            now_secs,
                        )) by {
                            if seq_session_connected(ns, a, now_secs) {
                                let w = choose|w: int|
                                    0 <= w < ns.len() && ns[w].id_view() == a && ns[w].connected(
                                        now_secs,
                                    );
                                assert(w != newi);
                                assert(kept[w] == ns[w]);
                            }
                            if seq_session_connected(kept, a, now_secs) {
                                let w = choose|w: int|
                                    0 <= w < kept.len() && kept[w].id_view() == a
                                        && kept[w].connected(now_secs);
                                assert(ns[w] == kept[w]);
                            }
                        }
                    }
                },
            }
            assert(self.plugin_connected(now_secs)) by {
                match self.active_view() {
                    Some(a) => {
                        if a == reg.session_id@ {
                            assert(ns[newi].id_view() == a && ns[newi].connected(now_secs));
                        }
                    },
                    None => {
                        assert(false);
                    },
                }
            }
        }
        notify_watch(&self.global_notify_tx);
        session_id
    }

    /// Reap stale sessions and drop correlation entries whose callers have
    /// given up. Invoked periodically and on every registration.
    pub fn cleanup_expired(&mut self, now_secs: u64)
        requires
            old(self).wf(),
        ensures
            final(self).wf(),
            forall|j: int|
                0 <= j < final(self).response_channels@.len() ==> old(
                    self,
                ).response_channels@.contains(#[trigger] final(self).response_channels@[j]),
            final(self).sessions@ == old(self).sessions@.filter(
                (|s: SessionState| reap_survivor(s, now_secs)),
            ),
            final(self).active_view() == active_after_removals(
                final(self).sessions@,
                old(self).active_view(),
            ),
            final(self).global_notify_tx == old(self).global_notify_tx,
            final(self).proxy_mode == old(self).proxy_mode,
            final(self).proxy_url == old(self).proxy_url,
    {
        self.sweep_closed_channels();
        self.reap_stale_sessions(now_secs);
    }

    /// The waiter end of a session's wake signal, cloned under the lock so
    /// the long poll can wait on it after the lock is released.
    pub fn get_session_notify_rx(&self, session_id: &str) -> (r: Option<
        tokio::sync::watch::Receiver<bool>,
    >)
        ensures
            r is Some <==> self.has_session(session_id@),
    {
        match self.find_session_index(session_id) {
            Some(i) => Some(clone_watch_receiver(&self.sessions[i].notify_rx)),
            None => None,
        }
    }
}

} // verus!
