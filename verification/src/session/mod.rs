//! Sessions: the peer a session serves, the command it runs, the bytes it
//! forwards, and the table of live sessions.

pub mod getty;
pub mod io_forward;
pub mod pty;

use vstd::prelude::*;
use vstd::string::*;
use crate::config::{SessionConfig, SessionMode};
use crate::session::io_forward::ForwardExitReason;

verus! {

/// The Bluetooth peer that a session serves.
#[derive(Debug, Clone)]
pub struct SessionPeerInfo {
    pub device_path: String,
    pub address: String,
    pub name: String,
}

/// Why a session could not be started.
#[derive(Debug)]
pub enum SessionError {
    /// `max_sessions` sessions are already active.
    MaxSessionsReached,
    /// `session.SubcommandTemplate` is not valid shell-like syntax; the template.
    InvalidTemplate(String),
    /// `session.SubcommandTemplate` produced no words.
    EmptyCommand,
}


/// Whether a session is serving or being stopped.
#[derive(Debug, Clone, Copy, PartialEq, Eq, Structural)]
pub enum SessionLifecycle {
    Running,
    ShuttingDown,
}

/// One session in the table.
#[derive(Debug)]
pub struct SessionEntry {
    pub id: u64,
    pub device_path: String,
    pub pty_slave_path: String,
    /// The child whose lifecycle the session manages; `None` in mode `none`.
    pub child_pid: Option<u32>,
    pub lifecycle: SessionLifecycle,
}

pub struct SessionEntryView {
    pub id: u64,
    pub device_path: Seq<char>,
    pub pty_slave_path: Seq<char>,
    pub child_pid: Option<u32>,
    pub lifecycle: SessionLifecycle,
}

impl View for SessionEntry {
    type V = SessionEntryView;

    open spec fn view(&self) -> SessionEntryView {
        SessionEntryView {
            id: self.id,
            device_path: self.device_path@,
            pty_slave_path: self.pty_slave_path@,
            child_pid: self.child_pid,
            lifecycle: self.lifecycle,
        }
    }
}

/// What the creator of a session learns about it.
#[derive(Debug, Clone)]
pub struct SessionHandle {
    pub id: u64,
    pub device_path: String,
    pub pty_slave_path: String,
    pub child_pid: Option<u32>,
}

/// The table of live sessions and the id the next one gets.
#[derive(Debug)]
pub struct SessionState {
    next_id: u64,
    sessions: Vec<SessionEntry>,
}

pub struct SessionStateView {
    pub next_id: u64,
    pub entries: Seq<SessionEntryView>,
}

impl View for SessionState {
    type V = SessionStateView;

    closed spec fn view(&self) -> SessionStateView {
        SessionStateView {
            next_id: self.next_id,
            entries: self.sessions@.map_values(|e: SessionEntry| e@),
        }
    }
}

/// Ids start at 1, increase strictly along the table, and stay below the
/// next id to hand out.
pub open spec fn table_wf(v: SessionStateView) -> bool {
    &&& v.next_id >= 1
    &&& forall|i: int, j: int| 0 <= i < j < v.entries.len() ==> v.entries[i].id < v.entries[j].id
    &&& forall|i: int| 0 <= i < v.entries.len() ==> #[trigger] v.entries[i].id < v.next_id
}

/// The child pid a session manages: none in mode `none`.
pub open spec fn managed_pid(mode: SessionMode, pid: u32) -> Option<u32> {
    if mode == SessionMode::Unmanaged {
        None
    } else {
        Some(pid)
    }
}

/// Whether another session may start: `max_sessions` 0 means unlimited.
pub open spec fn capacity_allows(len: nat, max_sessions: usize) -> bool {
    max_sessions == 0 || len < max_sessions
}

/// The child pid a session manages: none in mode `none`, where the child is a
/// notification hook left to run on its own.
pub fn lifecycle_child_pid(mode: SessionMode, pid: u32) -> (r: Option<u32>)
    ensures
        r == managed_pid(mode, pid),
{
    match mode {
        SessionMode::Unmanaged => None,
        _ => Some(pid),
    }
}

impl SessionState {
    pub closed spec fn wf(&self) -> bool {
        &&& table_wf(self@)
        &&& self.sessions@.len() == self@.entries.len()
    }

    /// A well-formed table has ids that start at 1, increase strictly along
    /// the table, and stay below the next id (so no two sessions share one).
    pub proof fn lemma_wf_ids(&self)
        requires
            self.wf(),
        ensures
            table_wf(self@),
    {
    }

    /// An empty table whose first session gets id 1.
    pub fn new() -> (r: SessionState)
        ensures
            r.wf(),
            r@.next_id == 1,
            r@.entries == Seq::<SessionEntryView>::empty(),
    {
        let r = SessionState { next_id: 1, sessions: Vec::new() };
        assert(r@.entries =~= Seq::<SessionEntryView>::empty());
        r
    }

    /// The number of sessions in the table.
    pub fn len(&self) -> (r: usize)
        requires
            self.wf(),
        ensures
            r == self@.entries.len(),
    {
        self.sessions.len()
    }

    /// The id the next session gets.
    pub fn next_id(&self) -> (r: u64)
        ensures
            r == self@.next_id,
    {
        self.next_id
    }

    /// Refuses another session when `max_sessions` (0: unlimited) are
    /// already active.
    pub fn check_capacity(&self, max_sessions: usize) -> (r: Result<(), SessionError>)
        requires
            self.wf(),
        ensures
            r is Ok <==> capacity_allows(self@.entries.len(), max_sessions),
            r matches Err(e) ==> e is MaxSessionsReached,
    {
        if max_sessions == 0 || self.sessions.len() < max_sessions {
            Ok(())
        } else {
            Err(SessionError::MaxSessionsReached)
        }
    }
}


/// The entry a new session gets.
pub open spec fn new_entry(
    id: u64,
    mode: SessionMode,
    device_path: Seq<char>,
    pty_slave_path: Seq<char>,
    pid: u32,
) -> SessionEntryView {
    SessionEntryView {
        id,
        device_path,
        pty_slave_path,
        child_pid: managed_pid(mode, pid),
        lifecycle: SessionLifecycle::Running,
    }
}

impl SessionState {
    /// Records a new running session under the next id and hands out its
    /// handle; the next id goes up by one.
    pub fn register(
        &mut self,
        mode: SessionMode,
        device_path: String,
        pty_slave_path: String,
        child_pid: u32,
    ) -> (r: SessionHandle)
        requires
            old(self).wf(),
            old(self)@.next_id < u64::MAX,
        ensures
            final(self).wf(),
            final(self)@.next_id == old(self)@.next_id + 1,
            final(self)@.entries == old(self)@.entries.push(
                new_entry(old(self)@.next_id, mode, device_path@, pty_slave_path@, child_pid),
            ),
            r.id == old(self)@.next_id,
            r.device_path@ == device_path@,
            r.pty_slave_path@ == pty_slave_path@,
            r.child_pid == managed_pid(mode, child_pid),
    {
        let id = self.next_id;
        let tracked_pid = lifecycle_child_pid(mode, child_pid);
        let handle = SessionHandle {
            id,
            device_path: device_path.clone(),
            pty_slave_path: pty_slave_path.clone(),
            child_pid: tracked_pid,
        };
        let ghost before = self@.entries;
        self.sessions.push(
            SessionEntry {
                id,
                device_path,
                pty_slave_path,
                child_pid: tracked_pid,
                lifecycle: SessionLifecycle::Running,
            },
        );
        self.next_id = id + 1;
        assert(self@.entries =~= before.push(
            new_entry(id, mode, handle.device_path@, handle.pty_slave_path@, child_pid),
        ));
        handle
    }
}


/// Whether a shutdown request for `device` (every device where `None`)
/// concerns a session.
pub open spec fn targeted(e: SessionEntryView, device: Option<Seq<char>>) -> bool {
    match device {
        Some(d) => e.device_path == d,
        None => true,
    }
}

/// Whether a shutdown request stops a session now: it is concerned and still
/// running.
pub open spec fn stops(e: SessionEntryView, device: Option<Seq<char>>) -> bool {
    targeted(e, device) && e.lifecycle == SessionLifecycle::Running
}

/// A session after a shutdown request: stopped ones are shutting down.
pub open spec fn shut_entry(e: SessionEntryView, device: Option<Seq<char>>) -> SessionEntryView {
    if stops(e, device) {
        SessionEntryView {
            id: e.id,
            device_path: e.device_path,
            pty_slave_path: e.pty_slave_path,
            child_pid: e.child_pid,
            lifecycle: SessionLifecycle::ShuttingDown,
        }
    } else {
        e
    }
}

pub open spec fn shut_entries(entries: Seq<SessionEntryView>, device: Option<Seq<char>>) -> Seq<SessionEntryView> {
    entries.map_values(|e: SessionEntryView| shut_entry(e, device))
}

/// The ids of the sessions a shutdown request stops, in table order.
pub open spec fn stop_ids(entries: Seq<SessionEntryView>, device: Option<Seq<char>>) -> Seq<u64>
    decreases entries.len(),
{
    if entries.len() == 0 {
        Seq::empty()
    } else {
        let rest = stop_ids(entries.drop_last(), device);
        if stops(entries.last(), device) {
            rest.push(entries.last().id)
        } else {
            rest
        }
    }
}

/// The managed children of the sessions a shutdown request stops, in table
/// order.
pub open spec fn stop_pids(entries: Seq<SessionEntryView>, device: Option<Seq<char>>) -> Seq<u32>
    decreases entries.len(),
{
    if entries.len() == 0 {
        Seq::empty()
    } else {
        let rest = stop_pids(entries.drop_last(), device);
        let e = entries.last();
        if stops(e, device) && e.child_pid is Some {
            rest.push(e.child_pid->0)
        } else {
            rest
        }
    }
}

/// The number of sessions a shutdown request concerns, stopped or not.
pub open spec fn count_targeted(entries: Seq<SessionEntryView>, device: Option<Seq<char>>) -> nat
    decreases entries.len(),
{
    if entries.len() == 0 {
        0
    } else {
        count_targeted(entries.drop_last(), device) + if targeted(entries.last(), device) {
            1nat
        } else {
            0nat
        }
    }
}

/// What a shutdown request asks of the outside world: stop the forwarding of
/// `stop_ids` and signal `child_pids`; `matched` sessions were concerned.
#[derive(Debug)]
pub struct ShutdownRequest {
    pub matched: usize,
    pub stop_ids: Vec<u64>,
    pub child_pids: Vec<u32>,
}

proof fn lemma_count_targeted_bound(entries: Seq<SessionEntryView>, device: Option<Seq<char>>)
    ensures
        count_targeted(entries, device) <= entries.len(),
    decreases entries.len(),
{
    if entries.len() > 0 {
        lemma_count_targeted_bound(entries.drop_last(), device);
    }
}

impl SessionState {
    fn shut_down(&mut self, device: Option<&str>, Ghost(dv): Ghost<Option<Seq<char>>>) -> (r:
        ShutdownRequest)
        requires
            old(self).wf(),
            dv == (match device {
                Some(d) => Some(d@),
                None => None::<Seq<char>>,
            }),
        ensures
            final(self).wf(),
            final(self)@.next_id == old(self)@.next_id,
            final(self)@.entries == shut_entries(old(self)@.entries, dv),
            r.stop_ids@ == stop_ids(old(self)@.entries, dv),
            r.child_pids@ == stop_pids(old(self)@.entries, dv),
            r.matched == count_targeted(old(self)@.entries, dv),
    {
        let target: Option<String> = match device {
            Some(d) => Some(String::from_str(d)),
            None => None,
        };
        let ghost start = self@.entries;
        let n = self.sessions.len();
        let mut matched: usize = 0;
        let mut ids: Vec<u64> = Vec::new();
        let mut pids: Vec<u32> = Vec::new();
        let mut i: usize = 0;
        while i < n
            invariant
                n == self.sessions.len(),
                n == start.len(),
                i <= n,
                target.deep_view() == dv,
                self@.next_id == old(self)@.next_id,
                self@.entries == shut_entries(start.take(i as int), dv) + start.skip(i as int),
                ids@ == stop_ids(start.take(i as int), dv),
                pids@ == stop_pids(start.take(i as int), dv),
                matched == count_targeted(start.take(i as int), dv),
            decreases n - i,
        {
            proof {
                lemma_count_targeted_bound(start.take(i as int), dv);
                assert(start.take(i + 1).drop_last() =~= start.take(i as int));
                assert(self@.entries[i as int] == start[i as int]);
            }
            let hit = match &target {
                Some(t) => self.sessions[i].device_path == *t,
                None => true,
            };
            let ghost before = self@.entries;
            if hit {
                matched = matched + 1;
                if self.sessions[i].lifecycle == SessionLifecycle::Running {
                    let e = &self.sessions[i];
                    let id = e.id;
                    let child_pid = e.child_pid;
                    let stopped = SessionEntry {
                        id,
                        device_path: e.device_path.clone(),
                        pty_slave_path: e.pty_slave_path.clone(),
                        child_pid,
                        lifecycle: SessionLifecycle::ShuttingDown,
                    };
                    self.sessions.set(i, stopped);
                    ids.push(id);
                    if let Some(p) = child_pid {
                        pids.push(p);
                    }
                    assert(self@.entries =~= before.update(i as int, shut_entry(start[i as int], dv)));
                }
            }
            assert(self@.entries =~= shut_entries(start.take(i + 1), dv) + start.skip(i + 1));
            i = i + 1;
        }
        assert(start.take(n as int) =~= start);
        assert(self@.entries =~= shut_entries(start, dv));
        assert(table_wf(self@));
        ShutdownRequest { matched, stop_ids: ids, child_pids: pids }
    }

    /// Stops every running session of a device: each becomes shutting down,
    /// and the request lists their ids and managed children. Sessions of other
    /// devices, and those already shutting down, are left as they are.
    pub fn shutdown_device(&mut self, device_path: &str) -> (r: ShutdownRequest)
        requires
            old(self).wf(),
        ensures
            final(self).wf(),
            final(self)@.next_id == old(self)@.next_id,
            final(self)@.entries == shut_entries(old(self)@.entries, Some(device_path@)),
            r.stop_ids@ == stop_ids(old(self)@.entries, Some(device_path@)),
            r.child_pids@ == stop_pids(old(self)@.entries, Some(device_path@)),
            r.matched == count_targeted(old(self)@.entries, Some(device_path@)),
    {
        self.shut_down(Some(device_path), Ghost(Some(device_path@)))
    }

    /// Stops every running session: each becomes shutting down, and the
    /// request lists their ids and managed children.
    pub fn shutdown_all(&mut self) -> (r: ShutdownRequest)
        requires
            old(self).wf(),
        ensures
            final(self).wf(),
            final(self)@.next_id == old(self)@.next_id,
            final(self)@.entries == shut_entries(old(self)@.entries, None),
            r.stop_ids@ == stop_ids(old(self)@.entries, None),
            r.child_pids@ == stop_pids(old(self)@.entries, None),
            r.matched == old(self)@.entries.len(),
    {
        let r = self.shut_down(None, Ghost(None));
        proof {
            lemma_count_all(old(self)@.entries);
        }
        r
    }
}

proof fn lemma_count_all(entries: Seq<SessionEntryView>)
    ensures
        count_targeted(entries, None) == entries.len(),
    decreases entries.len(),
{
    if entries.len() > 0 {
        lemma_count_all(entries.drop_last());
    }
}


/// The managed children of every session in the table, in table order.
pub open spec fn all_pids(entries: Seq<SessionEntryView>) -> Seq<u32>
    decreases entries.len(),
{
    if entries.len() == 0 {
        Seq::empty()
    } else {
        let rest = all_pids(entries.drop_last());
        if entries.last().child_pid is Some {
            rest.push(entries.last().child_pid->0)
        } else {
            rest
        }
    }
}

/// Where the session with an id stands in the table, if anywhere.
pub open spec fn has_id_at(entries: Seq<SessionEntryView>, id: u64, i: int) -> bool {
    0 <= i < entries.len() && entries[i].id == id
}

impl SessionState {
    /// The managed children of every session still in the table, running or
    /// not: the targets when shutdown escalates to SIGKILL.
    pub fn kill_targets(&self) -> (r: Vec<u32>)
        requires
            self.wf(),
        ensures
            r@ == all_pids(self@.entries),
    {
        let ghost entries = self@.entries;
        let mut out: Vec<u32> = Vec::new();
        let mut i: usize = 0;
        while i < self.sessions.len()
            invariant
                self.wf(),
                entries == self@.entries,
                i <= self.sessions.len(),
                out@ == all_pids(entries.take(i as int)),
            decreases self.sessions.len() - i,
        {
            assert(entries.take(i + 1).drop_last() =~= entries.take(i as int));
            assert(entries[i as int] == self.sessions@[i as int]@);
            if let Some(p) = self.sessions[i].child_pid {
                out.push(p);
            }
            i = i + 1;
        }
        assert(entries.take(i as int) =~= entries);
        out
    }

    /// Takes the session with an id out of the table, when it is there;
    /// the other sessions keep their order.
    pub fn remove(&mut self, id: u64) -> (r: Option<SessionEntry>)
        requires
            old(self).wf(),
        ensures
            final(self).wf(),
            final(self)@.next_id == old(self)@.next_id,
            match r {
                Some(e) => exists|i: int|
                    has_id_at(old(self)@.entries, id, i) && e@ == old(self)@.entries[i]
                        && final(self)@.entries == old(self)@.entries.remove(i),
                None => (forall|i: int| !has_id_at(old(self)@.entries, id, i)) && final(self)@.entries
                    == old(self)@.entries,
            },
            forall|i: int| !has_id_at(final(self)@.entries, id, i),
    {
        let ghost start = self@.entries;
        let mut i: usize = 0;
        while i < self.sessions.len()
            invariant
                self.wf(),
                self@ == old(self)@,
                start == self@.entries,
                i <= self.sessions.len(),
                forall|k: int| 0 <= k < i ==> !has_id_at(start, id, k),
            decreases self.sessions.len() - i,
        {
            assert(start[i as int] == self.sessions@[i as int]@);
            if self.sessions[i].id == id {
                let e = self.sessions.remove(i);
                assert(self@.entries =~= start.remove(i as int));
                assert(has_id_at(start, id, i as int));
                assert forall|k: int| !has_id_at(self@.entries, id, k) by {
                    if 0 <= k < self@.entries.len() {
                        if k < i {
                            assert(self@.entries[k] == start[k]);
                            assert(start[k].id < start[i as int].id);
                        } else {
                            assert(self@.entries[k] == start[k + 1]);
                            assert(start[i as int].id < start[k + 1].id);
                        }
                    }
                }
                return Some(e);
            }
            i = i + 1;
        }
        None
    }
}

/// What the shutdown wait does next.
#[derive(Debug, Clone, Copy, PartialEq, Eq, Structural)]
pub enum SettleAction {
    /// Every session has closed.
    Done,
    /// The wait is over: send SIGKILL to what is left.
    Escalate,
    /// Wait a little longer.
    Wait,
}

/// One round of waiting for sessions to close after a shutdown: done when
/// none is left, escalate once `timeout_ms` have passed, wait otherwise.
pub fn settle_step(remaining: usize, elapsed_ms: u64, timeout_ms: u64) -> (r: SettleAction)
    ensures
        r == (if remaining == 0 {
            SettleAction::Done
        } else if elapsed_ms >= timeout_ms {
            SettleAction::Escalate
        } else {
            SettleAction::Wait
        }),
{
    if remaining == 0 {
        SettleAction::Done
    } else if elapsed_ms >= timeout_ms {
        SettleAction::Escalate
    } else {
        SettleAction::Wait
    }
}

/// The pause between SIGHUP and SIGTERM when a session child is stopped,
/// `None` where there is none.
pub fn hup_to_term_pause(config: &SessionConfig) -> (r: Option<u64>)
    ensures
        r == (if config.hup_to_term_delay_ms > 0 {
            Some(config.hup_to_term_delay_ms)
        } else {
            None
        }),
{
    if config.hup_to_term_delay_ms > 0 {
        Some(config.hup_to_term_delay_ms)
    } else {
        None
    }
}

/// Where a signal for a session child goes.
#[derive(Debug, Clone, Copy, PartialEq, Eq, Structural)]
pub enum SignalTarget {
    /// The process group with this id (passed to `kill` negated).
    Group(i32),
    /// The process with this id.
    Process(i32),
}

/// The first target of a signal for a child: its process group where
/// `getpgid` found one, the child itself otherwise.
pub fn first_signal_target(child_pid: u32, pgid: i32) -> (r: SignalTarget)
    ensures
        r == (if pgid > 0 {
            SignalTarget::Group(pgid)
        } else {
            SignalTarget::Process(child_pid as i32)
        }),
{
    if pgid > 0 {
        SignalTarget::Group(pgid)
    } else {
        SignalTarget::Process(child_pid as i32)
    }
}

/// The target after signalling the process group: none when the group got
/// it, the child itself when `kill` on the group failed with this `errno`.
pub fn signal_fallback(child_pid: u32, group_result: Result<(), i32>) -> (r: Option<SignalTarget>)
    ensures
        r == (match group_result {
            Ok(()) => None,
            Err(_) => Some(SignalTarget::Process(child_pid as i32)),
        }),
{
    match group_result {
        Ok(()) => None,
        Err(_) => Some(SignalTarget::Process(child_pid as i32)),
    }
}


/// Whether a managed child still has to be signalled once its forwarding
/// stopped: for either reason, exactly when it is still running.
pub fn child_needs_stop(reason: ForwardExitReason, still_running: bool) -> (r: bool)
    ensures
        r == still_running,
{
    match reason {
        ForwardExitReason::StopRequested | ForwardExitReason::PeerClosed => still_running,
    }
}

/// The reason a session's forwarding ended: the pump's own, or the peer
/// closing where the pump could not be joined.
pub fn reason_or_peer_closed(joined: Option<ForwardExitReason>) -> (r: ForwardExitReason)
    ensures
        r == (match joined {
            Some(reason) => reason,
            None => ForwardExitReason::PeerClosed,
        }),
{
    match joined {
        Some(reason) => reason,
        None => ForwardExitReason::PeerClosed,
    }
}

/// No two sessions in a well-formed table share an id.
pub proof fn law_session_ids_distinct(v: SessionStateView, i: int, j: int)
    requires
        table_wf(v),
        0 <= i < v.entries.len(),
        0 <= j < v.entries.len(),
        i != j,
    ensures
        v.entries[i].id != v.entries[j].id,
{
    if i < j {
        assert(v.entries[i].id < v.entries[j].id);
    } else {
        assert(v.entries[j].id < v.entries[i].id);
    }
}

/// With a positive `max_sessions`, a table that admits another session still
/// holds at most `max_sessions` once it is registered: the limit is never
/// exceeded. With 0 there is no limit.
pub proof fn law_capacity_respected(len: nat, max_sessions: usize)
    requires
        capacity_allows(len, max_sessions),
    ensures
        max_sessions > 0 ==> len + 1 <= max_sessions,
        max_sessions == 0 ==> capacity_allows(len + 1, max_sessions),
{
}

/// A new session gets the next id, and removing that id afterwards gives
/// back exactly the table there was before.
pub proof fn law_register_then_remove(
    v: SessionStateView,
    mode: SessionMode,
    device_path: Seq<char>,
    pty_slave_path: Seq<char>,
    pid: u32,
    i: int,
)
    requires
        table_wf(v),
    ensures
        ({
            let after = v.entries.push(new_entry(v.next_id, mode, device_path, pty_slave_path, pid));
            &&& has_id_at(after, v.next_id, i) <==> i == v.entries.len()
            &&& after.remove(v.entries.len() as int) == v.entries
        }),
{
    let after = v.entries.push(new_entry(v.next_id, mode, device_path, pty_slave_path, pid));
    if 0 <= i < v.entries.len() {
        assert(after[i] == v.entries[i]);
    }
    assert(after.remove(v.entries.len() as int) =~= v.entries);
}

proof fn lemma_stop_ids_empty(entries: Seq<SessionEntryView>, device: Option<Seq<char>>)
    requires
        forall|k: int| 0 <= k < entries.len() ==> !stops(#[trigger] entries[k], device),
    ensures
        stop_ids(entries, device) == Seq::<u64>::empty(),
        stop_pids(entries, device) == Seq::<u32>::empty(),
    decreases entries.len(),
{
    if entries.len() > 0 {
        assert(!stops(entries[entries.len() - 1], device));
        lemma_stop_ids_empty(entries.drop_last(), device);
    }
}

/// Asking twice to shut down the same sessions changes nothing the second
/// time: no session is stopped or signalled again.
pub proof fn law_shutdown_idempotent(entries: Seq<SessionEntryView>, device: Option<Seq<char>>)
    ensures
        shut_entries(shut_entries(entries, device), device) == shut_entries(entries, device),
        stop_ids(shut_entries(entries, device), device) == Seq::<u64>::empty(),
        stop_pids(shut_entries(entries, device), device) == Seq::<u32>::empty(),
{
    let once = shut_entries(entries, device);
    assert(shut_entries(once, device) =~= once);
    lemma_stop_ids_empty(once, device);
}

/// A shutdown request for one device leaves the sessions of every other
/// device as they were, and never removes or reorders a session.
pub proof fn law_shutdown_scoped(entries: Seq<SessionEntryView>, device: Seq<char>, i: int)
    requires
        0 <= i < entries.len(),
    ensures
        shut_entries(entries, Some(device)).len() == entries.len(),
        shut_entries(entries, Some(device))[i].id == entries[i].id,
        shut_entries(entries, Some(device))[i].device_path == entries[i].device_path,
        entries[i].device_path != device ==> shut_entries(entries, Some(device))[i] == entries[i],
{
}

/// After shutting everything down, every session is shutting down, with its
/// id, device, PTY and child unchanged.
pub proof fn law_shutdown_all_quiesces(entries: Seq<SessionEntryView>, i: int)
    requires
        0 <= i < entries.len(),
    ensures
        shut_entries(entries, None)[i].lifecycle == SessionLifecycle::ShuttingDown,
        shut_entries(entries, None)[i].id == entries[i].id,
        shut_entries(entries, None)[i].device_path == entries[i].device_path,
        shut_entries(entries, None)[i].pty_slave_path == entries[i].pty_slave_path,
        shut_entries(entries, None)[i].child_pid == entries[i].child_pid,
{
}


/// How one call on a table moves its next id: a registration hands out the
/// next id and moves it up by one; every other call leaves it as it is.
pub open spec fn next_id_step(before: SessionStateView, after: SessionStateView, handed: Option<u64>) -> bool {
    match handed {
        Some(id) => id == before.next_id && after.next_id == before.next_id + 1,
        None => after.next_id == before.next_id,
    }
}

/// The number of registrations among a run of calls.
pub open spec fn registrations(handed: Seq<Option<u64>>) -> nat
    decreases handed.len(),
{
    if handed.len() == 0 {
        0
    } else {
        registrations(handed.drop_last()) + if handed.last() is Some {
            1nat
        } else {
            0nat
        }
    }
}

proof fn lemma_next_id_counts(states: Seq<SessionStateView>, handed: Seq<Option<u64>>, n: int)
    requires
        states.len() == handed.len() + 1,
        states[0].next_id == 1,
        forall|m: int|
            #![trigger handed[m]]
            0 <= m < handed.len() ==> next_id_step(states[m], states[m + 1], handed[m]),
        0 <= n <= handed.len(),
    ensures
        states[n].next_id == 1 + registrations(handed.take(n)),
    decreases n,
{
    if n > 0 {
        lemma_next_id_counts(states, handed, n - 1);
        assert(handed.take(n).drop_last() =~= handed.take(n - 1));
        assert(next_id_step(states[n - 1], states[n], handed[n - 1]));
    } else {
        assert(handed.take(0) =~= Seq::<Option<u64>>::empty());
    }
}

proof fn lemma_registrations_grow(handed: Seq<Option<u64>>, k: int, l: int)
    requires
        0 <= k < l <= handed.len(),
        handed[k] is Some,
    ensures
        registrations(handed.take(k)) < registrations(handed.take(l)),
    decreases l - k,
{
    assert(handed.take(l).drop_last() =~= handed.take(l - 1));
    if l == k + 1 {
    } else {
        lemma_registrations_grow(handed, k, l - 1);
    }
}

/// Over any run of calls on a table made by `new` (each step as the calls'
/// contracts give it: a registration hands out the next id and moves it up,
/// every other call keeps it), the ids handed out are 1, 2, 3, … in order:
/// the first is 1, each later one is larger, and none is ever handed out
/// twice, whatever sessions closed in between.
pub proof fn law_ids_strictly_increase(
    states: Seq<SessionStateView>,
    handed: Seq<Option<u64>>,
    k: int,
    l: int,
)
    requires
        states.len() == handed.len() + 1,
        states[0].next_id == 1,
        forall|m: int|
            #![trigger handed[m]]
            0 <= m < handed.len() ==> next_id_step(states[m], states[m + 1], handed[m]),
        0 <= k < handed.len(),
        0 <= l < handed.len(),
    ensures
        handed[k] is Some ==> handed[k]->0 == 1 + registrations(handed.take(k)),
        k < l && handed[k] is Some && handed[l] is Some ==> handed[k]->0 < handed[l]->0,
{
    lemma_next_id_counts(states, handed, k);
    lemma_next_id_counts(states, handed, l);
    assert(next_id_step(states[k], states[k + 1], handed[k]));
    assert(next_id_step(states[l], states[l + 1], handed[l]));
    if k < l && handed[k] is Some {
        lemma_registrations_grow(handed, k, l);
    }
}


/// A table below a positive `max_sessions` admits another session, a table
/// at or above it does not, and with 0 every table admits one: so
/// `check_capacity` refuses exactly when `max_sessions` sessions are active.
pub proof fn law_capacity_admits_below_limit(len: nat, max_sessions: usize)
    ensures
        max_sessions > 0 && len < max_sessions ==> capacity_allows(len, max_sessions),
        max_sessions > 0 && len >= max_sessions ==> !capacity_allows(len, max_sessions),
        max_sessions == 0 ==> capacity_allows(len, max_sessions),
{
}

proof fn lemma_stop_lists_complete(entries: Seq<SessionEntryView>, device: Option<Seq<char>>)
    ensures
        forall|i: int|
            0 <= i < entries.len() && stops(#[trigger] entries[i], device) ==> stop_ids(
                entries,
                device,
            ).contains(entries[i].id),
        forall|i: int|
            0 <= i < entries.len() && stops(#[trigger] entries[i], device) && entries[i].child_pid
                is Some ==> stop_pids(entries, device).contains(entries[i].child_pid->0),
        forall|j: int|
            #![trigger stop_ids(entries, device)[j]]
            0 <= j < stop_ids(entries, device).len() ==> exists|i: int|
                0 <= i < entries.len() && stops(#[trigger] entries[i], device) && entries[i].id
                    == stop_ids(entries, device)[j],
        forall|j: int|
            #![trigger stop_pids(entries, device)[j]]
            0 <= j < stop_pids(entries, device).len() ==> exists|i: int|
                0 <= i < entries.len() && stops(#[trigger] entries[i], device) && entries[i].child_pid
                    == Some(stop_pids(entries, device)[j]),
    decreases entries.len(),
{
    if entries.len() > 0 {
        let init = entries.drop_last();
        let last = entries.last();
        let n = entries.len() - 1;
        lemma_stop_lists_complete(init, device);
        let ids0 = stop_ids(init, device);
        let pids0 = stop_pids(init, device);
        let ids = stop_ids(entries, device);
        let pids = stop_pids(entries, device);
        assert forall|i: int|
            0 <= i < entries.len() && stops(#[trigger] entries[i], device) implies ids.contains(
            entries[i].id,
        ) by {
            if i < n {
                assert(init[i] == entries[i]);
                let k = choose|k: int| 0 <= k < ids0.len() && ids0[k] == init[i].id;
                assert(ids[k] == ids0[k]);
            } else {
                assert(ids[ids.len() - 1] == last.id);
            }
        }
        assert forall|i: int|
            0 <= i < entries.len() && stops(#[trigger] entries[i], device)
                && entries[i].child_pid is Some implies pids.contains(entries[i].child_pid->0) by {
            if i < n {
                assert(init[i] == entries[i]);
                let k = choose|k: int| 0 <= k < pids0.len() && pids0[k] == init[i].child_pid->0;
                assert(pids[k] == pids0[k]);
            } else {
                assert(pids[pids.len() - 1] == last.child_pid->0);
            }
        }
        assert forall|j: int| #![trigger ids[j]] 0 <= j < ids.len() implies exists|i: int|
            0 <= i < entries.len() && stops(#[trigger] entries[i], device) && entries[i].id
                == ids[j] by {
            if j < ids0.len() {
                let i = choose|i: int|
                    0 <= i < init.len() && stops(#[trigger] init[i], device) && init[i].id
                        == ids0[j];
                assert(entries[i] == init[i]);
            } else {
                assert(entries[n] == last);
            }
        }
        assert forall|j: int| #![trigger pids[j]] 0 <= j < pids.len() implies exists|i: int|
            0 <= i < entries.len() && stops(#[trigger] entries[i], device) && entries[i].child_pid
                == Some(pids[j]) by {
            if j < pids0.len() {
                let i = choose|i: int|
                    0 <= i < init.len() && stops(#[trigger] init[i], device) && init[i].child_pid
                        == Some(pids0[j]);
                assert(entries[i] == init[i]);
            } else {
                assert(entries[n] == last);
            }
        }
    }
}

/// Whether some running session concerned by a request for `device` has this id.
pub open spec fn stopped_session_has_id(entries: Seq<SessionEntryView>, device: Option<Seq<char>>, id: u64) -> bool {
    exists|i: int|
        0 <= i < entries.len() && targeted(#[trigger] entries[i], device) && entries[i].lifecycle
            == SessionLifecycle::Running && entries[i].id == id
}

/// Whether some running session concerned by a request for `device` manages
/// this child.
pub open spec fn stopped_session_has_pid(entries: Seq<SessionEntryView>, device: Option<Seq<char>>, pid: u32) -> bool {
    exists|i: int|
        0 <= i < entries.len() && targeted(#[trigger] entries[i], device) && entries[i].lifecycle
            == SessionLifecycle::Running && entries[i].child_pid == Some(pid)
}

/// A shutdown request lists the id of every session it stops and the managed
/// child of every such session, so that each of them is signalled, and lists
/// nothing else: each listed id or pid belongs to a session it stops.
pub proof fn law_shutdown_lists_every_stopped_session(
    entries: Seq<SessionEntryView>,
    device: Option<Seq<char>>,
)
    ensures
        forall|i: int|
            0 <= i < entries.len() && targeted(#[trigger] entries[i], device) && entries[i].lifecycle
                == SessionLifecycle::Running ==> stop_ids(entries, device).contains(entries[i].id),
        forall|i: int|
            0 <= i < entries.len() && targeted(#[trigger] entries[i], device) && entries[i].lifecycle
                == SessionLifecycle::Running && entries[i].child_pid is Some ==> stop_pids(
                entries,
                device,
            ).contains(entries[i].child_pid->0),
        forall|j: int|
            0 <= j < stop_ids(entries, device).len() ==> stopped_session_has_id(
                entries,
                device,
                #[trigger] stop_ids(entries, device)[j],
            ),
        forall|j: int|
            0 <= j < stop_pids(entries, device).len() ==> stopped_session_has_pid(
                entries,
                device,
                #[trigger] stop_pids(entries, device)[j],
            ),
{
    lemma_stop_lists_complete(entries, device);
    assert forall|j: int| 0 <= j < stop_ids(entries, device).len() implies stopped_session_has_id(
        entries,
        device,
        #[trigger] stop_ids(entries, device)[j],
    ) by {
        let i = choose|i: int|
            0 <= i < entries.len() && stops(#[trigger] entries[i], device) && entries[i].id
                == stop_ids(entries, device)[j];
        assert(targeted(entries[i], device));
    }
    assert forall|j: int| 0 <= j < stop_pids(entries, device).len() implies stopped_session_has_pid(
        entries,
        device,
        #[trigger] stop_pids(entries, device)[j],
    ) by {
        let i = choose|i: int|
            0 <= i < entries.len() && stops(#[trigger] entries[i], device) && entries[i].child_pid
                == Some(stop_pids(entries, device)[j]);
        assert(targeted(entries[i], device));
    }
}

} // verus!
