//! The connect-session processes `POST /connect` started: how they are
//! recognised again, closed by `POST /disconnect`, and reported by `GET /status`.
//!
//! A pid is not an identity - Windows reuses them - and closing a session kills a
//! whole process tree, so a record is acted on only while the process holding its
//! pid is the one that was started: its creation time, read again, must match the
//! one recorded. Reading it and killing are the caller's to do; what is decided
//! from what they report is here.
use crate::audit::{count_field, extra_view, record, AuditEventView, ExtraField, ExtraValueView};
use crate::audit::AuditEvent;
use crate::text::{decimal, decimal_chars, owned, push_all, push_str, string_from};
use vstd::prelude::*;

verus! {

/// A session process `POST /connect` started, with what it takes to recognise it
/// again.
pub struct ConnectSession {
    /// The peer the session was opened for, which is what `/status` reports.
    pub id: String,
    pub pid: u32,
    /// When the system says the process was created; 0 when that could not be read.
    pub created: u64,
}

pub struct SessionView {
    pub id: Seq<char>,
    pub pid: u32,
    pub created: u64,
}

impl View for ConnectSession {
    type V = SessionView;

    open spec fn view(&self) -> SessionView {
        SessionView { id: self.id@, pid: self.pid, created: self.created }
    }
}

pub open spec fn sessions_view(ss: Seq<ConnectSession>) -> Seq<SessionView> {
    ss.map_values(|s: ConnectSession| s@)
}

/// Whether a session recorded as created at `created` is still the process
/// holding its pid, given what the system now says of that pid (`now`, see
/// [`process_created`]): no process means no; a record without a creation time can
/// only say the pid is taken; otherwise the two times must agree.
pub open spec fn session_alive(created: u64, now: Option<u64>) -> bool {
    match now {
        None => false,
        Some(c) => created == 0 || c == created,
    }
}

impl ConnectSession {
    /// Whether the process recorded here is still the same one, given the creation
    /// time the system now reports for its pid.
    pub fn alive(&self, now: Option<u64>) -> (r: bool)
        ensures
            r == session_alive(self.created, now),
    {
        match now {
            None => false,
            Some(_) if self.created == 0 => true,
            Some(created) => created == self.created,
        }
    }

    pub fn duplicate(&self) -> (r: ConnectSession)
        ensures
            r@ == self@,
    {
        ConnectSession { id: owned(self.id.as_str()), pid: self.pid, created: self.created }
    }
}

/// What asking the system about a pid found.
pub enum ProcessProbe {
    /// There is no process with that pid.
    Gone,
    /// There is one, but this system does not say when it was created.
    Running,
    /// There is one, created at the `FILETIME` with these two halves.
    Times { high: u32, low: u32 },
}

/// When a pid's process was created, or `None` when there is no such process: the
/// two `FILETIME` halves joined into one 64-bit count, or 0 where the system gives
/// no creation time and all that is known is that the pid is taken.
pub open spec fn created_at(probe: ProcessProbe) -> Option<u64> {
    match probe {
        ProcessProbe::Gone => None,
        ProcessProbe::Running => Some(0),
        ProcessProbe::Times { high, low } => Some((high as nat * 0x1_0000_0000 + low as nat) as u64),
    }
}

/// When the process holding a pid was created, from what the system reported.
pub fn process_created(probe: ProcessProbe) -> (r: Option<u64>)
    ensures
        r == created_at(probe),
{
    match probe {
        ProcessProbe::Gone => None,
        ProcessProbe::Running => Some(0),
        ProcessProbe::Times { high, low } => {
            let h = high as u64;
            let l = low as u64;
            let t = (h << 32u64) | l;
            assert(t == h * 0x1_0000_0000 + l) by (bit_vector)
                requires
                    t == (h << 32u64) | l,
                    h < 0x1_0000_0000,
                    l < 0x1_0000_0000,
            ;
            Some(t)
        },
    }
}

/// The platforms the session processes are closed on, each its own way.
#[derive(PartialEq, Eq, Structural, Clone, Copy, Debug)]
pub enum Platform {
    /// `taskkill /PID <pid> /T /F`: the whole process tree, with no console window.
    Windows,
    /// `kill -TERM <pid>`.
    Unix,
    /// No way to close a process: nothing is run and nothing is closed.
    Other,
}

/// A command to run: the program and its arguments.
pub struct Command {
    pub program: String,
    pub args: Vec<String>,
}

pub open spec fn args_view(args: Seq<String>) -> Seq<Seq<char>> {
    args.map_values(|a: String| a@)
}

/// The command that terminates `pid` on `platform`, if there is one.
pub open spec fn terminate_command(pid: u32, platform: Platform) -> Option<(Seq<char>, Seq<Seq<char>>)> {
    match platform {
        Platform::Windows => Some(
            ("taskkill"@, seq!["/PID"@, decimal(pid as nat), "/T"@, "/F"@]),
        ),
        Platform::Unix => Some(("kill"@, seq!["-TERM"@, decimal(pid as nat)])),
        Platform::Other => None,
    }
}

/// The command that terminates the connect-session process `target_pid`, its whole
/// process tree on Windows; `None` where there is no way to. The process has
/// terminated when the command exits with success.
pub fn terminate_pid(target_pid: u32, platform: Platform) -> (r: Option<Command>)
    ensures
        r matches Some(c) ==> terminate_command(target_pid, platform) == Some(
            (c.program@, args_view(c.args@)),
        ),
        r is None <==> terminate_command(target_pid, platform) is None,
{
    let pid_text = crate::text::decimal_string(target_pid as u64);
    match platform {
        Platform::Windows => {
            let mut args: Vec<String> = Vec::new();
            args.push(owned("/PID"));
            args.push(pid_text);
            args.push(owned("/T"));
            args.push(owned("/F"));
            assert(args_view(args@) =~= seq!["/PID"@, decimal(target_pid as nat), "/T"@, "/F"@]);
            Some(Command { program: owned("taskkill"), args })
        },
        Platform::Unix => {
            let mut args: Vec<String> = Vec::new();
            args.push(owned("-TERM"));
            args.push(pid_text);
            assert(args_view(args@) =~= seq!["-TERM"@, decimal(target_pid as nat)]);
            Some(Command { program: owned("kill"), args })
        },
        Platform::Other => None,
    }
}

// ---------------------------------------------------------------------------
// The registry
// ---------------------------------------------------------------------------

/// The session processes `POST /connect` started, oldest first.
pub struct ConnectRegistry {
    pub sessions: Vec<ConnectSession>,
}

/// A new, empty registry of the sessions `POST /connect` starts. `POST
/// /disconnect` closes only these, never the main process.
pub fn connect_sessions() -> (r: ConnectRegistry)
    ensures
        r.sessions@.len() == 0,
{
    ConnectRegistry { sessions: Vec::new() }
}

/// The sessions whose process is still theirs, given the creation time read again
/// for each, in order.
pub open spec fn alive_sessions(ss: Seq<SessionView>, now: Seq<Option<u64>>) -> Seq<SessionView>
    decreases ss.len(),
{
    if ss.len() == 0 {
        seq![]
    } else {
        let rest = alive_sessions(ss.drop_last(), now.take(ss.len() - 1));
        if session_alive(ss.last().created, now[ss.len() - 1]) {
            rest.push(ss.last())
        } else {
            rest
        }
    }
}

impl ConnectRegistry {
    /// Record a session process that was just started.
    pub fn add(&mut self, session: ConnectSession)
        ensures
            sessions_view(final(self).sessions@) == sessions_view(old(self).sessions@).push(session@),
    {
        self.sessions.push(session);
        assert(sessions_view(self.sessions@) =~= sessions_view(old(self).sessions@).push(session@));
    }

    /// Drop the records whose process has ended or whose pid has been handed to
    /// another process since; `now[i]` is what the system now reports for the pid of
    /// `sessions[i]`.
    pub fn prune(&mut self, now: &Vec<Option<u64>>)
        requires
            now.len() == old(self).sessions.len(),
        ensures
            sessions_view(final(self).sessions@) == alive_sessions(sessions_view(old(self).sessions@), now@),
    {
        let ghost all = sessions_view(self.sessions@);
        let mut kept: Vec<ConnectSession> = Vec::new();
        let mut i: usize = 0;
        while i < self.sessions.len()
            invariant
                i <= self.sessions.len() == now.len(),
                all == sessions_view(self.sessions@),
                sessions_view(kept@) == alive_sessions(all.take(i as int), now@.take(i as int)),
            decreases self.sessions.len() - i,
        {
            let ghost before = sessions_view(kept@);
            assert(all.take(i + 1).drop_last() == all.take(i as int));
            assert(now@.take(i + 1).take(i as int) == now@.take(i as int));
            if self.sessions[i].alive(now[i]) {
                kept.push(self.sessions[i].duplicate());
                assert(sessions_view(kept@) =~= before.push(all[i as int]));
            }
            i = i + 1;
        }
        assert(all.take(self.sessions.len() as int) == all);
        assert(now@.take(now.len() as int) == now@);
        self.sessions = kept;
    }

    /// The peer of the newest session, if any.
    pub fn last_peer(&self) -> (r: Option<String>)
        ensures
            sessions_view(self.sessions@).len() == 0 <==> r is None,
            r matches Some(id) ==> id@ == sessions_view(self.sessions@).last().id,
    {
        let n = self.sessions.len();
        if n == 0 {
            None
        } else {
            Some(owned(self.sessions[n - 1].id.as_str()))
        }
    }
}

// ---------------------------------------------------------------------------
// Disconnect
// ---------------------------------------------------------------------------

/// What became of one recorded session when disconnecting.
#[derive(PartialEq, Eq, Structural, Clone, Copy, Debug)]
pub enum Fate {
    /// Its process had ended, or its pid belongs to another process now: the record
    /// is dropped and nothing is killed.
    Ended,
    /// It was alive and was terminated: dropped, and counted as closed.
    Terminated,
    /// It was alive and terminating it failed: the record is kept.
    Survived,
}

/// The next thing the caller does while disconnecting.
pub enum DisconnectAction {
    /// Read the creation time of the process holding `pid` (see [`process_created`])
    /// and answer with [`DisconnectEvent::Probed`].
    Probe { pid: u32 },
    /// Terminate `pid` (see [`terminate_pid`]) and answer with
    /// [`DisconnectEvent::Terminated`].
    Terminate { pid: u32 },
    /// Done: `closed` sessions were terminated.
    Finished { closed: usize },
}

/// What the caller reports back.
pub enum DisconnectEvent {
    /// The creation time read for the pid asked about.
    Probed(Option<u64>),
    /// Whether terminating the pid asked about succeeded.
    Terminated(bool),
}

/// Closing the sessions `POST /connect` started, one at a time: each record is
/// probed; a live one is terminated; the records that end up kept are those whose
/// process was alive but would not terminate.
pub struct DisconnectWalk {
    sessions: Vec<ConnectSession>,
    probes: Vec<Option<u64>>,
    fates: Vec<Fate>,
    kept: Vec<ConnectSession>,
    closed: usize,
}

/// The records kept: those whose fate was [`Fate::Survived`], in order.
pub open spec fn survivors(ss: Seq<SessionView>, fates: Seq<Fate>) -> Seq<SessionView>
    decreases fates.len(),
{
    if fates.len() == 0 {
        seq![]
    } else {
        let rest = survivors(ss, fates.drop_last());
        if fates.last() == Fate::Survived {
            rest.push(ss[fates.len() - 1])
        } else {
            rest
        }
    }
}

/// How many fates are [`Fate::Terminated`].
pub open spec fn terminated_count(fates: Seq<Fate>) -> nat
    decreases fates.len(),
{
    if fates.len() == 0 {
        0
    } else {
        terminated_count(fates.drop_last()) + if fates.last() == Fate::Terminated {
            1nat
        } else {
            0nat
        }
    }
}

/// What a probe decides: an ended process is dropped; a live one is to be
/// terminated, with its fate decided by how that goes.
pub open spec fn fate_consistent(created: u64, probe: Option<u64>, fate: Fate) -> bool {
    if session_alive(created, probe) {
        fate != Fate::Ended
    } else {
        fate == Fate::Ended
    }
}

pub struct WalkView {
    pub sessions: Seq<SessionView>,
    pub probes: Seq<Option<u64>>,
    pub fates: Seq<Fate>,
    pub kept: Seq<SessionView>,
    pub closed: nat,
}

impl View for DisconnectWalk {
    type V = WalkView;

    closed spec fn view(&self) -> WalkView {
        WalkView {
            sessions: sessions_view(self.sessions@),
            probes: self.probes@,
            fates: self.fates@,
            kept: sessions_view(self.kept@),
            closed: self.closed as nat,
        }
    }
}

impl DisconnectWalk {
    /// The walk's bookkeeping agrees with itself: one probe per session looked at, at
    /// most one session awaiting its termination, each fate following from its
    /// probe, the kept records being the survivors and `closed` counting the
    /// terminated.
    pub open spec fn wf(&self) -> bool {
        let v = self@;
        &&& v.fates.len() <= v.probes.len() <= v.fates.len() + 1
        &&& v.probes.len() <= v.sessions.len()
        &&& v.probes.len() == v.fates.len() + 1 ==> session_alive(
            v.sessions[v.fates.len() as int].created,
            v.probes.last(),
        )
        &&& forall|i: int|
            0 <= i < v.fates.len() ==> fate_consistent(
                #[trigger] v.sessions[i].created,
                v.probes[i],
                v.fates[i],
            )
        &&& v.kept == survivors(v.sessions, v.fates)
        &&& v.closed == terminated_count(v.fates)
        &&& v.closed <= v.fates.len()
    }

    /// Whether every session has been dealt with.
    pub open spec fn finished(&self) -> bool {
        self@.fates.len() == self@.sessions.len()
    }

    /// The action the walk is waiting on.
    pub open spec fn pending_action(&self) -> DisconnectActionView {
        let v = self@;
        if v.probes.len() > v.fates.len() {
            DisconnectActionView::Terminate { pid: v.sessions[v.fates.len() as int].pid }
        } else if v.fates.len() < v.sessions.len() {
            DisconnectActionView::Probe { pid: v.sessions[v.fates.len() as int].pid }
        } else {
            DisconnectActionView::Finished { closed: v.closed }
        }
    }

    /// What is next, see [`DisconnectWalk::pending_action`].
    pub fn next_action(&self) -> (a: DisconnectAction)
        requires
            self.wf(),
        ensures
            a@ == self.pending_action(),
    {
        let f = self.fates.len();
        if self.probes.len() > f {
            DisconnectAction::Terminate { pid: self.sessions[f].pid }
        } else if f < self.sessions.len() {
            DisconnectAction::Probe { pid: self.sessions[f].pid }
        } else {
            DisconnectAction::Finished { closed: self.closed }
        }
    }

    /// Take in what the caller reports and say what is next. A report that does
    /// not answer the pending action leaves the walk as it was.
    pub fn step(&mut self, event: DisconnectEvent) -> (a: DisconnectAction)
        requires
            old(self).wf(),
        ensures
            final(self).wf(),
            a@ == final(self).pending_action(),
            final(self)@.sessions == old(self)@.sessions,
            old(self).pending_action() is Probe ==> (match event {
                DisconnectEvent::Probed(now) => final(self)@.probes == old(self)@.probes.push(now)
                    && final(self)@.fates == (if session_alive(
                    old(self)@.sessions[old(self)@.fates.len() as int].created,
                    now,
                ) {
                    old(self)@.fates
                } else {
                    old(self)@.fates.push(Fate::Ended)
                }),
                _ => final(self)@ == old(self)@,
            }),
            old(self).pending_action() is Terminate ==> (match event {
                DisconnectEvent::Terminated(ok) => final(self)@.probes == old(self)@.probes
                    && final(self)@.fates == old(self)@.fates.push(
                    if ok {
                        Fate::Terminated
                    } else {
                        Fate::Survived
                    },
                ),
                _ => final(self)@ == old(self)@,
            }),
            old(self).pending_action() is Finished ==> final(self)@ == old(self)@,
    {
        let f = self.fates.len();
        let ghost fates0 = self.fates@;
        let ghost probes0 = self.probes@;
        let ghost kept0 = sessions_view(self.kept@);
        let ghost ss = sessions_view(self.sessions@);
        if self.probes.len() > f {
            match event {
                DisconnectEvent::Terminated(ok) => {
                    if ok {
                        self.fates.push(Fate::Terminated);
                        self.closed = self.closed + 1;
                    } else {
                        self.fates.push(Fate::Survived);
                        let s = self.sessions[f].duplicate();
                        self.kept.push(s);
                        assert(sessions_view(self.kept@) =~= kept0.push(ss[f as int]));
                    }
                    assert(self.fates@.drop_last() == fates0);
                    assert forall|i: int|
                        0 <= i < self.fates@.len() implies fate_consistent(
                        #[trigger] ss[i].created,
                        self.probes@[i],
                        self.fates@[i],
                    ) by {
                        if i < f {
                            assert(self.fates@[i] == fates0[i]);
                        }
                    }
                },
                DisconnectEvent::Probed(_) => {},
            }
        } else if f < self.sessions.len() {
            match event {
                DisconnectEvent::Probed(now) => {
                    self.probes.push(now);
                    if !self.sessions[f].alive(now) {
                        self.fates.push(Fate::Ended);
                        assert(self.fates@.drop_last() == fates0);
                        assert forall|i: int|
                            0 <= i < self.fates@.len() implies fate_consistent(
                            #[trigger] ss[i].created,
                            self.probes@[i],
                            self.fates@[i],
                        ) by {
                            if i < f {
                                assert(self.fates@[i] == fates0[i]);
                                assert(self.probes@[i] == probes0[i]);
                            }
                        }
                    } else {
                        assert forall|i: int|
                            0 <= i < self.fates@.len() implies fate_consistent(
                            #[trigger] ss[i].created,
                            self.probes@[i],
                            self.fates@[i],
                        ) by {
                            assert(self.probes@[i] == probes0[i]);
                        }
                    }
                },
                DisconnectEvent::Terminated(_) => {},
            }
        }
        self.next_action()
    }

    /// The records to keep once every session has been dealt with.
    pub fn into_remaining(self) -> (r: Vec<ConnectSession>)
        requires
            self.wf(),
        ensures
            sessions_view(r@) == self@.kept,
    {
        self.kept
    }
}

pub enum DisconnectActionView {
    Probe { pid: u32 },
    Terminate { pid: u32 },
    Finished { closed: nat },
}

impl View for DisconnectAction {
    type V = DisconnectActionView;

    open spec fn view(&self) -> DisconnectActionView {
        match self {
            DisconnectAction::Probe { pid } => DisconnectActionView::Probe { pid: *pid },
            DisconnectAction::Terminate { pid } => DisconnectActionView::Terminate { pid: *pid },
            DisconnectAction::Finished { closed } => DisconnectActionView::Finished {
                closed: *closed as nat,
            },
        }
    }
}

/// Start disconnecting the sessions `POST /connect` started: the registry is
/// emptied into the walk, which gets them back through
/// [`DisconnectWalk::into_remaining`] once finished. Nothing but these recorded
/// processes is ever terminated, and no system-level action is taken.
pub fn disconnect_api_sessions(registry: &mut ConnectRegistry) -> (w: DisconnectWalk)
    ensures
        w.wf(),
        w@.sessions == sessions_view(old(registry).sessions@),
        w@.fates.len() == 0,
        w@.probes.len() == 0,
        final(registry).sessions@.len() == 0,
{
    let mut sessions: Vec<ConnectSession> = Vec::new();
    std::mem::swap(&mut sessions, &mut registry.sessions);
    let w = DisconnectWalk {
        sessions,
        probes: Vec::new(),
        fates: Vec::new(),
        kept: Vec::new(),
        closed: 0,
    };
    assert(w@.kept =~= survivors(w@.sessions, w@.fates));
    w
}

// ---------------------------------------------------------------------------
// What disconnecting guarantees
// ---------------------------------------------------------------------------

/// A process is only ever terminated right after a probe showed that it is still
/// the one recorded: the walk asks to terminate a pid only for the record it is
/// on, and only when that record's probe found it alive.
pub proof fn lemma_terminates_only_live_records(w: DisconnectWalk)
    requires
        w.wf(),
    ensures
        w.pending_action() is Terminate ==> {
            let k = w@.fates.len() as int;
            &&& k < w@.sessions.len()
            &&& w.pending_action() == (DisconnectActionView::Terminate { pid: w@.sessions[k].pid })
            &&& session_alive(w@.sessions[k].created, w@.probes[k])
        },
{
}

/// The positions of the [`Fate::Survived`] fates, in order.
pub open spec fn survivor_positions(fates: Seq<Fate>) -> Seq<int>
    decreases fates.len(),
{
    if fates.len() == 0 {
        seq![]
    } else {
        let rest = survivor_positions(fates.drop_last());
        if fates.last() == Fate::Survived {
            rest.push(fates.len() - 1)
        } else {
            rest
        }
    }
}

proof fn lemma_survivors_and_terminated(ss: Seq<SessionView>, fates: Seq<Fate>)
    requires
        fates.len() <= ss.len(),
    ensures
        survivors(ss, fates).len() + terminated_count(fates) <= fates.len(),
        survivor_positions(fates).len() == survivors(ss, fates).len(),
        forall|j: int|
            #![trigger survivor_positions(fates)[j]]
            0 <= j < survivors(ss, fates).len() ==> {
                let i = survivor_positions(fates)[j];
                &&& 0 <= i < fates.len()
                &&& fates[i] == Fate::Survived
                &&& survivors(ss, fates)[j] == ss[i]
            },
        forall|j: int, k: int|
            0 <= j < k < survivor_positions(fates).len() ==> #[trigger] survivor_positions(fates)[j]
                < #[trigger] survivor_positions(fates)[k],
    decreases fates.len(),
{
    if fates.len() > 0 {
        let prev = fates.drop_last();
        lemma_survivors_and_terminated(ss, prev);
        assert forall|j: int| 0 <= j < prev.len() implies #[trigger] fates[j] == prev[j] by {}
    }
}

/// Once every record has been dealt with, the walk says it is finished; the count
/// of closed sessions and the records kept never add up to more than there were,
/// and the records kept are, in their order, those whose process was alive and
/// would not terminate.
pub proof fn lemma_disconnect_accounts_for_every_record(w: DisconnectWalk)
    requires
        w.wf(),
    ensures
        w.finished() <==> w.pending_action() is Finished,
        w.finished() ==> w@.closed + w@.kept.len() <= w@.sessions.len(),
        survivor_positions(w@.fates).len() == w@.kept.len(),
        forall|j: int|
            #![trigger survivor_positions(w@.fates)[j]]
            0 <= j < w@.kept.len() ==> {
                let i = survivor_positions(w@.fates)[j];
                &&& 0 <= i < w@.fates.len()
                &&& w@.fates[i] == Fate::Survived
                &&& session_alive(w@.sessions[i].created, w@.probes[i])
                &&& w@.kept[j] == w@.sessions[i]
            },
        forall|j: int, k: int|
            0 <= j < k < w@.kept.len() ==> #[trigger] survivor_positions(w@.fates)[j]
                < #[trigger] survivor_positions(w@.fates)[k],
{
    lemma_survivors_and_terminated(w@.sessions, w@.fates);
    assert forall|j: int| 0 <= j < w@.kept.len() implies {
        let i = #[trigger] survivor_positions(w@.fates)[j];
        &&& 0 <= i < w@.fates.len()
        &&& w@.fates[i] == Fate::Survived
        &&& session_alive(w@.sessions[i].created, w@.probes[i])
        &&& w@.kept[j] == w@.sessions[i]
    } by {
        let i = survivor_positions(w@.fates)[j];
        assert(fate_consistent(w@.sessions[i].created, w@.probes[i], w@.fates[i]));
    }
}

/// Every answer to the pending action moves the walk on, and the walk takes at
/// most two answers per record: it always finishes.
pub proof fn lemma_disconnect_progress(w: DisconnectWalk)
    requires
        w.wf(),
    ensures
        w@.probes.len() + w@.fates.len() <= 2 * w@.sessions.len(),
        !(w.pending_action() is Finished) ==> w@.probes.len() + w@.fates.len() < 2 * w@.sessions.len(),
{
}

/// The positions of the records found alive, in order.
pub open spec fn alive_positions(ss: Seq<SessionView>, now: Seq<Option<u64>>) -> Seq<int>
    decreases ss.len(),
{
    if ss.len() == 0 {
        seq![]
    } else {
        let rest = alive_positions(ss.drop_last(), now.take(ss.len() - 1));
        if session_alive(ss.last().created, now[ss.len() - 1]) {
            rest.push(ss.len() - 1)
        } else {
            rest
        }
    }
}

/// Pruning keeps exactly the records whose process is still theirs, never adds
/// one, and keeps their order: the `j`-th record kept is the one at the `j`-th
/// position found alive.
pub proof fn lemma_prune_keeps_only_live_records(ss: Seq<SessionView>, now: Seq<Option<u64>>)
    requires
        now.len() == ss.len(),
    ensures
        alive_sessions(ss, now).len() <= ss.len(),
        alive_positions(ss, now).len() == alive_sessions(ss, now).len(),
        forall|j: int|
            #![trigger alive_positions(ss, now)[j]]
            0 <= j < alive_sessions(ss, now).len() ==> {
                let i = alive_positions(ss, now)[j];
                &&& 0 <= i < ss.len()
                &&& session_alive(ss[i].created, now[i])
                &&& alive_sessions(ss, now)[j] == ss[i]
            },
        forall|j: int, k: int|
            0 <= j < k < alive_positions(ss, now).len() ==> #[trigger] alive_positions(ss, now)[j]
                < #[trigger] alive_positions(ss, now)[k],
        forall|i: int|
            0 <= i < ss.len() && session_alive(ss[i].created, now[i]) ==> #[trigger] alive_positions(
                ss,
                now,
            ).contains(i),
    decreases ss.len(),
{
    if ss.len() > 0 {
        let n = ss.len() - 1;
        let prev = ss.drop_last();
        let pnow = now.take(n);
        lemma_prune_keeps_only_live_records(prev, pnow);
        assert forall|j: int| 0 <= j < n implies #[trigger] ss[j] == prev[j] && now[j] == pnow[j] by {}
        let rest = alive_positions(prev, pnow);
        assert forall|i: int|
            0 <= i < ss.len() && session_alive(ss[i].created, now[i]) implies #[trigger] alive_positions(
            ss,
            now,
        ).contains(i) by {
            if i < n {
                assert(ss[i] == prev[i] && now[i] == pnow[i]);
                assert(rest.contains(i));
                let k = choose|k: int| 0 <= k < rest.len() && rest[k] == i;
                if session_alive(ss[n].created, now[n]) {
                    assert(alive_positions(ss, now)[k] == i);
                } else {
                    assert(alive_positions(ss, now)[k] == i);
                }
            } else {
                let all = alive_positions(ss, now);
                assert(all[all.len() - 1] == i);
            }
        }
    }
}

} // verus!
