//! The life of a client: connecting, running a session, and connecting again with
//! growing pauses until it is stopped, kicked or rejected.
use vstd::prelude::*;
use vstd::string::*;

use crate::client::reload::{OutcomeView, ReloadOutcome};
use crate::client::status::ClientStatus;
use crate::text::decimal;
use crate::text::decimal_str;

verus! {

/// The pause before the first new attempt to connect, in seconds.
pub const RECONNECT_BASE_SECS: u64 = 1;

/// The longest pause before a new attempt to connect, in seconds.
pub const RECONNECT_MAX_SECS: u64 = 60;

/// What is answered to a reload that a stop overtakes.
pub const STOPPED_WHILE_RECONNECTING: &'static str = "client stopped during reconnect";

/// A reload that is answered once the next session is open.
#[derive(Debug)]
pub struct PendingReload {
    /// The reload that waits for the answer.
    pub ticket: u64,
    pub outcome: ReloadOutcome,
}

/// How a session came to its end.
#[derive(Debug)]
pub enum SessionEnd {
    Disconnected { session_id: String },
    Kicked { session_id: String, reason: String },
}

/// What ended the reading of a session's messages.
#[derive(Debug)]
pub enum ReaderEnd {
    Closed,
    Kicked(String),
}

/// What was heard from a running session when it was over.
#[derive(Debug)]
pub enum SessionDone {
    Ended(SessionEnd),
    Failed(String),
    /// Nothing was heard.
    Dropped,
}

/// Why the client left a running session.
#[derive(Debug)]
pub enum SessionLoopEnd {
    Cancelled,
    ReloadReconnect(PendingReload),
    Ended(SessionEnd),
    Failed(String),
}

/// What happens to a client, in the order of its life.
#[derive(Debug)]
pub enum RunEvent {
    /// It turns to the server, unless it was cancelled.
    Turn { cancelled: bool },
    /// It was cancelled while it connected.
    ConnectCancelled,
    /// A reload was answered while it connected.
    ReloadServed,
    /// A session is open and its tunnels are asked for.
    Opened,
    /// No session could be opened: the server rejected the login, or something else
    /// failed.
    OpenFailed { cancelled: bool, rejected: Option<String>, error: String },
    /// It left the session.
    SessionOver { end: SessionLoopEnd, cancelled: bool },
    /// The pause is over, by the clock or because a reload was answered.
    Waited { cancelled: bool },
}

/// What a client is to do next.
#[derive(Debug)]
pub enum RunAction {
    /// Answer every reload that waits.
    DrainReloads,
    /// Forget where the tunnels can be reached.
    ClearRemotes,
    SetStatus(ClientStatus),
    Log(String),
    /// Open a session, and take up the one named where there was one.
    Open { session_id: String },
    /// Stay in the session until it is over.
    RunSession,
    Wait { secs: u64 },
    /// Answer a reload.
    Reply { ticket: u64, result: Result<ReloadOutcome, String> },
    /// End, with the reason where it was not asked to.
    Stop(Result<(), String>),
}

pub enum RunActionView {
    DrainReloads,
    ClearRemotes,
    SetStatus(ClientStatus),
    Log(Seq<char>),
    Open { session_id: Seq<char> },
    RunSession,
    Wait { secs: u64 },
    Reply { ticket: u64, result: Result<OutcomeView, Seq<char>> },
    Stop(Result<(), Seq<char>>),
}

impl View for RunAction {
    type V = RunActionView;

    open spec fn view(&self) -> RunActionView {
        match *self {
            RunAction::DrainReloads => RunActionView::DrainReloads,
            RunAction::ClearRemotes => RunActionView::ClearRemotes,
            RunAction::SetStatus(s) => RunActionView::SetStatus(s),
            RunAction::Log(line) => RunActionView::Log(line@),
            RunAction::Open { session_id } => RunActionView::Open { session_id: session_id@ },
            RunAction::RunSession => RunActionView::RunSession,
            RunAction::Wait { secs } => RunActionView::Wait { secs },
            RunAction::Reply { ticket, result } => RunActionView::Reply {
                ticket,
                result: match result {
                    Ok(o) => Ok(o@),
                    Err(e) => Err(e@),
                },
            },
            RunAction::Stop(r) => RunActionView::Stop(stop_result(r)),
        }
    }
}

/// How a client ended, in the terms of specifications.
pub open spec fn stop_result(r: Result<(), String>) -> Result<(), Seq<char>> {
    match r {
        Ok(_) => Ok(()),
        Err(e) => Err(e@),
    }
}

/// Logging a line where there is one.
pub open spec fn log_action(line: Option<String>) -> Seq<RunActionView> {
    match line {
        Some(line) => seq![RunActionView::Log(line@)],
        None => seq![],
    }
}

/// A list of actions in the terms of specifications.
pub open spec fn actions(v: Seq<RunAction>) -> Seq<RunActionView> {
    Seq::new(v.len(), |i: int| v[i]@)
}

/// Where a client stands.
#[derive(Debug, Clone, Copy, PartialEq, Eq, Structural)]
pub enum Stage {
    Turning,
    Connecting,
    InSession,
    Waiting,
    Stopped,
}

/// A client between two events.
#[derive(Debug)]
pub struct RunState {
    stage: Stage,
    session_id: String,
    first_attempt: bool,
    backoff_secs: u64,
    pending: Option<PendingReload>,
}

#[verifier::ext_equal]
pub struct RunView {
    pub stage: Stage,
    pub session_id: Seq<char>,
    pub first_attempt: bool,
    pub backoff_secs: u64,
    pub pending: Option<(u64, OutcomeView)>,
}

pub open spec fn pending_view(p: Option<PendingReload>) -> Option<(u64, OutcomeView)> {
    match p {
        Some(p) => Some((p.ticket, p.outcome@)),
        None => None,
    }
}

impl View for RunState {
    type V = RunView;

    closed spec fn view(&self) -> RunView {
        RunView {
            stage: self.stage,
            session_id: self.session_id@,
            first_attempt: self.first_attempt,
            backoff_secs: self.backoff_secs,
            pending: pending_view(self.pending),
        }
    }
}

/// The pause that follows one of `secs` seconds.
pub open spec fn next_backoff(secs: u64) -> u64 {
    if 2 * secs < RECONNECT_BASE_SECS {
        RECONNECT_BASE_SECS
    } else if 2 * secs > RECONNECT_MAX_SECS {
        RECONNECT_MAX_SECS
    } else {
        (2 * secs) as u64
    }
}

/// The answer to a reload that will not be done.
pub open spec fn refusal(pending: Option<(u64, OutcomeView)>, reason: Seq<char>) -> Seq<
    RunActionView,
> {
    match pending {
        Some((ticket, _)) => seq![RunActionView::Reply { ticket, result: Err(reason) }],
        None => seq![],
    }
}

/// A client that stops: a reload that waits is refused first.
pub open spec fn stopped(
    s: RunView,
    reason: Seq<char>,
    logs: Seq<RunActionView>,
    result: Result<(), Seq<char>>,
) -> (RunView, Seq<RunActionView>) {
    (
        RunView { stage: Stage::Stopped, pending: None, ..s },
        refusal(s.pending, reason) + logs + seq![RunActionView::Stop(result)],
    )
}

/// A client that was asked to stop.
pub open spec fn cancelled_out(s: RunView) -> (RunView, Seq<RunActionView>) {
    stopped(s, STOPPED_WHILE_RECONNECTING@, seq![], Ok(()))
}

pub open spec fn retry_line(secs: u64) -> Seq<char> {
    "INFO  retrying in "@ + decimal(secs as nat) + "s"@
}

/// A client that turns to the server.
pub open spec fn turned(s: RunView) -> (RunView, Seq<RunActionView>) {
    let told = if s.first_attempt {
        seq![
            RunActionView::SetStatus(ClientStatus::Starting),
            RunActionView::Log("INFO  connecting to server"@),
        ]
    } else if s.pending is None {
        seq![RunActionView::SetStatus(ClientStatus::Reconnecting)]
    } else {
        seq![]
    };
    (
        RunView { stage: Stage::Connecting, ..s },
        seq![RunActionView::DrainReloads, RunActionView::ClearRemotes] + told + seq![
            RunActionView::Open { session_id: s.session_id },
        ],
    )
}

/// A client whose session is open: a reload that waited for it is answered.
pub open spec fn opened(s: RunView) -> (RunView, Seq<RunActionView>) {
    let answer = match s.pending {
        Some((ticket, outcome)) => seq![RunActionView::Reply { ticket, result: Ok(outcome) }],
        None => seq![],
    };
    (
        RunView {
            stage: Stage::InSession,
            first_attempt: false,
            backoff_secs: RECONNECT_BASE_SECS,
            pending: None,
            ..s
        },
        answer + seq![RunActionView::RunSession],
    )
}

/// A client that could not open a session.
pub open spec fn open_failed(
    s: RunView,
    cancelled: bool,
    rejected: Option<Seq<char>>,
    error: Seq<char>,
) -> (RunView, Seq<RunActionView>) {
    if cancelled {
        cancelled_out(s)
    } else if rejected is Some {
        let text = "login rejected: "@ + rejected->0;
        stopped(s, text, seq![RunActionView::Log("ERROR "@ + text)], Err(text))
    } else {
        (
            RunView { stage: Stage::Waiting, first_attempt: false, ..s },
            seq![
                RunActionView::Log("ERROR failed to connect: "@ + error),
                RunActionView::SetStatus(ClientStatus::Reconnecting),
                RunActionView::Log(retry_line(s.backoff_secs)),
                RunActionView::Wait { secs: s.backoff_secs },
            ],
        )
    }
}

/// A client that lost its session and pauses before the next attempt.
pub open spec fn session_lost(s: RunView, session_id: Seq<char>, line: Seq<char>) -> (
    RunView,
    Seq<RunActionView>,
) {
    (
        RunView { stage: Stage::Waiting, session_id, ..s },
        seq![
            RunActionView::ClearRemotes,
            RunActionView::Log(line),
            RunActionView::SetStatus(ClientStatus::Reconnecting),
            RunActionView::DrainReloads,
            RunActionView::Log(retry_line(s.backoff_secs)),
            RunActionView::Wait { secs: s.backoff_secs },
        ],
    )
}

/// A client that left its session.
pub open spec fn session_over(s: RunView, end: SessionLoopEnd, cancelled: bool) -> (
    RunView,
    Seq<RunActionView>,
) {
    let clear = seq![RunActionView::ClearRemotes];
    match end {
        SessionLoopEnd::Cancelled => (cancelled_out(s).0, clear + cancelled_out(s).1),
        SessionLoopEnd::ReloadReconnect(p) => (
            RunView { stage: Stage::Turning, pending: Some((p.ticket, p.outcome@)), ..s },
            seq![
                RunActionView::ClearRemotes,
                RunActionView::Log("INFO  reconnecting to apply client settings"@),
                RunActionView::SetStatus(ClientStatus::Reconnecting),
            ],
        ),
        SessionLoopEnd::Ended(SessionEnd::Kicked { session_id: _, reason }) => {
            let text = "kicked by server: "@ + reason@;
            let end = stopped(
                s,
                "kicked by server"@,
                seq![RunActionView::Log("WARN  "@ + text)],
                Err(text),
            );
            (end.0, clear + end.1)
        },
        SessionLoopEnd::Ended(SessionEnd::Disconnected { session_id }) => if cancelled {
            (cancelled_out(s).0, clear + cancelled_out(s).1)
        } else {
            session_lost(s, session_id@, "WARN  disconnected from server"@)
        },
        SessionLoopEnd::Failed(error) => if cancelled {
            (cancelled_out(s).0, clear + cancelled_out(s).1)
        } else {
            session_lost(s, s.session_id, "ERROR session error: "@ + error@)
        },
    }
}

/// What follows from an event; one that cannot come where the client stands changes
/// nothing.
pub open spec fn run_step(s: RunView, event: RunEvent) -> (RunView, Seq<RunActionView>) {
    match (s.stage, event) {
        (Stage::Turning, RunEvent::Turn { cancelled }) => if cancelled {
            cancelled_out(s)
        } else {
            turned(s)
        },
        (Stage::Connecting, RunEvent::ConnectCancelled) => cancelled_out(s),
        (Stage::Connecting, RunEvent::ReloadServed) => (
            RunView { stage: Stage::Turning, ..s },
            seq![],
        ),
        (Stage::Connecting, RunEvent::Opened) => opened(s),
        (Stage::Connecting, RunEvent::OpenFailed { cancelled, rejected, error }) => open_failed(
            s,
            cancelled,
            match rejected {
                Some(r) => Some(r@),
                None => None,
            },
            error@,
        ),
        (Stage::InSession, RunEvent::SessionOver { end, cancelled }) => session_over(
            s,
            end,
            cancelled,
        ),
        (Stage::Waiting, RunEvent::Waited { cancelled }) => if cancelled {
            cancelled_out(s)
        } else {
            (
                RunView {
                    stage: Stage::Turning,
                    backoff_secs: next_backoff(s.backoff_secs),
                    ..s
                },
                seq![],
            )
        },
        _ => (s, seq![]),
    }
}

/// What holds of a client at all times: the pause is within its bounds, and only a
/// client on its way to a session has a reload to answer.
pub open spec fn run_wf(s: RunView) -> bool {
    &&& RECONNECT_BASE_SECS <= s.backoff_secs <= RECONNECT_MAX_SECS
    &&& s.stage == Stage::InSession || s.stage == Stage::Stopped ==> s.pending is None
}

fn retry_text(secs: u64) -> (r: String)
    ensures
        r@ == retry_line(secs),
{
    "INFO  retrying in ".to_owned().concat(decimal_str(secs).as_str()).concat("s")
}

/// What a client does when its login was answered: its status and its log.
pub fn on_connected() -> (r: Vec<RunAction>)
    ensures
        actions(r@) == seq![
            RunActionView::SetStatus(ClientStatus::Running),
            RunActionView::Log("INFO  connected to server"@),
        ],
{
    let mut out: Vec<RunAction> = Vec::new();
    out.push(RunAction::SetStatus(ClientStatus::Running));
    out.push(RunAction::Log("INFO  connected to server".to_owned()));
    assert(actions(out@) =~= seq![
        RunActionView::SetStatus(ClientStatus::Running),
        RunActionView::Log("INFO  connected to server"@),
    ]);
    out
}

/// Adds one action to a list.
fn act(out: &mut Vec<RunAction>, a: RunAction)
    ensures
        actions(final(out)@) == actions(old(out)@).push(a@),
{
    out.push(a);
    assert(actions(out@) =~= actions(old(out)@).push(a@));
}

impl RunState {
    /// A client that has not turned to the server yet.
    pub fn new() -> (r: RunState)
        ensures
            r@ == (RunView {
                stage: Stage::Turning,
                session_id: ""@,
                first_attempt: true,
                backoff_secs: RECONNECT_BASE_SECS,
                pending: None,
            }),
            run_wf(r@),
    {
        RunState {
            stage: Stage::Turning,
            session_id: "".to_owned(),
            first_attempt: true,
            backoff_secs: RECONNECT_BASE_SECS,
            pending: None,
        }
    }

    pub fn stage(&self) -> (r: Stage)
        ensures
            r == self@.stage,
    {
        self.stage
    }

    /// Refuses the reload that waits, where one does.
    fn fail_pending_reload(&mut self, out: &mut Vec<RunAction>, reason: &str)
        ensures
            final(self)@ == (RunView { pending: None, ..old(self)@ }),
            actions(final(out)@) == actions(old(out)@) + refusal(old(self)@.pending, reason@),
    {
        let ghost before = actions(out@);
        match self.pending.take() {
            Some(p) => {
                let a = RunAction::Reply { ticket: p.ticket, result: Err(reason.to_owned()) };
                act(out, a);
                assert(actions(out@) =~= before + refusal(old(self)@.pending, reason@));
            },
            None => {
                assert(actions(out@) =~= before + refusal(old(self)@.pending, reason@));
            },
        }
        assert(self@ =~= RunView { pending: None, ..old(self)@ });
    }

    /// Stops for `reason` after `log`, behind what is already to be done.
    fn stop(
        &mut self,
        out: &mut Vec<RunAction>,
        reason: &str,
        log: Option<String>,
        result: Result<(), String>,
    )
        ensures
            ({
                let to = stopped(old(self)@, reason@, log_action(log), stop_result(result));
                &&& final(self)@ == to.0
                &&& actions(final(out)@) == actions(old(out)@) + to.1
            }),
    {
        let ghost before = actions(out@);
        let ghost logs = log_action(log);
        let ghost res = stop_result(result);
        self.fail_pending_reload(out, reason);
        match log {
            Some(line) => {
                act(out, RunAction::Log(line));
            },
            None => {},
        }
        act(out, RunAction::Stop(result));
        self.stage = Stage::Stopped;
        assert(self@ =~= stopped(old(self)@, reason@, logs, res).0);
        assert(actions(out@) =~= before + stopped(old(self)@, reason@, logs, res).1);
    }

    /// Takes an event and tells what is to be done.
    pub fn step(&mut self, event: RunEvent) -> (r: Vec<RunAction>)
        ensures
            (final(self)@, actions(r@)) == run_step(old(self)@, event),
            run_wf(old(self)@) ==> run_wf(final(self)@),
    {
        let ghost s = self@;
        let ghost whole = event;
        let mut out: Vec<RunAction> = Vec::new();
        assert(actions(out@) =~= seq![]);
        match event {
            RunEvent::Turn { cancelled } => {
                if self.stage == Stage::Turning {
                    if cancelled {
                        self.stop(&mut out, STOPPED_WHILE_RECONNECTING, None, Ok(()));
                    } else {
                        self.turn(&mut out);
                    }
                }
            },
            RunEvent::ConnectCancelled => {
                if self.stage == Stage::Connecting {
                    self.stop(&mut out, STOPPED_WHILE_RECONNECTING, None, Ok(()));
                }
            },
            RunEvent::ReloadServed => {
                if self.stage == Stage::Connecting {
                    self.stage = Stage::Turning;
                    assert(self@ =~= run_step(s, whole).0);
                }
            },
            RunEvent::Opened => {
                if self.stage == Stage::Connecting {
                    self.open(&mut out);
                }
            },
            RunEvent::OpenFailed { cancelled, rejected, error } => {
                if self.stage == Stage::Connecting {
                    self.open_fails(&mut out, cancelled, rejected, error);
                }
            },
            RunEvent::SessionOver { end, cancelled } => {
                if self.stage == Stage::InSession {
                    self.leave(&mut out, end, cancelled);
                }
            },
            RunEvent::Waited { cancelled } => {
                if self.stage == Stage::Waiting {
                    if cancelled {
                        self.stop(&mut out, STOPPED_WHILE_RECONNECTING, None, Ok(()));
                    } else {
                        self.backoff_secs = if self.backoff_secs > RECONNECT_MAX_SECS / 2 {
                            RECONNECT_MAX_SECS
                        } else if self.backoff_secs == 0 {
                            RECONNECT_BASE_SECS
                        } else {
                            self.backoff_secs * 2
                        };
                        self.stage = Stage::Turning;
                        assert(self@ =~= run_step(s, whole).0);
                    }
                }
            },
        }
        assert(actions(out@) =~= run_step(s, whole).1);
        out
    }

    fn turn(&mut self, out: &mut Vec<RunAction>)
        ensures
            final(self)@ == turned(old(self)@).0,
            actions(final(out)@) == actions(old(out)@) + turned(old(self)@).1,
    {
        let ghost s = self@;
        let ghost before = actions(out@);
        act(out, RunAction::DrainReloads);
        act(out, RunAction::ClearRemotes);
        if self.first_attempt {
            act(out, RunAction::SetStatus(ClientStatus::Starting));
            act(out, RunAction::Log("INFO  connecting to server".to_owned()));
        } else if self.pending.is_none() {
            act(out, RunAction::SetStatus(ClientStatus::Reconnecting));
        }
        act(out, RunAction::Open { session_id: self.session_id.clone() });
        self.stage = Stage::Connecting;
        assert(self@ =~= turned(s).0);
        assert(actions(out@) =~= before + turned(s).1);
    }

    fn open(&mut self, out: &mut Vec<RunAction>)
        ensures
            final(self)@ == opened(old(self)@).0,
            actions(final(out)@) == actions(old(out)@) + opened(old(self)@).1,
    {
        let ghost s = self@;
        let ghost before = actions(out@);
        self.first_attempt = false;
        self.backoff_secs = RECONNECT_BASE_SECS;
        match self.pending.take() {
            Some(p) => {
                act(out, RunAction::Reply { ticket: p.ticket, result: Ok(p.outcome) });
            },
            None => {},
        }
        act(out, RunAction::RunSession);
        self.stage = Stage::InSession;
        assert(self@ =~= opened(s).0);
        assert(actions(out@) =~= before + opened(s).1);
    }

    fn open_fails(
        &mut self,
        out: &mut Vec<RunAction>,
        cancelled: bool,
        rejected: Option<String>,
        error: String,
    )
        ensures
            ({
                let rej = match rejected {
                    Some(r) => Some(r@),
                    None => None,
                };
                let to = open_failed(old(self)@, cancelled, rej, error@);
                &&& final(self)@ == to.0
                &&& actions(final(out)@) == actions(old(out)@) + to.1
            }),
    {
        let ghost s = self@;
        let ghost before = actions(out@);
        if cancelled {
            self.stop(out, STOPPED_WHILE_RECONNECTING, None, Ok(()));
            return;
        }
        match rejected {
            Some(reason) => {
                let text = "login rejected: ".to_owned().concat(reason.as_str());
                let line = "ERROR ".to_owned().concat(text.as_str());
                let error = text.clone();
                self.stop(out, text.as_str(), Some(line), Err(error));
            },
            None => {
                act(out, RunAction::Log("ERROR failed to connect: ".to_owned().concat(error.as_str())));
                act(out, RunAction::SetStatus(ClientStatus::Reconnecting));
                self.first_attempt = false;
                act(out, RunAction::Log(retry_text(self.backoff_secs)));
                act(out, RunAction::Wait { secs: self.backoff_secs });
                self.stage = Stage::Waiting;
                assert(self@ =~= open_failed(s, cancelled, None, error@).0);
                assert(actions(out@) =~= before + open_failed(s, cancelled, None, error@).1);
            },
        }
    }

    /// Pauses after a session was lost; the remotes are already forgotten.
    fn lose(&mut self, out: &mut Vec<RunAction>, line: String)
        ensures
            final(self)@ == (RunView { stage: Stage::Waiting, ..old(self)@ }),
            actions(final(out)@) == actions(old(out)@) + session_lost(
                old(self)@,
                old(self)@.session_id,
                line@,
            ).1.skip(1),
    {
        let ghost s = self@;
        let ghost before = actions(out@);
        let ghost l = line@;
        act(out, RunAction::Log(line));
        act(out, RunAction::SetStatus(ClientStatus::Reconnecting));
        act(out, RunAction::DrainReloads);
        act(out, RunAction::Log(retry_text(self.backoff_secs)));
        act(out, RunAction::Wait { secs: self.backoff_secs });
        self.stage = Stage::Waiting;
        assert(self@ =~= RunView { stage: Stage::Waiting, ..s });
        assert(actions(out@) =~= before + session_lost(s, s.session_id, l).1.skip(1));
    }

    fn leave(&mut self, out: &mut Vec<RunAction>, end: SessionLoopEnd, cancelled: bool)
        ensures
            final(self)@ == session_over(old(self)@, end, cancelled).0,
            actions(final(out)@) == actions(old(out)@) + session_over(
                old(self)@,
                end,
                cancelled,
            ).1,
    {
        let ghost s = self@;
        let ghost before = actions(out@);
        let ghost to = session_over(s, end, cancelled);
        act(out, RunAction::ClearRemotes);
        match end {
            SessionLoopEnd::Cancelled => {
                self.stop(out, STOPPED_WHILE_RECONNECTING, None, Ok(()));
            },
            SessionLoopEnd::ReloadReconnect(p) => {
                self.pending = Some(p);
                act(out, RunAction::Log("INFO  reconnecting to apply client settings".to_owned()));
                act(out, RunAction::SetStatus(ClientStatus::Reconnecting));
                self.stage = Stage::Turning;
                assert(self@ =~= to.0);
            },
            SessionLoopEnd::Ended(SessionEnd::Kicked { session_id: _, reason }) => {
                let text = "kicked by server: ".to_owned().concat(reason.as_str());
                let line = "WARN  ".to_owned().concat(text.as_str());
                self.stop(out, "kicked by server", Some(line), Err(text));
            },
            SessionLoopEnd::Ended(SessionEnd::Disconnected { session_id }) => {
                if cancelled {
                    self.stop(out, STOPPED_WHILE_RECONNECTING, None, Ok(()));
                } else {
                    self.session_id = session_id;
                    self.lose(out, "WARN  disconnected from server".to_owned());
                    assert(self@ =~= to.0);
                }
            },
            SessionLoopEnd::Failed(error) => {
                if cancelled {
                    self.stop(out, STOPPED_WHILE_RECONNECTING, None, Ok(()));
                } else {
                    self.lose(out, "ERROR session error: ".to_owned().concat(error.as_str()));
                    assert(self@ =~= to.0);
                }
            },
        }
        assert(actions(out@) =~= before + to.1);
    }
}

/// Whether the reload with this ticket waits for its answer.
pub open spec fn awaited(pending: Option<(u64, OutcomeView)>, ticket: u64) -> bool {
    pending matches Some((t, _)) && t == ticket
}

/// How many of the actions answer the reload with this ticket.
pub open spec fn answers(acts: Seq<RunActionView>, ticket: u64) -> nat
    decreases acts.len(),
{
    if acts.len() == 0 {
        0
    } else {
        answers(acts.drop_last(), ticket) + (if acts.last() matches RunActionView::Reply {
            ticket: t,
            ..
        } && t == ticket {
            1nat
        } else {
            0nat
        })
    }
}

proof fn lemma_answers_concat(a: Seq<RunActionView>, b: Seq<RunActionView>, ticket: u64)
    ensures
        answers(a + b, ticket) == answers(a, ticket) + answers(b, ticket),
    decreases b.len(),
{
    if b.len() == 0 {
        assert(a + b =~= a);
    } else {
        assert((a + b).drop_last() =~= a + b.drop_last());
        lemma_answers_concat(a, b.drop_last(), ticket);
    }
}

/// Actions of which none is an answer.
proof fn lemma_no_answers(acts: Seq<RunActionView>, ticket: u64)
    requires
        forall|i: int| 0 <= i < acts.len() ==> !(#[trigger] acts[i] is Reply),
    ensures
        answers(acts, ticket) == 0,
    decreases acts.len(),
{
    if acts.len() > 0 {
        lemma_no_answers(acts.drop_last(), ticket);
    }
}

proof fn lemma_refusal_answers(
    s: RunView,
    reason: Seq<char>,
    logs: Seq<RunActionView>,
    result: Result<(), Seq<char>>,
    ticket: u64,
)
    requires
        forall|i: int| 0 <= i < logs.len() ==> !(#[trigger] logs[i] is Reply),
    ensures
        answers(stopped(s, reason, logs, result).1, ticket) == (if awaited(s.pending, ticket) {
            1nat
        } else {
            0nat
        }),
{
    reveal_with_fuel(answers, 2);
    let refused = refusal(s.pending, reason);
    let tail = seq![RunActionView::Stop(result)];
    lemma_answers_concat(refused + logs, tail, ticket);
    lemma_answers_concat(refused, logs, ticket);
    lemma_no_answers(logs, ticket);
    lemma_no_answers(tail, ticket);
    if s.pending is Some {
        assert(refused.drop_last() =~= Seq::<RunActionView>::empty());
    }
}

/// A reload that waits for the next session is answered exactly once: a step either
/// keeps it and does not answer it, or answers it once and lets it go. Nothing else
/// is answered on the way.
pub proof fn reload_is_answered_once(s: RunView, event: RunEvent, ticket: u64)
    requires
        run_wf(s),
    ensures
        ({
            let (to, acts) = run_step(s, event);
            let waits = awaited(s.pending, ticket);
            let still = awaited(to.pending, ticket);
            &&& waits && still ==> answers(acts, ticket) == 0
            &&& waits && !still ==> answers(acts, ticket) == 1
            &&& !waits ==> answers(acts, ticket) == 0
        }),
{
    reveal_with_fuel(answers, 7);
    let (to, acts) = run_step(s, event);
    let no_logs = Seq::<RunActionView>::empty();
    lemma_refusal_answers(s, STOPPED_WHILE_RECONNECTING@, no_logs, Ok(()), ticket);
    let clear = seq![RunActionView::ClearRemotes];
    match (s.stage, event) {
        (Stage::Turning, RunEvent::Turn { cancelled }) => {
            if !cancelled {
                lemma_no_answers(acts, ticket);
            }
        },
        (Stage::Connecting, RunEvent::Opened) => {
            let tail = seq![RunActionView::RunSession];
            let head = acts.take(acts.len() - 1);
            assert(acts =~= head + tail);
            lemma_answers_concat(head, tail, ticket);
            lemma_no_answers(tail, ticket);
            if s.pending is Some {
                assert(head.drop_last() =~= no_logs);
            } else {
                assert(head =~= no_logs);
            }
        },
        (Stage::Connecting, RunEvent::OpenFailed { cancelled, rejected, error }) => {
            if rejected is Some {
                let text = "login rejected: "@ + rejected->0@;
                lemma_refusal_answers(
                    s,
                    text,
                    seq![RunActionView::Log("ERROR "@ + text)],
                    Err(text),
                    ticket,
                );
            }
            if !cancelled && rejected is None {
                lemma_no_answers(acts, ticket);
            }
        },
        (Stage::InSession, RunEvent::SessionOver { end, cancelled }) => {
            lemma_no_answers(clear, ticket);
            lemma_answers_concat(clear, cancelled_out(s).1, ticket);
            match end {
                SessionLoopEnd::Ended(SessionEnd::Kicked { session_id: _, reason }) => {
                    let text = "kicked by server: "@ + reason@;
                    let logs = seq![RunActionView::Log("WARN  "@ + text)];
                    lemma_refusal_answers(s, "kicked by server"@, logs, Err(text), ticket);
                    let end = stopped(s, "kicked by server"@, logs, Err(text));
                    lemma_answers_concat(clear, end.1, ticket);
                },
                SessionLoopEnd::ReloadReconnect(p) => {
                    lemma_no_answers(acts, ticket);
                },
                _ => {
                    if to.stage == Stage::Waiting {
                        lemma_no_answers(acts, ticket);
                    }
                },
            }
        },
        _ => {},
    }
}

/// A client that has stopped stays stopped, owes no answer and does nothing more.
pub proof fn stopped_is_final(s: RunView, event: RunEvent)
    requires
        run_wf(s),
        s.stage == Stage::Stopped,
    ensures
        run_step(s, event) == (s, Seq::<RunActionView>::empty()),
        s.pending is None,
{
}

/// What cancels a client stops it without an error, wherever it stands.
pub proof fn cancel_stops(s: RunView, event: RunEvent)
    requires
        match event {
            RunEvent::Turn { cancelled } => cancelled && s.stage == Stage::Turning,
            RunEvent::ConnectCancelled => s.stage == Stage::Connecting,
            RunEvent::OpenFailed { cancelled, .. } => cancelled && s.stage == Stage::Connecting,
            RunEvent::SessionOver { end, cancelled } => s.stage == Stage::InSession && (
            end is Cancelled || cancelled && (end is Failed || end matches SessionLoopEnd::Ended(
                SessionEnd::Disconnected { .. },
            ))),
            RunEvent::Waited { cancelled } => cancelled && s.stage == Stage::Waiting,
            _ => false,
        },
    ensures
        run_step(s, event).0.stage == Stage::Stopped,
        run_step(s, event).1.last() == RunActionView::Stop(Ok(())),
{
}

/// The pause after so many failed attempts in a row.
pub open spec fn pause_after(failures: nat) -> u64
    decreases failures,
{
    if failures == 0 {
        RECONNECT_BASE_SECS
    } else {
        next_backoff(pause_after((failures - 1) as nat))
    }
}

/// Pauses double from one second up to a minute and stay there.
pub proof fn pauses_double_up_to_a_minute(failures: nat)
    ensures
        pause_after(failures) <= RECONNECT_MAX_SECS,
        failures <= 5 ==> pause_after(failures) == vstd::arithmetic::power2::pow2(failures),
        failures > 5 ==> pause_after(failures) == RECONNECT_MAX_SECS,
    decreases failures,
{
    vstd::arithmetic::power2::lemma2_to64();
    reveal_with_fuel(pause_after, 7);
    if failures > 6 {
        pauses_double_up_to_a_minute((failures - 1) as nat);
    }
}

/// An attempt that fails without a stop waits for the pause that is due, and the
/// pause after the next one is longer, but for the longest; an open session starts
/// over with the shortest.
pub proof fn failed_attempts_lengthen_the_pause(
    s: RunView,
    error: String,
)
    requires
        run_wf(s),
        s.stage == Stage::Connecting,
    ensures
        ({
            let (to, acts) = run_step(
                s,
                RunEvent::OpenFailed { cancelled: false, rejected: None, error },
            );
            &&& acts.last() == RunActionView::Wait { secs: s.backoff_secs }
            &&& to.stage == Stage::Waiting
            &&& run_step(to, RunEvent::Waited { cancelled: false }).0.backoff_secs == next_backoff(
                s.backoff_secs,
            )
            &&& s.backoff_secs < RECONNECT_MAX_SECS ==> next_backoff(s.backoff_secs)
                > s.backoff_secs
        }),
        run_step(s, RunEvent::Opened).0.backoff_secs == RECONNECT_BASE_SECS,
{
}

/// What became of a session, by what ended the reading of its messages.
pub open spec fn end_of(result: Result<ReaderEnd, Seq<char>>, session_id: Seq<char>) -> EndView {
    match result {
        Ok(ReaderEnd::Kicked(reason)) => EndView::Kicked { session_id, reason: reason@ },
        Ok(ReaderEnd::Closed) => EndView::Disconnected { session_id },
        Err(e) => EndView::Failed { error: e },
    }
}

pub enum EndView {
    Disconnected { session_id: Seq<char> },
    Kicked { session_id: Seq<char>, reason: Seq<char> },
    Failed { error: Seq<char> },
}

pub open spec fn done_view(d: SessionDone, session_id: Seq<char>) -> EndView {
    match d {
        SessionDone::Ended(SessionEnd::Disconnected { session_id: id }) => EndView::Disconnected {
            session_id: id@,
        },
        SessionDone::Ended(SessionEnd::Kicked { session_id: id, reason }) => EndView::Kicked {
            session_id: id@,
            reason: reason@,
        },
        SessionDone::Failed(error) => EndView::Failed { error: error@ },
        SessionDone::Dropped => EndView::Disconnected { session_id },
    }
}

/// Tells what became of a session when the reading of its messages ended.
pub fn session_end(result: Result<ReaderEnd, String>, session_id: String) -> (r: SessionDone)
    ensures
        done_view(r, session_id@) == end_of(
            match result {
                Ok(e) => Ok(e),
                Err(e) => Err(e@),
            },
            session_id@,
        ),
        r !is Dropped,
{
    match result {
        Ok(ReaderEnd::Kicked(reason)) => SessionDone::Ended(
            SessionEnd::Kicked { session_id, reason },
        ),
        Ok(ReaderEnd::Closed) => SessionDone::Ended(SessionEnd::Disconnected { session_id }),
        Err(e) => SessionDone::Failed(e),
    }
}

/// What happens to a client in a running session.
#[derive(Debug)]
pub enum LoopEvent {
    Cancelled,
    /// No reload can come any more.
    ReloadsClosed,
    /// A reload was taken over and answered.
    ReloadAnswered,
    /// A reload was taken over and needs a new session; it has been asked to end.
    ReloadReconnects(PendingReload),
    /// The session is over.
    Done(SessionDone),
}

/// What a client in a running session is to do next.
#[derive(Debug, Clone, Copy, PartialEq, Eq, Structural)]
pub enum LoopAction {
    CloseTunnels,
    Disconnect,
    /// Wait until the session is over.
    AwaitDone,
}

/// What to do in a running session, and how it is left where it is.
#[derive(Debug)]
pub struct LoopStep {
    pub actions: Vec<LoopAction>,
    pub end: Option<SessionLoopEnd>,
}

/// What leaving a session looks like to the one who waits for it.
pub enum LeaveView {
    Cancelled,
    ReloadReconnect { ticket: u64, outcome: OutcomeView },
    Over(EndView),
}

pub open spec fn leave_view(e: SessionLoopEnd, session_id: Seq<char>) -> LeaveView {
    match e {
        SessionLoopEnd::Cancelled => LeaveView::Cancelled,
        SessionLoopEnd::ReloadReconnect(p) => LeaveView::ReloadReconnect {
            ticket: p.ticket,
            outcome: p.outcome@,
        },
        SessionLoopEnd::Ended(end) => LeaveView::Over(
            done_view(SessionDone::Ended(end), session_id),
        ),
        SessionLoopEnd::Failed(error) => LeaveView::Over(EndView::Failed { error: error@ }),
    }
}

/// What follows from an event in the session `session_id`: a stop closes the tunnels
/// and ends the session, and so does a client that can get no more reloads, but for
/// the tunnels; a session of which nothing was heard counts as disconnected.
pub open spec fn loop_step(event: LoopEvent, session_id: Seq<char>) -> (
    Seq<LoopAction>,
    Option<LeaveView>,
) {
    match event {
        LoopEvent::Cancelled => (
            seq![LoopAction::CloseTunnels, LoopAction::Disconnect, LoopAction::AwaitDone],
            Some(LeaveView::Cancelled),
        ),
        LoopEvent::ReloadsClosed => (seq![LoopAction::Disconnect, LoopAction::AwaitDone], None),
        LoopEvent::ReloadAnswered => (seq![], None),
        LoopEvent::ReloadReconnects(p) => (
            seq![LoopAction::AwaitDone],
            Some(LeaveView::ReloadReconnect { ticket: p.ticket, outcome: p.outcome@ }),
        ),
        LoopEvent::Done(d) => (seq![], Some(LeaveView::Over(done_view(d, session_id)))),
    }
}

/// Decides what a client in the session `session_id` does next.
pub fn session_loop_step(event: LoopEvent, session_id: &str) -> (r: LoopStep)
    ensures
        (
            r.actions@,
            match r.end {
                Some(e) => Some(leave_view(e, session_id@)),
                None => None,
            },
        ) == loop_step(event, session_id@),
{
    let ghost ev = event;
    match event {
        LoopEvent::Cancelled => {
            let v = vec![LoopAction::CloseTunnels, LoopAction::Disconnect, LoopAction::AwaitDone];
            assert(v@ =~= loop_step(ev, session_id@).0);
            LoopStep { actions: v, end: Some(SessionLoopEnd::Cancelled) }
        },
        LoopEvent::ReloadsClosed => {
            let v = vec![LoopAction::Disconnect, LoopAction::AwaitDone];
            assert(v@ =~= loop_step(ev, session_id@).0);
            LoopStep { actions: v, end: None }
        },
        LoopEvent::ReloadAnswered => {
            let v: Vec<LoopAction> = Vec::new();
            assert(v@ =~= loop_step(ev, session_id@).0);
            LoopStep { actions: v, end: None }
        },
        LoopEvent::ReloadReconnects(p) => {
            let v = vec![LoopAction::AwaitDone];
            assert(v@ =~= loop_step(ev, session_id@).0);
            LoopStep { actions: v, end: Some(SessionLoopEnd::ReloadReconnect(p)) }
        },
        LoopEvent::Done(d) => {
            let v: Vec<LoopAction> = Vec::new();
            assert(v@ =~= loop_step(ev, session_id@).0);
            let end = match d {
                SessionDone::Ended(end) => SessionLoopEnd::Ended(end),
                SessionDone::Failed(error) => SessionLoopEnd::Failed(error),
                SessionDone::Dropped => SessionLoopEnd::Ended(
                    SessionEnd::Disconnected { session_id: session_id.to_owned() },
                ),
            };
            LoopStep { actions: v, end: Some(end) }
        },
    }
}

} // verus!
