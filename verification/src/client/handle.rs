//! What a program that holds a client sees of it and can ask of it.
use vstd::prelude::*;
use vstd::string::*;

use crate::client::reload::{text_pairs, ReloadOutcome};
use crate::client::status::ClientStatus;
use crate::config::client::{client_paths_resolved, ClientConfig, ClientConfigError};
use crate::names::{stands_at, NameMap};
use crate::text::{same, texts};
use crate::transport::{protocol_named, Protocol};

verus! {

/// How many lines of the log are kept for the program that holds the client.
pub const MAX_PENDING_LOGS: usize = 500;

/// How long a client that uses datagrams keeps running after its end, so that the
/// server hears of it, in milliseconds.
pub const UDP_SESSION_DRAIN_MILLIS: u64 = 500;

/// How long the answer to a reload may take, in seconds.
pub const RELOAD_TIMEOUT_SECS: u64 = 120;

/// How long a client may take to stop before it is torn down, in seconds.
pub const STOP_TIMEOUT_SECS: u64 = 5;

#[derive(Debug, Clone, Copy, PartialEq, Eq, Structural)]
pub struct StartOptions {
    pub local_control: bool,
}

impl Default for StartOptions {
    fn default() -> (r: StartOptions)
        ensures
            !r.local_control,
    {
        StartOptions { local_control: false }
    }
}

/// Where the tunnels can be reached, and how often that has changed.
struct TunnelRemoteState {
    generation: u64,
    by_name: NameMap<String>,
}

/// A client as the program that holds it sees it.
pub struct ClientHandle {
    status: ClientStatus,
    last_error: Option<String>,
    pending_logs: Vec<String>,
    tunnel_remotes: TunnelRemoteState,
    can_cancel: bool,
    has_task: bool,
    takes_reloads: bool,
}

#[verifier::ext_equal]
pub struct HandleView {
    pub status: ClientStatus,
    pub last_error: Option<Seq<char>>,
    pub logs: Seq<Seq<char>>,
    /// Changes whenever `remotes` does.
    pub generation: u64,
    pub remotes: Map<Seq<char>, Seq<char>>,
    /// Whether there is something to cancel.
    pub can_cancel: bool,
    /// Whether a task runs that can be waited for.
    pub has_task: bool,
    /// Whether reloads are taken.
    pub takes_reloads: bool,
}

/// The texts that stand under names.
pub open spec fn named_texts(m: Map<Seq<char>, String>) -> Map<Seq<char>, Seq<char>> {
    Map::new(|name: Seq<char>| m.dom().contains(name), |name: Seq<char>| m[name]@)
}

pub open spec fn text_of(s: Option<String>) -> Option<Seq<char>> {
    match s {
        Some(s) => Some(s@),
        None => None,
    }
}

impl View for ClientHandle {
    type V = HandleView;

    closed spec fn view(&self) -> HandleView {
        HandleView {
            status: self.status,
            last_error: text_of(self.last_error),
            logs: texts(self.pending_logs@),
            generation: self.tunnel_remotes.generation,
            remotes: named_texts(self.tunnel_remotes.by_name@),
            can_cancel: self.can_cancel,
            has_task: self.has_task,
            takes_reloads: self.takes_reloads,
        }
    }
}

/// The log with one more line, of which only the last lines are kept.
pub open spec fn logged(logs: Seq<Seq<char>>, line: Seq<char>) -> Seq<Seq<char>> {
    let all = logs.push(line);
    if all.len() > MAX_PENDING_LOGS {
        all.skip(all.len() - MAX_PENDING_LOGS)
    } else {
        all
    }
}

pub open spec fn next_generation(g: u64) -> u64 {
    if g == u64::MAX {
        0
    } else {
        (g + 1) as u64
    }
}

/// A list that names each tunnel once, with the address where it can be reached.
pub open spec fn lists_remotes(
    list: Seq<(Seq<char>, Seq<char>)>,
    remotes: Map<Seq<char>, Seq<char>>,
) -> bool {
    &&& forall|i: int, j: int|
        0 <= i < j < list.len() ==> (#[trigger] list[i]).0 != (#[trigger] list[j]).0
    &&& forall|i: int|
        0 <= i < list.len() ==> remotes.dom().contains((#[trigger] list[i]).0)
            && remotes[list[i].0] == list[i].1
    &&& forall|name: Seq<char>| #[trigger]
        remotes.dom().contains(name) ==> exists|i: int|
            0 <= i < list.len() && (#[trigger] list[i]).0 == name
}

impl HandleView {
    /// The client with no tunnel that can be reached.
    pub open spec fn without_remotes(self) -> HandleView {
        HandleView {
            generation: next_generation(self.generation),
            remotes: Map::empty(),
            ..self
        }
    }

    /// The client after `name` was found at `addr`.
    pub open spec fn with_remote(self, name: Seq<char>, addr: Seq<char>) -> HandleView {
        if name.len() == 0 || (self.remotes.dom().contains(name) && self.remotes[name] == addr) {
            self
        } else {
            HandleView {
                generation: next_generation(self.generation),
                remotes: self.remotes.insert(name, addr),
                ..self
            }
        }
    }

    /// The client after the tunnel `name` was closed.
    pub open spec fn without_remote(self, name: Seq<char>) -> HandleView {
        if name.len() == 0 || !self.remotes.dom().contains(name) {
            self
        } else {
            HandleView {
                generation: next_generation(self.generation),
                remotes: self.remotes.remove(name),
                ..self
            }
        }
    }

    /// The client as a new start leaves it.
    pub open spec fn starting(self) -> HandleView {
        HandleView {
            status: ClientStatus::Starting,
            last_error: None,
            can_cancel: true,
            ..self.without_remotes()
        }
    }

    /// The client once it has ended.
    pub open spec fn ended(self, error: Option<Seq<char>>) -> HandleView {
        HandleView {
            status: ClientStatus::Stopped,
            last_error: match error {
                Some(e) => Some(e),
                None => self.last_error,
            },
            can_cancel: false,
            takes_reloads: false,
            ..self.without_remotes()
        }
    }
}

/// A client that never ran.
pub open spec fn stopped_client() -> HandleView {
    HandleView {
        status: ClientStatus::Stopped,
        last_error: None,
        logs: seq![],
        generation: 0,
        remotes: Map::empty(),
        can_cancel: false,
        has_task: false,
        takes_reloads: false,
    }
}

/// Why a client was not started.
#[derive(Debug)]
pub enum StartError {
    AlreadyRunning,
    Invalid(ClientConfigError),
}

impl StartError {
    /// The text that tells a user what is wrong; `number` is how the number is written
    /// that a refused bandwidth denotes.
    pub open spec fn text(&self, number: Seq<char>) -> Seq<char> {
        match *self {
            StartError::AlreadyRunning => "client already running"@,
            StartError::Invalid(e) => e@.text(number),
        }
    }

    /// The text that tells a user what is wrong; `number` is how the number is written
    /// that a refused bandwidth denotes.
    pub fn message(&self, number: &str) -> (r: String)
        ensures
            r@ == self.text(number@),
    {
        match self {
            StartError::AlreadyRunning => "client already running".to_owned(),
            StartError::Invalid(e) => e.message(number),
        }
    }
}

/// Why a client did not run.
#[derive(Debug)]
pub enum RunError {
    /// It was to run in the background, and nothing is there to cancel it.
    NoCancelToken,
    Invalid(ClientConfigError),
}

impl RunError {
    /// The text that tells a user what is wrong; `number` is how the number is written
    /// that a refused bandwidth denotes.
    pub open spec fn text(&self, number: Seq<char>) -> Seq<char> {
        match *self {
            RunError::NoCancelToken => "missing cancel token"@,
            RunError::Invalid(e) => e@.text(number),
        }
    }

    /// The text that tells a user what is wrong; `number` is how the number is written
    /// that a refused bandwidth denotes.
    pub fn message(&self, number: &str) -> (r: String)
        ensures
            r@ == self.text(number@),
    {
        match self {
            RunError::NoCancelToken => "missing cancel token".to_owned(),
            RunError::Invalid(e) => e.message(number),
        }
    }
}

/// Why a reload cannot be asked for.
#[derive(Debug, Clone, Copy, PartialEq, Eq, Structural)]
pub enum ReloadRefusal {
    NotRunning,
    NotReady,
}

impl ReloadRefusal {
    pub open spec fn text(&self) -> Seq<char> {
        match *self {
            ReloadRefusal::NotRunning => "client is not running"@,
            ReloadRefusal::NotReady => "reload channel not ready"@,
        }
    }

    pub fn message(&self) -> (r: String)
        ensures
            r@ == self.text(),
    {
        match *self {
            ReloadRefusal::NotRunning => "client is not running".to_owned(),
            ReloadRefusal::NotReady => "reload channel not ready".to_owned(),
        }
    }
}

/// What was heard of a reload that was asked for.
#[derive(Debug)]
pub enum ReloadReply {
    Answered(Result<ReloadOutcome, String>),
    /// The client took no more reloads.
    NotTaken,
    /// The client ended without an answer.
    Dropped,
    TimedOut,
}

/// What a stop is to do: cancel the client, and wait for its task.
#[derive(Debug, Clone, Copy, PartialEq, Eq, Structural)]
pub struct StopPlan {
    pub cancel: bool,
    pub wait: bool,
}

impl Default for ClientHandle {
    fn default() -> (r: ClientHandle)
        ensures
            r.wf(),
            r@ == stopped_client(),
    {
        ClientHandle::new()
    }
}

impl ClientHandle {
    /// No tunnel stands twice, and no more lines wait than are kept.
    pub closed spec fn wf(&self) -> bool {
        &&& self.tunnel_remotes.by_name.wf()
        &&& self.pending_logs@.len() <= MAX_PENDING_LOGS
    }

    /// No more lines wait than are kept.
    pub proof fn lemma_logs_bounded(&self)
        requires
            self.wf(),
        ensures
            self@.logs.len() <= MAX_PENDING_LOGS,
    {
    }

    pub fn new() -> (r: ClientHandle)
        ensures
            r.wf(),
            r@ == stopped_client(),
    {
        let r = ClientHandle {
            status: ClientStatus::Stopped,
            last_error: None,
            pending_logs: Vec::new(),
            tunnel_remotes: TunnelRemoteState { generation: 0, by_name: NameMap::new() },
            can_cancel: false,
            has_task: false,
            takes_reloads: false,
        };
        assert(r@.logs =~= seq![]);
        assert(r@.remotes =~= Map::empty());
        r
    }

    pub fn status(&self) -> (r: ClientStatus)
        ensures
            r == self@.status,
    {
        self.status
    }

    pub fn last_error(&self) -> (r: Option<String>)
        ensures
            text_of(r) == self@.last_error,
    {
        match &self.last_error {
            Some(e) => Some(e.clone()),
            None => None,
        }
    }

    /// The last error, which is then forgotten.
    pub fn take_last_error(&mut self) -> (r: Option<String>)
        requires
            old(self).wf(),
        ensures
            final(self).wf(),
            text_of(r) == old(self)@.last_error,
            final(self)@ == (HandleView { last_error: None, ..old(self)@ }),
    {
        let r = self.last_error.take();
        assert(self@ =~= HandleView { last_error: None, ..old(self)@ });
        r
    }

    /// Adds a line to the log; where too many wait, the oldest goes.
    pub fn push_log(&mut self, line: String)
        requires
            old(self).wf(),
        ensures
            final(self).wf(),
            final(self)@ == (HandleView { logs: logged(old(self)@.logs, line@), ..old(self)@ }),
    {
        let ghost before = self@;
        let ghost l = line@;
        if self.pending_logs.len() >= MAX_PENDING_LOGS {
            self.pending_logs.remove(0);
        }
        self.pending_logs.push(line);
        assert(self@.logs =~= logged(before.logs, l));
        assert(self@ =~= HandleView { logs: logged(before.logs, l), ..before });
    }

    /// The lines that wait, oldest first, which are then forgotten.
    pub fn drain_logs(&mut self) -> (r: Vec<String>)
        requires
            old(self).wf(),
        ensures
            final(self).wf(),
            texts(r@) == old(self)@.logs,
            final(self)@ == (HandleView { logs: seq![], ..old(self)@ }),
    {
        let ghost before = self@;
        let mut out: Vec<String> = Vec::new();
        std::mem::swap(&mut out, &mut self.pending_logs);
        assert(self@.logs =~= seq![]);
        assert(self@ =~= HandleView { logs: seq![], ..before });
        out
    }

    /// Where the tunnels can be reached, unless nothing changed since `since_gen`.
    pub fn tunnel_remotes_if_changed(&self, since_gen: u64) -> (r: Option<
        (u64, Vec<(String, String)>),
    >)
        requires
            self.wf(),
        ensures
            match r {
                Some((generation, list)) => {
                    &&& self@.generation != since_gen
                    &&& generation == self@.generation
                    &&& lists_remotes(text_pairs(list@), self@.remotes)
                },
                None => self@.generation == since_gen,
            },
    {
        if self.tunnel_remotes.generation == since_gen {
            return None;
        }
        let map = &self.tunnel_remotes.by_name;
        let n: usize = map.len();
        let mut out: Vec<(String, String)> = Vec::new();
        let mut i: usize = 0;
        while i < n
            invariant
                i <= n,
                n == map.list().len(),
                out@.len() == i,
                forall|j: int|
                    0 <= j < i ==> (#[trigger] out@[j]).0@ == map.list()[j].0@ && out@[j].1@
                        == map.list()[j].1@,
            decreases n - i,
        {
            let e = map.at(i);
            out.push((e.0.clone(), e.1.clone()));
            i += 1;
        }
        proof {
            let list = text_pairs(out@);
            assert forall|i: int| 0 <= i < list.len() implies self@.remotes.dom().contains(
                (#[trigger] list[i]).0,
            ) && self@.remotes[list[i].0] == list[i].1 by {
                map.lemma_at(i);
                assert(list[i].0 == map.list()[i].0@);
            }
            assert forall|i: int, j: int| 0 <= i < j < list.len() implies (#[trigger] list[i]).0
                != (#[trigger] list[j]).0 by {
                assert(list[i].0 == map.list()[i].0@);
                assert(list[j].0 == map.list()[j].0@);
            }
            assert forall|name: Seq<char>| #[trigger]
                self@.remotes.dom().contains(name) implies exists|i: int|
                0 <= i < list.len() && (#[trigger] list[i]).0 == name by {
                assert(map@.dom().contains(name));
                let k = choose|k: int| stands_at(map.list(), name, k);
                assert(list[k].0 == map.list()[k].0@);
            }
        }
        Some((self.tunnel_remotes.generation, out))
    }

    /// Forgets where the tunnels can be reached.
    pub fn clear_tunnel_remotes(&mut self)
        requires
            old(self).wf(),
        ensures
            final(self).wf(),
            final(self)@ == old(self)@.without_remotes(),
    {
        let ghost before = self@;
        self.tunnel_remotes.by_name.clear();
        self.bump();
        assert(self@.remotes =~= Map::empty());
        assert(self@ =~= before.without_remotes());
    }

    fn bump(&mut self)
        ensures
            final(self)@ == (HandleView {
                generation: next_generation(old(self)@.generation),
                ..old(self)@
            }),
            old(self).wf() ==> final(self).wf(),
    {
        let ghost before = self@;
        self.tunnel_remotes.generation = self.tunnel_remotes.generation.wrapping_add(1);
        assert(self@ =~= HandleView {
            generation: next_generation(before.generation),
            ..before
        });
    }

    /// Notes where a tunnel can be reached.
    pub fn set_tunnel_remote(&mut self, name: String, remote_addr: String)
        requires
            old(self).wf(),
        ensures
            final(self).wf(),
            final(self)@ == old(self)@.with_remote(name@, remote_addr@),
    {
        let ghost before = self@;
        let ghost key = name@;
        let ghost addr = remote_addr@;
        if name.as_str().is_empty() {
            return;
        }
        match self.tunnel_remotes.by_name.get(name.as_str()) {
            Some(known) => {
                if same(known.as_str(), remote_addr.as_str()) {
                    return;
                }
            },
            None => {},
        }
        self.tunnel_remotes.by_name.insert(name, remote_addr);
        self.bump();
        assert(self@.remotes =~= before.remotes.insert(key, addr));
        assert(self@ =~= before.with_remote(key, addr));
    }

    /// Forgets where a tunnel can be reached.
    pub fn remove_tunnel_remote(&mut self, name: &str)
        requires
            old(self).wf(),
        ensures
            final(self).wf(),
            final(self)@ == old(self)@.without_remote(name@),
    {
        let ghost before = self@;
        if name.is_empty() {
            return;
        }
        match self.tunnel_remotes.by_name.remove(name) {
            Some(_) => {
                self.bump();
                assert(self@.remotes =~= before.remotes.remove(name@));
                assert(self@ =~= before.without_remote(name@));
            },
            None => {
                assert(self@.remotes =~= before.remotes);
                assert(self@ =~= before.without_remote(name@));
            },
        }
    }

    pub fn set_status(&mut self, s: ClientStatus)
        requires
            old(self).wf(),
        ensures
            final(self).wf(),
            final(self)@ == (HandleView { status: s, ..old(self)@ }),
    {
        self.status = s;
        assert(self@ =~= HandleView { status: s, ..old(self)@ });
    }

    pub fn set_error(&mut self, e: Option<String>)
        requires
            old(self).wf(),
        ensures
            final(self).wf(),
            final(self)@ == (HandleView { last_error: text_of(e), ..old(self)@ }),
    {
        let ghost t = text_of(e);
        self.last_error = e;
        assert(self@ =~= HandleView { last_error: t, ..old(self)@ });
    }

    /// Takes no more reloads.
    pub fn clear_reload_tx(&mut self)
        requires
            old(self).wf(),
        ensures
            final(self).wf(),
            final(self)@ == (HandleView { takes_reloads: false, ..old(self)@ }),
    {
        self.takes_reloads = false;
        assert(self@ =~= HandleView { takes_reloads: false, ..old(self)@ });
    }

    /// Takes reloads from now on.
    pub fn set_reload_tx(&mut self)
        requires
            old(self).wf(),
        ensures
            final(self).wf(),
            final(self)@ == (HandleView { takes_reloads: true, ..old(self)@ }),
    {
        self.takes_reloads = true;
        assert(self@ =~= HandleView { takes_reloads: true, ..old(self)@ });
    }

    /// Brings the client into the state of a new start.
    fn begin(&mut self)
        requires
            old(self).wf(),
        ensures
            final(self).wf(),
            final(self)@ == old(self)@.starting(),
    {
        let ghost before = self@;
        self.can_cancel = true;
        self.status = ClientStatus::Starting;
        self.last_error = None;
        self.clear_tunnel_remotes();
        assert(self@ =~= before.starting());
    }

    /// Starts a client in the background: makes its settings ready with `resolve`,
    /// checks them and notes that a task runs. A client that is at work is not
    /// started again, and one with bad settings not at all.
    pub fn start_with<F: Fn(&String) -> String>(
        &mut self,
        cfg: &mut ClientConfig,
        resolve: &F,
    ) -> (r: Result<(), StartError>)
        requires
            old(self).wf(),
            forall|p: &String| call_requires(*resolve, (p,)),
        ensures
            final(self).wf(),
            match r {
                Ok(_) => {
                    &&& old(self)@.status == ClientStatus::Stopped
                    &&& ready(*resolve, *old(cfg), *final(cfg))
                    &&& final(cfg)@.fault() is None
                    &&& final(self)@ == (HandleView {
                        has_task: true,
                        ..old(self)@.starting()
                    })
                },
                Err(StartError::AlreadyRunning) => {
                    &&& old(self)@.status != ClientStatus::Stopped
                    &&& *final(self) == *old(self)
                    &&& *final(cfg) == *old(cfg)
                },
                Err(StartError::Invalid(e)) => {
                    &&& old(self)@.status == ClientStatus::Stopped
                    &&& ready(*resolve, *old(cfg), *final(cfg))
                    &&& final(cfg)@.fault() == Some(e@)
                    &&& *final(self) == *old(self)
                },
            },
    {
        if self.status.is_active() {
            return Err(StartError::AlreadyRunning);
        }
        cfg.prepare_runtime(resolve);
        match cfg.validate() {
            Ok(_) => {},
            Err(e) => {
                return Err(StartError::Invalid(e));
            },
        }
        let ghost before = self@;
        self.begin();
        self.has_task = true;
        assert(self@ =~= HandleView { has_task: true, ..before.starting() });
        Ok(())
    }

    /// Begins the run of a client whose settings are made ready with `resolve`: in
    /// the foreground it starts here, in the background it was started before. From
    /// then on it takes reloads. Tells whether the end must be drawn out for
    /// datagrams.
    pub fn begin_run<F: Fn(&String) -> String>(
        &mut self,
        cfg: &mut ClientConfig,
        resolve: &F,
        is_foreground: bool,
    ) -> (r: Result<bool, RunError>)
        requires
            old(self).wf(),
            forall|p: &String| call_requires(*resolve, (p,)),
        ensures
            final(self).wf(),
            ready(*resolve, *old(cfg), *final(cfg)),
            match r {
                Ok(drain) => {
                    &&& final(cfg)@.fault() is None
                    &&& is_foreground || old(self)@.can_cancel
                    &&& drain == (is_foreground && uses_datagrams(final(cfg)@.transport.protocol))
                    &&& final(self)@ == (HandleView {
                        takes_reloads: true,
                        ..if is_foreground {
                            old(self)@.starting()
                        } else {
                            old(self)@
                        }
                    })
                },
                Err(RunError::Invalid(e)) => {
                    &&& final(cfg)@.fault() == Some(e@)
                    &&& *final(self) == *old(self)
                },
                Err(RunError::NoCancelToken) => {
                    &&& final(cfg)@.fault() is None
                    &&& !is_foreground && !old(self)@.can_cancel
                    &&& *final(self) == *old(self)
                },
            },
    {
        cfg.prepare_runtime(resolve);
        match cfg.validate() {
            Ok(_) => {},
            Err(e) => {
                return Err(RunError::Invalid(e));
            },
        }
        if !is_foreground && !self.can_cancel {
            return Err(RunError::NoCancelToken);
        }
        let drain = is_foreground && needs_udp_session_drain(cfg);
        let ghost before = self@;
        if is_foreground {
            self.begin();
        }
        self.takes_reloads = true;
        assert(self@ =~= HandleView {
            takes_reloads: true,
            ..if is_foreground {
                before.starting()
            } else {
                before
            }
        });
        Ok(drain)
    }

    /// Ends the run of a client, with the error where it failed.
    pub fn end_run(&mut self, error: Option<String>)
        requires
            old(self).wf(),
        ensures
            final(self).wf(),
            final(self)@ == old(self)@.ended(text_of(error)),
    {
        let ghost before = self@;
        let ghost e = text_of(error);
        match error {
            Some(text) => {
                self.last_error = Some(text);
            },
            None => {},
        }
        self.clear_tunnel_remotes();
        self.takes_reloads = false;
        self.can_cancel = false;
        self.status = ClientStatus::Stopped;
        assert(self@ =~= before.ended(e));
    }

    /// Whether a reload can be asked for.
    pub fn reload(&self) -> (r: Result<(), ReloadRefusal>)
        ensures
            r == (if self@.status == ClientStatus::Stopped {
                Err::<(), ReloadRefusal>(ReloadRefusal::NotRunning)
            } else if !self@.takes_reloads {
                Err(ReloadRefusal::NotReady)
            } else {
                Ok(())
            }),
    {
        if !self.status.is_active() {
            return Err(ReloadRefusal::NotRunning);
        }
        if !self.takes_reloads {
            return Err(ReloadRefusal::NotReady);
        }
        Ok(())
    }

    /// Begins to stop a client and tells what that takes; nothing where it is
    /// stopped. Where there is no task to wait for, it is stopped at once.
    pub fn stop(&mut self) -> (r: Option<StopPlan>)
        requires
            old(self).wf(),
        ensures
            final(self).wf(),
            match r {
                None => old(self)@.status == ClientStatus::Stopped && *final(self) == *old(self),
                Some(plan) => {
                    &&& old(self)@.status != ClientStatus::Stopped
                    &&& plan.cancel == old(self)@.can_cancel
                    &&& plan.wait == old(self)@.has_task
                    &&& final(self)@ == (HandleView {
                        status: if old(self)@.has_task {
                            ClientStatus::Stopping
                        } else {
                            ClientStatus::Stopped
                        },
                        last_error: None,
                        can_cancel: false,
                        has_task: false,
                        ..old(self)@
                    })
                },
            },
    {
        if self.status == ClientStatus::Stopped {
            return None;
        }
        let ghost before = self@;
        let plan = StopPlan { cancel: self.can_cancel, wait: self.has_task };
        self.last_error = None;
        self.can_cancel = false;
        self.has_task = false;
        self.status = if plan.wait {
            ClientStatus::Stopping
        } else {
            ClientStatus::Stopped
        };
        assert(self@ =~= HandleView {
            status: self@.status,
            last_error: None,
            can_cancel: false,
            has_task: false,
            ..before
        });
        Some(plan)
    }

    /// Finishes a stop; a task that had to be torn down ends the client here.
    pub fn finish_stop(&mut self, torn_down: bool)
        requires
            old(self).wf(),
        ensures
            final(self).wf(),
            final(self)@ == (HandleView {
                status: if torn_down {
                    ClientStatus::Stopped
                } else {
                    old(self)@.status
                },
                takes_reloads: false,
                ..old(self)@.without_remotes()
            }),
    {
        let ghost before = self@;
        if torn_down {
            self.status = ClientStatus::Stopped;
        }
        self.clear_tunnel_remotes();
        self.takes_reloads = false;
        assert(self@ =~= HandleView {
            status: self@.status,
            takes_reloads: false,
            ..before.without_remotes()
        });
    }
}

/// Settings before and after they were made ready for use.
pub open spec fn ready<F: Fn(&String) -> String>(
    resolve: F,
    before: ClientConfig,
    after: ClientConfig,
) -> bool {
    exists|found: ClientConfig| #[trigger]
        client_paths_resolved(resolve, before, found) && after@ == found@.completed()
}

/// Whether a transport carries its sessions over datagrams.
pub open spec fn uses_datagrams(protocol: Seq<char>) -> bool {
    protocol_named(protocol) == Some(Protocol::Quic) || protocol_named(protocol) == Some(
        Protocol::Kcp,
    )
}

/// Whether the server would not notice the end of this client by itself.
pub fn needs_udp_session_drain(cfg: &ClientConfig) -> (r: bool)
    ensures
        r == uses_datagrams(cfg@.transport.protocol),
{
    match Protocol::parse(cfg.transport.protocol.as_str()) {
        Some(Protocol::Quic) | Some(Protocol::Kcp) => true,
        _ => false,
    }
}

/// What to tell the one who asked for a reload.
pub fn reload_result(reply: ReloadReply) -> (r: Result<ReloadOutcome, String>)
    ensures
        match reply {
            ReloadReply::Answered(result) => r == result,
            ReloadReply::NotTaken => r is Err && r->Err_0@ == "reload channel closed"@,
            ReloadReply::Dropped => r is Err && r->Err_0@ == "reload response channel closed"@,
            ReloadReply::TimedOut => r is Err && r->Err_0@ == "reload timed out after 120s"@,
        },
{
    match reply {
        ReloadReply::Answered(result) => result,
        ReloadReply::NotTaken => Err("reload channel closed".to_owned()),
        ReloadReply::Dropped => Err("reload response channel closed".to_owned()),
        ReloadReply::TimedOut => Err("reload timed out after 120s".to_owned()),
    }
}

/// The last lines of the log are the ones that are kept: the newest is always there,
/// and as long as none had to go, all are.
pub proof fn newest_lines_are_kept(logs: Seq<Seq<char>>, line: Seq<char>)
    ensures
        logged(logs, line).last() == line,
        logged(logs, line).len() <= MAX_PENDING_LOGS,
        logs.len() < MAX_PENDING_LOGS ==> logged(logs, line) == logs.push(line),
        logs.len() >= MAX_PENDING_LOGS ==> forall|i: int|
            0 <= i < MAX_PENDING_LOGS - 1 ==> logged(logs, line)[i] == #[trigger] logs[logs.len()
                - MAX_PENDING_LOGS + 1 + i],
{
}

/// Who remembers the generation misses no change of a single step: it differs
/// whenever the addresses do.
pub proof fn changed_remotes_change_the_generation(
    h: HandleView,
    name: Seq<char>,
    addr: Seq<char>,
)
    ensures
        h.with_remote(name, addr).remotes != h.remotes ==> h.with_remote(name, addr).generation
            != h.generation,
        h.without_remote(name).remotes != h.remotes ==> h.without_remote(name).generation
            != h.generation,
        h.without_remotes().generation != h.generation,
{
}

/// Noting an address twice, or closing a tunnel twice, is noticed once.
pub proof fn noting_again_changes_nothing(h: HandleView, name: Seq<char>, addr: Seq<char>)
    ensures
        h.with_remote(name, addr).with_remote(name, addr) == h.with_remote(name, addr),
        h.without_remote(name).without_remote(name) == h.without_remote(name),
{
}

} // verus!
