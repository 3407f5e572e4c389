//! A session of a client with its server.
use vstd::prelude::*;
use vstd::string::*;

use crate::client::changes::RegisterWatch;
use crate::client::service::ReaderEnd;
use crate::client::register::{remote_shown, tunnel_fault, tunnel_request, TunnelError, TunnelFault};
use crate::client::register::{build_new_tunnel_message, normalize_remote_addr, validate_tunnel};
use crate::config::client::{
    default_client_transport, ClientConfig, TransportConfig, TransportView, TunnelConfig,
};
use crate::msg::{
    Login, LoginResp, NewDataConn, NewTunnel, NewTunnelResp, NewTunnelView, StartDataConn,
};
use crate::names::{stands_at, NameMap};
use crate::text::{decimal, texts, trim};
use crate::text::{decimal_str, trim_str};

verus! {

/// A login that the server did not accept.
#[derive(Debug)]
pub struct LoginRejected {
    pub reason: String,
}

impl LoginRejected {
    pub fn message(&self) -> (r: String)
        ensures
            r@ == "login rejected: "@ + self.reason@,
    {
        "login rejected: ".to_owned().concat(self.reason.as_str())
    }
}

/// What a client knows of the machine that it runs on.
#[derive(Debug)]
pub struct Machine {
    pub version: String,
    pub hostname: String,
    pub os: String,
    pub arch: String,
}

/// The login of a client with its settings, on a machine, at a time; the digest
/// proves to the server that it knows the token.
pub fn login_request(
    cfg: &ClientConfig,
    machine: Machine,
    auth_digest: String,
    timestamp: i64,
    previous_session_id: String,
) -> (r: Login)
    ensures
        r.version@ == machine.version@,
        r.hostname@ == machine.hostname@,
        r.os@ == machine.os@,
        r.arch@ == machine.arch@,
        r.user@ == cfg.user@,
        r.agent_id@ == cfg.agent_id@,
        r.auth_digest@ == auth_digest@,
        r.timestamp == timestamp,
        r.session_id@ == previous_session_id@,
        r.pool_count == cfg.transport.pool_count,
{
    Login {
        version: machine.version,
        hostname: machine.hostname,
        os: machine.os,
        arch: machine.arch,
        user: cfg.user.clone(),
        agent_id: cfg.agent_id.clone(),
        auth_digest,
        timestamp,
        session_id: previous_session_id,
        pool_count: cfg.transport.pool_count,
    }
}

/// What a server says to a login.
#[derive(Debug)]
pub enum LoginAnswer {
    Resp(LoginResp),
    /// A message of another type.
    Other { type_byte: u8 },
}

/// Why a login brought no session.
#[derive(Debug)]
pub enum LoginError {
    Unexpected { type_byte: u8 },
    Rejected(LoginRejected),
}

impl LoginError {
    pub open spec fn text(&self) -> Seq<char> {
        match *self {
            LoginError::Unexpected { type_byte } => "expected LoginResp, got type "@ + decimal(
                type_byte as nat,
            ),
            LoginError::Rejected(r) => "login rejected: "@ + r.reason@,
        }
    }

    pub fn message(&self) -> (r: String)
        ensures
            r@ == self.text(),
    {
        match self {
            LoginError::Unexpected { type_byte } => "expected LoginResp, got type ".to_owned().concat(
                decimal_str(*type_byte as u64).as_str(),
            ),
            LoginError::Rejected(r) => r.message(),
        }
    }
}

/// The session that an answer to a login grants.
pub fn accept_login(answer: LoginAnswer) -> (r: Result<String, LoginError>)
    ensures
        match answer {
            LoginAnswer::Other { type_byte } => r == Err::<String, LoginError>(
                LoginError::Unexpected { type_byte },
            ),
            LoginAnswer::Resp(resp) => if resp.error@.len() > 0 {
                r matches Err(LoginError::Rejected(rej)) && rej.reason@ == resp.error@
            } else {
                r matches Ok(id) && id@ == resp.session_id@
            },
        },
{
    match answer {
        LoginAnswer::Other { type_byte } => Err(LoginError::Unexpected { type_byte }),
        LoginAnswer::Resp(resp) => if resp.error.as_str().is_empty() {
            Ok(resp.session_id)
        } else {
            Err(LoginError::Rejected(LoginRejected { reason: resp.error }))
        },
    }
}

/// The name of this machine, by what the system calls it and by what the environment
/// says: the system's name where it has one, else the first of the variables that is
/// set, and "unknown" where that is blank or none is.
pub open spec fn machine_name(system: Option<Seq<char>>, vars: Seq<Option<Seq<char>>>) -> Seq<
    char,
> {
    if system is Some && trim(system->0).len() > 0 {
        trim(system->0)
    } else {
        match first_set(vars) {
            Some(s) => if trim(s).len() > 0 {
                trim(s)
            } else {
                "unknown"@
            },
            None => "unknown"@,
        }
    }
}

/// The first of the variables that is set.
pub open spec fn first_set(vars: Seq<Option<Seq<char>>>) -> Option<Seq<char>>
    decreases vars.len(),
{
    if vars.len() == 0 {
        None
    } else if vars[0] is Some {
        vars[0]
    } else {
        first_set(vars.skip(1))
    }
}

pub open spec fn opt_texts(v: Seq<Option<String>>) -> Seq<Option<Seq<char>>> {
    Seq::new(
        v.len(),
        |i: int|
            match v[i] {
                Some(s) => Some(s@),
                None => None,
            },
    )
}

/// The name of this machine.
pub fn hostname(system: Option<String>, vars: &Vec<Option<String>>) -> (r: String)
    ensures
        r@ == machine_name(
            match system {
                Some(s) => Some(s@),
                None => None,
            },
            opt_texts(vars@),
        ),
{
    let ghost named = system is Some && trim(system->0@).len() > 0;
    match &system {
        Some(s) => {
            let t = trim_str(s.as_str());
            if !t.is_empty() {
                return t.to_owned();
            }
        },
        None => {},
    }
    let ghost all = opt_texts(vars@);
    let mut i: usize = 0;
    assert(all.skip(0) =~= all);
    while i < vars.len()
        invariant
            i <= vars@.len(),
            all == opt_texts(vars@),
            !named,
            named == (system is Some && trim(system->0@).len() > 0),
            first_set(all) == first_set(all.skip(i as int)),
        decreases vars@.len() - i,
    {
        match &vars[i] {
            Some(s) => {
                assert(all.skip(i as int)[0] == Some(s@));
                let t = trim_str(s.as_str());
                return if t.is_empty() {
                    "unknown".to_owned()
                } else {
                    t.to_owned()
                };
            },
            None => {
                assert(all.skip(i as int)[0] is None);
                assert(all.skip(i as int).skip(1) =~= all.skip(i + 1));
            },
        }
        i += 1;
    }
    "unknown".to_owned()
}

/// How often a client shows a sign of life, in seconds; none where not positive.
pub open spec fn ping_interval(t: TransportView) -> i64 {
    if t.heartbeat_interval > 0 {
        t.heartbeat_interval
    } else if t.tcp_mux && t.mux_keepalive_secs > 0 {
        t.mux_keepalive_secs
    } else {
        -1i64
    }
}

/// Three times a number of seconds, up to what fits.
pub open spec fn thrice(secs: i64) -> i64 {
    if 3 * secs > i64::MAX {
        i64::MAX
    } else {
        (3 * secs) as i64
    }
}

/// How long a client waits for an answer to its signs of life, in seconds; it waits
/// for none where not positive.
pub open spec fn pong_timeout(t: TransportView) -> i64 {
    if t.heartbeat_timeout > 0 {
        t.heartbeat_timeout
    } else if t.heartbeat_interval <= 0 && t.tcp_mux && t.mux_keepalive_secs > 0 {
        thrice(t.mux_keepalive_secs)
    } else {
        -1i64
    }
}

/// The settings of a transport, and the usual ones where they cannot be read now.
pub open spec fn transport_seen(t: Option<&TransportConfig>) -> TransportView {
    match t {
        Some(t) => t@,
        None => default_client_transport(),
    }
}

/// How often a client shows a sign of life.
pub fn effective_ping_interval(transport: Option<&TransportConfig>) -> (r: i64)
    ensures
        r == ping_interval(transport_seen(transport)),
{
    match transport {
        Some(t) => ping_interval_of(t),
        None => {
            let t = TransportConfig::default();
            ping_interval_of(&t)
        },
    }
}

fn ping_interval_of(t: &TransportConfig) -> (r: i64)
    ensures
        r == ping_interval(t@),
{
    if t.heartbeat_interval > 0 {
        t.heartbeat_interval
    } else if t.tcp_mux && t.mux_keepalive_secs > 0 {
        t.mux_keepalive_secs
    } else {
        -1
    }
}

/// Three times a number of seconds, up to what fits.
pub fn thrice_secs(secs: i64) -> (r: i64)
    requires
        secs > 0,
    ensures
        r == thrice(secs),
{
    if secs > i64::MAX / 3 {
        i64::MAX
    } else {
        secs * 3
    }
}

/// How long a client waits for an answer to its signs of life.
pub fn effective_pong_timeout(transport: Option<&TransportConfig>) -> (r: i64)
    ensures
        r == pong_timeout(transport_seen(transport)),
{
    match transport {
        Some(t) => pong_timeout_of(t),
        None => {
            let t = TransportConfig::default();
            pong_timeout_of(&t)
        },
    }
}

fn pong_timeout_of(t: &TransportConfig) -> (r: i64)
    ensures
        r == pong_timeout(t@),
{
    if t.heartbeat_timeout > 0 {
        t.heartbeat_timeout
    } else if t.heartbeat_interval <= 0 && t.tcp_mux && t.mux_keepalive_secs > 0 {
        thrice_secs(t.mux_keepalive_secs)
    } else {
        -1
    }
}

/// Whether too much time has passed since the last sign of life, in seconds since the
/// epoch; a time that is not positive is none.
pub open spec fn is_silent(last: i64, now: i64, timeout: i64) -> bool {
    last > 0 && now - last > timeout
}

/// Whether the other side counts as dead.
pub fn heartbeat_expired(last: i64, now: i64, timeout: i64) -> (r: bool)
    ensures
        r == is_silent(last, now, timeout),
{
    last > 0 && (now as i128) - (last as i128) > timeout as i128
}

/// Where answers are awaited, the wait is longer than the pause between the signs
/// that are answered.
pub proof fn silence_outlasts_the_pause(t: TransportView)
    requires
        t.heartbeat_timeout <= 0 || t.heartbeat_timeout > ping_interval(t),
    ensures
        pong_timeout(t) > 0 ==> pong_timeout(t) > ping_interval(t) || ping_interval(t) == i64::MAX,
{
}

/// What a server sends to a client in a session.
#[derive(Debug)]
pub enum ServerMessage {
    KickOut { reason: String },
    ReqDataConn,
    NewTunnelResp(NewTunnelResp),
    Pong,
    /// A message that is not meant for a client.
    Other { type_byte: u8 },
}

/// What a client does about a message.
#[derive(Debug)]
pub enum SessionAction {
    /// Leave the session: it was thrown out.
    Leave { reason: String },
    /// Open a connection for data.
    OpenDataConn,
    /// Tell where a tunnel can be reached.
    TunnelStarted { name: String, remote: String },
    /// Nothing beyond what was noted.
    Noted,
    Ignored,
}

/// A client in a session.
pub struct Control {
    session_id: String,
    tunnels: NameMap<()>,
    last_pong_unix: i64,
    register_watch: RegisterWatch,
}

/// What came of reading from the server.
#[derive(Debug)]
pub enum ReadOutcome {
    Message(ServerMessage),
    /// Nothing more can be read.
    Failed,
    /// The session is to end.
    Cancelled,
}

/// How reading goes on.
#[derive(Debug)]
pub enum ReaderStep {
    End(ReaderEnd),
    GoOn(SessionAction),
}

/// How a session takes in a message, and what it then does.
pub open spec fn message_taken(
    before: Control,
    after: Control,
    msg: ServerMessage,
    server: Seq<char>,
    now: i64,
    action: SessionAction,
) -> bool {
    &&& after.session() == before.session()
    &&& after.tunnels() == before.tunnels()
    &&& after.last_pong() == (if msg is Pong {
        now
    } else {
        before.last_pong()
    })
    &&& msg !is NewTunnelResp ==> after.watch() == before.watch()
    &&& match msg {
        ServerMessage::KickOut { reason } => action matches SessionAction::Leave { reason: told }
            && told@ == reason@,
        ServerMessage::ReqDataConn => action is OpenDataConn,
        ServerMessage::NewTunnelResp(resp) => {
            &&& after.watch().pending() == before.watch().pending().remove(resp.tunnel_name@)
            &&& if resp.error@.len() == 0 {
                &&& after.watch().errors() == before.watch().errors()
                &&& action matches SessionAction::TunnelStarted { name, remote } && name@
                    == resp.tunnel_name@ && remote@ == remote_shown(server, resp.remote_addr@)
            } else {
                &&& after.watch().errors() == before.watch().errors().insert(
                    resp.tunnel_name@,
                    resp.error@,
                )
                &&& action is Noted
            }
        },
        ServerMessage::Pong => action is Noted,
        ServerMessage::Other { .. } => action is Ignored,
    }
}

impl Control {
    pub closed spec fn session(&self) -> Seq<char> {
        self.session_id@
    }

    /// The tunnels that it serves.
    pub closed spec fn tunnels(&self) -> Set<Seq<char>> {
        self.tunnels@.dom()
    }

    /// When the server last answered a sign of life.
    pub closed spec fn last_pong(&self) -> i64 {
        self.last_pong_unix
    }

    pub closed spec fn watch(&self) -> RegisterWatch {
        self.register_watch
    }

    pub closed spec fn wf(&self) -> bool {
        self.tunnels.wf() && self.register_watch.wf()
    }

    /// A session that was just granted.
    pub fn new(session_id: String, now: i64) -> (r: Control)
        ensures
            r.wf(),
            r.session() == session_id@,
            r.tunnels() == Set::<Seq<char>>::empty(),
            r.last_pong() == now,
            r.watch().pending() == Set::<Seq<char>>::empty(),
            r.watch().errors() == Map::<Seq<char>, Seq<char>>::empty(),
    {
        let r = Control {
            session_id,
            tunnels: NameMap::new(),
            last_pong_unix: now,
            register_watch: RegisterWatch::new(),
        };
        assert(r.tunnels() =~= Set::empty());
        r
    }

    pub fn session_id(&self) -> (r: &String)
        ensures
            r@ == self.session(),
    {
        &self.session_id
    }

    /// Takes in a message of the server at the time `now`.
    pub fn on_message(&mut self, msg: ServerMessage, server: &str, now: i64) -> (r: SessionAction)
        requires
            old(self).wf(),
        ensures
            final(self).wf(),
            message_taken(*old(self), *final(self), msg, server@, now, r),
    {
        match msg {
            ServerMessage::KickOut { reason } => SessionAction::Leave { reason },
            ServerMessage::ReqDataConn => SessionAction::OpenDataConn,
            ServerMessage::NewTunnelResp(resp) => {
                if resp.error.as_str().is_empty() {
                    self.register_watch.finish(resp.tunnel_name.as_str(), None);
                    let remote = normalize_remote_addr(server, resp.remote_addr.as_str());
                    SessionAction::TunnelStarted { name: resp.tunnel_name, remote }
                } else {
                    self.register_watch.finish(resp.tunnel_name.as_str(), Some(resp.error));
                    SessionAction::Noted
                }
            },
            ServerMessage::Pong => {
                self.last_pong_unix = now;
                SessionAction::Noted
            },
            ServerMessage::Other { .. } => SessionAction::Ignored,
        }
    }

    /// Takes in what came of reading from the server at the time `now`: whether the
    /// session goes on, and with what.
    pub fn on_read(&mut self, read: ReadOutcome, server: &str, now: i64) -> (r: ReaderStep)
        requires
            old(self).wf(),
        ensures
            final(self).wf(),
            match (read, r) {
                (ReadOutcome::Failed, ReaderStep::End(end)) => end is Closed && *final(self)
                    == *old(self),
                (ReadOutcome::Cancelled, ReaderStep::End(end)) => end is Closed && *final(self)
                    == *old(self),
                (ReadOutcome::Message(msg), ReaderStep::End(end)) => end matches ReaderEnd::Kicked(
                    reason,
                ) && msg is KickOut && message_taken(
                    *old(self),
                    *final(self),
                    msg,
                    server@,
                    now,
                    SessionAction::Leave { reason },
                ),
                (ReadOutcome::Message(msg), ReaderStep::GoOn(action)) => msg !is KickOut
                    && message_taken(*old(self), *final(self), msg, server@, now, action),
                _ => false,
            },
    {
        let msg = match read {
            ReadOutcome::Message(msg) => msg,
            ReadOutcome::Failed => {
                return ReaderStep::End(ReaderEnd::Closed);
            },
            ReadOutcome::Cancelled => {
                return ReaderStep::End(ReaderEnd::Closed);
            },
        };
        match self.on_message(msg, server, now) {
            SessionAction::Leave { reason } => ReaderStep::End(ReaderEnd::Kicked(reason)),
            action => ReaderStep::GoOn(action),
        }
    }

    /// Prepares to ask for a tunnel that is checked here; with `watched`, its start is
    /// followed. A tunnel that fails the check changes nothing.
    pub fn register_tunnel(&mut self, tunnel: &TunnelConfig, watched: bool) -> (r: Result<
        NewTunnel,
        TunnelError,
    >)
        requires
            old(self).wf(),
        ensures
            final(self).wf(),
            final(self).session() == old(self).session(),
            final(self).last_pong() == old(self).last_pong(),
            match r {
                Ok(m) => {
                    &&& tunnel_fault(tunnel@) is None
                    &&& tunnel_request(tunnel@) == Ok::<NewTunnelView, TunnelFault>(m@)
                    &&& final(self).tunnels() == old(self).tunnels().insert(tunnel.name@)
                    &&& final(self).watch().pending() == (if watched {
                        old(self).watch().pending().insert(tunnel.name@)
                    } else {
                        old(self).watch().pending()
                    })
                    &&& final(self).watch().errors() == (if watched {
                        old(self).watch().errors().remove(tunnel.name@)
                    } else {
                        old(self).watch().errors()
                    })
                },
                Err(e) => {
                    &&& tunnel_fault(tunnel@) == Some(e@)
                    &&& *final(self) == *old(self)
                },
            },
    {
        match validate_tunnel(tunnel) {
            Ok(_) => {},
            Err(e) => {
                return Err(e);
            },
        }
        let m = match build_new_tunnel_message(tunnel) {
            Ok(m) => m,
            Err(e) => {
                return Err(e);
            },
        };
        let ghost before = self.tunnels();
        self.tunnels.insert(tunnel.name.clone(), ());
        assert(self.tunnels() =~= before.insert(tunnel.name@));
        if watched {
            self.register_watch.begin(tunnel.name.as_str());
        }
        Ok(m)
    }

    /// Prepares to ask for the tunnels of the settings, one after the other: the
    /// requests up to the first tunnel that fails its check, and what is wrong with
    /// that one.
    pub fn register_all_tunnels(&mut self, tunnels: &Vec<TunnelConfig>) -> (r: (
        Vec<NewTunnel>,
        Option<TunnelError>,
    ))
        requires
            old(self).wf(),
        ensures
            final(self).wf(),
            final(self).session() == old(self).session(),
            final(self).last_pong() == old(self).last_pong(),
            final(self).watch().pending() == old(self).watch().pending(),
            final(self).watch().errors() == old(self).watch().errors(),
            r.0@.len() <= tunnels@.len(),
            forall|i: int|
                0 <= i < r.0@.len() ==> asks_for(#[trigger] r.0@[i], tunnels@[i]),
            match r.1 {
                Some(e) => r.0@.len() < tunnels@.len() && tunnel_fault(
                    tunnels@[r.0@.len() as int]@,
                ) == Some(e@),
                None => r.0@.len() == tunnels@.len(),
            },
            final(self).tunnels() == old(self).tunnels().union(
                named(tunnels@.take(r.0@.len() as int)),
            ),
    {
        let ghost before = self.tunnels();
        let mut out: Vec<NewTunnel> = Vec::new();
        let n: usize = tunnels.len();
        let mut i: usize = 0;
        assert(before.union(named(tunnels@.take(0))) =~= before);
        while i < n
            invariant
                i <= n,
                n == tunnels@.len(),
                self.wf(),
                self.session() == old(self).session(),
                self.last_pong() == old(self).last_pong(),
                self.watch().pending() == old(self).watch().pending(),
                self.watch().errors() == old(self).watch().errors(),
                out@.len() == i,
                forall|j: int|
                    0 <= j < i ==> asks_for(#[trigger] out@[j], tunnels@[j]),
                before == old(self).tunnels(),
                self.tunnels() == before.union(named(tunnels@.take(i as int))),
            decreases n - i,
        {
            match self.register_tunnel(&tunnels[i], false) {
                Ok(m) => {
                    out.push(m);
                },
                Err(e) => {
                    return (out, Some(e));
                },
            }
            proof {
                lemma_named_grows(tunnels@, i as int);
                assert(self.tunnels() =~= before.union(named(tunnels@.take(i + 1))));
            }
            i += 1;
        }
        (out, None)
    }

    /// Forgets a tunnel once the server was told that it is given up.
    pub fn tunnel_closed(&mut self, name: &str)
        requires
            old(self).wf(),
        ensures
            final(self).wf(),
            final(self).session() == old(self).session(),
            final(self).last_pong() == old(self).last_pong(),
            final(self).watch() == old(self).watch(),
            final(self).tunnels() == old(self).tunnels().remove(name@),
    {
        let ghost before = self.tunnels();
        self.tunnels.remove(name);
        assert(self.tunnels() =~= before.remove(name@));
    }

    /// The tunnels to give up when all are.
    pub fn tunnel_names(&self) -> (r: Vec<String>)
        requires
            self.wf(),
        ensures
            texts(r@).no_duplicates(),
            texts(r@).to_set() == self.tunnels(),
    {
        let n: usize = self.tunnels.len();
        let mut out: Vec<String> = Vec::new();
        let mut i: usize = 0;
        while i < n
            invariant
                i <= n,
                n == self.tunnels.list().len(),
                out@.len() == i,
                forall|j: int| 0 <= j < i ==> (#[trigger] out@[j])@ == self.tunnels.list()[j].0@,
            decreases n - i,
        {
            out.push(self.tunnels.at(i).0.clone());
            i += 1;
        }
        proof {
            let all = texts(out@);
            let list = self.tunnels.list();
            assert forall|a: int, b: int| 0 <= a < all.len() && 0 <= b < all.len() && a
                != b implies all[a] != all[b] by {
                assert(all[a] == list[a].0@);
                assert(all[b] == list[b].0@);
            }
            assert forall|x: Seq<char>| #[trigger] all.to_set().contains(x)
                == self.tunnels().contains(x) by {
                if all.contains(x) {
                    let k = all.index_of(x);
                    self.tunnels.lemma_at(k);
                    assert(all[k] == list[k].0@);
                }
                if self.tunnels@.dom().contains(x) {
                    let k = choose|k: int| stands_at(list, x, k);
                    assert(all[k] == x);
                }
            }
            assert(all.to_set() =~= self.tunnels());
        }
        out
    }

    /// What is known of tunnels whose start is followed.
    pub fn register_watch(&self) -> (r: &RegisterWatch)
        requires
            self.wf(),
        ensures
            *r == self.watch(),
            r.wf(),
    {
        &self.register_watch
    }

    /// Whether the server counts as dead.
    pub fn is_silent(&self, now: i64, timeout: i64) -> (r: bool)
        ensures
            r == is_silent(self.last_pong(), now, timeout),
    {
        heartbeat_expired(self.last_pong_unix, now, timeout)
    }

    /// The offer of a connection for data.
    pub fn new_data_conn(&self, auth_digest: String, timestamp: i64) -> (r: NewDataConn)
        ensures
            r.session_id@ == self.session(),
            r.auth_digest@ == auth_digest@,
            r.timestamp == timestamp,
    {
        NewDataConn { session_id: self.session_id.clone(), auth_digest, timestamp }
    }
}

/// Whether a request is the one for a tunnel that passes its check.
pub open spec fn asks_for(m: NewTunnel, t: TunnelConfig) -> bool {
    tunnel_fault(t@) is None && tunnel_request(t@) == Ok::<NewTunnelView, TunnelFault>(m@)
}

/// The names of tunnels.
pub open spec fn named(tunnels: Seq<TunnelConfig>) -> Set<Seq<char>> {
    Set::new(|name: Seq<char>| exists|i: int| bears_name(tunnels, name, i))
}

pub open spec fn bears_name(tunnels: Seq<TunnelConfig>, name: Seq<char>, i: int) -> bool {
    0 <= i < tunnels.len() && tunnels[i].name@ == name
}

proof fn lemma_named_grows(tunnels: Seq<TunnelConfig>, i: int)
    requires
        0 <= i < tunnels.len(),
    ensures
        named(tunnels.take(i + 1)) == named(tunnels.take(i)).insert(tunnels[i].name@),
{
    let a = tunnels.take(i);
    let b = tunnels.take(i + 1);
    assert forall|name: Seq<char>| #[trigger] named(b).contains(name) == named(a).insert(
        tunnels[i].name@,
    ).contains(name) by {
        if named(b).contains(name) {
            let k = choose|k: int| bears_name(b, name, k);
            if k < i {
                assert(bears_name(a, name, k));
            }
        }
        if named(a).contains(name) {
            let k = choose|k: int| bears_name(a, name, k);
            assert(bears_name(b, name, k));
        }
        assert(bears_name(b, tunnels[i].name@, i));
    }
    assert(named(b) =~= named(a).insert(tunnels[i].name@));
}

/// What a server says to the offer of a connection for data.
#[derive(Debug)]
pub enum DataConnAnswer {
    Start(StartDataConn),
    /// A message of another type.
    Other { type_byte: u8 },
}

/// Why a connection for data is not used.
#[derive(Debug)]
pub enum DataConnError {
    Unexpected { type_byte: u8 },
    Refused { error: String },
}

impl DataConnError {
    pub open spec fn text(&self) -> Seq<char> {
        match *self {
            DataConnError::Unexpected { type_byte } => "expected StartDataConn, got "@ + decimal(
                type_byte as nat,
            ),
            DataConnError::Refused { error } => "StartDataConn error: "@ + error@,
        }
    }

    pub fn message(&self) -> (r: String)
        ensures
            r@ == self.text(),
    {
        match self {
            DataConnError::Unexpected { type_byte } => "expected StartDataConn, got ".to_owned().concat(
                decimal_str(*type_byte as u64).as_str(),
            ),
            DataConnError::Refused { error } => "StartDataConn error: ".to_owned().concat(
                error.as_str(),
            ),
        }
    }
}

/// Whether a connection for data is taken into use, and for what.
pub fn accept_data_conn(answer: DataConnAnswer) -> (r: Result<StartDataConn, DataConnError>)
    ensures
        match answer {
            DataConnAnswer::Other { type_byte } => r == Err::<StartDataConn, DataConnError>(
                DataConnError::Unexpected { type_byte },
            ),
            DataConnAnswer::Start(start) => if start.error@.len() > 0 {
                r matches Err(DataConnError::Refused { error }) && error@ == start.error@
            } else {
                r == Ok::<StartDataConn, DataConnError>(start)
            },
        },
{
    match answer {
        DataConnAnswer::Other { type_byte } => Err(DataConnError::Unexpected { type_byte }),
        DataConnAnswer::Start(start) => if start.error.as_str().is_empty() {
            Ok(start)
        } else {
            Err(DataConnError::Refused { error: start.error })
        },
    }
}

} // verus!
