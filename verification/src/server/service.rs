//! The sessions of a server: who is online, who may come and who must go.
use vstd::prelude::*;
use vstd::string::*;

use crate::client::handle::text_of;
use crate::config::host_port::{host_port, join_host_port, joined, HostPortError};
use crate::config::server::{ServerConfig, DEFAULT_LISTEN_PORT};
use crate::msg::{Login, NewDataConn};
use crate::names::NameMap;
use crate::server::control::{ClientIdentity, Control, ControlView};
use crate::server::register::{Gateways, OwnerView};
use crate::text::is_blank;
use crate::text::is_blank_str;

verus! {

/// How many characters a session that the server names has.
pub const SESSION_ID_LEN: usize = 16;

/// Whether a character is a hexadecimal digit in lower case.
pub open spec fn is_hex(c: char) -> bool {
    '0' <= c <= '9' || 'a' <= c <= 'f'
}

/// Calls `uuid::Uuid::new_v4` and writes it in the format `simple`: thirty-two
/// hexadecimal digits in lower case, of which the thirteenth tells that the others
/// are random. Which they are is left to chance.
#[verifier::external_body]
fn random_uuid() -> (r: String)
    ensures
        r@.len() == 32,
        forall|i: int| 0 <= i < 32 ==> is_hex(#[trigger] r@[i]),
        r@[12] == '4',
{
    uuid::Uuid::new_v4().simple().to_string()
}

/// Whether a text is one that the server names sessions with.
pub open spec fn is_session_id(s: Seq<char>) -> bool {
    &&& s.len() == SESSION_ID_LEN
    &&& forall|i: int| 0 <= i < s.len() ==> is_hex(#[trigger] s[i])
}

/// The name for a new session that is cut off the digits of a drawn identifier.
pub fn session_id_of(hex: &str) -> (r: String)
    requires
        hex@.len() >= SESSION_ID_LEN,
    ensures
        r@ == hex@.take(SESSION_ID_LEN as int),
{
    let head = hex.substring_char(0, SESSION_ID_LEN);
    assert(head@ =~= hex@.take(SESSION_ID_LEN as int));
    head.to_owned()
}

/// A name for a new session.
pub fn short_session_id() -> (r: String)
    ensures
        is_session_id(r@),
        r@[12] == '4',
{
    let hex = random_uuid();
    let r = session_id_of(hex.as_str());
    assert forall|i: int| 0 <= i < r@.len() implies is_hex(#[trigger] r@[i]) by {
        assert(r@[i] == hex@[i]);
    }
    r
}

/// Which session a client takes up: none where it names none, or where nothing is
/// left of the name that it gives once that is cleaned; a name that cannot be cleaned
/// is refused.
pub open spec fn session_taken_up(raw: Seq<char>, cleaned: Result<Seq<char>, Seq<char>>) -> Result<
    Option<Seq<char>>,
    Seq<char>,
> {
    if is_blank(raw) {
        Ok(None)
    } else {
        match cleaned {
            Ok(id) => if id.len() > 0 {
                Ok(Some(id))
            } else {
                Ok(None)
            },
            Err(e) => Err(e),
        }
    }
}

pub open spec fn result_view(r: Result<String, String>) -> Result<Seq<char>, Seq<char>> {
    match r {
        Ok(s) => Ok(s@),
        Err(e) => Err(e@),
    }
}

/// The session of a client: the one that it takes up, or a new one.
pub fn choose_session_id(raw: &str, cleaned: Result<String, String>) -> (r: Result<String, String>)
    ensures
        match session_taken_up(raw@, result_view(cleaned)) {
            Ok(Some(id)) => r matches Ok(s) && s@ == id,
            Ok(None) => r matches Ok(s) && is_session_id(s@),
            Err(e) => r matches Err(s) && s@ == e,
        },
{
    if is_blank_str(raw) {
        return Ok(short_session_id());
    }
    match cleaned {
        Ok(id) => if id.as_str().is_empty() {
            Ok(short_session_id())
        } else {
            Ok(id)
        },
        Err(e) => Err(e),
    }
}

/// How many connections for data a client gets ahead: as many as it asks for, up to
/// what the server allows; what is negative counts as nothing.
pub open spec fn pool_size(asked: i32, allowed: i64) -> int {
    let a = if asked < 0 {
        0
    } else {
        asked as int
    };
    let m = if allowed < 0 {
        0
    } else {
        allowed as int
    };
    if a < m {
        a
    } else {
        m
    }
}

pub fn pool_count(asked: i32, allowed: i64) -> (r: usize)
    ensures
        r == pool_size(asked, allowed),
{
    if asked <= 0 || allowed <= 0 {
        0
    } else if (asked as i64) < allowed {
        asked as usize
    } else {
        allowed as i32 as usize
    }
}

/// Why a client was not let in.
#[derive(Debug)]
pub enum LoginRefusal {
    Unauthorized,
    /// One of the names that it gave cannot be used.
    BadName { error: String },
}

impl LoginRefusal {
    pub open spec fn text(&self) -> Seq<char> {
        match *self {
            LoginRefusal::Unauthorized => "authorization failed"@,
            LoginRefusal::BadName { error } => error@,
        }
    }

    pub fn message(&self) -> (r: String)
        ensures
            r@ == self.text(),
    {
        match self {
            LoginRefusal::Unauthorized => "authorization failed".to_owned(),
            LoginRefusal::BadName { error } => error.clone(),
        }
    }
}

/// The names that a client gave, once each was cleaned or refused.
#[derive(Debug)]
pub struct CleanedNames {
    pub user: Result<String, String>,
    pub agent_id: Result<String, String>,
    pub session_id: Result<String, String>,
}

/// What is wrong with a login: a wrong token first, then the first of its names that
/// cannot be used.
pub open spec fn login_fault(login: Login, authorized: bool, names: CleanedNames) -> Option<
    Seq<char>,
> {
    if !authorized {
        Some("authorization failed"@)
    } else {
        match (
            names.user,
            names.agent_id,
            session_taken_up(login.session_id@, result_view(names.session_id)),
        ) {
            (Err(e), _, _) => Some(e@),
            (_, Err(e), _) => Some(e@),
            (_, _, Err(e)) => Some(e),
            _ => None,
        }
    }
}

/// The sessions that are online, each with the generation in which it was begun.
pub struct SessionTable {
    controls: NameMap<u64>,
    next_generation: u64,
}

#[verifier::ext_equal]
pub struct TableView {
    pub online: Map<Seq<char>, u64>,
    pub next: u64,
}

impl View for SessionTable {
    type V = TableView;

    closed spec fn view(&self) -> TableView {
        TableView { online: self.controls@, next: self.next_generation }
    }
}

impl TableView {
    /// The table without a session, unless a newer one took its place.
    pub open spec fn without(self, session_id: Seq<char>, generation: u64) -> TableView {
        if self.online.dom().contains(session_id) && self.online[session_id] == generation {
            TableView { online: self.online.remove(session_id), ..self }
        } else {
            self
        }
    }

    /// The session that is online under a name.
    pub open spec fn current(self, session_id: Seq<char>) -> Option<u64> {
        if self.online.dom().contains(session_id) {
            Some(self.online[session_id])
        } else {
            None
        }
    }

    /// The table with a new session, in place of the one of the same name.
    pub open spec fn with(self, session_id: Seq<char>) -> TableView {
        TableView {
            online: self.online.insert(session_id, self.next),
            next: if self.next == u64::MAX {
                0
            } else {
                (self.next + 1) as u64
            },
        }
    }
}

/// A session that was let in, and the generation of the one whose place it takes.
pub struct Admitted {
    pub control: Control,
    pub replaced: Option<u64>,
}

/// What else is to be told when a session is gone: the agent that it had and how many
/// tunnels were left.
#[derive(Debug)]
pub struct AgentRelease {
    pub session_id: String,
    pub generation: u64,
    pub tunnel_count: usize,
}

/// A client that is not online.
#[derive(Debug)]
pub struct NotOnline {
    pub session_id: String,
}

impl NotOnline {
    pub fn message(&self) -> (r: String)
        ensures
            r@ == "client not online: "@ + self.session_id@,
    {
        "client not online: ".to_owned().concat(self.session_id.as_str())
    }
}

impl SessionTable {
    pub closed spec fn wf(&self) -> bool {
        self.controls.wf()
    }

    pub fn new() -> (r: SessionTable)
        ensures
            r.wf(),
            r@ == (TableView { online: Map::empty(), next: 1 }),
    {
        SessionTable { controls: NameMap::new(), next_generation: 1 }
    }

    /// The generation in which the session that is online was begun.
    pub fn current(&self, session_id: &str) -> (r: Option<u64>)
        requires
            self.wf(),
        ensures
            r == self@.current(session_id@),
    {
        match self.controls.get(session_id) {
            Some(g) => Some(*g),
            None => None,
        }
    }

    /// Takes a session out, unless a newer one took its place.
    pub fn remove_if_current(&mut self, session_id: &str, generation: u64)
        requires
            old(self).wf(),
        ensures
            final(self).wf(),
            final(self)@ == old(self)@.without(session_id@, generation),
    {
        let ghost before = self@;
        match self.current(session_id) {
            Some(g) => {
                if g == generation {
                    self.controls.remove(session_id);
                    assert(self@ =~= before.without(session_id@, generation));
                }
            },
            None => {},
        }
    }

    /// Puts a new session in, in place of the one of the same name; tells the
    /// generations of both.
    pub fn swap_in(&mut self, session_id: &str) -> (r: (u64, Option<u64>))
        requires
            old(self).wf(),
        ensures
            final(self).wf(),
            final(self)@ == old(self)@.with(session_id@),
            r.0 == old(self)@.next,
            r.1 == old(self)@.current(session_id@),
    {
        let ghost before = self@;
        let previous = self.current(session_id);
        let generation: u64 = self.next_generation;
        self.controls.insert(session_id.to_owned(), generation);
        self.next_generation = generation.wrapping_add(1);
        assert(self@ =~= before.with(session_id@));
        (generation, previous)
    }

    /// Lets a client in at the time `now`, or tells why not; a session of the same
    /// name has to end first.
    pub fn register_control(
        &mut self,
        login: Login,
        authorized: bool,
        names: CleanedNames,
        max_conn_pool: i64,
        client_ip: String,
        now: i64,
    ) -> (r: Result<Admitted, LoginRefusal>)
        requires
            old(self).wf(),
        ensures
            final(self).wf(),
            match r {
                Err(e) => {
                    &&& login_fault(login, authorized, names) == Some(e.text())
                    &&& final(self)@ == old(self)@
                },
                Ok(admitted) => {
                    let id = admitted.control@.owner.session_id;
                    &&& login_fault(login, authorized, names) is None
                    &&& match session_taken_up(login.session_id@, result_view(names.session_id)) {
                        Ok(Some(s)) => id == s,
                        _ => is_session_id(id),
                    }
                    &&& final(self)@ == old(self)@.with(id)
                    &&& admitted.replaced == old(self)@.current(id)
                    &&& admitted.control.wf()
                    &&& admitted.control.names() == Seq::<Seq<char>>::empty()
                    &&& admitted.control@ == (ControlView {
                        owner: OwnerView { session_id: id, generation: old(self)@.next },
                        who: admitted.control@.who,
                        tunnels: Map::empty(),
                        pool_count: if pool_size(login.pool_count, max_conn_pool) == 0 {
                            1
                        } else {
                            pool_size(login.pool_count, max_conn_pool) as usize
                        },
                        last_ping: now,
                        activated: false,
                        closed: false,
                        cleaning: false,
                        finished: false,
                    })
                    &&& admitted.control@.who == (ClientIdentity {
                        user: names.user->Ok_0,
                        agent_id: names.agent_id->Ok_0,
                        hostname: login.hostname,
                        os: login.os,
                        arch: login.arch,
                        version: login.version,
                        client_ip,
                    })
                },
            },
    {
        if !authorized {
            return Err(LoginRefusal::Unauthorized);
        }
        let user = match names.user {
            Ok(u) => u,
            Err(error) => {
                return Err(LoginRefusal::BadName { error });
            },
        };
        let agent_id = match names.agent_id {
            Ok(a) => a,
            Err(error) => {
                return Err(LoginRefusal::BadName { error });
            },
        };
        let session_id = match choose_session_id(login.session_id.as_str(), names.session_id) {
            Ok(s) => s,
            Err(error) => {
                return Err(LoginRefusal::BadName { error });
            },
        };
        let pool = pool_count(login.pool_count, max_conn_pool);
        let (generation, replaced) = self.swap_in(session_id.as_str());
        let identity = ClientIdentity {
            user,
            agent_id,
            hostname: login.hostname,
            os: login.os,
            arch: login.arch,
            version: login.version,
            client_ip,
        };
        let control = Control::new(session_id, generation, pool, identity, now);
        Ok(Admitted { control, replaced })
    }

    /// Goes on when it is known whether another session has the agent of this one: if
    /// so, this one goes, and its client is told why.
    pub fn agent_online(&mut self, control: &Control, conflict: bool) -> (r: Result<(), String>)
        requires
            old(self).wf(),
        ensures
            final(self).wf(),
            if conflict {
                &&& final(self)@ == old(self)@.without(
                    control@.owner.session_id,
                    control@.owner.generation,
                )
                &&& r matches Err(e) && e@ == "agent_id ["@ + control@.who.agent_id@
                    + "] for user ["@ + control@.who.user@ + "] is already online"@
            } else {
                final(self)@ == old(self)@ && r is Ok
            },
    {
        if !conflict {
            return Ok(());
        }
        self.remove_if_current(control.session_id().as_str(), control.generation());
        Err(
            "agent_id [".to_owned().concat(control.identity().agent_id.as_str()).concat(
                "] for user [",
            ).concat(control.identity().user.as_str()).concat("] is already online"),
        )
    }

    /// Goes on when it is known whether the client could be told that it was let in:
    /// if so, the session takes connections; if not, it goes.
    pub fn login_sent(&mut self, control: &mut Control, sent: bool) -> (r: Option<AgentRelease>)
        requires
            old(self).wf(),
            old(control).wf(),
        ensures
            final(self).wf(),
            final(control).wf(),
            final(control).names() == old(control).names(),
            if sent {
                &&& r is None
                &&& final(self)@ == old(self)@
                &&& final(control)@ == (ControlView { activated: true, ..old(control)@ })
            } else {
                &&& final(self)@ == old(self)@.without(
                    old(control)@.owner.session_id,
                    old(control)@.owner.generation,
                )
                &&& final(control)@ == old(control)@
                &&& r matches Some(a) && a.session_id@ == old(control)@.owner.session_id
                    && a.generation == old(control)@.owner.generation && a.tunnel_count == 0
            },
    {
        if sent {
            control.activate();
            return None;
        }
        self.remove_if_current(control.session_id().as_str(), control.generation());
        Some(
            AgentRelease {
                session_id: control.session_id().clone(),
                generation: control.generation(),
                tunnel_count: 0,
            },
        )
    }

    /// Lets a session go that is over.
    pub fn session_over(&mut self, control: &Control) -> (r: AgentRelease)
        requires
            old(self).wf(),
        ensures
            final(self).wf(),
            final(self)@ == old(self)@.without(
                control@.owner.session_id,
                control@.owner.generation,
            ),
            r.session_id@ == control@.owner.session_id,
            r.generation == control@.owner.generation,
            r.tunnel_count == control.names().len(),
    {
        let release = AgentRelease {
            session_id: control.session_id().clone(),
            generation: control.generation(),
            tunnel_count: control.tunnel_count(),
        };
        self.remove_if_current(control.session_id().as_str(), control.generation());
        release
    }

    /// The session to throw out, by the name that it is online under.
    pub fn find_client(&self, session_id: &str) -> (r: Result<u64, NotOnline>)
        requires
            self.wf(),
        ensures
            match r {
                Ok(g) => self@.current(session_id@) == Some(g),
                Err(e) => self@.current(session_id@) is None && e.session_id@ == session_id@,
            },
    {
        match self.current(session_id) {
            Some(g) => Ok(g),
            None => Err(NotOnline { session_id: session_id.to_owned() }),
        }
    }

    /// Whether the session to throw out is still the one that was found.
    pub fn still_online(&self, session_id: &str, generation: u64) -> (r: Result<(), NotOnline>)
        requires
            self.wf(),
        ensures
            match r {
                Ok(_) => self@.current(session_id@) == Some(generation),
                Err(e) => self@.current(session_id@) != Some(generation) && e.session_id@
                    == session_id@,
            },
    {
        match self.current(session_id) {
            Some(g) => {
                if g == generation {
                    return Ok(());
                }
            },
            None => {},
        }
        Err(NotOnline { session_id: session_id.to_owned() })
    }
}

/// Why a connection for data was not taken.
#[derive(Debug)]
pub enum DataConnRefusal {
    NoSession,
    Unauthorized { session_id: String },
    NotAccepting { session_id: String },
}

impl DataConnRefusal {
    pub open spec fn text(&self) -> Seq<char> {
        match *self {
            DataConnRefusal::NoSession => "empty session_id for data conn"@,
            DataConnRefusal::Unauthorized { session_id } => {
                "data conn auth failed for session_id="@ + session_id@
            },
            DataConnRefusal::NotAccepting { session_id } => {
                "no accepting control for data conn session_id="@ + session_id@
            },
        }
    }

    pub fn message(&self) -> (r: String)
        ensures
            r@ == self.text(),
    {
        match self {
            DataConnRefusal::NoSession => "empty session_id for data conn".to_owned(),
            DataConnRefusal::Unauthorized { session_id } => {
                "data conn auth failed for session_id=".to_owned().concat(session_id.as_str())
            },
            DataConnRefusal::NotAccepting { session_id } => {
                "no accepting control for data conn session_id=".to_owned().concat(
                    session_id.as_str(),
                )
            },
        }
    }
}

/// Whether a connection for data is taken: it names a session, its client knows the
/// token, and the session takes connections.
pub fn register_data_conn(nw: &NewDataConn, authorized: bool, accepting: bool) -> (r: Result<
    (),
    DataConnRefusal,
>)
    ensures
        match r {
            Ok(_) => !is_blank(nw.session_id@) && authorized && accepting,
            Err(DataConnRefusal::NoSession) => is_blank(nw.session_id@),
            Err(DataConnRefusal::Unauthorized { session_id }) => {
                &&& !is_blank(nw.session_id@) && !authorized
                &&& session_id@ == nw.session_id@
            },
            Err(DataConnRefusal::NotAccepting { session_id }) => {
                &&& !is_blank(nw.session_id@) && authorized && !accepting
                &&& session_id@ == nw.session_id@
            },
        },
{
    if is_blank_str(nw.session_id.as_str()) {
        return Err(DataConnRefusal::NoSession);
    }
    if !authorized {
        return Err(DataConnRefusal::Unauthorized { session_id: nw.session_id.clone() });
    }
    if !accepting {
        return Err(DataConnRefusal::NotAccepting { session_id: nw.session_id.clone() });
    }
    Ok(())
}

/// Where a server listens: addresses as text, and ports where an address is given
/// elsewhere.
#[derive(Debug)]
pub struct ListenerPlan {
    pub tcp: String,
    pub gateways: Gateways,
    pub gateway_addr: String,
    pub quic: Option<String>,
    pub kcp: Option<String>,
    pub dashboard: bool,
}

/// The gateways that a server has.
pub fn gateways(cfg: &ServerConfig) -> (r: Gateways)
    ensures
        r.http == (if cfg.http_gw_port != 0 {
            Some(cfg.http_gw_port)
        } else {
            None
        }),
        r.https == (if cfg.https_gw_port != 0 {
            Some(cfg.https_gw_port)
        } else {
            None
        }),
{
    Gateways {
        http: if cfg.http_gw_enabled() {
            Some(cfg.http_gw_port)
        } else {
            None
        },
        https: if cfg.https_gw_enabled() {
            Some(cfg.https_gw_port)
        } else {
            None
        },
    }
}

/// Plans where a server listens, by its settings.
pub fn listener_plan(cfg: &ServerConfig) -> (r: Result<ListenerPlan, HostPortError>)
    ensures
        match (r, host_port(cfg.listen@, DEFAULT_LISTEN_PORT)) {
            (Ok(p), Ok((host, _))) => {
                &&& p.tcp@ == cfg.listen@
                &&& p.gateways.http == (if cfg.http_gw_port != 0 {
                    Some(cfg.http_gw_port)
                } else {
                    None
                })
                &&& p.gateways.https == (if cfg.https_gw_port != 0 {
                    Some(cfg.https_gw_port)
                } else {
                    None
                })
                &&& p.gateway_addr@ == cfg.proxy_addr@
                &&& text_of(p.quic) == (if cfg.quic_port != 0 {
                    Some(joined(host, cfg.quic_port))
                } else {
                    None
                })
                &&& text_of(p.kcp) == (if cfg.kcp_port != 0 {
                    Some(joined(host, cfg.kcp_port))
                } else {
                    None
                })
                &&& p.dashboard == (cfg.dashboard.port != 0)
            },
            (Err(e), Err(fault)) => e.fault == fault && e.raw@ == cfg.listen@,
            _ => false,
        },
{
    let host = match cfg.listen_host() {
        Ok(h) => h,
        Err(e) => {
            return Err(e);
        },
    };
    Ok(
        ListenerPlan {
            tcp: cfg.listen.clone(),
            gateways: gateways(cfg),
            gateway_addr: cfg.proxy_addr.clone(),
            quic: if cfg.quic_enabled() {
                Some(join_host_port(host.as_str(), cfg.quic_port))
            } else {
                None
            },
            kcp: if cfg.kcp_enabled() {
                Some(join_host_port(host.as_str(), cfg.kcp_port))
            } else {
                None
            },
            dashboard: cfg.dashboard.enabled(),
        },
    )
}

/// How the first listener of a server ended.
#[derive(Debug)]
pub enum ListenerEnd {
    Ended(Result<(), String>),
    Cancelled,
    /// It broke down.
    Broken(String),
}

/// How a server ends when its first listener does.
pub fn server_result(first: Option<ListenerEnd>) -> (r: Result<(), String>)
    ensures
        match first {
            None => r matches Err(e) && e@ == "no listener tasks"@,
            Some(ListenerEnd::Ended(result)) => r == result,
            Some(ListenerEnd::Cancelled) => r is Ok,
            Some(ListenerEnd::Broken(error)) => r matches Err(e) && e@ == "listener task join: "@
                + error@,
        },
{
    match first {
        None => Err("no listener tasks".to_owned()),
        Some(ListenerEnd::Ended(result)) => result,
        Some(ListenerEnd::Cancelled) => Ok(()),
        Some(ListenerEnd::Broken(error)) => Err(
            "listener task join: ".to_owned().concat(error.as_str()),
        ),
    }
}

/// A session that is over never takes a newer one with it: whoever came in its place
/// stays online, and so does everybody else.
pub proof fn old_sessions_leave_new_ones(
    t: TableView,
    session_id: Seq<char>,
    generation: u64,
    other: Seq<char>,
)
    requires
        other != session_id || t.current(session_id) != Some(generation),
    ensures
        t.without(session_id, generation).current(other) == t.current(other),
{
}

/// A client that comes is online at once, in a session of its own that no other
/// before it had, until as many have come as can be counted.
pub proof fn new_sessions_are_new(t: TableView, session_id: Seq<char>)
    requires
        t.next < u64::MAX,
        forall|s: Seq<char>| #[trigger] t.online.dom().contains(s) ==> t.online[s] < t.next,
    ensures
        t.with(session_id).current(session_id) == Some(t.next),
        t.current(session_id) != Some(t.next),
        forall|s: Seq<char>| #[trigger]
            t.with(session_id).online.dom().contains(s) ==> t.with(session_id).online[s] < t.with(
                session_id,
            ).next,
        t.with(session_id).without(session_id, t.next).current(session_id) is None,
{
}

} // verus!
