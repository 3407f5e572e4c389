//! A session of the server with a client.
use vstd::prelude::*;
use vstd::string::*;

use crate::client::session::{is_silent, thrice};
use crate::client::session::{heartbeat_expired, thrice_secs};
use crate::config::server::{ServerTransportConfig, ServerTransportView};
use crate::msg::{LoginResp, NewTunnel};
use crate::names::{lists_keys, unlisted};
use crate::server::register::{
    all_detached, begun, completed, detached, is_late, kind_at, remote_addr, started_slot, Books,
    Gateways, OwnerView, RefusalView, Refused, RegisterError, Shared, SlotView, StartPlan,
    TunnelKind, TunnelManager, TunnelOwner, Wish, MIN_UDP_PACKET_SIZE,
};
use crate::text::texts;

verus! {

/// What a client says of itself when it logs in.
#[derive(Debug)]
pub struct ClientIdentity {
    pub user: String,
    pub agent_id: String,
    pub hostname: String,
    pub os: String,
    pub arch: String,
    pub version: String,
    pub client_ip: String,
}

/// A session of the server with a client.
pub struct Control {
    session_id: String,
    generation: u64,
    identity: ClientIdentity,
    tunnels: TunnelManager,
    pool_count: usize,
    last_ping_unix: i64,
    activated: bool,
    closed: bool,
    cleaning: bool,
    finished: bool,
}

/// How far a session has come.
#[verifier::ext_equal]
pub struct ControlView {
    pub owner: OwnerView,
    /// What the client said of itself.
    pub who: ClientIdentity,
    pub tunnels: Map<Seq<char>, SlotView>,
    /// How many connections for data are asked for ahead.
    pub pool_count: usize,
    /// When the client last showed a sign of life.
    pub last_ping: i64,
    /// The client was told that its login was accepted.
    pub activated: bool,
    /// The session is to end.
    pub closed: bool,
    /// The session has begun to give back what it has.
    pub cleaning: bool,
    /// Nothing is left of the session.
    pub finished: bool,
}

impl View for Control {
    type V = ControlView;

    closed spec fn view(&self) -> ControlView {
        ControlView {
            owner: OwnerView { session_id: self.session_id@, generation: self.generation },
            who: self.identity,
            tunnels: self.tunnels@,
            pool_count: self.pool_count,
            last_ping: self.last_ping_unix,
            activated: self.activated,
            closed: self.closed,
            cleaning: self.cleaning,
            finished: self.finished,
        }
    }
}

/// How long a client may be silent, in seconds; for ever where not positive.
pub open spec fn ping_timeout(t: ServerTransportView) -> i64 {
    if t.heartbeat_timeout > 0 {
        t.heartbeat_timeout
    } else if t.tcp_mux && t.mux_keepalive_secs > 0 {
        thrice(t.mux_keepalive_secs)
    } else {
        -1i64
    }
}

/// How long a client may be silent.
pub fn effective_ping_timeout(t: &ServerTransportConfig) -> (r: i64)
    ensures
        r == ping_timeout(t@),
{
    if t.heartbeat_timeout > 0 {
        t.heartbeat_timeout
    } else if t.tcp_mux && t.mux_keepalive_secs > 0 {
        thrice_secs(t.mux_keepalive_secs)
    } else {
        -1
    }
}

/// What a client sends in a session.
#[derive(Debug)]
pub enum ClientMessage {
    NewTunnel(NewTunnel),
    CloseTunnel { tunnel_name: String },
    Ping,
    /// A message that is not meant for a server.
    Other { type_byte: u8 },
}

/// What a server does about a message.
#[derive(Debug)]
pub enum ControlAction {
    /// Register this tunnel and answer.
    Register(NewTunnel),
    /// A tunnel was closed: its name and what it carried.
    TunnelClosed { name: String, kind: TunnelKind },
    /// Answer the sign of life.
    SendPong,
    Ignored,
}

/// What a session does to end.
#[derive(Debug)]
pub enum Ending {
    /// It is already ending: wait until it has.
    Wait,
    /// These tunnels were closed; close the connection, stop what runs for the
    /// session and then mark it as finished.
    Clean(Vec<(String, TunnelKind)>),
}

impl Control {
    pub closed spec fn wf(&self) -> bool {
        self.tunnels.wf() && self.pool_count > 0
    }

    /// The names of the tunnels, in the order in which they came.
    pub closed spec fn names(&self) -> Seq<Seq<char>> {
        self.tunnels.names()
    }

    /// The list of names holds every tunnel of the session once, and nothing else.
    pub proof fn names_are_the_tunnels(&self)
        requires
            self.wf(),
        ensures
            lists_keys(self.names(), self@.tunnels),
    {
        self.tunnels.names_are_the_tunnels();
    }

    pub fn identity(&self) -> (r: &ClientIdentity)
        ensures
            *r == self@.who,
    {
        &self.identity
    }

    pub fn session_id(&self) -> (r: &String)
        ensures
            r@ == self@.owner.session_id,
    {
        &self.session_id
    }

    pub fn generation(&self) -> (r: u64)
        ensures
            r == self@.owner.generation,
    {
        self.generation
    }

    /// A session asks for at least one connection for data.
    pub proof fn lemma_pool_not_empty(&self)
        requires
            self.wf(),
        ensures
            self@.pool_count > 0,
    {
    }

    /// A session that begins at the time `now`.
    pub fn new(
        session_id: String,
        generation: u64,
        pool_count: usize,
        identity: ClientIdentity,
        now: i64,
    ) -> (r: Control)
        ensures
            r.wf(),
            r@ == (ControlView {
                owner: OwnerView { session_id: session_id@, generation },
                who: identity,
                tunnels: Map::empty(),
                pool_count: if pool_count == 0 {
                    1
                } else {
                    pool_count
                },
                last_ping: now,
                activated: false,
                closed: false,
                cleaning: false,
                finished: false,
            }),
            r.names() == Seq::<Seq<char>>::empty(),
    {
        Control {
            session_id,
            generation,
            identity,
            tunnels: TunnelManager::new(),
            pool_count: if pool_count == 0 {
                1
            } else {
                pool_count
            },
            last_ping_unix: now,
            activated: false,
            closed: false,
            cleaning: false,
            finished: false,
        }
    }

    pub fn owner(&self) -> (r: TunnelOwner)
        ensures
            r@ == self@.owner,
    {
        TunnelOwner { session_id: self.session_id.clone(), generation: self.generation }
    }

    pub fn is_closed(&self) -> (r: bool)
        ensures
            r == self@.closed,
    {
        self.closed
    }

    /// Whether connections for data are taken: from the accepted login to the end.
    pub fn is_accepting_data(&self) -> (r: bool)
        ensures
            r == (self@.activated && !self@.closed),
    {
        self.activated && !self.closed
    }

    pub fn is_finished(&self) -> (r: bool)
        ensures
            r == self@.finished,
    {
        self.finished
    }

    pub fn tunnel_count(&self) -> (r: usize)
        ensures
            r == self.names().len(),
    {
        self.tunnels.len()
    }

    /// The tunnels of the session.
    pub fn tunnels(&self) -> (r: &TunnelManager)
        requires
            self.wf(),
        ensures
            r.wf(),
            r@ == self@.tunnels,
            r.names() == self.names(),
    {
        &self.tunnels
    }

    /// The answer to a login that is accepted.
    pub fn login_ok(&self, version: &str) -> (r: LoginResp)
        ensures
            r.version@ == version@,
            r.session_id@ == self@.owner.session_id,
            r.error@ == ""@,
    {
        LoginResp {
            version: version.to_owned(),
            session_id: self.session_id.clone(),
            error: "".to_owned(),
        }
    }

    /// The client has the answer to its login.
    pub fn activate(&mut self)
        requires
            old(self).wf(),
        ensures
            final(self).wf(),
            final(self).names() == old(self).names(),
            final(self)@ == (ControlView { activated: true, ..old(self)@ }),
    {
        self.activated = true;
        assert(self@ =~= ControlView { activated: true, ..old(self)@ });
    }

    /// Whether one more connection for data is asked for after so many.
    pub fn wants_data_conn(&self, asked: usize) -> (r: bool)
        ensures
            r == (!self@.closed && asked < self@.pool_count),
    {
        !self.closed && asked < self.pool_count
    }

    /// Whether something more may run for the session.
    pub fn may_spawn(&self) -> (r: bool)
        ensures
            r == !(self@.cleaning || self@.closed),
    {
        !(self.cleaning || self.closed)
    }

    /// Whether the client counts as dead.
    pub fn is_silent(&self, now: i64, timeout: i64) -> (r: bool)
        ensures
            r == is_silent(self@.last_ping, now, timeout),
    {
        heartbeat_expired(self.last_ping_unix, now, timeout)
    }

    /// Takes in a message of the client at the time `now`.
    pub fn on_message(&mut self, shared: &mut Shared, msg: ClientMessage, now: i64) -> (r:
        ControlAction)
        requires
            old(self).wf(),
            old(shared).wf(),
        ensures
            final(self).wf(),
            final(shared).wf(),
            match msg {
                ClientMessage::NewTunnel(np) => {
                    &&& r == ControlAction::Register(np)
                    &&& final(self)@ == old(self)@
                    &&& final(shared)@ == old(shared)@
                },
                ClientMessage::CloseTunnel { tunnel_name } => {
                    let b = Books { tunnels: old(self)@.tunnels, shared: old(shared)@ };
                    let after = detached(b, tunnel_name@, old(self)@.owner);
                    &&& final(self)@ == (ControlView { tunnels: after.tunnels, ..old(self)@ })
                    &&& final(shared)@ == after.shared
                    &&& match kind_at(old(self)@.tunnels, tunnel_name@) {
                        Some(k) => r matches ControlAction::TunnelClosed { name, kind } && name@
                            == tunnel_name@ && kind == k,
                        None => r is Ignored,
                    }
                },
                ClientMessage::Ping => {
                    &&& r is SendPong
                    &&& final(self)@ == (ControlView { last_ping: now, ..old(self)@ })
                    &&& final(shared)@ == old(shared)@
                },
                ClientMessage::Other { .. } => {
                    &&& r is Ignored
                    &&& final(self)@ == old(self)@
                    &&& final(shared)@ == old(shared)@
                },
            },
            final(self).names() == (match msg {
                ClientMessage::CloseTunnel { tunnel_name } => unlisted(
                    old(self).names(),
                    tunnel_name@,
                ),
                _ => old(self).names(),
            }),
    {
        let ghost before = self@;
        match msg {
            ClientMessage::NewTunnel(np) => ControlAction::Register(np),
            ClientMessage::CloseTunnel { tunnel_name } => {
                let owner = self.owner();
                let gone = self.tunnels.detach(shared, tunnel_name.as_str(), &owner);
                assert(self@ =~= ControlView { tunnels: self@.tunnels, ..before });
                match gone {
                    Some(kind) => ControlAction::TunnelClosed { name: tunnel_name, kind },
                    None => ControlAction::Ignored,
                }
            },
            ClientMessage::Ping => {
                self.last_ping_unix = now;
                assert(self@ =~= ControlView { last_ping: now, ..before });
                ControlAction::SendPong
            },
            ClientMessage::Other { .. } => ControlAction::Ignored,
        }
    }

    /// Begins the registration of a tunnel.
    pub fn begin_register(
        &mut self,
        shared: &mut Shared,
        np: &NewTunnel,
        gws: Gateways,
        udp_packet_size: usize,
        limit_error: Option<String>,
    ) -> (r: Result<StartPlan, Refused>)
        requires
            old(self).wf(),
            old(shared).wf(),
        ensures
            final(self).wf(),
            final(shared).wf(),
            ({
                let b = Books { tunnels: old(self)@.tunnels, shared: old(shared)@ };
                let limit = match limit_error {
                    Some(e) => Some(e@),
                    None => None,
                };
                let (after, result) = begun(
                    b,
                    old(self)@.owner,
                    old(self)@.closed,
                    *np,
                    gws,
                    limit,
                );
                &&& final(self)@ == (ControlView { tunnels: after.tunnels, ..old(self)@ })
                &&& final(shared)@ == after.shared
                &&& match r {
                    Ok(plan) => {
                        &&& result == Ok::<Wish, RefusalView>(
                            Wish { kind: plan.kind, port: plan.port, gw_port: plan.gw_port },
                        )
                        &&& plan.name@ == np.tunnel_name@
                        &&& plan.packet_size == (if udp_packet_size < MIN_UDP_PACKET_SIZE {
                            MIN_UDP_PACKET_SIZE
                        } else {
                            udp_packet_size
                        })
                        &&& plan.replaced == kind_at(old(self)@.tunnels, np.tunnel_name@)
                    },
                    Err(refused) => {
                        &&& result == Err::<Wish, RefusalView>(refused.error@)
                        &&& refused.replaced == (if is_late(refused.error@) {
                            kind_at(old(self)@.tunnels, np.tunnel_name@)
                        } else {
                            None
                        })
                    },
                }
            }),
            final(self).names() == (if r is Ok || is_late(r->Err_0.error@) {
                unlisted(old(self).names(), np.tunnel_name@)
            } else {
                old(self).names()
            }),
    {
        let ghost before = self@;
        let owner = self.owner();
        let r = self.tunnels.begin(
            shared,
            &owner,
            self.closed,
            np,
            gws,
            udp_packet_size,
            limit_error,
        );
        assert(self@ =~= ControlView { tunnels: self@.tunnels, ..before });
        r
    }

    /// Completes the registration of a tunnel that has started or has not.
    pub fn complete_register(
        &mut self,
        shared: &mut Shared,
        plan: &StartPlan,
        started: Result<Vec<String>, String>,
        local_addr: String,
    ) -> (r: Result<String, RegisterError>)
        requires
            old(self).wf(),
            old(shared).wf(),
        ensures
            final(self).wf(),
            final(shared).wf(),
            ({
                let b = Books { tunnels: old(self)@.tunnels, shared: old(shared)@ };
                let slot = started_slot(*plan, started, local_addr@);
                let error = match started {
                    Ok(_) => None,
                    Err(e) => Some(e@),
                };
                let (after, result) = completed(b, old(self)@.owner, plan.name@, slot, error);
                &&& final(self)@ == (ControlView { tunnels: after.tunnels, ..old(self)@ })
                &&& final(shared)@ == after.shared
                &&& match r {
                    Ok(addr) => result is Ok && addr@ == remote_addr(
                        plan.port,
                        plan.gw_port,
                        texts(started->Ok_0@),
                    ),
                    Err(e) => result == Err::<(), RefusalView>(e@),
                }
            }),
            final(self).names() == (if r is Ok {
                old(self).names().push(plan.name@)
            } else {
                old(self).names()
            }),
    {
        let ghost before = self@;
        let owner = self.owner();
        let r = self.tunnels.complete(shared, &owner, plan, started, local_addr);
        assert(self@ =~= ControlView { tunnels: self@.tunnels, ..before });
        r
    }

    /// The session is to end: no tunnel is registered and no connection taken any
    /// more.
    pub fn signal_close(&mut self)
        requires
            old(self).wf(),
        ensures
            final(self).wf(),
            final(self).names() == old(self).names(),
            final(self)@ == (ControlView { closed: true, ..old(self)@ }),
    {
        self.closed = true;
        assert(self@ =~= ControlView { closed: true, ..old(self)@ });
    }

    /// Ends the session: the first call lets go of every tunnel, others wait for it.
    pub fn shutdown(&mut self, shared: &mut Shared) -> (r: Ending)
        requires
            old(self).wf(),
            old(shared).wf(),
        ensures
            final(self).wf(),
            final(shared).wf(),
            old(self)@.cleaning ==> {
                &&& r is Wait
                &&& final(self)@ == (ControlView { closed: true, ..old(self)@ })
                &&& final(self).names() == old(self).names()
                &&& final(shared)@ == old(shared)@
            },
            !old(self)@.cleaning ==> {
                let b = Books { tunnels: old(self)@.tunnels, shared: old(shared)@ };
                let after = all_detached(b, old(self).names(), old(self)@.owner);
                &&& final(self)@ == (ControlView {
                    closed: true,
                    cleaning: true,
                    tunnels: Map::empty(),
                    ..old(self)@
                })
                &&& final(self).names() == Seq::<Seq<char>>::empty()
                &&& final(shared)@ == after.shared
                &&& r matches Ending::Clean(gone) && gone@.len() == old(self).names().len()
                    && forall|i: int|
                    0 <= i < gone@.len() ==> (#[trigger] gone@[i]).0@ == old(self).names()[i]
                        && gone@[i].1 == old(self)@.tunnels[gone@[i].0@].kind
            },
    {
        let ghost before = self@;
        self.signal_close();
        if self.cleaning {
            return Ending::Wait;
        }
        self.cleaning = true;
        let owner = self.owner();
        let gone = self.tunnels.close_all(shared, &owner);
        assert(self@ =~= ControlView {
            closed: true,
            cleaning: true,
            tunnels: Map::empty(),
            ..before
        });
        Ending::Clean(gone)
    }

    /// Nothing is left of the session.
    pub fn mark_finished(&mut self)
        requires
            old(self).wf(),
        ensures
            final(self).wf(),
            final(self).names() == old(self).names(),
            final(self)@ == (ControlView { finished: true, ..old(self)@ }),
    {
        self.finished = true;
        assert(self@ =~= ControlView { finished: true, ..old(self)@ });
    }

    /// Gives back what a session still has that was not ended: a last resort where
    /// it is lost.
    pub fn abandon(&mut self, shared: &mut Shared)
        requires
            old(self).wf(),
            old(shared).wf(),
        ensures
            final(self).wf(),
            final(shared).wf(),
            old(self)@.finished ==> final(self)@ == old(self)@ && final(self).names() == old(
                self,
            ).names() && final(shared)@ == old(shared)@,
            !old(self)@.finished ==> {
                let b = Books { tunnels: old(self)@.tunnels, shared: old(shared)@ };
                let after = all_detached(b, old(self).names(), old(self)@.owner);
                &&& final(self)@ == (ControlView {
                    finished: true,
                    tunnels: Map::empty(),
                    ..old(self)@
                })
                &&& final(self).names() == Seq::<Seq<char>>::empty()
                &&& final(shared)@ == after.shared
            },
    {
        if self.finished {
            return;
        }
        let ghost before = self@;
        let owner = self.owner();
        let _ = self.tunnels.close_all(shared, &owner);
        self.finished = true;
        assert(self@ =~= ControlView { finished: true, tunnels: Map::empty(), ..before });
    }
}

/// The answer to a login that is not accepted.
pub fn login_err(version: &str, error: &str) -> (r: LoginResp)
    ensures
        r.version@ == version@,
        r.session_id@ == ""@,
        r.error@ == error@,
{
    LoginResp { version: version.to_owned(), session_id: "".to_owned(), error: error.to_owned() }
}

/// A session that is to end registers no tunnel: whatever is asked for, its books
/// stay as they are.
pub proof fn closed_sessions_register_nothing(
    b: Books,
    owner: OwnerView,
    np: NewTunnel,
    gws: Gateways,
    limit_error: Option<Seq<char>>,
)
    ensures
        begun(b, owner, true, np, gws, limit_error) == (
            b,
            Err::<Wish, RefusalView>(RefusalView::Closed),
        ),
{
}

} // verus!
