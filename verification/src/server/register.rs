//! The tunnels of a session and what they hold of the server: their names and their
//! ports.
use vstd::prelude::*;
use vstd::string::*;

use crate::msg::{NewTunnel, NewTunnelResp};
use crate::names::{lists_keys, stands_at, unlisted, NameMap};
use crate::server::ports::{released, PortError, PortTable};
use crate::text::{decimal, texts};
use crate::text::{decimal_str, same};

verus! {

/// How small a packet buffer of a tunnel may be.
pub const MIN_UDP_PACKET_SIZE: usize = 512;

/// What a tunnel carries.
#[derive(Debug, Clone, Copy, PartialEq, Eq, Structural)]
pub enum TunnelKind {
    Tcp,
    Udp,
    Http,
    Https,
}

impl TunnelKind {
    pub open spec fn text(self) -> Seq<char> {
        match self {
            TunnelKind::Tcp => "tcp"@,
            TunnelKind::Udp => "udp"@,
            TunnelKind::Http => "http"@,
            TunnelKind::Https => "https"@,
        }
    }

    pub fn name(self) -> (r: &'static str)
        ensures
            r@ == self.text(),
    {
        match self {
            TunnelKind::Tcp => "tcp",
            TunnelKind::Udp => "udp",
            TunnelKind::Http => "http",
            TunnelKind::Https => "https",
        }
    }
}

/// The session that has a tunnel: a session that is taken up again is another one.
#[derive(Debug)]
pub struct TunnelOwner {
    pub session_id: String,
    pub generation: u64,
}

pub struct OwnerView {
    pub session_id: Seq<char>,
    pub generation: u64,
}

impl View for TunnelOwner {
    type V = OwnerView;

    open spec fn view(&self) -> OwnerView {
        OwnerView { session_id: self.session_id@, generation: self.generation }
    }
}

impl TunnelOwner {
    fn is(&self, other: &TunnelOwner) -> (r: bool)
        ensures
            r == (self@ == other@),
    {
        self.generation == other.generation && same(
            self.session_id.as_str(),
            other.session_id.as_str(),
        )
    }

    fn copy(&self) -> (r: TunnelOwner)
        ensures
            r@ == self@,
    {
        TunnelOwner { session_id: self.session_id.clone(), generation: self.generation }
    }
}

/// A tunnel of a session.
#[derive(Debug)]
pub struct TunnelSlot {
    pub kind: TunnelKind,
    pub remote_port: Option<u16>,
    pub local_addr: String,
    pub remote_addr: String,
}

/// A tunnel of a session: its kind, its port, and the addresses that users are shown.
#[verifier::ext_equal]
pub struct SlotView {
    pub kind: TunnelKind,
    pub port: Option<u16>,
    pub local: Seq<char>,
    pub remote: Seq<char>,
}

impl TunnelSlot {
    pub open spec fn held(&self) -> SlotView {
        SlotView {
            kind: self.kind,
            port: self.remote_port,
            local: self.local_addr@,
            remote: self.remote_addr@,
        }
    }
}

/// What all sessions of a server share: the ports and the names of tunnels.
pub struct Shared {
    tcp_ports: PortTable,
    udp_ports: PortTable,
    tunnel_registry: NameMap<TunnelOwner>,
}

#[verifier::ext_equal]
pub struct SharedView {
    pub tcp: Map<u16, Seq<char>>,
    pub udp: Map<u16, Seq<char>>,
    pub names: Map<Seq<char>, OwnerView>,
}

pub open spec fn owners(m: Map<Seq<char>, TunnelOwner>) -> Map<Seq<char>, OwnerView> {
    Map::new(|name: Seq<char>| m.dom().contains(name), |name: Seq<char>| m[name]@)
}

pub open spec fn slots(m: Map<Seq<char>, TunnelSlot>) -> Map<Seq<char>, SlotView> {
    Map::new(|name: Seq<char>| m.dom().contains(name), |name: Seq<char>| m[name].held())
}

impl View for Shared {
    type V = SharedView;

    closed spec fn view(&self) -> SharedView {
        SharedView {
            tcp: self.tcp_ports@,
            udp: self.udp_ports@,
            names: owners(self.tunnel_registry@),
        }
    }
}

impl SharedView {
    /// A name given back, which only the session that has it can.
    pub open spec fn without_name(self, name: Seq<char>, owner: OwnerView) -> SharedView {
        if self.names.dom().contains(name) && self.names[name] == owner {
            SharedView { names: self.names.remove(name), ..self }
        } else {
            self
        }
    }

    /// A port given back by a tunnel.
    pub open spec fn without_port(
        self,
        kind: TunnelKind,
        port: Option<u16>,
        name: Seq<char>,
    ) -> SharedView {
        match (kind, port) {
            (TunnelKind::Tcp, Some(p)) => SharedView { tcp: released(self.tcp, p, name), ..self },
            (TunnelKind::Udp, Some(p)) => SharedView { udp: released(self.udp, p, name), ..self },
            _ => self,
        }
    }

    /// Everything given back that a tunnel holds.
    pub open spec fn without_slot(
        self,
        name: Seq<char>,
        slot: SlotView,
        owner: OwnerView,
    ) -> SharedView {
        self.without_port(slot.kind, slot.port, name).without_name(name, owner)
    }

    /// Whether a port that a tunnel asks for is in use.
    pub open spec fn port_taken(self, kind: TunnelKind, port: Option<u16>) -> bool {
        match (kind, port) {
            (TunnelKind::Tcp, Some(p)) => self.tcp.dom().contains(p),
            (TunnelKind::Udp, Some(p)) => self.udp.dom().contains(p),
            _ => false,
        }
    }

    /// The tunnel that has a port.
    pub open spec fn port_holder(self, kind: TunnelKind, port: Option<u16>) -> Seq<char> {
        match (kind, port) {
            (TunnelKind::Tcp, Some(p)) => self.tcp[p],
            (TunnelKind::Udp, Some(p)) => self.udp[p],
            _ => ""@,
        }
    }

    /// A port given to a tunnel.
    pub open spec fn with_port(
        self,
        kind: TunnelKind,
        port: Option<u16>,
        name: Seq<char>,
    ) -> SharedView {
        match (kind, port) {
            (TunnelKind::Tcp, Some(p)) => SharedView { tcp: self.tcp.insert(p, name), ..self },
            (TunnelKind::Udp, Some(p)) => SharedView { udp: self.udp.insert(p, name), ..self },
            _ => self,
        }
    }

    /// A name given to a session.
    pub open spec fn with_name(self, name: Seq<char>, owner: OwnerView) -> SharedView {
        SharedView { names: self.names.insert(name, owner), ..self }
    }
}

impl Shared {
    pub closed spec fn wf(&self) -> bool {
        self.tunnel_registry.wf()
    }

    pub fn new() -> (r: Shared)
        ensures
            r.wf(),
            r@ == (SharedView { tcp: Map::empty(), udp: Map::empty(), names: Map::empty() }),
    {
        let r = Shared {
            tcp_ports: PortTable::new(),
            udp_ports: PortTable::new(),
            tunnel_registry: NameMap::new(),
        };
        assert(r@ =~= SharedView { tcp: Map::empty(), udp: Map::empty(), names: Map::empty() });
        r
    }

    /// Gives a name to a session, unless another tunnel bears it; tells whether it
    /// did.
    pub fn try_insert(&mut self, name: &str, owner: &TunnelOwner) -> (r: bool)
        requires
            old(self).wf(),
        ensures
            final(self).wf(),
            r == !old(self)@.names.dom().contains(name@),
            final(self)@ == (if r {
                old(self)@.with_name(name@, owner@)
            } else {
                old(self)@
            }),
    {
        if self.tunnel_registry.contains(name) {
            return false;
        }
        let ghost before = self@;
        self.tunnel_registry.insert(name.to_owned(), owner.copy());
        assert(self@ =~= before.with_name(name@, owner@));
        true
    }

    /// Takes a name back from the session that has it.
    pub fn remove_if_owner(&mut self, name: &str, owner: &TunnelOwner)
        requires
            old(self).wf(),
        ensures
            final(self).wf(),
            final(self)@ == old(self)@.without_name(name@, owner@),
    {
        let owned = match self.tunnel_registry.get(name) {
            Some(o) => o.is(owner),
            None => false,
        };
        let ghost before = self@;
        if owned {
            self.tunnel_registry.remove(name);
            assert(self@ =~= before.without_name(name@, owner@));
        }
    }

    fn release_port(&mut self, kind: TunnelKind, port: Option<u16>, name: &str)
        requires
            old(self).wf(),
        ensures
            final(self).wf(),
            final(self)@ == old(self)@.without_port(kind, port, name@),
    {
        let ghost before = self@;
        match port {
            Some(p) => match kind {
                TunnelKind::Tcp => {
                    self.tcp_ports.release(p, name);
                    assert(self@ =~= before.without_port(kind, port, name@));
                },
                TunnelKind::Udp => {
                    self.udp_ports.release(p, name);
                    assert(self@ =~= before.without_port(kind, port, name@));
                },
                _ => {},
            },
            None => {},
        }
    }

    /// Takes everything back that a tunnel of a session holds.
    pub fn release_global_slot(&mut self, name: &str, slot: &TunnelSlot, owner: &TunnelOwner)
        requires
            old(self).wf(),
        ensures
            final(self).wf(),
            final(self)@ == old(self)@.without_slot(name@, slot.held(), owner@),
    {
        self.release_port(slot.kind, slot.remote_port, name);
        self.remove_if_owner(name, owner);
    }

    fn claim_port(&mut self, kind: TunnelKind, port: Option<u16>, name: &str) -> (r: Result<
        (),
        PortError,
    >)
        requires
            old(self).wf(),
            port is Some ==> port->0 != 0,
        ensures
            final(self).wf(),
            match r {
                Ok(_) => {
                    &&& !old(self)@.port_taken(kind, port)
                    &&& final(self)@ == old(self)@.with_port(kind, port, name@)
                },
                Err(e) => {
                    &&& old(self)@.port_taken(kind, port)
                    &&& e matches PortError::InUse { port: p, tunnel } && Some(p) == port
                        && tunnel@ == old(self)@.port_holder(kind, port)
                    &&& final(self)@ == old(self)@
                },
            },
    {
        let ghost before = self@;
        match port {
            Some(p) => match kind {
                TunnelKind::Tcp => {
                    let r = self.tcp_ports.claim(p, name);
                    assert(r is Ok ==> self@ =~= before.with_port(kind, port, name@));
                    assert(r is Err ==> self@ =~= before);
                    r
                },
                TunnelKind::Udp => {
                    let r = self.udp_ports.claim(p, name);
                    assert(r is Ok ==> self@ =~= before.with_port(kind, port, name@));
                    assert(r is Err ==> self@ =~= before);
                    r
                },
                _ => Ok(()),
            },
            None => Ok(()),
        }
    }
}

/// Why a tunnel was not registered.
#[derive(Debug)]
pub enum RegisterError {
    Closed,
    Protocol { protocol: String },
    RemotePort,
    HttpGwMissing,
    HttpsGwMissing,
    /// The limit on its traffic was refused.
    Limit { error: String },
    NameTaken { name: String },
    Port(PortError),
    /// It did not start.
    Start { error: String },
    AlreadyPresent { name: String },
}

impl RegisterError {
    pub open spec fn text(&self) -> Seq<char> {
        match *self {
            RegisterError::Closed => "control session is closed"@,
            RegisterError::Protocol { protocol } => "unsupported tunnel protocol: "@ + protocol@,
            RegisterError::RemotePort => "invalid remote_port"@,
            RegisterError::HttpGwMissing => "http tunnel requires server httpGwPort > 0"@,
            RegisterError::HttpsGwMissing => "https tunnel requires server httpsGwPort > 0"@,
            RegisterError::Limit { error } => error@,
            RegisterError::NameTaken { name } => "tunnel `"@ + name@ + "` is already in use"@,
            RegisterError::Port(e) => e.text(),
            RegisterError::Start { error } => error@,
            RegisterError::AlreadyPresent { name } => "tunnel `"@ + name@
                + "` already present in this session"@,
        }
    }

    pub fn message(&self) -> (r: String)
        ensures
            r@ == self.text(),
    {
        match self {
            RegisterError::Closed => "control session is closed".to_owned(),
            RegisterError::Protocol { protocol } => "unsupported tunnel protocol: ".to_owned().concat(
                protocol.as_str(),
            ),
            RegisterError::RemotePort => "invalid remote_port".to_owned(),
            RegisterError::HttpGwMissing => "http tunnel requires server httpGwPort > 0".to_owned(),
            RegisterError::HttpsGwMissing => {
                "https tunnel requires server httpsGwPort > 0".to_owned()
            },
            RegisterError::Limit { error } => error.clone(),
            RegisterError::NameTaken { name } => "tunnel `".to_owned().concat(
                name.as_str(),
            ).concat("` is already in use"),
            RegisterError::Port(e) => e.message(),
            RegisterError::Start { error } => error.clone(),
            RegisterError::AlreadyPresent { name } => "tunnel `".to_owned().concat(
                name.as_str(),
            ).concat("` already present in this session"),
        }
    }
}

/// The ports of the gateways for web tunnels, where there are any.
#[derive(Debug, Clone, Copy, PartialEq, Eq, Structural)]
pub struct Gateways {
    pub http: Option<u16>,
    pub https: Option<u16>,
}

/// What a tunnel asks of the server: its kind, a port of the server for one of ports,
/// and the gateway for one of web domains.
#[derive(Debug)]
pub struct Wish {
    pub kind: TunnelKind,
    pub port: Option<u16>,
    pub gw_port: Option<u16>,
}

/// What is wrong with a request for a tunnel, or what it asks for.
pub open spec fn wish(np: NewTunnel, gws: Gateways) -> Result<Wish, RefusalView> {
    if np.protocol@ == "tcp"@ || np.protocol@ == "udp"@ {
        if np.remote_port <= 0 || np.remote_port > 65535 {
            Err(RefusalView::RemotePort)
        } else {
            Ok(
                Wish {
                    kind: if np.protocol@ == "tcp"@ {
                        TunnelKind::Tcp
                    } else {
                        TunnelKind::Udp
                    },
                    port: Some(np.remote_port as u16),
                    gw_port: None,
                },
            )
        }
    } else if np.protocol@ == "http"@ {
        match gws.http {
            Some(p) => Ok(Wish { kind: TunnelKind::Http, port: None, gw_port: Some(p) }),
            None => Err(RefusalView::HttpGwMissing),
        }
    } else if np.protocol@ == "https"@ {
        match gws.https {
            Some(p) => Ok(Wish { kind: TunnelKind::Https, port: None, gw_port: Some(p) }),
            None => Err(RefusalView::HttpsGwMissing),
        }
    } else {
        Err(RefusalView::Protocol { protocol: np.protocol@ })
    }
}

/// Why a tunnel was not registered, in the terms of specifications.
pub enum RefusalView {
    Closed,
    Protocol { protocol: Seq<char> },
    RemotePort,
    HttpGwMissing,
    HttpsGwMissing,
    Limit { error: Seq<char> },
    NameTaken { name: Seq<char> },
    PortInUse { port: u16, holder: Seq<char> },
    PortZero,
    Start { error: Seq<char> },
    AlreadyPresent { name: Seq<char> },
}

impl View for RegisterError {
    type V = RefusalView;

    open spec fn view(&self) -> RefusalView {
        match *self {
            RegisterError::Closed => RefusalView::Closed,
            RegisterError::Protocol { protocol } => RefusalView::Protocol { protocol: protocol@ },
            RegisterError::RemotePort => RefusalView::RemotePort,
            RegisterError::HttpGwMissing => RefusalView::HttpGwMissing,
            RegisterError::HttpsGwMissing => RefusalView::HttpsGwMissing,
            RegisterError::Limit { error } => RefusalView::Limit { error: error@ },
            RegisterError::NameTaken { name } => RefusalView::NameTaken { name: name@ },
            RegisterError::Port(PortError::Zero) => RefusalView::PortZero,
            RegisterError::Port(PortError::InUse { port, tunnel }) => RefusalView::PortInUse {
                port,
                holder: tunnel@,
            },
            RegisterError::Start { error } => RefusalView::Start { error: error@ },
            RegisterError::AlreadyPresent { name } => RefusalView::AlreadyPresent { name: name@ },
        }
    }
}

/// The tunnels of a session and what all sessions share.
#[verifier::ext_equal]
pub struct Books {
    pub tunnels: Map<Seq<char>, SlotView>,
    pub shared: SharedView,
}

/// The books after a session let go of a tunnel, where it has it.
pub open spec fn detached(b: Books, name: Seq<char>, owner: OwnerView) -> Books {
    if b.tunnels.dom().contains(name) {
        Books {
            tunnels: b.tunnels.remove(name),
            shared: b.shared.without_slot(name, b.tunnels[name], owner),
        }
    } else {
        b
    }
}

/// The first half of a registration: a tunnel of the same name in the session is let
/// go of, then the name and the port are taken. Without the port the name is given
/// back.
pub open spec fn begun(
    b: Books,
    owner: OwnerView,
    closed: bool,
    np: NewTunnel,
    gws: Gateways,
    limit_error: Option<Seq<char>>,
) -> (Books, Result<Wish, RefusalView>) {
    let name = np.tunnel_name@;
    let free = detached(b, name, owner);
    if closed {
        (b, Err(RefusalView::Closed))
    } else {
        match wish(np, gws) {
            Err(e) => (b, Err(e)),
            Ok(w) => if limit_error is Some {
                (b, Err(RefusalView::Limit { error: limit_error->0 }))
            } else if free.shared.names.dom().contains(name) {
                (free, Err(RefusalView::NameTaken { name }))
            } else if free.shared.port_taken(w.kind, w.port) {
                (
                    free,
                    Err(
                        RefusalView::PortInUse {
                            port: w.port->0,
                            holder: free.shared.port_holder(w.kind, w.port),
                        },
                    ),
                )
            } else {
                (
                    Books {
                        shared: free.shared.with_name(name, owner).with_port(
                            w.kind,
                            w.port,
                            name,
                        ),
                        ..free
                    },
                    Ok(w),
                )
            },
        }
    }
}

/// The second half of a registration, when it is known whether the tunnel started:
/// one that did not gives everything back.
pub open spec fn completed(
    b: Books,
    owner: OwnerView,
    name: Seq<char>,
    slot: SlotView,
    start_error: Option<Seq<char>>,
) -> (Books, Result<(), RefusalView>) {
    let undone = Books { shared: b.shared.without_slot(name, slot, owner), ..b };
    if start_error is Some {
        (undone, Err(RefusalView::Start { error: start_error->0 }))
    } else if b.tunnels.dom().contains(name) {
        (undone, Err(RefusalView::AlreadyPresent { name }))
    } else {
        (Books { tunnels: b.tunnels.insert(name, slot), ..b }, Ok(()))
    }
}

/// A tunnel that may be started: its name and port are taken.
#[derive(Debug)]
pub struct StartPlan {
    pub name: String,
    pub kind: TunnelKind,
    pub port: Option<u16>,
    pub gw_port: Option<u16>,
    /// How large the packets of a tunnel of datagrams may be.
    pub packet_size: usize,
    /// The kind of the tunnel that it takes the place of.
    pub replaced: Option<TunnelKind>,
}

/// A registration that was refused, and the kind of the tunnel that it ended all the
/// same.
#[derive(Debug)]
pub struct Refused {
    pub error: RegisterError,
    pub replaced: Option<TunnelKind>,
}

/// The kind of the tunnel that a session has under a name.
pub open spec fn kind_at(tunnels: Map<Seq<char>, SlotView>, name: Seq<char>) -> Option<TunnelKind> {
    if tunnels.dom().contains(name) {
        Some(tunnels[name].kind)
    } else {
        None
    }
}

/// Whether a refusal comes after a tunnel of the same name was let go of.
pub open spec fn is_late(e: RefusalView) -> bool {
    e is NameTaken || e is PortInUse
}

/// The addresses of a web tunnel: its domains at the port of the gateway.
pub open spec fn domain_list(domains: Seq<Seq<char>>, port: u16) -> Seq<char>
    decreases domains.len(),
{
    if domains.len() == 0 {
        ""@
    } else {
        let last = domains.last() + ":"@ + decimal(port as nat);
        if domains.len() == 1 {
            last
        } else {
            domain_list(domains.drop_last(), port) + ","@ + last
        }
    }
}

/// Where a tunnel can be reached, as its client is told.
pub open spec fn remote_addr(port: Option<u16>, gw_port: Option<u16>, domains: Seq<Seq<char>>) -> Seq<
    char,
> {
    match (port, gw_port) {
        (Some(p), _) => ":"@ + decimal(p as nat),
        (None, Some(g)) => domain_list(domains, g),
        (None, None) => ""@,
    }
}

/// The tunnel that a session has once the plan for it was carried out.
pub open spec fn started_slot(
    plan: StartPlan,
    started: Result<Vec<String>, String>,
    local: Seq<char>,
) -> SlotView {
    SlotView {
        kind: plan.kind,
        port: plan.port,
        local,
        remote: remote_addr(plan.port, plan.gw_port, texts(started->Ok_0@)),
    }
}

fn domain_addrs(domains: &Vec<String>, port: u16) -> (r: String)
    ensures
        r@ == domain_list(texts(domains@), port),
{
    let mut out = "".to_owned();
    let ghost all = texts(domains@);
    let mut i: usize = 0;
    assert(all.take(0) =~= seq![]);
    while i < domains.len()
        invariant
            i <= domains@.len(),
            all == texts(domains@),
            out@ == domain_list(all.take(i as int), port),
        decreases domains@.len() - i,
    {
        proof {
            reveal_strlit("");
            assert(all.take(i + 1).drop_last() =~= all.take(i as int));
        }
        let one = domains[i].clone().concat(":").concat(decimal_str(port as u64).as_str());
        if i > 0 {
            out = out.concat(",");
        }
        let ghost before = out@;
        out = out.concat(one.as_str());
        assert(i == 0 ==> before =~= Seq::<char>::empty());
        assert(i == 0 ==> out@ =~= one@);
        i += 1;
    }
    assert(all.take(i as int) =~= all);
    out
}

/// The tunnels of one session.
pub struct TunnelManager {
    slots: NameMap<TunnelSlot>,
}

impl View for TunnelManager {
    type V = Map<Seq<char>, SlotView>;

    closed spec fn view(&self) -> Map<Seq<char>, SlotView> {
        slots(self.slots@)
    }
}

impl TunnelManager {
    pub closed spec fn wf(&self) -> bool {
        self.slots.wf()
    }

    /// The names of the tunnels, in the order in which they came.
    pub closed spec fn names(&self) -> Seq<Seq<char>> {
        self.slots.names()
    }

    /// The list of names holds every tunnel once, and nothing else.
    pub proof fn names_are_the_tunnels(&self)
        requires
            self.wf(),
        ensures
            lists_keys(self.names(), self@),
    {
        self.slots.lemma_names();
        assert(self@.dom() =~= self.slots@.dom());
    }

    pub fn new() -> (r: TunnelManager)
        ensures
            r.wf(),
            r@ == Map::<Seq<char>, SlotView>::empty(),
            r.names() == Seq::<Seq<char>>::empty(),
    {
        let r = TunnelManager { slots: NameMap::new() };
        assert(r@ =~= Map::empty());
        assert(r.names() =~= Seq::empty());
        r
    }

    /// How many tunnels there are.
    pub fn len(&self) -> (r: usize)
        ensures
            r == self.names().len(),
    {
        self.slots.len()
    }

    /// The name and the tunnel at a position.
    pub fn at(&self, i: usize) -> (r: &(String, TunnelSlot))
        requires
            self.wf(),
            i < self.names().len(),
        ensures
            r.0@ == self.names()[i as int],
            self@.dom().contains(r.0@),
            r.1.held() == self@[r.0@],
    {
        proof {
            self.slots.lemma_at(i as int);
        }
        self.slots.at(i)
    }

    /// Lets go of a tunnel and of what it holds; tells its kind where it was there.
    pub fn detach(&mut self, shared: &mut Shared, name: &str, owner: &TunnelOwner) -> (r: Option<
        TunnelKind,
    >)
        requires
            old(self).wf(),
            old(shared).wf(),
        ensures
            final(self).wf(),
            final(shared).wf(),
            r == kind_at(old(self)@, name@),
            (Books { tunnels: final(self)@, shared: final(shared)@ }) == detached(
                Books { tunnels: old(self)@, shared: old(shared)@ },
                name@,
                owner@,
            ),
            final(self).names() == unlisted(old(self).names(), name@),
    {
        let ghost b = Books { tunnels: self@, shared: shared@ };
        match self.slots.remove(name) {
            Some(slot) => {
                shared.release_global_slot(name, &slot, owner);
                assert(self@ =~= b.tunnels.remove(name@));
                Some(slot.kind)
            },
            None => {
                assert(self@ =~= b.tunnels);
                None
            },
        }
    }

    /// Begins the registration of a tunnel for which the limit on its traffic was
    /// already looked at.
    pub fn begin(
        &mut self,
        shared: &mut Shared,
        owner: &TunnelOwner,
        closed: bool,
        np: &NewTunnel,
        gws: Gateways,
        udp_packet_size: usize,
        limit_error: Option<String>,
    ) -> (r: Result<StartPlan, Refused>)
        requires
            old(self).wf(),
            old(shared).wf(),
        ensures
            final(self).wf(),
            final(shared).wf(),
            ({
                let b = Books { tunnels: old(self)@, shared: old(shared)@ };
                let limit = match limit_error {
                    Some(e) => Some(e@),
                    None => None,
                };
                let (after, result) = begun(b, owner@, closed, *np, gws, limit);
                &&& final(self)@ == after.tunnels
                &&& final(shared)@ == after.shared
                &&& match r {
                    Ok(plan) => {
                        &&& result == Ok::<Wish, RefusalView>(
                            Wish { kind: plan.kind, port: plan.port, gw_port: plan.gw_port },
                        )
                        &&& plan.name@ == np.tunnel_name@
                        &&& plan.packet_size == (if udp_packet_size < MIN_UDP_PACKET_SIZE {
                            MIN_UDP_PACKET_SIZE
                        } else {
                            udp_packet_size
                        })
                        &&& plan.replaced == kind_at(old(self)@, np.tunnel_name@)
                    },
                    Err(refused) => {
                        &&& result == Err::<Wish, RefusalView>(refused.error@)
                        &&& refused.replaced == (if is_late(refused.error@) {
                            kind_at(old(self)@, np.tunnel_name@)
                        } else {
                            None
                        })
                    },
                }
            }),
            final(self).names() == (if r is Ok || is_late(r->Err_0.error@) {
                unlisted(old(self).names(), np.tunnel_name@)
            } else {
                old(self).names()
            }),
    {
        if closed {
            return Err(Refused { error: RegisterError::Closed, replaced: None });
        }
        let wish = match wish_of(np, gws) {
            Ok(w) => w,
            Err(error) => {
                return Err(Refused { error, replaced: None });
            },
        };
        match limit_error {
            Some(error) => {
                return Err(Refused { error: RegisterError::Limit { error }, replaced: None });
            },
            None => {},
        }
        let name = np.tunnel_name.as_str();
        let replaced = self.detach(shared, name, owner);
        if !shared.try_insert(name, owner) {
            return Err(
                Refused {
                    error: RegisterError::NameTaken { name: np.tunnel_name.clone() },
                    replaced,
                },
            );
        }
        let ghost named = shared@;
        match shared.claim_port(wish.kind, wish.port, name) {
            Ok(_) => {},
            Err(e) => {
                shared.remove_if_owner(name, owner);
                assert(shared@.names =~= detached(
                    Books { tunnels: old(self)@, shared: old(shared)@ },
                    np.tunnel_name@,
                    owner@,
                ).shared.names);
                return Err(Refused { error: RegisterError::Port(e), replaced });
            },
        }
        Ok(
            StartPlan {
                name: np.tunnel_name.clone(),
                kind: wish.kind,
                port: wish.port,
                gw_port: wish.gw_port,
                packet_size: if udp_packet_size < MIN_UDP_PACKET_SIZE {
                    MIN_UDP_PACKET_SIZE
                } else {
                    udp_packet_size
                },
                replaced,
            },
        )
    }

    /// Completes the registration of a tunnel that has started, for these domains, or
    /// has not. Where it is told `AlreadyPresent`, the tunnel that started must be
    /// closed.
    pub fn complete(
        &mut self,
        shared: &mut Shared,
        owner: &TunnelOwner,
        plan: &StartPlan,
        started: Result<Vec<String>, String>,
        local_addr: String,
    ) -> (r: Result<String, RegisterError>)
        requires
            old(self).wf(),
            old(shared).wf(),
        ensures
            final(self).wf(),
            final(shared).wf(),
            ({
                let b = Books { tunnels: old(self)@, shared: old(shared)@ };
                let slot = started_slot(*plan, started, local_addr@);
                let error = match started {
                    Ok(_) => None,
                    Err(e) => Some(e@),
                };
                let (after, result) = completed(b, owner@, plan.name@, slot, error);
                &&& final(self)@ == after.tunnels
                &&& final(shared)@ == after.shared
                &&& match r {
                    Ok(addr) => result is Ok && addr@ == remote_addr(
                        plan.port,
                        plan.gw_port,
                        texts(started->Ok_0@),
                    ),
                    Err(e) => result == Err::<(), RefusalView>(e@),
                }
            }),
            r is Ok ==> final(self).names() == old(self).names().push(plan.name@),
            r is Err ==> final(self).names() == old(self).names(),
    {
        let ghost b = Books { tunnels: self@, shared: shared@ };
        let ghost made = started_slot(*plan, started, local_addr@);
        match started {
            Err(error) => {
                shared.release_port(plan.kind, plan.port, plan.name.as_str());
                shared.remove_if_owner(plan.name.as_str(), owner);
                Err(RegisterError::Start { error })
            },
            Ok(domains) => {
                if self.slots.contains(plan.name.as_str()) {
                    shared.release_port(plan.kind, plan.port, plan.name.as_str());
                    shared.remove_if_owner(plan.name.as_str(), owner);
                    return Err(RegisterError::AlreadyPresent { name: plan.name.clone() });
                }
                let addr = match plan.port {
                    Some(p) => ":".to_owned().concat(decimal_str(p as u64).as_str()),
                    None => match plan.gw_port {
                        Some(g) => domain_addrs(&domains, g),
                        None => "".to_owned(),
                    },
                };
                let slot = TunnelSlot {
                    kind: plan.kind,
                    remote_port: plan.port,
                    local_addr,
                    remote_addr: addr.clone(),
                };
                assert(slot.held() =~= made);
                self.slots.insert(plan.name.clone(), slot);
                assert(self@ =~= b.tunnels.insert(plan.name@, made));
                Ok(addr)
            },
        }
    }

    /// Lets go of every tunnel and of what it holds; tells their names and kinds, in
    /// the order in which they came.
    pub fn close_all(&mut self, shared: &mut Shared, owner: &TunnelOwner) -> (r: Vec<
        (String, TunnelKind),
    >)
        requires
            old(self).wf(),
            old(shared).wf(),
        ensures
            final(self).wf(),
            final(shared).wf(),
            (Books { tunnels: final(self)@, shared: final(shared)@ }) == all_detached(
                Books { tunnels: old(self)@, shared: old(shared)@ },
                old(self).names(),
                owner@,
            ),
            final(self)@ == Map::<Seq<char>, SlotView>::empty(),
            final(self).names() == Seq::<Seq<char>>::empty(),
            r@.len() == old(self).names().len(),
            forall|i: int|
                0 <= i < r@.len() ==> (#[trigger] r@[i]).0@ == old(self).names()[i] && r@[i].1
                    == old(self)@[r@[i].0@].kind,
    {
        let ghost b = Books { tunnels: self@, shared: shared@ };
        let ghost names = self.names();
        let ghost before = *self;
        let mut out: Vec<(String, TunnelKind)> = Vec::new();
        let n: usize = self.slots.len();
        let mut i: usize = 0;
        while i < n
            invariant
                i <= n,
                n == self.slots.list().len(),
                *self == before,
                self.wf(),
                names == self.names(),
                b.tunnels == self@,
                out@.len() == i,
                forall|j: int|
                    0 <= j < i ==> (#[trigger] out@[j]).0@ == names[j] && out@[j].1
                        == b.tunnels[names[j]].kind,
            decreases n - i,
        {
            let e = self.slots.at(i);
            proof {
                self.slots.lemma_at(i as int);
            }
            out.push((e.0.clone(), e.1.kind));
            i += 1;
        }
        let mut k: usize = 0;
        assert(names.take(0) =~= Seq::empty());
        while k < n
            invariant
                k <= n,
                n == names.len(),
                out@.len() == n,
                self.wf(),
                shared.wf(),
                forall|j: int|
                    0 <= j < n ==> (#[trigger] out@[j]).0@ == names[j] && out@[j].1
                        == b.tunnels[names[j]].kind,
                (Books { tunnels: self@, shared: shared@ }) == all_detached(
                    b,
                    names.take(k as int),
                    owner@,
                ),
            decreases n - k,
        {
            self.detach(shared, out[k].0.as_str(), owner);
            assert(names.take(k + 1).drop_last() =~= names.take(k as int));
            k += 1;
        }
        proof {
            assert(names.take(k as int) =~= names);
            lemma_all_detached_tunnels(b, names, owner@);
            assert forall|name: Seq<char>| b.tunnels.dom().contains(name) implies names.contains(
                name,
            ) by {
                assert(before.slots@.dom().contains(name));
                let j = choose|j: int| stands_at(before.slots.list(), name, j);
                assert(names[j] == name);
            }
            assert forall|name: Seq<char>| !self@.dom().contains(name) by {
                assert(all_detached(b, names, owner@).tunnels == self@);
            }
            assert(self@ =~= Map::empty());
            self.names_are_the_tunnels();
            assert(self.names() =~= Seq::empty()) by {
                if self.names().len() > 0 {
                    assert(self.names().to_set().contains(self.names()[0]));
                }
            }
        }
        out
    }
}

/// The books after a session let go of some tunnels, one by one.
pub open spec fn all_detached(b: Books, names: Seq<Seq<char>>, owner: OwnerView) -> Books
    decreases names.len(),
{
    if names.len() == 0 {
        b
    } else {
        detached(all_detached(b, names.drop_last(), owner), names.last(), owner)
    }
}

proof fn lemma_all_detached_tunnels(b: Books, names: Seq<Seq<char>>, owner: OwnerView)
    ensures
        forall|name: Seq<char>| #[trigger]
            all_detached(b, names, owner).tunnels.dom().contains(name) <==> (
            b.tunnels.dom().contains(name) && !names.contains(name)),
    decreases names.len(),
{
    if names.len() > 0 {
        let front = names.drop_last();
        lemma_all_detached_tunnels(b, front, owner);
        assert forall|name: Seq<char>| #[trigger]
            all_detached(b, names, owner).tunnels.dom().contains(name) <==> (
            b.tunnels.dom().contains(name) && !names.contains(name)) by {
            let mid = all_detached(b, front, owner);
            assert(mid.tunnels.dom().contains(name) <==> (b.tunnels.dom().contains(name)
                && !front.contains(name)));
            if names.contains(name) && name != names.last() {
                let k = names.index_of(name);
                assert(front[k] == name);
            }
            if front.contains(name) {
                let k = front.index_of(name);
                assert(names[k] == name);
            }
            assert(names[names.len() - 1] == names.last());
        }
    }
}

fn wish_of(np: &NewTunnel, gws: Gateways) -> (r: Result<Wish, RegisterError>)
    ensures
        match r {
            Ok(w) => wish(*np, gws) == Ok::<Wish, RefusalView>(w) && (w.port is Some ==> w.port->0
                != 0),
            Err(e) => wish(*np, gws) == Err::<Wish, RefusalView>(e@) && !is_late(e@),
        },
{
    let p = np.protocol.as_str();
    let tcp = same(p, "tcp");
    if tcp || same(p, "udp") {
        if np.remote_port <= 0 || np.remote_port > 65535 {
            Err(RegisterError::RemotePort)
        } else {
            Ok(
                Wish {
                    kind: if tcp {
                        TunnelKind::Tcp
                    } else {
                        TunnelKind::Udp
                    },
                    port: Some(np.remote_port as u16),
                    gw_port: None,
                },
            )
        }
    } else if same(p, "http") {
        match gws.http {
            Some(g) => Ok(Wish { kind: TunnelKind::Http, port: None, gw_port: Some(g) }),
            None => Err(RegisterError::HttpGwMissing),
        }
    } else if same(p, "https") {
        match gws.https {
            Some(g) => Ok(Wish { kind: TunnelKind::Https, port: None, gw_port: Some(g) }),
            None => Err(RegisterError::HttpsGwMissing),
        }
    } else {
        Err(RegisterError::Protocol { protocol: np.protocol.clone() })
    }
}

/// The answer to a client that asked for a tunnel.
pub fn tunnel_answer(np: &NewTunnel, result: Result<String, RegisterError>) -> (r: NewTunnelResp)
    ensures
        r.tunnel_name@ == np.tunnel_name@,
        match result {
            Ok(addr) => r.remote_addr@ == addr@ && r.error@ == ""@,
            Err(e) => r.remote_addr@ == ""@ && r.error@ == e.text(),
        },
{
    match result {
        Ok(remote_addr) => NewTunnelResp {
            tunnel_name: np.tunnel_name.clone(),
            remote_addr,
            error: "".to_owned(),
        },
        Err(e) => NewTunnelResp {
            tunnel_name: np.tunnel_name.clone(),
            remote_addr: "".to_owned(),
            error: e.message(),
        },
    }
}

/// Whether a tunnel has its name and its port.
pub open spec fn is_held(sh: SharedView, name: Seq<char>, slot: SlotView, owner: OwnerView) -> bool {
    &&& sh.names.dom().contains(name) && sh.names[name] == owner
    &&& slot.kind == TunnelKind::Tcp && slot.port is Some ==> sh.tcp.dom().contains(slot.port->0)
        && sh.tcp[slot.port->0] == name
    &&& slot.kind == TunnelKind::Udp && slot.port is Some ==> sh.udp.dom().contains(slot.port->0)
        && sh.udp[slot.port->0] == name
}

/// Whether every tunnel of a session has its name and its port.
pub open spec fn sound(b: Books, owner: OwnerView) -> bool {
    forall|name: Seq<char>| #[trigger]
        b.tunnels.dom().contains(name) ==> is_held(b.shared, name, b.tunnels[name], owner)
}

/// Giving back what one tunnel holds leaves what another holds.
proof fn lemma_others_keep(
    sh: SharedView,
    name: Seq<char>,
    slot: SlotView,
    owner: OwnerView,
    other: Seq<char>,
    other_slot: SlotView,
    other_owner: OwnerView,
)
    requires
        is_held(sh, other, other_slot, other_owner),
        other != name,
    ensures
        is_held(sh.without_slot(name, slot, owner), other, other_slot, other_owner),
{
}

/// Letting go of a tunnel leaves every other tunnel of the session with its name and
/// its port, and so every tunnel of every other session.
pub proof fn detaching_spares_others(
    b: Books,
    owner: OwnerView,
    name: Seq<char>,
    other: Books,
    other_owner: OwnerView,
)
    requires
        sound(b, owner),
        sound(other, other_owner),
        other.shared == b.shared,
        other_owner != owner,
    ensures
        sound(detached(b, name, owner), owner),
        sound(Books { shared: detached(b, name, owner).shared, ..other }, other_owner),
{
    let after = detached(b, name, owner);
    if b.tunnels.dom().contains(name) {
        let slot = b.tunnels[name];
        assert forall|n: Seq<char>| #[trigger] after.tunnels.dom().contains(n) implies is_held(
            after.shared,
            n,
            after.tunnels[n],
            owner,
        ) by {
            assert(b.tunnels.dom().contains(n));
            lemma_others_keep(b.shared, name, slot, owner, n, b.tunnels[n], owner);
        }
        assert forall|n: Seq<char>| #[trigger] other.tunnels.dom().contains(n) implies is_held(
            after.shared,
            n,
            other.tunnels[n],
            other_owner,
        ) by {
            assert(is_held(b.shared, name, slot, owner));
            lemma_others_keep(b.shared, name, slot, owner, n, other.tunnels[n], other_owner);
        }
    }
}

/// The tunnel that comes of a wish, at these addresses.
pub open spec fn wished_slot(w: Wish, local: Seq<char>, remote: Seq<char>) -> SlotView {
    SlotView { kind: w.kind, port: w.port, local, remote }
}

/// A registration never takes a name or a port from a tunnel: every tunnel of the
/// session, but for one of the same name, and every tunnel of every other session
/// keeps what it holds, whether the registration succeeds or not. Where it goes on,
/// the new tunnel has its name and its port.
pub proof fn registering_spares_others(
    b: Books,
    owner: OwnerView,
    closed: bool,
    np: NewTunnel,
    gws: Gateways,
    limit_error: Option<Seq<char>>,
    local: Seq<char>,
    remote: Seq<char>,
    other: Books,
    other_owner: OwnerView,
)
    requires
        sound(b, owner),
        sound(other, other_owner),
        other.shared == b.shared,
        other_owner != owner,
    ensures
        ({
            let (after, result) = begun(b, owner, closed, np, gws, limit_error);
            &&& sound(after, owner)
            &&& sound(Books { shared: after.shared, ..other }, other_owner)
            &&& result matches Ok(w) ==> is_held(
                after.shared,
                np.tunnel_name@,
                wished_slot(w, local, remote),
                owner,
            ) && !after.tunnels.dom().contains(np.tunnel_name@)
        }),
{
    let name = np.tunnel_name@;
    let free = detached(b, name, owner);
    detaching_spares_others(b, owner, name, other, other_owner);
    let (after, result) = begun(b, owner, closed, np, gws, limit_error);
    assert forall|n: Seq<char>| #[trigger] after.tunnels.dom().contains(n) implies is_held(
        after.shared,
        n,
        after.tunnels[n],
        owner,
    ) by {
        if result is Ok {
            assert(free.tunnels.dom().contains(n));
        }
    }
    let seen = Books { shared: free.shared, ..other };
    assert forall|n: Seq<char>| #[trigger] other.tunnels.dom().contains(n) implies is_held(
        after.shared,
        n,
        other.tunnels[n],
        other_owner,
    ) by {
        if result is Ok {
            assert(seen.tunnels.dom().contains(n));
        }
    }
}

/// A registration whose second half fails leaves no trace beyond the tunnel of the
/// same name that it ended: names and ports are as they were after that.
pub proof fn failed_start_leaves_no_trace(
    b: Books,
    owner: OwnerView,
    np: NewTunnel,
    gws: Gateways,
    local: Seq<char>,
    remote: Seq<char>,
    error: Seq<char>,
)
    requires
        sound(b, owner),
        begun(b, owner, false, np, gws, None).1 is Ok,
    ensures
        ({
            let (mid, result) = begun(b, owner, false, np, gws, None);
            let w = result->Ok_0;
            let slot = wished_slot(w, local, remote);
            completed(mid, owner, np.tunnel_name@, slot, Some(error)).0 == detached(
                b,
                np.tunnel_name@,
                owner,
            )
        }),
{
    let name = np.tunnel_name@;
    let free = detached(b, name, owner);
    let (mid, result) = begun(b, owner, false, np, gws, None);
    let w = result->Ok_0;
    let slot = wished_slot(w, local, remote);
    let out = completed(mid, owner, name, slot, Some(error)).0;
    assert(out.shared.tcp =~= free.shared.tcp);
    assert(out.shared.udp =~= free.shared.udp);
    assert(out.shared.names =~= free.shared.names);
    assert(out =~= free);
}

/// A registration that succeeds in both halves gives the session the tunnel, with its
/// name and its port.
pub proof fn registered_tunnel_is_held(
    b: Books,
    owner: OwnerView,
    np: NewTunnel,
    gws: Gateways,
    local: Seq<char>,
    remote: Seq<char>,
)
    requires
        sound(b, owner),
        begun(b, owner, false, np, gws, None).1 is Ok,
    ensures
        ({
            let (mid, result) = begun(b, owner, false, np, gws, None);
            let w = result->Ok_0;
            let slot = wished_slot(w, local, remote);
            let (after, done) = completed(mid, owner, np.tunnel_name@, slot, None);
            &&& done is Ok
            &&& sound(after, owner)
            &&& after.tunnels.dom().contains(np.tunnel_name@)
            &&& after.tunnels[np.tunnel_name@] == slot
        }),
{
    let name = np.tunnel_name@;
    let nobody = OwnerView {
        session_id: owner.session_id,
        generation: if owner.generation == 0 {
            1
        } else {
            0
        },
    };
    let none = Books { tunnels: Map::empty(), shared: b.shared };
    registering_spares_others(b, owner, false, np, gws, None, local, remote, none, nobody);
    let (mid, result) = begun(b, owner, false, np, gws, None);
    let w = result->Ok_0;
    let slot = wished_slot(w, local, remote);
    let after = completed(mid, owner, name, slot, None).0;
    assert forall|n: Seq<char>| #[trigger] after.tunnels.dom().contains(n) implies is_held(
        after.shared,
        n,
        after.tunnels[n],
        owner,
    ) by {
        if n != name {
            assert(mid.tunnels.dom().contains(n));
        }
    }
}

/// Closing every tunnel of a session gives back every name and port that they had,
/// and nothing that another session has.
pub proof fn closing_all_gives_everything_back(
    b: Books,
    names: Seq<Seq<char>>,
    owner: OwnerView,
    name: Seq<char>,
    other: Books,
    other_owner: OwnerView,
)
    requires
        sound(b, owner),
        sound(other, other_owner),
        other.shared == b.shared,
        other_owner != owner,
    ensures
        ({
            let after = all_detached(b, names, owner);
            &&& sound(after, owner)
            &&& sound(Books { shared: after.shared, ..other }, other_owner)
            &&& b.tunnels.dom().contains(name) && names.contains(name) ==> {
                &&& !after.shared.names.dom().contains(name)
                &&& b.tunnels[name].kind == TunnelKind::Tcp && b.tunnels[name].port is Some
                    ==> !after.shared.tcp.dom().contains(b.tunnels[name].port->0)
                &&& b.tunnels[name].kind == TunnelKind::Udp && b.tunnels[name].port is Some
                    ==> !after.shared.udp.dom().contains(b.tunnels[name].port->0)
            }
        }),
    decreases names.len(),
{
    if names.len() > 0 {
        let front = names.drop_last();
        let last = names.last();
        let mid = all_detached(b, front, owner);
        closing_all_gives_everything_back(b, front, owner, name, other, other_owner);
        let seen = Books { shared: mid.shared, ..other };
        detaching_spares_others(mid, owner, last, seen, other_owner);
        lemma_all_detached_tunnels(b, front, owner);
        lemma_all_detached_kept(b, front, owner, name);
        if names.contains(name) && name != last {
            let k = names.index_of(name);
            assert(front[k] == name);
        }
        if b.tunnels.dom().contains(name) && !front.contains(name) && name == last {
            assert(mid.tunnels.dom().contains(name));
            assert(is_held(mid.shared, name, mid.tunnels[name], owner));
        }
        let after = all_detached(b, names, owner);
        assert(Books { shared: after.shared, ..seen } == Books { shared: after.shared, ..other });
    }
}

proof fn lemma_all_detached_kept(
    b: Books,
    names: Seq<Seq<char>>,
    owner: OwnerView,
    name: Seq<char>,
)
    ensures
        all_detached(b, names, owner).tunnels.dom().contains(name) ==> all_detached(
            b,
            names,
            owner,
        ).tunnels[name] == b.tunnels[name],
    decreases names.len(),
{
    if names.len() > 0 {
        lemma_all_detached_kept(b, names.drop_last(), owner, name);
    }
}

} // verus!
