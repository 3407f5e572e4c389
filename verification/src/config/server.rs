//! The settings of the server.
use vstd::prelude::*;
use vstd::string::*;

use crate::config::host_port::{
    host_port, joined, join_host_port, parse_host_port, HostPortError, HostPortFault, DEFAULT_HOST,
};
use crate::config::host_port::{is_plain_host, joined_splits_back};
use crate::text::{decimal, is_blank, lower_all, trim};
use crate::text::{decimal_str, is_blank_str, same, same_ignoring_case, trim_str};
use crate::text::lemma_trim_tight;
use crate::transport::{normalize_ws_path, ws_path, ws_path_settles, ORBIEN_WEBSOCKET_PATH};

verus! {

pub const DEFAULT_LISTEN_PORT: u16 = 9527;

pub const DEFAULT_UDP_PACKET_SIZE: usize = 1500;

/// How a client proves who it is.
#[derive(Debug, Clone, PartialEq, Eq)]
pub struct AuthConfig {
    pub auth_type: String,
    pub token: String,
}

pub struct AuthView {
    pub auth_type: Seq<char>,
    pub token: Seq<char>,
}

impl View for AuthConfig {
    type V = AuthView;

    open spec fn view(&self) -> AuthView {
        AuthView { auth_type: self.auth_type@, token: self.token@ }
    }
}

impl Default for AuthConfig {
    fn default() -> (r: Self)
        ensures
            r.auth_type@.len() == 0,
            r.token@.len() == 0,
    {
        AuthConfig { auth_type: String::new(), token: String::new() }
    }
}

/// Limits of the QUIC transport.
#[derive(Debug, Clone, Copy, PartialEq, Eq, Structural)]
pub struct QuicOptions {
    pub keepalive_period: u64,
    pub max_idle_timeout: u64,
    pub max_incoming_streams: u32,
}

impl Default for QuicOptions {
    fn default() -> (r: Self)
        ensures
            r == (QuicOptions {
                keepalive_period: 10,
                max_idle_timeout: 30,
                max_incoming_streams: 100_000,
            }),
    {
        QuicOptions {
            keepalive_period: 10,
            max_idle_timeout: 30,
            max_incoming_streams: 100_000,
        }
    }
}

/// At least one second.
pub open spec fn at_least_one(secs: u64) -> u64 {
    if secs < 1 {
        1
    } else {
        secs
    }
}

impl QuicOptions {
    /// How often to send a sign of life, in seconds.
    pub fn keepalive(&self) -> (r: u64)
        ensures
            r == at_least_one(self.keepalive_period),
    {
        if self.keepalive_period < 1 {
            1
        } else {
            self.keepalive_period
        }
    }

    /// How long silence is borne, in seconds.
    pub fn idle_timeout(&self) -> (r: u64)
        ensures
            r == at_least_one(self.max_idle_timeout),
    {
        if self.max_idle_timeout < 1 {
            1
        } else {
            self.max_idle_timeout
        }
    }
}

/// The certificates of the server.
#[derive(Debug, Clone, PartialEq, Eq)]
pub struct ServerTlsConfig {
    pub force: bool,
    pub cert_file: String,
    pub key_file: String,
    pub trusted_ca_file: String,
}

pub struct ServerTlsView {
    pub force: bool,
    pub cert_file: Seq<char>,
    pub key_file: Seq<char>,
    pub trusted_ca_file: Seq<char>,
}

impl View for ServerTlsConfig {
    type V = ServerTlsView;

    open spec fn view(&self) -> ServerTlsView {
        ServerTlsView {
            force: self.force,
            cert_file: self.cert_file@,
            key_file: self.key_file@,
            trusted_ca_file: self.trusted_ca_file@,
        }
    }
}

impl Default for ServerTlsConfig {
    fn default() -> (r: Self)
        ensures
            !r.force,
            r.cert_file@.len() == 0,
            r.key_file@.len() == 0,
            r.trusted_ca_file@.len() == 0,
    {
        ServerTlsConfig {
            force: false,
            cert_file: String::new(),
            key_file: String::new(),
            trusted_ca_file: String::new(),
        }
    }
}

/// How the server talks to its clients.
#[derive(Debug, Clone, PartialEq, Eq)]
pub struct ServerTransportConfig {
    pub tcp_mux: bool,
    pub mux_keepalive_secs: i64,
    pub max_conn_pool: i64,
    pub heartbeat_timeout: i64,
    pub quic: QuicOptions,
    pub ws_path: String,
    pub tls: ServerTlsConfig,
}

pub struct ServerTransportView {
    pub tcp_mux: bool,
    pub mux_keepalive_secs: i64,
    pub max_conn_pool: i64,
    pub heartbeat_timeout: i64,
    pub quic: QuicOptions,
    pub ws_path: Seq<char>,
    pub tls: ServerTlsView,
}

impl View for ServerTransportConfig {
    type V = ServerTransportView;

    open spec fn view(&self) -> ServerTransportView {
        ServerTransportView {
            tcp_mux: self.tcp_mux,
            mux_keepalive_secs: self.mux_keepalive_secs,
            max_conn_pool: self.max_conn_pool,
            heartbeat_timeout: self.heartbeat_timeout,
            quic: self.quic,
            ws_path: self.ws_path@,
            tls: self.tls@,
        }
    }
}

/// The transport settings that hold where nothing is set.
pub open spec fn default_server_transport() -> ServerTransportView {
    ServerTransportView {
        tcp_mux: true,
        mux_keepalive_secs: 30,
        max_conn_pool: 0,
        heartbeat_timeout: 0,
        quic: QuicOptions {
            keepalive_period: 10,
            max_idle_timeout: 30,
            max_incoming_streams: 100_000,
        },
        ws_path: ORBIEN_WEBSOCKET_PATH@,
        tls: ServerTlsView {
            force: false,
            cert_file: Seq::empty(),
            key_file: Seq::empty(),
            trusted_ca_file: Seq::empty(),
        },
    }
}

impl Default for ServerTransportConfig {
    fn default() -> (r: Self)
        ensures
            r@ == default_server_transport(),
    {
        let r = ServerTransportConfig {
            tcp_mux: true,
            mux_keepalive_secs: 30,
            max_conn_pool: 0,
            heartbeat_timeout: 0,
            quic: QuicOptions::default(),
            ws_path: ORBIEN_WEBSOCKET_PATH.to_owned(),
            tls: ServerTlsConfig::default(),
        };
        assert(r@.tls.cert_file =~= Seq::empty());
        assert(r@.tls.key_file =~= Seq::empty());
        assert(r@.tls.trusted_ca_file =~= Seq::empty());
        r
    }
}

/// The web page that shows what the server does.
#[derive(Debug, Clone, PartialEq, Eq)]
pub struct DashboardConfig {
    pub addr: String,
    pub port: u16,
    pub user: String,
    pub password: String,
}

pub struct DashboardView {
    pub addr: Seq<char>,
    pub port: u16,
    pub user: Seq<char>,
    pub password: Seq<char>,
}

impl View for DashboardConfig {
    type V = DashboardView;

    open spec fn view(&self) -> DashboardView {
        DashboardView {
            addr: self.addr@,
            port: self.port,
            user: self.user@,
            password: self.password@,
        }
    }
}

impl DashboardView {
    /// The settings with what was left open filled in.
    pub open spec fn completed(self) -> DashboardView {
        DashboardView {
            addr: if is_blank(self.addr) {
                "127.0.0.1"@
            } else {
                self.addr
            },
            ..self
        }
    }

    /// Whether the page is served without the credentials that it needs.
    pub open spec fn lacks_credentials(self) -> bool {
        self.port > 0 && (is_blank(self.user) || is_blank(self.password))
    }
}

impl Default for DashboardConfig {
    fn default() -> (r: Self)
        ensures
            r.addr@.len() == 0,
            r.port == 0,
            r.user@.len() == 0,
            r.password@.len() == 0,
    {
        DashboardConfig {
            addr: String::new(),
            port: 0,
            user: String::new(),
            password: String::new(),
        }
    }
}

impl DashboardConfig {
    /// Fills in what was left open.
    pub fn complete(&mut self)
        ensures
            final(self)@ == old(self)@.completed(),
    {
        if is_blank_str(self.addr.as_str()) {
            self.addr = "127.0.0.1".to_owned();
        }
    }

    /// Whether the page is served.
    pub fn enabled(&self) -> (r: bool)
        ensures
            r == (self.port > 0),
    {
        self.port > 0
    }

    /// Refuses a page without credentials.
    pub fn validate(&self) -> (r: Result<(), ServerConfigError>)
        ensures
            match r {
                Ok(_) => !self@.lacks_credentials(),
                Err(e) => self@.lacks_credentials() && e@ == ServerFault::DashboardCredentials,
            },
    {
        if !self.enabled() {
            return Ok(());
        }
        if is_blank_str(self.user.as_str()) || is_blank_str(self.password.as_str()) {
            return Err(ServerConfigError::DashboardCredentials);
        }
        Ok(())
    }
}

/// Why the settings of a server are refused.
#[derive(Debug, Clone, PartialEq, Eq)]
pub enum ServerConfigError {
    InvalidListen { listen: String, cause: HostPortError },
    QuicKcpPort { port: u16 },
    HttpGwListen { port: u16, listen: String, listen_host: String, proxy_addr: String },
    HttpsGwListen { port: u16, listen: String, listen_host: String, proxy_addr: String },
    GwPorts { port: u16 },
    DashboardCredentials,
}

pub enum ServerFault {
    /// The cause, and the text that it is about.
    InvalidListen { listen: Seq<char>, cause: HostPortFault, raw: Seq<char> },
    QuicKcpPort { port: u16 },
    HttpGwListen { port: u16, listen: Seq<char>, listen_host: Seq<char>, proxy_addr: Seq<char> },
    HttpsGwListen { port: u16, listen: Seq<char>, listen_host: Seq<char>, proxy_addr: Seq<char> },
    GwPorts { port: u16 },
    DashboardCredentials,
}

impl View for ServerConfigError {
    type V = ServerFault;

    open spec fn view(&self) -> ServerFault {
        match self {
            ServerConfigError::InvalidListen { listen, cause } => ServerFault::InvalidListen {
                listen: listen@,
                cause: cause.fault,
                raw: cause.raw@,
            },
            ServerConfigError::QuicKcpPort { port } => ServerFault::QuicKcpPort { port: *port },
            ServerConfigError::HttpGwListen { port, listen, listen_host, proxy_addr } =>
                ServerFault::HttpGwListen {
                port: *port,
                listen: listen@,
                listen_host: listen_host@,
                proxy_addr: proxy_addr@,
            },
            ServerConfigError::HttpsGwListen { port, listen, listen_host, proxy_addr } =>
                ServerFault::HttpsGwListen {
                port: *port,
                listen: listen@,
                listen_host: listen_host@,
                proxy_addr: proxy_addr@,
            },
            ServerConfigError::GwPorts { port } => ServerFault::GwPorts { port: *port },
            ServerConfigError::DashboardCredentials => ServerFault::DashboardCredentials,
        }
    }
}

impl ServerFault {
    /// The text that tells a user what is wrong.
    pub open spec fn text(self) -> Seq<char> {
        match self {
            ServerFault::InvalidListen { listen, .. } => "invalid listen '"@ + listen + "'"@,
            ServerFault::QuicKcpPort { port } =>
                "quicPort and kcpPort both use UDP and must differ (got "@ + decimal(port as nat)
                + ")"@,
            ServerFault::HttpGwListen { port, listen, listen_host, proxy_addr } => "httpGwPort ("@
                + decimal(port as nat) + ") must not share a TCP listen with listen ("@ + listen
                + ") on overlapping addresses (listen host="@ + listen_host + ", proxyAddr="@
                + proxy_addr
                + "). HTTP gateway and the control/WebSocket listener are separate sockets; put HTTP on 80 (or another free port), keep control on listen."@,
            ServerFault::HttpsGwListen { port, listen, listen_host, proxy_addr } =>
                "httpsGwPort ("@ + decimal(port as nat)
                + ") must not share a TCP listen with listen ("@ + listen
                + ") on overlapping addresses (listen host="@ + listen_host + ", proxyAddr="@
                + proxy_addr
                + "). HTTPS visitors and control TLS both start with 0x16; Orbien does not mux them on one port. Use 443 (or another free port) for HTTPS gateway."@,
            ServerFault::GwPorts { port } =>
                "httpGwPort and httpsGwPort must differ (both set to "@ + decimal(port as nat)
                + ")"@,
            ServerFault::DashboardCredentials =>
                "dashboard.user and dashboard.password are required when dashboard.port > 0"@,
        }
    }
}

impl ServerConfigError {
    /// The text that tells a user what is wrong.
    pub fn message(&self) -> (r: String)
        ensures
            r@ == self@.text(),
    {
        match self {
            ServerConfigError::InvalidListen { listen, .. } => "invalid listen '".to_owned().concat(
                listen.as_str(),
            ).concat("'"),
            ServerConfigError::QuicKcpPort { port } =>
                "quicPort and kcpPort both use UDP and must differ (got ".to_owned().concat(
                decimal_str(*port as u64).as_str(),
            ).concat(")"),
            ServerConfigError::HttpGwListen { port, listen, listen_host, proxy_addr } =>
                "httpGwPort (".to_owned().concat(decimal_str(*port as u64).as_str()).concat(
                ") must not share a TCP listen with listen (",
            ).concat(listen.as_str()).concat(
                ") on overlapping addresses (listen host=",
            ).concat(listen_host.as_str()).concat(", proxyAddr=").concat(
                proxy_addr.as_str(),
            ).concat(
                "). HTTP gateway and the control/WebSocket listener are separate sockets; put HTTP on 80 (or another free port), keep control on listen.",
            ),
            ServerConfigError::HttpsGwListen { port, listen, listen_host, proxy_addr } =>
                "httpsGwPort (".to_owned().concat(decimal_str(*port as u64).as_str()).concat(
                ") must not share a TCP listen with listen (",
            ).concat(listen.as_str()).concat(
                ") on overlapping addresses (listen host=",
            ).concat(listen_host.as_str()).concat(", proxyAddr=").concat(
                proxy_addr.as_str(),
            ).concat(
                "). HTTPS visitors and control TLS both start with 0x16; Orbien does not mux them on one port. Use 443 (or another free port) for HTTPS gateway.",
            ),
            ServerConfigError::GwPorts { port } =>
                "httpGwPort and httpsGwPort must differ (both set to ".to_owned().concat(
                decimal_str(*port as u64).as_str(),
            ).concat(")"),
            ServerConfigError::DashboardCredentials =>
                "dashboard.user and dashboard.password are required when dashboard.port > 0".to_owned(),
        }
    }
}

/// All settings of a server.
#[derive(Debug, Clone, PartialEq, Eq)]
pub struct ServerConfig {
    pub listen: String,
    pub quic_port: u16,
    pub kcp_port: u16,
    pub http_gw_port: u16,
    pub https_gw_port: u16,
    pub root_domain: String,
    pub auth: AuthConfig,
    pub proxy_addr: String,
    pub transport: ServerTransportConfig,
    pub dashboard: DashboardConfig,
    pub udp_packet_size: usize,
}

pub struct ServerConfigView {
    pub listen: Seq<char>,
    pub quic_port: u16,
    pub kcp_port: u16,
    pub http_gw_port: u16,
    pub https_gw_port: u16,
    pub root_domain: Seq<char>,
    pub auth: AuthView,
    pub proxy_addr: Seq<char>,
    pub transport: ServerTransportView,
    pub dashboard: DashboardView,
    pub udp_packet_size: usize,
}

impl View for ServerConfig {
    type V = ServerConfigView;

    open spec fn view(&self) -> ServerConfigView {
        ServerConfigView {
            listen: self.listen@,
            quic_port: self.quic_port,
            kcp_port: self.kcp_port,
            http_gw_port: self.http_gw_port,
            https_gw_port: self.https_gw_port,
            root_domain: self.root_domain@,
            auth: self.auth@,
            proxy_addr: self.proxy_addr@,
            transport: self.transport@,
            dashboard: self.dashboard@,
            udp_packet_size: self.udp_packet_size,
        }
    }
}

/// An address with the default of every part that it leaves out; the default
/// address where it cannot be read.
pub open spec fn listen_completed(listen: Seq<char>) -> Seq<char> {
    match host_port(listen, DEFAULT_LISTEN_PORT) {
        Ok((host, port)) => joined(host, port),
        Err(_) => joined(DEFAULT_HOST@, DEFAULT_LISTEN_PORT),
    }
}

/// The host of an address; the default host where it cannot be read.
pub open spec fn host_or_default(listen: Seq<char>) -> Seq<char> {
    match host_port(listen, DEFAULT_LISTEN_PORT) {
        Ok((host, _)) => host,
        Err(_) => DEFAULT_HOST@,
    }
}

impl ServerTransportView {
    /// The settings with what was left open filled in.
    pub open spec fn completed(self) -> ServerTransportView {
        ServerTransportView {
            max_conn_pool: if self.max_conn_pool == 0 {
                5
            } else {
                self.max_conn_pool
            },
            heartbeat_timeout: if self.heartbeat_timeout != 0 {
                self.heartbeat_timeout
            } else if self.tcp_mux {
                -1i64
            } else {
                90
            },
            tls: ServerTlsView {
                force: self.tls.force || !is_blank(self.tls.trusted_ca_file),
                ..self.tls
            },
            ws_path: ws_path(self.ws_path),
            ..self
        }
    }
}

impl ServerConfigView {
    /// The settings with what was left open filled in.
    pub open spec fn completed(self) -> ServerConfigView {
        let listen = listen_completed(self.listen);
        ServerConfigView {
            listen,
            proxy_addr: if is_blank(self.proxy_addr) {
                host_or_default(listen)
            } else {
                self.proxy_addr
            },
            auth: AuthView {
                auth_type: if is_blank(self.auth.auth_type) {
                    "token"@
                } else {
                    self.auth.auth_type
                },
                ..self.auth
            },
            udp_packet_size: if self.udp_packet_size == 0 {
                DEFAULT_UDP_PACKET_SIZE
            } else {
                self.udp_packet_size
            },
            dashboard: self.dashboard.completed(),
            transport: self.transport.completed(),
            ..self
        }
    }

    /// Whether the listener of a gateway on `port` would meet the one for clients.
    pub open spec fn meets_listen(self, listen_host: Seq<char>, listen_port: u16, port: u16) -> bool {
        port != 0 && listens_conflict(listen_host, listen_port, self.proxy_addr, port)
    }

    /// What is wrong with the settings: the first of the faults that they have, in
    /// the order in which they are looked for.
    pub open spec fn fault(self) -> Option<ServerFault> {
        match host_port(self.listen, DEFAULT_LISTEN_PORT) {
            Err(cause) => Some(
                ServerFault::InvalidListen { listen: self.listen, cause, raw: self.listen },
            ),
            Ok((host, port)) => if self.quic_port != 0 && self.quic_port == self.kcp_port {
                Some(ServerFault::QuicKcpPort { port: self.quic_port })
            } else if self.meets_listen(host, port, self.http_gw_port) {
                Some(
                    ServerFault::HttpGwListen {
                        port: self.http_gw_port,
                        listen: self.listen,
                        listen_host: host,
                        proxy_addr: self.proxy_addr,
                    },
                )
            } else if self.meets_listen(host, port, self.https_gw_port) {
                Some(
                    ServerFault::HttpsGwListen {
                        port: self.https_gw_port,
                        listen: self.listen,
                        listen_host: host,
                        proxy_addr: self.proxy_addr,
                    },
                )
            } else if self.http_gw_port != 0 && self.http_gw_port == self.https_gw_port {
                Some(ServerFault::GwPorts { port: self.http_gw_port })
            } else if self.dashboard.lacks_credentials() {
                Some(ServerFault::DashboardCredentials)
            } else {
                None
            },
        }
    }
}

/// The address that a server listens on unless told otherwise.
fn default_listen() -> (r: String)
    ensures
        r@ == joined(DEFAULT_HOST@, DEFAULT_LISTEN_PORT),
{
    join_host_port(DEFAULT_HOST, DEFAULT_LISTEN_PORT)
}

/// The settings that hold where nothing is set.
pub open spec fn default_server_config() -> ServerConfigView {
    ServerConfigView {
        listen: joined(DEFAULT_HOST@, DEFAULT_LISTEN_PORT),
        quic_port: 0,
        kcp_port: 0,
        http_gw_port: 0,
        https_gw_port: 0,
        root_domain: Seq::empty(),
        auth: AuthView { auth_type: Seq::empty(), token: Seq::empty() },
        proxy_addr: DEFAULT_HOST@,
        transport: default_server_transport(),
        dashboard: DashboardView {
            addr: Seq::empty(),
            port: 0,
            user: Seq::empty(),
            password: Seq::empty(),
        },
        udp_packet_size: DEFAULT_UDP_PACKET_SIZE,
    }
}

impl Default for ServerConfig {
    fn default() -> (r: Self)
        ensures
            r@ == default_server_config(),
    {
        let r = ServerConfig {
            listen: default_listen(),
            quic_port: 0,
            kcp_port: 0,
            http_gw_port: 0,
            https_gw_port: 0,
            root_domain: String::new(),
            auth: AuthConfig::default(),
            proxy_addr: DEFAULT_HOST.to_owned(),
            transport: ServerTransportConfig::default(),
            dashboard: DashboardConfig::default(),
            udp_packet_size: DEFAULT_UDP_PACKET_SIZE,
        };
        assert(r@.auth.auth_type =~= Seq::empty());
        assert(r@.auth.token =~= Seq::empty());
        assert(r@.dashboard.addr =~= Seq::empty());
        assert(r@.dashboard.user =~= Seq::empty());
        assert(r@.dashboard.password =~= Seq::empty());
        r
    }
}

/// The settings before and after the file names in them were resolved: each name
/// is what `resolve` made of it, and all else is as it was.
pub open spec fn server_paths_resolved<F: Fn(&String) -> String>(
    resolve: F,
    before: ServerConfig,
    after: ServerConfig,
) -> bool {
    &&& call_ensures(
        resolve,
        (&before.transport.tls.cert_file,),
        after.transport.tls.cert_file,
    )
    &&& call_ensures(resolve, (&before.transport.tls.key_file,), after.transport.tls.key_file)
    &&& call_ensures(
        resolve,
        (&before.transport.tls.trusted_ca_file,),
        after.transport.tls.trusted_ca_file,
    )
    &&& after == ServerConfig {
        transport: ServerTransportConfig {
            tls: ServerTlsConfig {
                cert_file: after.transport.tls.cert_file,
                key_file: after.transport.tls.key_file,
                trusted_ca_file: after.transport.tls.trusted_ca_file,
                ..before.transport.tls
            },
            ..before.transport
        },
        ..before
    }
}

impl ServerConfig {
    /// Makes the settings read from a file ready for use: `resolve` finds the files
    /// that they name, then what they leave open is filled in and all is checked.
    pub fn prepare<F: Fn(&String) -> String>(self, resolve: F) -> (r: Result<
        ServerConfig,
        ServerConfigError,
    >)
        requires
            forall|p: &String| call_requires(resolve, (p,)),
        ensures
            exists|found: ServerConfig| #[trigger]
                server_paths_resolved(resolve, self, found) && match r {
                    Ok(cfg) => cfg@ == found@.completed() && cfg@.fault() is None,
                    Err(e) => found@.completed().fault() == Some(e@),
                },
    {
        let mut cfg = self;
        cfg.resolve_paths(&resolve);
        let ghost found = cfg;
        cfg.complete();
        assert(server_paths_resolved(resolve, self, found));
        match cfg.validate() {
            Ok(_) => Ok(cfg),
            Err(e) => Err(e),
        }
    }

    /// Replaces the file names in the settings by what `resolve` makes of them.
    fn resolve_paths<F: Fn(&String) -> String>(&mut self, resolve: &F)
        requires
            forall|p: &String| call_requires(*resolve, (p,)),
        ensures
            server_paths_resolved(*resolve, *old(self), *final(self)),
    {
        let cert = resolve(&self.transport.tls.cert_file);
        let key = resolve(&self.transport.tls.key_file);
        let ca = resolve(&self.transport.tls.trusted_ca_file);
        self.transport.tls.cert_file = cert;
        self.transport.tls.key_file = key;
        self.transport.tls.trusted_ca_file = ca;
    }

    /// The settings of a server for which nothing is set.
    pub fn from_defaults() -> (r: ServerConfig)
        ensures
            r@ == default_server_config().completed(),
    {
        let mut cfg = ServerConfig::default();
        cfg.complete();
        cfg
    }

    /// The host on which clients are awaited.
    pub fn listen_host(&self) -> (r: Result<String, HostPortError>)
        ensures
            match r {
                Ok(h) => host_port(self.listen@, DEFAULT_LISTEN_PORT) matches Ok(hp) && hp.0 == h@,
                Err(e) => host_port(self.listen@, DEFAULT_LISTEN_PORT) == Err::<
                    (Seq<char>, u16),
                    HostPortFault,
                >(e.fault) && e.raw@ == self.listen@,
            },
    {
        match parse_host_port(self.listen.as_str(), DEFAULT_LISTEN_PORT) {
            Ok(hp) => Ok(hp.0),
            Err(e) => Err(e),
        }
    }

    /// The port on which clients are awaited.
    pub fn listen_port(&self) -> (r: Result<u16, HostPortError>)
        ensures
            match r {
                Ok(p) => host_port(self.listen@, DEFAULT_LISTEN_PORT) matches Ok(hp) && hp.1 == p,
                Err(e) => host_port(self.listen@, DEFAULT_LISTEN_PORT) == Err::<
                    (Seq<char>, u16),
                    HostPortFault,
                >(e.fault) && e.raw@ == self.listen@,
            },
    {
        match parse_host_port(self.listen.as_str(), DEFAULT_LISTEN_PORT) {
            Ok(hp) => Ok(hp.1),
            Err(e) => Err(e),
        }
    }

    /// Fills in what was left open.
    pub fn complete(&mut self)
        ensures
            final(self)@ == old(self)@.completed(),
    {
        self.listen = match parse_host_port(self.listen.as_str(), DEFAULT_LISTEN_PORT) {
            Ok(hp) => join_host_port(hp.0.as_str(), hp.1),
            Err(_) => default_listen(),
        };
        if is_blank_str(self.proxy_addr.as_str()) {
            self.proxy_addr = match self.listen_host() {
                Ok(host) => host,
                Err(_) => DEFAULT_HOST.to_owned(),
            };
        }
        if is_blank_str(self.auth.auth_type.as_str()) {
            self.auth.auth_type = "token".to_owned();
        }
        if self.udp_packet_size == 0 {
            self.udp_packet_size = DEFAULT_UDP_PACKET_SIZE;
        }
        self.dashboard.complete();
        if self.transport.max_conn_pool == 0 {
            self.transport.max_conn_pool = 5;
        }
        if self.transport.heartbeat_timeout == 0 {
            self.transport.heartbeat_timeout = if self.transport.tcp_mux {
                -1
            } else {
                90
            };
        }
        if !is_blank_str(self.transport.tls.trusted_ca_file.as_str()) {
            self.transport.tls.force = true;
        }
        self.transport.ws_path = normalize_ws_path(self.transport.ws_path.as_str());
    }

    /// Refuses settings that cannot work.
    pub fn validate(&self) -> (r: Result<(), ServerConfigError>)
        ensures
            match r {
                Ok(_) => self@.fault() is None,
                Err(e) => self@.fault() == Some(e@),
            },
    {
        let (host, port) = match parse_host_port(self.listen.as_str(), DEFAULT_LISTEN_PORT) {
            Ok(hp) => hp,
            Err(cause) => {
                return Err(
                    ServerConfigError::InvalidListen { listen: self.listen.clone(), cause },
                );
            },
        };
        if self.quic_enabled() && self.kcp_enabled() && self.quic_port == self.kcp_port {
            return Err(ServerConfigError::QuicKcpPort { port: self.quic_port });
        }
        if self.http_gw_enabled() && tcp_listen_conflicts(
            host.as_str(),
            port,
            self.proxy_addr.as_str(),
            self.http_gw_port,
        ) {
            return Err(
                ServerConfigError::HttpGwListen {
                    port: self.http_gw_port,
                    listen: self.listen.clone(),
                    listen_host: host,
                    proxy_addr: self.proxy_addr.clone(),
                },
            );
        }
        if self.https_gw_enabled() && tcp_listen_conflicts(
            host.as_str(),
            port,
            self.proxy_addr.as_str(),
            self.https_gw_port,
        ) {
            return Err(
                ServerConfigError::HttpsGwListen {
                    port: self.https_gw_port,
                    listen: self.listen.clone(),
                    listen_host: host,
                    proxy_addr: self.proxy_addr.clone(),
                },
            );
        }
        if self.http_gw_enabled() && self.https_gw_enabled() && self.http_gw_port
            == self.https_gw_port {
            return Err(ServerConfigError::GwPorts { port: self.http_gw_port });
        }
        self.dashboard.validate()
    }

    pub fn quic_enabled(&self) -> (r: bool)
        ensures
            r == (self.quic_port != 0),
    {
        self.quic_port != 0
    }

    pub fn kcp_enabled(&self) -> (r: bool)
        ensures
            r == (self.kcp_port != 0),
    {
        self.kcp_port != 0
    }

    pub fn http_gw_enabled(&self) -> (r: bool)
        ensures
            r == (self.http_gw_port != 0),
    {
        self.http_gw_port != 0
    }

    pub fn https_gw_enabled(&self) -> (r: bool)
        ensures
            r == (self.https_gw_port != 0),
    {
        self.https_gw_port != 0
    }
}

/// Whether an address stands for all addresses of the machine.
pub open spec fn is_unspecified(addr: Seq<char>) -> bool {
    addr == "0.0.0.0"@ || addr == "::"@ || addr == "[::]"@
}

/// Whether two listeners on these addresses would stand in each other's way if
/// they had the same port.
pub open spec fn addrs_overlap(a: Seq<char>, b: Seq<char>) -> bool {
    let (a, b) = (trim(a), trim(b));
    a.len() == 0 || b.len() == 0 || is_unspecified(a) || is_unspecified(b) || lower_all(a)
        == lower_all(b)
}

/// Whether two TCP listeners cannot both be opened.
pub open spec fn listens_conflict(a: Seq<char>, port_a: u16, b: Seq<char>, port_b: u16) -> bool {
    port_a != 0 && port_a == port_b && addrs_overlap(a, b)
}

/// Whether two TCP listeners cannot both be opened.
pub fn tcp_listen_conflicts(addr_a: &str, port_a: u16, addr_b: &str, port_b: u16) -> (r: bool)
    ensures
        r == listens_conflict(addr_a@, port_a, addr_b@, port_b),
{
    if port_a == 0 || port_b == 0 || port_a != port_b {
        return false;
    }
    listen_addrs_overlap(addr_a, addr_b)
}

/// Whether two addresses can stand for the same one.
pub fn listen_addrs_overlap(a: &str, b: &str) -> (r: bool)
    ensures
        r == addrs_overlap(a@, b@),
{
    let a = trim_str(a);
    let b = trim_str(b);
    if a.is_empty() || b.is_empty() {
        return true;
    }
    if is_unspecified_bind(a) || is_unspecified_bind(b) {
        return true;
    }
    same_ignoring_case(a, b)
}

/// Whether an address stands for all addresses of the machine.
pub fn is_unspecified_bind(addr: &str) -> (r: bool)
    ensures
        r == is_unspecified(addr@),
{
    same(addr, "0.0.0.0") || same(addr, "::") || same(addr, "[::]")
}

/// Whether two listeners conflict does not depend on which of them is named first.
pub proof fn conflict_is_symmetric(a: Seq<char>, port_a: u16, b: Seq<char>, port_b: u16)
    ensures
        listens_conflict(a, port_a, b, port_b) == listens_conflict(b, port_b, a, port_a),
{
}

/// Filling in what was left open a second time changes nothing, wherever the host
/// to listen on is one that an address can be made of and got back from.
pub proof fn completion_settles(c: ServerConfigView)
    requires
        host_port(c.listen, DEFAULT_LISTEN_PORT) matches Ok(hp) ==> is_plain_host(hp.0),
    ensures
        c.completed().completed() == c.completed(),
{
    reveal_strlit("0.0.0.0");
    reveal_strlit("127.0.0.1");
    reveal_strlit("token");
    crate::config::host_port::port_is_zero_only_by_default(c.listen, DEFAULT_LISTEN_PORT);
    let (h, p) = match host_port(c.listen, DEFAULT_LISTEN_PORT) {
        Ok(hp) => hp,
        Err(_) => (DEFAULT_HOST@, DEFAULT_LISTEN_PORT),
    };
    assert(is_plain_host(DEFAULT_HOST@));
    joined_splits_back(h, p, DEFAULT_LISTEN_PORT);
    ws_path_settles(c.transport.ws_path);
    lemma_trim_tight("127.0.0.1"@);
    lemma_trim_tight("token"@);
    let d = c.completed();
    assert(d.completed().listen == d.listen);
    if is_blank(c.proxy_addr) {
        assert(d.proxy_addr == h);
    }
    assert(d.completed().proxy_addr == d.proxy_addr);
}

/// A server for which nothing is set can start.
pub proof fn defaults_are_valid()
    ensures
        default_server_config().completed().fault() is None,
        default_server_config().completed().listen == joined(DEFAULT_HOST@, DEFAULT_LISTEN_PORT),
        default_server_config().completed().proxy_addr == DEFAULT_HOST@,
{
    reveal_strlit("0.0.0.0");
    joined_splits_back(DEFAULT_HOST@, DEFAULT_LISTEN_PORT, DEFAULT_LISTEN_PORT);
    lemma_trim_tight(DEFAULT_HOST@);
}

/// Settings that were filled in name a usable address to listen on: it can be
/// read, and its port is not 0, wherever the host is one that an address can be
/// made of and got back from.
pub proof fn completed_listen_is_readable(c: ServerConfigView)
    requires
        host_port(c.listen, DEFAULT_LISTEN_PORT) matches Ok(hp) ==> is_plain_host(hp.0),
    ensures
        host_port(c.completed().listen, DEFAULT_LISTEN_PORT) matches Ok(hp) && hp.1 != 0,
{
    reveal_strlit("0.0.0.0");
    crate::config::host_port::port_is_zero_only_by_default(c.listen, DEFAULT_LISTEN_PORT);
    let (h, p) = match host_port(c.listen, DEFAULT_LISTEN_PORT) {
        Ok(hp) => hp,
        Err(_) => (DEFAULT_HOST@, DEFAULT_LISTEN_PORT),
    };
    assert(is_plain_host(DEFAULT_HOST@));
    joined_splits_back(h, p, DEFAULT_LISTEN_PORT);
}

} // verus!
