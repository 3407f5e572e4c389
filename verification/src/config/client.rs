//! The settings of the client.
use vstd::prelude::*;
use vstd::std_specs::cmp::PartialEqSpecImpl;
use vstd::string::*;

use crate::config::host_port::{
    host_port, host_port_message, parse_host_port, HostPortError, HostPortFault,
};
use crate::config::server::{QuicOptions, DEFAULT_LISTEN_PORT, DEFAULT_UDP_PACKET_SIZE};
use crate::text::{decimal, decimal_int, is_blank, lower_all, texts, trim};
use crate::text::{
    decimal_int_str, decimal_str, is_blank_str, same, same_texts, trim_lower, trim_str,
};
use crate::text::lemma_trim_tight;
use crate::transport::{
    normalize_ws_path, protocol_named, ws_path, ws_path_settles, Protocol, ORBIEN_WEBSOCKET_PATH,
};

verus! {

/// How the client proves who it is.
#[derive(Debug, Clone, PartialEq, Eq)]
pub struct AuthConfig {
    pub auth_type: String,
    pub token: String,
}

pub struct AuthView {
    pub auth_type: Seq<char>,
    pub token: Seq<char>,
}

impl View for AuthConfig {
    type V = AuthView;

    open spec fn view(&self) -> AuthView {
        AuthView { auth_type: self.auth_type@, token: self.token@ }
    }
}

impl Default for AuthConfig {
    fn default() -> (r: Self)
        ensures
            r.auth_type@.len() == 0,
            r.token@.len() == 0,
    {
        AuthConfig { auth_type: String::new(), token: String::new() }
    }
}

impl AuthConfig {
    fn same_as(&self, other: &AuthConfig) -> (r: bool)
        ensures
            r == (self@ == other@),
    {
        self.auth_type == other.auth_type && self.token == other.token
    }
}

/// The certificates of the client and how it checks those of the server.
#[derive(Debug, Clone, PartialEq, Eq)]
pub struct ClientTlsConfig {
    pub enable: bool,
    pub cert_file: String,
    pub key_file: String,
    pub trusted_ca_file: String,
    pub server_name: String,
}

pub struct ClientTlsView {
    pub enable: bool,
    pub cert_file: Seq<char>,
    pub key_file: Seq<char>,
    pub trusted_ca_file: Seq<char>,
    pub server_name: Seq<char>,
}

impl View for ClientTlsConfig {
    type V = ClientTlsView;

    open spec fn view(&self) -> ClientTlsView {
        ClientTlsView {
            enable: self.enable,
            cert_file: self.cert_file@,
            key_file: self.key_file@,
            trusted_ca_file: self.trusted_ca_file@,
            server_name: self.server_name@,
        }
    }
}

impl Default for ClientTlsConfig {
    fn default() -> (r: Self)
        ensures
            r@ == default_client_transport().tls,
    {
        let r = ClientTlsConfig {
            enable: true,
            cert_file: String::new(),
            key_file: String::new(),
            trusted_ca_file: String::new(),
            server_name: String::new(),
        };
        r
    }
}

impl ClientTlsConfig {
    fn same_as(&self, other: &ClientTlsConfig) -> (r: bool)
        ensures
            r == (self@ == other@),
    {
        self.enable == other.enable && self.cert_file == other.cert_file && self.key_file
            == other.key_file && self.trusted_ca_file == other.trusted_ca_file && self.server_name
            == other.server_name
    }
}

/// How the client reaches the server.
#[derive(Debug, Clone, PartialEq, Eq)]
pub struct TransportConfig {
    pub protocol: String,
    pub pool_count: i32,
    pub tcp_mux: bool,
    pub mux_keepalive_secs: i64,
    pub heartbeat_interval: i64,
    pub heartbeat_timeout: i64,
    pub quic: QuicOptions,
    pub ws_path: String,
    pub tls: ClientTlsConfig,
}

pub struct TransportView {
    pub protocol: Seq<char>,
    pub pool_count: i32,
    pub tcp_mux: bool,
    pub mux_keepalive_secs: i64,
    pub heartbeat_interval: i64,
    pub heartbeat_timeout: i64,
    pub quic: QuicOptions,
    pub ws_path: Seq<char>,
    pub tls: ClientTlsView,
}

impl View for TransportConfig {
    type V = TransportView;

    open spec fn view(&self) -> TransportView {
        TransportView {
            protocol: self.protocol@,
            pool_count: self.pool_count,
            tcp_mux: self.tcp_mux,
            mux_keepalive_secs: self.mux_keepalive_secs,
            heartbeat_interval: self.heartbeat_interval,
            heartbeat_timeout: self.heartbeat_timeout,
            quic: self.quic,
            ws_path: self.ws_path@,
            tls: self.tls@,
        }
    }
}

/// The transport settings that hold where nothing is set.
pub open spec fn default_client_transport() -> TransportView {
    TransportView {
        protocol: "tcp"@,
        pool_count: 1,
        tcp_mux: true,
        mux_keepalive_secs: 30,
        heartbeat_interval: -1i64,
        heartbeat_timeout: -1i64,
        quic: QuicOptions {
            keepalive_period: 10,
            max_idle_timeout: 30,
            max_incoming_streams: 100_000,
        },
        ws_path: ORBIEN_WEBSOCKET_PATH@,
        tls: ClientTlsView {
            enable: true,
            cert_file: Seq::empty(),
            key_file: Seq::empty(),
            trusted_ca_file: Seq::empty(),
            server_name: Seq::empty(),
        },
    }
}

impl Default for TransportConfig {
    fn default() -> (r: Self)
        ensures
            r@ == default_client_transport(),
    {
        TransportConfig {
            protocol: "tcp".to_owned(),
            pool_count: 1,
            tcp_mux: true,
            mux_keepalive_secs: 30,
            heartbeat_interval: -1,
            heartbeat_timeout: -1,
            quic: QuicOptions::default(),
            ws_path: ORBIEN_WEBSOCKET_PATH.to_owned(),
            tls: ClientTlsConfig::default(),
        }
    }
}

impl TransportConfig {
    fn same_as(&self, other: &TransportConfig) -> (r: bool)
        ensures
            r == (self@ == other@),
    {
        self.protocol == other.protocol && self.pool_count == other.pool_count && self.tcp_mux
            == other.tcp_mux && self.mux_keepalive_secs == other.mux_keepalive_secs
            && self.heartbeat_interval == other.heartbeat_interval && self.heartbeat_timeout
            == other.heartbeat_timeout && self.quic == other.quic && self.ws_path == other.ws_path
            && self.tls.same_as(&other.tls)
    }
}

/// A helper that serves a tunnel on the client's side.
#[derive(Debug, Clone, PartialEq, Eq)]
pub struct PluginConfig {
    pub plugin_type: String,
    pub service: String,
    pub cert_file: String,
    pub key_file: String,
    pub host_header_rewrite: String,
    pub username: String,
    pub password: String,
}

pub struct PluginView {
    pub plugin_type: Seq<char>,
    pub service: Seq<char>,
    pub cert_file: Seq<char>,
    pub key_file: Seq<char>,
    pub host_header_rewrite: Seq<char>,
    pub username: Seq<char>,
    pub password: Seq<char>,
}

impl View for PluginConfig {
    type V = PluginView;

    open spec fn view(&self) -> PluginView {
        PluginView {
            plugin_type: self.plugin_type@,
            service: self.service@,
            cert_file: self.cert_file@,
            key_file: self.key_file@,
            host_header_rewrite: self.host_header_rewrite@,
            username: self.username@,
            password: self.password@,
        }
    }
}

/// How the traffic of one tunnel is treated.
///
/// The limit is a number of the format IEEE 754 binary64, given by its 64 bits.
#[derive(Debug, Clone)]
pub struct TunnelTransportConfig {
    pub bandwidth_bits: u64,
    pub bandwidth_limit_side: String,
    pub proxy_protocol_version: String,
}

pub struct TunnelTransportView {
    pub bandwidth_bits: u64,
    pub bandwidth_limit_side: Seq<char>,
    pub proxy_protocol_version: Seq<char>,
}

impl View for TunnelTransportConfig {
    type V = TunnelTransportView;

    open spec fn view(&self) -> TunnelTransportView {
        TunnelTransportView {
            bandwidth_bits: self.bandwidth_bits,
            bandwidth_limit_side: self.bandwidth_limit_side@,
            proxy_protocol_version: self.proxy_protocol_version@,
        }
    }
}

impl Default for TunnelTransportConfig {
    fn default() -> (r: Self)
        ensures
            r.bandwidth_bits == 0,
            r.bandwidth_limit_side@.len() == 0,
            r.proxy_protocol_version@.len() == 0,
    {
        TunnelTransportConfig {
            bandwidth_bits: 0,
            bandwidth_limit_side: String::new(),
            proxy_protocol_version: String::new(),
        }
    }
}

/// One tunnel that the client asks for.
#[derive(Debug, Clone)]
pub struct TunnelConfig {
    pub name: String,
    pub protocol: String,
    pub service: String,
    pub remote_port: u16,
    pub domains: Vec<String>,
    pub locations: Vec<String>,
    pub basic_auth_user: String,
    pub basic_auth_password: String,
    pub host_header_rewrite: String,
    pub transport: TunnelTransportConfig,
    pub plugin: Option<PluginConfig>,
}

pub struct TunnelView {
    pub name: Seq<char>,
    pub protocol: Seq<char>,
    pub service: Seq<char>,
    pub remote_port: u16,
    pub domains: Seq<Seq<char>>,
    pub locations: Seq<Seq<char>>,
    pub basic_auth_user: Seq<char>,
    pub basic_auth_password: Seq<char>,
    pub host_header_rewrite: Seq<char>,
    pub transport: TunnelTransportView,
    pub plugin: Option<PluginView>,
}
impl View for TunnelConfig {
    type V = TunnelView;

    open spec fn view(&self) -> TunnelView {
        TunnelView {
            name: self.name@,
            protocol: self.protocol@,
            service: self.service@,
            remote_port: self.remote_port,
            domains: texts(self.domains@),
            locations: texts(self.locations@),
            basic_auth_user: self.basic_auth_user@,
            basic_auth_password: self.basic_auth_password@,
            host_header_rewrite: self.host_header_rewrite@,
            transport: self.transport@,
            plugin: match self.plugin {
                Some(p) => Some(p@),
                None => None,
            },
        }
    }
}

/// The views of a list of tunnels.
pub open spec fn tunnel_views(v: Seq<TunnelConfig>) -> Seq<TunnelView> {
    Seq::new(v.len(), |i: int| v[i]@)
}

/// All settings of a client.
#[derive(Debug, Clone)]
pub struct ClientConfig {
    pub server: String,
    pub user: String,
    pub agent_id: String,
    pub auth: AuthConfig,
    pub transport: TransportConfig,
    pub tunnels: Vec<TunnelConfig>,
    pub udp_packet_size: usize,
}

pub struct ClientConfigView {
    pub server: Seq<char>,
    pub user: Seq<char>,
    pub agent_id: Seq<char>,
    pub auth: AuthView,
    pub transport: TransportView,
    pub tunnels: Seq<TunnelView>,
    pub udp_packet_size: usize,
}

impl View for ClientConfig {
    type V = ClientConfigView;

    open spec fn view(&self) -> ClientConfigView {
        ClientConfigView {
            server: self.server@,
            user: self.user@,
            agent_id: self.agent_id@,
            auth: self.auth@,
            transport: self.transport@,
            tunnels: tunnel_views(self.tunnels@),
            udp_packet_size: self.udp_packet_size,
        }
    }
}

/// Why the settings of a client are refused.
#[derive(Debug, Clone, PartialEq, Eq)]
pub enum ClientConfigError {
    ServerMissing,
    ServerInvalid { cause: HostPortError },
    Protocol { protocol: String },
    PoolCount { count: i32 },
    UdpPacketSize { size: usize },
    Heartbeat { timeout: i64, interval: i64 },
    TunnelNameMissing,
    TunnelDuplicate { name: String },
    TunnelProtocol { name: String, protocol: String },
    TunnelBandwidth { name: String, bits: u64 },
    TunnelBandwidthSide { name: String, side: String },
    RemotePortMissing { name: String, protocol: String },
    DomainsMissing { name: String, protocol: String },
    ServiceInvalid { name: String, cause: HostPortError },
    ServicePortMissing { name: String, service: String },
    PluginType { name: String, plugin_type: String },
    PluginServiceMissing { name: String },
    PluginServiceInvalid { name: String, cause: HostPortError },
    PluginServicePort { name: String },
    Socks5Credentials { name: String },
}

pub enum ClientFault {
    ServerMissing,
    ServerInvalid { server: Seq<char>, cause: HostPortFault },
    Protocol { protocol: Seq<char> },
    PoolCount { count: i32 },
    UdpPacketSize { size: usize },
    Heartbeat { timeout: i64, interval: i64 },
    TunnelNameMissing,
    TunnelDuplicate { name: Seq<char> },
    TunnelProtocol { name: Seq<char>, protocol: Seq<char> },
    TunnelBandwidth { name: Seq<char>, bits: u64 },
    TunnelBandwidthSide { name: Seq<char>, side: Seq<char> },
    RemotePortMissing { name: Seq<char>, protocol: Seq<char> },
    DomainsMissing { name: Seq<char>, protocol: Seq<char> },
    ServiceInvalid { name: Seq<char>, service: Seq<char>, cause: HostPortFault },
    ServicePortMissing { name: Seq<char>, service: Seq<char> },
    PluginType { name: Seq<char>, plugin_type: Seq<char> },
    PluginServiceMissing { name: Seq<char> },
    PluginServiceInvalid { name: Seq<char>, service: Seq<char>, cause: HostPortFault },
    PluginServicePort { name: Seq<char> },
    Socks5Credentials { name: Seq<char> },
}

impl View for ClientConfigError {
    type V = ClientFault;

    open spec fn view(&self) -> ClientFault {
        match self {
            ClientConfigError::ServerMissing => ClientFault::ServerMissing,
            ClientConfigError::ServerInvalid { cause } => ClientFault::ServerInvalid {
                server: cause.raw@,
                cause: cause.fault,
            },
            ClientConfigError::Protocol { protocol } => ClientFault::Protocol {
                protocol: protocol@,
            },
            ClientConfigError::PoolCount { count } => ClientFault::PoolCount { count: *count },
            ClientConfigError::UdpPacketSize { size } => ClientFault::UdpPacketSize { size: *size },
            ClientConfigError::Heartbeat { timeout, interval } => ClientFault::Heartbeat {
                timeout: *timeout,
                interval: *interval,
            },
            ClientConfigError::TunnelNameMissing => ClientFault::TunnelNameMissing,
            ClientConfigError::TunnelDuplicate { name } => ClientFault::TunnelDuplicate {
                name: name@,
            },
            ClientConfigError::TunnelProtocol { name, protocol } => ClientFault::TunnelProtocol {
                name: name@,
                protocol: protocol@,
            },
            ClientConfigError::TunnelBandwidth { name, bits } => ClientFault::TunnelBandwidth {
                name: name@,
                bits: *bits,
            },
            ClientConfigError::TunnelBandwidthSide { name, side } =>
                ClientFault::TunnelBandwidthSide { name: name@, side: side@ },
            ClientConfigError::RemotePortMissing { name, protocol } =>
                ClientFault::RemotePortMissing { name: name@, protocol: protocol@ },
            ClientConfigError::DomainsMissing { name, protocol } => ClientFault::DomainsMissing {
                name: name@,
                protocol: protocol@,
            },
            ClientConfigError::ServiceInvalid { name, cause } => ClientFault::ServiceInvalid {
                name: name@,
                service: cause.raw@,
                cause: cause.fault,
            },
            ClientConfigError::ServicePortMissing { name, service } =>
                ClientFault::ServicePortMissing { name: name@, service: service@ },
            ClientConfigError::PluginType { name, plugin_type } => ClientFault::PluginType {
                name: name@,
                plugin_type: plugin_type@,
            },
            ClientConfigError::PluginServiceMissing { name } => ClientFault::PluginServiceMissing {
                name: name@,
            },
            ClientConfigError::PluginServiceInvalid { name, cause } =>
                ClientFault::PluginServiceInvalid {
                name: name@,
                service: cause.raw@,
                cause: cause.fault,
            },
            ClientConfigError::PluginServicePort { name } => ClientFault::PluginServicePort {
                name: name@,
            },
            ClientConfigError::Socks5Credentials { name } => ClientFault::Socks5Credentials {
                name: name@,
            },
        }
    }
}

/// Whether the bits of a binary64 number denote a finite number that is not below
/// zero: the exponent is not all ones, and the sign is set only on zero.
pub open spec fn is_bandwidth(bits: u64) -> bool {
    bits < 0x7ff0_0000_0000_0000 || bits == 0x8000_0000_0000_0000
}

/// Whether the bits of a binary64 number denote a usable limit.
pub fn is_bandwidth_limit(bits: u64) -> (r: bool)
    ensures
        r == is_bandwidth(bits),
{
    bits < 0x7ff0_0000_0000_0000 || bits == 0x8000_0000_0000_0000
}

/// In terms of the fields of a binary64 number: a limit is usable if and only if
/// its eleven exponent bits are not all ones and its sign bit is clear, or it is zero.
pub proof fn bandwidth_by_fields(bits: u64)
    ensures
        is_bandwidth(bits) <==> ((bits >> 52) & 0x7ff) != 0x7ff && ((bits >> 63) == 0 || (bits
            & 0x7fff_ffff_ffff_ffff) == 0),
{
    assert((bits < 0x7ff0_0000_0000_0000u64 || bits == 0x8000_0000_0000_0000u64) == (((bits >> 52)
        & 0x7ff) != 0x7ff && ((bits >> 63) == 0 || (bits & 0x7fff_ffff_ffff_ffff) == 0)))
        by (bit_vector);
}

/// Whether the bits of a binary64 number denote no number.
pub open spec fn is_nan(bits: u64) -> bool {
    0x7ff0_0000_0000_0000 < bits < 0x8000_0000_0000_0000 || bits > 0xfff0_0000_0000_0000
}

/// What is no number, by the fields of the format: the eleven exponent bits are all
/// ones and the fraction is not zero.
pub proof fn nan_by_fields(bits: u64)
    ensures
        is_nan(bits) <==> ((bits >> 52) & 0x7ff) == 0x7ff && (bits & 0xf_ffff_ffff_ffff) != 0,
{
    assert((0x7ff0_0000_0000_0000u64 < bits && bits < 0x8000_0000_0000_0000u64 || bits
        > 0xfff0_0000_0000_0000u64) == (((bits >> 52) & 0x7ff) == 0x7ff && (bits
        & 0xf_ffff_ffff_ffff) != 0)) by (bit_vector);
}

/// Whether the bits of a binary64 number denote zero, of either sign.
pub open spec fn is_zero(bits: u64) -> bool {
    bits == 0 || bits == 0x8000_0000_0000_0000
}

/// Whether two binary64 numbers are equal: the zeros are, and what is no number equals
/// nothing.
pub open spec fn same_number(a: u64, b: u64) -> bool {
    !is_nan(a) && !is_nan(b) && (a == b || is_zero(a) && is_zero(b))
}

/// Whether the bits of two binary64 numbers denote equal numbers.
pub fn is_same_number(a: u64, b: u64) -> (r: bool)
    ensures
        r == same_number(a, b),
{
    let a_is_number = a <= 0x7ff0_0000_0000_0000 || (a >= 0x8000_0000_0000_0000 && a
        <= 0xfff0_0000_0000_0000);
    let zeros = (a == 0 || a == 0x8000_0000_0000_0000) && (b == 0 || b == 0x8000_0000_0000_0000);
    a_is_number && a == b || zeros
}

impl TunnelTransportView {
    pub open spec fn same(self, other: TunnelTransportView) -> bool {
        &&& same_number(self.bandwidth_bits, other.bandwidth_bits)
        &&& self.bandwidth_limit_side == other.bandwidth_limit_side
        &&& self.proxy_protocol_version == other.proxy_protocol_version
    }
}

impl TunnelView {
    pub open spec fn same(self, other: TunnelView) -> bool {
        &&& self.transport.same(other.transport)
        &&& self == (TunnelView { transport: self.transport, ..other })
    }
}

impl ClientConfigView {
    pub open spec fn same(self, other: ClientConfigView) -> bool {
        &&& self.tunnels.len() == other.tunnels.len()
        &&& forall|i: int|
            0 <= i < self.tunnels.len() ==> (#[trigger] self.tunnels[i]).same(other.tunnels[i])
        &&& self == (ClientConfigView { tunnels: self.tunnels, ..other })
    }
}

impl PluginConfig {
    fn same_as(&self, other: &PluginConfig) -> (r: bool)
        ensures
            r == (self@ == other@),
    {
        self.plugin_type == other.plugin_type && self.service == other.service && self.cert_file
            == other.cert_file && self.key_file == other.key_file && self.host_header_rewrite
            == other.host_header_rewrite && self.username == other.username && self.password
            == other.password
    }
}

impl TunnelTransportConfig {
    /// Whether two tunnels are treated alike.
    pub fn same_as(&self, other: &TunnelTransportConfig) -> (r: bool)
        ensures
            r == self@.same(other@),
    {
        is_same_number(self.bandwidth_bits, other.bandwidth_bits) && self.bandwidth_limit_side
            == other.bandwidth_limit_side && self.proxy_protocol_version
            == other.proxy_protocol_version
    }
}

impl TunnelConfig {
    /// Whether the settings of two tunnels are equal.
    pub fn same_as(&self, other: &TunnelConfig) -> (r: bool)
        ensures
            r == self@.same(other@),
    {
        let same_plugin = match (&self.plugin, &other.plugin) {
            (Some(a), Some(b)) => a.same_as(b),
            (None, None) => true,
            _ => false,
        };
        self.name == other.name && self.protocol == other.protocol && self.service == other.service
            && self.remote_port == other.remote_port && same_texts(&self.domains, &other.domains)
            && same_texts(&self.locations, &other.locations) && self.basic_auth_user
            == other.basic_auth_user && self.basic_auth_password == other.basic_auth_password
            && self.host_header_rewrite == other.host_header_rewrite && self.transport.same_as(
            &other.transport,
        ) && same_plugin
    }
}

impl ClientConfig {
    /// Whether the settings of two clients are equal.
    pub fn same_as(&self, other: &ClientConfig) -> (r: bool)
        ensures
            r == self@.same(other@),
    {
        if self.tunnels.len() != other.tunnels.len() {
            return false;
        }
        let mut i: usize = 0;
        while i < self.tunnels.len()
            invariant
                i <= self.tunnels@.len(),
                self.tunnels@.len() == other.tunnels@.len(),
                forall|j: int|
                    0 <= j < i ==> (#[trigger] self@.tunnels[j]).same(other@.tunnels[j]),
            decreases self.tunnels@.len() - i,
        {
            if !self.tunnels[i].same_as(&other.tunnels[i]) {
                assert(!self@.tunnels[i as int].same(other@.tunnels[i as int]));
                return false;
            }
            i += 1;
        }
        self.connection_settings_eq(other)
    }
}

impl PartialEq for TunnelTransportConfig {
    fn eq(&self, other: &TunnelTransportConfig) -> (r: bool) {
        self.same_as(other)
    }
}

impl PartialEqSpecImpl for TunnelTransportConfig {
    open spec fn obeys_eq_spec() -> bool {
        true
    }

    open spec fn eq_spec(&self, other: &TunnelTransportConfig) -> bool {
        self@.same(other@)
    }
}

impl PartialEq for TunnelConfig {
    fn eq(&self, other: &TunnelConfig) -> (r: bool) {
        self.same_as(other)
    }
}

impl PartialEqSpecImpl for TunnelConfig {
    open spec fn obeys_eq_spec() -> bool {
        true
    }

    open spec fn eq_spec(&self, other: &TunnelConfig) -> bool {
        self@.same(other@)
    }
}

impl PartialEq for ClientConfig {
    fn eq(&self, other: &ClientConfig) -> (r: bool) {
        self.same_as(other)
    }
}

impl PartialEqSpecImpl for ClientConfig {
    open spec fn obeys_eq_spec() -> bool {
        true
    }

    open spec fn eq_spec(&self, other: &ClientConfig) -> bool {
        self@.same(other@)
    }
}

impl TunnelView {
    /// Whether a plugin serves the tunnel.
    pub open spec fn has_plugin(self) -> bool {
        self.plugin matches Some(p) && !is_blank(p.plugin_type)
    }

    /// The address of the local service: host and port, or what is wrong with it.
    pub open spec fn service_addr(self) -> Result<(Seq<char>, u16), ClientFault> {
        let raw = trim(self.service);
        if raw.len() == 0 {
            Ok(("127.0.0.1"@, 0))
        } else {
            match host_port(raw, 0) {
                Err(cause) => Err(
                    ClientFault::ServiceInvalid { name: self.name, service: raw, cause },
                ),
                Ok((host, port)) => if port == 0 {
                    Err(ClientFault::ServicePortMissing { name: self.name, service: raw })
                } else {
                    Ok((host, port))
                },
            }
        }
    }

    /// What is wrong with the local service of a tunnel that needs one.
    pub open spec fn service_fault(self) -> Option<ClientFault> {
        if self.has_plugin() {
            None
        } else {
            match self.service_addr() {
                Ok(_) => None,
                Err(fault) => Some(fault),
            }
        }
    }

    /// What is wrong with the plugin of a tunnel that carries packets or a raw stream.
    pub open spec fn stream_plugin_fault(self) -> Option<ClientFault> {
        match self.plugin {
            None => None,
            Some(p) => {
                let kind = lower_all(trim(p.plugin_type));
                if kind.len() == 0 {
                    None
                } else if kind != "socks5"@ {
                    Some(ClientFault::PluginType { name: self.name, plugin_type: kind })
                } else if is_blank(p.username) || is_blank(p.password) {
                    Some(ClientFault::Socks5Credentials { name: self.name })
                } else {
                    None
                }
            },
        }
    }

    /// What is wrong with the plugin of a tunnel that carries web traffic.
    pub open spec fn web_plugin_fault(self) -> Option<ClientFault> {
        match self.plugin {
            None => None,
            Some(p) => {
                let kind = lower_all(trim(p.plugin_type));
                if kind.len() == 0 {
                    None
                } else if kind != "tls-term"@ {
                    Some(ClientFault::PluginType { name: self.name, plugin_type: kind })
                } else if is_blank(p.service) {
                    Some(ClientFault::PluginServiceMissing { name: self.name })
                } else {
                    match host_port(p.service, 0) {
                        Err(cause) => Some(
                            ClientFault::PluginServiceInvalid {
                                name: self.name,
                                service: p.service,
                                cause,
                            },
                        ),
                        Ok((_, port)) => if port == 0 {
                            Some(ClientFault::PluginServicePort { name: self.name })
                        } else {
                            None
                        },
                    }
                }
            },
        }
    }

    /// What is wrong with the tunnel, taken by itself: the first of its faults, in
    /// the order in which they are looked for.
    pub open spec fn fault(self) -> Option<ClientFault> {
        let proto = lower_all(trim(self.protocol));
        let side = lower_all(trim(self.transport.bandwidth_limit_side));
        let stream = proto == "tcp"@ || proto == "udp"@;
        let web = proto == "http"@ || proto == "https"@;
        if !stream && !web {
            Some(ClientFault::TunnelProtocol { name: self.name, protocol: self.protocol })
        } else if !is_bandwidth(self.transport.bandwidth_bits) {
            Some(
                ClientFault::TunnelBandwidth {
                    name: self.name,
                    bits: self.transport.bandwidth_bits,
                },
            )
        } else if side.len() != 0 && side != "client"@ && side != "server"@ {
            Some(
                ClientFault::TunnelBandwidthSide {
                    name: self.name,
                    side: self.transport.bandwidth_limit_side,
                },
            )
        } else if stream && self.remote_port == 0 {
            Some(ClientFault::RemotePortMissing { name: self.name, protocol: proto })
        } else if web && self.domains.len() == 0 {
            Some(ClientFault::DomainsMissing { name: self.name, protocol: proto })
        } else if self.service_fault() is Some {
            self.service_fault()
        } else if stream {
            self.stream_plugin_fault()
        } else {
            self.web_plugin_fault()
        }
    }
}

/// Whether a tunnel before position `i` has the name of the one at `i`.
pub open spec fn name_taken(tunnels: Seq<TunnelView>, i: int) -> bool {
    exists|j: int| 0 <= j < i && #[trigger] tunnels[j].name == tunnels[i].name
}

/// What is wrong with the tunnel at position `i`, in the company of those before it.
pub open spec fn fault_at(tunnels: Seq<TunnelView>, i: int) -> Option<ClientFault> {
    let t = tunnels[i];
    if is_blank(t.name) {
        Some(ClientFault::TunnelNameMissing)
    } else if name_taken(tunnels, i) {
        Some(ClientFault::TunnelDuplicate { name: t.name })
    } else {
        t.fault()
    }
}

/// The first fault among the tunnels from position `i` on.
pub open spec fn faults_from(tunnels: Seq<TunnelView>, i: int) -> Option<ClientFault>
    decreases tunnels.len() - i,
{
    if i >= tunnels.len() {
        None
    } else if fault_at(tunnels, i) is Some {
        fault_at(tunnels, i)
    } else {
        faults_from(tunnels, i + 1)
    }
}

impl ClientConfigView {
    /// The settings with what was left open filled in.
    pub open spec fn completed(self) -> ClientConfigView {
        let quic = protocol_named(self.transport.protocol) == Some(Protocol::Quic);
        let mux = self.transport.tcp_mux && !quic;
        ClientConfigView {
            auth: AuthView {
                auth_type: if is_blank(self.auth.auth_type) {
                    "token"@
                } else {
                    self.auth.auth_type
                },
                ..self.auth
            },
            udp_packet_size: if self.udp_packet_size == 0 {
                DEFAULT_UDP_PACKET_SIZE
            } else {
                self.udp_packet_size
            },
            transport: TransportView {
                tcp_mux: mux,
                heartbeat_interval: if !mux && self.transport.heartbeat_interval < 0 {
                    30
                } else {
                    self.transport.heartbeat_interval
                },
                heartbeat_timeout: if !mux && self.transport.heartbeat_timeout < 0 {
                    90
                } else {
                    self.transport.heartbeat_timeout
                },
                ws_path: ws_path(self.transport.ws_path),
                tls: ClientTlsView {
                    enable: self.transport.tls.enable || quic,
                    server_name: match host_port(self.server, DEFAULT_LISTEN_PORT) {
                        Ok((host, _)) => if is_blank(self.transport.tls.server_name) {
                            host
                        } else {
                            self.transport.tls.server_name
                        },
                        Err(_) => self.transport.tls.server_name,
                    },
                    ..self.transport.tls
                },
                ..self.transport
            },
            ..self
        }
    }

    /// What is wrong with the settings: the first of the faults that they have, in
    /// the order in which they are looked for.
    pub open spec fn fault(self) -> Option<ClientFault> {
        let t = self.transport;
        if is_blank(self.server) {
            Some(ClientFault::ServerMissing)
        } else if host_port(self.server, DEFAULT_LISTEN_PORT) is Err {
            Some(
                ClientFault::ServerInvalid {
                    server: self.server,
                    cause: host_port(self.server, DEFAULT_LISTEN_PORT)->Err_0,
                },
            )
        } else if protocol_named(t.protocol) is None {
            Some(ClientFault::Protocol { protocol: t.protocol })
        } else if t.pool_count < 1 {
            Some(ClientFault::PoolCount { count: t.pool_count })
        } else if self.udp_packet_size == 0 || self.udp_packet_size > 65535 {
            Some(ClientFault::UdpPacketSize { size: self.udp_packet_size })
        } else if t.heartbeat_timeout > 0 && t.heartbeat_interval > 0 && t.heartbeat_timeout
            < t.heartbeat_interval {
            Some(
                ClientFault::Heartbeat {
                    timeout: t.heartbeat_timeout,
                    interval: t.heartbeat_interval,
                },
            )
        } else {
            faults_from(self.tunnels, 0)
        }
    }

    /// Whether a change from these settings to `other` leaves the connection alone.
    pub open spec fn same_connection(self, other: ClientConfigView) -> bool {
        &&& self.server == other.server
        &&& self.user == other.user
        &&& self.agent_id == other.agent_id
        &&& self.auth == other.auth
        &&& self.transport == other.transport
        &&& self.udp_packet_size == other.udp_packet_size
    }
}

impl TunnelConfig {
    /// The address of the local service; port 0 where none is set.
    pub fn service_host_port(&self) -> (r: Result<(String, u16), ClientConfigError>)
        ensures
            match r {
                Ok(hp) => self@.service_addr() == Ok::<(Seq<char>, u16), ClientFault>(
                    (hp.0@, hp.1),
                ),
                Err(e) => self@.service_addr() == Err::<(Seq<char>, u16), ClientFault>(e@),
            },
    {
        let raw = trim_str(self.service.as_str());
        if raw.is_empty() {
            return Ok(("127.0.0.1".to_owned(), 0));
        }
        match parse_host_port(raw, 0) {
            Err(cause) => Err(ClientConfigError::ServiceInvalid { name: self.name.clone(), cause }),
            Ok(hp) => if hp.1 == 0 {
                Err(
                    ClientConfigError::ServicePortMissing {
                        name: self.name.clone(),
                        service: raw.to_owned(),
                    },
                )
            } else {
                Ok(hp)
            },
        }
    }

    /// Whether a plugin serves the tunnel.
    pub fn has_plugin(&self) -> (r: bool)
        ensures
            r == self@.has_plugin(),
    {
        match &self.plugin {
            Some(p) => !is_blank_str(p.plugin_type.as_str()),
            None => false,
        }
    }

    /// Whether the tunnel leads to a service on the client's machine.
    pub fn requires_local_service(&self) -> (r: bool)
        ensures
            r == !self@.has_plugin(),
    {
        !self.has_plugin()
    }

    fn validate_service(&self) -> (r: Result<(), ClientConfigError>)
        ensures
            match r {
                Ok(_) => self@.service_fault() is None,
                Err(e) => self@.service_fault() == Some(e@),
            },
    {
        if self.requires_local_service() {
            match self.service_host_port() {
                Ok(_) => Ok(()),
                Err(e) => Err(e),
            }
        } else {
            Ok(())
        }
    }

    fn validate_tcp_tunnel_plugin(&self) -> (r: Result<(), ClientConfigError>)
        ensures
            match r {
                Ok(_) => self@.stream_plugin_fault() is None,
                Err(e) => self@.stream_plugin_fault() == Some(e@),
            },
    {
        match &self.plugin {
            None => Ok(()),
            Some(p) => {
                let kind = trim_lower(p.plugin_type.as_str());
                if kind.as_str().is_empty() {
                    Ok(())
                } else if !same(kind.as_str(), "socks5") {
                    Err(
                        ClientConfigError::PluginType {
                            name: self.name.clone(),
                            plugin_type: kind,
                        },
                    )
                } else if is_blank_str(p.username.as_str()) || is_blank_str(p.password.as_str()) {
                    Err(ClientConfigError::Socks5Credentials { name: self.name.clone() })
                } else {
                    Ok(())
                }
            },
        }
    }

    fn validate_https_tunnel_plugin(&self) -> (r: Result<(), ClientConfigError>)
        ensures
            match r {
                Ok(_) => self@.web_plugin_fault() is None,
                Err(e) => self@.web_plugin_fault() == Some(e@),
            },
    {
        match &self.plugin {
            None => Ok(()),
            Some(p) => {
                let kind = trim_lower(p.plugin_type.as_str());
                if kind.as_str().is_empty() {
                    Ok(())
                } else if !same(kind.as_str(), "tls-term") {
                    Err(
                        ClientConfigError::PluginType {
                            name: self.name.clone(),
                            plugin_type: kind,
                        },
                    )
                } else if is_blank_str(p.service.as_str()) {
                    Err(ClientConfigError::PluginServiceMissing { name: self.name.clone() })
                } else {
                    match parse_host_port(p.service.as_str(), 0) {
                        Err(cause) => Err(
                            ClientConfigError::PluginServiceInvalid {
                                name: self.name.clone(),
                                cause,
                            },
                        ),
                        Ok(hp) => if hp.1 == 0 {
                            Err(ClientConfigError::PluginServicePort { name: self.name.clone() })
                        } else {
                            Ok(())
                        },
                    }
                }
            },
        }
    }

    /// Refuses a tunnel that cannot work, whatever others there are.
    fn validate(&self) -> (r: Result<(), ClientConfigError>)
        ensures
            match r {
                Ok(_) => self@.fault() is None,
                Err(e) => self@.fault() == Some(e@),
            },
    {
        let proto = trim_lower(self.protocol.as_str());
        let stream = same(proto.as_str(), "tcp") || same(proto.as_str(), "udp");
        let web = same(proto.as_str(), "http") || same(proto.as_str(), "https");
        if !stream && !web {
            return Err(
                ClientConfigError::TunnelProtocol {
                    name: self.name.clone(),
                    protocol: self.protocol.clone(),
                },
            );
        }
        if !is_bandwidth_limit(self.transport.bandwidth_bits) {
            return Err(
                ClientConfigError::TunnelBandwidth {
                    name: self.name.clone(),
                    bits: self.transport.bandwidth_bits,
                },
            );
        }
        let side = trim_lower(self.transport.bandwidth_limit_side.as_str());
        if !side.as_str().is_empty() && !same(side.as_str(), "client") && !same(
            side.as_str(),
            "server",
        ) {
            return Err(
                ClientConfigError::TunnelBandwidthSide {
                    name: self.name.clone(),
                    side: self.transport.bandwidth_limit_side.clone(),
                },
            );
        }
        if stream {
            if self.remote_port == 0 {
                proof {
                    distinct_protocols();
                }
                return Err(
                    ClientConfigError::RemotePortMissing {
                        name: self.name.clone(),
                        protocol: proto,
                    },
                );
            }
            proof {
                distinct_protocols();
            }
            match self.validate_service() {
                Ok(_) => self.validate_tcp_tunnel_plugin(),
                Err(e) => Err(e),
            }
        } else {
            if self.domains.len() == 0 {
                return Err(
                    ClientConfigError::DomainsMissing { name: self.name.clone(), protocol: proto },
                );
            }
            match self.validate_service() {
                Ok(_) => self.validate_https_tunnel_plugin(),
                Err(e) => Err(e),
            }
        }
    }
}

/// The four kinds of tunnels have four names.
proof fn distinct_protocols()
    ensures
        "tcp"@ != "http"@,
        "tcp"@ != "https"@,
        "udp"@ != "http"@,
        "udp"@ != "https"@,
        "tcp"@ != "udp"@,
        "http"@ != "https"@,
{
    reveal_strlit("tcp");
    reveal_strlit("udp");
    reveal_strlit("http");
    reveal_strlit("https");
    assert("tcp"@[0] != "udp"@[0]);
    assert("tcp"@.len() == 3 && "udp"@.len() == 3 && "http"@.len() == 4 && "https"@.len() == 5);
}

impl ClientConfig {
    /// Fills in what was left open.
    pub fn complete(&mut self)
        ensures
            final(self)@ == old(self)@.completed(),
            final(self).tunnels == old(self).tunnels,
    {
        let quic = match self.protocol() {
            Ok(p) => p == Protocol::Quic,
            Err(_) => false,
        };
        if quic {
            self.transport.tcp_mux = false;
            self.transport.tls.enable = true;
        }
        if !self.transport.tcp_mux {
            if self.transport.heartbeat_interval < 0 {
                self.transport.heartbeat_interval = 30;
            }
            if self.transport.heartbeat_timeout < 0 {
                self.transport.heartbeat_timeout = 90;
            }
        }
        if is_blank_str(self.auth.auth_type.as_str()) {
            self.auth.auth_type = "token".to_owned();
        }
        if self.udp_packet_size == 0 {
            self.udp_packet_size = DEFAULT_UDP_PACKET_SIZE;
        }
        if is_blank_str(self.transport.tls.server_name.as_str()) {
            match self.server_host() {
                Ok(host) => {
                    self.transport.tls.server_name = host;
                },
                Err(_) => {},
            }
        }
        self.transport.ws_path = normalize_ws_path(self.transport.ws_path.as_str());
    }

    /// Refuses settings that cannot work.
    pub fn validate(&self) -> (r: Result<(), ClientConfigError>)
        ensures
            match r {
                Ok(_) => self@.fault() is None,
                Err(e) => self@.fault() == Some(e@),
            },
    {
        if is_blank_str(self.server.as_str()) {
            return Err(ClientConfigError::ServerMissing);
        }
        match parse_host_port(self.server.as_str(), DEFAULT_LISTEN_PORT) {
            Ok(_) => {},
            Err(cause) => {
                return Err(ClientConfigError::ServerInvalid { cause });
            },
        }
        match self.protocol() {
            Ok(_) => {},
            Err(e) => {
                return Err(e);
            },
        }
        if self.transport.pool_count < 1 {
            return Err(ClientConfigError::PoolCount { count: self.transport.pool_count });
        }
        if self.udp_packet_size == 0 || self.udp_packet_size > 65535 {
            return Err(ClientConfigError::UdpPacketSize { size: self.udp_packet_size });
        }
        if self.transport.heartbeat_timeout > 0 && self.transport.heartbeat_interval > 0
            && self.transport.heartbeat_timeout < self.transport.heartbeat_interval {
            return Err(
                ClientConfigError::Heartbeat {
                    timeout: self.transport.heartbeat_timeout,
                    interval: self.transport.heartbeat_interval,
                },
            );
        }
        self.validate_tunnels()
    }

    fn validate_tunnels(&self) -> (r: Result<(), ClientConfigError>)
        ensures
            match r {
                Ok(_) => faults_from(self@.tunnels, 0) is None,
                Err(e) => faults_from(self@.tunnels, 0) == Some(e@),
            },
    {
        let ghost views = tunnel_views(self.tunnels@);
        let mut seen = vstd::hash_set::StringHashSet::new();
        let mut i: usize = 0;
        while i < self.tunnels.len()
            invariant
                i <= self.tunnels@.len(),
                views == tunnel_views(self.tunnels@),
                self@.tunnels == views,
                faults_from(views, 0) == faults_from(views, i as int),
                forall|n: Seq<char>| #[trigger]
                    seen@.contains(n) <==> exists|j: int|
                        0 <= j < i && #[trigger] views[j].name == n,
            decreases self.tunnels@.len() - i,
        {
            let t = &self.tunnels[i];
            assert(views[i as int] == t@);
            if is_blank_str(t.name.as_str()) {
                return Err(ClientConfigError::TunnelNameMissing);
            }
            let ghost before = seen@;
            assert(before.contains(t@.name) <==> name_taken(views, i as int));
            if !seen.insert(t.name.clone()) {
                return Err(ClientConfigError::TunnelDuplicate { name: t.name.clone() });
            }
            match t.validate() {
                Ok(_) => {},
                Err(e) => {
                    return Err(e);
                },
            }
            i += 1;
            assert forall|n: Seq<char>| #[trigger]
                seen@.contains(n) <==> exists|j: int|
                    0 <= j < i && #[trigger] views[j].name == n by {
                if n == t@.name {
                    assert(views[i - 1].name == n);
                }
                if exists|j: int| 0 <= j < i && #[trigger] views[j].name == n {
                    let j = choose|j: int| 0 <= j < i && #[trigger] views[j].name == n;
                    if j < i - 1 {
                        assert(before.contains(n));
                    }
                }
            }
        }
        Ok(())
    }

    /// The host of the server.
    pub fn server_host(&self) -> (r: Result<String, HostPortError>)
        ensures
            match r {
                Ok(h) => host_port(self.server@, DEFAULT_LISTEN_PORT) matches Ok(hp) && hp.0 == h@,
                Err(e) => host_port(self.server@, DEFAULT_LISTEN_PORT) == Err::<
                    (Seq<char>, u16),
                    HostPortFault,
                >(e.fault) && e.raw@ == self.server@,
            },
    {
        match parse_host_port(self.server.as_str(), DEFAULT_LISTEN_PORT) {
            Ok(hp) => Ok(hp.0),
            Err(e) => Err(e),
        }
    }

    /// The port of the server.
    pub fn server_port(&self) -> (r: Result<u16, HostPortError>)
        ensures
            match r {
                Ok(p) => host_port(self.server@, DEFAULT_LISTEN_PORT) matches Ok(hp) && hp.1 == p,
                Err(e) => host_port(self.server@, DEFAULT_LISTEN_PORT) == Err::<
                    (Seq<char>, u16),
                    HostPortFault,
                >(e.fault) && e.raw@ == self.server@,
            },
    {
        match parse_host_port(self.server.as_str(), DEFAULT_LISTEN_PORT) {
            Ok(hp) => Ok(hp.1),
            Err(e) => Err(e),
        }
    }

    /// The name that the certificate of the server has to bear.
    pub open spec fn tls_name(&self) -> Seq<char> {
        if !is_blank(self.transport.tls.server_name@) {
            trim(self.transport.tls.server_name@)
        } else {
            match host_port(self.server@, DEFAULT_LISTEN_PORT) {
                Ok((host, _)) => host,
                Err(_) => "localhost"@,
            }
        }
    }

    /// The name that the certificate of the server has to bear.
    pub fn tls_server_name(&self) -> (r: String)
        ensures
            r@ == self.tls_name(),
    {
        let name = trim_str(self.transport.tls.server_name.as_str());
        if name.is_empty() {
            match self.server_host() {
                Ok(host) => host,
                Err(_) => "localhost".to_owned(),
            }
        } else {
            name.to_owned()
        }
    }

    /// The address to dial.
    pub fn server_endpoint(&self) -> (r: String)
        ensures
            r@ == trim(self.server@),
    {
        trim_str(self.server.as_str()).to_owned()
    }

    /// The transport to the server.
    pub fn protocol(&self) -> (r: Result<Protocol, ClientConfigError>)
        ensures
            match r {
                Ok(p) => protocol_named(self.transport.protocol@) == Some(p),
                Err(e) => protocol_named(self.transport.protocol@) is None && e@
                    == (ClientFault::Protocol { protocol: self.transport.protocol@ }),
            },
    {
        match Protocol::parse(self.transport.protocol.as_str()) {
            Some(p) => Ok(p),
            None => Err(ClientConfigError::Protocol { protocol: self.transport.protocol.clone() }),
        }
    }

    /// Whether all streams to the server share one connection.
    pub fn uses_yamux(&self) -> (r: bool)
        ensures
            r == (self.transport.tcp_mux && match protocol_named(self.transport.protocol@) {
                Some(p) => p != Protocol::Quic,
                None => false,
            }),
    {
        self.transport.tcp_mux && match self.protocol() {
            Ok(p) => p != Protocol::Quic,
            Err(_) => false,
        }
    }

    /// Whether a change from these settings to `other` leaves the connection alone.
    pub fn connection_settings_eq(&self, other: &ClientConfig) -> (r: bool)
        ensures
            r == self@.same_connection(other@),
    {
        self.server == other.server && self.user == other.user && self.agent_id == other.agent_id
            && self.auth.same_as(&other.auth) && self.transport.same_as(&other.transport)
            && self.udp_packet_size == other.udp_packet_size
    }
}

/// `s` in double quotes, with the escapes that the standard library's `Debug` gives it.
pub uninterp spec fn debug_quoted(s: Seq<char>) -> Seq<char>;

/// Calls the `Debug` formatting of `str`. That its result depends on `s` alone is
/// believed; which characters it escapes is not stated.
#[verifier::external_body]
fn quoted(s: &str) -> (r: String)
    ensures
        r@ == debug_quoted(s@),
{
    format!("{:?}", s)
}

/// ``tunnel `name` ``, with which most complaints about a tunnel begin.
pub open spec fn about_tunnel(name: Seq<char>) -> Seq<char> {
    "tunnel `"@ + name + "` "@
}

fn about_tunnel_str(name: &String) -> (r: String)
    ensures
        r@ == about_tunnel(name@),
{
    "tunnel `".to_owned().concat(name.as_str()).concat("` ")
}

impl ClientFault {
    /// The text that tells a user what is wrong; `number` is how the number is written
    /// that a refused bandwidth denotes, and no other text depends on it.
    pub open spec fn text(self, number: Seq<char>) -> Seq<char> {
        match self {
            ClientFault::ServerMissing => "server is required (host:port)"@,
            ClientFault::ServerInvalid { server, cause } => "invalid server "@ + debug_quoted(
                server,
            ) + ": "@ + host_port_message(cause, server),
            ClientFault::Protocol { protocol } => "unsupported transport.protocol "@
                + debug_quoted(protocol) + ", use tcp|quic|websocket|kcp"@,
            ClientFault::PoolCount { count } => "transport.poolCount must be >= 1, got "@
                + decimal_int(count as int),
            ClientFault::UdpPacketSize { size } => "udpPacketSize out of range: "@ + decimal(
                size as nat,
            ),
            ClientFault::Heartbeat { timeout, interval } => "heartbeatTimeout ("@ + decimal_int(
                timeout as int,
            ) + ") must be >= heartbeatInterval ("@ + decimal_int(interval as int) + ")"@,
            ClientFault::TunnelNameMissing => "tunnel name is required"@,
            ClientFault::TunnelDuplicate { name } => "duplicate tunnel name `"@ + name + "`"@,
            ClientFault::TunnelProtocol { name, protocol } => about_tunnel(name)
                + "unsupported protocol "@ + debug_quoted(protocol),
            ClientFault::TunnelBandwidth { name, .. } => about_tunnel(name)
                + "invalid bandwidth "@ + number,
            ClientFault::TunnelBandwidthSide { name, side } => about_tunnel(name)
                + "invalid bandwidthLimitSide "@ + debug_quoted(side),
            ClientFault::RemotePortMissing { name, protocol } => about_tunnel(name)
                + "remotePort is required for "@ + protocol,
            ClientFault::DomainsMissing { name, protocol } => about_tunnel(name)
                + "domains is required for "@ + protocol,
            ClientFault::ServiceInvalid { name, service, cause } => about_tunnel(name)
                + "invalid service: "@ + host_port_message(cause, service),
            ClientFault::ServicePortMissing { name, service } => about_tunnel(name)
                + "service must include a port (got "@ + debug_quoted(service) + ")"@,
            ClientFault::PluginType { name, plugin_type } => about_tunnel(name)
                + "unsupported plugin.type "@ + debug_quoted(plugin_type),
            ClientFault::PluginServiceMissing { name } => about_tunnel(name)
                + "plugin.service is required for tls-term"@,
            ClientFault::PluginServiceInvalid { name, service, cause } => about_tunnel(name)
                + "invalid plugin.service: "@ + host_port_message(cause, service),
            ClientFault::PluginServicePort { name } => about_tunnel(name)
                + "plugin.service must be host:port"@,
            ClientFault::Socks5Credentials { name } => about_tunnel(name)
                + "socks5 requires username and password"@,
        }
    }
}

impl ClientConfigError {
    /// The bits of the bandwidth that is refused, where that is what is wrong.
    pub fn refused_number(&self) -> (r: Option<u64>)
        ensures
            r == (match self@ {
                ClientFault::TunnelBandwidth { bits, .. } => Some(bits),
                _ => None,
            }),
    {
        match self {
            ClientConfigError::TunnelBandwidth { bits, .. } => Some(*bits),
            _ => None,
        }
    }

    /// The text that tells a user what is wrong; `number` is how the number is written
    /// that a refused bandwidth denotes, and no other text depends on it.
    pub fn message(&self, number: &str) -> (r: String)
        ensures
            r@ == self@.text(number@),
    {
        match self {
            ClientConfigError::ServerMissing => "server is required (host:port)".to_owned(),
            ClientConfigError::ServerInvalid { cause } => "invalid server ".to_owned().concat(
                quoted(cause.raw.as_str()).as_str(),
            ).concat(": ").concat(cause.message().as_str()),
            ClientConfigError::Protocol { protocol } =>
                "unsupported transport.protocol ".to_owned().concat(
                quoted(protocol.as_str()).as_str(),
            ).concat(", use tcp|quic|websocket|kcp"),
            ClientConfigError::PoolCount { count } =>
                "transport.poolCount must be >= 1, got ".to_owned().concat(
                decimal_int_str(*count as i64).as_str(),
            ),
            ClientConfigError::UdpPacketSize { size } =>
                "udpPacketSize out of range: ".to_owned().concat(
                decimal_str(*size as u64).as_str(),
            ),
            ClientConfigError::Heartbeat { timeout, interval } =>
                "heartbeatTimeout (".to_owned().concat(decimal_int_str(*timeout).as_str()).concat(
                ") must be >= heartbeatInterval (",
            ).concat(decimal_int_str(*interval).as_str()).concat(")"),
            ClientConfigError::TunnelNameMissing => "tunnel name is required".to_owned(),
            ClientConfigError::TunnelDuplicate { name } =>
                "duplicate tunnel name `".to_owned().concat(name.as_str()).concat("`"),
            ClientConfigError::TunnelProtocol { name, protocol } => about_tunnel_str(name).concat(
                "unsupported protocol ",
            ).concat(quoted(protocol.as_str()).as_str()),
            ClientConfigError::TunnelBandwidth { name, .. } => about_tunnel_str(name).concat(
                "invalid bandwidth ",
            ).concat(number),
            ClientConfigError::TunnelBandwidthSide { name, side } => about_tunnel_str(name).concat(
                "invalid bandwidthLimitSide ",
            ).concat(quoted(side.as_str()).as_str()),
            ClientConfigError::RemotePortMissing { name, protocol } => about_tunnel_str(
                name,
            ).concat("remotePort is required for ").concat(protocol.as_str()),
            ClientConfigError::DomainsMissing { name, protocol } => about_tunnel_str(name).concat(
                "domains is required for ",
            ).concat(protocol.as_str()),
            ClientConfigError::ServiceInvalid { name, cause } => about_tunnel_str(name).concat(
                "invalid service: ",
            ).concat(cause.message().as_str()),
            ClientConfigError::ServicePortMissing { name, service } => about_tunnel_str(
                name,
            ).concat("service must include a port (got ").concat(
                quoted(service.as_str()).as_str(),
            ).concat(")"),
            ClientConfigError::PluginType { name, plugin_type } => about_tunnel_str(name).concat(
                "unsupported plugin.type ",
            ).concat(quoted(plugin_type.as_str()).as_str()),
            ClientConfigError::PluginServiceMissing { name } => about_tunnel_str(name).concat(
                "plugin.service is required for tls-term",
            ),
            ClientConfigError::PluginServiceInvalid { name, cause } => about_tunnel_str(
                name,
            ).concat("invalid plugin.service: ").concat(cause.message().as_str()),
            ClientConfigError::PluginServicePort { name } => about_tunnel_str(name).concat(
                "plugin.service must be host:port",
            ),
            ClientConfigError::Socks5Credentials { name } => about_tunnel_str(name).concat(
                "socks5 requires username and password",
            ),
        }
    }
}

/// A plugin before and after the file names in it were resolved.
pub open spec fn plugin_paths_resolved<F: Fn(&String) -> String>(
    resolve: F,
    before: PluginConfig,
    after: PluginConfig,
) -> bool {
    &&& call_ensures(resolve, (&before.cert_file,), after.cert_file)
    &&& call_ensures(resolve, (&before.key_file,), after.key_file)
    &&& after == PluginConfig { cert_file: after.cert_file, key_file: after.key_file, ..before }
}

/// A tunnel before and after the file names in it were resolved.
pub open spec fn tunnel_paths_resolved<F: Fn(&String) -> String>(
    resolve: F,
    before: TunnelConfig,
    after: TunnelConfig,
) -> bool {
    &&& after == TunnelConfig { plugin: after.plugin, ..before }
    &&& match before.plugin {
        None => after.plugin is None,
        Some(p) => after.plugin matches Some(q) && plugin_paths_resolved(resolve, p, q),
    }
}

/// The settings before and after the file names in them were resolved: each name
/// is what `resolve` made of it, and all else is as it was.
pub open spec fn client_paths_resolved<F: Fn(&String) -> String>(
    resolve: F,
    before: ClientConfig,
    after: ClientConfig,
) -> bool {
    &&& call_ensures(
        resolve,
        (&before.transport.tls.cert_file,),
        after.transport.tls.cert_file,
    )
    &&& call_ensures(resolve, (&before.transport.tls.key_file,), after.transport.tls.key_file)
    &&& call_ensures(
        resolve,
        (&before.transport.tls.trusted_ca_file,),
        after.transport.tls.trusted_ca_file,
    )
    &&& after == ClientConfig {
        transport: TransportConfig {
            tls: ClientTlsConfig {
                cert_file: after.transport.tls.cert_file,
                key_file: after.transport.tls.key_file,
                trusted_ca_file: after.transport.tls.trusted_ca_file,
                ..before.transport.tls
            },
            ..before.transport
        },
        tunnels: after.tunnels,
        ..before
    }
    &&& after.tunnels@.len() == before.tunnels@.len()
    &&& forall|i: int|
        0 <= i < before.tunnels@.len() ==> #[trigger] tunnel_paths_resolved(
            resolve,
            before.tunnels@[i],
            after.tunnels@[i],
        )
}

/// Whether settings are read to be used or to be changed by hand.
#[derive(Debug, Clone, Copy, PartialEq, Eq, Structural)]
pub enum LoadMode {
    Runtime,
    Edit,
}

/// The settings before and after the files that they name were looked for, which
/// is done only where the settings are read to be used.
pub open spec fn client_paths_found<F: Fn(&String) -> String>(
    resolve: F,
    mode: LoadMode,
    before: ClientConfig,
    after: ClientConfig,
) -> bool {
    if mode == LoadMode::Runtime {
        client_paths_resolved(resolve, before, after)
    } else {
        after == before
    }
}

impl ClientConfig {
    /// Replaces the file names in the settings by what `resolve` makes of them.
    fn resolve_paths<F: Fn(&String) -> String>(&mut self, resolve: &F)
        requires
            forall|p: &String| call_requires(*resolve, (p,)),
        ensures
            client_paths_resolved(*resolve, *old(self), *final(self)),
    {
        let cert = resolve(&self.transport.tls.cert_file);
        let key = resolve(&self.transport.tls.key_file);
        let ca = resolve(&self.transport.tls.trusted_ca_file);
        self.transport.tls.cert_file = cert;
        self.transport.tls.key_file = key;
        self.transport.tls.trusted_ca_file = ca;
        let ghost before = old(self).tunnels@;
        let ghost settings = *self;
        let mut i: usize = 0;
        while i < self.tunnels.len()
            invariant
                i <= self.tunnels@.len(),
                self.tunnels@.len() == before.len(),
                *self == (ClientConfig { tunnels: self.tunnels, ..settings }),
                forall|p: &String| call_requires(*resolve, (p,)),
                forall|j: int|
                    0 <= j < i ==> #[trigger] tunnel_paths_resolved(
                        *resolve,
                        before[j],
                        self.tunnels@[j],
                    ),
                forall|j: int| i <= j < before.len() ==> before[j] == #[trigger] self.tunnels@[j],
            decreases self.tunnels@.len() - i,
        {
            let t = &mut self.tunnels[i];
            match &mut t.plugin {
                Some(p) => {
                    let cert = resolve(&p.cert_file);
                    let key = resolve(&p.key_file);
                    p.cert_file = cert;
                    p.key_file = key;
                },
                None => {},
            }
            i += 1;
        }
    }

    /// Makes the settings ready for use: `resolve` finds the files that they name,
    /// then what they leave open is filled in.
    pub fn prepare_runtime<F: Fn(&String) -> String>(&mut self, resolve: &F)
        requires
            forall|p: &String| call_requires(*resolve, (p,)),
        ensures
            exists|found: ClientConfig| #[trigger]
                client_paths_resolved(*resolve, *old(self), found) && final(self)@
                    == found@.completed(),
    {
        self.resolve_paths(resolve);
        let ghost found = *self;
        self.complete();
        assert(client_paths_resolved(*resolve, *old(self), found));
    }

    /// Makes the settings read from a file ready: for use, the files that they name
    /// are found first; either way what they leave open is filled in and all is checked.
    pub fn load_with<F: Fn(&String) -> String>(self, mode: LoadMode, resolve: &F) -> (r: Result<
        ClientConfig,
        ClientConfigError,
    >)
        requires
            forall|p: &String| call_requires(*resolve, (p,)),
        ensures
            exists|found: ClientConfig| #[trigger]
                client_paths_found(*resolve, mode, self, found) && match r {
                    Ok(cfg) => cfg@ == found@.completed() && cfg@.fault() is None,
                    Err(e) => found@.completed().fault() == Some(e@),
                },
    {
        let mut cfg = self;
        match mode {
            LoadMode::Runtime => {
                cfg.resolve_paths(resolve);
            },
            LoadMode::Edit => {},
        }
        let ghost found = cfg;
        cfg.complete();
        assert(client_paths_found(*resolve, mode, self, found));
        match cfg.validate() {
            Ok(_) => Ok(cfg),
            Err(e) => Err(e),
        }
    }
}

/// Filling in what was left open a second time changes nothing.
pub proof fn completion_settles(c: ClientConfigView)
    ensures
        c.completed().completed() == c.completed(),
{
    reveal_strlit("token");
    lemma_trim_tight("token"@);
    ws_path_settles(c.transport.ws_path);
}

/// Settings that were filled in neither lack a packet size nor, without a shared
/// connection, a heartbeat.
pub proof fn completed_has_heartbeat(c: ClientConfigView)
    ensures
        c.completed().udp_packet_size != 0,
        !c.completed().transport.tcp_mux ==> c.completed().transport.heartbeat_interval >= 0
            && c.completed().transport.heartbeat_timeout >= 0,
        protocol_named(c.transport.protocol) == Some(Protocol::Quic) ==> {
            &&& !c.completed().transport.tcp_mux
            &&& c.completed().transport.tls.enable
        },
{
}

/// In settings that pass the checks no two tunnels share a name, and each tunnel
/// passes by itself.
pub proof fn checked_tunnels_are_distinct(c: ClientConfigView, i: int, j: int)
    requires
        c.fault() is None,
        0 <= i < c.tunnels.len(),
        0 <= j < c.tunnels.len(),
    ensures
        c.tunnels[i].name == c.tunnels[j].name ==> i == j,
        c.tunnels[i].fault() is None,
{
    lemma_no_fault_at(c.tunnels, 0, i);
    lemma_no_fault_at(c.tunnels, 0, j);
    if i < j {
        assert(c.tunnels[i].name == c.tunnels[j].name ==> name_taken(c.tunnels, j));
    } else if j < i {
        assert(c.tunnels[j].name == c.tunnels[i].name ==> name_taken(c.tunnels, i));
    }
}

proof fn lemma_no_fault_at(tunnels: Seq<TunnelView>, from: int, i: int)
    requires
        faults_from(tunnels, from) is None,
        0 <= from <= i < tunnels.len(),
    ensures
        fault_at(tunnels, i) is None,
    decreases i - from,
{
    if from < i {
        lemma_no_fault_at(tunnels, from + 1, i);
    }
}

/// Whether two settings agree on the connection is an equivalence.
pub proof fn same_connection_is_equivalence(
    a: ClientConfigView,
    b: ClientConfigView,
    c: ClientConfigView,
)
    ensures
        a.same_connection(a),
        a.same_connection(b) == b.same_connection(a),
        a.same_connection(b) && b.same_connection(c) ==> a.same_connection(c),
{
}

} // verus!
