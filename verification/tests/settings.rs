use orbien::config::client::{
    is_bandwidth_limit, AuthConfig, ClientConfig, ClientConfigError, LoadMode, PluginConfig,
    TransportConfig, TunnelConfig, TunnelTransportConfig,
};
use orbien::config::host_port::{join_host_port, parse_host_port, HostPortFault};
use orbien::config::server::{
    is_unspecified_bind, listen_addrs_overlap, tcp_listen_conflicts, QuicOptions, ServerConfig,
    ServerConfigError,
};
use orbien::transport::{normalize_ws_path, Protocol};

fn client() -> ClientConfig {
    ClientConfig {
        server: "example.com:9527".to_string(),
        user: "u".to_string(),
        agent_id: "a".to_string(),
        auth: AuthConfig::default(),
        transport: TransportConfig::default(),
        tunnels: Vec::new(),
        udp_packet_size: 1500,
    }
}

fn tunnel(name: &str, protocol: &str, port: u16) -> TunnelConfig {
    TunnelConfig {
        name: name.to_string(),
        protocol: protocol.to_string(),
        service: "127.0.0.1:22".to_string(),
        remote_port: port,
        domains: Vec::new(),
        locations: Vec::new(),
        basic_auth_user: String::new(),
        basic_auth_password: String::new(),
        host_header_rewrite: String::new(),
        transport: TunnelTransportConfig::default(),
        plugin: None,
    }
}

fn plugin(kind: &str, service: &str) -> PluginConfig {
    PluginConfig {
        plugin_type: kind.to_string(),
        service: service.to_string(),
        cert_file: String::new(),
        key_file: String::new(),
        host_header_rewrite: String::new(),
        username: String::new(),
        password: String::new(),
    }
}

fn refused(cfg: &mut ClientConfig) -> ClientConfigError {
    cfg.complete();
    cfg.validate().unwrap_err()
}

#[test]
fn addresses_are_split_and_joined() {
    assert_eq!(parse_host_port("1.2.3.4:80", 9).unwrap(), ("1.2.3.4".to_string(), 80));
    assert_eq!(parse_host_port("  ", 9).unwrap(), ("0.0.0.0".to_string(), 9));
    assert_eq!(parse_host_port(" 7000 ", 9).unwrap(), ("7000".to_string(), 9));
    assert_eq!(parse_host_port("host", 9).unwrap(), ("host".to_string(), 9));
    assert_eq!(parse_host_port("host:", 9).unwrap(), ("host".to_string(), 9));
    assert_eq!(parse_host_port("host:0", 9).unwrap(), ("host".to_string(), 9));
    assert_eq!(parse_host_port("[::1]:443", 9).unwrap(), ("[::1]".to_string(), 443));
    assert_eq!(parse_host_port("[::1]", 9).unwrap(), ("[::1]".to_string(), 9));
    assert_eq!(parse_host_port("[::1]:", 9).unwrap(), ("[::1]".to_string(), 9));
    assert_eq!(parse_host_port("::1", 9).unwrap(), ("::1".to_string(), 9));
    assert_eq!(parse_host_port(":80", 9).unwrap(), (":80".to_string(), 9));
    let joined = join_host_port("10.0.0.1", 9527);
    assert_eq!(joined, "10.0.0.1:9527");
    assert_eq!(parse_host_port(&joined, 1).unwrap(), ("10.0.0.1".to_string(), 9527));
}

#[test]
fn bad_addresses_tell_why() {
    let fault = |s: &str| parse_host_port(s, 1).unwrap_err();
    assert_eq!(fault("[::1").fault, HostPortFault::MissingBracket);
    assert_eq!(fault("[]:1").fault, HostPortFault::EmptyHost);
    assert_eq!(fault("[::1]x").fault, HostPortFault::ExpectedColon);
    assert_eq!(fault("h:99999").fault, HostPortFault::BadPort);
    assert_eq!(fault("[::1").message(), "invalid listen address '[::1': missing ']'");
    assert_eq!(fault("h:99999").message(), "invalid listen port in 'h:99999'");
}

#[test]
fn default_server_settings_are_valid() {
    let mut cfg = ServerConfig::from_defaults();
    assert!(cfg.validate().is_ok());
    assert_eq!(cfg.listen_port().unwrap(), 9527);
    assert_eq!(cfg.listen_host().unwrap(), "0.0.0.0");
    let before = cfg.clone();
    cfg.complete();
    assert_eq!(cfg.listen, before.listen);
    assert!(!cfg.quic_enabled() && !cfg.kcp_enabled());
}

#[test]
fn server_settings_that_collide_are_refused() {
    let mut cfg = ServerConfig::from_defaults();
    cfg.quic_port = 7000;
    cfg.kcp_port = 7000;
    assert!(matches!(
        cfg.validate().unwrap_err(),
        ServerConfigError::QuicKcpPort { port: 7000 }
    ));
    let mut cfg = ServerConfig::from_defaults();
    cfg.http_gw_port = 9527;
    assert!(matches!(cfg.validate().unwrap_err(), ServerConfigError::HttpGwListen { .. }));
    let mut cfg = ServerConfig::from_defaults();
    cfg.https_gw_port = 9527;
    assert!(matches!(cfg.validate().unwrap_err(), ServerConfigError::HttpsGwListen { .. }));
    let mut cfg = ServerConfig::from_defaults();
    cfg.http_gw_port = 80;
    cfg.https_gw_port = 80;
    let e = cfg.validate().unwrap_err();
    assert_eq!(e.message(), "httpGwPort and httpsGwPort must differ (both set to 80)");
    let mut cfg = ServerConfig::from_defaults();
    cfg.dashboard.port = 7500;
    assert!(matches!(cfg.validate().unwrap_err(), ServerConfigError::DashboardCredentials));
    cfg.dashboard.user = "admin".to_string();
    cfg.dashboard.password = "x".to_string();
    assert!(cfg.validate().is_ok());
    assert!(cfg.dashboard.enabled());
    let mut cfg = ServerConfig::from_defaults();
    cfg.listen = "[::1".to_string();
    let e = cfg.validate().unwrap_err();
    assert_eq!(e.message(), "invalid listen '[::1'");
    assert!(matches!(e, ServerConfigError::InvalidListen { cause, .. } if cause.raw == "[::1"));
}

#[test]
fn listeners_conflict_on_the_same_port_only() {
    assert!(tcp_listen_conflicts("0.0.0.0", 80, "127.0.0.1", 80));
    assert!(tcp_listen_conflicts("127.0.0.1", 80, "0.0.0.0", 80));
    assert!(!tcp_listen_conflicts("0.0.0.0", 80, "0.0.0.0", 81));
    assert!(!listen_addrs_overlap("127.0.0.1", "10.0.0.1"));
    assert!(is_unspecified_bind("0.0.0.0"));
    assert!(!is_unspecified_bind("127.0.0.1"));
}

#[test]
fn server_files_are_found_by_the_resolver() {
    let mut cfg = ServerConfig::from_defaults();
    cfg.transport.tls.cert_file = "cert.pem".to_string();
    let ready = cfg
        .prepare(|p: &String| if p.is_empty() { String::new() } else { format!("/etc/{p}") })
        .unwrap();
    assert_eq!(ready.transport.tls.cert_file, "/etc/cert.pem");
    assert_eq!(ready.transport.tls.key_file, "");
}

#[test]
fn quic_periods_are_at_least_a_second() {
    let q = QuicOptions { keepalive_period: 0, max_idle_timeout: 0, max_incoming_streams: 1 };
    assert_eq!(q.keepalive(), 1);
    assert_eq!(q.idle_timeout(), 1);
    assert_eq!(QuicOptions::default().keepalive(), 10);
}

#[test]
fn client_settings_are_checked() {
    let mut cfg = client();
    cfg.tunnels.push(tunnel("ssh", "tcp", 6000));
    cfg.complete();
    assert!(cfg.validate().is_ok());
    assert_eq!(cfg.server_host().unwrap(), "example.com");
    assert_eq!(cfg.server_port().unwrap(), 9527);
    assert_eq!(cfg.tls_server_name(), "example.com");
    assert_eq!(cfg.server_endpoint(), "example.com:9527");
    assert!(cfg.uses_yamux());
    assert_eq!(cfg.protocol().unwrap(), Protocol::Tcp);
}

#[test]
fn client_settings_that_are_wrong_are_refused() {
    let mut cfg = client();
    cfg.server = "  ".to_string();
    assert!(matches!(refused(&mut cfg), ClientConfigError::ServerMissing));
    let mut cfg = client();
    cfg.server = "[::1".to_string();
    assert!(matches!(refused(&mut cfg), ClientConfigError::ServerInvalid { .. }));
    let mut cfg = client();
    cfg.transport.protocol = "carrier\"pigeon".to_string();
    assert_eq!(
        refused(&mut cfg).message(""),
        "unsupported transport.protocol \"carrier\\\"pigeon\", use tcp|quic|websocket|kcp"
    );
    let mut cfg = client();
    cfg.transport.pool_count = -2;
    assert!(matches!(cfg.validate().unwrap_err(), ClientConfigError::PoolCount { count: -2 }));
    let mut cfg = client();
    cfg.transport.heartbeat_interval = 30;
    cfg.transport.heartbeat_timeout = 10;
    assert!(matches!(refused(&mut cfg), ClientConfigError::Heartbeat { .. }));
    let mut cfg = client();
    cfg.udp_packet_size = 70000;
    assert!(matches!(refused(&mut cfg), ClientConfigError::UdpPacketSize { .. }));
}

#[test]
fn tunnels_that_are_wrong_are_refused() {
    let with = |t: TunnelConfig| {
        let mut cfg = client();
        cfg.tunnels.push(t);
        refused(&mut cfg)
    };
    assert!(matches!(with(tunnel(" ", "tcp", 1)), ClientConfigError::TunnelNameMissing));
    assert!(matches!(with(tunnel("a", "ftp", 1)), ClientConfigError::TunnelProtocol { .. }));
    assert!(matches!(with(tunnel("a", "tcp", 0)), ClientConfigError::RemotePortMissing { .. }));
    assert!(matches!(with(tunnel("a", "http", 0)), ClientConfigError::DomainsMissing { .. }));
    let mut t = tunnel("a", "tcp", 1);
    t.service = "[::1".to_string();
    assert!(matches!(with(t), ClientConfigError::ServiceInvalid { .. }));
    let mut t = tunnel("a", "tcp", 1);
    t.service = "host".to_string();
    assert!(matches!(with(t), ClientConfigError::ServicePortMissing { .. }));
    let mut t = tunnel("a", "tcp", 1);
    t.plugin = Some(plugin("nope", ""));
    assert!(matches!(with(t), ClientConfigError::PluginType { .. }));
    let mut t = tunnel("a", "https", 0);
    t.domains.push("d".to_string());
    t.plugin = Some(plugin("tls-term", ""));
    assert!(matches!(with(t), ClientConfigError::PluginServiceMissing { .. }));
    let mut t = tunnel("a", "https", 0);
    t.domains.push("d".to_string());
    t.plugin = Some(plugin("tls-term", "[x"));
    assert!(matches!(with(t), ClientConfigError::PluginServiceInvalid { .. }));
    let mut t = tunnel("a", "https", 0);
    t.domains.push("d".to_string());
    t.plugin = Some(plugin("tls-term", "host"));
    assert!(matches!(with(t), ClientConfigError::PluginServicePort { .. }));
    let mut t = tunnel("a", "tcp", 1);
    t.transport.bandwidth_bits = (-1.0f64).to_bits();
    let e = with(t);
    assert!(matches!(e, ClientConfigError::TunnelBandwidth { .. }));
    let number = f64::from_bits(e.refused_number().unwrap());
    assert_eq!(e.message(&format!("{number}")), "tunnel `a` invalid bandwidth -1");
    let mut t = tunnel("a", "tcp", 1);
    t.transport.bandwidth_bits = 5.0f64.to_bits();
    t.transport.bandwidth_limit_side = "middle".to_string();
    assert!(matches!(with(t), ClientConfigError::TunnelBandwidthSide { .. }));
    let mut cfg = client();
    cfg.tunnels.push(tunnel("a", "tcp", 1));
    cfg.tunnels.push(tunnel("a", "udp", 2));
    let e = refused(&mut cfg);
    assert_eq!(e.refused_number(), None);
    assert_eq!(e.message("7"), "duplicate tunnel name `a`");
}

#[test]
fn bandwidths_are_told_by_their_bits() {
    for v in [0.0f64, 0.5, 1.0, 1e300, f64::MIN_POSITIVE] {
        assert!(is_bandwidth_limit(v.to_bits()) == (v.is_finite() && v >= 0.0));
    }
    for v in [f64::NAN, f64::INFINITY, f64::NEG_INFINITY, -1.0] {
        assert!(!is_bandwidth_limit(v.to_bits()));
    }
}

#[test]
fn completing_settings_twice_changes_nothing() {
    let mut cfg = client();
    cfg.transport.tls.server_name = " name ".to_string();
    cfg.tunnels.push(tunnel("ssh", "TCP", 6000));
    cfg.complete();
    let once = cfg.clone();
    cfg.complete();
    assert!(cfg == once);
}

#[test]
fn settings_are_loaded_for_use_or_for_editing() {
    let mut cfg = client();
    cfg.transport.tls.cert_file = "c.pem".to_string();
    let found = |p: &String| format!("/found/{p}");
    let used = cfg.clone().load_with(LoadMode::Runtime, &found).unwrap();
    assert_eq!(used.transport.tls.cert_file, "/found/c.pem");
    let edited = cfg.load_with(LoadMode::Edit, &found).unwrap();
    assert_eq!(edited.transport.tls.cert_file, "c.pem");
    assert!(!edited.connection_settings_eq(&used));
    assert!(used.connection_settings_eq(&used.clone()));
}

#[test]
fn websocket_paths_settle() {
    assert_eq!(normalize_ws_path(""), "/orbien");
    assert_eq!(normalize_ws_path(" x "), "/x");
    assert_eq!(normalize_ws_path("/x"), "/x");
    assert_eq!(normalize_ws_path(&normalize_ws_path("abc")), "/abc");
    assert!(Protocol::parse("kcp") == Some(Protocol::Kcp));
    assert!(Protocol::parse("smtp").is_none());
}
