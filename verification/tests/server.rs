use orbien::config::server::ServerConfig;
use orbien::msg::{Login, NewDataConn, NewTunnel};
use orbien::server::control::{
    effective_ping_timeout, login_err, ClientIdentity, ClientMessage, Control, ControlAction,
    Ending,
};
use orbien::server::hour_counter::{
    current_hour, start_or, truncate_hour, HourCounter, LocalMoment, Moment,
};
use orbien::server::ports::{PortError, PortTable};
use orbien::server::register::{tunnel_answer, Gateways, RegisterError, Shared, TunnelKind};
use orbien::server::service::{
    choose_session_id, gateways, listener_plan, pool_count, register_data_conn, server_result,
    session_id_of, short_session_id, CleanedNames, DataConnRefusal, ListenerEnd, LoginRefusal,
    SessionTable,
};

fn identity() -> ClientIdentity {
    ClientIdentity {
        user: "u".to_string(),
        agent_id: "a".to_string(),
        hostname: "h".to_string(),
        os: "o".to_string(),
        arch: "x".to_string(),
        version: "1".to_string(),
        client_ip: "9.9.9.9".to_string(),
    }
}

fn control(id: &str, generation: u64) -> Control {
    Control::new(id.to_string(), generation, 0, identity(), 100)
}

fn request(name: &str, protocol: &str, port: i32) -> NewTunnel {
    NewTunnel {
        tunnel_name: name.to_string(),
        protocol: protocol.to_string(),
        remote_port: port,
        local_ip: "127.0.0.1".to_string(),
        local_port: 22,
        domains: Vec::new(),
        locations: Vec::new(),
        basic_auth_user: String::new(),
        basic_auth_password: String::new(),
        host_header_rewrite: String::new(),
        headers: Vec::new(),
        response_headers: Vec::new(),
        bandwidth_bits: 0,
        bandwidth_limit_side: String::new(),
    }
}

const GWS: Gateways = Gateways { http: Some(8080), https: None };

fn register(c: &mut Control, sh: &mut Shared, np: &NewTunnel) -> Result<String, String> {
    match c.begin_register(sh, np, GWS, 1500, None) {
        Err(refused) => Err(refused.error.message()),
        Ok(plan) => {
            let domains = vec!["a.x".to_string(), "b.x".to_string()];
            c.complete_register(sh, &plan, Ok(domains), "127.0.0.1:22".to_string())
                .map_err(|e| e.message())
        }
    }
}

#[test]
fn ports_are_claimed_and_released() {
    let mut t = PortTable::new();
    assert!(t.claim(80, "web").is_ok());
    let e = t.claim(80, "other").unwrap_err();
    assert!(matches!(e, PortError::InUse { port: 80, .. }));
    assert_eq!(e.message(), "remote port 80 is already in use by tunnel `web`");
    assert_eq!(t.claim(0, "x").unwrap_err().message(), "invalid remote port 0");
    t.release(80, "other");
    assert!(t.claim(80, "other").is_err());
    t.release(80, "web");
    assert!(t.claim(80, "other").is_ok());
}

#[test]
fn tunnels_are_registered() {
    let mut sh = Shared::new();
    let mut c = control("s", 1);
    assert_eq!(register(&mut c, &mut sh, &request("t", "tcp", 6000)).unwrap(), ":6000");
    assert_eq!(register(&mut c, &mut sh, &request("w", "http", 0)).unwrap(), "a.x:8080,b.x:8080");
    assert_eq!(c.tunnel_count(), 2);
    let slot = &c.tunnels().at(0).1;
    assert!(slot.kind == TunnelKind::Tcp && slot.remote_port == Some(6000));
    assert_eq!(slot.local_addr, "127.0.0.1:22");
    assert_eq!(
        register(&mut c, &mut sh, &request("t2", "tcp", 6000)).unwrap_err(),
        "remote port 6000 is already in use by tunnel `t`"
    );
    assert_eq!(register(&mut c, &mut sh, &request("t2", "udp", 6000)).unwrap(), ":6000");
}

#[test]
fn registrations_are_refused() {
    let mut sh = Shared::new();
    let mut c = control("s", 1);
    let text = |c: &mut Control, sh: &mut Shared, p: &str, port: i32| {
        register(c, sh, &request("t", p, port)).unwrap_err()
    };
    assert_eq!(text(&mut c, &mut sh, "tcp", 0), "invalid remote_port");
    assert_eq!(text(&mut c, &mut sh, "udp", 65536), "invalid remote_port");
    assert_eq!(text(&mut c, &mut sh, "ftp", 1), "unsupported tunnel protocol: ftp");
    assert_eq!(
        text(&mut c, &mut sh, "https", 0),
        "https tunnel requires server httpsGwPort > 0"
    );
    let none = Gateways { http: None, https: None };
    let e = c.begin_register(&mut sh, &request("t", "http", 0), none, 0, None).err().unwrap();
    assert_eq!(e.error.message(), "http tunnel requires server httpGwPort > 0");
    let limit = Some("bad limit".to_string());
    let e = c.begin_register(&mut sh, &request("t", "tcp", 1), GWS, 0, limit).err().unwrap();
    assert_eq!(e.error.message(), "bad limit");
    let mut other = control("o", 2);
    register(&mut other, &mut sh, &request("t", "tcp", 1)).unwrap();
    assert!(matches!(
        c.begin_register(&mut sh, &request("t", "tcp", 2), GWS, 0, None).err().unwrap().error,
        RegisterError::NameTaken { .. }
    ));
    c.signal_close();
    assert_eq!(text(&mut c, &mut sh, "tcp", 5), "control session is closed");
}

#[test]
fn failed_starts_leave_no_trace() {
    let mut sh = Shared::new();
    let mut c = control("s", 1);
    let np = request("t", "udp", 7000);
    let plan = c.begin_register(&mut sh, &np, GWS, 100, None).ok().unwrap();
    assert_eq!(plan.packet_size, 512);
    let e = c
        .complete_register(&mut sh, &plan, Err("bind failed".to_string()), String::new())
        .unwrap_err();
    assert_eq!(e.message(), "bind failed");
    let answer = tunnel_answer(&np, Err(e));
    assert_eq!((answer.error.as_str(), answer.remote_addr.as_str()), ("bind failed", ""));
    let mut other = control("o", 2);
    assert!(register(&mut other, &mut sh, &np).is_ok());
}

#[test]
fn tunnels_of_the_same_session_are_replaced() {
    let mut sh = Shared::new();
    let mut c = control("s", 1);
    register(&mut c, &mut sh, &request("t", "tcp", 6000)).unwrap();
    let plan = c.begin_register(&mut sh, &request("t", "udp", 6001), GWS, 0, None).ok().unwrap();
    assert!(plan.replaced == Some(TunnelKind::Tcp));
    let first = c.complete_register(&mut sh, &plan, Ok(Vec::new()), String::new());
    assert_eq!(first.ok().unwrap(), ":6001");
    let again = c.complete_register(&mut sh, &plan, Ok(Vec::new()), String::new()).unwrap_err();
    assert_eq!(again.message(), "tunnel `t` already present in this session");
    let mut other = control("o", 2);
    assert!(register(&mut other, &mut sh, &request("t6", "tcp", 6000)).is_ok());
}

#[test]
fn sessions_give_back_what_they_have() {
    let mut sh = Shared::new();
    let mut c = control("s", 1);
    register(&mut c, &mut sh, &request("t", "tcp", 1)).unwrap();
    register(&mut c, &mut sh, &request("w", "http", 0)).unwrap();
    let msg = ClientMessage::CloseTunnel { tunnel_name: "w".to_string() };
    match c.on_message(&mut sh, msg, 0) {
        ControlAction::TunnelClosed { name, kind } => {
            assert!(name == "w" && kind == TunnelKind::Http);
        }
        _ => panic!("the tunnel was there"),
    }
    match c.shutdown(&mut sh) {
        Ending::Clean(gone) => {
            assert_eq!(gone, vec![("t".to_string(), TunnelKind::Tcp)]);
        }
        Ending::Wait => panic!("nobody else ends it"),
    }
    assert!(matches!(c.shutdown(&mut sh), Ending::Wait));
    assert!(c.is_closed() && !c.is_finished() && !c.may_spawn());
    c.mark_finished();
    assert!(c.is_finished());
    let mut other = control("o", 2);
    register(&mut other, &mut sh, &request("t", "tcp", 1)).unwrap();
    other.abandon(&mut sh);
    assert!(other.is_finished() && other.tunnel_count() == 0);
    assert!(register(&mut control("p", 3), &mut sh, &request("t", "tcp", 1)).is_ok());
}

#[test]
fn sessions_take_in_messages() {
    let mut sh = Shared::new();
    let mut c = control("s", 4);
    assert_eq!((c.session_id().as_str(), c.generation()), ("s", 4));
    assert_eq!(c.identity().user, "u");
    assert_eq!(c.owner().generation, 4);
    assert!(c.wants_data_conn(0) && !c.wants_data_conn(1));
    assert!(!c.is_accepting_data());
    assert_eq!(c.login_ok("9").session_id, "s");
    assert_eq!(login_err("9", "no").error, "no");
    c.activate();
    assert!(c.is_accepting_data());
    assert!(c.is_silent(131, 30) && !c.is_silent(130, 30));
    assert!(matches!(
        c.on_message(&mut sh, ClientMessage::Ping, 500),
        ControlAction::SendPong
    ));
    assert!(!c.is_silent(520, 30));
    assert!(matches!(
        c.on_message(&mut sh, ClientMessage::Other { type_byte: 3 }, 0),
        ControlAction::Ignored
    ));
    assert!(matches!(
        c.on_message(&mut sh, ClientMessage::NewTunnel(request("t", "tcp", 1)), 0),
        ControlAction::Register(np) if np.tunnel_name == "t"
    ));
    let gone = ClientMessage::CloseTunnel { tunnel_name: "none".to_string() };
    assert!(matches!(c.on_message(&mut sh, gone, 0), ControlAction::Ignored));
    c.signal_close();
    assert!(!c.is_accepting_data() && !c.wants_data_conn(0));
}

#[test]
fn silence_is_bounded_by_the_settings() {
    let mut cfg = ServerConfig::from_defaults();
    cfg.transport.heartbeat_timeout = 7;
    assert_eq!(effective_ping_timeout(&cfg.transport), 7);
    cfg.transport.heartbeat_timeout = -1;
    cfg.transport.tcp_mux = true;
    cfg.transport.mux_keepalive_secs = 30;
    assert_eq!(effective_ping_timeout(&cfg.transport), 90);
    cfg.transport.tcp_mux = false;
    assert_eq!(effective_ping_timeout(&cfg.transport), -1);
}

fn login(session: &str) -> Login {
    Login {
        version: "1".to_string(),
        hostname: "h".to_string(),
        os: "o".to_string(),
        arch: "x".to_string(),
        user: "u".to_string(),
        agent_id: "a".to_string(),
        auth_digest: String::new(),
        timestamp: 0,
        session_id: session.to_string(),
        pool_count: 3,
    }
}

fn names(session: &str) -> CleanedNames {
    CleanedNames {
        user: Ok("u".to_string()),
        agent_id: Ok("a".to_string()),
        session_id: Ok(session.to_string()),
    }
}

#[test]
fn clients_are_let_in() {
    let mut t = SessionTable::new();
    let one = t
        .register_control(login("s1"), true, names("s1"), 10, "ip".to_string(), 50)
        .ok()
        .unwrap();
    assert_eq!(one.control.session_id(), "s1");
    assert_eq!(one.control.generation(), 1);
    assert!(one.replaced.is_none());
    assert!(one.control.wants_data_conn(2) && !one.control.wants_data_conn(3));
    assert_eq!(one.control.identity().client_ip, "ip");
    let two = t
        .register_control(login("s1"), true, names("s1"), 10, "ip".to_string(), 51)
        .ok()
        .unwrap();
    assert_eq!(two.replaced, Some(1));
    assert_eq!(t.current("s1"), Some(2));
    let release = t.session_over(&one.control);
    assert_eq!((release.generation, release.tunnel_count), (1, 0));
    assert_eq!(t.current("s1"), Some(2));
    assert!(t.still_online("s1", 1).is_err());
    assert!(t.still_online("s1", 2).is_ok());
    assert_eq!(t.find_client("s1").ok().unwrap(), 2);
    t.session_over(&two.control);
    let e = t.find_client("s1").err().unwrap();
    assert_eq!(e.message(), "client not online: s1");
}

#[test]
fn clients_are_turned_away() {
    let mut t = SessionTable::new();
    let e = t
        .register_control(login(""), false, names(""), 10, String::new(), 0)
        .err()
        .unwrap();
    assert!(matches!(e, LoginRefusal::Unauthorized));
    assert_eq!(e.message(), "authorization failed");
    let bad = CleanedNames {
        user: Ok("u".to_string()),
        agent_id: Err("bad agent".to_string()),
        session_id: Err("bad session".to_string()),
    };
    let e = t
        .register_control(login("s"), true, bad, 10, String::new(), 0)
        .err()
        .unwrap();
    assert_eq!(e.message(), "bad agent");
    let one = t
        .register_control(login("s"), true, names("s"), 10, String::new(), 0)
        .ok()
        .unwrap();
    assert!(t.agent_online(&one.control, false).is_ok());
    assert_eq!(
        t.agent_online(&one.control, true).unwrap_err(),
        "agent_id [a] for user [u] is already online"
    );
    assert_eq!(t.current("s"), None);
}

#[test]
fn greetings_activate_sessions() {
    let mut t = SessionTable::new();
    let mut one = t
        .register_control(login("s"), true, names("s"), 10, String::new(), 0)
        .ok()
        .unwrap();
    assert!(t.login_sent(&mut one.control, true).is_none());
    assert!(one.control.is_accepting_data());
    let gone = t.login_sent(&mut one.control, false).unwrap();
    assert_eq!((gone.session_id.as_str(), gone.tunnel_count), ("s", 0));
    assert_eq!(t.current("s"), None);
}

#[test]
fn new_sessions_are_named_by_chance() {
    assert_eq!(session_id_of("0123456789ab4def89abcdef01234567"), "0123456789ab4def");
    let id = short_session_id();
    assert_eq!(id.len(), 16);
    assert!(id.chars().all(|c| c.is_ascii_digit() || ('a'..='f').contains(&c)));
    assert_eq!(id.as_bytes()[12], b'4');
    assert!(id != short_session_id());
    assert_eq!(choose_session_id("x", Ok("clean".to_string())).unwrap(), "clean");
    assert_eq!(choose_session_id("x", Ok(String::new())).unwrap().len(), 16);
    assert_eq!(choose_session_id("  ", Err("no".to_string())).unwrap().len(), 16);
    assert_eq!(choose_session_id("x", Err("no".to_string())).unwrap_err(), "no");
}

#[test]
fn pools_are_bounded() {
    assert_eq!(pool_count(5, 3), 3);
    assert_eq!(pool_count(2, 3), 2);
    assert_eq!(pool_count(-1, 3), 0);
    assert_eq!(pool_count(5, -3), 0);
    assert_eq!(pool_count(i32::MAX, i64::MAX), i32::MAX as usize);
}

#[test]
fn data_connections_are_checked() {
    let nw = |id: &str| NewDataConn {
        session_id: id.to_string(),
        auth_digest: String::new(),
        timestamp: 0,
    };
    assert!(register_data_conn(&nw("s"), true, true).is_ok());
    let e = register_data_conn(&nw(" "), true, true).err().unwrap();
    assert!(matches!(e, DataConnRefusal::NoSession));
    assert_eq!(e.message(), "empty session_id for data conn");
    let e = register_data_conn(&nw("s"), false, true).err().unwrap();
    assert_eq!(e.message(), "data conn auth failed for session_id=s");
    let e = register_data_conn(&nw("s"), true, false).err().unwrap();
    assert_eq!(e.message(), "no accepting control for data conn session_id=s");
}

#[test]
fn listeners_are_planned() {
    let mut cfg = ServerConfig::from_defaults();
    cfg.quic_port = 9000;
    cfg.http_gw_port = 80;
    let p = listener_plan(&cfg).ok().unwrap();
    assert_eq!(p.tcp, cfg.listen);
    assert_eq!(p.quic.unwrap(), "0.0.0.0:9000");
    assert!(p.kcp.is_none() && !p.dashboard);
    assert!(p.gateways == Gateways { http: Some(80), https: None });
    assert!(gateways(&cfg) == p.gateways);
    cfg.listen = "[::1".to_string();
    assert!(listener_plan(&cfg).is_err());
}

#[test]
fn servers_end_with_their_first_listener() {
    assert!(server_result(Some(ListenerEnd::Ended(Ok(())))).is_ok());
    assert!(server_result(Some(ListenerEnd::Cancelled)).is_ok());
    assert_eq!(
        server_result(Some(ListenerEnd::Ended(Err("x".to_string())))).unwrap_err(),
        "x"
    );
    assert_eq!(
        server_result(Some(ListenerEnd::Broken("p".to_string()))).unwrap_err(),
        "listener task join: p"
    );
    assert_eq!(server_result(None).unwrap_err(), "no listener tasks");
}

fn at(hours: i64) -> Moment {
    Moment { secs: 1_700_000_000 + 3600 * hours, nanos: 0 }
}

#[test]
fn counts_move_with_the_hours() {
    let mut c = HourCounter::new_at(3, at(0));
    c.inc_at(5, at(0));
    c.inc_at(2, at(0));
    assert_eq!(c.last_hours_at(9, at(0)), vec![7, 0, 0]);
    c.inc_at(1, at(1));
    assert_eq!(c.last_hours_at(2, at(1)), vec![1, 7]);
    let later = Moment { secs: at(1).secs + 3599, nanos: 999_999_999 };
    assert_eq!(c.last_hours_at(3, later), vec![1, 7, 0]);
    assert_eq!(c.last_hours_at(3, at(3)), vec![0, 0, 1]);
    assert_eq!(c.last_hours_at(3, at(0)), vec![0, 0, 1]);
    assert_eq!(c.last_hours_at(3, at(100)), vec![0, 0, 0]);
}

#[test]
fn counts_are_held_within_bounds() {
    let mut c = HourCounter::new_at(0, at(0));
    c.inc_at(i64::MAX, at(0));
    c.inc_at(1, at(0));
    assert_eq!(c.last_hours_at(1, at(0)), vec![i64::MAX]);
    let mut now = HourCounter::new(2);
    now.inc(4);
    let seen = now.last_hours(2);
    assert_eq!(seen.len(), 2);
    assert_eq!(seen.iter().sum::<i64>(), 4);
}

#[test]
fn present_hour_has_begun() {
    let now = std::time::SystemTime::now()
        .duration_since(std::time::UNIX_EPOCH)
        .unwrap()
        .as_secs() as i64;
    let early = LocalMoment { at: Moment { secs: 7200, nanos: 0 }, offset: 3600 };
    let late = LocalMoment { at: Moment { secs: 7300, nanos: 5 }, offset: 3600 };
    assert_eq!(start_or(late, Some(early)), early);
    assert_eq!(start_or(late, None), late);
    let hour = truncate_hour(late);
    assert!(hour == late || (hour.at.secs + hour.offset as i64, hour.at.nanos) == (10_800, 0));
    let hour = current_hour();
    assert!(hour.secs <= now + 1 && hour.secs > now - 3700);
    assert_eq!(hour.nanos, 0);
    assert_eq!(hour.secs % 900, 0);
}
