use base64::Engine;
use orbien::config::server::ServerConfig;
use orbien::dashboard::assets::{content_type, is_safe_asset_path, static_file};
use orbien::dashboard::auth::{authorized, credentials_match};
use orbien::dashboard::clock::{format_time_at, format_tunnel_time, FIRST_SECOND, LAST_SECOND};
use orbien::dashboard::pages::{get_client, list_clients, list_tunnels, page_of};
use orbien::dashboard::snapshot::{
    client_counts, dashboard_snapshot, AgentRecord, OnlineClient, ServerTraffic, TunnelState,
    TunnelTraffic,
};
use orbien::dashboard::system::{system_info, traffic_resp, TrafficPoint, TunnelTrafficHistory};
use orbien::dashboard::url::{from_hex, percent_decode, urlencoding_decode};
use orbien::order::comes_before;
use orbien::text::{decimal_int_str, decimal_str, lower_str, trim_str};

fn header(user: &str, password: &str) -> String {
    let raw = format!("{user}:{password}");
    format!("Basic {}", base64::engine::general_purpose::STANDARD.encode(raw))
}

#[test]
fn credentials_open_the_dashboard() {
    let h = header("admin", "se:cret");
    assert!(authorized(Some(&h), "admin", "se:cret"));
    assert!(authorized(Some(&h.replace("Basic ", "basic  ")), "admin", "se:cret"));
    assert!(!authorized(Some(&h), "admin", "secret"));
    assert!(!authorized(Some(&h), "root", "se:cret"));
    assert!(!authorized(Some(&h.replace("Basic ", "BASIC ")), "admin", "se:cret"));
    assert!(!authorized(None, "admin", "se:cret"));
    assert!(!authorized(Some("Basic !!!"), "admin", "se:cret"));
    assert!(!authorized(Some("Bearer x"), "admin", "se:cret"));
}

#[test]
fn credentials_are_split_at_the_first_colon() {
    assert!(credentials_match(Some(b"a:b:c".to_vec()), "a", "b:c"));
    assert!(!credentials_match(Some(b"a:b:c".to_vec()), "a:b", "c"));
    assert!(!credentials_match(Some(b"abc".to_vec()), "abc", ""));
    assert!(!credentials_match(Some(vec![0xff, b':']), "", ""));
    assert!(!credentials_match(None, "", ""));
    assert!(credentials_match(Some(b":".to_vec()), "", ""));
}

#[test]
fn names_in_paths_are_decoded() {
    assert_eq!(percent_decode("a%20b+c").unwrap(), "a b c");
    assert_eq!(percent_decode("%C3%a9").unwrap(), "\u{e9}");
    assert_eq!(percent_decode("%4").unwrap(), "%4");
    assert_eq!(percent_decode("%41").unwrap(), "A");
    assert!(percent_decode("%zz").is_none());
    assert!(percent_decode("%ff").is_none());
    assert_eq!(urlencoding_decode("%zz"), "%zz");
    assert_eq!(urlencoding_decode("plain-name_1"), "plain-name_1");
    assert_eq!(urlencoding_decode("\u{fc}ber"), "\u{fc}ber");
    assert_eq!((from_hex(b'f'), from_hex(b'A'), from_hex(b'g')), (Some(15), Some(10), None));
}

#[test]
fn every_byte_can_be_written_in_a_path() {
    for b in 0u8..128 {
        let text = String::from_utf8(vec![b]).unwrap();
        assert_eq!(percent_decode(&format!("%{b:02X}")).unwrap(), text);
        assert_eq!(percent_decode(&format!("%{b:02x}")).unwrap(), text);
    }
}

#[test]
fn files_are_looked_up_safely() {
    assert_eq!(static_file("//app/x.js").unwrap(), "app/x.js");
    assert!(static_file("/").is_none());
    assert!(static_file("/a/../b").is_none());
    assert!(is_safe_asset_path("a.b") && !is_safe_asset_path("a..b"));
    assert_eq!(content_type("a.mjs"), "application/javascript; charset=utf-8");
    assert_eq!(content_type("a.css"), "text/css; charset=utf-8");
    assert_eq!(content_type("a.html"), "text/html; charset=utf-8");
    assert_eq!(content_type("a.svg"), "image/svg+xml");
    assert_eq!(content_type("a.png"), "image/png");
    assert_eq!(content_type("a.ico"), "image/x-icon");
    assert_eq!(content_type("a.woff2"), "font/woff2");
    assert_eq!(content_type("a.js.map"), "application/json");
    assert_eq!(content_type("js"), "application/octet-stream");
}

#[test]
fn lists_are_cut_into_pages() {
    let all: Vec<u32> = (0..7).collect();
    let p = page_of(all.clone(), 0, 3);
    assert_eq!((p.total, p.page, p.page_size, p.items), (7, 1, 3, vec![0, 1, 2]));
    assert_eq!(page_of(all.clone(), 3, 3).items, vec![6]);
    assert!(page_of(all.clone(), 4, 3).items.is_empty());
    assert_eq!(page_of(all.clone(), 1, 0).page_size, 1);
    assert_eq!(page_of(all.clone(), 1, 1000).page_size, 200);
    assert!(page_of(all.clone(), usize::MAX, 200).items.is_empty());
    let mut together = Vec::new();
    for page in 1..=4 {
        together.extend(page_of(all.clone(), page, 2).items);
    }
    assert_eq!(together, all);
}

fn state(name: &str, kind: &str, conns: usize) -> TunnelState {
    TunnelState {
        name: name.to_string(),
        tunnel_type: kind.to_string(),
        remote_addr: ":1".to_string(),
        local_addr: "l".to_string(),
        status: "online".to_string(),
        traffic: Some(TunnelTraffic {
            today_traffic_in: 10,
            today_traffic_out: 20,
            active_connections: conns,
            last_start_at: Some(0),
        }),
    }
}

fn online(id: &str, display: &str, tunnels: Vec<TunnelState>) -> OnlineClient {
    OnlineClient {
        session_id: id.to_string(),
        agent_id: format!("agent-{id}"),
        display_id: display.to_string(),
        user: String::new(),
        hostname: String::new(),
        os: String::new(),
        arch: String::new(),
        client_ip: String::new(),
        version: String::new(),
        connected_secs: 5,
        tunnel_count: tunnels.len(),
        tunnels,
    }
}

fn record(id: &str, online: bool) -> AgentRecord {
    AgentRecord {
        online,
        session_id: id.to_string(),
        agent_id: format!("agent-{id}"),
        display_id: id.to_string(),
        user: String::new(),
        hostname: String::new(),
        os: String::new(),
        arch: String::new(),
        client_ip: String::new(),
        version: String::new(),
        tunnel_count: 2,
        gone_secs: Some(60),
    }
}

#[test]
fn snapshots_show_everybody_in_order() {
    let mut silent = state("m", "tcp", 9);
    silent.traffic = None;
    let clients = vec![
        online("s2", "beta", vec![state("z", "tcp", 1), state("a", "http", 2)]),
        online("s1", "beta", vec![silent]),
        online("s3", "alpha", Vec::new()),
    ];
    let agents = vec![record("gone", false), record("s2", false), record("busy", true)];
    let stats = ServerTraffic { active_connections: 3, total_traffic_in: 7, total_traffic_out: 8 };
    let snap = dashboard_snapshot(&clients, &agents, stats);
    let ids: Vec<&str> = snap.clients.iter().map(|c| c.session_id.as_str()).collect();
    assert_eq!(ids, vec!["s3", "s1", "s2", "gone"]);
    assert_eq!(snap.clients[2].active_connections, 3);
    assert_eq!(snap.clients[3].status, "offline");
    assert_eq!(snap.clients[3].connected_secs, 60);
    let tunnels: Vec<&str> = snap.tunnels.iter().map(|t| t.name.as_str()).collect();
    assert_eq!(tunnels, vec!["a", "m", "z"]);
    assert_eq!(snap.tunnels[1].active_connections, 0);
    assert!(snap.tunnels[1].last_start_time.is_none());
    assert_eq!(snap.tunnels[0].last_start_time.as_ref().unwrap().len(), 14);
    assert_eq!(
        snap.tunnel_type_count,
        vec![("http".to_string(), 1), ("tcp".to_string(), 2)]
    );
    assert_eq!(snap.total_client_counts, 4);
    assert_eq!(client_counts(&snap.clients), 3);
    assert_eq!(get_client(&snap.clients, "agent-s1"), Some(1));
    assert_eq!(get_client(&snap.clients, "nobody"), None);
    let cfg = ServerConfig::from_defaults();
    let info = system_info("1.0", &cfg, snap);
    assert_eq!(info.version, "1.0");
    assert_eq!((info.status.client_counts, info.status.total_client_counts), (3, 4));
    assert_eq!(info.status.total_traffic_out, 8);
    assert_eq!(info.config.listen, cfg.listen);
}

#[test]
fn tunnels_are_searched() {
    let clients = vec![
        online("s1", "a", vec![state("Web-One", "http", 0), state("ssh", "tcp", 0)]),
        online("s2", "b", vec![state("web-two", "http", 0)]),
    ];
    let stats = ServerTraffic { active_connections: 0, total_traffic_in: 0, total_traffic_out: 0 };
    let all = || dashboard_snapshot(&clients, &Vec::new(), stats);
    let found = list_tunnels(all().tunnels, "", " WEB ", 1, 50);
    assert_eq!(found.total, 2);
    let found = list_tunnels(all().tunnels, " s1 ", "", 1, 50);
    let names: Vec<&str> = found.items.iter().map(|t| t.name.as_str()).collect();
    assert_eq!(names, vec!["Web-One", "ssh"]);
    assert_eq!(list_tunnels(all().tunnels, "s2", "one", 1, 50).total, 0);
    assert_eq!(list_clients(all().clients, 2, 1).items[0].session_id, "s2");
}

#[test]
fn times_of_starts_are_shown() {
    assert!(format_tunnel_time(None).is_none());
    let at = |secs: i64, offset: i32| format_time_at(Some(secs), offset);
    assert_eq!(at(1_700_000_000, 0).unwrap(), "11-14 22:13:20");
    assert_eq!(at(1_700_000_000, 7200).unwrap(), "11-15 00:13:20");
    assert_eq!(at(951_782_399, 0).unwrap(), "02-28 23:59:59");
    assert_eq!(at(951_782_400, 0).unwrap(), "02-29 00:00:00");
    assert_eq!(at(0, -1).unwrap(), "12-31 23:59:59");
    assert_eq!(at(FIRST_SECOND, 0).unwrap(), "01-01 00:00:00");
    assert_eq!(at(LAST_SECOND, 0).unwrap(), "12-31 23:59:59");
    assert_eq!(at(FIRST_SECOND, -86_399).unwrap(), "12-31 00:00:01");
    assert_eq!(at(LAST_SECOND, 86_399).unwrap(), "01-01 23:59:58");
    assert!(at(0, 86_400).is_none() && at(0, -86_400).is_none());
    assert!(at(FIRST_SECOND - 1, 0).is_none() && at(LAST_SECOND + 1, 0).is_none());
    assert!(format_time_at(None, 0).is_none());
    let t = format_tunnel_time(Some(1_700_000_000));
    assert!((-86_399..86_400).any(|offset| at(1_700_000_000, offset) == t));
    assert!(format_tunnel_time(Some(FIRST_SECOND)).is_some());
    assert!(format_tunnel_time(Some(LAST_SECOND)).is_some());
    assert!(format_tunnel_time(Some(FIRST_SECOND - 1)).is_none());
    assert!(format_tunnel_time(Some(LAST_SECOND + 1)).is_none());
}

#[test]
fn traffic_is_shown_point_by_point() {
    let hist = TunnelTrafficHistory {
        name: "n".to_string(),
        unit: "bytes".to_string(),
        granularity: "hour".to_string(),
        history: vec![TrafficPoint { date: "d".to_string(), traffic_in: 1, traffic_out: 2 }],
    };
    let r = traffic_resp(hist);
    assert_eq!((r.name.as_str(), r.unit.as_str(), r.granularity.as_str()), ("n", "bytes", "hour"));
    assert_eq!((r.history.len(), r.history[0].traffic_in, r.history[0].traffic_out), (1, 1, 2));
}

#[test]
fn texts_are_ordered_as_their_bytes_are() {
    let words = ["", "a", "ab", "b", "B", "\u{e9}", "\u{ffff}", "\u{10000}", "z"];
    for a in words {
        for b in words {
            assert_eq!(comes_before(a, b), a < b);
        }
    }
}

#[test]
fn texts_are_trimmed_and_numbers_written() {
    assert_eq!(trim_str(" \u{3000}x y\t\n"), "x y");
    assert_eq!(lower_str("AbC\u{c4}"), "abc\u{c4}");
    assert_eq!(decimal_str(u64::MAX), u64::MAX.to_string());
    assert_eq!(decimal_int_str(i64::MIN), i64::MIN.to_string());
    assert_eq!(decimal_int_str(0), "0");
}

#[test]
fn names_are_read_back_however_they_are_spelled() {
    assert_eq!(percent_decode("%e4%BD%a0+%2b%25x").unwrap(), "\u{4f60} +%x");
    assert_eq!(percent_decode("\u{e9}t%C3%A9").unwrap(), "\u{e9}t\u{e9}");
}
