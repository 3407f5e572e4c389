use orbien::client::changes::{stop_names, ChangeRun, ChangeStep, RegisterWatch};
use orbien::client::connector::build_connector;
use orbien::client::handle::{
    needs_udp_session_drain, reload_result, ClientHandle, ReloadRefusal, ReloadReply, RunError,
    StartError, StartOptions,
};
use orbien::client::register::{
    build_new_tunnel_message, normalize_remote_addr, omit_client_side, validate_tunnel,
    TunnelError,
};
use orbien::client::reload::{
    begin_reload, decide_reload, finish_reload, take_over, Planned, ReloadLevel, ReloadOutcome,
    ReloadPlan, ReloadThen, StoreWhen, TunnelChanges,
};
use orbien::client::service::{
    on_connected, session_end, session_loop_step, LoopAction, LoopEvent, PendingReload, ReaderEnd,
    RunAction, RunEvent, RunState, SessionDone, SessionEnd, SessionLoopEnd, Stage,
};
use orbien::client::session::{
    accept_data_conn, accept_login, effective_ping_interval, effective_pong_timeout,
    heartbeat_expired, hostname, login_request, Control, DataConnAnswer, DataConnError,
    LoginAnswer, LoginError, Machine, ReadOutcome, ReaderStep, ServerMessage, SessionAction,
};
use orbien::client::status::ClientStatus;
use orbien::config::client::{
    AuthConfig, ClientConfig, TransportConfig, TunnelConfig, TunnelTransportConfig,
};
use orbien::msg::{LoginResp, NewTunnelResp, StartDataConn};
use orbien::mux::{mux_step, MuxEvent, MuxStep, CONNECTION_WINDOW, MAX_NUM_STREAMS};
use orbien::names::NameMap;
use orbien::transport::Protocol;

fn settings() -> ClientConfig {
    let mut cfg = ClientConfig {
        server: "s.example:9527".to_string(),
        user: "u".to_string(),
        agent_id: "agent".to_string(),
        auth: AuthConfig::default(),
        transport: TransportConfig::default(),
        tunnels: Vec::new(),
        udp_packet_size: 1500,
    };
    cfg.complete();
    cfg
}

fn tunnel(name: &str, protocol: &str, port: u16) -> TunnelConfig {
    TunnelConfig {
        name: name.to_string(),
        protocol: protocol.to_string(),
        service: "10.0.0.2:22".to_string(),
        remote_port: port,
        domains: vec!["a.b".to_string()],
        locations: vec!["/".to_string()],
        basic_auth_user: "bu".to_string(),
        basic_auth_password: "bp".to_string(),
        host_header_rewrite: "h".to_string(),
        transport: TunnelTransportConfig::default(),
        plugin: None,
    }
}

fn outcome() -> ReloadOutcome {
    ReloadOutcome {
        level: ReloadLevel::Unchanged,
        added: vec!["x".to_string()],
        removed: Vec::new(),
        updated: vec!["y".to_string(), "z".to_string()],
        failed: Vec::new(),
    }
}

fn shown(acts: &[RunAction]) -> Vec<String> {
    acts.iter()
        .map(|a| match a {
            RunAction::DrainReloads => "drain".to_string(),
            RunAction::ClearRemotes => "clear".to_string(),
            RunAction::SetStatus(s) => format!("{s:?}"),
            RunAction::Log(l) => l.clone(),
            RunAction::Open { session_id } => format!("open {session_id}"),
            RunAction::RunSession => "run".to_string(),
            RunAction::Wait { secs } => format!("wait {secs}"),
            RunAction::Reply { ticket, result } => match result {
                Ok(o) => format!("reply {ticket} ok +{}", o.added.len()),
                Err(e) => format!("reply {ticket} {e}"),
            },
            RunAction::Stop(r) => format!("stop {r:?}"),
        })
        .collect()
}

fn fails(state: &mut RunState) -> Vec<String> {
    state.step(RunEvent::Turn { cancelled: false });
    let acts = state.step(RunEvent::OpenFailed {
        cancelled: false,
        rejected: None,
        error: "no route".to_string(),
    });
    state.step(RunEvent::Waited { cancelled: false });
    shown(&acts)
}

#[test]
fn client_connects_and_runs() {
    let mut s = RunState::new();
    assert_eq!(
        shown(&s.step(RunEvent::Turn { cancelled: false })),
        vec!["drain", "clear", "Starting", "INFO  connecting to server", "open "]
    );
    assert_eq!(shown(&on_connected()), vec!["Running", "INFO  connected to server"]);
    assert_eq!(shown(&s.step(RunEvent::Opened)), vec!["run"]);
    assert!(s.stage() == Stage::InSession);
    let acts = s.step(RunEvent::SessionOver {
        end: SessionLoopEnd::Ended(SessionEnd::Disconnected { session_id: "id1".to_string() }),
        cancelled: false,
    });
    assert_eq!(
        shown(&acts),
        vec![
            "clear",
            "WARN  disconnected from server",
            "Reconnecting",
            "drain",
            "INFO  retrying in 1s",
            "wait 1"
        ]
    );
    s.step(RunEvent::Waited { cancelled: false });
    assert_eq!(
        shown(&s.step(RunEvent::Turn { cancelled: false })),
        vec!["drain", "clear", "Reconnecting", "open id1"]
    );
}

#[test]
fn pauses_grow_to_a_minute() {
    let mut s = RunState::new();
    let mut waits = Vec::new();
    for _ in 0..9 {
        let acts = fails(&mut s);
        assert_eq!(acts[0], "ERROR failed to connect: no route");
        waits.push(acts.last().unwrap().clone());
    }
    assert_eq!(
        waits,
        vec![
            "wait 1", "wait 2", "wait 4", "wait 8", "wait 16", "wait 32", "wait 60", "wait 60",
            "wait 60"
        ]
    );
    s.step(RunEvent::Turn { cancelled: false });
    s.step(RunEvent::Opened);
    let acts = s.step(RunEvent::SessionOver {
        end: SessionLoopEnd::Failed("boom".to_string()),
        cancelled: false,
    });
    assert_eq!(shown(&acts)[1], "ERROR session error: boom");
    assert_eq!(shown(&acts).last().unwrap(), "wait 1");
}

#[test]
fn rejected_and_kicked_clients_stop() {
    let mut s = RunState::new();
    s.step(RunEvent::Turn { cancelled: false });
    let acts = s.step(RunEvent::OpenFailed {
        cancelled: false,
        rejected: Some("bad token".to_string()),
        error: String::new(),
    });
    assert_eq!(
        shown(&acts),
        vec!["ERROR login rejected: bad token", "stop Err(\"login rejected: bad token\")"]
    );
    assert!(s.step(RunEvent::Turn { cancelled: false }).is_empty());
    let mut s = RunState::new();
    s.step(RunEvent::Turn { cancelled: false });
    s.step(RunEvent::Opened);
    let acts = s.step(RunEvent::SessionOver {
        end: SessionLoopEnd::Ended(SessionEnd::Kicked {
            session_id: "i".to_string(),
            reason: "bye".to_string(),
        }),
        cancelled: false,
    });
    assert_eq!(
        shown(&acts),
        vec!["clear", "WARN  kicked by server: bye", "stop Err(\"kicked by server: bye\")"]
    );
}

#[test]
fn waiting_reload_is_answered_once() {
    let into_pending = || {
        let mut s = RunState::new();
        s.step(RunEvent::Turn { cancelled: false });
        s.step(RunEvent::Opened);
        let acts = s.step(RunEvent::SessionOver {
            end: SessionLoopEnd::ReloadReconnect(PendingReload { ticket: 7, outcome: outcome() }),
            cancelled: false,
        });
        assert_eq!(
            shown(&acts),
            vec!["clear", "INFO  reconnecting to apply client settings", "Reconnecting"]
        );
        assert_eq!(
            shown(&s.step(RunEvent::Turn { cancelled: false })),
            vec!["drain", "clear", "open "]
        );
        s
    };
    let mut s = into_pending();
    assert_eq!(shown(&s.step(RunEvent::Opened)), vec!["reply 7 ok +1", "run"]);
    let mut s = into_pending();
    assert_eq!(
        shown(&s.step(RunEvent::ConnectCancelled)),
        vec!["reply 7 client stopped during reconnect", "stop Ok(())"]
    );
    let mut s = into_pending();
    assert!(s.step(RunEvent::ReloadServed).is_empty());
    assert_eq!(
        shown(&s.step(RunEvent::Turn { cancelled: true })),
        vec!["reply 7 client stopped during reconnect", "stop Ok(())"]
    );
}

#[test]
fn session_loop_leaves_in_good_order() {
    let step = session_loop_step(LoopEvent::Cancelled, "id");
    assert_eq!(
        step.actions,
        vec![LoopAction::CloseTunnels, LoopAction::Disconnect, LoopAction::AwaitDone]
    );
    assert!(matches!(step.end, Some(SessionLoopEnd::Cancelled)));
    let step = session_loop_step(LoopEvent::ReloadsClosed, "id");
    assert_eq!(step.actions, vec![LoopAction::Disconnect, LoopAction::AwaitDone]);
    assert!(step.end.is_none());
    assert!(session_loop_step(LoopEvent::ReloadAnswered, "id").end.is_none());
    let step = session_loop_step(LoopEvent::Done(SessionDone::Dropped), "id");
    assert!(matches!(
        step.end,
        Some(SessionLoopEnd::Ended(SessionEnd::Disconnected { session_id })) if session_id == "id"
    ));
    let done = session_end(Ok(ReaderEnd::Kicked("r".to_string())), "id".to_string());
    assert!(matches!(done, SessionDone::Ended(SessionEnd::Kicked { reason, .. }) if reason == "r"));
    assert!(matches!(
        session_end(Err("e".to_string()), "id".to_string()),
        SessionDone::Failed(e) if e == "e"
    ));
    assert!(matches!(
        session_end(Ok(ReaderEnd::Closed), "id".to_string()),
        SessionDone::Ended(SessionEnd::Disconnected { .. })
    ));
}

fn changes() -> TunnelChanges {
    TunnelChanges {
        added: vec![tunnel("new", "tcp", 1)],
        updated: vec![tunnel("b", "tcp", 2), tunnel("c", "tcp", 3)],
        removed: vec!["z".to_string(), "a".to_string()],
    }
}

#[test]
fn reloads_are_decided_by_plan() {
    let planned = |plan: ReloadPlan, level: ReloadLevel| {
        Ok(Planned { plan, outcome: outcome(), level })
    };
    let apply = |changes: TunnelChanges, connection_settings_changed: bool| ReloadPlan::Apply {
        changes,
        connection_settings_changed,
    };
    let none = TunnelChanges { added: Vec::new(), updated: Vec::new(), removed: Vec::new() };
    let d = decide_reload(planned(ReloadPlan::Noop, ReloadLevel::Unchanged), true);
    assert!(d.logs.is_empty() && matches!(d.next, ReloadThen::Reply(_)));
    assert_eq!(d.store, StoreWhen::Never);
    let d = decide_reload(planned(apply(changes(), true), ReloadLevel::Reconnect), true);
    assert_eq!(
        d.logs,
        vec![
            "INFO  reload pending: +1 -0 ~2",
            "INFO  client settings changed; reconnecting"
        ]
    );
    assert!(matches!(d.next, ReloadThen::Reconnect(_)));
    assert_eq!(d.store, StoreWhen::AtOnce);
    let d = decide_reload(planned(apply(none, true), ReloadLevel::Reconnect), false);
    assert_eq!(d.logs, vec!["INFO  client settings updated"]);
    assert_eq!(d.store, StoreWhen::AtOnce);
    let d = decide_reload(planned(apply(changes(), false), ReloadLevel::TunnelsOnly), true);
    assert!(d.logs.is_empty() && matches!(d.next, ReloadThen::ChangeTunnels(c) if c.added.len() == 1));
    assert_eq!(d.store, StoreWhen::AfterChanges);
    let d = decide_reload(planned(apply(changes(), false), ReloadLevel::TunnelsOnly), false);
    assert_eq!(d.logs, vec!["INFO  reload queued: +1 -0 ~2"]);
    assert!(matches!(d.next, ReloadThen::Reply(o) if o.level == ReloadLevel::TunnelsOnly));
    assert_eq!(d.store, StoreWhen::AtOnce);
}

#[test]
fn reloads_replace_valid_settings() {
    let same = |p: &String| p.clone();
    let mut wrong = settings();
    wrong.transport.protocol = "carrier pigeon".to_string();
    let e = begin_reload(&mut wrong, &same).unwrap_err();
    let text = e.message("");
    let d = decide_reload(Err(e), true);
    assert!(d.logs.is_empty() && matches!(d.next, ReloadThen::Refuse(e) if e.message("") == text));
    assert_eq!(d.store, StoreWhen::Never);

    let mut new_cfg = settings();
    new_cfg.user = "other".to_string();
    assert!(begin_reload(&mut new_cfg, &same).is_ok());
    let mut cfg = settings();
    take_over(&mut cfg, new_cfg.clone(), StoreWhen::Never);
    take_over(&mut cfg, new_cfg.clone(), StoreWhen::AfterChanges);
    assert_eq!(cfg.user, settings().user);
    take_over(&mut cfg, new_cfg.clone(), StoreWhen::AtOnce);
    assert_eq!(cfg.user, "other");

    let mut cfg = settings();
    let (o, line) = finish_reload(&mut cfg, new_cfg, outcome(), ReloadLevel::TunnelsOnly);
    assert_eq!(cfg.user, "other");
    assert!(o.level == ReloadLevel::TunnelsOnly);
    assert_eq!(line, "INFO  reload applied: +1 -0 ~2");
}

#[test]
fn tunnels_are_changed_step_by_step() {
    assert_eq!(stop_names(&changes()), vec!["a", "b", "c", "z"]);
    let mut run = ChangeRun::new(changes());
    let mut seen = Vec::new();
    loop {
        match run.step() {
            ChangeStep::Close(name) => {
                let failed = name == "b";
                seen.push(format!("close {name}"));
                run.report(if failed { Err("stuck".to_string()) } else { Ok(()) });
            }
            ChangeStep::Start(i) => {
                seen.push(format!("start {}", run.tunnel(i).name));
                run.report(Ok(()));
            }
            ChangeStep::Collect => break,
            ChangeStep::Finished => panic!("tunnels were started"),
        }
    }
    assert_eq!(
        seen,
        vec!["close a", "close b", "close c", "close z", "start c", "start new"]
    );
    assert_eq!(*run.watched(), vec!["c", "new"]);
    let o = run.finish(vec![("new".to_string(), "port in use".to_string())]);
    assert!(o.level == ReloadLevel::TunnelsOnly);
    assert_eq!(o.removed, vec!["a", "z"]);
    assert_eq!(o.updated, vec!["c"]);
    assert!(o.added.is_empty());
    assert_eq!(
        o.failed,
        vec![
            ("b".to_string(), "stuck".to_string()),
            ("new".to_string(), "port in use".to_string())
        ]
    );
}

#[test]
fn nothing_to_change_finishes_at_once() {
    let mut run = ChangeRun::new(TunnelChanges {
        added: Vec::new(),
        updated: Vec::new(),
        removed: vec!["a".to_string()],
    });
    assert!(matches!(run.step(), ChangeStep::Close(_)));
    run.report(Ok(()));
    assert!(matches!(run.step(), ChangeStep::Finished));
}

#[test]
fn starts_of_tunnels_are_watched() {
    let names = vec!["a".to_string(), "b".to_string(), "c".to_string()];
    let mut w = RegisterWatch::new();
    w.begin("a");
    w.begin("b");
    w.finish("b", Some("refused".to_string()));
    assert!(w.collect_register_errors(&names, false).is_none());
    assert_eq!(
        w.collect_register_errors(&names, true).unwrap(),
        vec![
            ("a".to_string(), "tunnel start timed out".to_string()),
            ("b".to_string(), "refused".to_string())
        ]
    );
    w.finish("a", None);
    assert_eq!(
        w.collect_register_errors(&names, false).unwrap(),
        vec![("b".to_string(), "refused".to_string())]
    );
    w.begin("b");
    w.finish("b", None);
    assert!(w.collect_register_errors(&names, false).unwrap().is_empty());
}

#[test]
fn requests_for_tunnels() {
    let m = build_new_tunnel_message(&tunnel("t", "tcp", 6000)).unwrap();
    assert_eq!((m.remote_port, m.local_port), (6000, 22));
    assert_eq!(m.local_ip, "10.0.0.2");
    assert!(m.domains.is_empty() && m.basic_auth_user.is_empty());
    let m = build_new_tunnel_message(&tunnel("t", "http", 6000)).unwrap();
    assert_eq!(m.remote_port, 0);
    assert_eq!(m.domains, vec!["a.b"]);
    assert_eq!(m.basic_auth_password, "bp");
    assert_eq!(m.host_header_rewrite, "h");
    let m = build_new_tunnel_message(&tunnel("t", "https", 6000)).unwrap();
    assert_eq!(m.domains, vec!["a.b"]);
    assert!(m.locations.is_empty() && m.host_header_rewrite.is_empty());
    let e = build_new_tunnel_message(&tunnel("t", "x", 1)).err().unwrap();
    assert_eq!(e.message(), "tunnel `t` unsupported protocol x");
}

#[test]
fn tunnels_are_checked_before_they_are_asked_for() {
    assert!(validate_tunnel(&tunnel("t", "udp", 1)).is_ok());
    let e = validate_tunnel(&tunnel("t", "udp", 0)).unwrap_err();
    assert_eq!(e.message(), "tunnel `t` type udp requires remotePort > 0");
    let mut t = tunnel("t", "tcp", 1);
    t.service = String::new();
    let e = validate_tunnel(&t).unwrap_err();
    assert_eq!(e.message(), "tunnel `t` requires service = \"host:port\" (local backend)");
    t.service = "[x".to_string();
    assert!(matches!(validate_tunnel(&t), Err(TunnelError::Service(_))));
    assert!(matches!(
        validate_tunnel(&tunnel("t", "quic", 1)),
        Err(TunnelError::Protocol { .. })
    ));
}

#[test]
fn sides_and_addresses_are_shown() {
    assert_eq!(omit_client_side(" Client "), "");
    assert_eq!(omit_client_side("SERVER"), "server");
    assert_eq!(normalize_remote_addr("host:9527", ":6000"), "host:6000");
    assert_eq!(normalize_remote_addr("host", " :6000 "), "host:6000");
    assert_eq!(normalize_remote_addr("", ":6000"), ":6000");
    assert_eq!(normalize_remote_addr("host:1", ":"), ":");
    assert_eq!(normalize_remote_addr("host:1", "d.e:80"), "d.e:80");
    assert_eq!(normalize_remote_addr("host:1", "  "), "");
    let once = normalize_remote_addr("[::1]:9527", ":6000");
    assert_eq!(once, "[::1]:6000");
    assert_eq!(normalize_remote_addr("[::1]:9527", &once), once);
}

#[test]
fn logins_are_written_and_answered() {
    let cfg = settings();
    let machine = Machine {
        version: "1".to_string(),
        hostname: "h".to_string(),
        os: "linux".to_string(),
        arch: "x".to_string(),
    };
    let login = login_request(&cfg, machine, "digest".to_string(), 99, "old".to_string());
    assert_eq!((login.user.as_str(), login.agent_id.as_str()), ("u", "agent"));
    assert_eq!((login.timestamp, login.pool_count), (99, cfg.transport.pool_count));
    assert_eq!(login.session_id, "old");
    let resp = |error: &str| {
        LoginAnswer::Resp(LoginResp {
            version: String::new(),
            session_id: "sid".to_string(),
            error: error.to_string(),
        })
    };
    assert_eq!(accept_login(resp("")).ok().unwrap(), "sid");
    let e = accept_login(resp("no")).err().unwrap();
    assert_eq!(e.message(), "login rejected: no");
    let e = accept_login(LoginAnswer::Other { type_byte: 52 }).err().unwrap();
    assert!(matches!(e, LoginError::Unexpected { type_byte: 52 }));
    assert_eq!(e.message(), "expected LoginResp, got type 52");
}

#[test]
fn machine_names_are_found() {
    let vars = |v: &[Option<&str>]| -> Vec<Option<String>> {
        v.iter().map(|s| s.map(|s| s.to_string())).collect()
    };
    assert_eq!(hostname(Some(" box ".to_string()), &vars(&[])), "box");
    assert_eq!(hostname(Some(" ".to_string()), &vars(&[None, Some(" pc ")])), "pc");
    assert_eq!(hostname(None, &vars(&[Some(" "), Some("pc")])), "unknown");
    assert_eq!(hostname(None, &vars(&[None, None, None])), "unknown");
}

#[test]
fn heartbeats_follow_the_settings() {
    let mut t = TransportConfig::default();
    assert_eq!(effective_ping_interval(Some(&t)), 30);
    assert_eq!(effective_pong_timeout(Some(&t)), 90);
    assert_eq!(effective_ping_interval(None), 30);
    t.heartbeat_interval = 10;
    t.heartbeat_timeout = 20;
    assert_eq!(effective_ping_interval(Some(&t)), 10);
    assert_eq!(effective_pong_timeout(Some(&t)), 20);
    t.heartbeat_timeout = 0;
    assert_eq!(effective_pong_timeout(Some(&t)), -1);
    t.heartbeat_interval = 0;
    t.mux_keepalive_secs = i64::MAX;
    assert_eq!(effective_pong_timeout(Some(&t)), i64::MAX);
    t.tcp_mux = false;
    assert_eq!(effective_ping_interval(Some(&t)), -1);
    assert!(heartbeat_expired(100, 191, 90));
    assert!(!heartbeat_expired(100, 190, 90));
    assert!(!heartbeat_expired(0, 1000, 1));
    assert!(!heartbeat_expired(i64::MAX, i64::MIN, 1));
}

#[test]
fn session_messages_are_taken_in() {
    let mut c = Control::new("sid".to_string(), 5);
    assert!(c.register_tunnel(&tunnel("t", "tcp", 6000), true).is_ok());
    assert!(c.register_tunnel(&tunnel("v", "tcp", 0), true).is_err());
    assert_eq!(c.tunnel_names(), vec!["t"]);
    let started = NewTunnelResp {
        tunnel_name: "t".to_string(),
        remote_addr: ":6000".to_string(),
        error: String::new(),
    };
    match c.on_message(ServerMessage::NewTunnelResp(started), "h:1", 6) {
        SessionAction::TunnelStarted { name, remote } => {
            assert_eq!((name.as_str(), remote.as_str()), ("t", "h:6000"));
        }
        _ => panic!("the tunnel has started"),
    }
    let names = vec!["t".to_string()];
    assert!(c.register_watch().collect_register_errors(&names, false).unwrap().is_empty());
    let refused = NewTunnelResp {
        tunnel_name: "t".to_string(),
        remote_addr: String::new(),
        error: "taken".to_string(),
    };
    assert!(matches!(
        c.on_message(ServerMessage::NewTunnelResp(refused), "h:1", 7),
        SessionAction::Noted
    ));
    assert_eq!(
        c.register_watch().collect_register_errors(&names, false).unwrap(),
        vec![("t".to_string(), "taken".to_string())]
    );
    assert!(c.is_silent(100, 50));
    assert!(matches!(c.on_message(ServerMessage::Pong, "", 90), SessionAction::Noted));
    assert!(!c.is_silent(100, 50));
    assert!(matches!(
        c.on_message(ServerMessage::ReqDataConn, "", 0),
        SessionAction::OpenDataConn
    ));
    assert!(matches!(
        c.on_message(ServerMessage::Other { type_byte: 1 }, "", 0),
        SessionAction::Ignored
    ));
    assert!(matches!(
        c.on_message(ServerMessage::KickOut { reason: "out".to_string() }, "", 0),
        SessionAction::Leave { reason } if reason == "out"
    ));
    let offer = c.new_data_conn("d".to_string(), 3);
    assert_eq!((offer.session_id.as_str(), offer.timestamp), ("sid", 3));
    c.tunnel_closed("t");
    assert!(c.tunnel_names().is_empty());
}

#[test]
fn data_connections_are_answered() {
    let start = |error: &str| {
        DataConnAnswer::Start(StartDataConn {
            tunnel_name: "t".to_string(),
            error: error.to_string(),
        })
    };
    assert_eq!(accept_data_conn(start("")).ok().unwrap().tunnel_name, "t");
    let e = accept_data_conn(start("bad")).err().unwrap();
    assert_eq!(e.message(), "StartDataConn error: bad");
    let e = accept_data_conn(DataConnAnswer::Other { type_byte: 9 }).err().unwrap();
    assert!(matches!(e, DataConnError::Unexpected { type_byte: 9 }));
    assert_eq!(e.message(), "expected StartDataConn, got 9");
}

#[test]
fn connections_are_planned() {
    let mut cfg = settings();
    let p = build_connector(&cfg).unwrap();
    assert!(p.protocol == Protocol::Tcp && p.shared && p.tls && !p.resolve);
    assert_eq!((p.endpoint.as_str(), p.server_name.as_str()), ("s.example:9527", "s.example"));
    cfg.transport.protocol = "quic".to_string();
    cfg.transport.tcp_mux = false;
    let p = build_connector(&cfg).unwrap();
    assert!(p.shared && !p.tls && p.resolve);
    cfg.transport.protocol = "kcp".to_string();
    let p = build_connector(&cfg).unwrap();
    assert!(!p.shared && p.tls && p.resolve);
    cfg.transport.protocol = "x".to_string();
    assert!(build_connector(&cfg).is_err());
}

#[test]
fn handle_keeps_the_last_lines() {
    let mut h = ClientHandle::new();
    for i in 0..503 {
        h.push_log(format!("line {i}"));
    }
    let logs = h.drain_logs();
    assert_eq!(logs.len(), 500);
    assert_eq!(logs[0], "line 3");
    assert_eq!(logs[499], "line 502");
    assert!(h.drain_logs().is_empty());
}

#[test]
fn handle_tells_of_changed_addresses() {
    let mut h = ClientHandle::new();
    assert!(h.tunnel_remotes_if_changed(0).is_none());
    h.set_tunnel_remote("t".to_string(), "a:1".to_string());
    let (g, list) = h.tunnel_remotes_if_changed(0).unwrap();
    assert_eq!(list, vec![("t".to_string(), "a:1".to_string())]);
    h.set_tunnel_remote("t".to_string(), "a:1".to_string());
    h.set_tunnel_remote(String::new(), "a:1".to_string());
    h.remove_tunnel_remote("other");
    assert!(h.tunnel_remotes_if_changed(g).is_none());
    h.remove_tunnel_remote("t");
    let (g2, list) = h.tunnel_remotes_if_changed(g).unwrap();
    assert!(list.is_empty() && g2 == g + 1);
    h.clear_tunnel_remotes();
    assert_eq!(h.tunnel_remotes_if_changed(g2).unwrap().0, g2 + 1);
}

#[test]
fn handle_starts_and_stops() {
    let same = |p: &String| p.clone();
    let mut h = ClientHandle::default();
    let mut bad = settings();
    bad.server = String::new();
    let e = h.start_with(&mut bad, &same).err().unwrap();
    assert!(matches!(e, StartError::Invalid(_)));
    assert_eq!(e.message(""), "server is required (host:port)");
    assert!(h.status() == ClientStatus::Stopped);
    let mut cfg = settings();
    assert!(h.start_with(&mut cfg, &same).is_ok());
    assert!(h.status() == ClientStatus::Starting && h.status().is_active());
    let e = h.start_with(&mut cfg, &same).err().unwrap();
    assert_eq!(e.message(""), "client already running");
    assert!(matches!(h.reload(), Err(ReloadRefusal::NotReady)));
    assert_eq!(h.begin_run(&mut cfg, &same, false).ok().unwrap(), false);
    assert!(h.reload().is_ok());
    let plan = h.stop().unwrap();
    assert!(plan.cancel && plan.wait);
    assert!(h.status() == ClientStatus::Stopping);
    h.end_run(Some("broke".to_string()));
    h.finish_stop(false);
    assert!(h.status() == ClientStatus::Stopped);
    assert_eq!(h.last_error().unwrap(), "broke");
    assert_eq!(h.take_last_error().unwrap(), "broke");
    assert!(h.last_error().is_none());
    assert!(h.stop().is_none());
    assert!(matches!(h.reload(), Err(ReloadRefusal::NotRunning)));
    let e = h.begin_run(&mut cfg, &same, false).err().unwrap();
    assert!(matches!(e, RunError::NoCancelToken));
    assert_eq!(e.message(""), "missing cancel token");
    assert!(!StartOptions::default().local_control);
}

#[test]
fn foreground_clients_drain_datagrams() {
    let same = |p: &String| p.clone();
    let mut cfg = settings();
    assert!(!needs_udp_session_drain(&cfg));
    cfg.transport.protocol = "quic".to_string();
    assert!(needs_udp_session_drain(&cfg));
    let mut h = ClientHandle::new();
    assert!(h.begin_run(&mut cfg, &same, true).ok().unwrap());
    assert!(h.status() == ClientStatus::Starting);
    let plan = h.stop().unwrap();
    assert!(plan.cancel && !plan.wait);
    assert!(h.status() == ClientStatus::Stopped);
}

#[test]
fn reload_replies_are_told() {
    assert!(reload_result(ReloadReply::Answered(Ok(outcome()))).is_ok());
    let text = |r: ReloadReply| reload_result(r).err().unwrap();
    assert_eq!(text(ReloadReply::NotTaken), "reload channel closed");
    assert_eq!(text(ReloadReply::Dropped), "reload response channel closed");
    assert_eq!(text(ReloadReply::TimedOut), "reload timed out after 120s");
    assert_eq!(ReloadRefusal::NotReady.message(), "reload channel not ready");
}

#[test]
fn names_keep_their_order() {
    let mut m: NameMap<u32> = NameMap::new();
    m.insert("b".to_string(), 1);
    m.insert("a".to_string(), 2);
    m.insert("b".to_string(), 3);
    assert_eq!((m.len(), m.get("b"), m.get("c")), (2, Some(&3), None));
    assert_eq!(m.at(0).0, "b");
    assert_eq!(m.remove("b"), Some(3));
    assert_eq!(m.remove("b"), None);
    assert!(m.contains("a") && !m.contains("b"));
    m.clear();
    assert_eq!(m.len(), 0);
}

#[test]
fn shared_connections_follow_events() {
    assert_eq!(mux_step(MuxEvent::Stop), MuxStep::CloseAndEnd);
    assert_eq!(mux_step(MuxEvent::OpenersGone), MuxStep::CloseAndEnd);
    assert_eq!(mux_step(MuxEvent::Open), MuxStep::OpenStream);
    assert_eq!(mux_step(MuxEvent::Inbound), MuxStep::Ignore);
    assert_eq!(mux_step(MuxEvent::Failed), MuxStep::End);
    assert_eq!(mux_step(MuxEvent::Closed), MuxStep::End);
    assert_eq!(CONNECTION_WINDOW, 256 * 1024 * MAX_NUM_STREAMS);
}

#[test]
fn all_tunnels_are_asked_for_up_to_a_fault() {
    let mut control = Control::new("s1".to_string(), 5);
    let good = vec![tunnel("a", "tcp", 1000), tunnel("b", "udp", 1001)];
    let (asked, error) = control.register_all_tunnels(&good);
    assert!(error.is_none());
    assert_eq!(asked.len(), 2);
    assert_eq!(asked[0].tunnel_name, "a");
    assert_eq!(asked[1].protocol, "udp");
    assert_eq!(asked[1].remote_port, 1001);
    assert_eq!(control.tunnel_names(), vec!["a".to_string(), "b".to_string()]);

    let mut control = Control::new("s1".to_string(), 5);
    let mixed = vec![tunnel("a", "tcp", 1000), tunnel("b", "tcp", 0), tunnel("c", "tcp", 1002)];
    let (asked, error) = control.register_all_tunnels(&mixed);
    assert_eq!(asked.len(), 1);
    assert!(error.is_some());
    assert_eq!(control.tunnel_names(), vec!["a".to_string()]);
}

#[test]
fn settings_are_compared_as_numbers_are() {
    let with = |bandwidth: f64| {
        let mut cfg = settings();
        cfg.tunnels = vec![tunnel("a", "tcp", 1000)];
        cfg.tunnels[0].transport.bandwidth_bits = bandwidth.to_bits();
        cfg
    };
    for (a, b) in [
        (0.0, -0.0),
        (1.5, 1.5),
        (1.5, -1.5),
        (1.5, 2.0),
        (0.0, 1.5),
        (f64::NAN, f64::NAN),
        (-f64::NAN, 0.0),
        (f64::INFINITY, f64::INFINITY),
        (f64::NEG_INFINITY, f64::NEG_INFINITY),
        (f64::NEG_INFINITY, f64::INFINITY),
    ] {
        assert_eq!(with(a) == with(b), a == b);
        assert_eq!(with(a).same_as(&with(b)), a == b);
    }
    let mut other = with(0.0);
    other.tunnels[0].domains.push("d".to_string());
    assert!(other != with(0.0));
    let mut other = with(0.0);
    other.user = "somebody".to_string();
    assert!(other != with(0.0));
    other.tunnels.clear();
    assert!(other != with(0.0));
}

#[test]
fn reading_ends_when_nothing_more_comes() {
    let mut c = Control::new("sid".to_string(), 5);
    let closed = |step: ReaderStep| matches!(step, ReaderStep::End(ReaderEnd::Closed));
    assert!(closed(c.on_read(ReadOutcome::Failed, "h:1", 9)));
    assert!(closed(c.on_read(ReadOutcome::Cancelled, "h:1", 9)));
    assert!(c.is_silent(100, 94));
    assert!(matches!(
        c.on_read(ReadOutcome::Message(ServerMessage::Pong), "h:1", 9),
        ReaderStep::GoOn(SessionAction::Noted)
    ));
    assert!(!c.is_silent(100, 94));
    let kick = ServerMessage::KickOut { reason: "out".to_string() };
    assert!(matches!(
        c.on_read(ReadOutcome::Message(kick), "h:1", 9),
        ReaderStep::End(ReaderEnd::Kicked(reason)) if reason == "out"
    ));
}
