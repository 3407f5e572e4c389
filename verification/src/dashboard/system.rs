//! The server as a whole, and its traffic over time.
use vstd::prelude::*;
use vstd::string::*;

use crate::config::server::ServerConfig;
use crate::dashboard::snapshot::{online_count, DashboardSnapshot};
use crate::dashboard::snapshot::client_counts;

verus! {

/// The settings that are shown.
#[derive(Debug)]
pub struct SystemConfig {
    pub listen: String,
    pub quic_port: u16,
    pub kcp_port: u16,
    pub http_gw_port: u16,
    pub https_gw_port: u16,
    pub root_domain: String,
    pub tcp_mux: bool,
    pub tls_force: bool,
    pub max_conn_pool: i64,
    pub heartbeat_timeout: i64,
}

/// What is counted.
#[derive(Debug)]
pub struct SystemStatus {
    pub client_counts: usize,
    pub total_client_counts: usize,
    pub tunnel_type_count: Vec<(String, usize)>,
    pub active_connections: usize,
    pub total_traffic_in: u64,
    pub total_traffic_out: u64,
}

/// The server as it is shown.
#[derive(Debug)]
pub struct SystemInfo {
    pub version: String,
    pub config: SystemConfig,
    pub status: SystemStatus,
}

/// Shows the server; no secret of its settings is among what is shown.
pub fn system_info(version: &str, cfg: &ServerConfig, snap: DashboardSnapshot) -> (r: SystemInfo)
    ensures
        r.version@ == version@,
        r.config.listen@ == cfg.listen@,
        r.config.quic_port == cfg.quic_port,
        r.config.kcp_port == cfg.kcp_port,
        r.config.http_gw_port == cfg.http_gw_port,
        r.config.https_gw_port == cfg.https_gw_port,
        r.config.root_domain@ == cfg.root_domain@,
        r.config.tcp_mux == cfg.transport.tcp_mux,
        r.config.tls_force == cfg.transport.tls.force,
        r.config.max_conn_pool == cfg.transport.max_conn_pool,
        r.config.heartbeat_timeout == cfg.transport.heartbeat_timeout,
        r.status.client_counts == online_count(snap.clients@),
        r.status.total_client_counts == snap.total_client_counts,
        r.status.tunnel_type_count == snap.tunnel_type_count,
        r.status.active_connections == snap.active_connections,
        r.status.total_traffic_in == snap.total_traffic_in,
        r.status.total_traffic_out == snap.total_traffic_out,
{
    let counts = client_counts(&snap.clients);
    SystemInfo {
        version: version.to_owned(),
        config: SystemConfig {
            listen: cfg.listen.clone(),
            quic_port: cfg.quic_port,
            kcp_port: cfg.kcp_port,
            http_gw_port: cfg.http_gw_port,
            https_gw_port: cfg.https_gw_port,
            root_domain: cfg.root_domain.clone(),
            tcp_mux: cfg.transport.tcp_mux,
            tls_force: cfg.transport.tls.force,
            max_conn_pool: cfg.transport.max_conn_pool,
            heartbeat_timeout: cfg.transport.heartbeat_timeout,
        },
        status: SystemStatus {
            client_counts: counts,
            total_client_counts: snap.total_client_counts,
            tunnel_type_count: snap.tunnel_type_count,
            active_connections: snap.active_connections,
            total_traffic_in: snap.total_traffic_in,
            total_traffic_out: snap.total_traffic_out,
        },
    }
}

/// The traffic of a stretch of time as it was measured.
#[derive(Debug)]
pub struct TrafficPoint {
    pub date: String,
    pub traffic_in: u64,
    pub traffic_out: u64,
}

/// The traffic of a tunnel, or of the server, as it was measured.
#[derive(Debug)]
pub struct TunnelTrafficHistory {
    pub name: String,
    pub unit: String,
    pub granularity: String,
    pub history: Vec<TrafficPoint>,
}

/// The traffic of a stretch of time as it is shown.
#[derive(Debug)]
pub struct TunnelTrafficPoint {
    pub date: String,
    pub traffic_in: u64,
    pub traffic_out: u64,
}

/// The traffic of a tunnel, or of the server, as it is shown.
#[derive(Debug)]
pub struct TunnelTrafficResp {
    pub name: String,
    pub unit: String,
    pub granularity: String,
    pub history: Vec<TunnelTrafficPoint>,
}

/// Shows measured traffic, point by point.
pub fn traffic_resp(hist: TunnelTrafficHistory) -> (r: TunnelTrafficResp)
    ensures
        r.name == hist.name,
        r.unit == hist.unit,
        r.granularity == hist.granularity,
        r.history@.len() == hist.history@.len(),
        forall|i: int|
            0 <= i < r.history@.len() ==> (#[trigger] r.history@[i]).date == hist.history@[i].date
                && r.history@[i].traffic_in == hist.history@[i].traffic_in
                && r.history@[i].traffic_out == hist.history@[i].traffic_out,
{
    let mut history: Vec<TunnelTrafficPoint> = Vec::new();
    let n: usize = hist.history.len();
    let mut i: usize = 0;
    while i < n
        invariant
            i <= n,
            n == hist.history@.len(),
            history@.len() == i,
            forall|j: int|
                0 <= j < i ==> (#[trigger] history@[j]).date == hist.history@[j].date
                    && history@[j].traffic_in == hist.history@[j].traffic_in
                    && history@[j].traffic_out == hist.history@[j].traffic_out,
        decreases n - i,
    {
        let p = &hist.history[i];
        history.push(
            TunnelTrafficPoint {
                date: p.date.clone(),
                traffic_in: p.traffic_in,
                traffic_out: p.traffic_out,
            },
        );
        i += 1;
    }
    TunnelTrafficResp {
        name: hist.name,
        unit: hist.unit,
        granularity: hist.granularity,
        history,
    }
}

} // verus!
