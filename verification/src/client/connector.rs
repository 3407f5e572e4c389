//! How a client reaches its server, by its settings.
use vstd::prelude::*;
use vstd::string::*;

use crate::config::client::{ClientConfig, ClientConfigError, ClientFault};
use crate::config::server::QuicOptions;
use crate::text::trim;
use crate::transport::{protocol_named, Protocol};

verus! {

/// How a client reaches its server.
#[derive(Debug)]
pub struct ConnectPlan {
    pub protocol: Protocol,
    /// One connection is opened at once, and all streams share it.
    pub shared: bool,
    /// Streams are wrapped in TLS; a QUIC session has its own.
    pub tls: bool,
    pub endpoint: String,
    /// The server's address must be looked up first.
    pub resolve: bool,
    pub ws_path: String,
    pub server_name: String,
    pub quic: QuicOptions,
}

/// Plans how to reach the server: QUIC always shares one session, the others share a
/// connection where they are told to.
pub fn build_connector(cfg: &ClientConfig) -> (r: Result<ConnectPlan, ClientConfigError>)
    ensures
        match r {
            Ok(p) => {
                &&& protocol_named(cfg.transport.protocol@) == Some(p.protocol)
                &&& p.shared == (p.protocol == Protocol::Quic || cfg.transport.tcp_mux)
                &&& p.tls == (p.protocol != Protocol::Quic && cfg.transport.tls.enable)
                &&& p.endpoint@ == trim(cfg.server@)
                &&& p.resolve == (p.protocol == Protocol::Quic || p.protocol == Protocol::Kcp)
                &&& p.ws_path@ == cfg.transport.ws_path@
                &&& p.server_name@ == cfg.tls_name()
                &&& p.quic == cfg.transport.quic
            },
            Err(e) => protocol_named(cfg.transport.protocol@) is None && e@
                == (ClientFault::Protocol { protocol: cfg.transport.protocol@ }),
        },
{
    let protocol = match cfg.protocol() {
        Ok(p) => p,
        Err(e) => {
            return Err(e);
        },
    };
    let quic = protocol == Protocol::Quic;
    Ok(
        ConnectPlan {
            protocol,
            shared: quic || cfg.transport.tcp_mux,
            tls: !quic && cfg.transport.tls.enable,
            endpoint: cfg.server_endpoint(),
            resolve: quic || protocol == Protocol::Kcp,
            ws_path: cfg.transport.ws_path.clone(),
            server_name: cfg.tls_server_name(),
            quic: cfg.transport.quic,
        },
    )
}

} // verus!
