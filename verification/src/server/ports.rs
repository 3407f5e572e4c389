//! Which tunnel has which port of the server.
use std::collections::HashMap;
use vstd::prelude::*;
use vstd::string::*;

use crate::text::decimal;
use crate::text::{decimal_str, same};

verus! {

broadcast use vstd::std_specs::hash::group_hash_axioms;

/// The ports in use, each with the tunnel that has it.
#[derive(Debug)]
pub struct PortTable {
    by_port: HashMap<u16, String>,
}

impl View for PortTable {
    type V = Map<u16, Seq<char>>;

    closed spec fn view(&self) -> Map<u16, Seq<char>> {
        Map::new(|p: u16| self.by_port@.dom().contains(p), |p: u16| self.by_port@[p]@)
    }
}

/// Why a port was not given to a tunnel.
#[derive(Debug)]
pub enum PortError {
    Zero,
    InUse { port: u16, tunnel: String },
}

impl PortError {
    pub open spec fn text(&self) -> Seq<char> {
        match *self {
            PortError::Zero => "invalid remote port 0"@,
            PortError::InUse { port, tunnel } => "remote port "@ + decimal(port as nat)
                + " is already in use by tunnel `"@ + tunnel@ + "`"@,
        }
    }

    pub fn message(&self) -> (r: String)
        ensures
            r@ == self.text(),
    {
        match self {
            PortError::Zero => "invalid remote port 0".to_owned(),
            PortError::InUse { port, tunnel } => "remote port ".to_owned().concat(
                decimal_str(*port as u64).as_str(),
            ).concat(" is already in use by tunnel `").concat(tunnel.as_str()).concat("`"),
        }
    }
}

/// The ports after a tunnel gave one back, which only the tunnel that has it can.
pub open spec fn released(ports: Map<u16, Seq<char>>, port: u16, tunnel: Seq<char>) -> Map<
    u16,
    Seq<char>,
> {
    if ports.dom().contains(port) && ports[port] == tunnel {
        ports.remove(port)
    } else {
        ports
    }
}

impl PortTable {
    /// A table in which no port is in use.
    pub fn new() -> (r: PortTable)
        ensures
            r@ == Map::<u16, Seq<char>>::empty(),
    {
        let r = PortTable { by_port: HashMap::new() };
        assert(r@ =~= Map::empty());
        r
    }

    /// Gives a port to a tunnel, unless it is in use or no port at all.
    pub fn claim(&mut self, port: u16, tunnel_name: &str) -> (r: Result<(), PortError>)
        ensures
            match r {
                Ok(_) => {
                    &&& port != 0 && !old(self)@.dom().contains(port)
                    &&& final(self)@ == old(self)@.insert(port, tunnel_name@)
                },
                Err(PortError::Zero) => port == 0 && final(self)@ == old(self)@,
                Err(PortError::InUse { port: p, tunnel }) => {
                    &&& port != 0 && p == port
                    &&& old(self)@.dom().contains(port) && tunnel@ == old(self)@[port]
                    &&& final(self)@ == old(self)@
                },
            },
    {
        if port == 0 {
            return Err(PortError::Zero);
        }
        match self.by_port.get(&port) {
            Some(tunnel) => {
                return Err(PortError::InUse { port, tunnel: tunnel.clone() });
            },
            None => {},
        }
        let ghost before = self@;
        self.by_port.insert(port, tunnel_name.to_owned());
        assert(self@ =~= before.insert(port, tunnel_name@));
        Ok(())
    }

    /// Takes a port back from the tunnel that has it.
    pub fn release(&mut self, port: u16, tunnel_name: &str)
        ensures
            final(self)@ == released(old(self)@, port, tunnel_name@),
    {
        let owned = match self.by_port.get(&port) {
            Some(tunnel) => same(tunnel.as_str(), tunnel_name),
            None => false,
        };
        let ghost before = self@;
        if owned {
            self.by_port.remove(&port);
            assert(self@ =~= before.remove(port));
        }
    }
}

/// Giving back what was just taken leaves the table as it was.
pub proof fn release_undoes_claim(ports: Map<u16, Seq<char>>, port: u16, tunnel: Seq<char>)
    requires
        !ports.dom().contains(port),
    ensures
        released(ports.insert(port, tunnel), port, tunnel) == ports,
{
    assert(released(ports.insert(port, tunnel), port, tunnel) =~= ports);
}

/// No tunnel loses a port to another: what one gives back leaves the ports of all
/// others alone.
pub proof fn release_spares_others(
    ports: Map<u16, Seq<char>>,
    port: u16,
    tunnel: Seq<char>,
    other_port: u16,
)
    requires
        ports.dom().contains(other_port),
        ports[other_port] != tunnel || other_port != port,
    ensures
        released(ports, port, tunnel).dom().contains(other_port),
        released(ports, port, tunnel)[other_port] == ports[other_port],
{
}

} // verus!
