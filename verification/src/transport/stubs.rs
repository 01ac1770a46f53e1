//! Transports that are declared but not implemented yet. Each answers to
//! its name; discovery finds no peer where the transport has no discovery
//! to do, and is refused where discovery is still to come.

use vstd::prelude::*;

use crate::transport::types::PeerAddr;

verus! {

/// TCP transport (fallback, LAN).
pub struct TcpTransport;

/// Tailscale transport (WireGuard mesh VPN).
pub struct TailscaleTransport;

/// mDNS transport (LAN auto-discovery).
pub struct MdnsTransport;

/// WebSocket transport (browser/mobile nodes).
pub struct WsTransport;

/// NATS transport (pub/sub fan-out).
pub struct NatsTransport;

/// Bluetooth transport (proximity sync).
pub struct BtTransport;

/// File transport (sneakernet, USB stick).
pub struct FileTransport;

impl TcpTransport {
    pub fn name(&self) -> (n: &'static str)
        ensures
            n@ == "tcp"@,
    {
        "tcp"
    }

    /// TCP has no discovery: no peers.
    pub fn discover(&self) -> (r: Result<Vec<PeerAddr>, String>)
        ensures
            r matches Ok(peers) && peers@.len() == 0,
    {
        Ok(Vec::new())
    }
}

impl TailscaleTransport {
    pub fn name(&self) -> (n: &'static str)
        ensures
            n@ == "tailscale"@,
    {
        "tailscale"
    }

    /// Tailscale discovery is not implemented yet.
    pub fn discover(&self) -> (r: Result<Vec<PeerAddr>, String>)
        ensures
            r matches Err(e) && e@ == "Tailscale discovery not yet implemented"@,
    {
        Err(String::from_str("Tailscale discovery not yet implemented"))
    }
}

impl MdnsTransport {
    pub fn name(&self) -> (n: &'static str)
        ensures
            n@ == "mdns"@,
    {
        "mdns"
    }

    /// mDNS discovery is not implemented yet.
    pub fn discover(&self) -> (r: Result<Vec<PeerAddr>, String>)
        ensures
            r matches Err(e) && e@ == "mDNS discovery not yet implemented"@,
    {
        Err(String::from_str("mDNS discovery not yet implemented"))
    }
}

impl WsTransport {
    pub fn name(&self) -> (n: &'static str)
        ensures
            n@ == "ws"@,
    {
        "ws"
    }

    /// WebSocket has no discovery: no peers.
    pub fn discover(&self) -> (r: Result<Vec<PeerAddr>, String>)
        ensures
            r matches Ok(peers) && peers@.len() == 0,
    {
        Ok(Vec::new())
    }
}

impl NatsTransport {
    pub fn name(&self) -> (n: &'static str)
        ensures
            n@ == "nats"@,
    {
        "nats"
    }

    /// NATS discovery is not implemented yet.
    pub fn discover(&self) -> (r: Result<Vec<PeerAddr>, String>)
        ensures
            r matches Err(e) && e@ == "NATS discovery not yet implemented"@,
    {
        Err(String::from_str("NATS discovery not yet implemented"))
    }
}

impl BtTransport {
    pub fn name(&self) -> (n: &'static str)
        ensures
            n@ == "bt"@,
    {
        "bt"
    }

    /// Bluetooth discovery is not implemented yet.
    pub fn discover(&self) -> (r: Result<Vec<PeerAddr>, String>)
        ensures
            r matches Err(e) && e@ == "Bluetooth discovery not yet implemented"@,
    {
        Err(String::from_str("Bluetooth discovery not yet implemented"))
    }
}

impl FileTransport {
    pub fn name(&self) -> (n: &'static str)
        ensures
            n@ == "file"@,
    {
        "file"
    }

    /// The file transport has no discovery: no peers.
    pub fn discover(&self) -> (r: Result<Vec<PeerAddr>, String>)
        ensures
            r matches Ok(peers) && peers@.len() == 0,
    {
        Ok(Vec::new())
    }
}

} // verus!
