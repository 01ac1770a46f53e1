//! API layer: server endpoint configuration.

use vstd::prelude::*;

verus! {

/// API server configuration.
pub struct ApiConfig {
    pub grpc_addr: String,
    pub http_addr: Option<String>,
    pub unix_socket: Option<String>,
}

impl Default for ApiConfig {
    /// gRPC on all IPv6 interfaces, port 4434; no HTTP; the Unix socket
    /// `/tmp/keyring.sock`.
    fn default() -> (c: Self)
        ensures
            c.grpc_addr@ == "[::]:4434"@,
            c.http_addr is None,
            c.unix_socket matches Some(s) && s@ == "/tmp/keyring.sock"@,
    {
        ApiConfig {
            grpc_addr: String::from_str("[::]:4434"),
            http_addr: None,
            unix_socket: Some(String::from_str("/tmp/keyring.sock")),
        }
    }
}

} // verus!
