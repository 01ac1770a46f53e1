//! Configuration: the node's settings, as stored in its TOML config file.

use vstd::prelude::*;

verus! {

/// Node configuration.
#[derive(Clone, Debug)]
pub struct Config {
    /// Node name.
    pub name: String,
    /// Data directory, as the operating system's bytes for the path.
    pub data_dir: Vec<u8>,
    /// Transport configurations.
    pub transports: Vec<TransportConfig>,
    /// Bootstrap peers.
    pub bootstrap_peers: Vec<String>,
    /// API configuration.
    pub api: ApiConfig,
}

/// One transport's configuration.
#[derive(Clone, Debug)]
pub struct TransportConfig {
    pub transport_type: String,
    pub listen: Option<String>,
    /// Transport options: option name to value.
    pub options: Vec<(String, String)>,
}

/// API endpoints of the node.
#[derive(Clone, Debug)]
pub struct ApiConfig {
    pub grpc_addr: String,
    pub http_addr: Option<String>,
    pub unix_socket: Option<String>,
}

/// `o` holds a string whose text is `s`.
pub open spec fn holds_text(o: Option<String>, s: Seq<char>) -> bool {
    o matches Some(v) && v@ == s
}

impl Default for ApiConfig {
    /// gRPC on the IPv6 loopback, port 4434; no HTTP; the Unix socket
    /// `/tmp/keyring.sock`.
    fn default() -> (c: Self)
        ensures
            c.grpc_addr@ == "[::1]:4434"@,
            c.http_addr is None,
            holds_text(c.unix_socket, "/tmp/keyring.sock"@),
    {
        ApiConfig {
            grpc_addr: default_grpc_addr(),
            http_addr: None,
            unix_socket: Some(String::from_str("/tmp/keyring.sock")),
        }
    }
}

/// The bytes of an ASCII text, one byte per character.
pub open spec fn ascii_bytes(s: Seq<char>) -> Seq<u8> {
    Seq::new(s.len(), |i: int| s[i] as u8)
}

/// Calls `directories::ProjectDirs::from(qualifier, organization,
/// application)` and hands back the data directory it names, as the
/// operating system's bytes for the path, or `None` where the platform has
/// no home directory. Which directory it is depends on the environment; the
/// contract claims only what holds of every outcome: the directory is the
/// home (or platform data) directory joined with the project's path, so it
/// is never empty.
#[verifier::external_body]
fn project_data_dir(qualifier: &str, organization: &str, application: &str) -> (d: Option<Vec<u8>>)
    ensures
        d matches Some(p) ==> p@.len() > 0,
{
    match directories::ProjectDirs::from(qualifier, organization, application) {
        Some(dirs) => Some(dirs.data_dir().as_os_str().as_encoded_bytes().to_vec()),
        None => None,
    }
}

/// The data directory: the platform's directory for the application where
/// there is one, else `~/.keyring`.
pub fn data_dir_or_default(found: Option<Vec<u8>>) -> (d: Vec<u8>)
    ensures
        found matches Some(f) ==> d@ == f@,
        found is None ==> d@ == ascii_bytes("~/.keyring"@),
{
    match found {
        Some(f) => f,
        None => {
            let home = "~/.keyring";
            proof {
                reveal_strlit("~/.keyring");
                vstd::string::is_ascii_spec_bytes(home);
            }
            home.as_bytes_vec()
        },
    }
}

/// The default data directory: the platform's data directory for the
/// application `keyring` (with no qualifier and no organization) where there
/// is one, else `~/.keyring`. Whichever it is, it is never empty.
pub fn default_data_dir() -> (d: Vec<u8>)
    ensures
        d@.len() > 0,
{
    proof {
        reveal_strlit("~/.keyring");
    }
    data_dir_or_default(project_data_dir("", "", "keyring"))
}

/// The default gRPC address: the IPv6 loopback, port 4434.
pub fn default_grpc_addr() -> (s: String)
    ensures
        s@ == "[::1]:4434"@,
{
    String::from_str("[::1]:4434")
}

impl Config {
    /// The default configuration of a new node named `name`: one QUIC
    /// transport listening on 0.0.0.0:4433, no bootstrap peers, the default
    /// API endpoints, and the platform's data directory.
    pub fn default_for(name: &str) -> (c: Self)
        ensures
            c.name@ == name@,
            c.data_dir@.len() > 0,
            c.transports@.len() == 1,
            c.transports@[0].transport_type@ == "quic"@,
            holds_text(c.transports@[0].listen, "0.0.0.0:4433"@),
            c.transports@[0].options@.len() == 0,
            c.bootstrap_peers@.len() == 0,
            c.api.grpc_addr@ == "[::1]:4434"@,
            c.api.http_addr is None,
            holds_text(c.api.unix_socket, "/tmp/keyring.sock"@),
    {
        let mut transports: Vec<TransportConfig> = Vec::new();
        transports.push(
            TransportConfig {
                transport_type: String::from_str("quic"),
                listen: Some(String::from_str("0.0.0.0:4433")),
                options: Vec::new(),
            },
        );
        Config {
            name: String::from_str(name),
            data_dir: default_data_dir(),
            transports,
            bootstrap_peers: Vec::new(),
            api: ApiConfig::default(),
        }
    }
}

} // verus!
