//! Command-line interface: the commands the `keyring` program accepts.

use vstd::prelude::*;

verus! {

/// Parsed command line.
pub struct Cli {
    pub command: Commands,
    /// Config file path.
    pub config: String,
    /// Enable verbose logging.
    pub verbose: bool,
}

pub enum Commands {
    /// Initialize a new node identity and local store.
    Init { name: String },
    /// Start the keyring daemon.
    Listen { addr: String },
    /// Connect to a remote peer (node-id@host:port or host:port).
    Connect { peer: String },
    /// Show node status, sync state, and peers.
    Status,
    /// List connected peers.
    Peers,
    /// Keyring (trust group) management.
    Ring { action: RingAction },
    /// Document operations.
    Document { action: DocAction },
    /// Sync operations.
    Sync { action: Option<SyncAction> },
    /// Task management.
    Task { action: TaskAction },
    /// Plugin management.
    Plugin { action: PluginAction },
}

pub enum RingAction {
    /// Create a new keyring.
    Create { name: String },
    /// Invite a node to a keyring.
    Invite { ring: String, node_id: String },
    /// List keyrings.
    List,
    /// Leave a keyring.
    Leave { ring: String },
}

pub enum DocAction {
    /// Store a file/document.
    Put { path: String, ring: String, tags: Vec<String> },
    /// Retrieve a document.
    Get { id: String },
    /// List documents.
    List { ring: Option<String>, doc_type: Option<String> },
    /// Show version history.
    Log { id: String },
}

pub enum SyncAction {
    /// Show sync status.
    Status,
    /// Watch live sync events.
    Watch,
}

pub enum TaskAction {
    /// Submit a new task.
    Submit { task_type: String, requires: Vec<String> },
    /// List tasks.
    List,
    /// Claim a task.
    Claim { id: String },
}

pub enum PluginAction {
    /// Install a WASM plugin.
    Install { path: String },
    /// List installed plugins.
    List,
    /// Uninstall a plugin.
    Remove { name: String },
}

} // verus!
