//! Transport layer: peer addresses, sync frames and their wire framing, and
//! the transports that are declared but not implemented yet.

pub mod frame;
pub mod stubs;
pub mod types;

pub use stubs::{BtTransport, FileTransport, MdnsTransport, NatsTransport, TailscaleTransport, TcpTransport, WsTransport};
pub use types::{FrameType, PeerAddr, SyncFrame};
