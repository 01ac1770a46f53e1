use keyring::api;
use keyring::clock::{millis_of_reading, now_millis, now_timestamp, timestamp_of_reading, Timestamp};
use keyring::config::{data_dir_or_default, default_data_dir, default_grpc_addr, ApiConfig, Config};
use keyring::keyed_map::KeyedMap;
use keyring::plugin::{Permission, PluginManifest, PluginRuntime, PluginType};
use keyring::store::{BlobHash, DocumentId};
use keyring::sync::{SyncManager, SyncMode};
use keyring::transport::frame::{frame_header, frame_length};
use keyring::transport::{BtTransport, FileTransport, MdnsTransport, NatsTransport, TailscaleTransport, TcpTransport, WsTransport};

fn manifest(name: &str) -> PluginManifest {
    PluginManifest {
        name: name.to_string(),
        version: "0.1.0".to_string(),
        plugin_type: PluginType::Transform,
        permissions: vec![Permission::ReadDocument],
        triggers: vec!["on_write".to_string()],
    }
}

#[test]
fn plugin_install_list_uninstall() {
    let mut rt = PluginRuntime::new();
    assert!(rt.list().is_empty());
    assert!(rt.install(manifest("zip"), b"\0asm").is_ok());
    assert!(rt.install(manifest("crypt"), b"\0asm").is_ok());
    assert!(rt.install(manifest("zip"), b"\0asm").is_ok());
    let names: Vec<&str> = rt.list().iter().map(|m| m.name.as_str()).collect();
    assert_eq!(names, vec!["zip", "crypt", "zip"]);
    assert!(rt.uninstall("zip"));
    let names: Vec<&str> = rt.list().iter().map(|m| m.name.as_str()).collect();
    assert_eq!(names, vec!["crypt"]);
    assert!(!rt.uninstall("zip"));
    assert!(rt.uninstall("crypt"));
    assert!(rt.list().is_empty());
}

#[test]
fn default_config_for_new_node() {
    let c = Config::default_for("onyx-key");
    assert_eq!(c.name, "onyx-key");
    assert_eq!(c.transports.len(), 1);
    assert_eq!(c.transports[0].transport_type, "quic");
    assert_eq!(c.transports[0].listen.as_deref(), Some("0.0.0.0:4433"));
    assert!(c.transports[0].options.is_empty());
    assert!(c.bootstrap_peers.is_empty());
    assert_eq!(c.api.grpc_addr, "[::1]:4434");
    assert_eq!(c.api.http_addr, None);
    assert_eq!(c.api.unix_socket.as_deref(), Some("/tmp/keyring.sock"));
    assert!(!c.data_dir.is_empty());
}

#[test]
fn config_api_defaults() {
    let a = ApiConfig::default();
    assert_eq!(a.grpc_addr, default_grpc_addr());
    assert_eq!(a.grpc_addr, "[::1]:4434");
    let s = api::ApiConfig::default();
    assert_eq!(s.grpc_addr, "[::]:4434");
    assert_eq!(s.http_addr, None);
    assert_eq!(s.unix_socket.as_deref(), Some("/tmp/keyring.sock"));
}

#[test]
fn data_dir_falls_back_to_home_keyring() {
    assert_eq!(data_dir_or_default(None), b"~/.keyring".to_vec());
    assert_eq!(data_dir_or_default(Some(b"/data/keyring".to_vec())), b"/data/keyring".to_vec());
    let not_unicode: Vec<u8> = vec![b'/', b'd', 0xff, 0xfe];
    assert_eq!(data_dir_or_default(Some(not_unicode.clone())), not_unicode);
}

#[test]
fn default_data_dir_is_never_empty() {
    assert!(!default_data_dir().is_empty());
}

fn roots(entries: &[(u8, u8)]) -> KeyedMap<DocumentId, BlobHash> {
    let mut m = KeyedMap::new();
    for (d, h) in entries {
        m.insert(DocumentId([*d; 16]), BlobHash([*h; 32]));
    }
    m
}

#[test]
fn find_divergence_reports_differing_and_one_sided_documents() {
    let sm = SyncManager::new(SyncMode::Periodic(std::time::Duration::from_secs(60)));
    let local = roots(&[(1, 10), (2, 20), (3, 30)]);
    let remote = roots(&[(2, 20), (3, 31), (4, 40)]);
    let ids = sm.find_divergence(&local, &remote);
    assert_eq!(ids, vec![DocumentId([1; 16]), DocumentId([3; 16]), DocumentId([4; 16])]);
    assert!(sm.find_divergence(&local, &local).is_empty());
    assert!(sm.find_divergence(&roots(&[]), &roots(&[])).is_empty());
}

#[test]
fn frame_header_is_big_endian_length() {
    assert_eq!(frame_header(0x0102_0304), [1, 2, 3, 4]);
    assert_eq!(frame_length([1, 2, 3, 4]), 0x0102_0304);
    assert_eq!(frame_length(frame_header(77)), 77);
    assert_eq!(frame_header(0), [0, 0, 0, 0]);
}

#[test]
fn frame_header_cuts_length_to_32_bits() {
    if usize::BITS > 32 {
        let big = ((1u64 << 32) + 5) as usize;
        assert_eq!(frame_header(big), [0, 0, 0, 5]);
    }
}

#[test]
fn stub_transports_answer_to_their_names() {
    assert_eq!(TcpTransport.name(), "tcp");
    assert_eq!(TailscaleTransport.name(), "tailscale");
    assert_eq!(MdnsTransport.name(), "mdns");
    assert_eq!(WsTransport.name(), "ws");
    assert_eq!(NatsTransport.name(), "nats");
    assert_eq!(BtTransport.name(), "bt");
    assert_eq!(FileTransport.name(), "file");
}

#[test]
fn stub_discovery() {
    assert!(matches!(TcpTransport.discover(), Ok(v) if v.is_empty()));
    assert!(matches!(WsTransport.discover(), Ok(v) if v.is_empty()));
    assert!(matches!(FileTransport.discover(), Ok(v) if v.is_empty()));
    assert_eq!(TailscaleTransport.discover().err().unwrap(), "Tailscale discovery not yet implemented");
    assert_eq!(MdnsTransport.discover().err().unwrap(), "mDNS discovery not yet implemented");
    assert_eq!(NatsTransport.discover().err().unwrap(), "NATS discovery not yet implemented");
    assert_eq!(BtTransport.discover().err().unwrap(), "Bluetooth discovery not yet implemented");
}

#[test]
fn clock_readings_fold_to_timestamps_and_millis() {
    assert_eq!(timestamp_of_reading(Some((1_700_000_000, 5))), Timestamp { secs: 1_700_000_000, nanos: 5 });
    assert_eq!(timestamp_of_reading(None), Timestamp::epoch());
    assert_eq!(timestamp_of_reading(Some((u64::MAX, 5))), Timestamp::epoch());
    assert_eq!(millis_of_reading(Some((2, 345_678_901))), 2_345);
    assert_eq!(millis_of_reading(None), 0);
    assert_eq!(millis_of_reading(Some((u64::MAX, 0))), u64::MAX.wrapping_mul(1000));
}

#[test]
fn clock_reads_current_time() {
    let t = now_timestamp();
    assert!(t.secs > 1_600_000_000);
    assert!(t.nanos < 1_000_000_000);
    assert!(now_millis() > 1_600_000_000_000);
}
