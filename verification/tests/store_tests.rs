use keyring::identity::{KeyringId, NodeId};
use keyring::store::content_store::{document_key, StoreError};
use keyring::store::{Blob, BlobHash, ContentStore, Document, DocumentId, DocumentMeta, DocumentType};

fn memory_store() -> ContentStore {
    let db = redb::Builder::new()
        .create_with_backend(redb::backends::InMemoryBackend::new())
        .unwrap();
    match ContentStore::open(db) {
        Ok(s) => s,
        Err(StoreError::Database(e)) => panic!("open failed: {e}"),
        Err(StoreError::NotIntact) => panic!("open cannot refuse a blob"),
        Err(StoreError::Encoding(e)) => panic!("open encodes nothing: {e}"),
    }
}

fn hex(b: &[u8]) -> String {
    b.iter().map(|x| format!("{:02x}", x)).collect()
}

#[test]
fn blob_hash_is_blake3() {
    assert_eq!(
        hex(&BlobHash::compute(b"").0),
        "af1349b9f5f9a1a6a0404dea36dcc9499bcb25c9adc112b7cc9a93cae41f3262"
    );
    assert_eq!(
        BlobHash::compute(b"abc").to_hex(),
        "6437b3ac38465133ffb63b75273a8db548c558465d79db03fd359c6cd5bd9d85"
    );
    assert_eq!(BlobHash::compute(b"abc").short(), "6437b3ac38465133");
}

#[test]
fn blob_hash_bytes_round_trip() {
    let h = BlobHash::from_bytes([5u8; 32]);
    assert_eq!(h.as_bytes(), &[5u8; 32]);
}

#[test]
fn new_blob_verifies_and_tampered_blob_does_not() {
    let author = NodeId([3u8; 32]);
    let blob = Blob::new(b"payload".to_vec(), author);
    assert_eq!(blob.size, 7);
    assert_eq!(blob.author, author);
    assert_eq!(blob.hash, BlobHash::compute(b"payload"));
    assert!(blob.verify());
    let mut bad = blob.clone();
    bad.data[0] ^= 1;
    assert!(!bad.verify());
}

#[test]
fn new_documents_hold_their_value() {
    let ring = KeyringId::system();
    let author = NodeId([4u8; 32]);
    let reg = Document::new_register(ring, author, b"on");
    assert_eq!(reg.meta.doc_type, DocumentType::Register);
    assert_eq!(reg.meta.keyring, ring);
    assert_eq!(reg.meta.author, author);
    assert_eq!(reg.meta.size, 2);
    assert_eq!(reg.crdt_state, b"on".to_vec());
    assert!(reg.meta.tags.is_empty());
    assert!(reg.meta.metadata.is_empty());
    assert_eq!(reg.meta.created_at, reg.meta.updated_at);
    let ev = Document::new_event(ring, author, b"boot");
    assert_eq!(ev.meta.doc_type, DocumentType::Event);
    assert_ne!(ev.meta.id, reg.meta.id);
    assert_eq!(ev.meta.id.0[6] & 0xf0, 0x40);
    assert_eq!(DocumentId::new().to_text().len(), 36);
}

#[test]
fn store_blob_read_after_write() {
    let mut store = memory_store();
    let blob = Blob::new(b"hello".to_vec(), NodeId([1u8; 32]));
    assert!(matches!(store.has_blob(&blob.hash), Ok(false)));
    assert!(matches!(store.get_blob(&blob.hash), Ok(None)));
    assert!(store.put_blob(&blob).is_ok());
    assert!(matches!(store.has_blob(&blob.hash), Ok(true)));
    match store.get_blob(&blob.hash) {
        Ok(Some(data)) => assert_eq!(data, b"hello".to_vec()),
        _ => panic!("blob missing"),
    }
    assert!(store.put_blob(&blob).is_ok());
    assert!(matches!(store.get_blob(&blob.hash), Ok(Some(_))));
}

#[test]
fn store_blob_reads_back_after_a_run_of_writes() {
    let mut store = memory_store();
    let author = NodeId([1u8; 32]);
    let first = Blob::new(b"first".to_vec(), author);
    let second = Blob::new(b"second".to_vec(), author);
    let third = Blob::new(b"third".to_vec(), author);
    assert!(store.put_blob(&first).is_ok());
    assert!(store.put_blob(&second).is_ok());
    assert!(store.put_blob(&third).is_ok());
    assert!(store.put_blob(&second).is_ok());
    match store.get_blob(&first.hash) {
        Ok(Some(data)) => assert_eq!(data, b"first".to_vec()),
        _ => panic!("first blob missing"),
    }
    match store.get_blob(&second.hash) {
        Ok(Some(data)) => assert_eq!(data, b"second".to_vec()),
        _ => panic!("second blob missing"),
    }
    assert!(matches!(store.get_blob(&BlobHash::compute(b"never written")), Ok(None)));
}

#[test]
fn store_document_put_get_delete() {
    let mut store = memory_store();
    let doc = Document::new_register(KeyringId::system(), NodeId([1u8; 32]), b"state");
    assert!(matches!(store.get_document(&doc.meta.id), Ok(None)));
    assert!(store.put_document(&doc, b"meta-bytes").is_ok());
    match store.get_document(&doc.meta.id) {
        Ok(Some(d)) => {
            assert_eq!(d.meta_bytes, b"meta-bytes".to_vec());
            assert_eq!(d.crdt_state, b"state".to_vec());
        }
        _ => panic!("document missing"),
    }
    assert!(matches!(store.delete_document(&doc.meta.id), Ok(true)));
    assert!(matches!(store.get_document(&doc.meta.id), Ok(None)));
    assert!(matches!(store.delete_document(&doc.meta.id), Ok(false)));
}

#[test]
fn store_document_records_list_every_document_once() {
    let mut store = memory_store();
    let a = Document::new_event(KeyringId::system(), NodeId([1u8; 32]), b"a");
    let b = Document::new_event(KeyringId::system(), NodeId([1u8; 32]), b"b");
    assert!(store.put_document(&a, b"A").is_ok());
    assert!(store.put_document(&b, b"B").is_ok());
    assert!(store.put_document(&a, b"A2").is_ok());
    let recs = match store.document_records() {
        Ok(r) => r,
        Err(_) => panic!("listing failed"),
    };
    assert_eq!(recs.len(), 2);
    assert!(recs.contains(&(document_key(&a.meta.id).unwrap(), b"A2".to_vec())));
    assert!(recs.contains(&(document_key(&b.meta.id).unwrap(), b"B".to_vec())));
}

#[test]
fn documents_and_blobs_live_in_separate_tables() {
    let mut store = memory_store();
    let doc = Document::new_register(KeyringId::system(), NodeId([1u8; 32]), b"x");
    assert!(store.put_document(&doc, b"m").is_ok());
    let as_hash = BlobHash::from_bytes({
        let mut h = [0u8; 32];
        h[..16].copy_from_slice(&doc.meta.id.0);
        h
    });
    assert!(matches!(store.has_blob(&as_hash), Ok(false)));
}

fn meta_in(keyring: KeyringId, tag: &str) -> DocumentMeta {
    let mut d = Document::new_event(keyring, NodeId([2u8; 32]), b"p").meta;
    d.tags.push(tag.to_string());
    d
}

#[test]
fn list_documents_keeps_only_the_keyring_in_order() {
    let sys = KeyringId::system();
    let other = KeyringId::new();
    let metas = vec![meta_in(sys, "1"), meta_in(other, "2"), meta_in(sys, "3")];
    let listed = ContentStore::list_documents(metas, &sys);
    let tags: Vec<&str> = listed.iter().map(|m| m.tags[0].as_str()).collect();
    assert_eq!(tags, vec!["1", "3"]);
    assert!(ContentStore::list_documents(vec![meta_in(other, "x")], &sys).is_empty());
}

#[test]
fn store_refuses_blob_that_is_not_intact() {
    let mut store = memory_store();
    let mut blob = Blob::new(b"real".to_vec(), NodeId([1u8; 32]));
    blob.data = b"fake".to_vec();
    assert!(matches!(store.put_blob(&blob), Err(StoreError::NotIntact)));
    assert!(matches!(store.has_blob(&blob.hash), Ok(false)));
    let fake_hash = BlobHash::compute(b"fake");
    assert!(matches!(store.has_blob(&fake_hash), Ok(false)));
}

#[test]
fn document_key_is_length_prefixed_uuid() {
    let id = DocumentId([0xab; 16]);
    let k = document_key(&id).unwrap();
    assert_eq!(k.len(), 24);
    assert_eq!(&k[..8], &[16, 0, 0, 0, 0, 0, 0, 0]);
    assert_eq!(&k[8..], &[0xab; 16]);
    assert_eq!(k, bincode_like(&id.0));
}

fn bincode_like(b: &[u8; 16]) -> Vec<u8> {
    let mut v = (16u64).to_le_bytes().to_vec();
    v.extend_from_slice(b);
    v
}

#[test]
fn new_blob_creation_time_is_valid() {
    let blob = Blob::new(vec![1], NodeId([1u8; 32]));
    assert!(blob.created.nanos < 1_000_000_000);
    assert!(blob.created.secs > 1_600_000_000);
}
