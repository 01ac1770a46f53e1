//! ContentStore: content-addressed storage in a `redb` database.
//!
//! Tables (all keyed and valued by raw bytes):
//!   blobs:     BLAKE3 hash  -> blob bytes
//!   documents: document id  -> encoded document metadata
//!   doc_data:  document id  -> CRDT state bytes

use vstd::prelude::*;
use redb::ReadableTable;

use crate::crypto::blake3_digest;
use crate::identity::KeyringId;
use crate::keyed_map::MapKey;
use crate::store::blob::{Blob, BlobHash};
use crate::store::document::{Document, DocumentId, DocumentMeta};

verus! {

#[verifier::external_type_specification]
#[verifier::external_body]
pub struct ExRedbDatabase(redb::Database);

#[verifier::external_type_specification]
#[verifier::external_body]
pub struct ExRedbError(redb::Error);

#[verifier::external_type_specification]
#[verifier::external_body]
pub struct ExBincodeErrorKind(bincode::ErrorKind);

/// What a `redb` database holds: for each table name and key, the value
/// stored there (tables of byte keys and byte values).
pub uninterp spec fn redb_contents(db: redb::Database) -> Map<(Seq<char>, Seq<u8>), Seq<u8>>;

/// The names of the tables a `redb` database holds.
pub uninterp spec fn redb_tables(db: redb::Database) -> Set<Seq<char>>;

/// Runs one `redb` write transaction (`begin_write`, `open_table`, `commit`)
/// that opens, and so creates if missing, the table `table`. Creating a
/// table stores no entry, so the contents are unchanged whatever happens; on
/// success the database holds the table. Transactions are atomic (redb is
/// fully ACID): when it fails, the table was created or it was not.
#[verifier::external_body]
fn redb_create_table(db: &mut redb::Database, table: &str) -> (r: Result<(), redb::Error>)
    ensures
        redb_contents(*final(db)) == redb_contents(*old(db)),
        r is Ok ==> redb_tables(*final(db)) == redb_tables(*old(db)).insert(table@),
        r is Err ==> redb_tables(*final(db)) == redb_tables(*old(db)) || redb_tables(*final(db))
            == redb_tables(*old(db)).insert(table@),
{
    let txn = db.begin_write()?;
    txn.open_table(redb::TableDefinition::<&[u8], &[u8]>::new(table))?;
    txn.commit()?;
    Ok(())
}

/// Runs one `redb` write transaction that inserts `value` under `key` in
/// `table` (`Table::insert` replaces any value there, and opening the table
/// creates it if missing) and commits. On success the database maps that key
/// to that value and is otherwise unchanged. Transactions are atomic (redb
/// is fully ACID): when it fails, the whole write happened or none of it.
#[verifier::external_body]
fn redb_insert(db: &mut redb::Database, table: &str, key: &[u8], value: &[u8]) -> (r: Result<(), redb::Error>)
    ensures
        r is Ok ==> redb_contents(*final(db)) == redb_contents(*old(db)).insert((table@, key@), value@),
        r is Ok ==> redb_tables(*final(db)) == redb_tables(*old(db)).insert(table@),
        r is Err ==> (redb_contents(*final(db)) == redb_contents(*old(db)) && redb_tables(*final(db))
            == redb_tables(*old(db))) || (redb_contents(*final(db)) == redb_contents(*old(db)).insert(
            (table@, key@),
            value@,
        ) && redb_tables(*final(db)) == redb_tables(*old(db)).insert(table@)),
{
    let txn = db.begin_write()?;
    {
        let mut t = txn.open_table(redb::TableDefinition::<&[u8], &[u8]>::new(table))?;
        t.insert(key, value)?;
    }
    txn.commit()?;
    Ok(())
}

/// Runs one `redb` write transaction that inserts `value_a` under `key` in
/// `table_a` and `value_b` under `key` in `table_b` (creating the tables if
/// missing), then commits, so both writes land together. Transactions are
/// atomic (redb is fully ACID): when it fails, both writes happened or
/// neither did.
#[verifier::external_body]
fn redb_insert_pair(
    db: &mut redb::Database,
    table_a: &str,
    table_b: &str,
    key: &[u8],
    value_a: &[u8],
    value_b: &[u8],
) -> (r: Result<(), redb::Error>)
    ensures
        r is Ok ==> redb_contents(*final(db)) == redb_contents(*old(db)).insert((table_a@, key@), value_a@).insert(
            (table_b@, key@),
            value_b@,
        ),
        r is Ok ==> redb_tables(*final(db)) == redb_tables(*old(db)).insert(table_a@).insert(table_b@),
        r is Err ==> (redb_contents(*final(db)) == redb_contents(*old(db)) && redb_tables(*final(db))
            == redb_tables(*old(db))) || (redb_contents(*final(db)) == redb_contents(*old(db)).insert(
            (table_a@, key@),
            value_a@,
        ).insert((table_b@, key@), value_b@) && redb_tables(*final(db)) == redb_tables(*old(db)).insert(
            table_a@,
        ).insert(table_b@)),
{
    let txn = db.begin_write()?;
    {
        let mut a = txn.open_table(redb::TableDefinition::<&[u8], &[u8]>::new(table_a))?;
        a.insert(key, value_a)?;
        let mut b = txn.open_table(redb::TableDefinition::<&[u8], &[u8]>::new(table_b))?;
        b.insert(key, value_b)?;
    }
    txn.commit()?;
    Ok(())
}

/// Runs one `redb` write transaction that removes `key` from `table_a` and
/// from `table_b` (creating the tables if missing), then commits. On success
/// it tells whether `table_a` held the key (`Table::remove` hands back the
/// old value), and the database has lost both entries and is otherwise
/// unchanged. Transactions are atomic (redb is fully ACID): when it fails,
/// both removals happened or neither did.
#[verifier::external_body]
fn redb_remove_pair(db: &mut redb::Database, table_a: &str, table_b: &str, key: &[u8]) -> (r: Result<bool, redb::Error>)
    ensures
        r matches Ok(existed) ==> existed == redb_contents(*old(db)).contains_key((table_a@, key@)),
        r is Ok ==> redb_contents(*final(db)) == redb_contents(*old(db)).remove((table_a@, key@)).remove(
            (table_b@, key@),
        ),
        r is Ok ==> redb_tables(*final(db)) == redb_tables(*old(db)).insert(table_a@).insert(table_b@),
        r is Err ==> (redb_contents(*final(db)) == redb_contents(*old(db)) && redb_tables(*final(db))
            == redb_tables(*old(db))) || (redb_contents(*final(db)) == redb_contents(*old(db)).remove(
            (table_a@, key@),
        ).remove((table_b@, key@)) && redb_tables(*final(db)) == redb_tables(*old(db)).insert(
            table_a@,
        ).insert(table_b@)),
{
    let txn = db.begin_write()?;
    let existed;
    {
        let mut a = txn.open_table(redb::TableDefinition::<&[u8], &[u8]>::new(table_a))?;
        existed = a.remove(key)?.is_some();
        let mut b = txn.open_table(redb::TableDefinition::<&[u8], &[u8]>::new(table_b))?;
        b.remove(key)?;
    }
    txn.commit()?;
    Ok(existed)
}

/// Runs one `redb` read transaction and looks `key` up in `table`
/// (`ReadOnlyTable::get`): on success, the value stored there, if any.
#[verifier::external_body]
fn redb_get(db: &redb::Database, table: &str, key: &[u8]) -> (r: Result<Option<Vec<u8>>, redb::Error>)
    ensures
        r matches Ok(found) ==> {
            &&& found is Some == redb_contents(*db).contains_key((table@, key@))
            &&& found matches Some(v) ==> v@ == redb_contents(*db)[(table@, key@)]
        },
{
    let txn = db.begin_read()?;
    let t = txn.open_table(redb::TableDefinition::<&[u8], &[u8]>::new(table))?;
    Ok(t.get(key)?.map(|g| g.value().to_vec()))
}

/// Runs one `redb` read transaction and walks `table` with
/// `ReadableTable::iter`: on success, every entry of the table, each key
/// once. The walk goes in key order, which the contract leaves unsaid.
#[verifier::external_body]
fn redb_entries(db: &redb::Database, table: &str) -> (r: Result<Vec<(Vec<u8>, Vec<u8>)>, redb::Error>)
    ensures
        r matches Ok(es) ==> lists_table(es@, table_of(redb_contents(*db), table@)),
{
    let txn = db.begin_read()?;
    let t = txn.open_table(redb::TableDefinition::<&[u8], &[u8]>::new(table))?;
    let it = t.iter()?.map(|e| e.map(|(k, v)| (k.value().to_vec(), v.value().to_vec())));
    it.collect::<Result<Vec<_>, redb::StorageError>>().map_err(redb::Error::from)
}

/// `es` lists the entries of `t`: every listed pair is an entry, every key
/// of `t` is listed, and no key is listed twice.
pub open spec fn lists_table(es: Seq<(Vec<u8>, Vec<u8>)>, t: Map<Seq<u8>, Seq<u8>>) -> bool {
    &&& forall|i: int| 0 <= i < es.len() ==> #[trigger] t.contains_key(es[i].0@) && t[es[i].0@] == es[i].1@
    &&& forall|k: Seq<u8>| #[trigger] t.contains_key(k) ==> exists|i: int| 0 <= i < es.len() && es[i].0@ == k
    &&& forall|i: int, j: int| 0 <= i < es.len() && 0 <= j < es.len() && i != j ==> es[i].0@ != es[j].0@
}

/// The name of the blob table.
pub open spec fn blobs_table() -> Seq<char> {
    "blobs"@
}

/// The name of the document metadata table.
pub open spec fn documents_table() -> Seq<char> {
    "documents"@
}

/// The name of the document data table.
pub open spec fn doc_data_table() -> Seq<char> {
    "doc_data"@
}

/// The entries of table `name` in database contents `m`.
pub open spec fn table_of(m: Map<(Seq<char>, Seq<u8>), Seq<u8>>, name: Seq<char>) -> Map<Seq<u8>, Seq<u8>> {
    Map::new(|k: Seq<u8>| m.contains_key((name, k)), |k: Seq<u8>| m[(name, k)])
}

proof fn lemma_table_names_distinct()
    ensures
        blobs_table() != documents_table(),
        blobs_table() != doc_data_table(),
        documents_table() != doc_data_table(),
{
    reveal_strlit("blobs");
    reveal_strlit("documents");
    reveal_strlit("doc_data");
    assert(blobs_table().len() != documents_table().len());
    assert(blobs_table()[0] != doc_data_table()[0]);
    assert(documents_table().len() != doc_data_table().len());
}

proof fn lemma_table_insert(m: Map<(Seq<char>, Seq<u8>), Seq<u8>>, t: Seq<char>, k: Seq<u8>, v: Seq<u8>, other: Seq<char>)
    ensures
        table_of(m.insert((t, k), v), t) == table_of(m, t).insert(k, v),
        other != t ==> table_of(m.insert((t, k), v), other) == table_of(m, other),
{
    assert(table_of(m.insert((t, k), v), t) =~= table_of(m, t).insert(k, v));
    if other != t {
        assert(table_of(m.insert((t, k), v), other) =~= table_of(m, other));
    }
}

proof fn lemma_table_remove(m: Map<(Seq<char>, Seq<u8>), Seq<u8>>, t: Seq<char>, k: Seq<u8>, other: Seq<char>)
    ensures
        table_of(m.remove((t, k)), t) == table_of(m, t).remove(k),
        other != t ==> table_of(m.remove((t, k)), other) == table_of(m, other),
{
    assert(table_of(m.remove((t, k)), t) =~= table_of(m, t).remove(k));
    if other != t {
        assert(table_of(m.remove((t, k)), other) =~= table_of(m, other));
    }
}

/// Whether a document's metadata places it in `keyring`.
pub open spec fn in_keyring(keyring: KeyringId) -> spec_fn(DocumentMeta) -> bool {
    |m: DocumentMeta| m.keyring == keyring
}

/// Errors of the content store.
#[derive(Debug)]
pub enum StoreError {
    /// The database reported an error.
    Database(redb::Error),
    /// A blob's hash is not the content address of its data.
    NotIntact,
    /// A document id could not be encoded.
    Encoding(Box<bincode::ErrorKind>),
}

/// Every stored blob sits under the content address of its bytes.
pub open spec fn blobs_addressed(blobs: Map<Seq<u8>, Seq<u8>>) -> bool {
    forall|h: Seq<u8>| #[trigger] blobs.contains_key(h) ==> blake3_digest(blobs[h]) == h
}

/// The store's key of a document: the document id as the store has always
/// encoded it (bincode's encoding of a UUID: its length, 16, as a
/// little-endian 64-bit integer, then its 16 bytes).
pub open spec fn document_key_bytes(id: DocumentId) -> Seq<u8> {
    seq![16u8, 0u8, 0u8, 0u8, 0u8, 0u8, 0u8, 0u8] + id.0@
}

/// Calls `bincode::serialize` (fixed-width integers) on the UUID whose bytes
/// are `id`, as a document id is serialized. A UUID serializes as a byte
/// string when the format is not human-readable, and bincode writes a byte
/// string as its length, a little-endian `u64`, then the bytes; so the
/// encoding, where there is one, is the 8-byte length 16 and then `id`.
#[verifier::external_body]
fn encode_uuid(id: &[u8; 16]) -> (r: Result<Vec<u8>, Box<bincode::ErrorKind>>)
    ensures
        r matches Ok(v) ==> v@ == seq![16u8, 0u8, 0u8, 0u8, 0u8, 0u8, 0u8, 0u8] + id@,
{
    bincode::serialize(&uuid::Uuid::from_bytes(*id))
}

/// The store's key of a document: its id, encoded by bincode.
pub fn document_key(id: &DocumentId) -> (r: Result<Vec<u8>, StoreError>)
    ensures
        r matches Ok(k) ==> k@ == document_key_bytes(*id),
        r matches Err(e) ==> e is Encoding,
{
    match encode_uuid(&id.0) {
        Ok(k) => Ok(k),
        Err(e) => Err(StoreError::Encoding(e)),
    }
}

/// A document as the store keeps it: its encoded metadata and its CRDT state.
pub struct StoredDocument {
    pub meta_bytes: Vec<u8>,
    pub crdt_state: Vec<u8>,
}

/// Content-addressed storage over a `redb` database.
pub struct ContentStore {
    db: redb::Database,
}

impl ContentStore {
    /// Everything the database holds.
    pub closed spec fn contents(&self) -> Map<(Seq<char>, Seq<u8>), Seq<u8>> {
        redb_contents(self.db)
    }

    /// The names of the database's tables.
    pub closed spec fn tables(&self) -> Set<Seq<char>> {
        redb_tables(self.db)
    }

    /// The database holds the store's three tables.
    pub open spec fn has_tables(&self) -> bool {
        &&& self.tables().contains(blobs_table())
        &&& self.tables().contains(documents_table())
        &&& self.tables().contains(doc_data_table())
    }

    /// Stored blobs: content address to bytes.
    pub open spec fn blobs(&self) -> Map<Seq<u8>, Seq<u8>> {
        table_of(self.contents(), blobs_table())
    }

    /// Stored document metadata: document id to encoded metadata.
    pub open spec fn documents(&self) -> Map<Seq<u8>, Seq<u8>> {
        table_of(self.contents(), documents_table())
    }

    /// Stored document data: document id to CRDT state.
    pub open spec fn doc_data(&self) -> Map<Seq<u8>, Seq<u8>> {
        table_of(self.contents(), doc_data_table())
    }

    /// Opens a content store over `db`, creating its tables where they are
    /// missing. The store holds what the database held, and has its tables.
    pub fn open(db: redb::Database) -> (r: Result<Self, StoreError>)
        ensures
            r matches Ok(s) ==> {
                &&& s.contents() == redb_contents(db)
                &&& s.tables() == redb_tables(db).insert(blobs_table()).insert(documents_table()).insert(
                    doc_data_table(),
                )
                &&& s.has_tables()
            },
    {
        let mut db = db;
        if let Err(e) = redb_create_table(&mut db, "blobs") {
            return Err(StoreError::Database(e));
        }
        if let Err(e) = redb_create_table(&mut db, "documents") {
            return Err(StoreError::Database(e));
        }
        if let Err(e) = redb_create_table(&mut db, "doc_data") {
            return Err(StoreError::Database(e));
        }
        Ok(ContentStore { db })
    }

    /// Stores a blob under its content address; storing the same content
    /// again changes nothing. A blob whose hash is not the address of its data
    /// is refused, and nothing is stored. A failed database write stored the
    /// blob or did not; either way the other tables are untouched.
    pub fn put_blob(&mut self, blob: &Blob) -> (r: Result<(), StoreError>)
        ensures
            !blob.is_intact() ==> (r matches Err(StoreError::NotIntact)) && final(self).contents() == old(self).contents()
                && final(self).tables() == old(self).tables(),
            r matches Err(StoreError::NotIntact) ==> !blob.is_intact(),
            r is Ok ==> {
                &&& blob.is_intact()
                &&& final(self).blobs() == old(self).blobs().insert(blob.hash.0@, blob.data@)
                &&& final(self).documents() == old(self).documents()
                &&& final(self).doc_data() == old(self).doc_data()
            },
            r matches Err(StoreError::Database(_)) ==> {
                &&& blob.is_intact()
                &&& final(self).blobs() == old(self).blobs() || final(self).blobs() == old(self).blobs().insert(
                    blob.hash.0@,
                    blob.data@,
                )
                &&& final(self).documents() == old(self).documents()
                &&& final(self).doc_data() == old(self).doc_data()
            },
            blobs_addressed(old(self).blobs()) ==> blobs_addressed(final(self).blobs()),
            old(self).has_tables() ==> final(self).has_tables(),
    {
        if !blob.verify() {
            return Err(StoreError::NotIntact);
        }
        let ghost m = redb_contents(self.db);
        let ghost m2 = m.insert((blobs_table(), blob.hash.0@), blob.data@);
        proof {
            lemma_table_names_distinct();
            lemma_table_insert(m, blobs_table(), blob.hash.0@, blob.data@, documents_table());
            lemma_table_insert(m, blobs_table(), blob.hash.0@, blob.data@, doc_data_table());
            lemma_table_insert(m, blobs_table(), blob.hash.0@, blob.data@, blobs_table());
            if blobs_addressed(table_of(m, blobs_table())) {
                law_put_blob_keeps_store_addressed(table_of(m, blobs_table()), blob.hash.0@, blob.data@);
            }
        }
        match redb_insert(&mut self.db, "blobs", blob.hash.as_bytes().as_slice(), blob.data.as_slice()) {
            Ok(()) => Ok(()),
            Err(e) => Err(StoreError::Database(e)),
        }
    }

    /// Retrieves a blob by its content address.
    pub fn get_blob(&self, hash: &BlobHash) -> (r: Result<Option<Vec<u8>>, StoreError>)
        ensures
            r matches Ok(found) ==> {
                &&& found is Some == self.blobs().contains_key(hash.0@)
                &&& found matches Some(v) ==> v@ == self.blobs()[hash.0@]
            },
    {
        match redb_get(&self.db, "blobs", hash.as_bytes().as_slice()) {
            Ok(found) => Ok(found),
            Err(e) => Err(StoreError::Database(e)),
        }
    }

    /// Whether a blob with this content address is stored.
    pub fn has_blob(&self, hash: &BlobHash) -> (r: Result<bool, StoreError>)
        ensures
            r matches Ok(b) ==> b == self.blobs().contains_key(hash.0@),
    {
        match redb_get(&self.db, "blobs", hash.as_bytes().as_slice()) {
            Ok(found) => Ok(found.is_some()),
            Err(e) => Err(StoreError::Database(e)),
        }
    }

    /// Stores a document: its encoded metadata and its CRDT state, together,
    /// under the document's key. A failed database write stored both or
    /// neither; blobs are untouched either way.
    pub fn put_document(&mut self, doc: &Document, meta_bytes: &[u8]) -> (r: Result<(), StoreError>)
        ensures
            r is Ok ==> {
                &&& final(self).documents() == old(self).documents().insert(document_key_bytes(doc.meta.id), meta_bytes@)
                &&& final(self).doc_data() == old(self).doc_data().insert(document_key_bytes(doc.meta.id), doc.crdt_state@)
            },
            r is Err ==> {
                ||| final(self).documents() == old(self).documents() && final(self).doc_data() == old(self).doc_data()
                ||| final(self).documents() == old(self).documents().insert(document_key_bytes(doc.meta.id), meta_bytes@)
                    && final(self).doc_data() == old(self).doc_data().insert(document_key_bytes(doc.meta.id), doc.crdt_state@)
            },
            final(self).blobs() == old(self).blobs(),
            old(self).has_tables() ==> final(self).has_tables(),
    {
        let ghost m = redb_contents(self.db);
        let key_bytes = match document_key(&doc.meta.id) {
            Ok(k) => k,
            Err(e) => return Err(e),
        };
        let key: &[u8] = key_bytes.as_slice();
        proof {
            let k = document_key_bytes(doc.meta.id);
            let m1 = m.insert((documents_table(), k), meta_bytes@);
            lemma_table_names_distinct();
            lemma_table_insert(m, documents_table(), k, meta_bytes@, documents_table());
            lemma_table_insert(m, documents_table(), k, meta_bytes@, doc_data_table());
            lemma_table_insert(m, documents_table(), k, meta_bytes@, blobs_table());
            lemma_table_insert(m1, doc_data_table(), k, doc.crdt_state@, doc_data_table());
            lemma_table_insert(m1, doc_data_table(), k, doc.crdt_state@, documents_table());
            lemma_table_insert(m1, doc_data_table(), k, doc.crdt_state@, blobs_table());
        }
        match redb_insert_pair(&mut self.db, "documents", "doc_data", key, meta_bytes, doc.crdt_state.as_slice()) {
            Ok(()) => Ok(()),
            Err(e) => Err(StoreError::Database(e)),
        }
    }

    /// Retrieves a document by id: its encoded metadata, and its CRDT state
    /// (empty when none is stored).
    pub fn get_document(&self, id: &DocumentId) -> (r: Result<Option<StoredDocument>, StoreError>)
        ensures
            r matches Ok(found) ==> {
                &&& found is Some == self.documents().contains_key(document_key_bytes(*id))
                &&& found matches Some(d) ==> {
                    &&& d.meta_bytes@ == self.documents()[document_key_bytes(*id)]
                    &&& d.crdt_state@ == if self.doc_data().contains_key(document_key_bytes(*id)) {
                        self.doc_data()[document_key_bytes(*id)]
                    } else {
                        Seq::<u8>::empty()
                    }
                }
            },
    {
        let key_bytes = match document_key(id) {
            Ok(k) => k,
            Err(e) => return Err(e),
        };
        let key: &[u8] = key_bytes.as_slice();
        let meta_bytes = match redb_get(&self.db, "documents", key) {
            Ok(Some(m)) => m,
            Ok(None) => return Ok(None),
            Err(e) => return Err(StoreError::Database(e)),
        };
        let crdt_state = match redb_get(&self.db, "doc_data", key) {
            Ok(Some(d)) => d,
            Ok(None) => Vec::new(),
            Err(e) => return Err(StoreError::Database(e)),
        };
        Ok(Some(StoredDocument { meta_bytes, crdt_state }))
    }

    /// Every stored document's id bytes and encoded metadata, each once.
    pub fn document_records(&self) -> (r: Result<Vec<(Vec<u8>, Vec<u8>)>, StoreError>)
        ensures
            r matches Ok(es) ==> lists_table(es@, self.documents()),
    {
        match redb_entries(&self.db, "documents") {
            Ok(es) => {
                Ok(es)
            },
            Err(e) => Err(StoreError::Database(e)),
        }
    }

    /// The documents among `metas` that belong to `keyring`, in their order.
    pub fn list_documents(metas: Vec<DocumentMeta>, keyring: &KeyringId) -> (r: Vec<DocumentMeta>)
        ensures
            r@ == metas@.filter(in_keyring(*keyring)),
    {
        let ghost orig = metas@;
        let mut rest = metas;
        let mut out: Vec<DocumentMeta> = Vec::new();
        let mut j: usize = 0;
        let total = rest.len();
        proof {
            assert(orig.take(0) =~= Seq::<DocumentMeta>::empty());
            assert(orig.skip(0) =~= orig);
        }
        while rest.len() > 0
            invariant
                j <= orig.len(),
                orig.len() <= usize::MAX,
                j + rest@.len() == orig.len(),
                rest@ == orig.skip(j as int),
                out@ == orig.take(j as int).filter(in_keyring(*keyring)),
            decreases rest.len(),
        {
            let m = rest.remove(0);
            proof {
                assert(m == orig[j as int]);
                assert(orig.take(j as int + 1).drop_last() =~= orig.take(j as int));
                assert(orig.take(j as int + 1).last() == m);
                assert(orig.skip(j as int).drop_first() =~= orig.skip(j as int + 1));
            }
            let ghost prev = out@;
            let ghost gm = m;
            let keep = m.keyring.key_eq(keyring);
            assert(keep == (m.keyring == *keyring));
            assert(keep == in_keyring(*keyring)(m));
            if keep {
                out.push(m);
            }
            proof {
                let t = orig.take(j as int + 1);
                assert(t.len() > 0);
                reveal_with_fuel(Seq::<DocumentMeta>::filter, 1);
                assert(t.filter(in_keyring(*keyring)) == (if in_keyring(*keyring)(t.last()) {
                    t.drop_last().filter(in_keyring(*keyring)).push(t.last())
                } else {
                    t.drop_last().filter(in_keyring(*keyring))
                }));
                assert(t.drop_last() =~= orig.take(j as int));
                assert(t.drop_last().filter(in_keyring(*keyring)) == prev);
                assert(t.last() == gm);
                if keep {
                    assert(out@ =~= prev.push(gm));
                } else {
                    assert(out@ =~= prev);
                }
                assert(out@ =~= t.filter(in_keyring(*keyring)));
            }
            j = j + 1;
        }
        proof {
            assert(orig.take(j as int) =~= orig);
        }
        out
    }

    /// Deletes a document (metadata and data). Tells whether it existed. A
    /// failed database write removed both or neither; blobs are untouched
    /// either way.
    pub fn delete_document(&mut self, id: &DocumentId) -> (r: Result<bool, StoreError>)
        ensures
            r matches Ok(existed) ==> existed == old(self).documents().contains_key(document_key_bytes(*id)),
            r is Ok ==> {
                &&& final(self).documents() == old(self).documents().remove(document_key_bytes(*id))
                &&& final(self).doc_data() == old(self).doc_data().remove(document_key_bytes(*id))
            },
            r is Err ==> {
                ||| final(self).documents() == old(self).documents() && final(self).doc_data() == old(self).doc_data()
                ||| final(self).documents() == old(self).documents().remove(document_key_bytes(*id))
                    && final(self).doc_data() == old(self).doc_data().remove(document_key_bytes(*id))
            },
            final(self).blobs() == old(self).blobs(),
            old(self).has_tables() ==> final(self).has_tables(),
    {
        let ghost m = redb_contents(self.db);
        let key_bytes = match document_key(id) {
            Ok(k) => k,
            Err(e) => return Err(e),
        };
        let key: &[u8] = key_bytes.as_slice();
        proof {
            let k = document_key_bytes(*id);
            let m1 = m.remove((documents_table(), k));
            lemma_table_names_distinct();
            lemma_table_remove(m, documents_table(), k, documents_table());
            lemma_table_remove(m, documents_table(), k, doc_data_table());
            lemma_table_remove(m, documents_table(), k, blobs_table());
            lemma_table_remove(m1, doc_data_table(), k, doc_data_table());
            lemma_table_remove(m1, doc_data_table(), k, documents_table());
            lemma_table_remove(m1, doc_data_table(), k, blobs_table());
        }
        match redb_remove_pair(&mut self.db, "documents", "doc_data", key) {
            Ok(existed) => Ok(existed),
            Err(e) => Err(StoreError::Database(e)),
        }
    }
}

/// Read after write: once `put_blob` has stored `data` under `hash`, the
/// store holds exactly `data` there, and every other blob is as it was.
pub proof fn law_blob_read_after_write(blobs: Map<Seq<u8>, Seq<u8>>, hash: Seq<u8>, data: Seq<u8>, other: Seq<u8>)
    ensures
        blobs.insert(hash, data).contains_key(hash),
        blobs.insert(hash, data)[hash] == data,
        other != hash ==> blobs.insert(hash, data).contains_key(other) == blobs.contains_key(other),
        other != hash && blobs.contains_key(other) ==> blobs.insert(hash, data)[other] == blobs[other],
{
}

/// The blob table after the writes `ws` (each a content address and the
/// bytes written there), made in order on `blobs`.
pub open spec fn after_blob_writes(blobs: Map<Seq<u8>, Seq<u8>>, ws: Seq<(Seq<u8>, Seq<u8>)>) -> Map<
    Seq<u8>,
    Seq<u8>,
>
    decreases ws.len(),
{
    if ws.len() == 0 {
        blobs
    } else {
        after_blob_writes(blobs, ws.drop_last()).insert(ws.last().0, ws.last().1)
    }
}

/// Read after writes: after a run of blob writes, the blob of any write in
/// the run is read back as that write stored it, so long as no later write
/// in the run used its content address.
pub proof fn law_blob_read_after_writes(blobs: Map<Seq<u8>, Seq<u8>>, ws: Seq<(Seq<u8>, Seq<u8>)>, i: int)
    requires
        0 <= i < ws.len(),
        forall|j: int| i < j < ws.len() ==> (#[trigger] ws[j]).0 != ws[i].0,
    ensures
        after_blob_writes(blobs, ws).contains_key(ws[i].0),
        after_blob_writes(blobs, ws)[ws[i].0] == ws[i].1,
    decreases ws.len(),
{
    if i < ws.len() - 1 {
        let rest = ws.drop_last();
        assert forall|j: int| i < j < rest.len() implies (#[trigger] rest[j]).0 != rest[i].0 by {
            assert(rest[j] == ws[j]);
        }
        law_blob_read_after_writes(blobs, rest, i);
        assert(rest[i] == ws[i]);
        assert(ws.last() == ws[ws.len() - 1]);
    }
}

/// A content address that no write of a run used reads after the run as it
/// read before it: on a new, empty store, it is not found.
pub proof fn law_blob_unwritten_unchanged(blobs: Map<Seq<u8>, Seq<u8>>, ws: Seq<(Seq<u8>, Seq<u8>)>, hash: Seq<u8>)
    requires
        forall|j: int| 0 <= j < ws.len() ==> (#[trigger] ws[j]).0 != hash,
    ensures
        after_blob_writes(blobs, ws).contains_key(hash) == blobs.contains_key(hash),
        blobs.contains_key(hash) ==> after_blob_writes(blobs, ws)[hash] == blobs[hash],
    decreases ws.len(),
{
    if ws.len() > 0 {
        let rest = ws.drop_last();
        assert forall|j: int| 0 <= j < rest.len() implies (#[trigger] rest[j]).0 != hash by {
            assert(rest[j] == ws[j]);
        }
        law_blob_unwritten_unchanged(blobs, rest, hash);
        assert(ws.last() == ws[ws.len() - 1]);
    }
}

/// A run of writes made by `put_blob`, each of a content address and its
/// own bytes, keeps a content-addressed store content-addressed.
pub proof fn law_blob_writes_keep_store_addressed(blobs: Map<Seq<u8>, Seq<u8>>, ws: Seq<(Seq<u8>, Seq<u8>)>)
    requires
        blobs_addressed(blobs),
        forall|j: int| 0 <= j < ws.len() ==> blake3_digest((#[trigger] ws[j]).1) == ws[j].0,
    ensures
        blobs_addressed(after_blob_writes(blobs, ws)),
    decreases ws.len(),
{
    if ws.len() > 0 {
        let rest = ws.drop_last();
        assert forall|j: int| 0 <= j < rest.len() implies blake3_digest((#[trigger] rest[j]).1) == rest[j].0 by {
            assert(rest[j] == ws[j]);
        }
        law_blob_writes_keep_store_addressed(blobs, rest);
        assert(ws.last() == ws[ws.len() - 1]);
        law_put_blob_keeps_store_addressed(after_blob_writes(blobs, rest), ws.last().0, ws.last().1);
    }
}

/// Storing a blob keeps a content-addressed store content-addressed.
pub proof fn law_put_blob_keeps_store_addressed(blobs: Map<Seq<u8>, Seq<u8>>, hash: Seq<u8>, data: Seq<u8>)
    requires
        blobs_addressed(blobs),
        blake3_digest(data) == hash,
    ensures
        blobs_addressed(blobs.insert(hash, data)),
{
}

/// Storing a blob that is already stored, with the same bytes, changes nothing.
pub proof fn law_blob_put_again_changes_nothing(blobs: Map<Seq<u8>, Seq<u8>>, hash: Seq<u8>, data: Seq<u8>)
    requires
        blobs.contains_key(hash),
        blobs[hash] == data,
    ensures
        blobs.insert(hash, data) == blobs,
{
    assert(blobs.insert(hash, data) =~= blobs);
}

/// Storing the same blob twice leaves the store as storing it once does.
pub proof fn law_blob_put_idempotent(blobs: Map<Seq<u8>, Seq<u8>>, hash: Seq<u8>, data: Seq<u8>)
    ensures
        blobs.insert(hash, data).insert(hash, data) == blobs.insert(hash, data),
{
    assert(blobs.insert(hash, data).insert(hash, data) =~= blobs.insert(hash, data));
}

/// Read after write for documents: once `put_document` has stored a
/// document, its metadata and its data are found as written, and other
/// documents are as they were.
pub proof fn law_document_read_after_write(
    docs: Map<Seq<u8>, Seq<u8>>,
    data: Map<Seq<u8>, Seq<u8>>,
    id: Seq<u8>,
    meta: Seq<u8>,
    state: Seq<u8>,
    other: Seq<u8>,
)
    ensures
        docs.insert(id, meta)[id] == meta,
        data.insert(id, state)[id] == state,
        other != id ==> docs.insert(id, meta).contains_key(other) == docs.contains_key(other),
        other != id && docs.contains_key(other) ==> docs.insert(id, meta)[other] == docs[other],
{
}

/// Read after delete: once `delete_document` has removed a document, neither
/// its metadata nor its data is found, and other documents are as they were.
pub proof fn law_document_gone_after_delete(docs: Map<Seq<u8>, Seq<u8>>, id: Seq<u8>, other: Seq<u8>)
    ensures
        !docs.remove(id).contains_key(id),
        other != id ==> docs.remove(id).contains_key(other) == docs.contains_key(other),
        other != id && docs.contains_key(other) ==> docs.remove(id)[other] == docs[other],
{
}

} // verus!
