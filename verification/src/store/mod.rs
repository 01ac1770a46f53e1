//! Content-addressed storage: BLAKE3-addressed blobs, documents, and the
//! `redb`-backed content store.

pub mod blob;
pub mod content_store;
pub mod document;

pub use blob::{Blob, BlobHash};
pub use content_store::ContentStore;
pub use document::{Document, DocumentId, DocumentMeta, DocumentType};
