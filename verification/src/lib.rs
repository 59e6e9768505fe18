//! A typed, verified access layer over a schemaless document store.
//!
//! The crate models the document method layer of such a store: value types
//! for document identity and revision, a structured content representation
//! with a canonical wire encoding, one method object per operation (insert,
//! batch insert, get, replace, update), and an in-memory store that realizes
//! the execution capability the method objects are dispatched against.

pub mod document;
pub mod error;
pub mod ident;
pub mod laws;
pub mod methods;
pub mod store;
pub mod value;
pub mod wire;

pub use document::{
    Content, Document, DocumentUpdate, JsonString, NewDocument, Representation, UpdatedDocument,
};
pub use error::{Error, ErrorCode, MethodError};
pub use ident::{DocumentHeader, DocumentId, DocumentKey, Revision};
pub use methods::{
    GetDocument, InsertDocument, InsertDocumentReturnNew, InsertDocuments,
    InsertDocumentsReturnNew, ReplaceDocument, UpdateDocument,
};
pub use store::Store;
pub use value::{Field, Value};
