//! Streaming decoder for concatenated patent grant records.
//!
//! The input is a run of pseudo-documents, each with its own XML declaration
//! and doctype. `event` turns bytes into plain lexical events, `data` holds
//! the record types, `decode` is the assembler that applies one event at a
//! time, `grants` reads record heads and hands out one record per call, and
//! `laws` states what holds of every stream of events.
pub mod data;
pub mod decode;
pub mod error;
pub mod event;
pub mod grants;
pub mod laws;
pub mod text;

pub use data::{
    BibliographicDataGrant, ClassificationLocarno, ClassificationNational, DocumentId, PatentGrant,
};
pub use error::{DeserError, ErrorKind};
pub use grants::PatentGrants;
pub use decode::consume_start;
pub use event::{element_name, tokenize, EventKind, XmlEvent};
