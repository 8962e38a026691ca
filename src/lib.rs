//! A catalog of uploaded documents: type classification, text extraction,
//! an index of file records, and assembly of bounded context blocks.

pub mod chunk;
pub mod classify;
pub mod extract;
pub mod ingest;
pub mod storage;
pub mod text;
