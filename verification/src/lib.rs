//! Ingestion of mail from IMAP accounts: decoding of fetched messages,
//! the per-account cursor, and the decisions of the ingestion loop.

pub mod text;
pub mod encoded_word;
pub mod base64;
pub mod codecs;
pub mod markup;
pub mod parsers;
pub mod store;
pub mod queue;
pub mod ingest;
pub mod cycle;
pub mod session;
pub mod config;
