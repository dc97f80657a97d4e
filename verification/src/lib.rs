//! Verified core of a batch document text-extraction engine.
//!
//! The library holds the logic of the engine: the per-file fallback chain
//! that picks an extraction strategy, the content fingerprinting used for
//! deduplication, the bounded-concurrency scheduler state, and the
//! transactional result store model. File, process and terminal I/O live
//! outside the library and hand it plain values.

pub mod cli;
pub mod database;
pub mod extractor;
pub mod fingerprint;
pub mod ocr;
pub mod pdf;
pub mod query;
pub mod scheduler;
pub mod text;

pub use cli::Args;
