//! A document-ingestion pipeline: it walks a storage namespace, selects a
//! parser for each file by ordered glob rules (first match wins), runs the
//! resulting tasks with a bounded, fail-fast executor, and returns the parsed
//! documents in task order.

pub mod document;
pub mod executor;
pub mod globs;
pub mod loader;
pub mod memory;
pub mod ports;
pub mod walker;

pub use document::Document;
pub use document::DocumentPath;
pub use document::Entry;
pub use document::EntryKind;
pub use document::LoadError;
pub use loader::DirectoryLoader;
pub use memory::MemoryStorage;
pub use memory::StaticLoader;
pub use ports::DocumentLoader;
pub use ports::StoragePort;
