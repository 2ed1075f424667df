//! Decoder and call-graph analysis for the WebAssembly binary module format.
//!
//! The library decodes a byte buffer holding a binary module (magic cookie,
//! version, then a sequence of typed, length-prefixed sections) into a
//! [`ModuleInfo`] representation, and derives a [`CallGraph`] from the decoded
//! function bodies to identify reachable and dead code.  Every decode result
//! is pinned to a mathematical specification of the format, so equal inputs
//! always yield equal representations.

pub mod analysis;
pub mod analyzer;
pub mod decode;
pub mod format;
pub mod graph;
pub mod leb;
pub mod parser;
pub mod security;
pub mod strings;
pub mod memory;
pub mod ops;
pub mod types;

pub use types::DecodeError;
pub use types::ModuleInfo;
pub use types::Import;
pub use types::ImportKind;
pub use types::Export;
pub use types::ExportKind;
pub use types::Function;
pub use types::Memory;
pub use types::Table;
pub use types::TableType;
pub use types::MemoryType;
pub use types::Global;
pub use types::GlobalType;
pub use types::LocalType;
pub use types::DataSegment;
pub use types::ElementSegment;
pub use types::CustomSection;
pub use types::CallGraph;
pub use types::CallNode;
pub use types::CallEdge;
