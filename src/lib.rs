//! Turns the structured diagnostic events of a compiler's trace log into
//! category streams, a manifest, and the pieces of a navigable report.
pub mod text;
pub mod json;
pub mod compile_id;
pub mod intermediate;
pub mod modules;

pub use compile_id::{format_compile_id, parse_compile_id, CompileId};
pub use intermediate::{
    detect_envelope_type, envelope_type_to_file, normalize_envelope, Envelope, EventKind,
    IntermediateEntry, IntermediateFileType, IntermediateManifest, WriteTally,
};
pub use json::{JsonNumber, JsonValue};
