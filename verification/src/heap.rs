//! The heap census engine: class tagging, per-class accumulation, the
//! visited-mark traversal callback, and signature demangling.

pub mod class_formatter;
pub mod contents;
pub mod stats;
pub mod tagger;
pub mod types;
