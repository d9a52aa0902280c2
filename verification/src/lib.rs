//! A prompt-template rendering engine.
//!
//! A format string such as `"via [$symbol($version )]($style)"` is parsed once
//! into a tree of nodes, the symbols it references are resolved through
//! caller-supplied lookup tables, and the result is an ordered sequence of
//! styled text segments.  A bracketed group whose referenced variables all
//! fail to resolve is elided: it contributes no segments at all.

pub mod ast;
pub mod configs;
pub mod eval;
pub mod formatter;
pub mod laws;
pub mod modules;
pub mod resolve;
pub mod parser;
pub mod segment;
pub mod text;
pub mod version;
