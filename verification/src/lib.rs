//! Compiler for ResuMarkup, a line-oriented `#+DIRECTIVE: value` markup for
//! resumes. The compiler scans directive lines, resolves document-wide style
//! configuration, merges paired start/end date directives by one-line
//! lookahead, and emits an ordered sequence of typed, styled content blocks
//! for a renderer to consume.

pub mod builder;
pub mod config;
pub mod floatlit;
pub mod laws;
pub mod lines;
pub mod model;
pub mod numbers;
pub mod text;

pub use builder::build_blocks;
pub use builder::compile;
pub use config::scan_config;
pub use lines::split_lines;
pub use model::Block;
pub use model::BreakSize;
pub use model::CompileError;
pub use model::Configuration;
pub use model::DocumentModel;
