//! Verified core of a local command-execution daemon.
//!
//! Commands run inside a persistent terminal-multiplexer session; completion
//! is inferred from the session's visible output rather than from exit codes,
//! and the captured text is classified and turned into structured findings.
//! This crate holds the algorithmic core: the completion-detection state
//! machine, the format classifier, the per-format extractors, and the
//! validation and formatting helpers around them.

pub mod batch;
pub mod completion;
pub mod config;
pub mod extract;
pub mod formatter;
pub mod helpers;
pub mod parser;
pub mod text;
