//! Build-log analysis: per-tool analysers that turn the text output of
//! compilers, linters and test runners into structured messages with
//! source locations.

pub mod text;
pub mod types;
pub mod analyser;
pub mod config;
pub mod input;
pub mod logvec;
pub use crate::input::handle::analyse;
pub mod laws;
pub mod quiet;
