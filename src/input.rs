//! From collected text to reports: splitting a pane's history into builds,
//! and choosing the analyser.

pub mod handle;
pub mod split;
