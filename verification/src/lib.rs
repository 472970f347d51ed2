//! Watches a downloads directory for freshly written notebook files, extracts
//! selected cells as fenced code blocks, and prepares the result for the
//! clipboard. The extraction pipeline, the dedup ledger, the latest-file
//! selection and the watcher's event decisions are verified; the thin I/O
//! shell around them lives outside this crate.

pub mod app_state;
pub mod cells;
pub mod latest;
pub mod ledger;
pub mod pipeline;
pub mod text;
pub mod tree;
pub mod watcher;
