//! Structural diffing of two versions of a file.
//!
//! The library holds the rules of a diff: what counts as created, deleted,
//! binary or unchanged, when syntax is compared and when lines are, which rows
//! are shown around a change and how their spans are marked. Parsing, matching
//! and reading the environment are left to the program around it. A diff is a
//! value that says what it needs next and goes on with each reply.

pub mod analysis;
pub mod byte_diff;
pub mod chunks;
pub mod content;
pub mod error;
pub mod format;
pub mod highlight;
pub mod matched;
pub mod options;
pub mod semantic;
pub mod semantic_diff;
pub mod text;
pub mod timing;

pub use crate::byte_diff::diff_bytes_json;
pub use crate::error::DifftasticError;
pub use crate::highlight::{highlight_ranges_for_path, HighlightSpan};
pub use crate::matched::{ChangeIntensity, ChangeSpan, HighlightKind};
pub use crate::options::DiffRequest;
pub use crate::semantic::{DiffStatus, SemanticChunk, SemanticDiffResult, SemanticLine};
pub use crate::semantic_diff::diff_bytes_semantic;
