//! Content search with typo-tolerant patterns and fuzzy re-ranking of the
//! matching lines.

pub mod content_searcher;
pub mod grep_score;
pub mod text;
pub mod types;
