//! Rendering of a finished lint run, as a terminal report or as the snapshot
//! that is exported as JSON.

pub mod decimal;
pub mod format;
pub mod json;
pub mod listing;
pub mod rules;
pub mod snapshot;
pub mod styling;
pub mod summary;
pub mod table;
pub mod text;

pub use format::Format;
pub use json::Json;
pub use rules::RuleRegistry;
pub use snapshot::{CodeCount, Elapsed, FileEntry, Results, Span, Violation};
pub use text::Text;
