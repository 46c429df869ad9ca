//! Translation of nginx access-log format strings into compiled matching
//! patterns with one named capture per `$placeholder`, plus a listing of the
//! field names a log consumer can expect to extract.

pub mod chars;
pub mod laws;
pub mod model;
pub mod pattern;
pub mod translate;
pub mod vars;

pub use pattern::{format_to_pattern, CompiledPattern, PatternError};
pub use vars::available_variables;
