//! Small shared helpers.
pub mod time;
