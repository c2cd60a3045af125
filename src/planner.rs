//! Checks that the planners run before planning.
pub mod macos;
