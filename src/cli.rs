//! Decisions behind the command line's interaction with the operator.
pub mod interaction;
