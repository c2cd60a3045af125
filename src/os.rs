//! What the engine reads of the host operating system.
pub mod diskutil;
