//! Locating saved compositor configuration and describing its shortcuts.
pub mod context;

pub mod discovery;
pub mod rows;
pub mod status;
