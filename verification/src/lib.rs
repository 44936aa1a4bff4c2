//! Tools for working with recorded control-protocol sessions and for
//! emitting per-device configuration sources.

pub mod bulk;
pub mod command;
pub mod generator;
pub mod session;
pub mod transcript;
