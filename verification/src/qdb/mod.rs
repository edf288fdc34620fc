//! The wire protocol of the key-value store.

pub mod codec;
pub mod wire;
pub mod protocol;
pub mod laws;
