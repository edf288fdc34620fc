//! What the handlers decide.

pub mod ssh;
pub mod user;
