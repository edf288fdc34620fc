//! The state that the handlers work on.

pub mod user;
