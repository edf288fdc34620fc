//! Checks that a request passes before its handler runs.

pub mod common;
pub mod user;
