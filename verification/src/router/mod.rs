//! Request handling logic of the public and the internal API.

pub mod api;
pub mod internal;
pub mod patterns;
