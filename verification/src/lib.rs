//! Verified core of the device statistics backend: request validation,
//! filter handling, SQL text construction, ban lists and aggregation.

pub mod asn;
pub mod database;
pub mod models;
pub mod ordered;
pub mod router;
pub mod strict;
pub mod summary;
pub mod tasks;
pub mod text;
