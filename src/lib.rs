//! A record store for users and support tickets, with validated mutation
//! and aggregate statistics.
pub mod records;
pub mod text;
pub mod service;
pub mod stats;
pub mod laws;
mod integrity;
