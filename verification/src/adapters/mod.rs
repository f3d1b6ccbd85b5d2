//! The crates that the router builds on, as far as it calls them.
pub mod gauges;
pub mod json;
pub mod maps;
pub mod random;
