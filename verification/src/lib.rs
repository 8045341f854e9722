//! A verified core for a lottery-archive crawler: page-extraction
//! strategies for two site layouts, a pagination state machine, a
//! single-flight run guard, and a lock-protected status store.

pub mod models;
pub mod text;
pub mod links;
pub mod extract;
pub mod driver;
pub mod store;
pub mod analysis;
