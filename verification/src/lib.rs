//! Core of a static-asset HTTP server: request-path normalization, cache-policy
//! classification, asset resolution against a filesystem snapshot, the
//! dispatcher's fallback chain, and the shutdown coordination protocol.

pub mod cache;
pub mod config;
pub mod dispatch;
pub mod normalize;
pub mod resolve;
pub mod shutdown;
pub mod text;
pub mod timeparse;
