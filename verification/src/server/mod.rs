//! The server side: configuration, upstream sources, caching and the merged
//! feed.
pub mod error;
pub mod config;
pub mod sources;
pub mod routes;
pub mod notifications;
