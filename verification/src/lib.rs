//! Activity aggregation for a personal site: parsing of Letterboxd,
//! Goodreads and Last.fm feeds, per-source caching decisions, the merged
//! activity feed and the text shown for each activity.
pub mod text;
pub mod models;
pub mod time;
pub mod server;
pub mod app;
