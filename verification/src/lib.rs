//! Release tracking for a Spotify library: the decisions, text building and
//! data shaping behind syncing liked artists, scanning them for new releases
//! and writing a daily HTML digest.

pub mod text;
pub mod models;
pub mod auth;
pub mod releases;
pub mod notifications;
pub mod tracker;
