//! Library synchronisation engine for a local video catalogue: the net-change
//! merger, the sorted library store, the scanner's identity rules, filename
//! parsing, and the metadata orchestration policy.

pub mod changes;
pub mod filename;
pub mod media;
pub mod metadata;
pub mod omdb;
pub mod player;
pub mod store;
pub mod text;
pub mod tmdb;
pub mod user;
pub mod watcher;
