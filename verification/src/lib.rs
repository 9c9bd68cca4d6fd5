//! Core of a media ingestion service: streaming content hashing,
//! content-addressable deduplication with soft-delete-aware access grants,
//! defensive metadata extraction over external tool output, the
//! regeneration sweep's merge and index resync, a geohash-based spatial
//! index with zoom-aware clustering, watch-folder promotion decisions,
//! bounded-concurrency dispatch, and the cancellable background-job state
//! machines shared by import and regeneration runs.

pub mod geo;
pub mod hashing;
pub mod jobs;
pub mod spatial;
pub mod store;
pub mod text;
pub mod cluster;
pub mod surface;
pub mod scheduler;
pub mod metadata;
pub mod watch;
pub mod paths;
pub mod password;
pub mod tags;

pub use geo::{calculate_geohash, zoom_to_geohash_precision};
pub use store::get_media_type;
