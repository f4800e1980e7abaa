//! Fallback resolution of logical content paths over an ordered list of
//! read-only backends, with an optional transparent byte cache.
//!
//! Sources are consulted in a fixed priority order; the first success wins.
//! A backend that reports `NotFound` is skipped softly, while any other
//! error is remembered and surfaces only when no later source succeeds.
//! Merged directory listings take the union over all sources, sorted by
//! path with duplicates collapsed to the entry from the highest-priority
//! source.

pub mod cache;
pub mod error;
pub mod github;
pub mod kvlist;
pub mod merge;
pub mod resolver;
pub mod source;
pub mod text;
pub mod types;

pub use cache::{Cache, DiskCache, MemoryCache, NoCache};
pub use error::ContentError;
pub use github::GitHubSource;
pub use resolver::{FallbackState, ResourceResolver};
pub use source::{ContentSource, MemorySource};
pub use types::{DirectoryEntry, DirectoryListing, EntryType, FileContent};
