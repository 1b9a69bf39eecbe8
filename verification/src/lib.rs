//! Storage backbone of a source-control server: a multiplexed blob engine with
//! a repair queue, the cache tiers in front of it, and the rules by which a
//! repository's stores are assembled from a declarative configuration.
//!
//! The engine's rules are functions of what the drivers answered
//! (`multiplex`), so they hold for any driver. `engine` runs them over
//! drivers in memory, and `convergence` states what they guarantee over
//! time. `layered` puts the censorship filter and the caches in front of a
//! storage; `coherence` states that the caches agree with it. `factory`
//! plans a repository and leaves the opening of stores to the caller.

pub mod bookmarks;
pub mod cache;
pub mod censor;
pub mod coherence;
pub mod config;
pub mod convergence;
pub mod engine;
pub mod errors;
pub mod factory;
pub mod layered;
pub mod memblob;
pub mod multiplex;
pub mod registry;
pub mod runlog;
pub mod sql_types;
pub mod sync_queue;
pub mod table;
pub mod time;
