//! A blockchain indexer core: decodes chain-native transaction encodings into
//! one canonical transaction model, drives a per-chain indexing loop with
//! chunked catch-up and a reorg-safety buffer, matches decoded transactions
//! against address subscriptions, and models the deduplicating persistence
//! the loop relies on.

pub mod asset_rank;
pub mod asset_type;
pub mod cosmos;
pub mod indexer;
pub mod matcher;
pub mod primitives;
pub mod storage_model;
pub mod store;
