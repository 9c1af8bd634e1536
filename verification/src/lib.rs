//! Polling logic for hashtag-tagged notes: query parameters, record parsing,
//! structural deduplication, a fixed output order and the scheduling state
//! machine.

pub mod config;
pub mod cycle;
pub mod dedup;
pub mod error;
pub mod order;
pub mod parse;
pub mod poller;
pub mod query;
pub mod record;
