//! Aggregation of live/latest-content status for a user-maintained list of
//! channels on two content platforms.
//!
//! The library holds the logic of the service: parsing and maintaining the
//! subscription list, extracting typed records from fetched page payloads by
//! pattern matching, classifying per-channel outcomes, and collecting the
//! successful records of a batch. Network fetches and storage are left to the
//! caller, which hands payloads and probe results in as plain values.

pub mod outcome;
pub mod subscriptions;
pub mod text;
pub mod twitch;
pub mod youtube;
