//! Coordination core of a polite, rate-limited API crawler: token buckets,
//! a layered rate limiter, a tiered work queue, and the pure decisions of the
//! worker and the engine.

pub mod api;
pub mod config;
pub mod endpoints;
pub mod engine;
pub mod limiter;
pub mod models;
pub mod queue;
pub mod text;
pub mod token_bucket;
pub mod worker;
