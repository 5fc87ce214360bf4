//! Limits that keep the service from being abused.

pub mod abuse_metrics;
pub mod global_rate_limiter;
pub mod ip_tracker;
pub mod join_rate_limiter;
pub mod queue;
pub mod request_window;
pub mod sliding_window;
pub mod temp_ban;
