//! Channels: members, roles, invites.

pub mod channel;
pub mod channel_models;
pub mod channel_rate_limiter;
pub mod routes;
pub mod invite;
