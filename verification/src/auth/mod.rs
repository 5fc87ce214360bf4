//! Accounts, devices, tokens and recovery.

pub mod alpha_invite;
pub mod alpha_invite_admin;
pub mod auth;
pub mod auth_rate_limiter;
pub mod device;
pub mod extractor;
pub mod jwt;
pub mod pairing;
pub mod phrase;
pub mod recovery_rate_limiter;
pub mod routes;
pub mod ws_ticket;
