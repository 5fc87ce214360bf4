//! The rules of a voice-chat backend: rate limits, bans, invites, tokens,
//! channel permissions and bug reports, as verified functions on plain values.

pub mod abuse;
pub mod app_state;
pub mod auth;
pub mod calendar;
pub mod channel;
pub mod chat;
pub mod config_validation;
pub mod connections;
pub mod crypto;
pub mod diagnostics;
pub mod http;
pub mod ids;
pub mod json;
pub mod jwt_token;
pub mod members;
pub mod net;
pub mod redaction;
pub mod signaling;
pub mod table;
pub mod text;
pub mod time;
