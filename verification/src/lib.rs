//! Verified core of the arena game server: shard selection, e-mail rate
//! limiting and retry policy, one-time-password rules, score checks,
//! entitlements, job scheduling decisions, room bookkeeping and the
//! configuration resolution that the HTTP front end relies on.

pub mod shard;
pub mod text;
pub mod email;
pub mod ids;
pub mod digest;
pub mod assets;
pub mod auth;
pub mod leaderboard;
pub mod payments;
pub mod jobs;
pub mod config;
pub mod admin;
pub mod signal;
pub mod room;
