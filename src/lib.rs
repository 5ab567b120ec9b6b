//! Leaderboard acquisition and aggregation for a private programming-contest
//! leaderboard: contest-clock arithmetic, per-participant completion durations,
//! cache freshness decisions, rankings and the public-token registry, with the
//! query strings and responses of the text protocol front end.

pub mod cache;
pub mod cgi;
pub mod display;
pub mod nav;
pub mod origin;
pub mod query;
pub mod ranking;
pub mod registry;
pub mod request;
pub mod standings;
pub mod text;
pub mod time;
