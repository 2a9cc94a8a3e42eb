//! A private leaderboard of a December coding competition, fetched, cached
//! and laid out for a terminal.
//!
//! - [`leaderboard`] holds a snapshot: members, scores and stars.
//! - [`wire`] states the JSON form of a snapshot and [`codec`] reads and
//!   writes it; [`json`] holds JSON documents as trees.
//! - [`schedule`] tells which days are unlocked and when the next one is.
//! - [`cache`] decides between the stored snapshot and a new fetch over the
//!   keys of [`config`]; [`fetch`] makes the request and takes the response.
//! - [`ranking`] puts the members in the order of merit, [`render`] lays out
//!   the grid of stars, [`times`] lists the completion times, and [`cli`]
//!   picks what is shown.
//! - [`text`], [`keyed`], [`sorting`] and [`time`] serve the others, and
//!   [`error`] names what can go wrong.
//!
//! The library reads no file and opens no connection: the shell around it
//! loads the store, sends the request and prints the lines.

pub mod cache;
pub mod cli;
pub mod codec;
pub mod config;
pub mod error;
pub mod fetch;
pub mod json;
pub mod keyed;
pub mod leaderboard;
pub mod ranking;
pub mod render;
pub mod schedule;
pub mod sorting;
pub mod text;
pub mod time;
pub mod times;
pub mod wire;
