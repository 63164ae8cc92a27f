//! A private media downloader bot.
use vstd::prelude::*;

pub mod admission;
pub mod cancel;
pub mod commands;
pub mod config;
pub mod cookies;
pub mod double;
pub mod download;
pub mod ids;
pub mod jobs;
pub mod json;
pub mod laws;
pub mod links;
pub mod media;
pub mod number;
pub mod numeral;
pub mod paths;
pub mod policy;
pub mod queue;
pub mod store;
pub mod telegram;
pub mod text;
pub mod time;
pub mod users;
pub mod utils;

verus! {

} // verus!
