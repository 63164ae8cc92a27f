//! Fetching, preparing and delivering media.

pub mod command;
pub mod delivery;
pub mod downloader;
pub mod inspect;
pub mod pipeline;
pub mod progress;
pub mod request;
pub mod transcode;
pub mod workspace;
