//! Verified core of a terminal front end for `yt-dlp` and `ffmpeg`.
pub mod app;
pub mod config;
pub mod decimal;
pub mod formats;
pub mod job;
pub mod media;
pub mod order;
pub mod paths;
pub mod process;
pub mod text;
pub mod types;
pub mod ui;
