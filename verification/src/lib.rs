//! Verified core of the Karasad karaoke library: download queue, analysis
//! queue, Spotify data conversions, yt-dlp helpers, log viewer parsing and
//! the small text routines they share.

pub mod text;
pub mod base64;
pub mod spotify;
pub mod downloader;
pub mod library;
pub mod analyzer;
pub mod menu;
pub mod log_view;
pub mod ytdlp;
pub mod spotify_search;
pub mod scanner;
pub mod video;
pub mod lyrics;
pub mod cache;
