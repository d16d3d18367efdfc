//! Logic of a Telegram bot that downloads media by URL.

pub mod callback;
pub mod dlp_info;
pub mod downloader;
pub mod handler;
pub mod keyboard;
pub mod text;
pub mod url;
pub mod util;
