//! Verified core of a desktop tool that mirrors a Suno music library to local WAV files.
pub mod text;
pub mod text_set;
pub mod filenames;
pub mod session;
pub mod time;
pub mod types;
pub mod date_folders;
pub mod date_filters;
pub mod json;
pub mod api;
pub mod paths;
pub mod auth;
pub mod feed;
pub mod local_index;
pub mod settings;
pub mod sync;
pub mod token_server;
pub mod commands;
pub mod chrome_extension;
