//! Verified core of the Rockola jukebox: text normalisation, storage paths,
//! the playback queue, admin sessions, scanning and download bookkeeping.

pub mod admin;
pub mod config;
pub mod db;
pub mod domain;
pub mod events;
pub mod media;
pub mod models;
pub mod paths;
pub mod player;
pub mod queue;
pub mod scan;
pub mod settings;
pub mod storage;
pub mod text;
pub mod updater;
pub mod worker;
pub mod ytdlp;
