//! Decisions of a streaming media player: which backend takes a link, which bytes answer a
//! request, what a download reports, and what the player shows.
pub mod bilibili;
pub mod downloader;
pub mod ids;
pub mod local_file;
pub mod magnet;
pub mod manager;
pub mod media;
pub mod meter;
pub mod number;
pub mod player;
pub mod range;
pub mod reply;
pub mod size;
pub mod text;
pub mod torrent;
pub mod youtube;
