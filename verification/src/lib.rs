//! Download tracking and session bookkeeping for a BitTorrent client.

pub mod add_torrent;
pub mod admission;
pub mod bitfield;
pub mod chunk_tracker;
pub mod id20;
pub mod lengths;
pub mod magnet;
pub mod options;
pub mod outside;
pub mod register;
pub mod restore;
pub mod selection;
pub mod session;
pub mod session_db;
pub mod snapshot;
pub mod startup;
mod text;
pub mod torrent;
