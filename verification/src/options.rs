//! What a caller can ask for when adding a torrent, and what can go wrong.

use crate::magnet::MagnetError;
use crate::torrent::{GeometryError, PeerConnectionOptions};
use std::time::Duration;
use vstd::prelude::*;

verus! {

/// The address of a peer.
#[derive(Clone, Copy, Debug, PartialEq, Eq, Structural)]
pub struct PeerAddr {
    pub ip: IpAddress,
    pub port: u16,
}

/// An IP address as a number in network order.
#[derive(Clone, Copy, Debug, PartialEq, Eq, Structural)]
pub enum IpAddress {
    V4(u32),
    V6(u128),
}

/// Options for adding new torrents to the session.
#[derive(Clone, Debug)]
pub struct AddTorrentOptions {
    /// Start in paused state.
    pub paused: bool,
    /// A regex to only download files matching it.
    pub only_files_regex: Option<String>,
    /// An explicit list of file indices to download. Excludes
    /// `only_files_regex`.
    pub only_files: Option<Vec<usize>>,
    /// Allow writing on top of existing files, including when resuming a
    /// torrent.
    pub overwrite: bool,
    /// Only list the files in the torrent without starting it.
    pub list_only: bool,
    /// The output folder for the torrent. If not set, the session's default
    /// one will be used.
    pub output_folder: Option<String>,
    /// Sub-folder within the session's default output folder. Excludes
    /// `output_folder`.
    pub sub_folder: Option<String>,
    /// Peer connection options. What is not set falls back to the session's.
    pub peer_opts: Option<PeerConnectionOptions>,
    /// Force a refresh interval for polling trackers.
    pub force_tracker_interval: Option<Duration>,
    /// Leave the torrent without trackers.
    pub disable_trackers: bool,
    /// Initial peers to start off with.
    pub initial_peers: Option<Vec<PeerAddr>>,
    /// The id to register the torrent under, if it is free. Used when a
    /// session is restored.
    pub preferred_id: Option<usize>,
}

/// The options of a request that asks for nothing in particular.
pub open spec fn default_options() -> AddTorrentOptions {
    AddTorrentOptions {
        paused: false,
        only_files_regex: None,
        only_files: None,
        overwrite: false,
        list_only: false,
        output_folder: None,
        sub_folder: None,
        peer_opts: None,
        force_tracker_interval: None,
        disable_trackers: false,
        initial_peers: None,
        preferred_id: None,
    }
}

impl Default for AddTorrentOptions {
    fn default() -> (opts: Self)
        ensures
            opts == default_options(),
            !opts.paused,
            opts.only_files_regex.is_none(),
            opts.only_files.is_none(),
            !opts.overwrite,
            !opts.list_only,
            opts.output_folder.is_none(),
            opts.sub_folder.is_none(),
            opts.peer_opts.is_none(),
            opts.force_tracker_interval.is_none(),
            !opts.disable_trackers,
            opts.initial_peers.is_none(),
            opts.preferred_id.is_none(),
    {
        AddTorrentOptions {
            paused: false,
            only_files_regex: None,
            only_files: None,
            overwrite: false,
            list_only: false,
            output_folder: None,
            sub_folder: None,
            peer_opts: None,
            force_tracker_interval: None,
            disable_trackers: false,
            initial_peers: None,
            preferred_id: None,
        }
    }
}

/// Why a torrent was not added.
#[derive(Clone, Copy, Debug, PartialEq, Eq, Structural)]
pub enum AddTorrentError {
    /// Both a list of file indices and a regex were given.
    OnlyFilesConflict,
    /// A file index is not below the number of files.
    FileIdOutOfRange(usize),
    /// The regex for file names does not compile.
    InvalidRegex,
    /// The name of the file with this index is not valid UTF-8.
    InvalidFilename(usize),
    /// The regex matches none of the file names.
    NoFilesMatch,
    /// Both an output folder and a sub-folder were given.
    OutputFolderConflict,
    /// The torrent's declared name is not valid UTF-8.
    InvalidName,
    /// The longest file's name has no stem to name a folder after.
    NoFileStem,
    /// The descriptor's lengths give no geometry.
    Geometry(GeometryError),
    /// The registry has run out of ids.
    RegistryFull,
    /// The magnet link cannot be read.
    InvalidMagnet(MagnetError),
    /// The URL is neither a magnet link nor an HTTP(S) address.
    UnsupportedUrl,
    /// A magnet link was given and the session has no DHT to resolve it.
    MagnetWithoutDht,
}

impl AddTorrentError {
    /// The error in words.
    pub open spec fn message_text(self) -> Seq<char> {
        match self {
            AddTorrentError::OnlyFilesConflict => "only_files and only_files_regex are mutually exclusive"@,
            AddTorrentError::FileIdOutOfRange(_) => "file id is out of range"@,
            AddTorrentError::InvalidRegex => "filename regex is incorrect"@,
            AddTorrentError::InvalidFilename(_) => "filename is not valid utf8"@,
            AddTorrentError::NoFilesMatch => "none of the filenames match the given regex"@,
            AddTorrentError::OutputFolderConflict => "you can't provide both output_folder and sub_folder"@,
            AddTorrentError::InvalidName => "invalid UTF-8 in torrent name"@,
            AddTorrentError::NoFileStem => "can't determine longest filename"@,
            AddTorrentError::Geometry(_) => "the torrent's lengths are not usable"@,
            AddTorrentError::RegistryFull => "no torrent id is left"@,
            AddTorrentError::InvalidMagnet(_) => "provided path is not a valid magnet URL"@,
            AddTorrentError::UnsupportedUrl => "unsupported URL. Supporting magnet:, http:, and https"@,
            AddTorrentError::MagnetWithoutDht => "magnet links without DHT are not supported"@,
        }
    }

    /// The error in words.
    pub fn message(&self) -> (text: &'static str)
        ensures
            text@ == self.message_text(),
            text@.len() > 0,
    {
        proof {
            reveal_strlit("only_files and only_files_regex are mutually exclusive");
            reveal_strlit("file id is out of range");
            reveal_strlit("filename regex is incorrect");
            reveal_strlit("filename is not valid utf8");
            reveal_strlit("none of the filenames match the given regex");
            reveal_strlit("you can't provide both output_folder and sub_folder");
            reveal_strlit("invalid UTF-8 in torrent name");
            reveal_strlit("can't determine longest filename");
            reveal_strlit("the torrent's lengths are not usable");
            reveal_strlit("no torrent id is left");
            reveal_strlit("provided path is not a valid magnet URL");
            reveal_strlit("unsupported URL. Supporting magnet:, http:, and https");
            reveal_strlit("magnet links without DHT are not supported");
        }
        match self {
            AddTorrentError::OnlyFilesConflict => "only_files and only_files_regex are mutually exclusive",
            AddTorrentError::FileIdOutOfRange(_) => "file id is out of range",
            AddTorrentError::InvalidRegex => "filename regex is incorrect",
            AddTorrentError::InvalidFilename(_) => "filename is not valid utf8",
            AddTorrentError::NoFilesMatch => "none of the filenames match the given regex",
            AddTorrentError::OutputFolderConflict => "you can't provide both output_folder and sub_folder",
            AddTorrentError::InvalidName => "invalid UTF-8 in torrent name",
            AddTorrentError::NoFileStem => "can't determine longest filename",
            AddTorrentError::Geometry(_) => "the torrent's lengths are not usable",
            AddTorrentError::RegistryFull => "no torrent id is left",
            AddTorrentError::InvalidMagnet(_) => "provided path is not a valid magnet URL",
            AddTorrentError::UnsupportedUrl => "unsupported URL. Supporting magnet:, http:, and https",
            AddTorrentError::MagnetWithoutDht => "magnet links without DHT are not supported",
        }
    }
}

} // verus!
