//! What the session knows of a torrent: its descriptor, its options and its
//! lifecycle state.

use crate::id20::Id20;
use crate::lengths::{Lengths, LengthsError, LengthsView};
use std::time::Duration;
use vstd::prelude::*;

verus! {

/// The views of a list of strings.
pub open spec fn strings_view(v: Seq<String>) -> Seq<Seq<char>> {
    v.map_values(|s: String| s@)
}

/// The view of an optional list of file indices.
pub open spec fn indices_view(v: Option<Vec<usize>>) -> Option<Seq<usize>> {
    match v {
        Some(v) => Some(v@),
        None => None,
    }
}

/// The view of an optional string.
pub open spec fn opt_string_view(s: Option<String>) -> Option<Seq<char>> {
    match s {
        Some(s) => Some(s@),
        None => None,
    }
}

/// Copies a list of strings.
pub fn clone_strings(v: &Vec<String>) -> (r: Vec<String>)
    ensures
        strings_view(r@) == strings_view(v@),
{
    let mut r: Vec<String> = Vec::new();
    let mut i: usize = 0;
    while i < v.len()
        invariant
            0 <= i <= v.len(),
            r@.len() == i,
            forall|j: int| 0 <= j < i ==> r@[j]@ == v@[j]@,
        decreases v.len() - i,
    {
        r.push(v[i].clone());
        i = i + 1;
    }
    assert(strings_view(r@) =~= strings_view(v@));
    r
}

/// Copies an optional list of file indices.
pub fn clone_indices(v: &Option<Vec<usize>>) -> (r: Option<Vec<usize>>)
    ensures
        indices_view(r) == indices_view(*v),
{
    match v {
        Some(v) => {
            let c = v.clone();
            assert(c@ =~= v@);
            Some(c)
        },
        None => None,
    }
}

/// Copies bytes.
pub fn clone_bytes(v: &Vec<u8>) -> (r: Vec<u8>)
    ensures
        r@ == v@,
{
    let c = v.clone();
    assert(c@ =~= v@);
    c
}

/// One file of a torrent, as its descriptor lists it.
#[derive(Debug)]
pub struct TorrentFile {
    /// The file's full relative path, as the descriptor's bytes.
    pub name: Vec<u8>,
    /// The file's length in bytes.
    pub length: u64,
}

pub struct TorrentFileView {
    pub name: Seq<u8>,
    pub length: u64,
}

impl View for TorrentFile {
    type V = TorrentFileView;

    open spec fn view(&self) -> TorrentFileView {
        TorrentFileView { name: self.name@, length: self.length }
    }
}

impl Clone for TorrentFile {
    fn clone(&self) -> (r: Self)
        ensures
            r@ == self@,
    {
        TorrentFile { name: clone_bytes(&self.name), length: self.length }
    }
}

/// The views of a list of files.
pub open spec fn files_view(files: Seq<TorrentFile>) -> Seq<TorrentFileView> {
    files.map_values(|f: TorrentFile| f@)
}

/// A torrent's descriptor, as far as the session reads it. Decoding the
/// descriptor is not the session's business: `encoded` carries its bytes, and
/// the other fields say what those bytes hold.
#[derive(Debug)]
pub struct TorrentInfo {
    /// The name the descriptor declares, if any.
    pub name: Option<Vec<u8>>,
    /// The length of a piece.
    pub piece_length: u32,
    /// The files, in the descriptor's order. A single-file torrent has one.
    pub files: Vec<TorrentFile>,
    /// The descriptor in its binary encoding.
    pub encoded: Vec<u8>,
}

pub struct TorrentInfoView {
    pub name: Option<Seq<u8>>,
    pub piece_length: u32,
    pub files: Seq<TorrentFileView>,
    pub encoded: Seq<u8>,
}

impl View for TorrentInfo {
    type V = TorrentInfoView;

    open spec fn view(&self) -> TorrentInfoView {
        TorrentInfoView {
            name: match self.name {
                Some(name) => Some(name@),
                None => None,
            },
            piece_length: self.piece_length,
            files: files_view(self.files@),
            encoded: self.encoded@,
        }
    }
}

impl Clone for TorrentInfo {
    fn clone(&self) -> (r: Self)
        ensures
            r@ == self@,
    {
        let mut files: Vec<TorrentFile> = Vec::new();
        let mut i: usize = 0;
        while i < self.files.len()
            invariant
                0 <= i <= self.files.len(),
                files@.len() == i,
                forall|j: int| 0 <= j < i ==> files@[j]@ == self.files@[j]@,
            decreases self.files.len() - i,
        {
            files.push(self.files[i].clone());
            i = i + 1;
        }
        assert(files_view(files@) =~= files_view(self.files@));
        TorrentInfo {
            name: match &self.name {
                Some(name) => Some(clone_bytes(name)),
                None => None,
            },
            piece_length: self.piece_length,
            files,
            encoded: clone_bytes(&self.encoded),
        }
    }
}

impl TorrentInfoView {
    /// The sum of the lengths of the first `n` files.
    pub open spec fn length_of_first(self, n: int) -> int
        decreases n,
    {
        if n <= 0 {
            0
        } else {
            self.length_of_first(n - 1) + self.files[n - 1].length
        }
    }

    /// The total length of the torrent's files.
    pub open spec fn total_length(self) -> int {
        self.length_of_first(self.files.len() as int)
    }

    /// The sum of the first `n` lengths is not negative and grows with `n`.
    pub proof fn lemma_length_grows(self, n: int, m: int)
        requires
            0 <= n <= m,
        ensures
            0 <= self.length_of_first(n) <= self.length_of_first(m),
        decreases m,
    {
        if n < m {
            self.lemma_length_grows(n, m - 1);
        } else if n > 0 {
            self.lemma_length_grows(n - 1, n - 1);
            self.lemma_length_grows(0, n - 1);
        }
    }
}

/// Why a descriptor gives no geometry.
#[derive(Clone, Copy, Debug, PartialEq, Eq, Structural)]
pub enum GeometryError {
    /// The lengths of the files do not add up in 64 bits.
    TotalLengthOverflow,
    /// The numbers were refused.
    Lengths(LengthsError),
}

/// What `lengths_from_torrent` returns for a descriptor.
pub open spec fn geometry_of(info: TorrentInfoView) -> Result<LengthsView, GeometryError> {
    if info.total_length() > u64::MAX {
        Err(GeometryError::TotalLengthOverflow)
    } else {
        match crate::lengths::new_lengths(
            info.total_length() as u64,
            info.piece_length,
            crate::lengths::CHUNK_SIZE,
        ) {
            Ok(v) => Ok(v),
            Err(e) => Err(GeometryError::Lengths(e)),
        }
    }
}

/// The geometry of a torrent: its files' lengths added up, cut into pieces of
/// the descriptor's piece length and chunks of the default length.
pub fn lengths_from_torrent(info: &TorrentInfo) -> (r: Result<Lengths, GeometryError>)
    ensures
        match r {
            Ok(l) => l.wf() && geometry_of(info@) == Ok::<LengthsView, GeometryError>(l@),
            Err(e) => geometry_of(info@) == Err::<LengthsView, GeometryError>(e),
        },
{
    let mut total: u64 = 0;
    let mut i: usize = 0;
    while i < info.files.len()
        invariant
            0 <= i <= info.files.len(),
            total == info@.length_of_first(i as int),
        decreases info.files.len() - i,
    {
        let length: u64 = info.files[i].length;
        proof {
            assert(info@.files[i as int].length == length);
            assert(info@.length_of_first(i + 1) == total + length);
        }
        if length > u64::MAX - total {
            proof {
                info@.lemma_length_grows(i + 1, info.files.len() as int);
            }
            return Err(GeometryError::TotalLengthOverflow);
        }
        total = total + length;
        i = i + 1;
    }
    match Lengths::new(total, info.piece_length, None) {
        Ok(l) => Ok(l),
        Err(e) => Err(GeometryError::Lengths(e)),
    }
}

/// The lifecycle state of a managed torrent.
#[derive(Clone, Copy, Debug, PartialEq, Eq, Structural)]
pub enum TorrentState {
    /// Created, not yet checked against what is on disk.
    Initializing,
    /// Not exchanging data.
    Paused,
    /// Exchanging data with peers.
    Live,
    /// Stopped by an error.
    Error,
}

/// Connection timeouts. What is `None` is left to the layer below.
#[derive(Clone, Copy, Debug)]
pub struct PeerConnectionOptions {
    pub connect_timeout: Option<Duration>,
    pub read_write_timeout: Option<Duration>,
    pub keep_alive_interval: Option<Duration>,
}

/// What a torrent was built with, besides its descriptor.
#[derive(Clone, Copy, Debug)]
pub struct ManagedTorrentOptions {
    pub overwrite: bool,
    pub force_tracker_interval: Option<Duration>,
    pub peer_connect_timeout: Option<Duration>,
    pub peer_read_write_timeout: Option<Duration>,
}

/// A torrent under management.
#[derive(Debug)]
pub struct ManagedTorrent {
    pub info_hash: Id20,
    pub info: TorrentInfo,
    /// The folder the torrent's files go to.
    pub out_dir: String,
    /// The trackers to announce to, each a serialized URL.
    pub trackers: Vec<String>,
    /// The files to download, if not all.
    pub only_files: Option<Vec<usize>>,
    pub lengths: Lengths,
    pub options: ManagedTorrentOptions,
    pub state: TorrentState,
}

/// The session's reference to a torrent.
pub type ManagedTorrentHandle = ManagedTorrent;

pub struct ManagedTorrentView {
    pub info_hash: Seq<u8>,
    pub info: TorrentInfoView,
    pub out_dir: Seq<char>,
    pub trackers: Seq<Seq<char>>,
    pub only_files: Option<Seq<usize>>,
    pub lengths: LengthsView,
    pub options: ManagedTorrentOptions,
    pub state: TorrentState,
}

impl View for ManagedTorrent {
    type V = ManagedTorrentView;

    open spec fn view(&self) -> ManagedTorrentView {
        ManagedTorrentView {
            info_hash: self.info_hash@,
            info: self.info@,
            out_dir: self.out_dir@,
            trackers: strings_view(self.trackers@),
            only_files: indices_view(self.only_files),
            lengths: self.lengths@,
            options: self.options,
            state: self.state,
        }
    }
}

/// `true` when every index of the list, if there is one, lies below `total`.
pub open spec fn indices_in_range(only_files: Option<Seq<usize>>, total: int) -> bool {
    only_files matches Some(list) ==> forall|i: int|
        0 <= i < list.len() ==> #[trigger] list[i] < total
}

impl ManagedTorrentView {
    /// The torrent is consistent: its geometry is that of its descriptor, the
    /// files it is restricted to exist, and no tracker is listed twice.
    pub open spec fn wf(self) -> bool {
        &&& self.info_hash.len() == 20
        &&& geometry_of(self.info) == Ok::<LengthsView, GeometryError>(self.lengths)
        &&& indices_in_range(self.only_files, self.info.files.len() as int)
        &&& self.trackers.no_duplicates()
    }
}

impl Clone for ManagedTorrent {
    fn clone(&self) -> (r: Self)
        ensures
            r@ == self@,
            r.lengths == self.lengths,
    {
        ManagedTorrent {
            info_hash: self.info_hash,
            info: self.info.clone(),
            out_dir: self.out_dir.clone(),
            trackers: clone_strings(&self.trackers),
            only_files: clone_indices(&self.only_files),
            lengths: self.lengths,
            options: self.options,
            state: self.state,
        }
    }
}

impl ManagedTorrent {
    /// `true` while the torrent does not exchange data.
    pub fn is_paused(&self) -> (paused: bool)
        ensures
            paused == (self.state == TorrentState::Paused),
    {
        match self.state {
            TorrentState::Paused => true,
            _ => false,
        }
    }

    /// `true` while the torrent exchanges data with peers.
    pub fn is_live(&self) -> (live: bool)
        ensures
            live == (self.state == TorrentState::Live),
    {
        match self.state {
            TorrentState::Live => true,
            _ => false,
        }
    }
}

} // verus!
