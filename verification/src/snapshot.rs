//! The stored form of a session, and the way back from it.
//!
//! A snapshot is a map from torrent id to what is needed to add the torrent
//! again. Writing it as text and reading that text is the caller's part.

use crate::add_torrent::TorrentMeta;
use crate::id20::{hex_of, is_hex, lemma_hex_round_trip, unhex, Id20, Id20Error};
use crate::options::{AddTorrentError, AddTorrentOptions};
use crate::outside::{base64_bytes, base64_decode, base64_encode, base64_text};
use crate::session_db::{DbView, SessionDatabase, TorrentId};
use crate::torrent::{
    clone_indices, clone_strings, indices_view, strings_view, ManagedTorrentView, TorrentInfo,
    TorrentInfoView, TorrentState,
};
use std::collections::HashMap;
use vstd::prelude::*;
use vstd::std_specs::hash::*;
use vstd::utf8::encode_utf8;

verus! {

broadcast use vstd::std_specs::hash::group_hash_axioms;

/// What is stored of one torrent.
#[derive(Debug)]
pub struct SerializedTorrent {
    /// The info hash as forty hexadecimal digits.
    pub info_hash: String,
    /// The descriptor.
    pub info: TorrentInfo,
    /// The trackers, none twice.
    pub trackers: Vec<String>,
    pub output_folder: String,
    pub only_files: Option<Vec<usize>>,
    pub is_paused: bool,
}

pub struct SerializedTorrentView {
    pub info_hash: Seq<char>,
    pub info: TorrentInfoView,
    pub trackers: Seq<Seq<char>>,
    pub output_folder: Seq<char>,
    pub only_files: Option<Seq<usize>>,
    pub is_paused: bool,
}

impl View for SerializedTorrent {
    type V = SerializedTorrentView;

    open spec fn view(&self) -> SerializedTorrentView {
        SerializedTorrentView {
            info_hash: self.info_hash@,
            info: self.info@,
            trackers: strings_view(self.trackers@),
            output_folder: self.output_folder@,
            only_files: indices_view(self.only_files),
            is_paused: self.is_paused,
        }
    }
}

/// The stored form of a session.
#[derive(Debug)]
pub struct SerializedSessionDatabase {
    pub torrents: HashMap<usize, SerializedTorrent>,
}

impl View for SerializedSessionDatabase {
    type V = Map<usize, SerializedTorrentView>;

    open spec fn view(&self) -> Map<usize, SerializedTorrentView> {
        self.torrents@.map_values(|t: SerializedTorrent| t@)
    }
}

/// What is stored of a torrent.
pub open spec fn snapshot_of(torrent: ManagedTorrentView) -> SerializedTorrentView {
    SerializedTorrentView {
        info_hash: hex_of(torrent.info_hash),
        info: torrent.info,
        trackers: torrent.trackers,
        output_folder: torrent.out_dir,
        only_files: torrent.only_files,
        is_paused: torrent.state == TorrentState::Paused,
    }
}

/// What is stored of a registry: of every torrent its snapshot, under its id.
pub open spec fn snapshot_of_db(db: DbView) -> Map<usize, SerializedTorrentView> {
    db.torrents.map_values(|t: ManagedTorrentView| snapshot_of(t))
}

impl SessionDatabase {
    /// The stored form of the registry.
    pub fn serialize(&self) -> (snapshot: SerializedSessionDatabase)
        ensures
            snapshot@ == snapshot_of_db(self@),
    {
        let mut torrents: HashMap<usize, SerializedTorrent> = HashMap::new();
        proof {
            self.lemma_view();
        }
        let ids = self.ids();
        let mut i: usize = 0;
        while i < ids.len()
            invariant
                0 <= i <= ids.len(),
                forall|id: usize| ids@.contains(id) <==> self@.torrents.contains_key(id),
                forall|id: usize|
                    torrents@.contains_key(id) <==> exists|k: int|
                        0 <= k < i && #[trigger] ids@[k] == id,
                forall|id: usize| #[trigger]
                    torrents@.contains_key(id) ==> torrents@[id]@ == snapshot_of(self@.torrents[id]),
            decreases ids.len() - i,
        {
            let id: usize = ids[i];
            assert(ids@.contains(id));
            match self.get(id) {
                Some(torrent) => {
                    let stored = SerializedTorrent {
                        trackers: clone_strings(&torrent.trackers),
                        info_hash: torrent.info_hash.as_string(),
                        info: torrent.info.clone(),
                        only_files: clone_indices(&torrent.only_files),
                        is_paused: torrent.is_paused(),
                        output_folder: torrent.out_dir.clone(),
                    };
                    assert(stored@ == snapshot_of(torrent@));
                    let ghost before = torrents@;
                    torrents.insert(id, stored);
                    assert forall|other: usize| torrents@.contains_key(other) <==> exists|k: int|
                        0 <= k < i + 1 && #[trigger] ids@[k] == other by {
                        if other == id {
                            assert(ids@[i as int] == other);
                        } else if before.contains_key(other) {
                            let k = choose|k: int| 0 <= k < i && #[trigger] ids@[k] == other;
                            assert(0 <= k < i + 1 && ids@[k] == other);
                        }
                    }
                },
                None => {},
            }
            i = i + 1;
        }
        let snapshot = SerializedSessionDatabase { torrents };
        proof {
            assert forall|id: usize| snapshot@.contains_key(id) <==> snapshot_of_db(
                self@,
            ).contains_key(id) by {
                if self@.torrents.contains_key(id) {
                    assert(ids@.contains(id));
                    let k = choose|k: int| 0 <= k < ids@.len() && ids@[k] == id;
                    assert(torrents@.contains_key(id));
                }
                if torrents@.contains_key(id) {
                    let k = choose|k: int| 0 <= k < ids@.len() && #[trigger] ids@[k] == id;
                    assert(ids@.contains(id));
                }
            }
            assert(snapshot@ =~= snapshot_of_db(self@));
        }
        snapshot
    }
}

/// The descriptor as it is written into a snapshot: its encoding in base64,
/// standard alphabet, no padding.
pub fn serialize_torrent(info: &TorrentInfo) -> (text: String)
    ensures
        text@ == base64_text(info@.encoded),
{
    base64_encode(info.encoded.as_slice())
}

/// Why a stored torrent cannot be read.
#[derive(Clone, Copy, Debug, PartialEq, Eq, Structural)]
pub enum RestoreError {
    /// The stored descriptor is not base64.
    BadDescriptor,
    /// The stored info hash is not forty hexadecimal digits.
    BadInfoHash(Id20Error),
    /// The torrent could not be added.
    Add(AddTorrentError),
}

/// The encoding of a descriptor, read from what a snapshot holds of it.
pub fn deserialize_torrent(text: &str) -> (r: Result<Vec<u8>, RestoreError>)
    ensures
        match r {
            Ok(encoded) => base64_bytes(text@) == Some(encoded@),
            Err(e) => base64_bytes(text@).is_none() && e == RestoreError::BadDescriptor,
        },
{
    match base64_decode(text) {
        Some(encoded) => Ok(encoded),
        None => Err(RestoreError::BadDescriptor),
    }
}

/// The tracker that the torrent file of a restored torrent names where none
/// is stored. Such a torrent is restored without trackers: the file needs a
/// tracker to name, the torrent announces to none.
pub open spec fn fallback_announce() -> Seq<u8> {
    encode_utf8("http://retracker.local/announce"@)
}

/// The stored trackers as the bytes of a torrent file.
pub open spec fn tracker_bytes(trackers: Seq<Seq<char>>) -> Seq<Seq<u8>> {
    trackers.map_values(|t: Seq<char>| encode_utf8(t))
}

/// A request to add a stored torrent again.
#[derive(Debug)]
pub struct RestoreRequest {
    pub torrent: TorrentMeta,
    pub opts: AddTorrentOptions,
}

/// What a request to add a stored torrent again holds.
pub struct RestoreRequestView {
    pub info_hash: Seq<u8>,
    pub info: TorrentInfoView,
    pub announce: Seq<u8>,
    pub announce_list: Seq<Seq<Seq<u8>>>,
    pub paused: bool,
    pub output_folder: Seq<char>,
    pub only_files: Option<Seq<usize>>,
    pub disable_trackers: bool,
    pub preferred_id: usize,
}

/// The request that a stored torrent gives: the torrent with the stored
/// trackers as its one tier, to be added under its old id, into its old
/// folder, with its old selection of files, paused if it was paused, and
/// without trackers if none is stored.
pub open spec fn restore_request_of(id: usize, stored: SerializedTorrentView) -> Result<
    RestoreRequestView,
    RestoreError,
> {
    if stored.info_hash.len() != 40 {
        Err(RestoreError::BadInfoHash(Id20Error::WrongLength))
    } else if !is_hex(stored.info_hash) {
        Err(RestoreError::BadInfoHash(Id20Error::NotHex))
    } else {
        Ok(
            RestoreRequestView {
                info_hash: unhex(stored.info_hash),
                info: stored.info,
                announce: if stored.trackers.len() > 0 {
                    encode_utf8(stored.trackers[0])
                } else {
                    fallback_announce()
                },
                announce_list: seq![tracker_bytes(stored.trackers)],
                paused: stored.is_paused,
                output_folder: stored.output_folder,
                only_files: stored.only_files,
                disable_trackers: stored.trackers.len() == 0,
                preferred_id: id,
            },
        )
    }
}

impl RestoreRequest {
    /// `true` when the request holds what the view says, and leaves every
    /// other option at its default, but for `overwrite`, which is set: a
    /// torrent that is resumed may write over what is on disk.
    pub open spec fn is(self, v: RestoreRequestView) -> bool {
        &&& self.torrent.info_hash@ == v.info_hash
        &&& self.torrent.info@ == v.info
        &&& self.torrent.announce@ == v.announce
        &&& crate::add_torrent::tiers_view(self.torrent.announce_list@) == v.announce_list
        &&& self.opts.paused == v.paused
        &&& self.opts.output_folder matches Some(folder) && folder@ == v.output_folder
        &&& indices_view(self.opts.only_files) == v.only_files
        &&& self.opts.preferred_id == Some(v.preferred_id)
        &&& self.opts.overwrite
        &&& !self.opts.list_only
        &&& self.opts.disable_trackers == v.disable_trackers
        &&& self.opts.only_files_regex.is_none()
        &&& self.opts.sub_folder.is_none()
        &&& self.opts.peer_opts.is_none()
        &&& self.opts.force_tracker_interval.is_none()
        &&& self.opts.initial_peers.is_none()
    }
}

/// The bytes of a string.
fn string_bytes(s: &String) -> (bytes: Vec<u8>)
    ensures
        bytes@ == encode_utf8(s@),
{
    vstd::slice::slice_to_vec(s.as_str().as_bytes())
}

/// Turns a stored torrent into a request to add it again under its old id.
pub fn restore_request(id: TorrentId, stored: &SerializedTorrent) -> (r: Result<
    RestoreRequest,
    RestoreError,
>)
    ensures
        match r {
            Ok(request) => restore_request_of(id, stored@) matches Ok(v) && request.is(v),
            Err(e) => restore_request_of(id, stored@) == Err::<RestoreRequestView, RestoreError>(e),
        },
{
    let info_hash = match Id20::from_str(stored.info_hash.as_str()) {
        Ok(info_hash) => info_hash,
        Err(e) => {
            return Err(RestoreError::BadInfoHash(e));
        },
    };
    let ghost stored_trackers = strings_view(stored.trackers@);
    let mut trackers: Vec<Vec<u8>> = Vec::new();
    let mut i: usize = 0;
    while i < stored.trackers.len()
        invariant
            0 <= i <= stored.trackers.len(),
            stored_trackers == strings_view(stored.trackers@),
            trackers@.len() == i,
            forall|k: int| 0 <= k < i ==> trackers@[k]@ == encode_utf8(stored_trackers[k]),
        decreases stored.trackers.len() - i,
    {
        assert(stored_trackers[i as int] == stored.trackers@[i as int]@);
        trackers.push(string_bytes(&stored.trackers[i]));
        i = i + 1;
    }
    let announce: Vec<u8> = if trackers.len() > 0 {
        crate::torrent::clone_bytes(&trackers[0])
    } else {
        vstd::slice::slice_to_vec("http://retracker.local/announce".as_bytes())
    };
    assert(trackers@.map_values(|t: Vec<u8>| t@) =~= tracker_bytes(stored_trackers));
    let mut announce_list: Vec<Vec<Vec<u8>>> = Vec::new();
    announce_list.push(trackers);
    assert(crate::add_torrent::tiers_view(announce_list@) =~= seq![tracker_bytes(stored_trackers)]);
    let torrent = TorrentMeta { announce, announce_list, info: stored.info.clone(), info_hash };
    let opts = AddTorrentOptions {
        paused: stored.is_paused,
        only_files_regex: None,
        only_files: clone_indices(&stored.only_files),
        overwrite: true,
        list_only: false,
        output_folder: Some(stored.output_folder.clone()),
        sub_folder: None,
        peer_opts: None,
        force_tracker_interval: None,
        disable_trackers: stored.trackers.len() == 0,
        initial_peers: None,
        preferred_id: Some(id),
    };
    Ok(RestoreRequest { torrent, opts })
}

/// A torrent's stored form gives a request that holds what the torrent held:
/// its info hash, descriptor, folder, selection of files and paused flag, and
/// its trackers as bytes, to be added under its id.
pub proof fn lemma_restore_request_keeps_fields(id: usize, torrent: ManagedTorrentView)
    requires
        torrent.info_hash.len() == 20,
    ensures
        restore_request_of(id, snapshot_of(torrent)) matches Ok(v) && {
            &&& v.info_hash == torrent.info_hash
            &&& v.info == torrent.info
            &&& v.output_folder == torrent.out_dir
            &&& v.only_files == torrent.only_files
            &&& v.paused == (torrent.state == TorrentState::Paused)
            &&& v.announce_list == seq![tracker_bytes(torrent.trackers)]
            &&& v.preferred_id == id
        },
{
    lemma_hex_round_trip(torrent.info_hash);
}

} // verus!
