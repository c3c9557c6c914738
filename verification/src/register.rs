//! Registering a torrent: what a request builds, what the session answers,
//! and what holds of the registry afterwards.

use crate::id20::Id20;
use crate::options::{default_options, AddTorrentError, AddTorrentOptions, PeerAddr};
use crate::selection::{only_files_result, output_folder_of, selection_result};
use crate::session_db::{DbView, TorrentId};
use crate::torrent::{
    geometry_of, indices_view, opt_string_view, strings_view, ManagedTorrentHandle,
    ManagedTorrentOptions,
    ManagedTorrentView, PeerConnectionOptions, TorrentInfo, TorrentInfoView, TorrentState,
};
use std::time::Duration;
use vstd::prelude::*;

verus! {

/// A list of texts without its repetitions: of each text the first occurrence
/// stays, in its place.
pub open spec fn without_repeats(texts: Seq<Seq<char>>) -> Seq<Seq<char>>
    decreases texts.len(),
{
    if texts.len() == 0 {
        Seq::empty()
    } else {
        let before = without_repeats(texts.drop_last());
        if before.contains(texts.last()) {
            before
        } else {
            before.push(texts.last())
        }
    }
}

/// `without_repeats` holds the same texts, each once.
pub proof fn lemma_without_repeats(texts: Seq<Seq<char>>)
    ensures
        without_repeats(texts).no_duplicates(),
        forall|t: Seq<char>| without_repeats(texts).contains(t) <==> texts.contains(t),
        texts.no_duplicates() ==> without_repeats(texts) == texts,
    decreases texts.len(),
{
    if texts.len() > 0 {
        let shorter = texts.drop_last();
        let before = without_repeats(shorter);
        lemma_without_repeats(shorter);
        assert forall|t: Seq<char>| without_repeats(texts).contains(t) <==> texts.contains(t) by {
            if texts.contains(t) {
                let i = choose|i: int| 0 <= i < texts.len() && texts[i] == t;
                if i < texts.len() - 1 {
                    assert(shorter[i] == t);
                    assert(shorter.contains(t));
                    assert(before.contains(t));
                    let k = choose|k: int| 0 <= k < before.len() && before[k] == t;
                    assert(without_repeats(texts)[k] == t);
                } else {
                    if !before.contains(t) {
                        assert(without_repeats(texts)[before.len() as int] == t);
                    }
                }
            }
            if without_repeats(texts).contains(t) {
                let k = choose|k: int|
                    0 <= k < without_repeats(texts).len() && without_repeats(texts)[k] == t;
                if k < before.len() {
                    assert(before[k] == t);
                    assert(without_repeats(shorter).contains(t));
                    assert(shorter.contains(t));
                    let i = choose|i: int| 0 <= i < shorter.len() && shorter[i] == t;
                    assert(texts[i] == t);
                } else {
                    assert(texts[texts.len() - 1] == t);
                }
            }
        }
        if texts.no_duplicates() {
            assert(shorter.no_duplicates());
            if before.contains(texts.last()) {
                let i = choose|i: int| 0 <= i < shorter.len() && shorter[i] == texts.last();
                assert(texts[i] == texts[texts.len() - 1]);
            }
            assert(before.push(texts.last()) =~= texts);
        }
    }
}

/// Drops the repetitions from a list of strings.
pub fn dedup_strings(texts: Vec<String>) -> (r: Vec<String>)
    ensures
        strings_view(r@) == without_repeats(strings_view(texts@)),
{
    let ghost all = strings_view(texts@);
    let mut r: Vec<String> = Vec::new();
    let mut i: usize = 0;
    while i < texts.len()
        invariant
            0 <= i <= texts.len(),
            all == strings_view(texts@),
            strings_view(r@) == without_repeats(all.subrange(0, i as int)),
        decreases texts.len() - i,
    {
        let ghost prefix = all.subrange(0, i as int);
        let ghost longer = all.subrange(0, i + 1);
        assert(longer.drop_last() =~= prefix);
        assert(longer.last() == texts@[i as int]@);
        let mut seen: bool = false;
        let mut j: usize = 0;
        while j < r.len()
            invariant
                0 <= j <= r.len(),
                0 <= i < texts.len(),
                seen == (exists|k: int| 0 <= k < j && r@[k]@ == texts@[i as int]@),
            decreases r.len() - j,
        {
            if r[j] == texts[i] {
                seen = true;
            }
            j = j + 1;
        }
        proof {
            let before = strings_view(r@);
            if seen {
                let k = choose|k: int| 0 <= k < r@.len() && r@[k]@ == texts@[i as int]@;
                assert(before[k] == longer.last());
            } else {
                if before.contains(longer.last()) {
                    let k = choose|k: int| 0 <= k < before.len() && before[k] == longer.last();
                    assert(r@[k]@ == texts@[i as int]@);
                }
            }
        }
        if !seen {
            let ghost before = strings_view(r@);
            r.push(texts[i].clone());
            assert(strings_view(r@) =~= before.push(longer.last()));
        }
        i = i + 1;
    }
    assert(all.subrange(0, texts@.len() as int) =~= all);
    r
}

/// What listing a torrent without adding it returns.
#[derive(Debug)]
pub struct ListOnlyResponse {
    pub info_hash: Id20,
    pub info: TorrentInfo,
    pub only_files: Option<Vec<usize>>,
    pub output_folder: String,
    pub seen_peers: Vec<PeerAddr>,
}

pub struct ListOnlyView {
    pub info_hash: Seq<u8>,
    pub info: TorrentInfoView,
    pub only_files: Option<Seq<usize>>,
    pub output_folder: Seq<char>,
    pub seen_peers: Seq<PeerAddr>,
}

impl View for ListOnlyResponse {
    type V = ListOnlyView;

    open spec fn view(&self) -> ListOnlyView {
        ListOnlyView {
            info_hash: self.info_hash@,
            info: self.info@,
            only_files: indices_view(self.only_files),
            output_folder: self.output_folder@,
            seen_peers: self.seen_peers@,
        }
    }
}

/// What adding a torrent returns.
#[derive(Debug)]
pub enum AddTorrentResponse {
    /// A torrent with this info hash was in the session already.
    AlreadyManaged(TorrentId, ManagedTorrentHandle),
    /// The torrent was only listed.
    ListOnly(ListOnlyResponse),
    /// The torrent is new and now managed.
    Added(TorrentId, ManagedTorrentHandle),
}

pub enum ResponseView {
    AlreadyManaged(TorrentId, ManagedTorrentView),
    ListOnly(ListOnlyView),
    Added(TorrentId, ManagedTorrentView),
}

impl View for AddTorrentResponse {
    type V = ResponseView;

    open spec fn view(&self) -> ResponseView {
        match self {
            AddTorrentResponse::AlreadyManaged(id, t) => ResponseView::AlreadyManaged(*id, t@),
            AddTorrentResponse::ListOnly(l) => ResponseView::ListOnly(l@),
            AddTorrentResponse::Added(id, t) => ResponseView::Added(*id, t@),
        }
    }
}

impl AddTorrentResponse {
    /// The torrent, unless it was only listed.
    pub fn into_handle(self) -> (r: Option<ManagedTorrentHandle>)
        ensures
            match self {
                AddTorrentResponse::AlreadyManaged(_, handle) => r == Some(handle),
                AddTorrentResponse::ListOnly(_) => r.is_none(),
                AddTorrentResponse::Added(_, handle) => r == Some(handle),
            },
    {
        match self {
            AddTorrentResponse::AlreadyManaged(_, handle) => Some(handle),
            AddTorrentResponse::ListOnly(_) => None,
            AddTorrentResponse::Added(_, handle) => Some(handle),
        }
    }
}

/// The options of a request that `register` reads.
pub struct RegisterOptions {
    pub list_only: bool,
    pub overwrite: bool,
    pub disable_trackers: bool,
    pub force_tracker_interval: Option<Duration>,
    pub peer_opts: Option<PeerConnectionOptions>,
    pub preferred_id: Option<usize>,
}

/// The part of a request's options that `register` reads.
pub open spec fn register_options(opts: AddTorrentOptions) -> RegisterOptions {
    RegisterOptions {
        list_only: opts.list_only,
        overwrite: opts.overwrite,
        disable_trackers: opts.disable_trackers,
        force_tracker_interval: opts.force_tracker_interval,
        peer_opts: opts.peer_opts,
        preferred_id: opts.preferred_id,
    }
}

/// The second option where the first is not set.
pub open spec fn or_else(first: Option<Duration>, second: Option<Duration>) -> Option<Duration> {
    if first.is_some() {
        first
    } else {
        second
    }
}

/// A request's peer options over the session's: what the request leaves out
/// is taken from the session.
pub open spec fn merged_peer_opts(
    session: PeerConnectionOptions,
    other: Option<PeerConnectionOptions>,
) -> PeerConnectionOptions {
    let other = match other {
        Some(o) => o,
        None => session,
    };
    PeerConnectionOptions {
        connect_timeout: or_else(other.connect_timeout, session.connect_timeout),
        read_write_timeout: or_else(other.read_write_timeout, session.read_write_timeout),
        keep_alive_interval: or_else(other.keep_alive_interval, session.keep_alive_interval),
    }
}

/// The torrent that a request builds.
pub open spec fn built_torrent(
    info_hash: Seq<u8>,
    info: TorrentInfoView,
    only_files: Option<Seq<usize>>,
    output_folder: Seq<char>,
    trackers: Seq<Seq<char>>,
    opts: RegisterOptions,
    session_peer_opts: PeerConnectionOptions,
) -> ManagedTorrentView {
    let peer_opts = merged_peer_opts(session_peer_opts, opts.peer_opts);
    ManagedTorrentView {
        info_hash,
        info,
        out_dir: output_folder,
        trackers: if opts.disable_trackers {
            Seq::empty()
        } else {
            without_repeats(trackers)
        },
        only_files,
        lengths: geometry_of(info).unwrap(),
        options: ManagedTorrentOptions {
            overwrite: opts.overwrite,
            force_tracker_interval: opts.force_tracker_interval,
            peer_connect_timeout: peer_opts.connect_timeout,
            peer_read_write_timeout: peer_opts.read_write_timeout,
        },
        state: TorrentState::Initializing,
    }
}

/// The id of the torrent with this info hash.
pub open spec fn id_of(db: DbView, info_hash: Seq<u8>) -> usize {
    choose|id: usize| #[trigger] db.torrents.contains_key(id) && db.torrents[id].info_hash == info_hash
}

/// What registering a torrent with settled files and folder returns.
pub open spec fn register_outcome(
    db: DbView,
    session_peer_opts: PeerConnectionOptions,
    info_hash: Seq<u8>,
    info: TorrentInfoView,
    only_files: Option<Seq<usize>>,
    output_folder: Seq<char>,
    initial_peers: Seq<PeerAddr>,
    trackers: Seq<Seq<char>>,
    opts: RegisterOptions,
) -> Result<ResponseView, AddTorrentError> {
    if opts.list_only {
        Ok(
            ResponseView::ListOnly(
                ListOnlyView { info_hash, info, only_files, output_folder, seen_peers: initial_peers },
            ),
        )
    } else if db.manages(info_hash) {
        Ok(ResponseView::AlreadyManaged(id_of(db, info_hash), db.torrents[id_of(db, info_hash)]))
    } else {
        match geometry_of(info) {
            Err(e) => Err(AddTorrentError::Geometry(e)),
            Ok(_) => if !db.can_add(opts.preferred_id) {
                Err(AddTorrentError::RegistryFull)
            } else {
                Ok(
                    ResponseView::Added(
                        db.assigned_id(opts.preferred_id) as usize,
                        built_torrent(
                            info_hash,
                            info,
                            only_files,
                            output_folder,
                            trackers,
                            opts,
                            session_peer_opts,
                        ),
                    ),
                )
            },
        }
    }
}

/// The registry after `register`: grown by the new torrent where one was
/// added, else as it was.
pub open spec fn register_db(db: DbView, outcome: Result<ResponseView, AddTorrentError>, opts: RegisterOptions) -> DbView {
    match outcome {
        Ok(ResponseView::Added(_, torrent)) => db.add(torrent, opts.preferred_id),
        _ => db,
    }
}

/// The view of what adding a torrent returned.
pub open spec fn outcome_view(r: Result<AddTorrentResponse, AddTorrentError>) -> Result<
    ResponseView,
    AddTorrentError,
> {
    match r {
        Ok(response) => Ok(response@),
        Err(e) => Err(e),
    }
}

/// What adding a torrent returns for a request that is explicit: an error for
/// a bad list of files or for a sub-folder beside the folder; else what
/// `register` returns for the list and the folder given.
pub open spec fn explicit_outcome(
    db: DbView,
    session_peer_opts: PeerConnectionOptions,
    info_hash: Seq<u8>,
    info: TorrentInfoView,
    initial_peers: Seq<PeerAddr>,
    trackers: Seq<Seq<char>>,
    only_files: Option<Seq<usize>>,
    output_folder: Seq<char>,
    has_sub_folder: bool,
    opts: RegisterOptions,
) -> Result<ResponseView, AddTorrentError> {
    match only_files_result(info.files, only_files, false) {
        Err(e) => Err(e),
        Ok(only_files) => if has_sub_folder {
            Err(AddTorrentError::OutputFolderConflict)
        } else {
            register_outcome(
                db,
                session_peer_opts,
                info_hash,
                info,
                only_files,
                output_folder,
                initial_peers,
                trackers,
                opts,
            )
        },
    }
}

/// What a request to add a torrent is answered with, in a session whose
/// folder is `root`.
///
/// The files are those the request selects, and a request that selects badly
/// is answered with the error of its selection. The folder is the one the
/// request names, or the sub-folder it names or is given by default, joined
/// under `root`; a request that settles no folder is answered with the error
/// of that. With files and folder settled, the answer is that of
/// `register_outcome`.
pub open spec fn request_outcome(
    db: DbView,
    session_peer_opts: PeerConnectionOptions,
    root: Seq<char>,
    info_hash: Seq<u8>,
    info: TorrentInfoView,
    initial_peers: Seq<PeerAddr>,
    trackers: Seq<Seq<char>>,
    opts: AddTorrentOptions,
) -> Result<ResponseView, AddTorrentError> {
    match selection_result(
        info.files,
        indices_view(opts.only_files),
        opt_string_view(opts.only_files_regex),
    ) {
        Err(e) => Err(e),
        Ok(only_files) => match output_folder_of(
            root,
            info,
            opt_string_view(opts.output_folder),
            opt_string_view(opts.sub_folder),
        ) {
            Err(e) => Err(e),
            Ok(folder) => register_outcome(
                db,
                session_peer_opts,
                info_hash,
                info,
                only_files,
                folder,
                initial_peers,
                trackers,
                register_options(opts),
            ),
        },
    }
}

/// A request for an info hash that the session manages, and that is not a
/// request to list, gets the torrent that is there, under its id, whatever
/// else it asks for: which folder, which trackers, which descriptor. It
/// fails only where its own selection of files or its own folder fails. The
/// registry stays as it is.
pub proof fn lemma_managed_torrent_is_returned(
    db: DbView,
    session_peer_opts: PeerConnectionOptions,
    root: Seq<char>,
    info_hash: Seq<u8>,
    info: TorrentInfoView,
    initial_peers: Seq<PeerAddr>,
    trackers: Seq<Seq<char>>,
    opts: AddTorrentOptions,
)
    requires
        db.manages(info_hash),
        !opts.list_only,
    ensures
        ({
            let r = request_outcome(
                db,
                session_peer_opts,
                root,
                info_hash,
                info,
                initial_peers,
                trackers,
                opts,
            );
            &&& r is Ok ==> r == Ok::<ResponseView, AddTorrentError>(
                ResponseView::AlreadyManaged(
                    id_of(db, info_hash),
                    db.torrents[id_of(db, info_hash)],
                ),
            )
            &&& r is Ok <==> selection_result(
                info.files,
                indices_view(opts.only_files),
                opt_string_view(opts.only_files_regex),
            ) is Ok && output_folder_of(
                root,
                info,
                opt_string_view(opts.output_folder),
                opt_string_view(opts.sub_folder),
            ) is Ok
            &&& register_db(db, r, register_options(opts)) == db
        }),
{
}

/// The options of a request, or the default options where it has none.
pub open spec fn options_or_default(opts: Option<AddTorrentOptions>) -> AddTorrentOptions {
    match opts {
        Some(opts) => opts,
        None => default_options(),
    }
}

/// What a step that settled a request returned.
pub open spec fn step_outcome(r: Result<AddTorrentStep, AddTorrentError>) -> Result<
    ResponseView,
    AddTorrentError,
> {
    match r {
        Ok(AddTorrentStep::Done(response)) => Ok(response@),
        Ok(_) => Err(AddTorrentError::UnsupportedUrl),
        Err(e) => Err(e),
    }
}

/// The peers that a request starts off with.
pub open spec fn initial_peers_of(opts: AddTorrentOptions) -> Seq<PeerAddr> {
    match opts.initial_peers {
        Some(peers) => peers@,
        None => Seq::empty(),
    }
}

/// What the caller has to do before a torrent can be added, or the result if
/// nothing is left to do.
#[derive(Debug)]
pub enum AddTorrentStep {
    /// The request is settled.
    Done(AddTorrentResponse),
    /// Resolve the magnet link: discover peers for its info hash, announcing
    /// the given port, and read the descriptor from them. Then call
    /// `add_resolved_magnet` with the trackers the link names.
    ResolveMagnet {
        info_hash: Id20,
        trackers: Vec<String>,
        announce_port: Option<u16>,
        initial_peers: Vec<PeerAddr>,
        peer_opts: PeerConnectionOptions,
    },
    /// Download the torrent file from this address and decode it. Then call
    /// `add_torrent_info`.
    Fetch { url: String },
    /// Decode these bytes of a torrent file. Then call `add_torrent_info`.
    Decode { bytes: Vec<u8> },
}

/// A request for a stream of peers from the DHT.
#[derive(Clone, Copy, Debug)]
pub struct PeerStreamRequest {
    pub info_hash: Id20,
    /// The port to announce, if any.
    pub announce_port: Option<u16>,
}

/// A preferred id that is taken does not fail the call: the new torrent gets
/// the counter's value, and the torrent that holds the preferred id, like
/// every other, stays as it was.
pub proof fn lemma_colliding_preferred_id(db: DbView, torrent: ManagedTorrentView, preferred: usize)
    requires
        db.wf(),
        db.torrents.contains_key(preferred),
    ensures
        db.assigned_id(Some(preferred)) == db.next_id,
        db.assigned_id(Some(preferred)) != preferred,
        !db.torrents.contains_key(db.next_id as usize),
        db.next_id < usize::MAX ==> {
            &&& db.can_add(Some(preferred))
            &&& db.add(torrent, Some(preferred)).wf()
            &&& db.add(torrent, Some(preferred)).torrents[db.next_id as usize] == torrent
            &&& db.add(torrent, Some(preferred)).torrents[preferred] == db.torrents[preferred]
            &&& forall|id: usize| #[trigger]
                db.torrents.contains_key(id) ==> db.add(torrent, Some(preferred)).torrents.contains_key(
                    id,
                ) && db.add(torrent, Some(preferred)).torrents[id] == db.torrents[id]
        },
{
    if db.torrents.contains_key(db.next_id as usize) {
        assert((db.next_id as usize) < db.next_id);
    }
}

/// Adding a torrent never touches a torrent that is in the registry, and the
/// id it gets was not in use.
pub proof fn lemma_add_keeps_the_rest(db: DbView, torrent: ManagedTorrentView, preferred_id: Option<usize>)
    requires
        db.wf(),
        db.can_add(preferred_id),
    ensures
        !db.torrents.contains_key(db.assigned_id(preferred_id) as usize),
        db.add(torrent, preferred_id).wf(),
        db.add(torrent, preferred_id).next_id > db.next_id,
        db.add(torrent, preferred_id).next_id > db.assigned_id(preferred_id),
        db.add(torrent, preferred_id).torrents.dom() == db.torrents.dom().insert(
            db.assigned_id(preferred_id) as usize,
        ),
        forall|id: usize| #[trigger]
            db.torrents.contains_key(id) ==> db.add(torrent, preferred_id).torrents[id]
                == db.torrents[id],
{
    if !db.takes_preferred(preferred_id) {
        if db.torrents.contains_key(db.next_id as usize) {
            assert((db.next_id as usize) < db.next_id);
        }
    }
}

/// Once a torrent is added, a second request for the same info hash returns
/// that torrent under its id, whatever else the request says, and the
/// registry stays as it is: no second entry is made.
pub proof fn lemma_second_add_returns_first(
    db: DbView,
    session_peer_opts: PeerConnectionOptions,
    info_hash: Seq<u8>,
    first_info: TorrentInfoView,
    first_files: Option<Seq<usize>>,
    first_folder: Seq<char>,
    first_peers: Seq<PeerAddr>,
    first_trackers: Seq<Seq<char>>,
    first_opts: RegisterOptions,
    second_info: TorrentInfoView,
    second_files: Option<Seq<usize>>,
    second_folder: Seq<char>,
    second_peers: Seq<PeerAddr>,
    second_trackers: Seq<Seq<char>>,
    second_opts: RegisterOptions,
)
    requires
        db.wf(),
        db.distinct_info_hashes(),
        !second_opts.list_only,
        register_outcome(
            db,
            session_peer_opts,
            info_hash,
            first_info,
            first_files,
            first_folder,
            first_peers,
            first_trackers,
            first_opts,
        ) matches Ok(ResponseView::Added(_, _)),
    ensures
        ({
            let first = register_outcome(
                db,
                session_peer_opts,
                info_hash,
                first_info,
                first_files,
                first_folder,
                first_peers,
                first_trackers,
                first_opts,
            );
            let after = register_db(db, first, first_opts);
            let second = register_outcome(
                after,
                session_peer_opts,
                info_hash,
                second_info,
                second_files,
                second_folder,
                second_peers,
                second_trackers,
                second_opts,
            );
            &&& first matches Ok(ResponseView::Added(id, torrent)) && second == Ok::<
                ResponseView,
                AddTorrentError,
            >(ResponseView::AlreadyManaged(id, torrent))
            &&& register_db(after, second, second_opts) == after
            &&& after.distinct_info_hashes()
            &&& after.torrents.len() == db.torrents.len() + 1
        }),
{
    let first = register_outcome(
        db,
        session_peer_opts,
        info_hash,
        first_info,
        first_files,
        first_folder,
        first_peers,
        first_trackers,
        first_opts,
    );
    let after = register_db(db, first, first_opts);
    match first {
        Ok(ResponseView::Added(id, torrent)) => {
            lemma_add_keeps_the_rest(db, torrent, first_opts.preferred_id);
            db.lemma_add_keeps_sound(torrent, first_opts.preferred_id);
            assert(after.torrents.contains_key(id) && after.torrents[id].info_hash == info_hash);
            assert(after.manages(info_hash));
            let found = id_of(after, info_hash);
            assert(after.torrents.contains_key(found) && after.torrents[found].info_hash
                == info_hash);
            assert(found == id);
        },
        _ => {},
    }
}

} // verus!
