//! The session: the registry of torrents together with what every torrent
//! added to it shares.
//!
//! Everything here computes on plain values. What needs the network, the disk
//! or a clock is done by the caller, which hands the results in.

use crate::add_torrent::{
    tracker_urls_from_bytes, tracker_urls_from_texts, trackers_of_bytes, trackers_of_texts,
    url_kind, AddKind, AddTorrent, TorrentMeta,
};
use crate::admission::{
    admission, moved_to_front, AdmissionError, CheckedIncomingConnection, Handshake,
};
use crate::id20::Id20;
use crate::magnet::{magnet_of, Magnet};
use crate::options::{AddTorrentError, AddTorrentOptions, PeerAddr};
use crate::register::{
    dedup_strings, id_of, initial_peers_of, request_outcome,
    lemma_without_repeats, merged_peer_opts, options_or_default, outcome_view, register_db,
    register_options, register_outcome, step_outcome, without_repeats, AddTorrentResponse,
    AddTorrentStep,
    ListOnlyResponse, PeerStreamRequest, ResponseView,
};
use crate::restore::{
    lists_snapshot, restore_all, restore_one, restore_outcome, restore_result_view, RestoreOutcome,
};
use crate::selection::{get_only_files, plan_output_folder, resolve_output_folder};
use crate::session_db::{DbView, SessionDatabase, TorrentId};
use crate::snapshot::{
    restore_request, RestoreError, RestoreRequest, SerializedSessionDatabase, SerializedTorrent,
    SerializedTorrentView,
};
use crate::startup::{
    background_tasks, BackgroundTask, DhtPlan, PersistentDhtConfig, SessionOptions, Started,
    StartupPlan,
};
use crate::torrent::{
    indices_in_range, indices_view, lengths_from_torrent, opt_string_view, strings_view,
    ManagedTorrent, ManagedTorrentOptions, ManagedTorrentView, PeerConnectionOptions,
    TorrentInfo, TorrentState,
};
use vstd::prelude::*;
use vstd::std_specs::hash::*;
use vstd::std_specs::iter::IteratorSpec;

verus! {

broadcast use vstd::std_specs::hash::group_hash_axioms;

/// Why the session cannot do what it was asked.
#[derive(Clone, Copy, Debug, PartialEq, Eq, Structural)]
pub enum SessionError {
    /// No torrent has this id.
    NoSuchTorrent(TorrentId),
}

/// What pausing a torrent that is being deleted came to.
#[derive(Debug)]
pub enum PauseOutcome {
    /// Pausing failed.
    Failed,
    /// The torrent was in no state to pause; it holds no files.
    NoFiles,
    /// The torrent is paused; these are its files.
    Paused(Vec<String>),
}

/// How the deletion of a torrent ends.
#[derive(Debug)]
pub enum DeleteAction {
    /// The torrent is gone from the session, its files are not: report an
    /// error.
    Fail,
    /// The torrent could not be paused: warn, and report success.
    Warn,
    /// Remove these files; a file that cannot be removed is a warning.
    RemoveFiles(Vec<String>),
    /// Nothing is left to do.
    Nothing,
}

/// What has to happen to a torrent that was taken out of the session.
#[derive(Clone, Copy, Debug, PartialEq, Eq, Structural)]
pub enum PausePlan {
    /// It is paused; take its files.
    TakePaused,
    /// It is live; pause it.
    PauseLive,
    /// It is in neither state; leave it.
    Leave,
}

/// A session: the registry, and what its torrents share.
#[derive(Debug)]
pub struct Session {
    peer_id: Id20,
    dht_enabled: bool,
    persistence_filename: String,
    peer_opts: PeerConnectionOptions,
    db: SessionDatabase,
    output_folder: String,
    tcp_listen_port: Option<u16>,
}

pub struct SessionView {
    pub peer_id: Seq<u8>,
    pub dht_enabled: bool,
    pub persistence_filename: Seq<char>,
    pub peer_opts: PeerConnectionOptions,
    pub db: DbView,
    pub output_folder: Seq<char>,
    pub tcp_listen_port: Option<u16>,
}

impl View for Session {
    type V = SessionView;

    closed spec fn view(&self) -> SessionView {
        SessionView {
            peer_id: self.peer_id@,
            dht_enabled: self.dht_enabled,
            persistence_filename: self.persistence_filename@,
            peer_opts: self.peer_opts,
            db: self.db@,
            output_folder: self.output_folder@,
            tcp_listen_port: self.tcp_listen_port,
        }
    }
}

impl SessionView {
    /// The registry is well formed, every torrent in it is consistent, and no
    /// two torrents share an info hash.
    pub open spec fn wf(self) -> bool {
        self.db.wf() && self.db.consistent_torrents() && self.db.distinct_info_hashes()
    }
}

impl Session {
    /// The registry is well formed, every torrent in it is consistent, and no
    /// two of its torrents share an info hash.
    pub open spec fn wf(&self) -> bool {
        self@.wf()
    }

    /// The session's default peer options with a request's laid over them.
    pub fn merge_peer_opts(&self, other: Option<PeerConnectionOptions>) -> (merged:
        PeerConnectionOptions)
        ensures
            merged == merged_peer_opts(self@.peer_opts, other),
    {
        let other = match other {
            Some(o) => o,
            None => self.peer_opts,
        };
        PeerConnectionOptions {
            connect_timeout: match other.connect_timeout {
                Some(t) => Some(t),
                None => self.peer_opts.connect_timeout,
            },
            read_write_timeout: match other.read_write_timeout {
                Some(t) => Some(t),
                None => self.peer_opts.read_write_timeout,
            },
            keep_alive_interval: match other.keep_alive_interval {
                Some(t) => Some(t),
                None => self.peer_opts.keep_alive_interval,
            },
        }
    }

    /// The torrent with the given id.
    pub fn get(&self, id: TorrentId) -> (r: Option<&ManagedTorrent>)
        ensures
            match r {
                Some(t) => self@.db.torrents.contains_key(id) && t@ == self@.db.torrents[id],
                None => !self@.db.torrents.contains_key(id),
            },
    {
        self.db.get(id)
    }

    /// The port to announce to the DHT for a request: the port the session
    /// listens on, unless the torrent is only listed.
    pub fn announce_port(&self, opts: &AddTorrentOptions) -> (port: Option<u16>)
        ensures
            port == if opts.list_only {
                None
            } else {
                self@.tcp_listen_port
            },
    {
        if opts.list_only {
            None
        } else {
            self.tcp_listen_port
        }
    }

    /// The stream of peers to open for a decoded torrent before it is added:
    /// one is wanted when the session has a DHT and the torrent is to run.
    pub fn peer_stream_for(&self, info_hash: Id20, opts: &AddTorrentOptions) -> (r: Option<
        PeerStreamRequest,
    >)
        ensures
            r.is_some() == (self@.dht_enabled && !opts.paused && !opts.list_only),
            r matches Some(request) ==> request.info_hash == info_hash && request.announce_port
                == self@.tcp_listen_port,
    {
        if self.dht_enabled && !opts.paused && !opts.list_only {
            Some(PeerStreamRequest { info_hash, announce_port: self.tcp_listen_port })
        } else {
            None
        }
    }

    /// Whether the stream of peers that resolved a magnet link stays open for
    /// the torrent: not for a torrent that starts paused or is only listed.
    pub fn keeps_peer_stream(opts: &AddTorrentOptions) -> (keep: bool)
        ensures
            keep == !(opts.paused || opts.list_only),
    {
        !(opts.paused || opts.list_only)
    }

    /// Settles the files and the folder of a torrent and registers it. The
    /// answer is `request_outcome`; nothing is registered unless the answer
    /// is `Added`.
    pub fn main_torrent_info(
        &mut self,
        info_hash: Id20,
        info: TorrentInfo,
        initial_peers: Vec<PeerAddr>,
        trackers: Vec<String>,
        opts: AddTorrentOptions,
    ) -> (r: Result<AddTorrentResponse, AddTorrentError>)
        requires
            old(self).wf(),
        ensures
            final(self).wf(),
            outcome_view(r) == request_outcome(
                old(self)@.db,
                old(self)@.peer_opts,
                old(self)@.output_folder,
                info_hash@,
                info@,
                initial_peers@,
                strings_view(trackers@),
                opts,
            ),
            final(self)@ == (SessionView {
                db: register_db(old(self)@.db, outcome_view(r), register_options(opts)),
                ..old(self)@
            }),
    {
        let AddTorrentOptions {
            paused,
            only_files_regex,
            only_files,
            overwrite,
            list_only,
            output_folder,
            sub_folder,
            peer_opts,
            force_tracker_interval,
            disable_trackers,
            initial_peers: _,
            preferred_id,
        } = opts;
        let only_files = match get_only_files(&info, only_files, only_files_regex) {
            Ok(only_files) => only_files,
            Err(e) => {
                return Err(e);
            },
        };
        let plan = match plan_output_folder(&info, output_folder, sub_folder) {
            Ok(plan) => plan,
            Err(e) => {
                return Err(e);
            },
        };
        let output_folder = match resolve_output_folder(self.output_folder.as_str(), plan) {
            Ok(output_folder) => output_folder,
            Err(e) => {
                return Err(e);
            },
        };
        let rest = AddTorrentOptions {
            paused,
            only_files_regex: None,
            only_files: None,
            overwrite,
            list_only,
            output_folder: None,
            sub_folder: None,
            peer_opts,
            force_tracker_interval,
            disable_trackers,
            initial_peers: None,
            preferred_id,
        };
        assert(register_options(rest) == register_options(opts));
        let ghost selected = indices_view(only_files);
        let ghost folder = output_folder@;
        let r = self.register(
            info_hash,
            info,
            only_files,
            output_folder,
            initial_peers,
            trackers,
            &rest,
        );
        proof {
            let outcome = register_outcome(
                old(self)@.db,
                old(self)@.peer_opts,
                info_hash@,
                info@,
                selected,
                folder,
                initial_peers@,
                strings_view(trackers@),
                register_options(opts),
            );
            assert(outcome == outcome_view(r));
        }
        r
    }

    /// Adds a torrent whose file is decoded: its trackers are parsed, and the
    /// rest is `main_torrent_info`.
    pub fn add_torrent_info(&mut self, torrent: TorrentMeta, opts: AddTorrentOptions) -> (r: Result<
        AddTorrentResponse,
        AddTorrentError,
    >)
        requires
            old(self).wf(),
        ensures
            final(self).wf(),
            outcome_view(r) == request_outcome(
                old(self)@.db,
                old(self)@.peer_opts,
                old(self)@.output_folder,
                torrent.info_hash@,
                torrent.info@,
                initial_peers_of(opts),
                trackers_of_bytes(
                    crate::add_torrent::announce_urls(
                        torrent.announce@,
                        crate::add_torrent::tiers_view(torrent.announce_list@),
                    ),
                ),
                opts,
            ),
            final(self)@ == (SessionView {
                db: register_db(old(self)@.db, outcome_view(r), register_options(opts)),
                ..old(self)@
            }),
    {
        let announce = torrent.iter_announce();
        let trackers = tracker_urls_from_bytes(&announce);
        let initial_peers: Vec<PeerAddr> = match &opts.initial_peers {
            Some(peers) => {
                let copy = peers.clone();
                assert(copy@ =~= peers@);
                copy
            },
            None => Vec::new(),
        };
        let TorrentMeta { announce: _, announce_list: _, info, info_hash } = torrent;
        self.main_torrent_info(info_hash, info, initial_peers, trackers, opts)
    }

    /// Adds a torrent whose magnet link is resolved: `info` is the descriptor
    /// that peers gave for `info_hash`, `seen` the peers that were met on the
    /// way, `trackers` the trackers the link names.
    pub fn add_resolved_magnet(
        &mut self,
        info_hash: Id20,
        trackers: &Vec<String>,
        info: TorrentInfo,
        seen: Vec<PeerAddr>,
        opts: AddTorrentOptions,
    ) -> (r: Result<AddTorrentResponse, AddTorrentError>)
        requires
            old(self).wf(),
        ensures
            final(self).wf(),
            outcome_view(r) == request_outcome(
                old(self)@.db,
                old(self)@.peer_opts,
                old(self)@.output_folder,
                info_hash@,
                info@,
                seen@,
                trackers_of_texts(strings_view(trackers@)),
                opts,
            ),
            final(self)@ == (SessionView {
                db: register_db(old(self)@.db, outcome_view(r), register_options(opts)),
                ..old(self)@
            }),
    {
        let parsed = tracker_urls_from_texts(trackers);
        self.main_torrent_info(info_hash, info, seen, parsed, opts)
    }

    /// Takes a request to add a torrent as far as it goes without the network:
    /// a decoded torrent is added; for anything else the caller is told what
    /// to fetch, decode or resolve first.
    pub fn add_torrent(&mut self, add: AddTorrent, opts: Option<AddTorrentOptions>) -> (r: Result<
        AddTorrentStep,
        AddTorrentError,
    >)
        requires
            old(self).wf(),
        ensures
            final(self).wf(),
            match add {
                AddTorrent::Url(url) => final(self)@ == old(self)@ && match url_kind(url@) {
                    AddKind::Magnet => match magnet_of(url@) {
                        Err(e) => r matches Err(AddTorrentError::InvalidMagnet(e2)) && e2 == e,
                        Ok(magnet) => if old(self)@.dht_enabled {
                            r matches Ok(
                                AddTorrentStep::ResolveMagnet {
                                    info_hash,
                                    trackers,
                                    announce_port,
                                    initial_peers,
                                    peer_opts,
                                },
                            ) && info_hash@ == magnet.info_hash && strings_view(trackers@)
                                == magnet.trackers && announce_port == (if opts matches Some(o)
                                && o.list_only {
                                None
                            } else {
                                old(self)@.tcp_listen_port
                            }) && peer_opts == merged_peer_opts(
                                old(self)@.peer_opts,
                                match opts {
                                    Some(o) => o.peer_opts,
                                    None => None,
                                },
                            ) && initial_peers@ == (match opts {
                                Some(o) => initial_peers_of(o),
                                None => Seq::empty(),
                            })
                        } else {
                            r matches Err(AddTorrentError::MagnetWithoutDht)
                        },
                    },
                    AddKind::Http => r matches Ok(AddTorrentStep::Fetch { url: u }) && u == url,
                    _ => r matches Err(AddTorrentError::UnsupportedUrl),
                },
                AddTorrent::TorrentFileBytes(bytes) => final(self)@ == old(self)@ && (r matches Ok(
                    AddTorrentStep::Decode { bytes: b },
                ) && b == bytes),
                AddTorrent::TorrentInfo(torrent) => {
                    &&& r matches Ok(step) ==> step is Done
                    &&& step_outcome(r) == request_outcome(
                        old(self)@.db,
                        old(self)@.peer_opts,
                        old(self)@.output_folder,
                        torrent.info_hash@,
                        torrent.info@,
                        initial_peers_of(options_or_default(opts)),
                        trackers_of_bytes(
                            crate::add_torrent::announce_urls(
                                torrent.announce@,
                                crate::add_torrent::tiers_view(torrent.announce_list@),
                            ),
                        ),
                        options_or_default(opts),
                    )
                    &&& final(self)@ == (SessionView {
                        db: register_db(
                            old(self)@.db,
                            step_outcome(r),
                            register_options(options_or_default(opts)),
                        ),
                        ..old(self)@
                    })
                },
            },
    {
        let opts = match opts {
            Some(opts) => opts,
            None => AddTorrentOptions::default(),
        };
        match add {
            AddTorrent::Url(url) => {
                match AddTorrent::Url(url).kind_of_url() {
                    (AddKind::Magnet, url) => {
                        let magnet = match Magnet::parse(url.as_str()) {
                            Ok(magnet) => magnet,
                            Err(e) => {
                                return Err(AddTorrentError::InvalidMagnet(e));
                            },
                        };
                        if !self.dht_enabled {
                            return Err(AddTorrentError::MagnetWithoutDht);
                        }
                        let initial_peers: Vec<PeerAddr> = match &opts.initial_peers {
                            Some(peers) => {
                                let copy = peers.clone();
                                assert(copy@ =~= peers@);
                                copy
                            },
                            None => Vec::new(),
                        };
                        let Magnet { info_hash, trackers } = magnet;
                        Ok(
                            AddTorrentStep::ResolveMagnet {
                                info_hash,
                                trackers,
                                announce_port: self.announce_port(&opts),
                                initial_peers,
                                peer_opts: self.merge_peer_opts(opts.peer_opts),
                            },
                        )
                    },
                    (AddKind::Http, url) => Ok(AddTorrentStep::Fetch { url }),
                    (_, _) => Err(AddTorrentError::UnsupportedUrl),
                }
            },
            AddTorrent::TorrentFileBytes(bytes) => Ok(AddTorrentStep::Decode { bytes }),
            AddTorrent::TorrentInfo(torrent) => {
                match self.add_torrent_info(*torrent, opts) {
                    Ok(response) => Ok(AddTorrentStep::Done(response)),
                    Err(e) => Err(e),
                }
            },
        }
    }

    /// What has to be set up for a session with these options.
    pub fn startup_plan(opts: &SessionOptions) -> (plan: StartupPlan)
        ensures
            plan.needs_peer_id == opts.peer_id.is_none(),
            plan.listen_port_range == opts.listen_port_range,
            plan.needs_default_persistence_filename == opts.persistence_filename.is_none(),
            match plan.dht {
                DhtPlan::Disabled => opts.disable_dht,
                DhtPlan::Ephemeral => !opts.disable_dht && opts.disable_dht_persistence,
                DhtPlan::Persistent(config) => !opts.disable_dht && !opts.disable_dht_persistence
                    && match opts.dht_config {
                    Some(given) => config.dump_interval == given.dump_interval
                        && opt_string_view(config.config_filename) == opt_string_view(
                        given.config_filename,
                    ),
                    None => config.dump_interval.is_none() && config.config_filename.is_none(),
                },
            },
    {
        let dht = if opts.disable_dht {
            DhtPlan::Disabled
        } else if opts.disable_dht_persistence {
            DhtPlan::Ephemeral
        } else {
            DhtPlan::Persistent(
                match &opts.dht_config {
                    Some(given) => PersistentDhtConfig {
                        dump_interval: given.dump_interval,
                        config_filename: match &given.config_filename {
                            Some(name) => Some(name.clone()),
                            None => None,
                        },
                    },
                    None => PersistentDhtConfig::default(),
                },
            )
        };
        StartupPlan {
            needs_peer_id: opts.peer_id.is_none(),
            listen_port_range: match &opts.listen_port_range {
                Some(range) => Some(range.start..range.end),
                None => None,
            },
            dht,
            needs_default_persistence_filename: opts.persistence_filename.is_none(),
        }
    }

    /// Creates a session with options from what was set up for it, and names
    /// the tasks to start. The folder is the default for the torrents' files.
    pub fn new_with_opts(output_folder: String, opts: SessionOptions, started: Started) -> (r: (
        Session,
        Vec<BackgroundTask>,
    ))
        ensures
            r.0.wf(),
            r.0@ == (SessionView {
                peer_id: match opts.peer_id {
                    Some(id) => id@,
                    None => started.peer_id@,
                },
                dht_enabled: !opts.disable_dht,
                persistence_filename: match opts.persistence_filename {
                    Some(name) => name@,
                    None => started.default_persistence_filename@,
                },
                peer_opts: match opts.peer_opts {
                    Some(peer_opts) => peer_opts,
                    None => PeerConnectionOptions {
                        connect_timeout: None,
                        read_write_timeout: None,
                        keep_alive_interval: None,
                    },
                },
                db: DbView { next_id: 0, torrents: Map::empty() },
                output_folder: output_folder@,
                tcp_listen_port: started.tcp_listen_port,
            }),
            r.1@ == background_tasks(
                started.tcp_listen_port,
                opts.enable_upnp_port_forwarding,
                opts.persistence,
            ),
    {
        let session = Session {
            peer_id: match opts.peer_id {
                Some(id) => id,
                None => started.peer_id,
            },
            dht_enabled: !opts.disable_dht,
            persistence_filename: match opts.persistence_filename {
                Some(name) => name,
                None => started.default_persistence_filename,
            },
            peer_opts: match opts.peer_opts {
                Some(peer_opts) => peer_opts,
                None => PeerConnectionOptions {
                    connect_timeout: None,
                    read_write_timeout: None,
                    keep_alive_interval: None,
                },
            },
            db: SessionDatabase::new(),
            output_folder,
            tcp_listen_port: started.tcp_listen_port,
        };
        let mut tasks: Vec<BackgroundTask> = Vec::new();
        match started.tcp_listen_port {
            Some(port) => {
                tasks.push(BackgroundTask::TcpListener(port));
                if opts.enable_upnp_port_forwarding {
                    tasks.push(BackgroundTask::UpnpPortForwarder(port));
                }
            },
            None => {},
        }
        if opts.persistence {
            tasks.push(BackgroundTask::Persistence);
        }
        assert(tasks@ =~= background_tasks(
            started.tcp_listen_port,
            opts.enable_upnp_port_forwarding,
            opts.persistence,
        ));
        (session, tasks)
    }

    /// Creates a session with default options.
    pub fn new(output_folder: String, started: Started) -> (r: (Session, Vec<BackgroundTask>))
        ensures
            r.0.wf(),
            r.0@.db == (DbView { next_id: 0, torrents: Map::empty() }),
            r.0@.output_folder == output_folder@,
            r.0@.peer_id == started.peer_id@,
            r.0@.dht_enabled,
            r.0@.tcp_listen_port == started.tcp_listen_port,
            r.1@ == background_tasks(started.tcp_listen_port, false, false),
    {
        Session::new_with_opts(output_folder, SessionOptions::default(), started)
    }

    /// Whether the session has a DHT.
    pub fn get_dht(&self) -> (enabled: bool)
        ensures
            enabled == self@.dht_enabled,
    {
        self.dht_enabled
    }

    /// The file the session is stored in.
    pub fn persistence_filename(&self) -> (name: &String)
        ensures
            name@ == self@.persistence_filename,
    {
        &self.persistence_filename
    }

    /// The file a dump of the session is written to before it replaces the
    /// stored session: the session's file with `.tmp` appended.
    pub fn persistence_tmp_filename(&self) -> (name: String)
        ensures
            name@ == self@.persistence_filename + ".tmp"@,
    {
        let mut name = self.persistence_filename.clone();
        name.append(".tmp");
        name
    }

    /// `true` when the list holds the session's torrents, each once, under
    /// its id.
    pub open spec fn lists_torrents(&self, listed: Seq<(TorrentId, &ManagedTorrent)>) -> bool {
        &&& forall|i: int, j: int|
            0 <= i < j < listed.len() ==> (#[trigger] listed[i]).0 != (#[trigger] listed[j]).0
        &&& forall|i: int|
            0 <= i < listed.len() ==> self@.db.torrents.contains_key((#[trigger] listed[i]).0)
                && listed[i].1@ == self@.db.torrents[listed[i].0]
        &&& forall|id: usize| #[trigger]
            self@.db.torrents.contains_key(id) ==> exists|i: int|
                0 <= i < listed.len() && (#[trigger] listed[i]).0 == id
    }

    /// Runs a callback on the torrents that are managed. The callback gets
    /// every torrent once, with its id, in no particular order.
    pub fn with_torrents<R, F: Fn(&Vec<(TorrentId, &ManagedTorrent)>) -> R>(&self, callback: F) -> (r:
        R)
        requires
            forall|listed: &Vec<(TorrentId, &ManagedTorrent)>|
                self.lists_torrents(listed@) ==> callback.requires((listed,)),
        ensures
            exists|listed: &Vec<(TorrentId, &ManagedTorrent)>|
                self.lists_torrents(listed@) && callback.ensures((listed,), r),
    {
        let listed = self.db.list();
        assert(self.lists_torrents(listed@));
        let r = callback(&listed);
        assert(self.lists_torrents((&listed)@) && callback.ensures((&listed,), r));
        r
    }

    /// The ids of the torrents in the session, each once.
    pub fn torrent_ids(&self) -> (ids: Vec<TorrentId>)
        ensures
            ids@.no_duplicates(),
            forall|id: usize| ids@.contains(id) <==> self@.db.torrents.contains_key(id),
    {
        self.db.ids()
    }

    /// Records the lifecycle state of a torrent, as the torrent's own driver
    /// reports it. Returns whether there is a torrent with this id.
    pub fn set_state(&mut self, id: TorrentId, state: TorrentState) -> (found: bool)
        requires
            old(self).wf(),
        ensures
            final(self).wf(),
            found == old(self)@.db.torrents.contains_key(id),
            final(self)@ == if found {
                SessionView {
                    db: DbView {
                        torrents: old(self)@.db.torrents.insert(
                            id,
                            ManagedTorrentView { state, ..old(self)@.db.torrents[id] },
                        ),
                        ..old(self)@.db
                    },
                    ..old(self)@
                }
            } else {
                old(self)@
            },
    {
        let ghost before = self@.db;
        let found = self.db.set_state(id, state);
        proof {
            let after = self@.db;
            if found {
                before.lemma_rest_stays_sound(after);
            }
        }
        found
    }

    /// Checks an incoming connection. `read_buf` holds `read_so_far` bytes
    /// that the peer sent; `handshake` is the handshake they start with and
    /// its length in bytes, or `None` if they start with none.
    ///
    /// A connection is admitted if the peer is not the session itself and the
    /// handshake names a torrent that is live. What the peer sent after the
    /// handshake is moved to the start of the buffer and handed on.
    pub fn check_incoming_connection(
        &self,
        addr: PeerAddr,
        read_buf: Vec<u8>,
        read_so_far: usize,
        handshake: Option<(Handshake, usize)>,
    ) -> (r: Result<(TorrentId, CheckedIncomingConnection), AdmissionError>)
        requires
            self.wf(),
            read_so_far <= read_buf@.len(),
            handshake matches Some((_, size)) ==> size <= read_so_far,
        ensures
            match r {
                Ok((id, checked)) => {
                    &&& admission(self@, read_so_far as int, handshake) == Ok::<
                        TorrentId,
                        AdmissionError,
                    >(id)
                    &&& checked.addr == addr
                    &&& checked.handshake == handshake.unwrap().0
                    &&& checked.read_so_far == read_so_far - handshake.unwrap().1
                    &&& checked.read_buf@ == moved_to_front(
                        read_buf@,
                        handshake.unwrap().1 as int,
                        read_so_far as int,
                    )
                },
                Err(e) => admission(self@, read_so_far as int, handshake) == Err::<
                    TorrentId,
                    AdmissionError,
                >(e),
            },
    {
        if read_so_far == 0 {
            return Err(AdmissionError::BadHandshake);
        }
        let (h, size) = match handshake {
            Some(parsed) => parsed,
            None => {
                return Err(AdmissionError::InvalidHandshake);
            },
        };
        if h.peer_id.same_as(&self.peer_id) {
            return Err(AdmissionError::SelfConnection);
        }
        proof {
            self.db.lemma_view();
        }
        let id = match self.db.find_by_info_hash(&h.info_hash) {
            Some((id, torrent)) => {
                proof {
                    assert(self@.db.torrents.contains_key(id));
                    assert(self@.db.torrents[id].info_hash == h.info_hash@);
                    assert(self@.db.manages(h.info_hash@));
                    let chosen = id_of(self@.db, h.info_hash@);
                    assert(self@.db.torrents.contains_key(chosen)
                        && self@.db.torrents[chosen].info_hash == h.info_hash@);
                    assert(chosen == id);
                }
                if !torrent.is_live() {
                    return Err(AdmissionError::NotLive(id));
                }
                id
            },
            None => {
                return Err(AdmissionError::NoMatchingTorrent);
            },
        };
        let ghost given = read_buf@;
        let mut read_buf = read_buf;
        let rest: usize = read_so_far - size;
        if size > 0 {
            let mut i: usize = 0;
            while i < rest
                invariant
                    0 <= i <= rest,
                    rest == read_so_far - size,
                    size > 0,
                    read_so_far <= given.len(),
                    read_buf@.len() == given.len(),
                    forall|k: int| 0 <= k < i ==> read_buf@[k] == given[k + size],
                    forall|k: int| i <= k < given.len() ==> read_buf@[k] == given[k],
                decreases rest - i,
            {
                let b: u8 = read_buf[i + size];
                read_buf.set(i, b);
                i = i + 1;
            }
        }
        assert(read_buf@ =~= moved_to_front(given, size as int, read_so_far as int));
        Ok((id, CheckedIncomingConnection { addr, read_buf, handshake: h, read_so_far: rest }))
    }

    /// Takes a torrent out of the session. What is left to do with it is told
    /// by `pause_plan` and `delete_action`.
    pub fn delete(&mut self, id: TorrentId) -> (r: Result<ManagedTorrent, SessionError>)
        requires
            old(self).wf(),
        ensures
            final(self).wf(),
            final(self)@ == (SessionView {
                db: DbView { torrents: old(self)@.db.torrents.remove(id), ..old(self)@.db },
                ..old(self)@
            }),
            match r {
                Ok(torrent) => old(self)@.db.torrents.contains_key(id) && torrent@
                    == old(self)@.db.torrents[id],
                Err(e) => !old(self)@.db.torrents.contains_key(id) && e
                    == SessionError::NoSuchTorrent(id),
            },
    {
        let ghost before = self@.db;
        proof {
            self.db.lemma_view();
        }
        let removed = self.db.remove(id);
        proof {
            before.lemma_rest_stays_sound(self@.db);
        }
        match removed {
            Some(torrent) => Ok(torrent),
            None => Err(SessionError::NoSuchTorrent(id)),
        }
    }

    /// What to do with a torrent that was taken out of the session, by the
    /// state it is in.
    pub fn pause_plan(state: TorrentState) -> (plan: PausePlan)
        ensures
            plan == match state {
                TorrentState::Paused => PausePlan::TakePaused,
                TorrentState::Live => PausePlan::PauseLive,
                _ => PausePlan::Leave,
            },
    {
        match state {
            TorrentState::Paused => PausePlan::TakePaused,
            TorrentState::Live => PausePlan::PauseLive,
            _ => PausePlan::Leave,
        }
    }

    /// How the deletion of a torrent ends, by what pausing it came to and by
    /// whether its files are to be deleted.
    pub fn delete_action(paused: PauseOutcome, delete_files: bool) -> (action: DeleteAction)
        ensures
            match paused {
                PauseOutcome::Failed => if delete_files {
                    action is Fail
                } else {
                    action is Warn
                },
                PauseOutcome::Paused(files) => if delete_files {
                    action == DeleteAction::RemoveFiles(files)
                } else {
                    action is Nothing
                },
                PauseOutcome::NoFiles => action is Nothing,
            },
    {
        match paused {
            PauseOutcome::Failed => if delete_files {
                DeleteAction::Fail
            } else {
                DeleteAction::Warn
            },
            PauseOutcome::Paused(files) => if delete_files {
                DeleteAction::RemoveFiles(files)
            } else {
                DeleteAction::Nothing
            },
            PauseOutcome::NoFiles => DeleteAction::Nothing,
        }
    }

    /// The stream of peers to open for a torrent that is resumed: one is
    /// wanted when the session has a DHT. `None` when no torrent has this id.
    pub fn unpause(&self, id: TorrentId) -> (r: Result<Option<PeerStreamRequest>, SessionError>)
        ensures
            match r {
                Ok(request) => self@.db.torrents.contains_key(id) && request.is_some()
                    == self@.dht_enabled && (request matches Some(request) ==> request.info_hash@
                    == self@.db.torrents[id].info_hash && request.announce_port
                    == self@.tcp_listen_port),
                Err(e) => !self@.db.torrents.contains_key(id) && e == SessionError::NoSuchTorrent(
                    id,
                ),
            },
    {
        match self.db.get(id) {
            Some(torrent) => {
                if self.dht_enabled {
                    Ok(
                        Some(
                            PeerStreamRequest {
                                info_hash: torrent.info_hash,
                                announce_port: self.tcp_listen_port,
                            },
                        ),
                    )
                } else {
                    Ok(None)
                }
            },
            None => Err(SessionError::NoSuchTorrent(id)),
        }
    }

    /// The torrents to pause when the session stops: all of them.
    pub fn stop(&self) -> (ids: Vec<TorrentId>)
        ensures
            ids@.no_duplicates(),
            forall|id: usize| ids@.contains(id) <==> self@.db.torrents.contains_key(id),
    {
        self.db.ids()
    }

    /// The stored form of the session's registry.
    pub fn serialize(&self) -> (snapshot: SerializedSessionDatabase)
        ensures
            snapshot@ == crate::snapshot::snapshot_of_db(self@.db),
    {
        self.db.serialize()
    }

    /// Adds one stored torrent again, under the id it was stored under.
    pub fn restore(&mut self, id: TorrentId, stored: &SerializedTorrent) -> (r: Result<
        AddTorrentResponse,
        RestoreError,
    >)
        requires
            old(self).wf(),
        ensures
            final(self).wf(),
            restore_result_view(r) == restore_outcome(old(self)@, id, stored@),
            final(self)@ == restore_one(old(self)@, id, stored@),
    {
        let request = match restore_request(id, stored) {
            Ok(request) => request,
            Err(e) => {
                return Err(e);
            },
        };
        let RestoreRequest { torrent, opts } = request;
        match self.add_torrent_info(torrent, opts) {
            Ok(response) => Ok(response),
            Err(e) => Err(RestoreError::Add(e)),
        }
    }

    /// Adds the torrents of a snapshot again, each under its old id, in no
    /// particular order. A torrent that cannot be added is reported and
    /// skipped; the others are added all the same.
    pub fn populate_from_stored(&mut self, snapshot: &SerializedSessionDatabase) -> (outcomes: Vec<
        RestoreOutcome,
    >)
        requires
            old(self).wf(),
        ensures
            final(self).wf(),
            exists|entries: Seq<(usize, SerializedTorrentView)>|
                {
                    &&& lists_snapshot(entries, snapshot@)
                    &&& final(self)@ == #[trigger] restore_all(old(self)@, entries)
                    &&& outcomes@.len() == entries.len()
                    &&& forall|i: int|
                        0 <= i < entries.len() ==> {
                            &&& (#[trigger] outcomes@[i]).id == entries[i].0
                            &&& outcomes@[i].paused == entries[i].1.is_paused
                            &&& restore_result_view(outcomes@[i].result) == restore_outcome(
                                restore_all(old(self)@, entries.subrange(0, i)),
                                entries[i].0,
                                entries[i].1,
                            )
                        }
                },
    {
        let mut outcomes: Vec<RestoreOutcome> = Vec::new();
        let ghost mut entries: Seq<(usize, SerializedTorrentView)> = Seq::empty();
        for pair in it: snapshot.torrents.iter()
            invariant
                self.wf(),
                entries.len() == it.index(),
                forall|i: int|
                    0 <= i < it.index() ==> (#[trigger] entries[i]).0 == *it.seq()[i].0 && entries[i].1
                        == it.seq()[i].1@,
                self@ == restore_all(old(self)@, entries),
                outcomes@.len() == entries.len(),
                forall|i: int|
                    0 <= i < entries.len() ==> {
                        &&& (#[trigger] outcomes@[i]).id == entries[i].0
                        &&& outcomes@[i].paused == entries[i].1.is_paused
                        &&& restore_result_view(outcomes@[i].result) == restore_outcome(
                            restore_all(old(self)@, entries.subrange(0, i)),
                            entries[i].0,
                            entries[i].1,
                        )
                    },
        {
            let (id, stored) = pair;
            let ghost before = entries;
            let result = self.restore(*id, stored);
            proof {
                entries = entries.push((*id, stored@));
                assert(entries.drop_last() =~= before);
                assert(entries.subrange(0, before.len() as int) =~= before);
                assert forall|i: int| 0 <= i < before.len() implies entries.subrange(0, i)
                    == before.subrange(0, i) by {
                    assert(entries.subrange(0, i) =~= before.subrange(0, i));
                }
            }
            outcomes.push(RestoreOutcome { id: *id, paused: stored.is_paused, result });
        }
        proof {
            let all = snapshot.torrents.iter().remaining();
            assert(entries.len() == all.len());
            assert forall|i: int, j: int| 0 <= i < j < entries.len() implies (#[trigger] entries[i]).0
                != (#[trigger] entries[j]).0 by {
                assert(snapshot.torrents@.contains_key(*all[i].0) && snapshot.torrents@[*all[i].0]
                    == *all[i].1);
                assert(snapshot.torrents@.contains_key(*all[j].0) && snapshot.torrents@[*all[j].0]
                    == *all[j].1);
                if entries[i].0 == entries[j].0 {
                    assert(all[i] == all[j]);
                }
            }
            assert forall|i: int| 0 <= i < entries.len() implies snapshot@.contains_key(
                (#[trigger] entries[i]).0,
            ) && snapshot@[entries[i].0] == entries[i].1 by {
                assert(snapshot.torrents@.contains_key(*all[i].0) && snapshot.torrents@[*all[i].0]
                    == *all[i].1);
            }
            assert forall|id: usize| #[trigger] snapshot@.contains_key(id) implies exists|i: int|
                0 <= i < entries.len() && (#[trigger] entries[i]).0 == id by {
                assert(snapshot.torrents@.contains_key(id));
                assert(all.contains((&id, &snapshot.torrents@[id])));
                let i = choose|i: int| 0 <= i < all.len() && all[i] == (&id, &snapshot.torrents@[id]);
                assert(entries[i].0 == id);
            }
        }
        outcomes
    }

    /// Registers a torrent whose files and folder are settled. In list-only
    /// mode nothing is registered. A torrent whose info hash the session
    /// manages already is not registered again: the one that is there is
    /// returned. Else the torrent is built and added under the preferred id,
    /// if that is free, or under the next.
    pub fn register(
        &mut self,
        info_hash: Id20,
        info: TorrentInfo,
        only_files: Option<Vec<usize>>,
        output_folder: String,
        initial_peers: Vec<PeerAddr>,
        trackers: Vec<String>,
        opts: &AddTorrentOptions,
    ) -> (r: Result<AddTorrentResponse, AddTorrentError>)
        requires
            old(self).wf(),
            indices_in_range(indices_view(only_files), info@.files.len() as int),
        ensures
            final(self).wf(),
            match r {
                Ok(response) => register_outcome(
                    old(self)@.db,
                    old(self)@.peer_opts,
                    info_hash@,
                    info@,
                    indices_view(only_files),
                    output_folder@,
                    initial_peers@,
                    strings_view(trackers@),
                    register_options(*opts),
                ) == Ok::<ResponseView, AddTorrentError>(response@),
                Err(e) => register_outcome(
                    old(self)@.db,
                    old(self)@.peer_opts,
                    info_hash@,
                    info@,
                    indices_view(only_files),
                    output_folder@,
                    initial_peers@,
                    strings_view(trackers@),
                    register_options(*opts),
                ) == Err::<ResponseView, AddTorrentError>(e),
            },
            final(self)@ == (SessionView {
                db: register_db(
                    old(self)@.db,
                    register_outcome(
                        old(self)@.db,
                        old(self)@.peer_opts,
                        info_hash@,
                        info@,
                        indices_view(only_files),
                        output_folder@,
                        initial_peers@,
                        strings_view(trackers@),
                        register_options(*opts),
                    ),
                    register_options(*opts),
                ),
                ..old(self)@
            }),
    {
        if opts.list_only {
            return Ok(
                AddTorrentResponse::ListOnly(
                    ListOnlyResponse {
                        info_hash,
                        info,
                        only_files,
                        output_folder,
                        seen_peers: initial_peers,
                    },
                ),
            );
        }
        let peer_opts = self.merge_peer_opts(opts.peer_opts);
        proof {
            self.db.lemma_view();
        }
        match self.db.find_by_info_hash(&info_hash) {
            Some((id, handle)) => {
                proof {
                    assert(self@.db.torrents.contains_key(id));
                    assert(self@.db.torrents[id].info_hash == info_hash@);
                    assert(self@.db.manages(info_hash@));
                    let chosen = id_of(self@.db, info_hash@);
                    assert(self@.db.torrents.contains_key(chosen) && self@.db.torrents[chosen].info_hash
                        == info_hash@);
                    assert(chosen == id);
                }
                return Ok(AddTorrentResponse::AlreadyManaged(id, handle.clone()));
            },
            None => {},
        }
        let lengths = match lengths_from_torrent(&info) {
            Ok(lengths) => lengths,
            Err(e) => {
                return Err(AddTorrentError::Geometry(e));
            },
        };
        if !self.db.can_add(opts.preferred_id) {
            return Err(AddTorrentError::RegistryFull);
        }
        let ghost given = strings_view(trackers@);
        let kept: Vec<String> = if opts.disable_trackers {
            Vec::new()
        } else {
            dedup_strings(trackers)
        };
        assert(strings_view(kept@) =~= if opts.disable_trackers {
            Seq::<Seq<char>>::empty()
        } else {
            without_repeats(given)
        });
        let torrent = ManagedTorrent {
            info_hash,
            info,
            out_dir: output_folder,
            trackers: kept,
            only_files,
            lengths,
            options: ManagedTorrentOptions {
                overwrite: opts.overwrite,
                force_tracker_interval: opts.force_tracker_interval,
                peer_connect_timeout: peer_opts.connect_timeout,
                peer_read_write_timeout: peer_opts.read_write_timeout,
            },
            state: TorrentState::Initializing,
        };
        let handle = torrent.clone();
        let ghost before = self@.db;
        proof {
            lemma_without_repeats(given);
        }
        assert(torrent@.wf());
        proof {
            before.lemma_add_keeps_sound(torrent@, opts.preferred_id);
        }
        let id = self.db.add_torrent(torrent, opts.preferred_id);
        Ok(AddTorrentResponse::Added(id, handle))
    }
}

} // verus!
