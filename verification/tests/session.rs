use librqbit::add_torrent::{
    tracker_urls_from_bytes, tracker_urls_from_texts, AddKind, AddTorrent, TorrentMeta,
};
use librqbit::id20::{Id20, Id20Error};
use librqbit::magnet::{Magnet, MagnetError};
use librqbit::lengths::LengthsError;
use librqbit::options::{AddTorrentError, AddTorrentOptions, IpAddress, PeerAddr};
use librqbit::selection::{
    plan_output_folder, resolve_output_folder, select_files, FolderPlan,
    choose_output_folder, compute_only_files, decode_filenames, get_default_subfolder,
    get_only_files,
};
use librqbit::admission::{AdmissionError, Handshake};
use librqbit::register::{dedup_strings, AddTorrentResponse, AddTorrentStep};
use librqbit::session::{DeleteAction, PauseOutcome, PausePlan, Session, SessionError};
use librqbit::startup::{
    BackgroundTask, DhtPlan, PersistentDhtConfig, SessionOptions, Started,
};
use librqbit::session_db::SessionDatabase;
use librqbit::snapshot::{
    deserialize_torrent, restore_request, serialize_torrent, RestoreError, SerializedTorrent,
};
use librqbit::torrent::{
    lengths_from_torrent, GeometryError, ManagedTorrent, ManagedTorrentOptions,
    PeerConnectionOptions, TorrentFile, TorrentInfo, TorrentState,
};
use std::time::Duration;

fn id(byte: u8) -> Id20 {
    Id20([byte; 20])
}

fn file(name: &str, length: u64) -> TorrentFile {
    TorrentFile { name: name.as_bytes().to_vec(), length }
}

fn info(name: Option<&str>, files: Vec<TorrentFile>) -> TorrentInfo {
    let mut encoded = b"d4:infoe".to_vec();
    for f in &files {
        encoded.extend_from_slice(&f.name);
    }
    TorrentInfo { name: name.map(|n| n.as_bytes().to_vec()), piece_length: 32768, files, encoded }
}

fn album() -> TorrentInfo {
    info(
        Some("album"),
        vec![file("album/01.flac", 70_000), file("album/02.flac", 90_000), file("album/cover.jpg", 90_000)],
    )
}

fn single() -> TorrentInfo {
    info(Some("movie.mkv"), vec![file("movie.mkv", 1_000_000)])
}

fn started() -> Started {
    Started {
        peer_id: id(0xaa),
        tcp_listen_port: Some(4240),
        default_persistence_filename: "/config/session.json".to_string(),
    }
}

fn session() -> Session {
    Session::new("/downloads".to_string(), started()).0
}

fn torrent(hash: u8) -> ManagedTorrent {
    let info = album();
    let lengths = lengths_from_torrent(&info).unwrap();
    ManagedTorrent {
        info_hash: id(hash),
        info,
        out_dir: "/downloads/album".to_string(),
        trackers: vec!["http://tracker.example/announce".to_string()],
        only_files: None,
        lengths,
        options: ManagedTorrentOptions {
            overwrite: false,
            force_tracker_interval: None,
            peer_connect_timeout: None,
            peer_read_write_timeout: None,
        },
        state: TorrentState::Paused,
    }
}

fn meta(hash: u8, info: TorrentInfo) -> TorrentMeta {
    TorrentMeta {
        announce: b"http://tracker.example/announce".to_vec(),
        announce_list: Vec::new(),
        info,
        info_hash: id(hash),
    }
}

fn add(session: &mut Session, hash: u8, opts: AddTorrentOptions) -> Result<AddTorrentResponse, AddTorrentError> {
    match session.add_torrent(AddTorrent::TorrentInfo(Box::new(meta(hash, album()))), Some(opts)) {
        Ok(AddTorrentStep::Done(response)) => Ok(response),
        Ok(other) => panic!("a decoded torrent needs no further step: {:?}", other),
        Err(e) => Err(e),
    }
}

fn added(response: AddTorrentResponse) -> (usize, ManagedTorrent) {
    match response {
        AddTorrentResponse::Added(id, torrent) => (id, torrent),
        other => panic!("expected a new torrent, got {:?}", other),
    }
}

#[test]
fn an_id_is_written_as_forty_hex_digits() {
    let mut bytes = [0u8; 20];
    for (i, b) in bytes.iter_mut().enumerate() {
        *b = (i as u8) * 13 + 1;
    }
    let text = Id20(bytes).as_string();
    assert_eq!(text, "010e1b2835424f5c697683909daab7c4d1deebf8");
    assert_eq!(Id20::from_str(&text), Ok(Id20(bytes)));
    assert_eq!(Id20::from_str(&text.to_uppercase()), Ok(Id20(bytes)));
    assert_eq!(id(0xff).as_string(), "f".repeat(40));
    assert!(id(7).same_as(&id(7)));
    assert!(!id(7).same_as(&id(8)));
}

#[test]
fn text_that_is_no_id() {
    assert_eq!(Id20::from_str(""), Err(Id20Error::WrongLength));
    assert_eq!(Id20::from_str(&"0".repeat(39)), Err(Id20Error::WrongLength));
    assert_eq!(Id20::from_str(&"0".repeat(41)), Err(Id20Error::WrongLength));
    assert_eq!(Id20::from_str(&format!("{}g", "0".repeat(39))), Err(Id20Error::NotHex));
    assert_eq!(Id20::from_str(&format!("{}é", "0".repeat(39))), Err(Id20Error::NotHex));
}

#[test]
fn ids_are_assigned_in_sequence() {
    let mut db = SessionDatabase::new();
    assert_eq!(db.add_torrent(torrent(1), None), 0);
    assert_eq!(db.add_torrent(torrent(2), None), 1);
    assert_eq!(db.add_torrent(torrent(3), None), 2);
    assert_eq!(db.next_id(), 3);
    assert_eq!(db.len(), 3);
    assert_eq!(db.get(1).unwrap().info_hash, id(2));
    assert!(db.get(3).is_none());
}

#[test]
fn a_free_preferred_id_is_used_and_the_counter_moves_past_it() {
    let mut db = SessionDatabase::new();
    assert_eq!(db.add_torrent(torrent(1), Some(7)), 7);
    assert_eq!(db.next_id(), 8);
    assert_eq!(db.add_torrent(torrent(2), None), 8);
    // a preferred id below the counter does not move the counter back
    assert_eq!(db.add_torrent(torrent(3), Some(2)), 2);
    assert_eq!(db.next_id(), 10);
    assert_eq!(db.add_torrent(torrent(4), None), 10);
    let mut ids = db.ids();
    ids.sort();
    assert_eq!(ids, vec![2, 7, 8, 10]);
}

#[test]
fn a_preferred_id_that_is_taken_falls_back_to_the_next_id() {
    let mut db = SessionDatabase::new();
    assert_eq!(db.add_torrent(torrent(1), Some(5)), 5);
    assert!(db.can_add(Some(5)));
    assert_eq!(db.add_torrent(torrent(2), Some(5)), 6);
    assert_eq!(db.get(5).unwrap().info_hash, id(1));
    assert_eq!(db.get(6).unwrap().info_hash, id(2));
    assert_eq!(db.len(), 2);
    assert_eq!(db.next_id(), 7);
}

#[test]
fn the_registry_finds_removes_and_updates() {
    let mut db = SessionDatabase::new();
    db.add_torrent(torrent(1), None);
    db.add_torrent(torrent(2), None);
    let (found, t) = db.find_by_info_hash(&id(2)).unwrap();
    assert_eq!((found, t.info_hash), (1, id(2)));
    assert!(db.find_by_info_hash(&id(3)).is_none());
    assert!(db.set_state(1, TorrentState::Live));
    assert!(!db.set_state(9, TorrentState::Live));
    assert_eq!(db.get(1).unwrap().state, TorrentState::Live);
    assert_eq!(db.get(0).unwrap().state, TorrentState::Paused);
    assert_eq!(db.remove(0).unwrap().info_hash, id(1));
    assert!(db.remove(0).is_none());
    assert_eq!(db.ids(), vec![1]);
    assert!(!db.can_add(Some(usize::MAX)));
    assert!(db.can_add(Some(usize::MAX - 1)));
}

#[test]
fn the_same_info_hash_is_not_added_twice() {
    let mut session = session();
    let (first_id, first) = added(add(&mut session, 1, AddTorrentOptions::default()).unwrap());
    assert_eq!(first_id, 0);
    // the second request differs in everything but the info hash
    let second = session.add_torrent(
        AddTorrent::TorrentInfo(Box::new(meta(1, single()))),
        Some(AddTorrentOptions {
            output_folder: Some("/elsewhere".to_string()),
            paused: true,
            ..Default::default()
        }),
    );
    match second {
        Ok(AddTorrentStep::Done(AddTorrentResponse::AlreadyManaged(id, handle))) => {
            assert_eq!(id, first_id);
            assert_eq!(handle.out_dir, first.out_dir);
            assert_eq!(handle.info.files.len(), 3);
        }
        other => panic!("expected the torrent that is there, got {:?}", other),
    }
    assert_eq!(session.torrent_ids(), vec![0]);
    assert_eq!(session.get(0).unwrap().out_dir, "/downloads/album");
    // another info hash is another torrent
    let (other_id, _) = added(add(&mut session, 2, AddTorrentOptions::default()).unwrap());
    assert_eq!(other_id, 1);
}

#[test]
fn a_new_torrent_is_built_from_the_request() {
    let mut session = Session::new_with_opts(
        "/downloads".to_string(),
        SessionOptions {
            peer_opts: Some(PeerConnectionOptions {
                connect_timeout: Some(Duration::from_secs(3)),
                read_write_timeout: Some(Duration::from_secs(4)),
                keep_alive_interval: None,
            }),
            ..Default::default()
        },
        started(),
    )
    .0;
    let response = add(
        &mut session,
        9,
        AddTorrentOptions {
            only_files: Some(vec![2, 0]),
            overwrite: true,
            force_tracker_interval: Some(Duration::from_secs(60)),
            peer_opts: Some(PeerConnectionOptions {
                connect_timeout: Some(Duration::from_secs(1)),
                read_write_timeout: None,
                keep_alive_interval: None,
            }),
            preferred_id: Some(12),
            ..Default::default()
        },
    );
    let (id12, t) = added(response.unwrap());
    assert_eq!(id12, 12);
    assert_eq!(t.info_hash, id(9));
    assert_eq!(t.only_files, Some(vec![2, 0]));
    assert_eq!(t.out_dir, "/downloads/album");
    assert_eq!(t.trackers, vec!["http://tracker.example/announce".to_string()]);
    assert_eq!(t.state, TorrentState::Initializing);
    assert!(t.options.overwrite);
    assert_eq!(t.options.force_tracker_interval, Some(Duration::from_secs(60)));
    assert_eq!(t.options.peer_connect_timeout, Some(Duration::from_secs(1)));
    assert_eq!(t.options.peer_read_write_timeout, Some(Duration::from_secs(4)));
    assert_eq!(t.lengths.total_length(), 250_000);
    assert_eq!(t.lengths.total_pieces(), 8);
    let kept = session.get(12).unwrap();
    assert_eq!(kept.only_files, Some(vec![2, 0]));
    assert_eq!(kept.info.encoded, t.info.encoded);
}

#[test]
fn a_list_and_a_regex_exclude_each_other() {
    let mut session = session();
    let r = add(
        &mut session,
        1,
        AddTorrentOptions {
            only_files: Some(vec![0]),
            only_files_regex: Some("flac".to_string()),
            ..Default::default()
        },
    );
    assert_eq!(r.err(), Some(AddTorrentError::OnlyFilesConflict));
    assert_eq!(
        AddTorrentError::OnlyFilesConflict.message(),
        "only_files and only_files_regex are mutually exclusive"
    );
    assert!(session.torrent_ids().is_empty());
    assert_eq!(
        get_only_files(&album(), Some(vec![0]), Some("flac".to_string())).err(),
        Some(AddTorrentError::OnlyFilesConflict)
    );
}

#[test]
fn a_regex_that_matches_no_file_fails_the_add() {
    let mut session = session();
    let r = add(
        &mut session,
        1,
        AddTorrentOptions { only_files_regex: Some("\\.mp3$".to_string()), ..Default::default() },
    );
    assert_eq!(r.err(), Some(AddTorrentError::NoFilesMatch));
    assert_eq!(
        AddTorrentError::NoFilesMatch.message(),
        "none of the filenames match the given regex"
    );
    assert!(session.torrent_ids().is_empty());
    let r = add(
        &mut session,
        1,
        AddTorrentOptions { only_files_regex: Some("(".to_string()), ..Default::default() },
    );
    assert_eq!(r.err(), Some(AddTorrentError::InvalidRegex));
    assert!(session.torrent_ids().is_empty());
}

#[test]
fn a_regex_selects_the_files_it_matches() {
    assert_eq!(compute_only_files(&album(), "\\.flac$"), Ok(vec![0, 1]));
    assert_eq!(compute_only_files(&album(), "cover"), Ok(vec![2]));
    assert_eq!(compute_only_files(&album(), "^album/"), Ok(vec![0, 1, 2]));
    assert_eq!(compute_only_files(&album(), "^cover"), Err(AddTorrentError::NoFilesMatch));
    assert_eq!(compute_only_files(&info(None, Vec::new()), "."), Err(AddTorrentError::NoFilesMatch));
    assert_eq!(compute_only_files(&album(), "["), Err(AddTorrentError::InvalidRegex));
    assert_eq!(get_only_files(&album(), None, Some("02".to_string())), Ok(Some(vec![1])));
    assert_eq!(get_only_files(&album(), None, None), Ok(None));

    let mut session = session();
    let r = add(
        &mut session,
        1,
        AddTorrentOptions { only_files_regex: Some("0[12]".to_string()), ..Default::default() },
    );
    assert_eq!(added(r.unwrap()).1.only_files, Some(vec![0, 1]));
}

#[test]
fn a_file_index_must_name_a_file() {
    assert_eq!(get_only_files(&album(), Some(vec![0, 2, 1]), None), Ok(Some(vec![0, 2, 1])));
    assert_eq!(get_only_files(&album(), Some(Vec::new()), None), Ok(Some(Vec::new())));
    assert_eq!(
        get_only_files(&album(), Some(vec![0, 3, 7]), None),
        Err(AddTorrentError::FileIdOutOfRange(3))
    );
    let mut session = session();
    let r = add(&mut session, 1, AddTorrentOptions { only_files: Some(vec![5]), ..Default::default() });
    assert_eq!(r.err(), Some(AddTorrentError::FileIdOutOfRange(5)));
    assert!(session.torrent_ids().is_empty());
}

#[test]
fn file_names_must_be_text() {
    let broken = info(None, vec![file("a", 1), TorrentFile { name: vec![0xff, 0xfe], length: 2 }]);
    assert_eq!(decode_filenames(&broken), Err(AddTorrentError::InvalidFilename(1)));
    assert_eq!(compute_only_files(&broken, "a"), Err(AddTorrentError::InvalidFilename(1)));
    assert_eq!(get_default_subfolder(&broken), Err(AddTorrentError::InvalidFilename(1)));
    assert_eq!(
        decode_filenames(&album()),
        Ok(vec![
            "album/01.flac".to_string(),
            "album/02.flac".to_string(),
            "album/cover.jpg".to_string()
        ])
    );
}

#[test]
fn the_output_folder_follows_the_options() {
    let folder = |output: Option<&str>, sub: Option<&str>, info: &TorrentInfo| {
        choose_output_folder("/downloads", info, output.map(String::from), sub.map(String::from))
    };
    assert_eq!(folder(Some("/elsewhere"), None, &album()), Ok("/elsewhere".to_string()));
    assert_eq!(folder(None, Some("music"), &album()), Ok("/downloads/music".to_string()));
    assert_eq!(
        folder(Some("/elsewhere"), Some("music"), &album()),
        Err(AddTorrentError::OutputFolderConflict)
    );
    // the torrent's name
    assert_eq!(folder(None, None, &album()), Ok("/downloads/album".to_string()));
    // a torrent with one file gets no folder of its own
    assert_eq!(folder(None, None, &single()), Ok("/downloads/".to_string()));
    // no name: the stem of the longest file, the last of the longest
    let nameless = info(None, vec![file("a/x.bin", 5), file("b/yy.tar.gz", 9), file("c/z.iso", 9)]);
    assert_eq!(folder(None, None, &nameless), Ok("/downloads/z".to_string()));
    let broken_name = TorrentInfo { name: Some(vec![0xc0]), ..album() };
    assert_eq!(folder(None, None, &broken_name), Err(AddTorrentError::InvalidName));
    assert_eq!(folder(Some("/elsewhere"), None, &broken_name), Ok("/elsewhere".to_string()));
}

#[test]
fn the_default_subfolder() {
    assert_eq!(get_default_subfolder(&album()), Ok(Some("album".to_string())));
    assert_eq!(get_default_subfolder(&single()), Ok(None));
    assert_eq!(get_default_subfolder(&info(None, Vec::new())), Ok(None));
    let nameless = info(None, vec![file("long.name.txt", 9), file("short", 1)]);
    assert_eq!(get_default_subfolder(&nameless), Ok(Some("long.name".to_string())));
    let no_stem = info(None, vec![file("..", 9), file("short", 1)]);
    assert_eq!(get_default_subfolder(&no_stem), Err(AddTorrentError::NoFileStem));
}

#[test]
fn both_folder_options_fail_the_add() {
    let mut session = session();
    let r = add(
        &mut session,
        1,
        AddTorrentOptions {
            output_folder: Some("/a".to_string()),
            sub_folder: Some("b".to_string()),
            ..Default::default()
        },
    );
    assert_eq!(r.err(), Some(AddTorrentError::OutputFolderConflict));
    assert!(session.torrent_ids().is_empty());
}

#[test]
fn listing_a_torrent_registers_nothing() {
    let mut session = session();
    let peer = PeerAddr { ip: IpAddress::V4(0x7f00_0001), port: 6881 };
    let r = add(
        &mut session,
        1,
        AddTorrentOptions {
            list_only: true,
            only_files: Some(vec![1]),
            initial_peers: Some(vec![peer]),
            ..Default::default()
        },
    );
    match r {
        Ok(AddTorrentResponse::ListOnly(listed)) => {
            assert_eq!(listed.info_hash, id(1));
            assert_eq!(listed.only_files, Some(vec![1]));
            assert_eq!(listed.output_folder, "/downloads/album");
            assert_eq!(listed.seen_peers, vec![peer]);
            assert_eq!(listed.info.files.len(), 3);
        }
        other => panic!("expected a listing, got {:?}", other),
    }
    assert!(session.torrent_ids().is_empty());
    // listing a torrent that is managed lists it all the same
    add(&mut session, 1, AddTorrentOptions::default()).unwrap();
    let again = add(&mut session, 1, AddTorrentOptions { list_only: true, ..Default::default() });
    assert!(matches!(again, Ok(AddTorrentResponse::ListOnly(_))));
    assert!(AddTorrentResponse::ListOnly(match again.unwrap() {
        AddTorrentResponse::ListOnly(l) => l,
        _ => unreachable!(),
    })
    .into_handle()
    .is_none());
}

#[test]
fn a_torrent_without_bytes_is_refused() {
    let mut session = session();
    let empty = info(Some("empty"), vec![file("a", 0), file("b", 0)]);
    let r = session.add_torrent(AddTorrent::TorrentInfo(Box::new(meta(1, empty))), None);
    assert_eq!(
        r.err(),
        Some(AddTorrentError::Geometry(GeometryError::Lengths(LengthsError::ZeroLength)))
    );
    let huge = info(Some("huge"), vec![file("a", u64::MAX), file("b", 1)]);
    assert_eq!(lengths_from_torrent(&huge).err(), Some(GeometryError::TotalLengthOverflow));
    let small_pieces = TorrentInfo { piece_length: 1000, ..album() };
    assert_eq!(
        lengths_from_torrent(&small_pieces).err(),
        Some(GeometryError::Lengths(LengthsError::ChunkLongerThanPiece))
    );
    assert!(session.torrent_ids().is_empty());
}

#[test]
fn trackers_are_parsed_and_listed_once() {
    let texts = vec![
        "HTTP://Tracker.Example:80/announce".to_string(),
        "not a url".to_string(),
        "udp://tracker.example:6969".to_string(),
    ];
    assert_eq!(
        tracker_urls_from_texts(&texts),
        vec!["http://tracker.example/announce".to_string(), "udp://tracker.example:6969".to_string()]
    );
    let bytes = vec![b"http://a.example/x y".to_vec(), vec![0xff], b"/relative".to_vec()];
    assert_eq!(tracker_urls_from_bytes(&bytes), vec!["http://a.example/x%20y".to_string()]);
    assert_eq!(
        dedup_strings(vec!["b".to_string(), "a".to_string(), "b".to_string(), "c".to_string(), "a".to_string()]),
        vec!["b".to_string(), "a".to_string(), "c".to_string()]
    );

    let tiers = TorrentMeta {
        announce: b"http://single.example/".to_vec(),
        announce_list: vec![
            vec![b"http://one.example/".to_vec(), b"http://two.example/".to_vec()],
            Vec::new(),
            vec![b"http://one.example/".to_vec()],
        ],
        info: album(),
        info_hash: id(1),
    };
    assert_eq!(
        tiers.iter_announce(),
        vec![
            b"http://one.example/".to_vec(),
            b"http://two.example/".to_vec(),
            b"http://one.example/".to_vec()
        ]
    );
    let mut session = session();
    let r = session.add_torrent(AddTorrent::TorrentInfo(Box::new(tiers)), None).unwrap();
    let AddTorrentStep::Done(response) = r else { panic!("not done") };
    assert_eq!(
        added(response).1.trackers,
        vec!["http://one.example/".to_string(), "http://two.example/".to_string()]
    );
    let empty_tiers =
        TorrentMeta { announce_list: vec![Vec::new()], ..meta(2, album()) };
    assert_eq!(empty_tiers.iter_announce(), vec![b"http://tracker.example/announce".to_vec()]);
}

#[test]
fn disabled_trackers_leave_the_torrent_without_trackers() {
    let mut session = session();
    let r = add(&mut session, 1, AddTorrentOptions { disable_trackers: true, ..Default::default() });
    assert!(added(r.unwrap()).1.trackers.is_empty());
}

#[test]
fn what_is_not_decoded_needs_a_step() {
    let mut session = session();
    let opts = AddTorrentOptions {
        initial_peers: Some(vec![PeerAddr { ip: IpAddress::V6(1), port: 1 }]),
        peer_opts: Some(PeerConnectionOptions {
            connect_timeout: None,
            read_write_timeout: Some(Duration::from_secs(2)),
            keep_alive_interval: None,
        }),
        ..Default::default()
    };
    let magnet = "magnet:?xt=urn:btih:0101010101010101010101010101010101010101";
    match session.add_torrent(AddTorrent::from_url(magnet.to_string()), Some(opts.clone())) {
        Ok(AddTorrentStep::ResolveMagnet {
            info_hash,
            trackers,
            announce_port,
            initial_peers,
            peer_opts,
        }) => {
            assert_eq!(info_hash, id(1));
            assert!(trackers.is_empty());
            assert_eq!(announce_port, Some(4240));
            assert_eq!(initial_peers, vec![PeerAddr { ip: IpAddress::V6(1), port: 1 }]);
            assert_eq!(peer_opts.read_write_timeout, Some(Duration::from_secs(2)));
        }
        other => panic!("expected a magnet to resolve, got {:?}", other),
    }
    let listing = AddTorrentOptions { list_only: true, ..opts };
    match session.add_torrent(AddTorrent::from_url(magnet.to_string()), Some(listing)) {
        Ok(AddTorrentStep::ResolveMagnet { announce_port, .. }) => assert_eq!(announce_port, None),
        other => panic!("expected a magnet to resolve, got {:?}", other),
    }
    match session.add_torrent(AddTorrent::from_url("https://example.org/a.torrent".to_string()), None) {
        Ok(AddTorrentStep::Fetch { url }) => assert_eq!(url, "https://example.org/a.torrent"),
        other => panic!("expected a download, got {:?}", other),
    }
    match session.add_torrent(AddTorrent::from_bytes(vec![1, 2, 3]), None) {
        Ok(AddTorrentStep::Decode { bytes }) => assert_eq!(bytes, vec![1, 2, 3]),
        other => panic!("expected bytes to decode, got {:?}", other),
    }
    for unsupported in ["ftp://example.org/a.torrent", "http:/example.org", "https:example.org", ""] {
        let r = session.add_torrent(AddTorrent::from_url(unsupported.to_string()), None);
        assert_eq!(r.err(), Some(AddTorrentError::UnsupportedUrl));
    }
    let no_dht = SessionOptions { disable_dht: true, ..Default::default() };
    let mut offline = Session::new_with_opts("/downloads".to_string(), no_dht, started()).0;
    let r = offline.add_torrent(AddTorrent::from_url(magnet.to_string()), None);
    assert_eq!(r.err(), Some(AddTorrentError::MagnetWithoutDht));
    // a link that cannot be read is reported first, with a DHT or without
    for s in [&mut session, &mut offline] {
        let r = s.add_torrent(AddTorrent::from_url("magnet:?tr=http://t.example/".to_string()), None);
        assert_eq!(r.err(), Some(AddTorrentError::InvalidMagnet(MagnetError::NoInfoHash)));
    }
}

#[test]
fn a_magnet_link_names_an_info_hash_and_trackers() {
    let hash = "0123456789abcdef0123456789ABCDEF01234567";
    let link = format!(
        "magnet:?dn=a+name&tr=http%3A%2F%2Fone.example%2Fannounce&xt=urn:btih:{}&x=y&tr=udp://two.example:1",
        hash
    );
    let magnet = Magnet::parse(&link).unwrap();
    assert_eq!(magnet.info_hash, Id20::from_str(hash).unwrap());
    assert_eq!(
        magnet.trackers,
        vec!["http://one.example/announce".to_string(), "udp://two.example:1".to_string()]
    );
    // of two info hashes the last stands
    let two = format!("magnet:?xt=urn:btih:{}&xt=urn:btih:{}", hash, "ff".repeat(20));
    assert_eq!(Magnet::parse(&two), Ok(Magnet { info_hash: id(0xff), trackers: Vec::new() }));

    assert_eq!(Magnet::parse("not a url"), Err(MagnetError::InvalidUrl));
    assert_eq!(Magnet::parse(""), Err(MagnetError::InvalidUrl));
    let other_scheme = format!("http://example.org/?xt=urn:btih:{}", hash);
    assert_eq!(Magnet::parse(&other_scheme), Err(MagnetError::NotMagnet));
    assert_eq!(Magnet::parse("magnet:"), Err(MagnetError::NoInfoHash));
    assert_eq!(Magnet::parse("magnet:?tr=http://t.example/"), Err(MagnetError::NoInfoHash));
    let sha1 = format!("magnet:?xt=urn:sha1:{}", hash);
    assert_eq!(Magnet::parse(&sha1), Err(MagnetError::XtWithoutBtih));
    assert_eq!(
        Magnet::parse("magnet:?xt=urn:btih:abc"),
        Err(MagnetError::InfoHash(Id20Error::WrongLength))
    );
    let not_hex = format!("magnet:?xt=urn:btih:{}", "g".repeat(40));
    assert_eq!(Magnet::parse(&not_hex), Err(MagnetError::InfoHash(Id20Error::NotHex)));
    // the first pair that cannot be read is the error
    let both = format!("magnet:?xt=urn:btih:abc&xt=urn:sha1:{}", hash);
    assert_eq!(Magnet::parse(&both), Err(MagnetError::InfoHash(Id20Error::WrongLength)));
    // the scheme is read in any case
    let upper = format!("MAGNET:?xt=urn:btih:{}", hash);
    assert!(Magnet::parse(&upper).is_ok());
}

#[test]
fn the_kinds_of_input() {
    assert!(matches!(AddTorrent::from_cli_argument("magnet:?xt=1"), Some(AddTorrent::Url(u)) if u == "magnet:?xt=1"));
    assert!(matches!(AddTorrent::from_cli_argument("http:whatever"), Some(AddTorrent::Url(_))));
    assert!(matches!(AddTorrent::from_cli_argument("https://example.org"), Some(AddTorrent::Url(_))));
    assert!(AddTorrent::from_cli_argument("/home/me/a.torrent").is_none());
    assert!(AddTorrent::from_cli_argument("-").is_none());
    assert!(AddTorrent::from_cli_argument("Magnet:?xt=1").is_none());
    assert_eq!(AddTorrent::from_url("magnet:x".to_string()).kind(), AddKind::Magnet);
    assert_eq!(AddTorrent::from_url("http://x".to_string()).kind(), AddKind::Http);
    assert_eq!(AddTorrent::from_url("https://x".to_string()).kind(), AddKind::Http);
    assert_eq!(AddTorrent::from_url("http:x".to_string()).kind(), AddKind::UnsupportedUrl);
    assert_eq!(AddTorrent::from_bytes(Vec::new()).kind(), AddKind::FileBytes);
    assert_eq!(AddTorrent::TorrentInfo(Box::new(meta(1, album()))).kind(), AddKind::Info);
    assert_eq!(AddTorrent::from_url("héllo".to_string()).into_bytes(), "héllo".as_bytes().to_vec());
    assert_eq!(AddTorrent::from_bytes(vec![9, 8]).into_bytes(), vec![9, 8]);
}

#[test]
fn peer_streams() {
    let s = session();
    let run = AddTorrentOptions::default();
    let paused = AddTorrentOptions { paused: true, ..Default::default() };
    let listing = AddTorrentOptions { list_only: true, ..Default::default() };
    let request = s.peer_stream_for(id(3), &run).unwrap();
    assert_eq!((request.info_hash, request.announce_port), (id(3), Some(4240)));
    assert!(s.peer_stream_for(id(3), &paused).is_none());
    assert!(s.peer_stream_for(id(3), &listing).is_none());
    assert_eq!(s.announce_port(&run), Some(4240));
    assert_eq!(s.announce_port(&listing), None);
    assert!(Session::keeps_peer_stream(&run));
    assert!(!Session::keeps_peer_stream(&paused));
    assert!(!Session::keeps_peer_stream(&listing));
    let no_dht = SessionOptions { disable_dht: true, ..Default::default() };
    let offline = Session::new_with_opts("/downloads".to_string(), no_dht, started()).0;
    assert!(offline.peer_stream_for(id(3), &run).is_none());
    assert!(!offline.get_dht());
    assert!(s.get_dht());
}

#[test]
fn a_resolved_magnet_is_added_with_the_trackers_of_its_link() {
    let mut session = session();
    let trackers = vec!["http://t.example/a".to_string(), "nonsense".to_string()];
    let seen = vec![PeerAddr { ip: IpAddress::V4(1), port: 2 }];
    let r = session.add_resolved_magnet(id(4), &trackers, single(), seen, AddTorrentOptions::default());
    let (new_id, t) = added(r.unwrap());
    assert_eq!(new_id, 0);
    assert_eq!(t.trackers, vec!["http://t.example/a".to_string()]);
    assert_eq!(t.out_dir, "/downloads/");
    assert_eq!(t.info_hash, id(4));
}

#[test]
fn peer_options_of_a_request_lie_over_the_sessions() {
    let secs = |n| Some(Duration::from_secs(n));
    let opts = SessionOptions {
        peer_opts: Some(PeerConnectionOptions {
            connect_timeout: secs(1),
            read_write_timeout: None,
            keep_alive_interval: secs(3),
        }),
        ..Default::default()
    };
    let s = Session::new_with_opts("/d".to_string(), opts, started()).0;
    let merged = s.merge_peer_opts(Some(PeerConnectionOptions {
        connect_timeout: secs(10),
        read_write_timeout: None,
        keep_alive_interval: None,
    }));
    assert_eq!(merged.connect_timeout, secs(10));
    assert_eq!(merged.read_write_timeout, None);
    assert_eq!(merged.keep_alive_interval, secs(3));
    let merged = s.merge_peer_opts(None);
    assert_eq!(merged.connect_timeout, secs(1));
    assert_eq!(merged.read_write_timeout, None);
    assert_eq!(merged.keep_alive_interval, secs(3));
}

#[test]
fn the_tasks_of_a_session() {
    let tasks = |port: Option<u16>, upnp: bool, persistence: bool| {
        let opts = SessionOptions {
            enable_upnp_port_forwarding: upnp,
            persistence,
            ..Default::default()
        };
        let started = Started { tcp_listen_port: port, ..started() };
        Session::new_with_opts("/d".to_string(), opts, started).1
    };
    assert_eq!(tasks(None, false, false), Vec::new());
    assert_eq!(tasks(None, true, false), Vec::new());
    assert_eq!(tasks(Some(1), false, false), vec![BackgroundTask::TcpListener(1)]);
    assert_eq!(
        tasks(Some(1), true, true),
        vec![
            BackgroundTask::TcpListener(1),
            BackgroundTask::UpnpPortForwarder(1),
            BackgroundTask::Persistence
        ]
    );
    assert_eq!(tasks(None, true, true), vec![BackgroundTask::Persistence]);
    assert_eq!(Session::new("/d".to_string(), started()).1, vec![BackgroundTask::TcpListener(4240)]);
}

#[test]
fn what_a_session_needs_before_it_starts() {
    let plan = Session::startup_plan(&SessionOptions::default());
    assert!(plan.needs_peer_id);
    assert!(plan.needs_default_persistence_filename);
    assert_eq!(plan.listen_port_range, None);
    assert!(matches!(plan.dht, DhtPlan::Persistent(c) if c.config_filename.is_none() && c.dump_interval.is_none()));
    let plan = Session::startup_plan(&SessionOptions {
        disable_dht_persistence: true,
        peer_id: Some(id(1)),
        persistence_filename: Some("/tmp/s.json".to_string()),
        listen_port_range: Some(4240..4260),
        dht_config: Some(PersistentDhtConfig {
            dump_interval: None,
            config_filename: Some("/tmp/dht.json".to_string()),
        }),
        ..Default::default()
    });
    assert!(!plan.needs_peer_id);
    assert!(!plan.needs_default_persistence_filename);
    assert_eq!(plan.listen_port_range, Some(4240..4260));
    assert!(matches!(plan.dht, DhtPlan::Ephemeral));
    let plan = Session::startup_plan(&SessionOptions {
        dht_config: Some(PersistentDhtConfig {
            dump_interval: Some(Duration::from_secs(5)),
            config_filename: Some("/tmp/dht.json".to_string()),
        }),
        ..Default::default()
    });
    assert!(matches!(plan.dht, DhtPlan::Persistent(c)
        if c.config_filename.as_deref() == Some("/tmp/dht.json") && c.dump_interval == Some(Duration::from_secs(5))));
    let plan = Session::startup_plan(&SessionOptions { disable_dht: true, ..Default::default() });
    assert!(matches!(plan.dht, DhtPlan::Disabled));

    let s = Session::new_with_opts(
        "/d".to_string(),
        SessionOptions { persistence_filename: Some("/tmp/s.json".to_string()), ..Default::default() },
        started(),
    )
    .0;
    assert_eq!(s.persistence_filename(), "/tmp/s.json");
    assert_eq!(s.persistence_tmp_filename(), "/tmp/s.json.tmp");
    assert_eq!(session().persistence_filename(), "/config/session.json");
}

fn handshake(info_hash: u8, peer: u8) -> Handshake {
    Handshake { reserved: 0, info_hash: id(info_hash), peer_id: id(peer) }
}

#[test]
fn an_incoming_connection_is_matched_to_a_live_torrent() {
    let mut session = session();
    add(&mut session, 1, AddTorrentOptions::default()).unwrap();
    add(&mut session, 2, AddTorrentOptions::default()).unwrap();
    assert!(session.set_state(1, TorrentState::Live));
    assert!(session.set_state(0, TorrentState::Paused));
    let addr = PeerAddr { ip: IpAddress::V4(0x0a00_0001), port: 50000 };
    let buf: Vec<u8> = (0..100u8).collect();

    let (torrent_id, checked) = session
        .check_incoming_connection(addr, buf.clone(), 80, Some((handshake(2, 0xbb), 68)))
        .unwrap();
    assert_eq!(torrent_id, 1);
    assert_eq!(checked.addr, addr);
    assert_eq!(checked.read_so_far, 12);
    assert_eq!(checked.handshake.info_hash, id(2));
    // what followed the handshake is at the start of the buffer
    assert_eq!(checked.read_buf[..12], buf[68..80]);
    assert_eq!(checked.read_buf[12..], buf[12..]);

    // nothing followed the handshake
    let (_, checked) = session
        .check_incoming_connection(addr, buf.clone(), 68, Some((handshake(2, 0xbb), 68)))
        .unwrap();
    assert_eq!(checked.read_so_far, 0);
    assert_eq!(checked.read_buf, buf);

    let check = |h: Option<(Handshake, usize)>, read: usize| {
        session.check_incoming_connection(addr, buf.clone(), read, h).err()
    };
    assert_eq!(check(Some((handshake(2, 0xbb), 0)), 0), Some(AdmissionError::BadHandshake));
    assert_eq!(check(None, 0), Some(AdmissionError::BadHandshake));
    assert_eq!(check(None, 10), Some(AdmissionError::InvalidHandshake));
    assert_eq!(check(Some((handshake(2, 0xaa), 68)), 68), Some(AdmissionError::SelfConnection));
    assert_eq!(check(Some((handshake(1, 0xbb), 68)), 68), Some(AdmissionError::NotLive(0)));
    assert_eq!(check(Some((handshake(3, 0xbb), 68)), 68), Some(AdmissionError::NoMatchingTorrent));
    // the session's own id is turned away before the torrent is looked up
    assert_eq!(check(Some((handshake(3, 0xaa), 68)), 68), Some(AdmissionError::SelfConnection));
}

#[test]
fn deleting_a_torrent() {
    let mut session = session();
    add(&mut session, 1, AddTorrentOptions::default()).unwrap();
    add(&mut session, 2, AddTorrentOptions::default()).unwrap();
    assert_eq!(session.delete(5).err(), Some(SessionError::NoSuchTorrent(5)));
    let removed = session.delete(0).unwrap();
    assert_eq!(removed.info_hash, id(1));
    assert_eq!(session.torrent_ids(), vec![1]);
    assert_eq!(session.delete(0).err(), Some(SessionError::NoSuchTorrent(0)));
    // the id is not given out again
    let (next, _) = added(add(&mut session, 1, AddTorrentOptions::default()).unwrap());
    assert_eq!(next, 2);

    assert_eq!(Session::pause_plan(TorrentState::Paused), PausePlan::TakePaused);
    assert_eq!(Session::pause_plan(TorrentState::Live), PausePlan::PauseLive);
    assert_eq!(Session::pause_plan(TorrentState::Initializing), PausePlan::Leave);
    assert_eq!(Session::pause_plan(TorrentState::Error), PausePlan::Leave);

    let files = || PauseOutcome::Paused(vec!["/d/a".to_string(), "/d/b".to_string()]);
    assert!(matches!(Session::delete_action(PauseOutcome::Failed, true), DeleteAction::Fail));
    assert!(matches!(Session::delete_action(PauseOutcome::Failed, false), DeleteAction::Warn));
    assert!(matches!(Session::delete_action(files(), true), DeleteAction::RemoveFiles(f) if f == vec!["/d/a", "/d/b"]));
    assert!(matches!(Session::delete_action(files(), false), DeleteAction::Nothing));
    assert!(matches!(Session::delete_action(PauseOutcome::NoFiles, true), DeleteAction::Nothing));
    assert!(matches!(Session::delete_action(PauseOutcome::NoFiles, false), DeleteAction::Nothing));
}

#[test]
fn resuming_and_stopping() {
    let mut session = session();
    add(&mut session, 1, AddTorrentOptions::default()).unwrap();
    add(&mut session, 2, AddTorrentOptions::default()).unwrap();
    let request = session.unpause(1).unwrap().unwrap();
    assert_eq!((request.info_hash, request.announce_port), (id(2), Some(4240)));
    assert_eq!(session.unpause(2).err(), Some(SessionError::NoSuchTorrent(2)));
    let mut ids = session.stop();
    ids.sort();
    assert_eq!(ids, vec![0, 1]);
    let no_dht = SessionOptions { disable_dht: true, ..Default::default() };
    let mut offline = Session::new_with_opts("/downloads".to_string(), no_dht, started()).0;
    add(&mut offline, 1, AddTorrentOptions::default()).unwrap();
    assert!(offline.unpause(0).unwrap().is_none());
}

#[test]
fn a_descriptor_is_stored_as_base64_without_padding() {
    let text = |bytes: &[u8]| {
        serialize_torrent(&TorrentInfo { encoded: bytes.to_vec(), ..single() })
    };
    assert_eq!(text(b""), "");
    assert_eq!(text(b"h"), "aA");
    assert_eq!(text(b"he"), "aGU");
    assert_eq!(text(b"hel"), "aGVs");
    assert_eq!(text(b"hello"), "aGVsbG8");
    assert_eq!(text(&[0xfb, 0xff, 0xfe]), "+//+");
    assert_eq!(deserialize_torrent("aGVsbG8"), Ok(b"hello".to_vec()));
    assert_eq!(deserialize_torrent("+//+"), Ok(vec![0xfb, 0xff, 0xfe]));
    assert_eq!(deserialize_torrent(""), Ok(Vec::new()));
    assert_eq!(deserialize_torrent("aGVsbG8="), Err(RestoreError::BadDescriptor));
    assert_eq!(deserialize_torrent("a"), Err(RestoreError::BadDescriptor));
    assert_eq!(deserialize_torrent("a-_b"), Err(RestoreError::BadDescriptor));
}

#[test]
fn a_stored_torrent_gives_a_request_to_add_it_again() {
    let stored = SerializedTorrent {
        info_hash: "0b".repeat(20),
        info: album(),
        trackers: vec!["http://b.example/".to_string(), "http://a.example/".to_string()],
        output_folder: "/data/album".to_string(),
        only_files: Some(vec![1]),
        is_paused: true,
    };
    let request = restore_request(17, &stored).unwrap();
    assert_eq!(request.torrent.info_hash, id(0x0b));
    assert_eq!(request.torrent.announce, b"http://b.example/".to_vec());
    assert_eq!(
        request.torrent.announce_list,
        vec![vec![b"http://b.example/".to_vec(), b"http://a.example/".to_vec()]]
    );
    assert_eq!(request.torrent.info.files.len(), 3);
    assert!(request.opts.paused);
    assert!(request.opts.overwrite);
    assert!(!request.opts.list_only);
    assert_eq!(request.opts.output_folder.as_deref(), Some("/data/album"));
    assert_eq!(request.opts.only_files, Some(vec![1]));
    assert_eq!(request.opts.preferred_id, Some(17));
    assert_eq!(request.opts.sub_folder, None);
    assert_eq!(request.opts.only_files_regex, None);
    assert!(!request.opts.disable_trackers);

    let without_trackers = SerializedTorrent { trackers: Vec::new(), is_paused: false, ..stored };
    let request = restore_request(0, &without_trackers).unwrap();
    assert_eq!(request.torrent.announce, b"http://retracker.local/announce".to_vec());
    assert_eq!(request.torrent.announce_list, vec![Vec::<Vec<u8>>::new()]);
    assert!(!request.opts.paused);
    // the torrent file names a tracker; the torrent is restored without one
    assert!(request.opts.disable_trackers);

    let bad = SerializedTorrent { info_hash: "xyz".to_string(), ..without_trackers };
    assert_eq!(restore_request(0, &bad).err(), Some(RestoreError::BadInfoHash(Id20Error::WrongLength)));
    let bad = SerializedTorrent { info_hash: "z".repeat(40), ..bad };
    assert_eq!(restore_request(0, &bad).err(), Some(RestoreError::BadInfoHash(Id20Error::NotHex)));
}

#[test]
fn a_stored_session_comes_back() {
    let mut first = session();
    let infos = [album(), single(), info(None, vec![file("x/a.bin", 40_000), file("x/b.bin", 50_000)])];
    let ids = [3usize, 0, 8];
    for (n, info) in infos.iter().enumerate() {
        let opts = AddTorrentOptions {
            preferred_id: Some(ids[n]),
            only_files: if n == 0 { Some(vec![0, 2]) } else { None },
            output_folder: if n == 1 { Some("/films".to_string()) } else { None },
            ..Default::default()
        };
        let torrent = TorrentMeta {
            announce: format!("http://tracker{}.example/", n).into_bytes(),
            announce_list: vec![vec![
                format!("http://tracker{}.example/", n).into_bytes(),
                b"udp://shared.example:6969".to_vec(),
            ]],
            info: info.clone(),
            info_hash: id(n as u8 + 1),
        };
        let step = first.add_torrent(AddTorrent::TorrentInfo(Box::new(torrent)), Some(opts));
        assert!(matches!(step, Ok(AddTorrentStep::Done(AddTorrentResponse::Added(i, _))) if i == ids[n]));
    }
    assert!(first.set_state(0, TorrentState::Paused));
    assert!(first.set_state(3, TorrentState::Live));

    let snapshot = first.serialize();
    assert_eq!(snapshot.torrents.len(), 3);
    let stored = &snapshot.torrents[&3];
    assert_eq!(stored.info_hash, "01".repeat(20));
    assert_eq!(stored.output_folder, "/downloads/album");
    assert_eq!(stored.only_files, Some(vec![0, 2]));
    assert!(!stored.is_paused);
    assert!(snapshot.torrents[&0].is_paused);
    assert_eq!(
        snapshot.torrents[&8].trackers,
        vec!["http://tracker2.example/".to_string(), "udp://shared.example:6969".to_string()]
    );

    let mut restored = Session::new("/other".to_string(), started()).0;
    let outcomes = restored.populate_from_stored(&snapshot);
    assert_eq!(outcomes.len(), 3);
    for outcome in &outcomes {
        assert!(matches!(&outcome.result, Ok(AddTorrentResponse::Added(i, _)) if *i == outcome.id));
        assert_eq!(outcome.paused, outcome.id == 0);
    }
    let mut restored_ids = restored.torrent_ids();
    restored_ids.sort();
    assert_eq!(restored_ids, vec![0, 3, 8]);
    for id in ids {
        let before = first.get(id).unwrap();
        let after = restored.get(id).unwrap();
        assert_eq!(after.info_hash, before.info_hash);
        assert_eq!(after.info.encoded, before.info.encoded);
        assert_eq!(after.info.name, before.info.name);
        assert_eq!(after.info.files.len(), before.info.files.len());
        assert_eq!(after.out_dir, before.out_dir);
        assert_eq!(after.only_files, before.only_files);
        assert_eq!(after.trackers, before.trackers);
        assert_eq!(after.lengths.total_length(), before.lengths.total_length());
        assert!(after.options.overwrite);
    }
    // storing what came back gives the same snapshot, but for the paused flags,
    // which the driver of each torrent sets once it has started
    let again = restored.serialize();
    for id in ids {
        assert_eq!(again.torrents[&id].info_hash, snapshot.torrents[&id].info_hash);
        assert_eq!(again.torrents[&id].trackers, snapshot.torrents[&id].trackers);
        assert_eq!(again.torrents[&id].output_folder, snapshot.torrents[&id].output_folder);
        assert_eq!(again.torrents[&id].only_files, snapshot.torrents[&id].only_files);
    }
}

#[test]
fn one_broken_entry_does_not_stop_the_others() {
    let mut first = session();
    add(&mut first, 1, AddTorrentOptions::default()).unwrap();
    add(&mut first, 2, AddTorrentOptions::default()).unwrap();
    add(&mut first, 3, AddTorrentOptions::default()).unwrap();
    let mut snapshot = first.serialize();
    snapshot.torrents.get_mut(&1).unwrap().info_hash = "broken".to_string();
    snapshot.torrents.get_mut(&2).unwrap().only_files = Some(vec![99]);
    let mut restored = session();
    let outcomes = restored.populate_from_stored(&snapshot);
    assert_eq!(outcomes.len(), 3);
    for outcome in outcomes {
        match outcome.id {
            0 => assert!(matches!(outcome.result, Ok(AddTorrentResponse::Added(0, _)))),
            1 => assert_eq!(
                outcome.result.err(),
                Some(RestoreError::BadInfoHash(Id20Error::WrongLength))
            ),
            2 => assert_eq!(
                outcome.result.err(),
                Some(RestoreError::Add(AddTorrentError::FileIdOutOfRange(99)))
            ),
            other => panic!("no such entry: {}", other),
        }
    }
    assert_eq!(restored.torrent_ids(), vec![0]);
}

#[test]
fn a_torrent_without_trackers_is_restored_without_trackers() {
    let mut first = session();
    add(&mut first, 1, AddTorrentOptions { disable_trackers: true, ..Default::default() }).unwrap();
    let snapshot = first.serialize();
    assert!(snapshot.torrents[&0].trackers.is_empty());
    let mut restored = session();
    restored.populate_from_stored(&snapshot);
    assert!(restored.get(0).unwrap().trackers.is_empty());
    assert!(restored.serialize().torrents[&0].trackers.is_empty());
}

#[test]
fn a_callback_sees_every_torrent_once() {
    let mut session = session();
    add(&mut session, 1, AddTorrentOptions::default()).unwrap();
    add(&mut session, 2, AddTorrentOptions { preferred_id: Some(9), ..Default::default() }).unwrap();
    let mut seen = session.with_torrents(|torrents: &Vec<(usize, &ManagedTorrent)>| {
        torrents.iter().map(|(id, t)| (*id, t.info_hash)).collect::<Vec<_>>()
    });
    seen.sort_by_key(|(id, _)| *id);
    assert_eq!(seen, vec![(0, id(1)), (9, id(2))]);
    let count = Session::new("/d".to_string(), started()).0.with_torrents(|t: &Vec<(usize, &ManagedTorrent)>| t.len());
    assert_eq!(count, 0);
}

#[test]
fn every_error_has_its_words() {
    let errors = [
        AddTorrentError::OnlyFilesConflict,
        AddTorrentError::FileIdOutOfRange(1),
        AddTorrentError::InvalidRegex,
        AddTorrentError::InvalidFilename(1),
        AddTorrentError::NoFilesMatch,
        AddTorrentError::OutputFolderConflict,
        AddTorrentError::InvalidName,
        AddTorrentError::NoFileStem,
        AddTorrentError::Geometry(GeometryError::TotalLengthOverflow),
        AddTorrentError::RegistryFull,
        AddTorrentError::UnsupportedUrl,
        AddTorrentError::MagnetWithoutDht,
        AddTorrentError::InvalidMagnet(MagnetError::NotMagnet),
    ];
    let mut words: Vec<&str> = errors.iter().map(|e| e.message()).collect();
    assert_eq!(words[5], "you can't provide both output_folder and sub_folder");
    assert_eq!(words[11], "magnet links without DHT are not supported");
    words.sort();
    words.dedup();
    assert_eq!(words.len(), errors.len());
}

#[test]
fn the_registry_refuses_to_run_out_of_ids() {
    let mut session = session();
    let r = add(&mut session, 1, AddTorrentOptions { preferred_id: Some(usize::MAX), ..Default::default() });
    assert_eq!(r.err(), Some(AddTorrentError::RegistryFull));
    let r = add(&mut session, 1, AddTorrentOptions { preferred_id: Some(usize::MAX - 1), ..Default::default() });
    assert_eq!(added(r.unwrap()).0, usize::MAX - 1);
    // the counter has reached the last number
    let r = add(&mut session, 2, AddTorrentOptions::default());
    assert_eq!(r.err(), Some(AddTorrentError::RegistryFull));
    assert_eq!(session.torrent_ids(), vec![usize::MAX - 1]);
}

#[test]
fn the_plan_for_the_output_folder() {
    let plan = |output: Option<&str>, sub: Option<&str>, info: &TorrentInfo| {
        plan_output_folder(info, output.map(String::from), sub.map(String::from))
    };
    assert_eq!(plan(Some("/e"), None, &album()), Ok(FolderPlan::Explicit("/e".to_string())));
    assert_eq!(plan(Some("/e"), Some("s"), &album()), Err(AddTorrentError::OutputFolderConflict));
    assert_eq!(plan(None, Some("s"), &album()), Ok(FolderPlan::Join("s".to_string())));
    assert_eq!(plan(None, None, &album()), Ok(FolderPlan::Join("album".to_string())));
    // fewer than two files: no sub-folder, though the torrent has a name
    assert_eq!(plan(None, None, &single()), Ok(FolderPlan::Join(String::new())));
    assert_eq!(plan(None, None, &info(None, Vec::new())), Ok(FolderPlan::Join(String::new())));
    // no name: the longest file, the last of the longest
    let nameless = info(None, vec![file("a/x.bin", 5), file("b/yy.tar.gz", 9), file("c/z.iso", 9)]);
    assert_eq!(plan(None, None, &nameless), Ok(FolderPlan::JoinStemOf("c/z.iso".to_string())));
    let first_longest = info(None, vec![file("a/x.bin", 50), file("b/y.bin", 9), file("c/z.iso", 9)]);
    assert_eq!(plan(None, None, &first_longest), Ok(FolderPlan::JoinStemOf("a/x.bin".to_string())));
    // a name that is no text fails the plan only where the name is needed
    let broken_name = TorrentInfo { name: Some(vec![0xc0]), ..album() };
    assert_eq!(plan(None, None, &broken_name), Err(AddTorrentError::InvalidName));
    assert_eq!(plan(None, Some("s"), &broken_name), Ok(FolderPlan::Join("s".to_string())));
    let broken_file = info(Some("n"), vec![TorrentFile { name: vec![0xff], length: 1 }, file("b", 2)]);
    assert_eq!(plan(None, None, &broken_file), Err(AddTorrentError::InvalidFilename(0)));
    assert_eq!(plan(Some("/e"), None, &broken_file), Ok(FolderPlan::Explicit("/e".to_string())));

    let resolve = |plan: FolderPlan| resolve_output_folder("/root", plan);
    assert_eq!(resolve(FolderPlan::Explicit("/e".to_string())), Ok("/e".to_string()));
    assert_eq!(resolve(FolderPlan::Join("s".to_string())), Ok("/root/s".to_string()));
    assert_eq!(resolve(FolderPlan::Join(String::new())), Ok("/root/".to_string()));
    assert_eq!(resolve(FolderPlan::JoinStemOf("c/z.tar.gz".to_string())), Ok("/root/z.tar".to_string()));
    assert_eq!(resolve(FolderPlan::JoinStemOf("..".to_string())), Err(AddTorrentError::NoFileStem));
}

#[test]
fn a_pattern_and_a_folder_are_settled_independently() {
    let mut session = session();
    // a named folder is used as it is, with a pattern too
    let r = add(
        &mut session,
        1,
        AddTorrentOptions {
            only_files_regex: Some("cover".to_string()),
            output_folder: Some("/pictures".to_string()),
            ..Default::default()
        },
    );
    let (_, t) = added(r.unwrap());
    assert_eq!((t.out_dir.as_str(), t.only_files), ("/pictures", Some(vec![2])));
    // folder and sub-folder together fail, with a pattern too
    let r = add(
        &mut session,
        2,
        AddTorrentOptions {
            only_files_regex: Some("cover".to_string()),
            output_folder: Some("/pictures".to_string()),
            sub_folder: Some("x".to_string()),
            ..Default::default()
        },
    );
    assert_eq!(r.err(), Some(AddTorrentError::OutputFolderConflict));
    // the selection is settled first
    let r = add(
        &mut session,
        2,
        AddTorrentOptions {
            only_files: Some(vec![3]),
            output_folder: Some("/pictures".to_string()),
            sub_folder: Some("x".to_string()),
            ..Default::default()
        },
    );
    assert_eq!(r.err(), Some(AddTorrentError::FileIdOutOfRange(3)));
    // a list is used as it is given, whatever the folder
    let r = add(
        &mut session,
        2,
        AddTorrentOptions {
            only_files: Some(vec![2, 0, 2]),
            sub_folder: Some("x".to_string()),
            ..Default::default()
        },
    );
    let (_, t) = added(r.unwrap());
    assert_eq!((t.out_dir.as_str(), t.only_files), ("/downloads/x", Some(vec![2, 0, 2])));
    assert_eq!(session.torrent_ids().len(), 2);
}

#[test]
fn a_managed_torrent_is_returned_whatever_the_folder() {
    let mut session = session();
    let (first_id, first) = added(add(&mut session, 1, AddTorrentOptions::default()).unwrap());
    for opts in [
        AddTorrentOptions::default(),
        AddTorrentOptions { sub_folder: Some("elsewhere".to_string()), ..Default::default() },
        AddTorrentOptions { only_files_regex: Some("flac".to_string()), ..Default::default() },
        AddTorrentOptions { preferred_id: Some(40), paused: true, ..Default::default() },
    ] {
        match add(&mut session, 1, opts) {
            Ok(AddTorrentResponse::AlreadyManaged(id, handle)) => {
                assert_eq!(id, first_id);
                assert_eq!(handle.out_dir, first.out_dir);
                assert_eq!(handle.only_files, None);
            }
            other => panic!("expected the torrent that is there, got {:?}", other),
        }
    }
    assert_eq!(session.torrent_ids(), vec![first_id]);
    // a request that selects badly fails, managed or not
    let bad = AddTorrentOptions { only_files: Some(vec![9]), ..Default::default() };
    assert_eq!(add(&mut session, 1, bad).err(), Some(AddTorrentError::FileIdOutOfRange(9)));
}

#[test]
fn a_compiled_pattern_selects_what_the_pattern_selects() {
    let re = regex::Regex::new("0[12]").unwrap();
    assert_eq!(select_files(&album(), &re), compute_only_files(&album(), "0[12]"));
    assert_eq!(select_files(&album(), &re), Ok(vec![0, 1]));
    let none = regex::Regex::new("^$").unwrap();
    assert_eq!(select_files(&album(), &none), Err(AddTorrentError::NoFilesMatch));
    // a pattern that does not compile is reported before the names are read
    let broken = info(None, vec![TorrentFile { name: vec![0xff], length: 1 }]);
    assert_eq!(compute_only_files(&broken, "("), Err(AddTorrentError::InvalidRegex));
    assert_eq!(compute_only_files(&broken, "a"), Err(AddTorrentError::InvalidFilename(0)));
}
