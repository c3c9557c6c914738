//! Restoring a stored session: what becomes of each stored torrent, and what
//! holds of a registry that was stored and restored.

use crate::add_torrent::trackers_of_bytes;
use crate::options::AddTorrentError;
use crate::register::{
    built_torrent, explicit_outcome, lemma_add_keeps_the_rest, lemma_without_repeats,
    without_repeats, AddTorrentResponse, RegisterOptions, ResponseView,
};
use crate::selection::only_files_result;
use crate::session::SessionView;
use crate::session_db::{DbView, TorrentId};
use crate::snapshot::{restore_request_of, RestoreError, RestoreRequestView, SerializedTorrentView};
use crate::torrent::{
    indices_in_range, ManagedTorrentOptions, ManagedTorrentView, PeerConnectionOptions,
    TorrentState,
};
use vstd::prelude::*;

verus! {

/// The options that a request to add a stored torrent again carries.
pub open spec fn restore_options(v: RestoreRequestView) -> RegisterOptions {
    RegisterOptions {
        list_only: false,
        overwrite: true,
        disable_trackers: v.disable_trackers,
        force_tracker_interval: None,
        peer_opts: None,
        preferred_id: Some(v.preferred_id),
    }
}

/// What adding a stored torrent again returns.
pub open spec fn restore_outcome(session: SessionView, id: usize, stored: SerializedTorrentView) -> Result<
    ResponseView,
    RestoreError,
> {
    match restore_request_of(id, stored) {
        Err(e) => Err(e),
        Ok(v) => match explicit_outcome(
            session.db,
            session.peer_opts,
            v.info_hash,
            v.info,
            Seq::empty(),
            trackers_of_bytes(crate::add_torrent::announce_urls(v.announce, v.announce_list)),
            v.only_files,
            v.output_folder,
            false,
            restore_options(v),
        ) {
            Ok(response) => Ok(response),
            Err(e) => Err(RestoreError::Add(e)),
        },
    }
}

/// The session after a stored torrent was added again, or was not.
pub open spec fn restore_one(session: SessionView, id: usize, stored: SerializedTorrentView) -> SessionView {
    match restore_outcome(session, id, stored) {
        Ok(ResponseView::Added(_, torrent)) => SessionView {
            db: session.db.add(torrent, Some(id)),
            ..session
        },
        _ => session,
    }
}

/// The session after the stored torrents were added again, one after the
/// other.
pub open spec fn restore_all(session: SessionView, entries: Seq<(usize, SerializedTorrentView)>) -> SessionView
    decreases entries.len(),
{
    if entries.len() == 0 {
        session
    } else {
        restore_one(
            restore_all(session, entries.drop_last()),
            entries.last().0,
            entries.last().1,
        )
    }
}

/// `true` when the list holds the entries of the snapshot, each once.
pub open spec fn lists_snapshot(
    entries: Seq<(usize, SerializedTorrentView)>,
    snapshot: Map<usize, SerializedTorrentView>,
) -> bool {
    &&& forall|i: int, j: int|
        0 <= i < j < entries.len() ==> (#[trigger] entries[i]).0 != (#[trigger] entries[j]).0
    &&& forall|i: int|
        0 <= i < entries.len() ==> snapshot.contains_key((#[trigger] entries[i]).0)
            && snapshot[entries[i].0] == entries[i].1
    &&& forall|id: usize| #[trigger]
        snapshot.contains_key(id) ==> exists|i: int|
            0 <= i < entries.len() && (#[trigger] entries[i]).0 == id
}

/// What became of one stored torrent.
#[derive(Debug)]
pub struct RestoreOutcome {
    /// The id the torrent was stored under.
    pub id: TorrentId,
    /// Whether the torrent is to start paused.
    pub paused: bool,
    pub result: Result<AddTorrentResponse, RestoreError>,
}

/// The view of what became of a stored torrent.
pub open spec fn restore_result_view(r: Result<AddTorrentResponse, RestoreError>) -> Result<
    ResponseView,
    RestoreError,
> {
    match r {
        Ok(response) => Ok(response@),
        Err(e) => Err(e),
    }
}

/// The trackers of a torrent after it was stored and added again: none
/// where none was stored; else the stored trackers, read as those of a
/// torrent file, parsed again, each once.
pub open spec fn restored_trackers(trackers: Seq<Seq<char>>) -> Seq<Seq<char>> {
    if trackers.len() == 0 {
        Seq::empty()
    } else {
        without_repeats(
            trackers_of_bytes(
                crate::add_torrent::announce_urls(
                    vstd::utf8::encode_utf8(trackers[0]),
                    seq![crate::snapshot::tracker_bytes(trackers)],
                ),
            ),
        )
    }
}

/// A torrent after it was stored and added again by a session with the given
/// default peer options.
pub open spec fn restored_torrent(torrent: ManagedTorrentView, session_peer_opts: PeerConnectionOptions) -> ManagedTorrentView {
    ManagedTorrentView {
        trackers: restored_trackers(torrent.trackers),
        options: ManagedTorrentOptions {
            overwrite: true,
            force_tracker_interval: None,
            peer_connect_timeout: session_peer_opts.connect_timeout,
            peer_read_write_timeout: session_peer_opts.read_write_timeout,
        },
        state: TorrentState::Initializing,
        ..torrent
    }
}

/// A list of indices that are all in range is accepted as it is.
pub proof fn lemma_indices_in_range_are_accepted(files: Seq<crate::torrent::TorrentFileView>, only_files: Option<Seq<usize>>)
    requires
        indices_in_range(only_files, files.len() as int),
    ensures
        only_files_result(files, only_files, false) == Ok::<Option<Seq<usize>>, AddTorrentError>(
            only_files,
        ),
{
    match only_files {
        Some(list) => {
            let beyond = crate::selection::is_out_of_range(list, files.len() as int);
            crate::selection::lemma_first_index_where(list.len() as int, beyond);
            match crate::selection::first_index_where(list.len() as int, beyond) {
                Some(i) => {
                    assert(beyond(i));
                    assert(list[i] < files.len());
                },
                None => {},
            }
        },
        None => {},
    }
}

/// A consistent torrent that is stored and added again, to a session that
/// does not manage its info hash and has its id free, is added under its id
/// and holds what it held: info hash, descriptor, geometry, folder and
/// selection of files. It is built anew, so it is initializing, may write over
/// what is on disk, and has the session's timeouts; its trackers are
/// `restored_trackers`.
pub proof fn lemma_restore_keeps_torrent(session: SessionView, id: usize, torrent: ManagedTorrentView)
    requires
        torrent.wf(),
        !session.db.manages(torrent.info_hash),
        !session.db.torrents.contains_key(id),
        session.db.can_add(Some(id)),
    ensures
        restore_outcome(session, id, crate::snapshot::snapshot_of(torrent)) == Ok::<
            ResponseView,
            RestoreError,
        >(ResponseView::Added(id, restored_torrent(torrent, session.peer_opts))),
        restore_one(session, id, crate::snapshot::snapshot_of(torrent)) == (SessionView {
            db: session.db.add(restored_torrent(torrent, session.peer_opts), Some(id)),
            ..session
        }),
        restored_torrent(torrent, session.peer_opts).wf(),
{
    let stored = crate::snapshot::snapshot_of(torrent);
    crate::snapshot::lemma_restore_request_keeps_fields(id, torrent);
    lemma_indices_in_range_are_accepted(torrent.info.files, torrent.only_files);
    let v = restore_request_of(id, stored).unwrap();
    let trackers = trackers_of_bytes(crate::add_torrent::announce_urls(v.announce, v.announce_list));
    lemma_without_repeats(trackers);
    let built = built_torrent(
        v.info_hash,
        v.info,
        v.only_files,
        v.output_folder,
        trackers,
        restore_options(v),
        session.peer_opts,
    );
    assert(built == restored_torrent(torrent, session.peer_opts));
}

/// Text that is written as bytes and read back is a tracker exactly when it
/// parses as a URL.
pub proof fn lemma_trackers_of_tracker_bytes(trackers: Seq<Seq<char>>)
    requires
        forall|i: int|
            0 <= i < trackers.len() ==> crate::outside::url_serialization(#[trigger] trackers[i])
                == Some(trackers[i]),
    ensures
        trackers_of_bytes(crate::snapshot::tracker_bytes(trackers)) == trackers,
    decreases trackers.len(),
{
    broadcast use vstd::utf8::encode_utf8_valid_utf8, vstd::utf8::encode_utf8_decode_utf8;

    let bytes = crate::snapshot::tracker_bytes(trackers);
    if trackers.len() == 0 {
        assert(trackers_of_bytes(bytes) =~= trackers);
    } else {
        let shorter = trackers.drop_last();
        lemma_trackers_of_tracker_bytes(shorter);
        assert(bytes.drop_last() =~= crate::snapshot::tracker_bytes(shorter));
        let last = trackers.last();
        assert(bytes.last() == vstd::utf8::encode_utf8(last));
        assert(vstd::utf8::valid_utf8(vstd::utf8::encode_utf8(last)));
        assert(vstd::utf8::decode_utf8(vstd::utf8::encode_utf8(last)) == last);
        assert(crate::add_torrent::tracker_of_bytes(bytes.last()) == Some(last));
        assert(shorter.push(last) =~= trackers);
    }
}

/// Trackers that are stored come back as they were, provided none is listed
/// twice and each is the serialization of the URL it parses to.
pub proof fn lemma_restored_trackers(trackers: Seq<Seq<char>>)
    requires
        trackers.no_duplicates(),
        forall|i: int|
            0 <= i < trackers.len() ==> crate::outside::url_serialization(#[trigger] trackers[i])
                == Some(trackers[i]),
    ensures
        restored_trackers(trackers) == trackers,
{
    if trackers.len() == 0 {
        assert(trackers =~= Seq::<Seq<char>>::empty());
    } else {
        let bytes = crate::snapshot::tracker_bytes(trackers);
        let tiers = seq![bytes];
        assert(tiers.drop_last() =~= Seq::<Seq<Seq<u8>>>::empty());
        assert(crate::add_torrent::flattened(tiers.drop_last()) =~= Seq::<Seq<u8>>::empty());
        assert(crate::add_torrent::flattened(tiers) =~= bytes);
        lemma_trackers_of_tracker_bytes(trackers);
        lemma_without_repeats(trackers);
    }
}

/// The torrents of a registry that was stored and restored by a fresh
/// session, whatever the order in which its entries are read.
pub open spec fn restored_db(source: DbView, session_peer_opts: PeerConnectionOptions) -> Map<
    usize,
    ManagedTorrentView,
> {
    source.torrents.map_values(|t: ManagedTorrentView| restored_torrent(t, session_peer_opts))
}

/// Storing a registry and restoring it, in any order, into a session with an
/// empty registry gives a registry with the same ids, and under each id the
/// torrent that was stored, as `restored_torrent` describes it: with its info
/// hash, descriptor, geometry, folder and selection of files.
pub proof fn lemma_snapshot_round_trip(
    source: DbView,
    fresh: SessionView,
    entries: Seq<(usize, SerializedTorrentView)>,
)
    requires
        source.wf(),
        source.consistent_torrents(),
        source.distinct_info_hashes(),
        source.next_id + entries.len() < usize::MAX,
        fresh.db == (DbView { next_id: 0, torrents: Map::empty() }),
        lists_snapshot(entries, crate::snapshot::snapshot_of_db(source)),
    ensures
        restore_all(fresh, entries).wf(),
        restore_all(fresh, entries).db.torrents == restored_db(source, fresh.peer_opts),
        restore_all(fresh, entries) == (SessionView {
            db: restore_all(fresh, entries).db,
            ..fresh
        }),
{
    lemma_round_trip_prefix(source, fresh, entries, entries.len() as int);
    assert(entries.subrange(0, entries.len() as int) =~= entries);
    let restored = restore_all(fresh, entries).db.torrents;
    let expected = restored_db(source, fresh.peer_opts);
    assert forall|id: usize| restored.contains_key(id) <==> expected.contains_key(id) by {
        if expected.contains_key(id) {
            assert(crate::snapshot::snapshot_of_db(source).contains_key(id));
            let i = choose|i: int| 0 <= i < entries.len() && (#[trigger] entries[i]).0 == id;
            assert(restored.contains_key(entries[i].0));
        }
        if restored.contains_key(id) {
            let i = choose|i: int| 0 <= i < entries.len() && (#[trigger] entries[i]).0 == id;
            assert(crate::snapshot::snapshot_of_db(source).contains_key(entries[i].0));
        }
    }
    assert forall|id: usize| restored.contains_key(id) implies restored[id] == expected[id] by {
        let i = choose|i: int| 0 <= i < entries.len() && (#[trigger] entries[i]).0 == id;
        assert(restored[entries[i].0] == restored_torrent(
            source.torrents[entries[i].0],
            fresh.peer_opts,
        ));
    }
    assert(restored =~= expected);
}

/// `true` when `settled` is `restored` after the driver of each torrent has
/// reported its state, and a torrent is paused exactly where it was paused in
/// `source`.
pub open spec fn started_as_stored(settled: DbView, restored: DbView, source: DbView) -> bool {
    &&& settled.torrents.dom() == restored.torrents.dom()
    &&& forall|id: usize| #[trigger]
        settled.torrents.contains_key(id) ==> settled.torrents[id] == (ManagedTorrentView {
            state: settled.torrents[id].state,
            ..restored.torrents[id]
        }) && (settled.torrents[id].state == TorrentState::Paused) == (source.torrents[id].state
            == TorrentState::Paused)
}

/// A registry that is stored, restored into a session with an empty registry
/// and started gives, when it is stored again, the snapshot it was restored
/// from: the same ids, and under each id the same info hash, descriptor,
/// trackers, folder, selection of files and paused flag.
///
/// This is stated for registries in which every tracker is the serialization
/// of the URL it parses to.
pub proof fn lemma_stored_session_comes_back(
    source: DbView,
    fresh: SessionView,
    entries: Seq<(usize, SerializedTorrentView)>,
    settled: DbView,
)
    requires
        source.wf(),
        source.consistent_torrents(),
        source.distinct_info_hashes(),
        source.next_id + entries.len() < usize::MAX,
        fresh.db == (DbView { next_id: 0, torrents: Map::empty() }),
        lists_snapshot(entries, crate::snapshot::snapshot_of_db(source)),
        forall|id: usize| #[trigger]
            source.torrents.contains_key(id) ==> forall|i: int|
                0 <= i < source.torrents[id].trackers.len() ==> crate::outside::url_serialization(
                    #[trigger] source.torrents[id].trackers[i],
                ) == Some(source.torrents[id].trackers[i]),
        started_as_stored(settled, restore_all(fresh, entries).db, source),
    ensures
        crate::snapshot::snapshot_of_db(settled) == crate::snapshot::snapshot_of_db(source),
{
    lemma_snapshot_round_trip(source, fresh, entries);
    let restored = restore_all(fresh, entries).db;
    let before = crate::snapshot::snapshot_of_db(source);
    let after = crate::snapshot::snapshot_of_db(settled);
    assert forall|id: usize| after.contains_key(id) <==> before.contains_key(id) by {
        assert(settled.torrents.contains_key(id) <==> restored.torrents.contains_key(id));
    }
    assert forall|id: usize| after.contains_key(id) implies after[id] == before[id] by {
        assert(settled.torrents.contains_key(id));
        assert(restored.torrents.contains_key(id));
        assert(source.torrents.contains_key(id));
        let torrent = source.torrents[id];
        assert(torrent.wf());
        lemma_restored_trackers(torrent.trackers);
        assert(restored.torrents[id] == restored_torrent(torrent, fresh.peer_opts));
    }
    assert(after =~= before);
}

/// The state after the first `k` entries of a snapshot were restored.
proof fn lemma_round_trip_prefix(
    source: DbView,
    fresh: SessionView,
    entries: Seq<(usize, SerializedTorrentView)>,
    k: int,
)
    requires
        source.wf(),
        source.consistent_torrents(),
        source.distinct_info_hashes(),
        source.next_id + entries.len() < usize::MAX,
        fresh.db == (DbView { next_id: 0, torrents: Map::empty() }),
        lists_snapshot(entries, crate::snapshot::snapshot_of_db(source)),
        0 <= k <= entries.len(),
    ensures
        ({
            let s = restore_all(fresh, entries.subrange(0, k));
            &&& s.wf()
            &&& s == SessionView { db: s.db, ..fresh }
            &&& s.db.next_id <= source.next_id + k
            &&& forall|id: usize|
                s.db.torrents.contains_key(id) <==> exists|i: int|
                    0 <= i < k && (#[trigger] entries[i]).0 == id
            &&& forall|i: int|
                0 <= i < k ==> s.db.torrents[(#[trigger] entries[i]).0] == restored_torrent(
                    source.torrents[entries[i].0],
                    fresh.peer_opts,
                )
        }),
    decreases k,
{
    let snapshot = crate::snapshot::snapshot_of_db(source);
    if k == 0 {
        assert(entries.subrange(0, 0) =~= Seq::<(usize, SerializedTorrentView)>::empty());
        let s = restore_all(fresh, entries.subrange(0, 0));
        assert(s == fresh);
        assert(s.db.torrents.dom().finite());
    } else {
        lemma_round_trip_prefix(source, fresh, entries, k - 1);
        let before = restore_all(fresh, entries.subrange(0, k - 1));
        let prefix = entries.subrange(0, k);
        assert(prefix.drop_last() =~= entries.subrange(0, k - 1));
        assert(prefix.last() == entries[k - 1]);
        let (id, stored) = entries[k - 1];
        assert(snapshot.contains_key(entries[k - 1].0) && snapshot[entries[k - 1].0] == entries[k
            - 1].1);
        assert(source.torrents.contains_key(id));
        let torrent = source.torrents[id];
        assert(stored == crate::snapshot::snapshot_of(torrent));
        assert(torrent.wf());
        assert(id < source.next_id);
        // the id is free
        if before.db.torrents.contains_key(id) {
            let i = choose|i: int| 0 <= i < k - 1 && (#[trigger] entries[i]).0 == id;
            assert(entries[i].0 != entries[k - 1].0);
        }
        // the info hash is new
        if before.db.manages(torrent.info_hash) {
            let other = choose|other: usize| #[trigger]
                before.db.torrents.contains_key(other) && before.db.torrents[other].info_hash
                    == torrent.info_hash;
            let i = choose|i: int| 0 <= i < k - 1 && (#[trigger] entries[i]).0 == other;
            assert(before.db.torrents[entries[i].0] == restored_torrent(
                source.torrents[entries[i].0],
                fresh.peer_opts,
            ));
            assert(snapshot.contains_key(entries[i].0));
            assert(source.torrents.contains_key(other));
            assert(source.torrents[other].info_hash == source.torrents[id].info_hash);
            assert(entries[i].0 != entries[k - 1].0);
        }
        lemma_restore_keeps_torrent(before, id, torrent);
        let restored = restored_torrent(torrent, before.peer_opts);
        lemma_add_keeps_the_rest(before.db, restored, Some(id));
        let s = restore_all(fresh, prefix);
        assert(s == SessionView { db: before.db.add(restored, Some(id)), ..before });
        assert forall|other: usize|
            s.db.torrents.contains_key(other) <==> exists|i: int|
                0 <= i < k && (#[trigger] entries[i]).0 == other by {
            if s.db.torrents.contains_key(other) {
                if other == id {
                    assert(entries[k - 1].0 == other);
                } else {
                    assert(before.db.torrents.contains_key(other));
                    let i = choose|i: int| 0 <= i < k - 1 && (#[trigger] entries[i]).0 == other;
                    assert(0 <= i < k && entries[i].0 == other);
                }
            }
            if exists|i: int| 0 <= i < k && (#[trigger] entries[i]).0 == other {
                let i = choose|i: int| 0 <= i < k && (#[trigger] entries[i]).0 == other;
                if i < k - 1 {
                    assert(before.db.torrents.contains_key(other));
                }
            }
        }
        assert forall|i: int| 0 <= i < k implies s.db.torrents[(#[trigger] entries[i]).0]
            == restored_torrent(source.torrents[entries[i].0], fresh.peer_opts) by {
            if i < k - 1 {
                assert(entries[i].0 != entries[k - 1].0);
                assert(before.db.torrents.contains_key(entries[i].0));
            }
        }
        before.db.lemma_add_keeps_sound(restored, Some(id));
    }
}

} // verus!
