//! The registry of managed torrents: a map from torrent id to torrent, and
//! the counter that ids are taken from.

use crate::id20::Id20;
use crate::torrent::{ManagedTorrent, ManagedTorrentView, TorrentState};
use std::collections::HashMap;
use vstd::prelude::*;
use vstd::std_specs::hash::*;
use vstd::std_specs::iter::IteratorSpec;

verus! {

broadcast use vstd::std_specs::hash::group_hash_axioms;

/// A torrent's id in the registry. Ids are local to the process.
pub type TorrentId = usize;

/// The registry as a map of torrent views and a counter.
pub struct DbView {
    pub next_id: int,
    pub torrents: Map<usize, ManagedTorrentView>,
}

impl DbView {
    /// Every id in use lies below the counter.
    pub open spec fn wf(self) -> bool {
        &&& 0 <= self.next_id <= usize::MAX
        &&& self.torrents.dom().finite()
        &&& forall|id: usize| #[trigger] self.torrents.contains_key(id) ==> id < self.next_id
    }

    /// `true` when the preferred id is given and not in use.
    pub open spec fn takes_preferred(self, preferred_id: Option<usize>) -> bool {
        preferred_id matches Some(id) && !self.torrents.contains_key(id)
    }

    /// The id that the next torrent gets: the preferred id if one is given
    /// and free, else the counter.
    pub open spec fn assigned_id(self, preferred_id: Option<usize>) -> int {
        if self.takes_preferred(preferred_id) {
            preferred_id.unwrap() as int
        } else {
            self.next_id
        }
    }

    /// `true` when a torrent can be added without running out of ids: the id
    /// it gets is not the largest number there is.
    pub open spec fn can_add(self, preferred_id: Option<usize>) -> bool {
        self.next_id < usize::MAX && self.assigned_id(preferred_id) < usize::MAX
    }

    /// The registry after a torrent was added: the torrent stands under its
    /// assigned id, and the counter has moved past that id.
    pub open spec fn add(self, torrent: ManagedTorrentView, preferred_id: Option<usize>) -> DbView {
        let id = self.assigned_id(preferred_id);
        DbView {
            next_id: if id > self.next_id {
                id + 1
            } else {
                self.next_id + 1
            },
            torrents: self.torrents.insert(id as usize, torrent),
        }
    }

    /// `true` when some torrent has this info hash.
    pub open spec fn manages(self, info_hash: Seq<u8>) -> bool {
        exists|id: usize| #[trigger]
            self.torrents.contains_key(id) && self.torrents[id].info_hash == info_hash
    }

    /// Every torrent is consistent.
    pub open spec fn consistent_torrents(self) -> bool {
        forall|id: usize| #[trigger] self.torrents.contains_key(id) ==> self.torrents[id].wf()
    }

    /// No two torrents have the same info hash.
    pub open spec fn distinct_info_hashes(self) -> bool {
        forall|a: usize, b: usize|
            #![trigger self.torrents[a], self.torrents[b]]
            self.torrents.contains_key(a) && self.torrents.contains_key(b)
                && self.torrents[a].info_hash == self.torrents[b].info_hash ==> a == b
    }
    /// The torrents of a registry stay consistent, and their info hashes
    /// distinct, when a torrent is added that is consistent and whose info
    /// hash is new.
    pub proof fn lemma_add_keeps_sound(self, torrent: ManagedTorrentView, preferred_id: Option<usize>)
        requires
            self.wf(),
            self.can_add(preferred_id),
            !self.manages(torrent.info_hash),
        ensures
            !self.torrents.contains_key(self.assigned_id(preferred_id) as usize),
            self.distinct_info_hashes() ==> self.add(torrent, preferred_id).distinct_info_hashes(),
            self.consistent_torrents() && torrent.wf() ==> self.add(
                torrent,
                preferred_id,
            ).consistent_torrents(),
    {
        let id = self.assigned_id(preferred_id) as usize;
        let after = self.add(torrent, preferred_id);
        if !self.takes_preferred(preferred_id) && self.torrents.contains_key(id) {
            assert(id < self.next_id);
        }
        if self.distinct_info_hashes() {
            assert forall|a: usize, b: usize|
                #![trigger after.torrents[a], after.torrents[b]]
                after.torrents.contains_key(a) && after.torrents.contains_key(b)
                    && after.torrents[a].info_hash == after.torrents[b].info_hash implies a == b by {
                if a != id && b != id {
                    assert(self.torrents.contains_key(a) && self.torrents.contains_key(b));
                    assert(self.torrents[a].info_hash == self.torrents[b].info_hash);
                } else if a != b {
                    let other = if a == id {
                        b
                    } else {
                        a
                    };
                    assert(self.torrents.contains_key(other));
                    assert(self.torrents[other].info_hash == torrent.info_hash);
                    assert(self.manages(torrent.info_hash));
                }
            }
        }
        if self.consistent_torrents() && torrent.wf() {
            assert forall|other: usize| #[trigger]
                after.torrents.contains_key(other) implies after.torrents[other].wf() by {
                if other != id {
                    assert(self.torrents.contains_key(other));
                }
            }
        }
    }

    /// The torrents of a registry stay consistent, and their info hashes
    /// distinct, when torrents are taken out or change their state.
    pub proof fn lemma_rest_stays_sound(self, after: DbView)
        requires
            self.consistent_torrents(),
            self.distinct_info_hashes(),
            forall|id: usize| #[trigger]
                after.torrents.contains_key(id) ==> self.torrents.contains_key(id)
                    && after.torrents[id] == (ManagedTorrentView {
                    state: after.torrents[id].state,
                    ..self.torrents[id]
                }),
        ensures
            after.consistent_torrents(),
            after.distinct_info_hashes(),
    {
        assert forall|a: usize, b: usize|
            #![trigger after.torrents[a], after.torrents[b]]
            after.torrents.contains_key(a) && after.torrents.contains_key(b)
                && after.torrents[a].info_hash == after.torrents[b].info_hash implies a == b by {
            assert(self.torrents.contains_key(a) && self.torrents.contains_key(b));
            assert(self.torrents[a].info_hash == self.torrents[b].info_hash);
        }
        assert forall|other: usize| #[trigger]
            after.torrents.contains_key(other) implies after.torrents[other].wf() by {
            assert(self.torrents.contains_key(other));
        }
    }
}

#[derive(Debug)]
pub struct SessionDatabase {
    next_id: TorrentId,
    torrents: HashMap<TorrentId, ManagedTorrent>,
}

impl View for SessionDatabase {
    type V = DbView;

    closed spec fn view(&self) -> DbView {
        DbView {
            next_id: self.next_id as int,
            torrents: self.torrents@.map_values(|t: ManagedTorrent| t@),
        }
    }
}

impl SessionDatabase {
    /// The torrents themselves, by id.
    pub closed spec fn entries(&self) -> Map<usize, ManagedTorrent> {
        self.torrents@
    }

    /// Every id in use lies below the counter.
    pub open spec fn wf(&self) -> bool {
        self@.wf()
    }

    /// The view of the registry is the view of its entries.
    pub proof fn lemma_view(&self)
        ensures
            self@.torrents.dom() == self.entries().dom(),
            forall|id: usize| #[trigger]
                self.entries().contains_key(id) ==> self@.torrents[id] == self.entries()[id]@,
            self.entries().dom().finite(),
    {
    }

    /// An empty registry whose first id is 0.
    pub fn new() -> (db: Self)
        ensures
            db.wf(),
            db@.next_id == 0,
            db@.torrents == Map::<usize, ManagedTorrentView>::empty(),
    {
        let db = SessionDatabase { next_id: 0, torrents: HashMap::new() };
        assert(db@.torrents =~= Map::<usize, ManagedTorrentView>::empty());
        db
    }

    /// The id that the next torrent gets when none is preferred.
    pub fn next_id(&self) -> (id: TorrentId)
        ensures
            id == self@.next_id,
    {
        self.next_id
    }

    /// `true` when a torrent can be added without running out of ids.
    pub fn can_add(&self, preferred_id: Option<TorrentId>) -> (ok: bool)
        ensures
            ok == self@.can_add(preferred_id),
    {
        if self.next_id == usize::MAX {
            return false;
        }
        match preferred_id {
            Some(id) => self.torrents.contains_key(&id) || id < usize::MAX,
            None => true,
        }
    }

    /// Adds a torrent and returns its id. A preferred id is used if it is
    /// free, and the counter then moves past it; if it is taken, or none is
    /// given, the torrent gets the counter's value. No torrent that was in
    /// the registry is touched.
    pub fn add_torrent(&mut self, torrent: ManagedTorrent, preferred_id: Option<TorrentId>) -> (id:
        TorrentId)
        requires
            old(self).wf(),
            old(self)@.can_add(preferred_id),
        ensures
            final(self).wf(),
            id == old(self)@.assigned_id(preferred_id),
            final(self)@ == old(self)@.add(torrent@, preferred_id),
            final(self).entries() == old(self).entries().insert(id, torrent),
            !old(self)@.torrents.contains_key(id),
    {
        let ghost before = self@;
        match preferred_id {
            Some(id) => {
                if !self.torrents.contains_key(&id) {
                    self.torrents.insert(id, torrent);
                    self.next_id = if id > self.next_id {
                        id + 1
                    } else {
                        self.next_id + 1
                    };
                    assert(self@.torrents =~= before.add(torrent@, preferred_id).torrents);
                    return id;
                }
            },
            None => {},
        }
        let idx: usize = self.next_id;
        self.torrents.insert(idx, torrent);
        self.next_id = self.next_id + 1;
        assert(self@.torrents =~= before.add(torrent@, preferred_id).torrents);
        idx
    }

    /// The torrent with the given id.
    pub fn get(&self, id: TorrentId) -> (r: Option<&ManagedTorrent>)
        ensures
            match r {
                Some(t) => self.entries().contains_key(id) && *t == self.entries()[id]
                    && self@.torrents.contains_key(id) && t@ == self@.torrents[id],
                None => !self@.torrents.contains_key(id),
            },
    {
        self.torrents.get(&id)
    }

    /// Takes a torrent out of the registry and returns it.
    pub fn remove(&mut self, id: TorrentId) -> (r: Option<ManagedTorrent>)
        requires
            old(self).wf(),
        ensures
            final(self).wf(),
            final(self)@.next_id == old(self)@.next_id,
            final(self)@.torrents == old(self)@.torrents.remove(id),
            final(self).entries() == old(self).entries().remove(id),
            match r {
                Some(t) => old(self).entries().contains_key(id) && t == old(self).entries()[id],
                None => !old(self)@.torrents.contains_key(id),
            },
    {
        let ghost before = self@;
        let r = self.torrents.remove(&id);
        assert(self@.torrents =~= before.torrents.remove(id));
        r
    }

    /// How many torrents the registry holds.
    pub fn len(&self) -> (n: usize)
        ensures
            n == self@.torrents.len(),
    {
        assert(self@.torrents.dom() =~= self.torrents@.dom());
        self.torrents.len()
    }

    /// The torrents, each once, with their ids, in no particular order.
    pub fn list(&self) -> (listed: Vec<(TorrentId, &ManagedTorrent)>)
        ensures
            forall|i: int, j: int|
                0 <= i < j < listed@.len() ==> (#[trigger] listed@[i]).0 != (#[trigger] listed@[j]).0,
            forall|i: int|
                0 <= i < listed@.len() ==> self.entries().contains_key((#[trigger] listed@[i]).0)
                    && *listed@[i].1 == self.entries()[listed@[i].0] && self@.torrents.contains_key(
                    listed@[i].0,
                ) && listed@[i].1@ == self@.torrents[listed@[i].0],
            forall|id: usize| #[trigger]
                self@.torrents.contains_key(id) ==> exists|i: int|
                    0 <= i < listed@.len() && (#[trigger] listed@[i]).0 == id,
    {
        let mut listed: Vec<(TorrentId, &ManagedTorrent)> = Vec::new();
        for pair in it: self.torrents.iter()
            invariant
                listed@.len() == it.index(),
                forall|i: int|
                    0 <= i < it.index() ==> (#[trigger] listed@[i]).0 == *it.seq()[i].0
                        && listed@[i].1 == it.seq()[i].1,
        {
            let (id, torrent) = pair;
            listed.push((*id, torrent));
        }
        proof {
            let all = self.torrents.iter().remaining();
            assert(listed@.len() == all.len());
            assert forall|i: int| 0 <= i < listed@.len() implies self.entries().contains_key(
                (#[trigger] listed@[i]).0,
            ) && *listed@[i].1 == self.entries()[listed@[i].0] && self@.torrents.contains_key(
                listed@[i].0,
            ) && listed@[i].1@ == self@.torrents[listed@[i].0] by {
                assert(self.torrents@.contains_key(*all[i].0) && self.torrents@[*all[i].0] == *all[i].1);
            }
            assert forall|i: int, j: int| 0 <= i < j < listed@.len() implies (#[trigger] listed@[i]).0
                != (#[trigger] listed@[j]).0 by {
                assert(self.torrents@.contains_key(*all[i].0) && self.torrents@[*all[i].0] == *all[i].1);
                assert(self.torrents@.contains_key(*all[j].0) && self.torrents@[*all[j].0] == *all[j].1);
                if listed@[i].0 == listed@[j].0 {
                    assert(all[i] == all[j]);
                }
            }
            assert forall|id: usize| #[trigger] self@.torrents.contains_key(id) implies exists|i: int|
                0 <= i < listed@.len() && (#[trigger] listed@[i]).0 == id by {
                assert(self.torrents@.contains_key(id));
                assert(all.contains((&id, &self.torrents@[id])));
                let i = choose|i: int| 0 <= i < all.len() && all[i] == (&id, &self.torrents@[id]);
                assert(listed@[i].0 == id);
            }
        }
        listed
    }

    /// The ids in use, each once, in no particular order.
    pub fn ids(&self) -> (ids: Vec<TorrentId>)
        ensures
            ids@.no_duplicates(),
            forall|id: usize| ids@.contains(id) <==> self@.torrents.contains_key(id),
    {
        let mut ids: Vec<TorrentId> = Vec::new();
        for pair in it: self.torrents.iter()
            invariant
                ids@.len() == it.index(),
                forall|i: int| 0 <= i < it.index() ==> ids@[i] == *(#[trigger] it.seq()[i]).0,
        {
            let (id, _) = pair;
            ids.push(*id);
        }
        proof {
            let all = self.torrents.iter().remaining();
            assert(ids@.len() == all.len());
            assert forall|i: int, j: int| 0 <= i < ids@.len() && 0 <= j < ids@.len() && i != j implies ids@[i]
                != ids@[j] by {
                assert(self.torrents@.contains_key(*all[i].0) && self.torrents@[*all[i].0] == *all[i].1);
                assert(self.torrents@.contains_key(*all[j].0) && self.torrents@[*all[j].0] == *all[j].1);
                if ids@[i] == ids@[j] {
                    assert(all[i] == all[j]);
                }
            }
            assert forall|id: usize| ids@.contains(id) <==> self@.torrents.contains_key(id) by {
                if ids@.contains(id) {
                    let i = choose|i: int| 0 <= i < ids@.len() && ids@[i] == id;
                    assert(self.torrents@.contains_key(*all[i].0));
                }
                if self@.torrents.contains_key(id) {
                    assert(self.torrents@.contains_key(id));
                    assert(all.contains((&id, &self.torrents@[id])));
                    let i = choose|i: int| 0 <= i < all.len() && all[i] == (&id, &self.torrents@[id]);
                    assert(ids@[i] == id);
                }
            }
        }
        ids
    }

    /// Records the lifecycle state of a torrent. Returns whether there is a
    /// torrent with this id.
    pub fn set_state(&mut self, id: TorrentId, state: TorrentState) -> (found: bool)
        requires
            old(self).wf(),
        ensures
            final(self).wf(),
            found == old(self)@.torrents.contains_key(id),
            final(self)@ == if found {
                DbView {
                    torrents: old(self)@.torrents.insert(
                        id,
                        ManagedTorrentView { state, ..old(self)@.torrents[id] },
                    ),
                    ..old(self)@
                }
            } else {
                old(self)@
            },
    {
        let ghost before = self@;
        match self.torrents.remove(&id) {
            Some(torrent) => {
                let ManagedTorrent {
                    info_hash,
                    info,
                    out_dir,
                    trackers,
                    only_files,
                    lengths,
                    options,
                    state: _,
                } = torrent;
                let updated = ManagedTorrent {
                    info_hash,
                    info,
                    out_dir,
                    trackers,
                    only_files,
                    lengths,
                    options,
                    state,
                };
                self.torrents.insert(id, updated);
                assert(self@.torrents =~= before.torrents.insert(
                    id,
                    ManagedTorrentView { state, ..before.torrents[id] },
                ));
                true
            },
            None => {
                assert(self@.torrents =~= before.torrents);
                false
            },
        }
    }

    /// A torrent with the given info hash, and its id.
    pub fn find_by_info_hash(&self, info_hash: &Id20) -> (r: Option<(TorrentId, &ManagedTorrent)>)
        ensures
            match r {
                Some((id, t)) => self.entries().contains_key(id) && *t == self.entries()[id]
                    && t.info_hash@ == info_hash@,
                None => !self@.manages(info_hash@),
            },
    {
        for pair in it: self.torrents.iter()
            invariant
                forall|i: int|
                    0 <= i < it.index() ==> (#[trigger] it.seq()[i]).1.info_hash@ != info_hash@,
        {
            let (id, torrent) = pair;
            if torrent.info_hash.same_as(info_hash) {
                return Some((*id, torrent));
            }
        }
        None
    }
}

} // verus!
