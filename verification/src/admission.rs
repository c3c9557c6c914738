//! Incoming connections: which are admitted, and what is handed on.

use crate::id20::Id20;
use crate::options::PeerAddr;
use crate::register::id_of;
use crate::session::SessionView;
use crate::session_db::TorrentId;
use crate::torrent::TorrentState;
use vstd::prelude::*;

verus! {

/// The handshake of a peer, as far as the session reads it.
#[derive(Clone, Copy, Debug)]
pub struct Handshake {
    pub reserved: u64,
    pub info_hash: Id20,
    pub peer_id: Id20,
}

/// Why an incoming connection is turned away.
#[derive(Clone, Copy, Debug, PartialEq, Eq, Structural)]
pub enum AdmissionError {
    /// The peer sent nothing.
    BadHandshake,
    /// What the peer sent is no handshake.
    InvalidHandshake,
    /// The peer has the session's own id.
    SelfConnection,
    /// The torrent with this id has the handshake's info hash and is not
    /// live.
    NotLive(TorrentId),
    /// No torrent has the handshake's info hash.
    NoMatchingTorrent,
}

/// An incoming connection that is admitted: the handshake, and the buffer
/// with what the peer sent after it.
#[derive(Debug)]
pub struct CheckedIncomingConnection {
    pub addr: PeerAddr,
    pub read_buf: Vec<u8>,
    pub handshake: Handshake,
    /// How many bytes at the start of `read_buf` were read from the peer and
    /// not yet handled.
    pub read_so_far: usize,
}

/// A buffer after its bytes `from..to` were copied to its start.
pub open spec fn moved_to_front(buf: Seq<u8>, from: int, to: int) -> Seq<u8> {
    Seq::new(buf.len(), |i: int| if i < to - from { buf[i + from] } else { buf[i] })
}

/// What the check of an incoming connection decides, up to the buffer.
pub open spec fn admission(
    session: SessionView,
    read_so_far: int,
    handshake: Option<(Handshake, usize)>,
) -> Result<TorrentId, AdmissionError> {
    if read_so_far == 0 {
        Err(AdmissionError::BadHandshake)
    } else {
        match handshake {
            None => Err(AdmissionError::InvalidHandshake),
            Some((h, _)) => if h.peer_id@ == session.peer_id {
                Err(AdmissionError::SelfConnection)
            } else if !session.db.manages(h.info_hash@) {
                Err(AdmissionError::NoMatchingTorrent)
            } else if session.db.torrents[id_of(session.db, h.info_hash@)].state
                != TorrentState::Live {
                Err(AdmissionError::NotLive(id_of(session.db, h.info_hash@)))
            } else {
                Ok(id_of(session.db, h.info_hash@))
            },
        }
    }
}

} // verus!
