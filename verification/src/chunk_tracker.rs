//! Which pieces of a torrent are still wanted, which chunks have arrived, and
//! which pieces are complete and verified.
//!
//! The tracker is a plain state machine over three bit-vectors. It does no I/O
//! and no locking: whoever owns it serializes the calls.

use crate::bitfield::{all_set, filled, lemma_zero_bytes_have_clear_bits, range_in_bounds, BF};
use crate::lengths::{Lengths, LengthsView, Piece, ValidPieceIndex};
use vstd::prelude::*;

verus! {

/// The state of a tracker, as three bit strings and a geometry.
pub struct TrackerView {
    /// One bit per piece: the piece must still be requested from some peer.
    pub needed: Seq<bool>,
    /// One bit per chunk: the chunk's bytes are accounted for.
    pub chunks: Seq<bool>,
    /// One bit per piece: the piece is downloaded and its hash is confirmed.
    pub have: Seq<bool>,
    pub lengths: LengthsView,
}

/// The chunk bits a tracker starts with: a chunk is accounted for exactly when
/// it belongs to a piece that is not needed. The bits that pad the last byte
/// are clear.
pub open spec fn initial_chunk_status(lengths: LengthsView, needed: Seq<bool>) -> Seq<bool> {
    Seq::new(
        (lengths.chunk_bitfield_bytes() * 8) as nat,
        |c: int| c < lengths.total_chunks() && !needed[lengths.piece_of_chunk(c)],
    )
}

impl TrackerView {
    /// Every piece has its two bits, and the chunk bits fill whole bytes.
    pub open spec fn wf(self) -> bool {
        &&& self.lengths.valid()
        &&& self.needed.len() >= self.lengths.total_pieces()
        &&& self.have.len() >= self.lengths.total_pieces()
        &&& self.chunks.len() == self.lengths.chunk_bitfield_bytes() * 8
    }

    /// `true` when every chunk of the piece is accounted for.
    pub open spec fn piece_complete(self, piece: int) -> bool {
        all_set(self.chunks, self.lengths.chunk_start(piece), self.lengths.chunk_end(piece))
    }

    /// `true` when no chunk of the piece is accounted for.
    pub open spec fn piece_empty(self, piece: int) -> bool {
        forall|c: int|
            self.lengths.chunk_start(piece) <= c < self.lengths.chunk_end(piece) ==> !(
            #[trigger] self.chunks[c])
    }

    /// The state after a piece is handed out for requesting.
    pub open spec fn reserve(self, piece: int) -> TrackerView {
        TrackerView { needed: self.needed.update(piece, false), ..self }
    }

    /// `true` when the chunk range of `piece` lies inside the chunk bits.
    pub open spec fn has_chunk_range(self, piece: int) -> bool {
        range_in_bounds(
            self.lengths.chunk_start(piece),
            self.lengths.chunk_end(piece),
            self.chunks.len() as int,
        )
    }

    /// The state after a piece is marked as needed again: its bit is set, and
    /// its chunks, if the range exists, are all forgotten.
    pub open spec fn mark_piece_needed(self, piece: int) -> TrackerView {
        TrackerView {
            needed: self.needed.update(piece, true),
            chunks: if self.has_chunk_range(piece) {
                filled(
                    self.chunks,
                    self.lengths.chunk_start(piece),
                    self.lengths.chunk_end(piece),
                    false,
                )
            } else {
                self.chunks
            },
            ..self
        }
    }

    /// The state after a piece is confirmed.
    pub open spec fn mark_piece_downloaded(self, piece: int) -> TrackerView {
        TrackerView { have: self.have.update(piece, true), ..self }
    }

    /// The state after the chunk with index `chunk`, counted over the whole
    /// torrent, is accounted for.
    pub open spec fn mark_chunk(self, chunk: int) -> TrackerView {
        TrackerView { chunks: self.chunks.update(chunk, true), ..self }
    }

    /// The state after a block with the given addressing arrived: unchanged
    /// when the addressing does not fit the geometry.
    pub open spec fn mark_chunk_downloaded(self, index: int, begin: int, size: int) -> TrackerView {
        match self.lengths.locate(index, begin, size) {
            Some(place) => self.mark_chunk(place.absolute_index),
            None => self,
        }
    }

    /// What the arrival of a block reports: nothing when the addressing does
    /// not fit the geometry, else whether the block's piece now has all its
    /// chunks.
    pub open spec fn chunk_downloaded_report(self, index: int, begin: int, size: int) -> Option<
        bool,
    > {
        match self.lengths.locate(index, begin, size) {
            Some(place) => Some(self.mark_chunk(place.absolute_index).piece_complete(index)),
            None => None,
        }
    }

    /// The state after the first `count` chunks of a piece arrived, one block
    /// per chunk, in order.
    pub open spec fn receive_chunks(self, piece: int, count: nat) -> TrackerView
        decreases count,
    {
        if count == 0 {
            self
        } else {
            let chunk = count - 1;
            self.receive_chunks(piece, chunk as nat).mark_chunk_downloaded(
                piece,
                chunk * self.lengths.chunk_length,
                self.lengths.chunk_size(piece, chunk),
            )
        }
    }

    /// What the arrival of chunk `chunk` of a piece reports when the chunks
    /// before it arrived first, in order.
    pub open spec fn report_in_sequence(self, piece: int, chunk: nat) -> Option<bool> {
        self.receive_chunks(piece, chunk).chunk_downloaded_report(
            piece,
            chunk * self.lengths.chunk_length,
            self.lengths.chunk_size(piece, chunk as int),
        )
    }

    /// `true` when the operation can be applied: the bit it writes exists.
    pub open spec fn admits(self, op: TrackerOp) -> bool {
        match op {
            TrackerOp::Reserve(piece) => 0 <= piece < self.needed.len(),
            TrackerOp::MarkPieceNeeded(piece) => 0 <= piece < self.needed.len(),
            TrackerOp::MarkPieceDownloaded(piece) => 0 <= piece < self.have.len(),
            TrackerOp::ChunkDownloaded { .. } => true,
        }
    }

    /// The state after one operation.
    pub open spec fn step(self, op: TrackerOp) -> TrackerView {
        match op {
            TrackerOp::Reserve(piece) => self.reserve(piece),
            TrackerOp::MarkPieceNeeded(piece) => self.mark_piece_needed(piece),
            TrackerOp::MarkPieceDownloaded(piece) => self.mark_piece_downloaded(piece),
            TrackerOp::ChunkDownloaded { index, begin, size } => self.mark_chunk_downloaded(
                index,
                begin,
                size,
            ),
        }
    }

    /// `true` when the operations can be applied one after the other.
    pub open spec fn admits_all(self, ops: Seq<TrackerOp>) -> bool
        decreases ops.len(),
    {
        ops.len() == 0 || (self.admits(ops[0]) && self.step(ops[0]).admits_all(ops.drop_first()))
    }

    /// The state after a run of operations.
    pub open spec fn run(self, ops: Seq<TrackerOp>) -> TrackerView
        decreases ops.len(),
    {
        if ops.len() == 0 {
            self
        } else {
            self.step(ops[0]).run(ops.drop_first())
        }
    }
}

/// One call of a tracker's mutating methods, with its argument as a number.
pub enum TrackerOp {
    Reserve(int),
    MarkPieceNeeded(int),
    MarkPieceDownloaded(int),
    ChunkDownloaded { index: int, begin: int, size: int },
}

pub struct ChunkTracker {
    // One bit per piece, set while the piece waits to be requested. The bit is
    // cleared the moment the piece is handed out.
    needed_pieces: BF,
    // One bit per chunk, set once the chunk's bytes are accounted for. A set
    // bit does not mean that the piece is valid yet.
    chunk_status: BF,
    // The pieces that are downloaded and checked.
    have: BF,
    lengths: Lengths,
}

impl View for ChunkTracker {
    type V = TrackerView;

    closed spec fn view(&self) -> TrackerView {
        TrackerView {
            needed: self.needed_pieces@,
            chunks: self.chunk_status@,
            have: self.have@,
            lengths: self.lengths@,
        }
    }
}

impl ChunkTracker {
    /// The state is well formed, and so is the geometry it was built with.
    pub closed spec fn wf(&self) -> bool {
        &&& self.lengths.wf()
        &&& self@.wf()
    }

    /// A well-formed tracker has a well-formed state.
    pub proof fn lemma_wf(&self)
        requires
            self.wf(),
        ensures
            self@.wf(),
            self@.lengths.plausible(),
    {
    }

    /// Builds a tracker from the pieces that are needed and the pieces that
    /// are already confirmed. Both bit-vectors must hold a bit for every piece
    /// of the geometry.
    pub fn new(needed_pieces: BF, have_pieces: BF, lengths: Lengths) -> (tracker: Self)
        requires
            lengths.wf(),
            needed_pieces@.len() >= lengths@.total_pieces(),
            have_pieces@.len() >= lengths@.total_pieces(),
        ensures
            tracker.wf(),
            tracker@ == (TrackerView {
                needed: needed_pieces@,
                chunks: initial_chunk_status(lengths@, needed_pieces@),
                have: have_pieces@,
                lengths: lengths@,
            }),
            forall|piece: int, c: int|
                lengths@.is_piece(piece) && lengths@.chunk_start(piece) <= c < lengths@.chunk_end(
                    piece,
                ) ==> #[trigger] tracker@.chunks[c] == !#[trigger] needed_pieces@[piece],
    {
        proof {
            lengths.lemma_wf_valid();
            lengths@.lemma_shape();
            crate::lengths::lemma_ceil_div(lengths@.total_chunks(), 8);
            lemma_initial_chunk_status(lengths@, needed_pieces@);
        }
        Self {
            chunk_status: compute_chunk_status(&lengths, &needed_pieces),
            needed_pieces,
            lengths,
            have: have_pieces,
        }
    }

    /// The pieces that still wait to be requested.
    pub fn get_needed_pieces(&self) -> (needed: &BF)
        ensures
            needed@ == self@.needed,
    {
        &self.needed_pieces
    }

    /// The pieces that are downloaded and confirmed.
    pub fn get_have_pieces(&self) -> (have: &BF)
        ensures
            have@ == self@.have,
    {
        &self.have
    }

    /// Takes a piece out of the needed set, so that no second requester picks
    /// it up. The chunk bits stay as they are.
    pub fn reserve_needed_piece(&mut self, index: ValidPieceIndex)
        requires
            old(self).wf(),
            index@ < old(self)@.needed.len(),
        ensures
            final(self).wf(),
            final(self)@ == old(self)@.reserve(index@),
    {
        proof {
            index.lemma_range();
        }
        self.needed_pieces.raw_set(index.get() as usize, false)
    }

    /// Puts a piece back into the needed set and forgets all its chunks.
    /// Reports whether the piece's chunk range was found, which it is for
    /// every piece of the tracker's geometry.
    pub fn mark_piece_needed(&mut self, index: ValidPieceIndex) -> (found: bool)
        requires
            old(self).wf(),
            index@ < old(self)@.needed.len(),
        ensures
            final(self).wf(),
            final(self)@ == old(self)@.mark_piece_needed(index@),
            found == old(self)@.has_chunk_range(index@),
            old(self)@.lengths.is_piece(index@) ==> found,
    {
        proof {
            index.lemma_range();
            self.lengths.lemma_wf_valid();
            self@.lengths.lemma_shape();
            if self@.lengths.is_piece(index@) {
                self@.lengths.lemma_piece_chunks(index@);
            }
        }
        self.needed_pieces.raw_set(index.get() as usize, true);
        let default_chunks: u32 = self.lengths.default_chunks_per_piece();
        let count: u32 = self.lengths.chunks_per_piece(index);
        proof {
            assert(index@ * default_chunks <= 0xffff_ffff * 0xffff_ffff) by (nonlinear_arith)
                requires
                    0 <= index@ <= 0xffff_ffff,
                    0 <= default_chunks <= 0xffff_ffff,
            ;
        }
        let start: u64 = (index.get() as u64) * (default_chunks as u64);
        let end: u64 = start + count as u64;
        let len: usize = self.chunk_status.len();
        if end > len as u64 {
            false
        } else {
            self.chunk_status.raw_fill_range(start as usize, end as usize, false)
        }
    }

    /// Records that a piece is downloaded and that its hash matches.
    pub fn mark_piece_downloaded(&mut self, idx: ValidPieceIndex)
        requires
            old(self).wf(),
            idx@ < old(self)@.have.len(),
        ensures
            final(self).wf(),
            final(self)@ == old(self)@.mark_piece_downloaded(idx@),
    {
        proof {
            idx.lemma_range();
        }
        self.have.raw_set(idx.get() as usize, true)
    }

    /// Records a received block. Returns `None`, and changes nothing, when the
    /// block's addressing does not fit the geometry; else marks the chunk and
    /// returns whether every chunk of its piece is now marked.
    pub fn mark_chunk_downloaded(&mut self, piece: &Piece) -> (complete: Option<bool>)
        requires
            old(self).wf(),
        ensures
            final(self).wf(),
            final(self)@ == old(self)@.mark_chunk_downloaded(
                piece.index as int,
                piece.begin as int,
                piece.block@.len() as int,
            ),
            complete == old(self)@.chunk_downloaded_report(
                piece.index as int,
                piece.begin as int,
                piece.block@.len() as int,
            ),
    {
        proof {
            self.lengths.lemma_wf_valid();
        }
        let chunk_info = match self.lengths.chunk_info_from_received_piece(piece) {
            Some(chunk_info) => chunk_info,
            None => {
                return None;
            },
        };
        proof {
            self@.lengths.lemma_piece_chunks(piece.index as int);
            self@.lengths.lemma_shape();
            crate::lengths::lemma_ceil_div(self@.lengths.total_chunks(), 8);
        }
        self.chunk_status.raw_set(chunk_info.absolute_index as usize, true);
        let chunk_range = self.lengths.chunk_range(chunk_info.piece_index);
        self.chunk_status.raw_all_in_range(chunk_range.start, chunk_range.end)
    }
}

/// At the start, every chunk of a piece that is not needed is accounted for,
/// and no chunk of a needed piece is.
pub proof fn lemma_initial_chunk_status(geometry: LengthsView, needed: Seq<bool>)
    requires
        geometry.valid(),
    ensures
        forall|piece: int, c: int|
            geometry.is_piece(piece) && geometry.chunk_start(piece) <= c < geometry.chunk_end(piece)
                ==> #[trigger] initial_chunk_status(geometry, needed)[c] == !#[trigger] needed[piece],
{
    let chunks = initial_chunk_status(geometry, needed);
    geometry.lemma_shape();
    crate::lengths::lemma_ceil_div(geometry.total_chunks(), 8);
    assert forall|piece: int, c: int|
        geometry.is_piece(piece) && geometry.chunk_start(piece) <= c < geometry.chunk_end(
            piece,
        ) implies #[trigger] chunks[c] == !#[trigger] needed[piece] by {
        geometry.lemma_piece_chunks(piece);
        geometry.lemma_chunk_owner(piece, c);
    }
}

/// The block that carries chunk `chunk` of a piece is located at that chunk.
pub proof fn lemma_locate_chunk(geometry: LengthsView, piece: int, chunk: int)
    requires
        geometry.valid(),
        geometry.is_piece(piece),
        0 <= chunk < geometry.chunks_in_piece(piece),
    ensures
        geometry.locate(piece, chunk * geometry.chunk_length, geometry.chunk_size(piece, chunk))
            matches Some(place) && place.absolute_index == geometry.chunk_start(piece) + chunk
            && place.piece_index == piece && place.chunk_index == chunk,
        geometry.chunk_start(piece) <= geometry.chunk_start(piece) + chunk < geometry.chunk_end(
            piece,
        ) <= geometry.total_chunks(),
{
    geometry.lemma_chunk_in_piece(piece, chunk);
    geometry.lemma_piece_chunks(piece);
}

/// Every operation keeps the state well formed.
pub proof fn lemma_step_keeps_wf(t: TrackerView, op: TrackerOp)
    requires
        t.wf(),
        t.admits(op),
    ensures
        t.step(op).wf(),
        t.step(op).lengths == t.lengths,
        t.step(op).needed.len() == t.needed.len(),
        t.step(op).have.len() == t.have.len(),
{
    match op {
        TrackerOp::ChunkDownloaded { index, begin, size } => {
            if t.lengths.locate(index, begin, size).is_some() {
                t.lengths.lemma_locate(index, begin, size);
            }
        },
        _ => {},
    }
}

/// A run of operations keeps the state well formed.
pub proof fn lemma_run_keeps_wf(t: TrackerView, ops: Seq<TrackerOp>)
    requires
        t.wf(),
        t.admits_all(ops),
    ensures
        t.run(ops).wf(),
        t.run(ops).lengths == t.lengths,
    decreases ops.len(),
{
    if ops.len() > 0 {
        lemma_step_keeps_wf(t, ops[0]);
        lemma_run_keeps_wf(t.step(ops[0]), ops.drop_first());
    }
}

/// The arrival of a block reports that its piece is complete exactly when no
/// other chunk of the piece is missing. A block for a chunk that is already
/// marked changes nothing, and reports completion only if the piece was
/// complete before.
pub proof fn lemma_report_on_last_missing(t: TrackerView, index: int, begin: int, size: int)
    requires
        t.wf(),
        t.lengths.locate(index, begin, size).is_some(),
    ensures
        ({
            let place = t.lengths.locate(index, begin, size).unwrap();
            &&& t.lengths.chunk_start(index) <= place.absolute_index < t.lengths.chunk_end(index)
            &&& t.chunk_downloaded_report(index, begin, size) == Some(
                forall|c: int|
                    t.lengths.chunk_start(index) <= c < t.lengths.chunk_end(index) && c
                        != place.absolute_index ==> #[trigger] t.chunks[c],
            )
            &&& t.chunks[place.absolute_index] ==> t.mark_chunk_downloaded(index, begin, size) == t
                && t.chunk_downloaded_report(index, begin, size) == Some(t.piece_complete(index))
        }),
{
    let place = t.lengths.locate(index, begin, size).unwrap();
    let chunk = place.absolute_index;
    let start = t.lengths.chunk_start(index);
    let end = t.lengths.chunk_end(index);
    t.lengths.lemma_locate(index, begin, size);
    let after = t.mark_chunk(chunk);
    let others = forall|c: int| start <= c < end && c != chunk ==> #[trigger] t.chunks[c];
    if others {
        assert forall|c: int| start <= c < end implies #[trigger] after.chunks[c] by {
            if c != chunk {
                assert(t.chunks[c]);
            }
        }
    }
    if after.piece_complete(index) {
        assert forall|c: int| start <= c < end && c != chunk implies #[trigger] t.chunks[c] by {
            assert(after.chunks[c]);
        }
    }
    if t.chunks[chunk] {
        assert(after.chunks =~= t.chunks);
    }
}

/// The state after the first `count` chunks of a piece arrived in order: the
/// chunk bits of those chunks are set, and nothing else has changed.
pub proof fn lemma_receive_chunks(t: TrackerView, piece: int, count: nat)
    requires
        t.wf(),
        t.lengths.is_piece(piece),
        count <= t.lengths.chunks_in_piece(piece),
    ensures
        t.receive_chunks(piece, count) == (TrackerView {
            chunks: filled(
                t.chunks,
                t.lengths.chunk_start(piece),
                t.lengths.chunk_start(piece) + count,
                true,
            ),
            ..t
        }),
    decreases count,
{
    let start = t.lengths.chunk_start(piece);
    t.lengths.lemma_piece_chunks(piece);
    t.lengths.lemma_shape();
    crate::lengths::lemma_ceil_div(t.lengths.total_chunks(), 8);
    if count == 0 {
        assert(filled(t.chunks, start, start, true) =~= t.chunks);
    } else {
        let chunk = (count - 1) as nat;
        lemma_receive_chunks(t, piece, chunk);
        lemma_locate_chunk(t.lengths, piece, chunk as int);
        let before = t.receive_chunks(piece, chunk);
        assert(before.chunks.update(start + chunk, true) =~= filled(
            t.chunks,
            start,
            start + count,
            true,
        ));
    }
}

/// When the chunks of a piece that has none arrive one by one, in order, the
/// arrival of each is reported, and the piece is reported complete exactly
/// once: on the last chunk.
pub proof fn lemma_complete_exactly_once(t: TrackerView, piece: int, chunk: nat)
    requires
        t.wf(),
        t.lengths.is_piece(piece),
        t.piece_empty(piece),
        chunk < t.lengths.chunks_in_piece(piece),
    ensures
        t.report_in_sequence(piece, chunk) == Some(chunk == t.lengths.chunks_in_piece(piece) - 1),
        t.receive_chunks(piece, (chunk + 1) as nat).piece_complete(piece) == (chunk
            == t.lengths.chunks_in_piece(piece) - 1),
{
    let start = t.lengths.chunk_start(piece);
    let end = t.lengths.chunk_end(piece);
    t.lengths.lemma_piece_chunks(piece);
    t.lengths.lemma_shape();
    crate::lengths::lemma_ceil_div(t.lengths.total_chunks(), 8);
    lemma_receive_chunks(t, piece, chunk);
    lemma_receive_chunks(t, piece, (chunk + 1) as nat);
    lemma_locate_chunk(t.lengths, piece, chunk as int);
    let before = t.receive_chunks(piece, chunk);
    let after = t.receive_chunks(piece, (chunk + 1) as nat);
    assert(before.mark_chunk(start + chunk).chunks =~= after.chunks);
    if chunk == t.lengths.chunks_in_piece(piece) - 1 {
        assert forall|c: int| start <= c < end implies #[trigger] after.chunks[c] by {}
    } else {
        assert(!after.chunks[end - 1]) by {
            assert(!t.chunks[end - 1]);
        }
    }
}

/// A block for a chunk that is already marked, in a piece that is not yet
/// complete, changes nothing and does not report completion.
pub proof fn lemma_repeated_chunk_is_no_op(t: TrackerView, index: int, begin: int, size: int)
    requires
        t.wf(),
        t.lengths.locate(index, begin, size) matches Some(place) && t.chunks[place.absolute_index],
        !t.piece_complete(index),
    ensures
        t.mark_chunk_downloaded(index, begin, size) == t,
        t.chunk_downloaded_report(index, begin, size) == Some(false),
{
    lemma_report_on_last_missing(t, index, begin, size);
}

/// After a piece is marked as needed again it is in the needed set and has no
/// chunk left, so that the arrival of its chunks reports completion once more,
/// on the last of them.
pub proof fn lemma_recovery_cycle(t: TrackerView, piece: int, chunk: nat)
    requires
        t.wf(),
        t.lengths.is_piece(piece),
        chunk < t.lengths.chunks_in_piece(piece),
    ensures
        t.has_chunk_range(piece),
        t.mark_piece_needed(piece).wf(),
        t.mark_piece_needed(piece).needed[piece],
        t.mark_piece_needed(piece).piece_empty(piece),
        t.mark_piece_needed(piece).report_in_sequence(piece, chunk) == Some(
            chunk == t.lengths.chunks_in_piece(piece) - 1,
        ),
{
    t.lengths.lemma_piece_chunks(piece);
    t.lengths.lemma_shape();
    crate::lengths::lemma_ceil_div(t.lengths.total_chunks(), 8);
    lemma_complete_exactly_once(t.mark_piece_needed(piece), piece, chunk);
}

/// Reserving a piece twice is the same as reserving it once.
pub proof fn lemma_reserve_twice(t: TrackerView, piece: int)
    requires
        0 <= piece < t.needed.len(),
    ensures
        t.reserve(piece).reserve(piece) == t.reserve(piece),
        !t.reserve(piece).needed[piece],
{
    assert(t.needed.update(piece, false).update(piece, false) =~= t.needed.update(piece, false));
}

/// A piece that is not in the needed set stays out of it through every run of
/// operations that does not mark that piece as needed.
pub proof fn lemma_stays_reserved(t: TrackerView, piece: int, ops: Seq<TrackerOp>)
    requires
        0 <= piece < t.needed.len(),
        !t.needed[piece],
        t.admits_all(ops),
        forall|i: int| 0 <= i < ops.len() ==> ops[i] != TrackerOp::MarkPieceNeeded(piece),
    ensures
        t.run(ops).needed.len() == t.needed.len(),
        !t.run(ops).needed[piece],
    decreases ops.len(),
{
    if ops.len() > 0 {
        let rest = ops.drop_first();
        assert(ops[0] != TrackerOp::MarkPieceNeeded(piece));
        assert forall|i: int| 0 <= i < rest.len() implies rest[i] != TrackerOp::MarkPieceNeeded(
            piece,
        ) by {
            assert(rest[i] == ops[i + 1]);
        }
        lemma_stays_reserved(t.step(ops[0]), piece, rest);
    }
}

/// Computes the chunk bits a tracker starts with from the pieces that are
/// needed: every chunk of a piece that is not needed counts as accounted for.
pub fn compute_chunk_status(lengths: &Lengths, needed_pieces: &BF) -> (chunk_bf: BF)
    requires
        lengths.wf(),
        needed_pieces@.len() >= lengths@.total_pieces(),
    ensures
        chunk_bf@ == initial_chunk_status(lengths@, needed_pieces@),
{
    proof {
        lengths.lemma_wf_valid();
        lengths@.lemma_shape();
        crate::lengths::lemma_ceil_div(lengths@.total_chunks(), 8);
    }
    let ghost geometry = lengths@;
    let ghost needed = needed_pieces@;
    let required_size: usize = lengths.chunk_bitfield_bytes();
    let bytes: Vec<u8> = vec![0u8; required_size];
    proof {
        lemma_zero_bytes_have_clear_bits(bytes@);
    }
    let mut chunk_bf = BF::from_vec(bytes);
    let total_pieces: u32 = lengths.total_pieces();
    let default_chunks: u32 = lengths.default_chunks_per_piece();
    let zeros: Vec<usize> = match needed_pieces.raw_zeros_below(total_pieces as usize) {
        Some(zeros) => zeros,
        None => {
            return chunk_bf;
        },
    };
    let mut i: usize = 0;
    while i < zeros.len()
        invariant
            lengths.wf(),
            geometry == lengths@,
            geometry.plausible(),
            geometry.valid(),
            needed == needed_pieces@,
            total_pieces == geometry.total_pieces(),
            default_chunks == geometry.default_chunks_per_piece(),
            crate::bitfield::lists_zeros(zeros@, needed, total_pieces as int),
            0 <= i <= zeros.len(),
            chunk_bf@.len() == geometry.chunk_bitfield_bytes() * 8,
            geometry.total_chunks() <= chunk_bf@.len(),
            forall|c: int|
                0 <= c < chunk_bf@.len() ==> #[trigger] chunk_bf@[c] == (c < geometry.total_chunks()
                    && geometry.piece_of_chunk(c) < pieces_done(zeros@, i as int, total_pieces as int)
                    && !needed[geometry.piece_of_chunk(c)]),
        decreases zeros.len() - i,
    {
        let piece_index: usize = zeros[i];
        let ghost before = chunk_bf@;
        let index: ValidPieceIndex = match lengths.validate_piece_index(piece_index as u32) {
            Some(index) => index,
            None => {
                return chunk_bf;
            },
        };
        proof {
            geometry.lemma_piece_chunks(piece_index as int);
        }
        let range = lengths.chunk_range(index);
        let found: bool = chunk_bf.raw_fill_range(range.start, range.end, true);
        proof {
            let done = pieces_done(zeros@, i as int, total_pieces as int);
            let next = pieces_done(zeros@, i + 1, total_pieces as int);
            assert(done == piece_index);
            assert(next > piece_index);
            assert(found);
            assert forall|c: int| 0 <= c < chunk_bf@.len() implies #[trigger] chunk_bf@[c] == (c
                < geometry.total_chunks() && geometry.piece_of_chunk(c) < next
                && !needed[geometry.piece_of_chunk(c)]) by {
                let owner = geometry.piece_of_chunk(c);
                geometry.lemma_chunk_owner(piece_index as int, c);
                if c < geometry.total_chunks() && piece_index < owner < next {
                    lemma_no_zero_between(zeros@, needed, total_pieces as int, i as int, owner);
                }
            }
        }
        i = i + 1;
    }
    proof {
        assert(pieces_done(zeros@, i as int, total_pieces as int) == total_pieces);
        assert forall|c: int| 0 <= c < geometry.total_chunks() implies geometry.piece_of_chunk(c)
            < total_pieces by {
            lemma_owner_is_piece(geometry, c);
        }
        assert(chunk_bf@ =~= initial_chunk_status(geometry, needed));
    }
    chunk_bf
}

/// The pieces below this bound are settled once the first `i` clear bits have
/// been handled: the next clear bit, or the piece count when none is left.
pub open spec fn pieces_done(zeros: Seq<usize>, i: int, total_pieces: int) -> int {
    if i < zeros.len() {
        zeros[i] as int
    } else {
        total_pieces
    }
}

/// Between two neighbours of the list of clear bits, every bit is set.
proof fn lemma_no_zero_between(zeros: Seq<usize>, bits: Seq<bool>, n: int, i: int, k: int)
    requires
        crate::bitfield::lists_zeros(zeros, bits, n),
        0 <= i < zeros.len(),
        zeros[i] < k < pieces_done(zeros, i + 1, n),
    ensures
        bits[k],
{
    if !bits[k] {
        let j = choose|j: int| 0 <= j < zeros.len() && #[trigger] zeros[j] == k;
        if j <= i {
            if j < i {
                assert(zeros[j] < zeros[i]);
            }
        } else {
            if j > i + 1 {
                assert(zeros[i + 1] < zeros[j]);
            }
        }
    }
}

/// The owner of a chunk of the torrent is one of its pieces.
pub proof fn lemma_owner_is_piece(geometry: LengthsView, chunk: int)
    requires
        geometry.plausible(),
        0 <= chunk < geometry.total_chunks(),
    ensures
        geometry.is_piece(geometry.piece_of_chunk(chunk)),
        geometry.chunk_start(geometry.piece_of_chunk(chunk)) <= chunk < geometry.chunk_end(
            geometry.piece_of_chunk(chunk),
        ),
{
    geometry.lemma_shape();
    let cpp = geometry.default_chunks_per_piece();
    let last = geometry.last_piece_id();
    let q = chunk / cpp;
    let r = chunk % cpp;
    assert(chunk == cpp * q + r && 0 <= r < cpp) by (nonlinear_arith)
        requires
            q == chunk / cpp,
            r == chunk % cpp,
            0 < cpp,
    ;
    assert(0 <= q) by (nonlinear_arith)
        requires
            chunk == cpp * q + r,
            0 <= r < cpp,
            0 <= chunk,
    ;
    assert(q <= last) by (nonlinear_arith)
        requires
            chunk == cpp * q + r,
            0 <= r < cpp,
            chunk < last * cpp + cpp,
    ;
    geometry.lemma_chunk_owner(q, chunk);
}

} // verus!
