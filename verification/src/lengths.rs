//! The geometry of a torrent: how its bytes split into pieces, and each piece
//! into chunks.

use vstd::prelude::*;

verus! {

/// The chunk length used when none is given.
pub const CHUNK_SIZE: u32 = 16384;

/// `a / b`, rounded up.
pub open spec fn ceil_div(a: int, b: int) -> int
    recommends
        b > 0,
{
    if a % b == 0 {
        a / b
    } else {
        a / b + 1
    }
}

/// The least number of parts of size `b` that cover `a`.
pub proof fn lemma_ceil_div(a: int, b: int)
    requires
        0 <= a,
        0 < b,
    ensures
        0 <= ceil_div(a, b) <= a,
        a > 0 ==> ceil_div(a, b) >= 1,
        (ceil_div(a, b) - 1) * b < a || a == 0,
        a <= ceil_div(a, b) * b,
        a <= b ==> ceil_div(a, b) <= 1,
{
    let q = a / b;
    let r = a % b;
    assert(a == b * q + r && 0 <= r < b) by (nonlinear_arith)
        requires
            q == a / b,
            r == a % b,
            0 < b,
            0 <= a,
    ;
    assert(0 <= q <= a) by (nonlinear_arith)
        requires
            a == b * q + r,
            0 <= r < b,
            0 < b,
            0 <= a,
    ;
    assert((q + 1) * b == q * b + b && (q - 1) * b == q * b - b && q * b == b * q)
        by (nonlinear_arith);
    if r != 0 {
        assert(q + 1 <= a) by (nonlinear_arith)
            requires
                a == b * q + r,
                0 < r < b,
                0 <= q,
        ;
    }
    if r == 0 && a > 0 {
        assert(q >= 1) by (nonlinear_arith)
            requires
                a == b * q + r,
                r == 0,
                a > 0,
                0 < b,
        ;
    }
    if a <= b {
        assert(q <= 1 && (r != 0 ==> q == 0)) by (nonlinear_arith)
            requires
                a == b * q + r,
                0 <= r < b,
                0 <= q,
                a <= b,
        ;
    }
}

/// `ceil_div` grows with its first argument.
pub proof fn lemma_ceil_div_monotonic(a1: int, a2: int, b: int)
    requires
        0 <= a1 <= a2,
        0 < b,
    ensures
        ceil_div(a1, b) <= ceil_div(a2, b),
{
    lemma_ceil_div(a1, b);
    lemma_ceil_div(a2, b);
    let c1 = ceil_div(a1, b);
    let c2 = ceil_div(a2, b);
    if c1 > c2 {
        assert(c2 * b <= (c1 - 1) * b) by (nonlinear_arith)
            requires
                c2 <= c1 - 1,
                0 < b,
        ;
    }
}

/// `a / b`, rounded up.
pub fn ceil_div_u64(a: u64, b: u64) -> (q: u64)
    requires
        b > 0,
    ensures
        q == ceil_div(a as int, b as int),
{
    proof {
        lemma_ceil_div(a as int, b as int);
    }
    if a % b == 0 {
        a / b
    } else {
        a / b + 1
    }
}

/// The largest chunk count a geometry accepts: chunk indices are 32-bit
/// numbers, and a bit-vector with one bit per chunk, padded to whole bytes,
/// must be addressable on this machine.
pub open spec fn max_chunks() -> int {
    if usize::MAX as int / 8 - 7 < u32::MAX as int {
        usize::MAX as int / 8 - 7
    } else {
        u32::MAX as int
    }
}

/// Why a geometry cannot be built.
#[derive(Clone, Copy, Debug, PartialEq, Eq, Structural)]
pub enum LengthsError {
    /// The chunk length is larger than the piece length.
    ChunkLongerThanPiece,
    /// The torrent holds no bytes.
    ZeroLength,
    /// The chunk length is zero.
    ZeroChunkLength,
    /// The torrent has more chunks than `max_chunks()`.
    TooManyChunks,
}

/// The three numbers a geometry is derived from.
pub struct LengthsView {
    pub total_length: int,
    pub piece_length: int,
    pub chunk_length: int,
}

impl LengthsView {
    /// How many pieces the torrent has.
    pub open spec fn total_pieces(self) -> int {
        ceil_div(self.total_length, self.piece_length)
    }

    /// The index of the last piece.
    pub open spec fn last_piece_id(self) -> int {
        self.total_pieces() - 1
    }

    /// How many chunks every piece but the last has.
    pub open spec fn default_chunks_per_piece(self) -> int {
        ceil_div(self.piece_length, self.chunk_length)
    }

    /// The length of the last piece: what the full pieces leave.
    pub open spec fn last_piece_length(self) -> int {
        self.total_length - self.last_piece_id() * self.piece_length
    }

    /// `true` for the indices that name a piece.
    pub open spec fn is_piece(self, index: int) -> bool {
        0 <= index < self.total_pieces()
    }

    /// The length of a piece in bytes.
    pub open spec fn piece_length_of(self, index: int) -> int {
        if index == self.last_piece_id() {
            self.last_piece_length()
        } else {
            self.piece_length
        }
    }

    /// How many chunks a piece has.
    pub open spec fn chunks_in_piece(self, index: int) -> int {
        ceil_div(self.piece_length_of(index), self.chunk_length)
    }

    /// How many chunks the torrent has.
    pub open spec fn total_chunks(self) -> int {
        self.last_piece_id() * self.default_chunks_per_piece() + self.chunks_in_piece(
            self.last_piece_id(),
        )
    }

    /// The index, counted over the whole torrent, of a piece's first chunk.
    pub open spec fn chunk_start(self, index: int) -> int {
        index * self.default_chunks_per_piece()
    }

    /// One past the index of a piece's last chunk.
    pub open spec fn chunk_end(self, index: int) -> int {
        self.chunk_start(index) + self.chunks_in_piece(index)
    }

    /// The piece that a chunk, counted over the whole torrent, belongs to.
    pub open spec fn piece_of_chunk(self, chunk: int) -> int {
        chunk / self.default_chunks_per_piece()
    }

    /// The length in bytes of chunk `chunk` of piece `index`.
    pub open spec fn chunk_size(self, index: int, chunk: int) -> int {
        if (chunk + 1) * self.chunk_length > self.piece_length_of(index) {
            self.piece_length_of(index) - chunk * self.chunk_length
        } else {
            self.chunk_length
        }
    }

    /// The bytes needed for one bit per piece.
    pub open spec fn piece_bitfield_bytes(self) -> int {
        ceil_div(self.total_pieces(), 8)
    }

    /// The bytes needed for one bit per chunk.
    pub open spec fn chunk_bitfield_bytes(self) -> int {
        ceil_div(self.total_chunks(), 8)
    }

    /// The numbers are usable: chunks are not empty and not longer than a
    /// piece, there is something to download, and the chunks can be counted.
    pub open spec fn valid(self) -> bool {
        &&& 1 <= self.chunk_length <= self.piece_length <= u32::MAX
        &&& 1 <= self.total_length <= u64::MAX
        &&& self.total_chunks() <= max_chunks()
    }

    /// The numbers without the bound on the chunk count.
    pub open spec fn plausible(self) -> bool {
        &&& 1 <= self.chunk_length <= self.piece_length
        &&& 1 <= self.total_length
    }

    /// Where a received block lies, if its addressing fits the geometry: the
    /// piece exists, the block starts on a chunk boundary inside the piece and
    /// has exactly that chunk's length.
    pub open spec fn locate(self, index: int, begin: int, size: int) -> Option<ChunkPlace> {
        let chunk = begin / self.chunk_length;
        if self.is_piece(index) && 0 <= chunk < self.chunks_in_piece(index) && chunk
            * self.chunk_length == begin && self.chunk_size(index, chunk) == size {
            Some(
                ChunkPlace {
                    piece_index: index,
                    chunk_index: chunk,
                    absolute_index: self.chunk_start(index) + chunk,
                    size,
                    offset: begin,
                },
            )
        } else {
            None
        }
    }

    /// Basic facts about a plausible geometry.
    pub proof fn lemma_shape(self)
        requires
            self.plausible(),
        ensures
            self.total_pieces() >= 1,
            self.default_chunks_per_piece() >= 1,
            1 <= self.last_piece_length() <= self.piece_length,
            1 <= self.chunks_in_piece(self.last_piece_id()) <= self.default_chunks_per_piece(),
            self.total_pieces() <= self.total_chunks(),
            self.chunk_end(self.last_piece_id()) == self.total_chunks(),
            0 <= self.last_piece_id() * self.piece_length < self.total_length,
            0 <= self.last_piece_id() * self.default_chunks_per_piece(),
    {
        lemma_ceil_div(self.total_length, self.piece_length);
        lemma_ceil_div(self.piece_length, self.chunk_length);
        let n = self.total_pieces();
        let p = self.piece_length;
        let cpp = self.default_chunks_per_piece();
        assert((n - 1) * p + p == n * p) by (nonlinear_arith);
        assert(0 <= (n - 1) * p) by (nonlinear_arith)
            requires
                n >= 1,
                p >= 1,
        ;
        lemma_ceil_div(self.last_piece_length(), self.chunk_length);
        lemma_ceil_div_monotonic(self.last_piece_length(), p, self.chunk_length);
        assert((n - 1) * cpp >= n - 1) by (nonlinear_arith)
            requires
                n >= 1,
                cpp >= 1,
        ;
    }

    /// Every piece has at least one chunk and at most the default number, and
    /// its chunks end where the next piece's begin.
    pub proof fn lemma_piece_chunks(self, index: int)
        requires
            self.plausible(),
            self.is_piece(index),
        ensures
            1 <= self.chunks_in_piece(index) <= self.default_chunks_per_piece(),
            1 <= self.piece_length_of(index) <= self.piece_length,
            0 <= self.chunk_start(index) < self.chunk_end(index) <= self.total_chunks(),
            index < self.last_piece_id() ==> self.chunk_end(index) == self.chunk_start(index + 1),
    {
        self.lemma_shape();
        let cpp = self.default_chunks_per_piece();
        let last = self.last_piece_id();
        assert(index * cpp + cpp == (index + 1) * cpp) by (nonlinear_arith);
        assert(0 <= index * cpp) by (nonlinear_arith)
            requires
                0 <= index,
                0 <= cpp,
        ;
        if index < last {
            assert((index + 1) * cpp <= last * cpp) by (nonlinear_arith)
                requires
                    index + 1 <= last,
                    0 <= cpp,
            ;
        }
    }

    /// A chunk lies in the range of exactly one piece: the one that
    /// `piece_of_chunk` names.
    pub proof fn lemma_chunk_owner(self, index: int, chunk: int)
        requires
            self.plausible(),
            self.is_piece(index),
        ensures
            (self.chunk_start(index) <= chunk < self.chunk_end(index)) <==> (0 <= chunk
                < self.total_chunks() && self.piece_of_chunk(chunk) == index),
    {
        self.lemma_shape();
        self.lemma_piece_chunks(index);
        let cpp = self.default_chunks_per_piece();
        let last = self.last_piece_id();
        let q = chunk / cpp;
        let r = chunk % cpp;
        assert(chunk == cpp * q + r && 0 <= r < cpp) by (nonlinear_arith)
            requires
                q == chunk / cpp,
                r == chunk % cpp,
                0 < cpp,
        ;
        if self.chunk_start(index) <= chunk < self.chunk_end(index) {
            assert(q == index) by (nonlinear_arith)
                requires
                    chunk == cpp * q + r,
                    0 <= r < cpp,
                    index * cpp <= chunk < index * cpp + cpp,
            ;
        }
        if 0 <= chunk < self.total_chunks() && q == index {
            assert(index * cpp == cpp * q) by (nonlinear_arith)
                requires
                    q == index,
            ;
        }
    }

    /// A block that can be located lies at a chunk of its piece, and that
    /// chunk has a bit in a bit-vector of `chunk_bitfield_bytes()` bytes.
    pub proof fn lemma_locate(self, index: int, begin: int, size: int)
        requires
            self.plausible(),
            self.locate(index, begin, size).is_some(),
        ensures
            self.is_piece(index),
            self.locate(index, begin, size).unwrap().piece_index == index,
            0 <= self.chunk_start(index) <= self.locate(index, begin, size).unwrap().absolute_index
                < self.chunk_end(index) <= self.total_chunks() <= self.chunk_bitfield_bytes() * 8,
    {
        self.lemma_piece_chunks(index);
        self.lemma_shape();
        lemma_ceil_div(self.total_chunks(), 8);
    }

    /// A chunk inside a piece starts inside the piece and is not empty.
    pub proof fn lemma_chunk_in_piece(self, index: int, chunk: int)
        requires
            self.plausible(),
            self.is_piece(index),
            0 <= chunk < self.chunks_in_piece(index),
        ensures
            0 <= chunk * self.chunk_length < self.piece_length_of(index),
            1 <= self.chunk_size(index, chunk) <= self.chunk_length,
            (chunk * self.chunk_length) / self.chunk_length == chunk,
    {
        self.lemma_piece_chunks(index);
        let len = self.piece_length_of(index);
        let cl = self.chunk_length;
        lemma_ceil_div(len, cl);
        let n = self.chunks_in_piece(index);
        assert(chunk * cl <= (n - 1) * cl) by (nonlinear_arith)
            requires
                chunk <= n - 1,
                0 < cl,
        ;
        assert(0 <= chunk * cl) by (nonlinear_arith)
            requires
                0 <= chunk,
                0 < cl,
        ;
        assert((chunk + 1) * cl == chunk * cl + cl) by (nonlinear_arith);
        assert((chunk * cl) / cl == chunk) by (nonlinear_arith)
            requires
                0 < cl,
        ;
    }
}

/// Where a chunk lies, in numbers.
pub struct ChunkPlace {
    pub piece_index: int,
    pub chunk_index: int,
    pub absolute_index: int,
    pub size: int,
    pub offset: int,
}

/// A piece index that a geometry has checked.
#[derive(Clone, Copy, Debug, PartialEq, Eq, Structural)]
pub struct ValidPieceIndex(u32);

impl View for ValidPieceIndex {
    type V = int;

    closed spec fn view(&self) -> int {
        self.0 as int
    }
}

impl ValidPieceIndex {
    /// The index as a number.
    pub fn get(&self) -> (index: u32)
        ensures
            index == self@,
    {
        self.0
    }

    /// An index is a 32-bit number.
    pub proof fn lemma_range(self)
        ensures
            0 <= self@ <= u32::MAX,
    {
    }
}

/// Where a received block lies in the torrent.
#[derive(Clone, Copy, Debug, PartialEq, Eq, Structural)]
pub struct ChunkInfo {
    pub piece_index: ValidPieceIndex,
    pub chunk_index: u32,
    pub absolute_index: u32,
    pub size: u32,
    pub offset: u32,
}

impl View for ChunkInfo {
    type V = ChunkPlace;

    open spec fn view(&self) -> ChunkPlace {
        ChunkPlace {
            piece_index: self.piece_index@,
            chunk_index: self.chunk_index as int,
            absolute_index: self.absolute_index as int,
            size: self.size as int,
            offset: self.offset as int,
        }
    }
}

/// A block of piece data as a peer sent it: the piece, the byte offset inside
/// the piece, and the bytes.
#[derive(Debug)]
pub struct Piece {
    pub index: u32,
    pub begin: u32,
    pub block: Vec<u8>,
}

/// The geometry of one torrent. Immutable once built.
#[derive(Clone, Copy, Debug)]
pub struct Lengths {
    total_length: u64,
    piece_length: u32,
    chunk_length: u32,
    last_piece_id: u32,
    last_piece_length: u32,
    chunks_per_piece: u32,
}

impl View for Lengths {
    type V = LengthsView;

    closed spec fn view(&self) -> LengthsView {
        LengthsView {
            total_length: self.total_length as int,
            piece_length: self.piece_length as int,
            chunk_length: self.chunk_length as int,
        }
    }
}

/// What `Lengths::new` returns for the three numbers given.
pub open spec fn new_lengths(total_length: u64, piece_length: u32, chunk_length: u32) -> Result<
    LengthsView,
    LengthsError,
> {
    let v = LengthsView {
        total_length: total_length as int,
        piece_length: piece_length as int,
        chunk_length: chunk_length as int,
    };
    if chunk_length > piece_length {
        Err(LengthsError::ChunkLongerThanPiece)
    } else if total_length == 0 {
        Err(LengthsError::ZeroLength)
    } else if chunk_length == 0 {
        Err(LengthsError::ZeroChunkLength)
    } else if v.total_chunks() > max_chunks() {
        Err(LengthsError::TooManyChunks)
    } else {
        Ok(v)
    }
}

impl Lengths {
    /// The stored numbers agree with the three they are derived from.
    pub closed spec fn wf(&self) -> bool {
        &&& self@.valid()
        &&& self.last_piece_id == self@.last_piece_id()
        &&& self.last_piece_length == self@.last_piece_length()
        &&& self.chunks_per_piece == self@.default_chunks_per_piece()
    }

    /// A well-formed geometry has valid numbers.
    pub proof fn lemma_wf_valid(&self)
        requires
            self.wf(),
        ensures
            self@.valid(),
            self@.plausible(),
    {
    }

    /// Builds the geometry of a torrent of `total_length` bytes cut into pieces
    /// of `piece_length` bytes, each cut into chunks of `chunk_length` bytes
    /// (of `CHUNK_SIZE` bytes when none is given).
    pub fn new(total_length: u64, piece_length: u32, chunk_length: Option<u32>) -> (r: Result<
        Lengths,
        LengthsError,
    >)
        ensures
            match r {
                Ok(l) => l.wf() && new_lengths(
                    total_length,
                    piece_length,
                    chunk_length.unwrap_or(CHUNK_SIZE),
                ) == Ok::<LengthsView, LengthsError>(l@),
                Err(e) => new_lengths(total_length, piece_length, chunk_length.unwrap_or(CHUNK_SIZE))
                    == Err::<LengthsView, LengthsError>(e),
            },
    {
        let chunk_length: u32 = match chunk_length {
            Some(c) => c,
            None => CHUNK_SIZE,
        };
        if chunk_length > piece_length {
            return Err(LengthsError::ChunkLongerThanPiece);
        }
        if total_length == 0 {
            return Err(LengthsError::ZeroLength);
        }
        if chunk_length == 0 {
            return Err(LengthsError::ZeroChunkLength);
        }
        let ghost v = LengthsView {
            total_length: total_length as int,
            piece_length: piece_length as int,
            chunk_length: chunk_length as int,
        };
        proof {
            v.lemma_shape();
        }
        let total_pieces: u64 = ceil_div_u64(total_length, piece_length as u64);
        if total_pieces > u32::MAX as u64 {
            return Err(LengthsError::TooManyChunks);
        }
        let chunks_per_piece: u64 = ceil_div_u64(piece_length as u64, chunk_length as u64);
        let last_piece_id: u64 = total_pieces - 1;
        let last_piece_length: u64 = total_length - last_piece_id * (piece_length as u64);
        let last_chunks: u64 = ceil_div_u64(last_piece_length, chunk_length as u64);
        proof {
            lemma_ceil_div(piece_length as int, chunk_length as int);
            assert(last_piece_id * chunks_per_piece <= 0xffff_ffff * 0xffff_ffff)
                by (nonlinear_arith)
                requires
                    0 <= last_piece_id <= 0xffff_ffff,
                    0 <= chunks_per_piece <= 0xffff_ffff,
            ;
        }
        let total_chunks: u64 = last_piece_id * chunks_per_piece + last_chunks;
        if total_chunks > u32::MAX as u64 || total_chunks > (usize::MAX / 8 - 7) as u64 {
            return Err(LengthsError::TooManyChunks);
        }
        Ok(
            Lengths {
                total_length,
                piece_length,
                chunk_length,
                last_piece_id: last_piece_id as u32,
                last_piece_length: last_piece_length as u32,
                chunks_per_piece: chunks_per_piece as u32,
            },
        )
    }

    /// The total length of the torrent in bytes.
    pub fn total_length(&self) -> (n: u64)
        ensures
            n == self@.total_length,
    {
        self.total_length
    }

    /// The length of every piece but the last.
    pub fn default_piece_length(&self) -> (n: u32)
        ensures
            n == self@.piece_length,
    {
        self.piece_length
    }

    /// The length of every chunk but the last of a piece.
    pub fn default_chunk_length(&self) -> (n: u32)
        ensures
            n == self@.chunk_length,
    {
        self.chunk_length
    }

    /// How many chunks every piece but the last has.
    pub fn default_chunks_per_piece(&self) -> (n: u32)
        requires
            self.wf(),
        ensures
            n == self@.default_chunks_per_piece(),
    {
        self.chunks_per_piece
    }

    /// How many pieces the torrent has.
    pub fn total_pieces(&self) -> (n: u32)
        requires
            self.wf(),
        ensures
            n == self@.total_pieces(),
    {
        proof {
            self@.lemma_shape();
        }
        self.last_piece_id + 1
    }

    /// How many chunks the torrent has.
    pub fn total_chunks(&self) -> (n: u32)
        requires
            self.wf(),
        ensures
            n == self@.total_chunks(),
    {
        proof {
            self@.lemma_shape();
            lemma_ceil_div(self.last_piece_length as int, self.chunk_length as int);
            assert(self.last_piece_id * self.chunks_per_piece >= 0) by (nonlinear_arith);
        }
        let last_chunks: u64 = ceil_div_u64(self.last_piece_length as u64, self.chunk_length as u64);
        let full: u64 = (self.last_piece_id as u64) * (self.chunks_per_piece as u64);
        (full + last_chunks) as u32
    }

    /// The bytes needed for one bit per piece.
    pub fn piece_bitfield_bytes(&self) -> (n: usize)
        requires
            self.wf(),
        ensures
            n == self@.piece_bitfield_bytes(),
    {
        let pieces: u32 = self.total_pieces();
        proof {
            lemma_ceil_div(pieces as int, 8);
        }
        ceil_div_u64(pieces as u64, 8) as usize
    }

    /// The bytes needed for one bit per chunk.
    pub fn chunk_bitfield_bytes(&self) -> (n: usize)
        requires
            self.wf(),
        ensures
            n == self@.chunk_bitfield_bytes(),
    {
        let chunks: u32 = self.total_chunks();
        proof {
            lemma_ceil_div(chunks as int, 8);
        }
        ceil_div_u64(chunks as u64, 8) as usize
    }

    /// Checks a piece index against the geometry.
    pub fn validate_piece_index(&self, index: u32) -> (r: Option<ValidPieceIndex>)
        requires
            self.wf(),
        ensures
            r.is_some() == self@.is_piece(index as int),
            r.is_some() ==> r.unwrap()@ == index,
    {
        if index > self.last_piece_id {
            None
        } else {
            Some(ValidPieceIndex(index))
        }
    }

    /// The length of a piece in bytes.
    pub fn piece_length(&self, index: ValidPieceIndex) -> (n: u32)
        requires
            self.wf(),
        ensures
            n == self@.piece_length_of(index@),
    {
        if index.0 == self.last_piece_id {
            self.last_piece_length
        } else {
            self.piece_length
        }
    }

    /// How many chunks a piece has.
    pub fn chunks_per_piece(&self, index: ValidPieceIndex) -> (n: u32)
        requires
            self.wf(),
        ensures
            n == self@.chunks_in_piece(index@),
    {
        if index.0 == self.last_piece_id {
            proof {
                self@.lemma_shape();
                lemma_ceil_div(self.last_piece_length as int, self.chunk_length as int);
            }
            ceil_div_u64(self.last_piece_length as u64, self.chunk_length as u64) as u32
        } else {
            self.chunks_per_piece
        }
    }

    /// The chunks of a piece, as indices counted over the whole torrent.
    pub fn chunk_range(&self, index: ValidPieceIndex) -> (r: core::ops::Range<usize>)
        requires
            self.wf(),
            self@.is_piece(index@),
        ensures
            r.start == self@.chunk_start(index@),
            r.end == self@.chunk_end(index@),
    {
        proof {
            self@.lemma_piece_chunks(index@);
        }
        let count: u32 = self.chunks_per_piece(index);
        let start: u64 = (index.0 as u64) * (self.chunks_per_piece as u64);
        let end: u64 = start + count as u64;
        (start as usize)..(end as usize)
    }

    /// The length in bytes of chunk `chunk_index` of a piece, or `None` when
    /// the piece has no such chunk.
    pub fn chunk_size(&self, piece_index: ValidPieceIndex, chunk_index: u32) -> (r: Option<u32>)
        requires
            self.wf(),
            self@.is_piece(piece_index@),
        ensures
            r.is_some() == (chunk_index < self@.chunks_in_piece(piece_index@)),
            r.is_some() ==> r.unwrap() == self@.chunk_size(piece_index@, chunk_index as int),
    {
        let chunks: u32 = self.chunks_per_piece(piece_index);
        let piece_length: u32 = self.piece_length(piece_index);
        if chunk_index >= chunks {
            return None;
        }
        proof {
            self@.lemma_chunk_in_piece(piece_index@, chunk_index as int);
            assert((chunk_index + 1) * self.chunk_length == chunk_index * self.chunk_length
                + self.chunk_length) by (nonlinear_arith);
        }
        let offset: u64 = (chunk_index as u64) * (self.chunk_length as u64);
        if offset + self.chunk_length as u64 > piece_length as u64 {
            Some((piece_length as u64 - offset) as u32)
        } else {
            Some(self.chunk_length)
        }
    }

    /// Locates a received block of `chunk_size` bytes that starts `begin` bytes
    /// into a piece.
    pub fn chunk_info_from_received_data(
        &self,
        piece_index: ValidPieceIndex,
        begin: u32,
        chunk_size: u32,
    ) -> (r: Option<ChunkInfo>)
        requires
            self.wf(),
            self@.is_piece(piece_index@),
        ensures
            match r {
                Some(info) => self@.locate(piece_index@, begin as int, chunk_size as int) == Some(
                    info@,
                ) && info.piece_index == piece_index,
                None => self@.locate(piece_index@, begin as int, chunk_size as int).is_none(),
            },
    {
        let index: u32 = begin / self.chunk_length;
        let expected: u32 = match self.chunk_size(piece_index, index) {
            Some(size) => size,
            None => {
                return None;
            },
        };
        proof {
            self@.lemma_chunk_in_piece(piece_index@, index as int);
            self@.lemma_piece_chunks(piece_index@);
        }
        let offset: u32 = index * self.chunk_length;
        if offset != begin {
            return None;
        }
        if expected != chunk_size {
            return None;
        }
        let absolute: u64 = (self.chunks_per_piece as u64) * (piece_index.0 as u64) + index as u64;
        proof {
            assert(self.chunks_per_piece * piece_index.0 == piece_index.0 * self.chunks_per_piece)
                by (nonlinear_arith);
        }
        Some(
            ChunkInfo {
                piece_index,
                chunk_index: index,
                absolute_index: absolute as u32,
                size: chunk_size,
                offset,
            },
        )
    }

    /// Locates a received block, or returns `None` when the piece does not
    /// exist, the block does not start on a chunk boundary inside it, or its
    /// length is not that chunk's.
    pub fn chunk_info_from_received_piece(&self, piece: &Piece) -> (r: Option<ChunkInfo>)
        requires
            self.wf(),
        ensures
            match r {
                Some(info) => self@.locate(
                    piece.index as int,
                    piece.begin as int,
                    piece.block@.len() as int,
                ) == Some(info@),
                None => self@.locate(
                    piece.index as int,
                    piece.begin as int,
                    piece.block@.len() as int,
                ).is_none(),
            },
    {
        let index: ValidPieceIndex = match self.validate_piece_index(piece.index) {
            Some(index) => index,
            None => {
                return None;
            },
        };
        let len: usize = piece.block.len();
        if len > u32::MAX as usize {
            proof {
                let chunk = piece.begin as int / self@.chunk_length;
                if chunk < self@.chunks_in_piece(index@) && 0 <= chunk {
                    self@.lemma_chunk_in_piece(index@, chunk);
                }
            }
            return None;
        }
        self.chunk_info_from_received_data(index, piece.begin, len as u32)
    }
}

} // verus!
