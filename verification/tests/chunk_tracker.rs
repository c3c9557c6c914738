use librqbit::bitfield::BF;
use librqbit::chunk_tracker::{compute_chunk_status, ChunkTracker};
use librqbit::lengths::{Lengths, LengthsError, Piece, CHUNK_SIZE};

fn bits(bf: &BF) -> Vec<bool> {
    (0..bf.len()).map(|i| bf.get(i).unwrap()).collect()
}

fn block(index: u32, begin: u32, len: usize) -> Piece {
    Piece { index, begin, block: vec![0u8; len] }
}

// Ten pieces of four chunks each, nothing owned yet.
fn ten_by_four() -> (Lengths, ChunkTracker) {
    let lengths = Lengths::new(10 * 65536, 65536, None).unwrap();
    assert_eq!(lengths.total_pieces(), 10);
    assert_eq!(lengths.default_chunks_per_piece(), 4);
    let needed = BF::from_vec(vec![0xff, 0xc0]);
    let have = BF::from_vec(vec![0x00, 0x00]);
    (lengths, ChunkTracker::new(needed, have, lengths))
}

#[test]
fn completion_is_signalled_on_the_fourth_chunk_only() {
    let (lengths, mut tracker) = ten_by_four();
    assert_eq!(tracker.mark_chunk_downloaded(&block(3, 0, 16384)), Some(false));
    assert_eq!(tracker.mark_chunk_downloaded(&block(3, 16384, 16384)), Some(false));
    assert_eq!(tracker.mark_chunk_downloaded(&block(3, 32768, 16384)), Some(false));
    assert_eq!(tracker.mark_chunk_downloaded(&block(3, 49152, 16384)), Some(true));

    let index = lengths.validate_piece_index(3).unwrap();
    tracker.reserve_needed_piece(index);
    tracker.mark_piece_downloaded(index);
    assert_eq!(tracker.get_have_pieces().get(3), Some(true));
    assert_eq!(tracker.get_needed_pieces().get(3), Some(false));
    assert_eq!(tracker.get_have_pieces().get(2), Some(false));
    assert_eq!(tracker.get_needed_pieces().get(2), Some(true));
}

#[test]
fn chunks_may_arrive_in_any_order() {
    let (_, mut tracker) = ten_by_four();
    assert_eq!(tracker.mark_chunk_downloaded(&block(7, 49152, 16384)), Some(false));
    assert_eq!(tracker.mark_chunk_downloaded(&block(7, 16384, 16384)), Some(false));
    assert_eq!(tracker.mark_chunk_downloaded(&block(7, 0, 16384)), Some(false));
    // a chunk of another piece changes nothing for piece 7
    assert_eq!(tracker.mark_chunk_downloaded(&block(6, 32768, 16384)), Some(false));
    assert_eq!(tracker.mark_chunk_downloaded(&block(7, 32768, 16384)), Some(true));
}

#[test]
fn a_repeated_chunk_does_not_complete_the_piece() {
    let (_, mut tracker) = ten_by_four();
    assert_eq!(tracker.mark_chunk_downloaded(&block(0, 0, 16384)), Some(false));
    assert_eq!(tracker.mark_chunk_downloaded(&block(0, 0, 16384)), Some(false));
    assert_eq!(tracker.mark_chunk_downloaded(&block(0, 16384, 16384)), Some(false));
    assert_eq!(tracker.mark_chunk_downloaded(&block(0, 16384, 16384)), Some(false));
    assert_eq!(tracker.mark_chunk_downloaded(&block(0, 32768, 16384)), Some(false));
    assert_eq!(tracker.mark_chunk_downloaded(&block(0, 49152, 16384)), Some(true));
    // once every chunk is there, a repeated chunk finds the piece complete
    assert_eq!(tracker.mark_chunk_downloaded(&block(0, 0, 16384)), Some(true));
}

#[test]
fn a_piece_marked_needed_again_completes_again() {
    let (lengths, mut tracker) = ten_by_four();
    let index = lengths.validate_piece_index(5).unwrap();
    tracker.reserve_needed_piece(index);
    for chunk in 0..4u32 {
        let complete = tracker.mark_chunk_downloaded(&block(5, chunk * 16384, 16384));
        assert_eq!(complete, Some(chunk == 3));
    }
    // the hash did not match
    assert!(tracker.mark_piece_needed(index));
    assert_eq!(tracker.get_needed_pieces().get(5), Some(true));
    for chunk in 0..4u32 {
        let complete = tracker.mark_chunk_downloaded(&block(5, chunk * 16384, 16384));
        assert_eq!(complete, Some(chunk == 3));
    }
    // and a third time
    assert!(tracker.mark_piece_needed(index));
    for chunk in 0..4u32 {
        let complete = tracker.mark_chunk_downloaded(&block(5, chunk * 16384, 16384));
        assert_eq!(complete, Some(chunk == 3));
    }
}

#[test]
fn a_reserved_piece_stays_out_of_the_needed_set() {
    let (lengths, mut tracker) = ten_by_four();
    let index = lengths.validate_piece_index(2).unwrap();
    let other = lengths.validate_piece_index(4).unwrap();
    tracker.reserve_needed_piece(index);
    assert_eq!(tracker.get_needed_pieces().get(2), Some(false));
    tracker.reserve_needed_piece(index);
    assert_eq!(tracker.get_needed_pieces().get(2), Some(false));
    // nothing but mark_piece_needed on this piece brings it back
    tracker.mark_chunk_downloaded(&block(2, 0, 16384));
    tracker.mark_piece_downloaded(index);
    tracker.reserve_needed_piece(other);
    assert!(tracker.mark_piece_needed(other));
    assert_eq!(tracker.get_needed_pieces().get(2), Some(false));
    assert_eq!(tracker.get_needed_pieces().get(4), Some(true));
    assert!(tracker.mark_piece_needed(index));
    assert_eq!(tracker.get_needed_pieces().get(2), Some(true));
    // the other pieces were never touched
    assert_eq!(
        bits(tracker.get_needed_pieces()),
        vec![
            true, true, true, true, true, true, true, true, true, true, false, false, false,
            false, false, false
        ]
    );
}

#[test]
fn reserving_does_not_touch_the_chunks() {
    let (lengths, mut tracker) = ten_by_four();
    assert_eq!(tracker.mark_chunk_downloaded(&block(1, 0, 16384)), Some(false));
    assert_eq!(tracker.mark_chunk_downloaded(&block(1, 16384, 16384)), Some(false));
    assert_eq!(tracker.mark_chunk_downloaded(&block(1, 32768, 16384)), Some(false));
    tracker.reserve_needed_piece(lengths.validate_piece_index(1).unwrap());
    assert_eq!(tracker.mark_chunk_downloaded(&block(1, 49152, 16384)), Some(true));
}

#[test]
fn blocks_with_bad_addressing_have_no_effect() {
    let (_, mut tracker) = ten_by_four();
    // no such piece
    assert_eq!(tracker.mark_chunk_downloaded(&block(10, 0, 16384)), None);
    // not on a chunk boundary
    assert_eq!(tracker.mark_chunk_downloaded(&block(0, 1, 16384)), None);
    // past the end of the piece
    assert_eq!(tracker.mark_chunk_downloaded(&block(0, 65536, 16384)), None);
    // not the chunk's length
    assert_eq!(tracker.mark_chunk_downloaded(&block(0, 0, 16383)), None);
    assert_eq!(tracker.mark_chunk_downloaded(&block(0, 0, 0)), None);
    // nothing was marked on the way
    assert_eq!(tracker.mark_chunk_downloaded(&block(0, 16384, 16384)), Some(false));
    assert_eq!(tracker.mark_chunk_downloaded(&block(0, 32768, 16384)), Some(false));
    assert_eq!(tracker.mark_chunk_downloaded(&block(0, 49152, 16384)), Some(false));
    assert_eq!(tracker.mark_chunk_downloaded(&block(0, 0, 16384)), Some(true));
}

#[test]
fn initial_chunk_bits_mirror_the_needed_bits() {
    // 5 pieces of 3 chunks; the last piece has a single short chunk.
    let lengths = Lengths::new(4 * 40000 + 100, 40000, None).unwrap();
    assert_eq!(lengths.total_pieces(), 5);
    assert_eq!(lengths.default_chunks_per_piece(), 3);
    assert_eq!(lengths.total_chunks(), 13);
    // pieces 0, 2 and 4 are needed
    let needed = BF::from_vec(vec![0b1010_1000]);
    let chunks = compute_chunk_status(&lengths, &needed);
    assert_eq!(chunks.len(), 16);
    let expected = vec![
        false, false, false, // piece 0
        true, true, true, // piece 1
        false, false, false, // piece 2
        true, true, true, // piece 3
        false, // piece 4
        false, false, false, // padding
    ];
    assert_eq!(bits(&chunks), expected);
}

#[test]
fn a_piece_that_is_not_needed_counts_as_complete() {
    let lengths = Lengths::new(4 * 40000 + 100, 40000, None).unwrap();
    // only piece 2 is needed
    let needed = BF::from_vec(vec![0b0010_0000]);
    let have = BF::from_vec(vec![0b1101_1000]);
    let mut tracker = ChunkTracker::new(needed, have, lengths);
    // any chunk of piece 1 finds the piece complete
    assert_eq!(tracker.mark_chunk_downloaded(&block(1, 16384, 16384)), Some(true));
    // the last piece is one chunk of 100 bytes
    assert_eq!(tracker.mark_chunk_downloaded(&block(4, 0, 100)), Some(true));
    assert_eq!(tracker.mark_chunk_downloaded(&block(4, 0, 16384)), None);
    // piece 2 has chunks of 16384, 16384 and 7232 bytes
    assert_eq!(tracker.mark_chunk_downloaded(&block(2, 0, 16384)), Some(false));
    assert_eq!(tracker.mark_chunk_downloaded(&block(2, 32768, 16384)), None);
    assert_eq!(tracker.mark_chunk_downloaded(&block(2, 32768, 7232)), Some(false));
    assert_eq!(tracker.mark_chunk_downloaded(&block(2, 16384, 16384)), Some(true));
    assert_eq!(bits(tracker.get_have_pieces())[..5], [true, true, false, true, true]);
}

#[test]
fn marking_a_piece_of_another_geometry_finds_no_range() {
    let (_, mut tracker) = ten_by_four();
    let larger = Lengths::new(16 * 65536, 65536, None).unwrap();
    // piece 12 has a bit in the two bytes of `needed`, and no chunks
    let stranger = larger.validate_piece_index(12).unwrap();
    assert!(!tracker.mark_piece_needed(stranger));
    assert_eq!(tracker.get_needed_pieces().get(12), Some(true));
    // the chunks of the real pieces are as they were
    assert_eq!(tracker.mark_chunk_downloaded(&block(9, 0, 16384)), Some(false));
}

#[test]
fn bit_vectors_count_from_the_most_significant_bit() {
    let bf = BF::from_vec(vec![0b1000_0001, 0b0100_0000]);
    assert_eq!(bf.len(), 16);
    assert_eq!(
        bits(&bf),
        vec![
            true, false, false, false, false, false, false, true, false, true, false, false,
            false, false, false, false
        ]
    );
    assert_eq!(bf.get(16), None);
    assert_eq!(BF::from_vec(Vec::new()).len(), 0);
}

#[test]
fn geometry_of_a_torrent() {
    let lengths = Lengths::new(1_000_000, 262_144, None).unwrap();
    assert_eq!(lengths.total_length(), 1_000_000);
    assert_eq!(lengths.default_piece_length(), 262_144);
    assert_eq!(lengths.default_chunk_length(), CHUNK_SIZE);
    assert_eq!(lengths.total_pieces(), 4);
    assert_eq!(lengths.default_chunks_per_piece(), 16);
    // the last piece has 1_000_000 - 3 * 262_144 = 213_568 bytes: 14 chunks
    assert_eq!(lengths.total_chunks(), 3 * 16 + 14);
    assert_eq!(lengths.piece_bitfield_bytes(), 1);
    assert_eq!(lengths.chunk_bitfield_bytes(), 8);
    assert_eq!(lengths.validate_piece_index(4), None);
    let first = lengths.validate_piece_index(0).unwrap();
    let last = lengths.validate_piece_index(3).unwrap();
    assert_eq!(last.get(), 3);
    assert_eq!(lengths.piece_length(first), 262_144);
    assert_eq!(lengths.piece_length(last), 213_568);
    assert_eq!(lengths.chunks_per_piece(first), 16);
    assert_eq!(lengths.chunks_per_piece(last), 14);
    assert_eq!(lengths.chunk_range(first), 0..16);
    assert_eq!(lengths.chunk_range(last), 48..62);
    assert_eq!(lengths.chunk_size(first, 15), Some(16384));
    assert_eq!(lengths.chunk_size(first, 16), None);
    // 213_568 - 13 * 16384 = 576
    assert_eq!(lengths.chunk_size(last, 13), Some(576));
    assert_eq!(lengths.chunk_size(last, 14), None);
}

#[test]
fn a_received_block_is_located() {
    let lengths = Lengths::new(1_000_000, 262_144, None).unwrap();
    let info = lengths.chunk_info_from_received_piece(&block(3, 13 * 16384, 576)).unwrap();
    assert_eq!(info.piece_index.get(), 3);
    assert_eq!(info.chunk_index, 13);
    assert_eq!(info.absolute_index, 61);
    assert_eq!(info.size, 576);
    assert_eq!(info.offset, 13 * 16384);
    let piece = lengths.validate_piece_index(1).unwrap();
    let info = lengths.chunk_info_from_received_data(piece, 32768, 16384).unwrap();
    assert_eq!(info.absolute_index, 18);
    assert_eq!(info.chunk_index, 2);
    assert_eq!(lengths.chunk_info_from_received_data(piece, 32768, 16383), None);
    assert_eq!(lengths.chunk_info_from_received_data(piece, 32769, 16384), None);
    assert_eq!(lengths.chunk_info_from_received_piece(&block(4, 0, 16384)), None);
}

#[test]
fn a_piece_length_that_is_no_multiple_of_the_chunk_length() {
    // pieces of 20000 bytes have two chunks: 16384 and 3616 bytes
    let lengths = Lengths::new(100_000, 20_000, None).unwrap();
    assert_eq!(lengths.total_pieces(), 5);
    assert_eq!(lengths.default_chunks_per_piece(), 2);
    assert_eq!(lengths.total_chunks(), 10);
    let needed = BF::from_vec(vec![0xf8]);
    let have = BF::from_vec(vec![0x00]);
    let mut tracker = ChunkTracker::new(needed, have, lengths);
    assert_eq!(tracker.mark_chunk_downloaded(&block(4, 16384, 3616)), Some(false));
    assert_eq!(tracker.mark_chunk_downloaded(&block(4, 0, 16384)), Some(true));
}

#[test]
fn numbers_that_give_no_geometry() {
    assert_eq!(Lengths::new(100, 10, Some(11)).err(), Some(LengthsError::ChunkLongerThanPiece));
    assert_eq!(Lengths::new(100, 16383, None).err(), Some(LengthsError::ChunkLongerThanPiece));
    assert_eq!(Lengths::new(0, 16384, None).err(), Some(LengthsError::ZeroLength));
    assert_eq!(Lengths::new(100, 10, Some(0)).err(), Some(LengthsError::ZeroChunkLength));
    assert_eq!(Lengths::new(100, 0, Some(0)).err(), Some(LengthsError::ZeroChunkLength));
    assert_eq!(Lengths::new(u64::MAX, 1, Some(1)).err(), Some(LengthsError::TooManyChunks));
    assert_eq!(Lengths::new(1 << 33, 2, Some(1)).err(), Some(LengthsError::TooManyChunks));
    assert!(Lengths::new(u32::MAX as u64, 1, Some(1)).is_ok());
    assert!(Lengths::new(1, 1, Some(1)).is_ok());
}
