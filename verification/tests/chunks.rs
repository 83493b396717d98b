use surge::chunk::{partition, whole, Chunk, ChunkQueue, NUM_CHUNKS};

#[test]
fn pieces_of_an_even_size() {
    let chunks = partition(1024 * 1024, 3);
    assert_eq!(chunks.len() as u64, NUM_CHUNKS);
    assert_eq!(chunks[0], Chunk { start: 0, end: 1023, target_idx: 3 });
    assert_eq!(chunks[1], Chunk { start: 1024, end: 2047, target_idx: 3 });
    assert_eq!(chunks[1023], Chunk { start: 1023 * 1024, end: 1024 * 1024 - 1, target_idx: 3 });
}

#[test]
fn last_piece_takes_the_rest() {
    let chunks = partition(1024 * 10 + 1000, 0);
    assert_eq!(chunks[1022], Chunk { start: 10_220, end: 10_229, target_idx: 0 });
    assert_eq!(chunks[1023], Chunk { start: 10_230, end: 11_239, target_idx: 0 });
}

#[test]
fn smallest_and_largest_sizes() {
    let chunks = partition(1024, 0);
    for (i, chunk) in chunks.iter().enumerate() {
        assert_eq!((chunk.start, chunk.end), (i as u64, i as u64));
    }
    let chunks = partition(u64::MAX, 0);
    assert_eq!(chunks[1023].end, u64::MAX - 1);
    assert_eq!(chunks[1023].start, 1023 * (u64::MAX / 1024));
}

#[test]
fn every_byte_is_in_one_piece() {
    for size in [1u64, 2, 512, 1023, 1024, 1025, 2047, 2048, 5000, 123_457] {
        let chunks = partition(size, 0);
        let mut next = 0;
        for chunk in &chunks {
            assert_eq!(chunk.start, next);
            assert!(chunk.start <= chunk.end);
            next = chunk.end + 1;
        }
        assert_eq!(next, size);
    }
}

#[test]
fn whole_target_is_one_chunk() {
    assert_eq!(whole(100, 2), Chunk { start: 0, end: 99, target_idx: 2 });
    assert_eq!(whole(1, 0), Chunk { start: 0, end: 0, target_idx: 0 });
    assert_eq!(whole(0, 0), Chunk { start: 0, end: 0, target_idx: 0 });
}

#[test]
fn queue_hands_out_in_order() {
    let chunks = partition(4096, 0);
    let mut queue = ChunkQueue::new(chunks.clone());
    for chunk in chunks {
        assert!(!queue.is_empty());
        assert_eq!(queue.take_next(), Some(chunk));
    }
    assert!(queue.is_empty());
    assert_eq!(queue.take_next(), None);
    assert_eq!(queue.take_next(), None);
}

#[test]
fn small_target_stays_whole() {
    for size in [1u64, 2, 1000, 1023] {
        assert_eq!(partition(size, 4), vec![Chunk { start: 0, end: size - 1, target_idx: 4 }]);
    }
    assert_eq!(partition(0, 4), vec![Chunk { start: 0, end: 0, target_idx: 4 }]);
}
