use s3_gateway::chunker::{chunk_bytes, chunk_count, chunk_range, chunkify, plan_chunks, ChunkRange, CHUNK_SIZE};
use s3_gateway::error::UploadError;

const MIB: usize = 1_048_576;

fn source(len: usize) -> Vec<u8> {
    (0..len).map(|i| (i % 251) as u8).collect()
}

#[test]
fn twelve_mib_gives_three_chunks() {
    let data = source(12 * MIB);
    let chunks = chunkify(&data, CHUNK_SIZE).unwrap();
    let sizes: Vec<usize> = chunks.iter().map(|c| c.len()).collect();
    assert_eq!(sizes, vec![5 * MIB, 5 * MIB, 2 * MIB]);
    assert_eq!(chunks.concat(), data);
    let ranges = plan_chunks(12 * MIB, CHUNK_SIZE).unwrap();
    let numbers: Vec<usize> = ranges.iter().map(|r| r.part_number).collect();
    assert_eq!(numbers, vec![1, 2, 3]);
}

#[test]
fn three_mib_is_too_small() {
    let data = source(3 * MIB);
    assert!(matches!(chunkify(&data, CHUNK_SIZE), Err(UploadError::ChunkTooSmall)));
    assert_eq!(chunk_count(3 * MIB, CHUNK_SIZE), Err(UploadError::ChunkTooSmall));
    assert!(matches!(plan_chunks(3 * MIB, CHUNK_SIZE), Err(UploadError::ChunkTooSmall)));
}

#[test]
fn exactly_one_chunk_size_gives_one_chunk() {
    let data = source(5 * MIB);
    let chunks = chunkify(&data, CHUNK_SIZE).unwrap();
    assert_eq!(chunks.len(), 1);
    assert_eq!(chunks[0], data);
    assert_eq!(chunk_count(5 * MIB, CHUNK_SIZE), Ok(1));
}

#[test]
fn exact_multiple_has_no_empty_tail() {
    let ranges = plan_chunks(30, 10).unwrap();
    assert_eq!(
        ranges,
        vec![
            ChunkRange { part_number: 1, start: 0, end: 10 },
            ChunkRange { part_number: 2, start: 10, end: 20 },
            ChunkRange { part_number: 3, start: 20, end: 30 },
        ]
    );
}

#[test]
fn chunk_count_is_ceiling() {
    assert_eq!(chunk_count(10, 10), Ok(1));
    assert_eq!(chunk_count(11, 10), Ok(2));
    assert_eq!(chunk_count(19, 10), Ok(2));
    assert_eq!(chunk_count(20, 10), Ok(2));
    assert_eq!(chunk_count(21, 10), Ok(3));
    assert_eq!(chunk_count(9, 10), Err(UploadError::ChunkTooSmall));
    assert_eq!(chunk_count(0, 10), Err(UploadError::ChunkTooSmall));
    assert_eq!(chunk_count(usize::MAX, 1), Ok(usize::MAX));
    assert_eq!(chunk_count(usize::MAX, 2), Ok(usize::MAX / 2 + 1));
}

#[test]
fn last_range_is_short() {
    assert_eq!(chunk_range(25, 10, 3), ChunkRange { part_number: 3, start: 20, end: 25 });
    assert_eq!(chunk_range(25, 10, 1), ChunkRange { part_number: 1, start: 0, end: 10 });
    assert_eq!(chunk_range(25, 10, 3).len(), 5);
}

#[test]
fn small_source_chunks_concatenate_back() {
    let data: Vec<u8> = (1..=23).collect();
    let chunks = chunkify(&data, 7).unwrap();
    assert_eq!(chunks.len(), 4);
    assert_eq!(chunks[3], vec![22, 23]);
    assert_eq!(chunks.concat(), data);
    for c in &chunks[..3] {
        assert_eq!(c.len(), 7);
    }
}

#[test]
fn chunk_bytes_copies_the_range() {
    let data: Vec<u8> = vec![9, 8, 7, 6, 5];
    assert_eq!(chunk_bytes(&data, 1, 4), vec![8, 7, 6]);
    assert_eq!(chunk_bytes(&data, 2, 2), Vec::<u8>::new());
}
