use erebus::chunker::{Chunker, FastCDC};
use erebus::error::Error;
use sha2::{Digest, Sha256};

fn random_buf(len: usize, seed: u64) -> Vec<u8> {
    let mut state = seed;
    (0..len)
        .map(|_| {
            state ^= state << 13;
            state ^= state >> 7;
            state ^= state << 17;
            state as u8
        })
        .collect()
}

fn chunker() -> FastCDC {
    FastCDC::new(1024).expect("valid average size")
}

#[test]
fn chunks_cover_buffer_exactly() {
    let data = random_buf(100_000, 42);
    let chunks = chunker().chunk(&data);
    assert!(!chunks.is_empty());
    let mut pos = 0;
    for chunk in &chunks {
        assert_eq!(chunk.offset, pos);
        pos += chunk.length;
    }
    assert_eq!(pos, data.len());
}

#[test]
fn chunk_sizes_within_bounds() {
    let c = chunker();
    let chunks = c.chunk(&random_buf(100_000, 7));
    for (i, chunk) in chunks.iter().enumerate() {
        assert!(chunk.length <= c.max_size(), "chunk {} too large", i);
        if i + 1 < chunks.len() {
            assert!(chunk.length >= c.min_size(), "chunk {} too small", i);
        }
    }
}

#[test]
fn deterministic_across_instances_and_runs() {
    let data = random_buf(50_000, 99);
    assert_eq!(chunker().chunk(&data), chunker().chunk(&data));
}

#[test]
fn hashes_match_content() {
    let data = random_buf(30_000, 5);
    for chunk in chunker().chunk(&data) {
        let expect: [u8; 32] =
            Sha256::digest(&data[chunk.offset..chunk.offset + chunk.length]).into();
        assert_eq!(chunk.hash, expect);
    }
}

#[test]
fn edit_is_local_to_touched_chunks() {
    let data = random_buf(80_000, 3);
    let chunks = chunker().chunk(&data);
    let edit = chunks[2].offset;
    let mut edited = data.clone();
    edited.insert(edit, 0xAB);
    let edited_chunks = chunker().chunk(&edited);
    let mut i = 0;
    while i < chunks.len() && chunks[i].offset + chunks[i].length <= edit {
        assert_eq!(chunks[i], edited_chunks[i]);
        i += 1;
    }
}

#[test]
fn tiny_input_is_single_chunk() {
    let chunks = chunker().chunk(b"hello");
    assert_eq!(chunks.len(), 1);
    assert_eq!(chunks[0].length, 5);
}

#[test]
fn empty_input_yields_no_chunks() {
    assert!(chunker().chunk(&[]).is_empty());
}

#[test]
fn invalid_bounds_rejected() {
    assert!(FastCDC::with_bounds(0, 100, 200).is_err());
    assert!(FastCDC::with_bounds(100, 50, 200).is_err());
    assert!(FastCDC::new(0).is_err());
}

#[test]
fn bounds_errors_name_their_cause() {
    assert_eq!(FastCDC::with_bounds(10, 20, 5).unwrap_err(), Error::InvalidChunkBounds);
    assert_eq!(FastCDC::new(3).unwrap_err(), Error::InvalidAverageChunkSize);
}

#[test]
fn new_derives_quarter_and_quadruple_bounds() {
    let c = FastCDC::new(1024).unwrap();
    assert_eq!(c.min_size(), 256);
    assert_eq!(c.avg_size(), 1024);
    assert_eq!(c.max_size(), 4096);
}

#[test]
fn default_bounds_are_2k_8k_32k() {
    let c = FastCDC::default();
    assert_eq!((c.min_size(), c.avg_size(), c.max_size()), (2048, 8192, 32768));
}

#[test]
fn chunker_trait_agrees_with_inherent_method() {
    let data = random_buf(20_000, 11);
    let c = chunker();
    assert_eq!(Chunker::chunk(&c, &data), c.chunk(&data));
}
