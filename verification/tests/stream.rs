use sha1::stream::{hash_stream, Stream, StreamStep};
use sha1::SHA1;

fn pattern(len: usize) -> Vec<u8> {
    (0..len).map(|i| ((i * 7 + 3) % 256) as u8).collect()
}

/// Runs a stream over bytes held in memory and notes what it asked for.
fn stream_over(source: &[u8], asked: &mut Vec<(u64, u64)>) -> SHA1 {
    let mut step: StreamStep = Stream::begin(source.len() as u64);
    loop {
        step = match step {
            StreamStep::ReadTail { stream, offset } => {
                let tail: Vec<u8> = source[offset as usize..].to_vec();
                assert_eq!(tail.len() as u64, stream.wanted());
                asked.push((offset, tail.len() as u64));
                stream.advance(tail)
            }
            StreamStep::ReadBlock { stream, offset } => {
                assert_eq!(stream.wanted(), 64);
                asked.push((offset, 64));
                stream.advance(source[offset as usize..offset as usize + 64].to_vec())
            }
            StreamStep::Done { digest } => return digest,
        };
    }
}

fn streamed(source: &[u8]) -> String {
    stream_over(source, &mut Vec::new()).to_lhex()
}

#[test]
fn a_thousand_bytes_streamed_and_in_memory() {
    let source: Vec<u8> = pattern(1000);
    let mut asked: Vec<(u64, u64)> = Vec::new();
    let digest: String = stream_over(&source, &mut asked).to_lhex();

    assert_eq!(digest, SHA1::hash_sha1(source.clone()).to_lhex());
    assert_eq!(digest, hash_stream(&source).to_lhex());
    assert_eq!(digest, "4231a8a50a10fa9758db8ec71fdef855b751048a");

    assert_eq!(asked.len(), 16);
    assert_eq!(asked[0], (960, 40));
    for block in 0..15u64 {
        assert_eq!(asked[block as usize + 1], (64 * block, 64));
    }
}

#[test]
fn streaming_agrees_with_hashing_in_memory() {
    for len in [0usize, 1, 3, 55, 56, 63, 64, 65, 119, 120, 127, 128, 129, 191, 192, 640, 1000] {
        let source: Vec<u8> = pattern(len);
        let in_memory: String = SHA1::hash_sha1(source.clone()).to_lhex();
        assert_eq!(streamed(&source), in_memory, "length {}", len);
        assert_eq!(hash_stream(&source).to_lhex(), in_memory, "length {}", len);
    }
}

#[test]
fn streamed_known_vectors() {
    assert_eq!(streamed(b""), "da39a3ee5e6b4b0d3255bfef95601890afd80709");
    assert_eq!(streamed(b"abc"), "a9993e364706816aba3e25717850c26c9cd0d89d");
    assert_eq!(streamed(&vec![b'a'; 64]), "0098ba824b5c16427bd7a1122a5a442a25ec644d");
    assert_eq!(streamed(&vec![b'a'; 128]), "ad5b3fdbcb526778c2839d2f151ea753995e26a0");
}

#[test]
fn hash_stream_known_vectors() {
    assert_eq!(hash_stream(b"").to_lhex(), "da39a3ee5e6b4b0d3255bfef95601890afd80709");
    assert_eq!(hash_stream(b"abc").to_lhex(), "a9993e364706816aba3e25717850c26c9cd0d89d");
    assert_eq!(
        hash_stream(&vec![b'a'; 1_000_000]).to_uhex(),
        "34AA973CD4C4DAA4F61EEB2BDBAD27316534016F"
    );
}

#[test]
fn an_empty_source_is_done_after_its_tail() {
    match Stream::begin(0) {
        StreamStep::ReadTail { stream, offset } => {
            assert_eq!(offset, 0);
            assert_eq!(stream.wanted(), 0);
            match stream.advance(Vec::new()) {
                StreamStep::Done { digest } => {
                    assert_eq!(digest.to_lhex(), "da39a3ee5e6b4b0d3255bfef95601890afd80709")
                }
                _ => panic!("an empty source has no blocks"),
            }
        }
        _ => panic!("the tail comes first"),
    }
}

#[test]
fn the_tail_of_whole_blocks_is_empty() {
    let mut asked: Vec<(u64, u64)> = Vec::new();
    stream_over(&pattern(128), &mut asked);
    assert_eq!(asked, vec![(128, 0), (0, 64), (64, 64)]);
}

#[test]
fn the_tail_starts_after_the_last_whole_block() {
    let mut asked: Vec<(u64, u64)> = Vec::new();
    stream_over(&pattern(63), &mut asked);
    assert_eq!(asked, vec![(0, 63)]);

    asked.clear();
    stream_over(&pattern(65), &mut asked);
    assert_eq!(asked, vec![(64, 1), (0, 64)]);
}

#[test]
fn the_first_step_on_a_huge_source() {
    match Stream::begin(u64::MAX) {
        StreamStep::ReadTail { stream, offset } => {
            assert_eq!(offset, u64::MAX - 63);
            assert_eq!(stream.wanted(), 63);
        }
        _ => panic!("the tail comes first"),
    }
}
