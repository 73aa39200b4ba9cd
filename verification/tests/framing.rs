use sha1::framing::frame_tail;

#[test]
fn frame_of_the_empty_message() {
    let mut expected: Vec<u8> = vec![0u8; 64];
    expected[0] = 0x80;
    assert_eq!(frame_tail(Vec::new(), 0), expected);
}

#[test]
fn frame_of_abc() {
    let mut expected: Vec<u8> = vec![0u8; 64];
    expected[0] = b'a';
    expected[1] = b'b';
    expected[2] = b'c';
    expected[3] = 0x80;
    expected[63] = 24;
    assert_eq!(frame_tail(b"abc".to_vec(), 3), expected);
}

#[test]
fn frame_lengths_at_the_boundaries() {
    let cases: [(usize, usize); 9] =
        [(0, 64), (1, 64), (54, 64), (55, 64), (56, 128), (63, 128), (64, 128), (119, 128), (120, 192)];
    for (len, padded) in cases {
        let framed: Vec<u8> = frame_tail(vec![7u8; len], len as u64);
        assert_eq!(framed.len(), padded, "length {}", len);
        assert_eq!(framed.len(), (len + 9 + 63) / 64 * 64);
        assert_eq!(&framed[..len], &vec![7u8; len][..]);
        assert_eq!(framed[len], 0x80);
        assert!(framed[len + 1..padded - 8].iter().all(|b| *b == 0));
        assert_eq!(&framed[padded - 8..], &((len as u64) * 8).to_be_bytes()[..]);
    }
}

#[test]
fn frame_at_55_has_no_zero_fill() {
    let framed: Vec<u8> = frame_tail(vec![1u8; 55], 55);
    assert_eq!(framed.len(), 64);
    assert_eq!(framed[55], 0x80);
    assert_eq!(&framed[56..], &[0, 0, 0, 0, 0, 0, 1, 0xb8]);
}

#[test]
fn frame_of_a_tail_carries_the_whole_length() {
    let framed: Vec<u8> = frame_tail(vec![5u8; 40], 1000);
    assert_eq!(framed.len(), 64);
    assert_eq!(framed[40], 0x80);
    assert!(framed[41..56].iter().all(|b| *b == 0));
    assert_eq!(&framed[56..], &[0, 0, 0, 0, 0, 0, 0x1f, 0x40]);
}

#[test]
fn length_field_is_big_endian() {
    let framed: Vec<u8> = frame_tail(Vec::new(), 0x0123_4567_89ab_cdef >> 3);
    assert_eq!(&framed[56..], &[0x01, 0x23, 0x45, 0x67, 0x89, 0xab, 0xcd, 0xe8]);
}

#[test]
fn bit_length_wraps_at_64_bits() {
    let framed: Vec<u8> = frame_tail(Vec::new(), 1u64 << 61);
    assert_eq!(&framed[56..], &[0u8; 8]);
    let framed: Vec<u8> = frame_tail(Vec::new(), (1u64 << 61) + 1);
    assert_eq!(&framed[56..], &[0, 0, 0, 0, 0, 0, 0, 8]);
    let framed: Vec<u8> = frame_tail(Vec::new(), u64::MAX);
    assert_eq!(&framed[56..], &[0xff, 0xff, 0xff, 0xff, 0xff, 0xff, 0xff, 0xf8]);
}
