use percpu::codec::le_decode;
use percpu::codec::le_encode;

#[test]
fn encode_exact_bytes() {
    assert_eq!(le_encode(0xabcd, 2), vec![0xcd, 0xab]);
    assert_eq!(le_encode(0x01, 4), vec![0x01, 0x00, 0x00, 0x00]);
    assert_eq!(
        le_encode(0xdead_beef, 4),
        vec![0xef, 0xbe, 0xad, 0xde]
    );
    assert_eq!(le_encode(0, 8), vec![0u8; 8]);
    assert_eq!(le_encode(5, 0), Vec::<u8>::new());
}

#[test]
fn encode_keeps_low_bytes_of_oversized_value() {
    assert_eq!(le_encode(0x1ff, 1), vec![0xff]);
    assert_eq!(le_encode(0x1_0000, 2), vec![0x00, 0x00]);
}

#[test]
fn decode_exact_values() {
    assert_eq!(le_decode(&Vec::new()), 0);
    assert_eq!(le_decode(&vec![0x09]), 9);
    assert_eq!(le_decode(&vec![0xcd, 0xab]), 0xabcd);
    assert_eq!(le_decode(&vec![0xff; 8]), u64::MAX);
}

#[test]
fn encode_decode_round_trip() {
    let samples: [u64; 6] = [0, 1, 0xff, 0xabcd, 0xdead_beef, u64::MAX];
    for &x in samples.iter() {
        assert_eq!(le_decode(&le_encode(x, 8)), x);
    }
    assert_eq!(le_decode(&le_encode(0xabcd, 2)), 0xabcd);
}
