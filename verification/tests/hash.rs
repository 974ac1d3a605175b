use chain_rs_lib::bytes::{push_le_bytes, read_le};
use chain_rs_lib::clock::{timestamp_from_millis, timestamp_from_reading};
use chain_rs_lib::text::push_decimal;

const ABC_DIGEST: [u8; 32] = [
    0xba, 0x78, 0x16, 0xbf, 0x8f, 0x01, 0xcf, 0xea, 0x41, 0x41, 0x40, 0xde, 0x5d, 0xae, 0x22, 0x23,
    0xb0, 0x03, 0x61, 0xa3, 0x96, 0x17, 0x7a, 0x9c, 0xb4, 0x10, 0xff, 0x61, 0xf2, 0x00, 0x15, 0xad,
];

#[test]
fn from_bytes_is_sha256() {
    let hash = chain_rs_lib::hash::Hash::from_bytes(b"abc");
    assert_eq!(hash.bytes(), ABC_DIGEST.to_vec());
}

#[test]
fn from_bytes_of_nothing() {
    let hash = chain_rs_lib::hash::Hash::from_bytes(&[]);
    assert_eq!(
        hash.to_hex(),
        "e3b0c44298fc1c149afbf4c8996fb92427ae41e4649b934ca495991b7852b855"
    );
}

#[test]
fn from_bytes_is_deterministic() {
    let a = chain_rs_lib::hash::Hash::from_bytes(b"crypto-hash");
    let b = chain_rs_lib::hash::Hash::from_bytes(b"crypto-hash");
    assert_eq!(a, b);
    assert_eq!(
        a.to_hex(),
        "fd1afb6022cd4d47c890961c533928eacfe8219f1b2524f7fb2a61847ddf8c27"
    );
    assert_ne!(a, chain_rs_lib::hash::Hash::from_bytes(b"crypto-hasi"));
}

#[test]
fn from_raw_packs_32_bytes() {
    let hash = chain_rs_lib::hash::Hash::from_raw(&ABC_DIGEST).unwrap();
    assert_eq!(hash, chain_rs_lib::hash::Hash::from_bytes(b"abc"));
    assert_eq!(hash.bytes(), ABC_DIGEST.to_vec());
}

#[test]
fn from_raw_refuses_other_lengths() {
    assert_eq!(chain_rs_lib::hash::Hash::from_raw(&ABC_DIGEST[..31]), None);
    assert_eq!(chain_rs_lib::hash::Hash::from_raw(&[0u8; 33]), None);
    assert_eq!(chain_rs_lib::hash::Hash::from_raw(&[]), None);
}

#[test]
fn halves_are_little_endian() {
    let mut raw = [0u8; 32];
    raw[0] = 1;
    raw[16] = 2;
    let hash = chain_rs_lib::hash::Hash::from_raw(&raw).unwrap();
    assert_eq!(format!("{:?}", hash), "Hash(1, 2)");
    raw[15] = 0x80;
    let hash = chain_rs_lib::hash::Hash::from_raw(&raw).unwrap();
    assert_eq!(format!("{:?}", hash), format!("Hash({}, 2)", (1u128 << 127) + 1));
}

#[test]
fn default_hash_is_all_zero() {
    let zero = chain_rs_lib::hash::Hash::default();
    assert_eq!(zero.bytes(), vec![0u8; 32]);
    assert_eq!(zero, chain_rs_lib::hash::Hash::from_raw(&[0u8; 32]).unwrap());
}

#[test]
fn display_text_is_two_groups() {
    let hash = chain_rs_lib::hash::Hash::from_bytes(b"abc");
    assert_eq!(
        hash.to_string(),
        "ba7816bf8f01cfea414140de5dae2223 b00361a396177a9cb410ff61f20015ad"
    );
}

#[test]
fn wire_text_is_64_lower_case_digits() {
    let hash = chain_rs_lib::hash::Hash::from_bytes(b"abc");
    assert_eq!(
        hash.to_hex(),
        "ba7816bf8f01cfea414140de5dae2223b00361a396177a9cb410ff61f20015ad"
    );
}

#[test]
fn wire_text_round_trips() {
    for data in [&b"abc"[..], &b""[..], &b"another input"[..]] {
        let hash = chain_rs_lib::hash::Hash::from_bytes(data);
        assert_eq!(chain_rs_lib::hash::Hash::from_hex(&hash.to_hex()), Some(hash));
    }
    let zero = chain_rs_lib::hash::Hash::default();
    assert_eq!(chain_rs_lib::hash::Hash::from_hex(&zero.to_hex()), Some(zero));
}

#[test]
fn from_hex_does_not_hash_again() {
    let text = "000102030405060708090a0b0c0d0e0f101112131415161718191a1b1c1d1e1f";
    let hash = chain_rs_lib::hash::Hash::from_hex(text).unwrap();
    let expected: Vec<u8> = (0u8..32).collect();
    assert_eq!(hash.bytes(), expected);
}

#[test]
fn from_hex_takes_either_case() {
    let lower = "ba7816bf8f01cfea414140de5dae2223b00361a396177a9cb410ff61f20015ad";
    let upper = "BA7816BF8F01CFEA414140DE5DAE2223B00361A396177A9CB410FF61F20015AD";
    let mixed = "Ba7816bF8f01cfea414140de5dae2223b00361a396177a9cb410ff61f20015aD";
    let hash = chain_rs_lib::hash::Hash::from_bytes(b"abc");
    assert_eq!(chain_rs_lib::hash::Hash::from_hex(lower), Some(hash));
    assert_eq!(chain_rs_lib::hash::Hash::from_hex(upper), Some(hash));
    assert_eq!(chain_rs_lib::hash::Hash::from_hex(mixed), Some(hash));
}

#[test]
fn from_hex_refuses_what_is_not_a_hash() {
    let good = "ba7816bf8f01cfea414140de5dae2223b00361a396177a9cb410ff61f20015ad";
    assert_eq!(chain_rs_lib::hash::Hash::from_hex(""), None);
    assert_eq!(chain_rs_lib::hash::Hash::from_hex(&good[..62]), None);
    assert_eq!(chain_rs_lib::hash::Hash::from_hex(&good[..63]), None);
    assert_eq!(chain_rs_lib::hash::Hash::from_hex(&format!("{}00", good)), None);
    assert_eq!(chain_rs_lib::hash::Hash::from_hex(&good.replace('7', "g")), None);
    assert_eq!(chain_rs_lib::hash::Hash::from_hex(&good.replace("ba", " a")), None);
    let with_wide_char = format!("é{}", &good[2..]);
    assert_eq!(with_wide_char.len(), 64);
    assert_eq!(chain_rs_lib::hash::Hash::from_hex(&with_wide_char), None);
    let display_form = chain_rs_lib::hash::Hash::from_bytes(b"abc").to_string();
    assert_eq!(chain_rs_lib::hash::Hash::from_hex(&display_form), None);
}

#[test]
fn le_bytes_of_numbers() {
    let mut out = vec![9u8];
    push_le_bytes(&mut out, 258, 4);
    assert_eq!(out, vec![9, 2, 1, 0, 0]);
    push_le_bytes(&mut out, 7, 0);
    assert_eq!(out, vec![9, 2, 1, 0, 0]);
    let mut wide = Vec::new();
    push_le_bytes(&mut wide, u128::MAX - 1, 16);
    let mut expected = vec![0xffu8; 16];
    expected[0] = 0xfe;
    assert_eq!(wide, expected);
    let mut cut = Vec::new();
    push_le_bytes(&mut cut, 0x0102_0304, 2);
    assert_eq!(cut, vec![4, 3]);
}

#[test]
fn le_bytes_agree_with_std() {
    for x in [0u128, 1, 255, 256, 0x0123_4567_89ab_cdef, u128::MAX] {
        let mut out = Vec::new();
        push_le_bytes(&mut out, x, 16);
        assert_eq!(out, x.to_le_bytes().to_vec());
        assert_eq!(read_le(&out), x);
    }
}

#[test]
fn read_le_of_short_inputs() {
    assert_eq!(read_le(&[]), 0);
    assert_eq!(read_le(&[2, 1]), 258);
    assert_eq!(read_le(&[0, 0, 1]), 65536);
}

#[test]
fn decimal_text_of_numbers() {
    for n in [0u64, 7, 10, 99, 100, 12345, 1_700_000_000_123, u64::MAX] {
        let mut text = String::from("n=");
        push_decimal(&mut text, n);
        assert_eq!(text, format!("n={}", n));
    }
}

#[test]
fn timestamps_saturate() {
    assert_eq!(timestamp_from_millis(0), 0);
    assert_eq!(timestamp_from_millis(5), 5);
    assert_eq!(timestamp_from_millis(u64::MAX as u128), u64::MAX);
    assert_eq!(timestamp_from_millis(u64::MAX as u128 + 1), u64::MAX);
    assert_eq!(timestamp_from_millis(u128::MAX), u64::MAX);
}

#[test]
fn clock_readings_become_timestamps() {
    assert_eq!(timestamp_from_reading(None), 0);
    assert_eq!(timestamp_from_reading(Some(0)), 0);
    assert_eq!(timestamp_from_reading(Some(1_700_000_000_123)), 1_700_000_000_123);
    assert_eq!(timestamp_from_reading(Some(u128::MAX)), u64::MAX);
}
