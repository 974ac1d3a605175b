use chain_rs_lib::hash::Hashable;
use chain_rs_lib::Block;
use std::time::{SystemTime, UNIX_EPOCH};

fn now_millis() -> u64 {
    SystemTime::now().duration_since(UNIX_EPOCH).unwrap().as_millis() as u64
}

#[test]
fn test_field() {
    let timestamp = now_millis();
    let prev_hash = chain_rs_lib::hash::Hash::from_bytes("123".as_bytes());
    let payload = String::from("Hello world!");
    let block: Block = Block::new(timestamp, prev_hash, payload);

    assert_eq!(block.get_timestamp(), timestamp);
    assert_eq!(block.get_prev_hash(), prev_hash);
    assert_eq!(block.get_timestamp(), timestamp);
}

#[test]
fn test_hash() {
    let payload_str = "Hello world!";
    let timestamp = now_millis();
    let prev_hash = chain_rs_lib::hash::Hash::from_bytes("123".as_bytes());
    let payload = String::from(payload_str);
    let block: Block = Block::new(timestamp, prev_hash, payload);

    let mut block_bytes = vec![];

    block_bytes.extend(timestamp.to_le_bytes());
    block_bytes.extend(prev_hash.bytes());
    block_bytes.extend(payload_str.bytes());

    let expected_hash = chain_rs_lib::hash::Hash::from_bytes(&block_bytes);

    assert_eq!(expected_hash, block.get_hash());
}

#[test]
fn new_keeps_payload_and_seals() {
    let prev_hash = chain_rs_lib::hash::Hash::from_bytes(b"previous");
    let block = Block::new(1_700_000_000_123, prev_hash, "payload".to_string());
    assert_eq!(block.get_payload(), "payload");
    assert_eq!(block.get_hash(), block.make_hash());
    assert_ne!(block.get_hash(), chain_rs_lib::hash::Hash::default());
}

#[test]
fn canonical_bytes_are_timestamp_link_payload() {
    let prev_hash = chain_rs_lib::hash::Hash::from_bytes(b"previous");
    let block = Block::new(0x0102_0304_0506_0708, prev_hash, "héllo".to_string());
    let bytes = block.bytes();
    assert_eq!(bytes.len(), 8 + 32 + 6);
    assert_eq!(&bytes[0..8], &[8u8, 7, 6, 5, 4, 3, 2, 1]);
    assert_eq!(&bytes[8..40], prev_hash.bytes().as_slice());
    assert_eq!(&bytes[40..], "héllo".as_bytes());
}

#[test]
fn canonical_bytes_leave_the_stored_hash_out() {
    let prev_hash = chain_rs_lib::hash::Hash::from_bytes(b"previous");
    let sealed = Block::new(42, prev_hash, "data".to_string());
    let forged = Block::unchecked(42, prev_hash, chain_rs_lib::hash::Hash::default(), "data".to_string());
    assert_eq!(sealed.bytes(), forged.bytes());
    assert_eq!(sealed.get_hash(), forged.make_hash());
    assert_ne!(sealed, forged);
}

#[test]
fn new_is_deterministic() {
    let prev_hash = chain_rs_lib::hash::Hash::from_bytes(b"link");
    let a = Block::new(77, prev_hash, "same".to_string());
    let b = Block::new(77, prev_hash, "same".to_string());
    assert_eq!(a.get_hash(), b.get_hash());
    assert_eq!(a, b);
}

#[test]
fn hash_depends_on_every_part_of_the_content() {
    let link = chain_rs_lib::hash::Hash::from_bytes(b"link");
    let other_link = chain_rs_lib::hash::Hash::from_bytes(b"other link");
    let base = Block::new(77, link, "same".to_string());
    assert_ne!(base.get_hash(), Block::new(78, link, "same".to_string()).get_hash());
    assert_ne!(base.get_hash(), Block::new(77, other_link, "same".to_string()).get_hash());
    assert_ne!(base.get_hash(), Block::new(77, link, "Same".to_string()).get_hash());
}

#[test]
fn genesis_is_stable() {
    let a = Block::genesis();
    let b = Block::genesis();
    assert_eq!(a, b);
    assert_eq!(a.get_timestamp(), b.get_timestamp());
    assert_eq!(a.get_prev_hash(), b.get_prev_hash());
    assert_eq!(a.get_hash(), b.get_hash());
    assert_eq!(a.get_payload(), b.get_payload());
}

#[test]
fn genesis_has_the_fixed_content() {
    let genesis = Block::genesis();
    assert_eq!(genesis.get_timestamp(), 0);
    assert_eq!(genesis.get_prev_hash(), chain_rs_lib::hash::Hash::from_bytes(&[1]));
    assert_eq!(genesis.get_payload(), "Genesis block");

    let mut content = vec![0u8; 8];
    content.extend(chain_rs_lib::hash::Hash::from_bytes(&[1]).bytes());
    content.extend("Genesis block".bytes());
    assert_eq!(genesis.get_hash(), chain_rs_lib::hash::Hash::from_bytes(&content));
    assert_eq!(
        genesis.get_prev_hash().to_hex(),
        "4bf5122f344554c53bde2ebb8cd2b7e3d1600ad631c385a5d7cce23c7785459a"
    );
}

#[test]
fn mine_links_to_the_previous_block() {
    let genesis = Block::genesis();
    let before = now_millis();
    let mined = Block::mine(&genesis, "next".to_string());
    let after = now_millis();
    assert_eq!(mined.get_prev_hash(), genesis.get_hash());
    assert_eq!(mined.get_payload(), "next");
    assert_eq!(mined.get_hash(), mined.make_hash());
    assert!(before <= mined.get_timestamp() && mined.get_timestamp() <= after);
}

#[test]
fn unchecked_keeps_the_fields_as_given() {
    let link = chain_rs_lib::hash::Hash::from_bytes(b"a");
    let stored = chain_rs_lib::hash::Hash::from_bytes(b"b");
    let block = Block::unchecked(5, link, stored, "text".to_string());
    assert_eq!(block.get_timestamp(), 5);
    assert_eq!(block.get_prev_hash(), link);
    assert_eq!(block.get_hash(), stored);
    assert_eq!(block.get_payload(), "text");
    assert_ne!(block.get_hash(), block.make_hash());
}

#[test]
fn default_block_is_blank() {
    let block = Block::default();
    assert_eq!(block.get_timestamp(), 0);
    assert_eq!(block.get_prev_hash(), chain_rs_lib::hash::Hash::default());
    assert_eq!(block.get_hash(), chain_rs_lib::hash::Hash::default());
    assert_eq!(block.get_payload(), "");
}

#[test]
fn clone_is_equal() {
    let block = Block::new(9, chain_rs_lib::hash::Hash::default(), "copy me".to_string());
    let copy = block.clone();
    assert_eq!(block, copy);
    assert_eq!(copy.get_payload(), "copy me");
}

#[test]
fn equality_looks_at_every_field() {
    let link = chain_rs_lib::hash::Hash::from_bytes(b"a");
    let stored = chain_rs_lib::hash::Hash::from_bytes(b"b");
    let base = Block::unchecked(5, link, stored, "text".to_string());
    assert_eq!(base, Block::unchecked(5, link, stored, "text".to_string()));
    assert_ne!(base, Block::unchecked(6, link, stored, "text".to_string()));
    assert_ne!(base, Block::unchecked(5, stored, stored, "text".to_string()));
    assert_ne!(base, Block::unchecked(5, link, link, "text".to_string()));
    assert_ne!(base, Block::unchecked(5, link, stored, "texT".to_string()));
}

#[test]
fn block_text_has_one_line_for_each_field() {
    let zero = chain_rs_lib::hash::Hash::default();
    let block = Block::unchecked(1234567890, zero, zero, "some data".to_string());
    let zeros = "00000000000000000000000000000000 00000000000000000000000000000000";
    let expected = format!(
        "Block -\nTimestamp     : 1234567890\nPrevious hash : {}\nHash          : {}\nData          : some data\n",
        zeros, zeros
    );
    assert_eq!(block.to_string(), expected);
}
