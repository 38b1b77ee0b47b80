use blockchain::block::Block;
use blockchain::codec::{decode_block, encode_block};
use blockchain::errors::Error;
use blockchain::transaction::Transaction;

#[test]
fn mined_block_validates() {
    let b = Block::mine(String::new(), "payload".to_string(), 0, 2, 12345).unwrap();
    assert!(b.validate(2));
}

#[test]
fn tampered_block_fails_validation() {
    let b = Block::mine(String::new(), "payload".to_string(), 0, 1, 12345).unwrap();
    let mut tampered = b.clone();
    tampered.transactions = "other".to_string();
    assert!(!tampered.validate(1));
}

#[test]
fn mining_is_deterministic() {
    let b1 = Block::mine("ab".to_string(), "same".to_string(), 3, 2, 777).unwrap();
    let b2 = Block::mine("ab".to_string(), "same".to_string(), 3, 2, 777).unwrap();
    assert_eq!(b1, b2);
    assert_eq!(b1.get_hash(), b2.get_hash());
}

#[test]
fn mined_hash_is_hex_with_leading_zeros() {
    let b = Block::mine(String::new(), "x".to_string(), 0, 2, 1).unwrap();
    let h = b.get_hash();
    assert_eq!(h.len(), 64);
    assert!(h.chars().all(|c| c.is_ascii_hexdigit() && !c.is_ascii_uppercase()));
    assert!(h.starts_with("00"));
}

#[test]
fn genesis_block_invariants() {
    let g = Block::new_genesis_block("seed".to_string()).unwrap();
    assert_eq!(g.get_height(), 0);
    assert_eq!(g.get_prev_hash(), "");
    assert_eq!(g.get_transactions(), "seed");
    assert!(g.validate(blockchain::block::DEFAULT_DIFFICULTY));
}

#[test]
fn codec_round_trip_block() {
    let b = Block::mine("ff00".to_string(), "some payload".to_string(), 9, 1, 98765).unwrap();
    let bytes = encode_block(&b);
    let back = decode_block(bytes.as_slice()).unwrap();
    assert_eq!(back, b);
}

#[test]
fn codec_round_trip_bytes() {
    let b = Block::mine(String::new(), "p".to_string(), 1, 1, 2).unwrap();
    let bytes = encode_block(&b);
    let back = decode_block(bytes.as_slice()).unwrap();
    let again = encode_block(&back);
    assert_eq!(bytes, again);
}

#[test]
fn decode_rejects_corrupt_bytes() {
    match decode_block(&[]) {
        Err(Error::SerializationError) => {}
        other => panic!("expected SerializationError, got {:?}", other),
    }
    match decode_block(&[9u8, 1, 2, 3]) {
        Err(Error::SerializationError) => {}
        other => panic!("expected SerializationError, got {:?}", other),
    }
    let b = Block::mine(String::new(), "p".to_string(), 0, 1, 3).unwrap();
    let mut bytes = encode_block(&b);
    bytes.pop();
    match decode_block(bytes.as_slice()) {
        Err(Error::SerializationError) => {}
        other => panic!("expected SerializationError, got {:?}", other),
    }
}

#[test]
fn coinbase_fills_empty_data_with_reward_note() {
    let tx = Transaction::new_coinbase("addr1".to_string(), String::new()).unwrap();
    assert_eq!(tx.id, "");
    assert_eq!(tx.vin.len(), 1);
    assert_eq!(tx.vin[0].txid, "");
    assert_eq!(tx.vin[0].vout, -1);
    assert_eq!(tx.vin[0].script_sig, "Reward to 'addr1'");
    assert_eq!(tx.vout.len(), 1);
    assert_eq!(tx.vout[0].value, 100);
    assert_eq!(tx.vout[0].script_pub_key, "addr1");
}

#[test]
fn coinbase_keeps_given_data() {
    let tx = Transaction::new_coinbase("addr2".to_string(), "note".to_string()).unwrap();
    assert_eq!(tx.vin[0].script_sig, "note");
    assert_eq!(tx.vout[0].script_pub_key, "addr2");
}
