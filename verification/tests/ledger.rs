use blockchain::blockchain::Blockchain;
use blockchain::errors::Error;

/// Empties the tree at `path` so each test starts from a blank store.
fn reset(path: &str) {
    let db = sled::open(path).unwrap();
    db.clear().unwrap();
    db.flush().unwrap();
}

#[test]
fn test_blockchain() {
    let path = "/tmp/blockchain_kvtest/test_blockchain";
    reset(path);
    {
        Blockchain::create_blockchain(path, "Genesis".to_string(), 1).unwrap();
    }
    let mut b = Blockchain::new(path).unwrap();
    let _ = b.add_block("data".to_string(), 1);
    let _ = b.add_block("data2".to_string(), 1);
    let _ = b.add_block("data3".to_string(), 1);

    let mut it = b.iter();
    loop {
        match it.next() {
            Ok(Some(item)) => println!("item {:?}", item),
            Ok(None) => break,
            Err(e) => panic!("broken chain: {:?}", e),
        }
    }
}

#[test]
fn scenario_three_blocks() {
    let path = "/tmp/blockchain_kvtest/scenario_three_blocks";
    reset(path);
    let mut bc = Blockchain::create_blockchain(path, "Reward to 'addr1'".to_string(), 1).unwrap();
    let genesis_hash = bc.tip();
    let genesis = bc.get(&genesis_hash).unwrap().unwrap();
    assert_eq!(genesis.get_height(), 0);
    assert_eq!(genesis.get_prev_hash(), "");
    assert_eq!(genesis.get_transactions(), "Reward to 'addr1'");

    let b1 = bc.add_block("data1".to_string(), 1).unwrap();
    assert_eq!(b1.get_height(), 1);
    assert_eq!(b1.get_prev_hash(), genesis_hash);
    assert_eq!(bc.tip(), b1.get_hash());

    let b2 = bc.add_block("data2".to_string(), 1).unwrap();
    assert_eq!(b2.get_height(), 2);
    assert_eq!(b2.get_prev_hash(), b1.get_hash());
    assert_eq!(bc.tip(), b2.get_hash());

    let all = bc.blocks().unwrap();
    assert_eq!(all.len(), 3);
    assert_eq!(all[0].get_height(), 2);
    assert_eq!(all[1].get_height(), 1);
    assert_eq!(all[2].get_height(), 0);
    assert_eq!(all[2].get_prev_hash(), "");
    assert_eq!(all[0].get_transactions(), "data2");
    assert_eq!(all[1].get_transactions(), "data1");
}

#[test]
fn reopen_keeps_chain() {
    let path = "/tmp/blockchain_kvtest/reopen_keeps_chain";
    reset(path);
    let tip_before;
    {
        let mut bc = Blockchain::create_blockchain(path, "g".to_string(), 1).unwrap();
        bc.add_block("one".to_string(), 1).unwrap();
        tip_before = bc.tip();
    }
    let bc = Blockchain::new(path).unwrap();
    assert_eq!(bc.tip(), tip_before);
    let all = bc.blocks().unwrap();
    assert_eq!(all.len(), 2);
}

#[test]
fn open_uninitialized_store_fails() {
    let path = "/tmp/blockchain_kvtest/open_uninitialized";
    reset(path);
    match Blockchain::new(path) {
        Err(Error::Uninitialized) => {}
        other => panic!("expected Uninitialized, got {:?}", other.map(|_| ())),
    }
}

#[test]
fn create_twice_fails() {
    let path = "/tmp/blockchain_kvtest/create_twice";
    reset(path);
    {
        Blockchain::create_blockchain(path, "g".to_string(), 1).unwrap();
    }
    match Blockchain::create_blockchain(path, "g".to_string(), 1) {
        Err(Error::AlreadyInitialized) => {}
        other => panic!("expected AlreadyInitialized, got {:?}", other.map(|_| ())),
    }
}

#[test]
fn deleted_tip_record_is_integrity_error() {
    let path = "/tmp/blockchain_kvtest/deleted_tip_record";
    reset(path);
    let tip;
    {
        let mut bc = Blockchain::create_blockchain(path, "g".to_string(), 1).unwrap();
        bc.add_block("one".to_string(), 1).unwrap();
        tip = bc.tip();
    }
    {
        let db = sled::open(path).unwrap();
        db.remove(tip.as_bytes()).unwrap();
        db.flush().unwrap();
    }
    match Blockchain::new(path) {
        Err(Error::ChainIntegrityError) => {}
        other => panic!("expected ChainIntegrityError, got {:?}", other.map(|_| ())),
    }
}

#[test]
fn corrupt_tip_record_is_serialization_error() {
    let path = "/tmp/blockchain_kvtest/corrupt_tip_record";
    reset(path);
    let tip;
    {
        let bc = Blockchain::create_blockchain(path, "g".to_string(), 1).unwrap();
        tip = bc.tip();
    }
    {
        let db = sled::open(path).unwrap();
        db.insert(tip.as_bytes(), &[7u8, 7, 7][..]).unwrap();
        db.flush().unwrap();
    }
    match Blockchain::new(path) {
        Err(Error::SerializationError) => {}
        other => panic!("expected SerializationError, got {:?}", other.map(|_| ())),
    }
}

#[test]
fn broken_parent_link_is_integrity_error() {
    let path = "/tmp/blockchain_kvtest/broken_parent_link";
    reset(path);
    let genesis_hash;
    {
        let mut bc = Blockchain::create_blockchain(path, "g".to_string(), 1).unwrap();
        genesis_hash = bc.tip();
        bc.add_block("one".to_string(), 1).unwrap();
    }
    {
        let db = sled::open(path).unwrap();
        db.remove(genesis_hash.as_bytes()).unwrap();
        db.flush().unwrap();
    }
    match Blockchain::new(path) {
        Err(Error::ChainIntegrityError) => {}
        other => panic!("expected ChainIntegrityError, got {:?}", other.map(|_| ())),
    }
}

#[test]
fn iterator_ends_with_none_after_genesis() {
    let path = "/tmp/blockchain_kvtest/iterator_ends_with_none";
    reset(path);
    let mut bc = Blockchain::create_blockchain(path, "g".to_string(), 1).unwrap();
    bc.add_block("one".to_string(), 1).unwrap();
    let mut it = bc.iter();
    let first = it.next().unwrap().unwrap();
    assert_eq!(first.get_height(), 1);
    let last = it.next().unwrap().unwrap();
    assert_eq!(last.get_height(), 0);
    assert_eq!(last.get_prev_hash(), "");
    assert!(it.next().unwrap().is_none());
    assert!(it.next().unwrap().is_none());
}

#[test]
fn traversal_lookup_miss_is_integrity_error() {
    let path = "/tmp/blockchain_kvtest/traversal_lookup_miss";
    reset(path);
    let bc = Blockchain::create_blockchain(path, "g".to_string(), 1).unwrap();
    let missing = "1111111111111111111111111111111111111111111111111111111111111111";
    let mut it = blockchain::blockchain::BlockchainIter {
        current_hash: missing.to_string(),
        bc: &bc,
    };
    match it.next() {
        Err(Error::ChainIntegrityError) => {}
        other => panic!("expected ChainIntegrityError, got {:?}", other),
    }
}

#[test]
fn traversal_corrupt_record_is_serialization_error() {
    let path = "/tmp/blockchain_kvtest/traversal_corrupt_record";
    reset(path);
    let stray = "2222222222222222222222222222222222222222222222222222222222222222";
    {
        let bc = Blockchain::create_blockchain(path, "g".to_string(), 1).unwrap();
        drop(bc);
        let db = sled::open(path).unwrap();
        db.insert(stray.as_bytes(), &[9u8, 9, 9][..]).unwrap();
        db.flush().unwrap();
    }
    let bc = Blockchain::new(path).unwrap();
    let mut it = blockchain::blockchain::BlockchainIter {
        current_hash: stray.to_string(),
        bc: &bc,
    };
    match it.next() {
        Err(Error::SerializationError) => {}
        other => panic!("expected SerializationError, got {:?}", other),
    }
}

#[test]
fn get_unknown_hash_is_none() {
    let path = "/tmp/blockchain_kvtest/get_unknown_hash";
    reset(path);
    let bc = Blockchain::create_blockchain(path, "g".to_string(), 1).unwrap();
    let missing = "0000000000000000000000000000000000000000000000000000000000000000";
    assert!(bc.get(missing).unwrap().is_none());
}
