use market_ledger::block::{Block, MarketData};
use market_ledger::store::{BlockStore, StoreError};

fn create_test_block(index: u64, previous_hash: &str) -> Block {
    let mut block = Block {
        index,
        timestamp: 1234567890 + index as i64,
        data: vec![MarketData {
            asset: "BTC".to_string(),
            price_cents: 5_000_000 + index * 100,
            source: "Test".to_string(),
            timestamp: 1234567890 + index as i64,
        }],
        previous_hash: previous_hash.to_string(),
        hash: String::new(),
        nonce: 0,
    };
    block.calculate_hash_with_nonce();
    block
}

fn chain(n: u64) -> Vec<Block> {
    let mut blocks = Vec::new();
    let mut prev_hash = "0000_genesis".to_string();
    for i in 1..=n {
        let block = create_test_block(i, &prev_hash);
        prev_hash = block.hash.clone();
        blocks.push(block);
    }
    blocks
}

#[test]
fn test_save_and_get_block_by_index() {
    let mut db = BlockStore::new();

    let block = create_test_block(1, "0000_genesis");
    db.save_block(&block).unwrap();

    let retrieved = db.get_block_by_index(1).unwrap();
    assert_eq!(retrieved.index, 1);
    assert_eq!(retrieved.hash, block.hash);
}

#[test]
fn test_get_block_by_hash() {
    let mut db = BlockStore::new();

    let block = create_test_block(1, "0000_genesis");
    db.save_block(&block).unwrap();

    let retrieved = db.get_block_by_hash(&block.hash).unwrap();
    assert_eq!(retrieved.index, 1);
    assert_eq!(retrieved.hash, block.hash);

    // Test not found
    let result = db.get_block_by_hash("nonexistent_hash");
    assert!(result.is_err());
}

#[test]
fn test_get_latest_block() {
    let mut db = BlockStore::new();

    // Empty database
    let latest = db.get_latest_block();
    assert!(latest.is_none());

    // Add blocks
    let block1 = create_test_block(1, "0000_genesis");
    db.save_block(&block1).unwrap();

    let latest = db.get_latest_block();
    assert!(latest.is_some());
    assert_eq!(latest.unwrap().index, 1);

    let block2 = create_test_block(2, &block1.hash);
    db.save_block(&block2).unwrap();

    let latest = db.get_latest_block();
    assert!(latest.is_some());
    assert_eq!(latest.unwrap().index, 2);
}

#[test]
fn test_query_latest_blocks() {
    let mut db = BlockStore::new();

    let block1 = create_test_block(1, "0000_genesis");
    let block2 = create_test_block(2, &block1.hash);
    let block3 = create_test_block(3, &block2.hash);

    db.save_block(&block1).unwrap();
    db.save_block(&block2).unwrap();
    db.save_block(&block3).unwrap();

    let blocks = db.query_latest_blocks(2);
    assert_eq!(blocks.len(), 2);
    assert_eq!(blocks[0].index, 3); // Latest first
    assert_eq!(blocks[1].index, 2);
}

#[test]
fn test_get_blocks_range() {
    let mut db = BlockStore::new();

    for block in chain(5) {
        db.save_block(&block).unwrap();
    }

    let blocks = db.get_blocks_range(2, 4);
    assert_eq!(blocks.len(), 3);
    assert_eq!(blocks[0].index, 2);
    assert_eq!(blocks[1].index, 3);
    assert_eq!(blocks[2].index, 4);
}

#[test]
fn test_save_blocks_batch() {
    let mut db = BlockStore::new();

    let blocks = chain(3);

    let saved = db.save_blocks(&blocks).unwrap();
    assert_eq!(saved, 3);

    let count = db.get_block_count();
    assert_eq!(count, 3);
}

#[test]
fn test_verify_chain_valid() {
    let mut db = BlockStore::new();

    for block in chain(3) {
        db.save_block(&block).unwrap();
    }

    let is_valid = db.verify_chain();
    assert!(is_valid);
}

#[test]
fn test_verify_chain_invalid() {
    let mut db = BlockStore::new();

    let block1 = create_test_block(1, "0000_genesis");
    db.save_block(&block1).unwrap();

    // Create block with wrong previous hash
    let block2 = create_test_block(2, "wrong_hash");
    db.save_block(&block2).unwrap();

    let is_valid = db.verify_chain();
    assert!(!is_valid);
}

#[test]
fn test_delete_block() {
    let mut db = BlockStore::new();

    let block = create_test_block(1, "0000_genesis");
    db.save_block(&block).unwrap();

    assert_eq!(db.get_block_count(), 1);

    let deleted = db.delete_block(1);
    assert!(deleted);

    assert_eq!(db.get_block_count(), 0);

    let deleted = db.delete_block(999);
    assert!(!deleted);
}

#[test]
fn test_get_stats() {
    let mut db = BlockStore::new();

    // Empty database
    let stats = db.get_stats();
    assert_eq!(stats.total_blocks, 0);
    assert!(stats.min_index.is_none());
    assert!(stats.max_index.is_none());

    // Add blocks
    for block in chain(3) {
        db.save_block(&block).unwrap();
    }

    let stats = db.get_stats();
    assert_eq!(stats.total_blocks, 3);
    assert_eq!(stats.min_index, Some(1));
    assert_eq!(stats.max_index, Some(3));
    assert!(stats.min_timestamp.is_some());
    assert!(stats.max_timestamp.is_some());
}

#[test]
fn empty_store_has_no_latest_and_verifies() {
    let db = BlockStore::new();
    assert!(db.get_latest_block().is_none());
    assert!(db.verify_chain());
    assert!(db.query_latest_blocks(5).is_empty());
    assert!(matches!(db.get_block_by_index(0), Err(StoreError::NotFound)));
}

#[test]
fn chain_corruption_is_detected() {
    let mut db = BlockStore::new();
    let blocks = chain(2);
    db.save_block(&blocks[0]).unwrap();
    db.save_block(&blocks[1]).unwrap();
    assert!(db.verify_chain());
    let block3 = create_test_block(3, "wrong_hash");
    db.save_block(&block3).unwrap();
    assert!(!db.verify_chain());
}

#[test]
fn tampered_hash_is_detected() {
    let mut db = BlockStore::new();
    let mut blocks = chain(2);
    blocks[1].nonce = 5;
    db.save_blocks(&blocks).unwrap();
    assert!(!db.verify_chain());
}

#[test]
fn save_then_fetch_returns_identical_block() {
    let mut db = BlockStore::new();
    let blocks = chain(3);
    db.save_block(&blocks[2]).unwrap();
    db.save_block(&blocks[0]).unwrap();
    let by_index = db.get_block_by_index(3).unwrap();
    let by_hash = db.get_block_by_hash(&blocks[2].hash).unwrap();
    for b in [by_index, by_hash] {
        assert_eq!(b.index, blocks[2].index);
        assert_eq!(b.timestamp, blocks[2].timestamp);
        assert_eq!(b.previous_hash, blocks[2].previous_hash);
        assert_eq!(b.hash, blocks[2].hash);
        assert_eq!(b.nonce, blocks[2].nonce);
        assert_eq!(b.data.len(), 1);
        assert_eq!(b.data[0].price_cents, blocks[2].data[0].price_cents);
        assert_eq!(b.data[0].asset, blocks[2].data[0].asset);
    }
    // Kept in index order whatever the order of saving.
    let all = db.get_blocks_range(0, u64::MAX);
    assert_eq!(all.iter().map(|b| b.index).collect::<Vec<_>>(), vec![1, 3]);
}

#[test]
fn duplicate_index_or_hash_is_refused() {
    let mut db = BlockStore::new();
    let blocks = chain(2);
    db.save_block(&blocks[0]).unwrap();
    assert!(matches!(db.save_block(&blocks[0]), Err(StoreError::DuplicateIndex)));
    let mut same_hash = blocks[1].clone();
    same_hash.hash = blocks[0].hash.clone();
    assert!(matches!(db.save_block(&same_hash), Err(StoreError::DuplicateHash)));
    assert_eq!(db.get_block_count(), 1);
}

#[test]
fn batch_is_all_or_nothing() {
    let mut db = BlockStore::new();
    let blocks = chain(3);
    db.save_block(&blocks[1]).unwrap();
    assert!(db.save_blocks(&blocks).is_err());
    assert_eq!(db.get_block_count(), 1);
}
