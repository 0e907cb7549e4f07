use chrono::Utc;
use sha2::{Digest, Sha256};

use market_ledger::bench::{
    best_on_axis, count_with_integrity,
    trilemma_scores, BenchmarkTally, BlockOutcome, ConsensusComparisonResult, ProtocolKind,
    TrilemmaAxis, TrilemmaScores,
};
use market_ledger::block::{Block, MarketData};
use market_ledger::consensus::ConsensusRequirements;
use market_ledger::extract::{offline_price_cents, retry_action, status_failure, FetchFailure, RetryAction};
use market_ledger::host::{get_hostname, hostname_or_unknown};
use market_ledger::validator::{PriceReading, Transformer, Validator};

/// Reads a float price the way the driver does.
fn reading(price: f32) -> PriceReading {
    if price.is_nan() {
        PriceReading::NotANumber
    } else if price.is_infinite() {
        PriceReading::Infinite
    } else if price < 0.0 {
        PriceReading::Negative
    } else {
        PriceReading::Cents((price as f64 * 100.0).round() as u64)
    }
}

fn sample_block() -> Block {
    Block {
        index: 1,
        timestamp: 1234567890,
        data: vec![MarketData {
            asset: "BTC".to_string(),
            price_cents: 5_000_000,
            source: "Test".to_string(),
            timestamp: 1234567890,
        }],
        previous_hash: "0000_genesis".to_string(),
        hash: String::new(),
        nonce: 0,
    }
}

#[test]
fn test_validate_price_positive() {
    let validator = Validator::new();
    assert!(validator.validate_price(reading(50000.0)).is_ok());
}

#[test]
fn test_validate_price_negative() {
    let validator = Validator::new();
    assert!(validator.validate_price(reading(-100.0)).is_err());
}

#[test]
fn test_validate_price_nan() {
    let validator = Validator::new();
    assert!(validator.validate_price(reading(f32::NAN)).is_err());
}

#[test]
fn test_validate_price_infinity() {
    let validator = Validator::new();
    assert!(validator.validate_price(reading(f32::INFINITY)).is_err());
}

#[test]
fn test_validate_timestamp_valid() {
    let validator = Validator::new();
    let timestamp = Utc::now().timestamp();
    assert!(validator.validate_timestamp(timestamp).is_ok());
}

#[test]
fn test_validate_timestamp_negative() {
    let validator = Validator::new();
    assert!(validator.validate_timestamp(-1).is_err());
}

#[test]
fn test_validate_asset_symbol() {
    let validator = Validator::new();
    assert!(validator.validate_asset_symbol("BTC").is_ok());
    assert!(validator.validate_asset_symbol("").is_err());
}

#[test]
fn price_above_maximum_is_refused() {
    let validator = Validator::new().with_price_range(0, 10_000_000);
    assert!(validator.validate_price(PriceReading::Cents(10_000_000)).is_ok());
    let err = validator.validate_price(PriceReading::Cents(10_000_001)).unwrap_err();
    assert_eq!(err.field, "price");
    assert!(validator.validate_price(reading(f32::NEG_INFINITY)).is_err());
}

#[test]
fn timestamp_drift_and_symbol_length() {
    let validator = Validator::new();
    assert!(validator.validate_timestamp_at(1000, 4600).is_ok());
    assert!(validator.validate_timestamp_at(1000, 4601).is_err());
    assert_eq!(validator.validate_timestamp_at(-1, 0).unwrap_err().field, "timestamp");
    assert!(validator.validate_asset_symbol("ABCDEFGHIJ").is_ok());
    assert!(validator.validate_asset_symbol("ABCDEFGHIJK").is_err());
    assert!(validator.validate_source("").is_err());
}

#[test]
fn test_transformer_creation() {
    let transformer = Transformer::new();
    assert_eq!(transformer.deduplication_window_seconds(), 60);
}

#[test]
fn test_transformer_with_validator() {
    let validator = Validator::new()
        .with_price_range(0, 10_000_000)
        .with_timestamp_drift(86400);
    let transformer = Transformer::new().with_validator(validator);
    let timestamp = Utc::now().timestamp();
    assert!(transformer.transform(reading(50000.0), timestamp, "Test".to_string(), None).is_ok());
}

#[test]
fn test_transformer_with_deduplication_window() {
    let transformer = Transformer::new().with_deduplication_window(30);
    assert_eq!(transformer.deduplication_window_seconds(), 30);
}

#[test]
fn test_transform_valid_data() {
    let transformer = Transformer::new();
    let timestamp = Utc::now().timestamp();
    let result = transformer
        .transform(reading(50000.0), timestamp, "CoinGecko".to_string(), None)
        .unwrap();

    assert_eq!(result.asset, "BTC");
    assert_eq!(result.price_cents, 5_000_000);
    assert_eq!(result.source, "CoinGecko");
    assert_eq!(result.timestamp, timestamp);
    assert!(!result.is_deduplicated);
}

#[test]
fn test_transform_invalid_price() {
    let transformer = Transformer::new();
    let result = transformer.transform(reading(-100.0), 1234567890, "Test".to_string(), None);
    assert!(result.is_err());
}

#[test]
fn test_transform_invalid_timestamp() {
    let transformer = Transformer::new();
    let result = transformer.transform(reading(50000.0), -1, "Test".to_string(), None);
    assert!(result.is_err());
}

#[test]
fn test_transform_invalid_source() {
    let transformer = Transformer::new();
    let result = transformer.transform(reading(50000.0), 1234567890, "".to_string(), None);
    assert!(result.is_err());
}

#[test]
fn test_transform_deduplication_detected() {
    let validator = Validator::new().with_timestamp_drift(86400);
    let transformer = Transformer::new()
        .with_validator(validator)
        .with_deduplication_window(60);
    let timestamp = Utc::now().timestamp();

    let first = transformer
        .transform(reading(50000.0), timestamp, "Test".to_string(), None)
        .unwrap();
    assert!(!first.is_deduplicated);

    let second = transformer
        .transform(reading(50100.0), timestamp + 30, "Test".to_string(), Some(timestamp))
        .unwrap();
    assert!(second.is_deduplicated);
}

#[test]
fn test_transform_deduplication_not_detected() {
    let validator = Validator::new().with_timestamp_drift(86400);
    let transformer = Transformer::new()
        .with_validator(validator)
        .with_deduplication_window(60);
    let timestamp = Utc::now().timestamp();

    let result = transformer
        .transform(reading(50000.0), timestamp + 120, "Test".to_string(), Some(timestamp))
        .unwrap();
    assert!(!result.is_deduplicated);
}

#[test]
fn test_transform_result_fields() {
    let transformer = Transformer::new();
    let timestamp = Utc::now().timestamp();
    let result = transformer
        .transform(reading(50000.0), timestamp, "TestSource".to_string(), None)
        .unwrap();

    assert_eq!(result.asset, "BTC");
    assert_eq!(result.price_cents, 5_000_000);
    assert_eq!(result.source, "TestSource");
    assert_eq!(result.timestamp, timestamp);
    assert!(!result.is_deduplicated);
}

#[test]
fn transform_at_fixed_time() {
    let transformer = Transformer::new();
    let r = transformer
        .transform_at(PriceReading::Cents(123), 100, "S".to_string(), Some(40), 200)
        .unwrap();
    assert!(!r.is_deduplicated);
    let r = transformer
        .transform_at(PriceReading::Cents(123), 100, "S".to_string(), Some(40), 200)
        .map(|t| t.price_cents);
    assert_eq!(r.unwrap(), 123);
    let dup = transformer
        .transform_at(PriceReading::Cents(1), 100, "S".to_string(), Some(159), 200)
        .unwrap();
    assert!(dup.is_deduplicated);
    assert!(transformer
        .transform_at(PriceReading::Cents(1), 100, "S".to_string(), None, 3701)
        .is_err());
}

#[test]
fn test_block_hash_calculation() {
    let block = sample_block();

    let hash = block.calculate_hash();
    assert!(!hash.is_empty());
    assert_eq!(hash.len(), 64);
}

#[test]
fn test_block_hash_consistency() {
    let block1 = sample_block();

    let block2 = block1.clone();
    assert_eq!(block1.calculate_hash(), block2.calculate_hash());
}

#[test]
fn hash_text_layout_and_digest() {
    let block = sample_block();
    let text = block.hash_text();
    assert_eq!(
        text,
        "11234567890[{\"asset\":\"BTC\",\"price\":50000.00,\"source\":\"Test\",\"timestamp\":1234567890}]0000_genesis0"
    );
    let expected = format!("{:x}", Sha256::digest(text.as_bytes()));
    assert_eq!(block.calculate_hash(), expected);

    let mut changed = sample_block();
    changed.nonce = 1;
    assert_ne!(changed.calculate_hash(), block.calculate_hash());
    changed.calculate_hash_with_nonce();
    assert_eq!(changed.hash, changed.calculate_hash());
    assert_eq!(changed.index, 1);
}

#[test]
fn hash_text_of_negative_timestamp_and_odd_price() {
    let mut block = sample_block();
    block.timestamp = -5;
    block.data[0].price_cents = 7;
    block.data.push(MarketData {
        asset: "E\"T".to_string(),
        price_cents: 12345,
        source: "S".to_string(),
        timestamp: 0,
    });
    assert_eq!(
        block.hash_text(),
        "1-5[{\"asset\":\"BTC\",\"price\":0.07,\"source\":\"Test\",\"timestamp\":1234567890},{\"asset\":\"E\\\"T\",\"price\":123.45,\"source\":\"S\",\"timestamp\":0}]0000_genesis0"
    );
}

#[test]
fn retry_policy() {
    assert_eq!(status_failure(429), FetchFailure::RateLimited);
    assert_eq!(status_failure(403), FetchFailure::RateLimited);
    assert_eq!(status_failure(500), FetchFailure::HttpStatus);
    assert_eq!(retry_action(1, 3, FetchFailure::RateLimited), RetryAction::Retry { delay_ms: 1000 });
    assert_eq!(retry_action(2, 3, FetchFailure::RateLimited), RetryAction::Retry { delay_ms: 2000 });
    assert_eq!(retry_action(2, 3, FetchFailure::Decode), RetryAction::Retry { delay_ms: 1000 });
    assert_eq!(retry_action(1, 3, FetchFailure::Request), RetryAction::Retry { delay_ms: 500 });
    assert_eq!(retry_action(3, 3, FetchFailure::Request), RetryAction::GiveUp);
    assert_eq!(retry_action(100, 200, FetchFailure::RateLimited), RetryAction::Retry { delay_ms: u64::MAX });
}

#[test]
fn offline_price() {
    assert_eq!(offline_price_cents(1234567890), 5_000_000 + 8900);
    assert_eq!(offline_price_cents(1000), 5_000_000);
    assert_eq!(offline_price_cents(-1), 5_000_000 - 10);
}

#[test]
fn hostname_fallback() {
    assert_eq!(hostname_or_unknown(None), "unknown");
    assert_eq!(hostname_or_unknown(Some("box".to_string())), "box");
    assert!(!get_hostname().is_empty());
}

#[test]
fn tally_counts_latency_and_integrity() {
    let mut tally = BenchmarkTally::new();
    tally.record(BlockOutcome::Committed, 12, false);
    tally.record(BlockOutcome::Failed, 5, false);
    tally.record(BlockOutcome::Error, 30, false);
    assert_eq!(tally.total_blocks, 3);
    assert_eq!(tally.committed_blocks, 1);
    assert_eq!(tally.failed_blocks, 1);
    assert_eq!(tally.error_blocks, 1);
    assert_eq!(tally.min_latency_ms, 5);
    assert_eq!(tally.max_latency_ms, 30);
    assert_eq!(tally.total_latency_ms, 47);
    assert!(tally.data_integrity_maintained);
    tally.record(BlockOutcome::Error, 1, true);
    assert!(!tally.data_integrity_maintained);
    assert_eq!(tally.min_latency_ms, 1);
}

#[test]
fn comparison_record() {
    let req = ConsensusRequirements { requires_majority: false, min_nodes: None, description: String::new() };
    let r = ConsensusComparisonResult::from_outcome("X".to_string(), 4, BlockOutcome::Error, 9, req);
    assert!(!r.committed);
    assert!(r.error_occurred);
    assert!(!r.data_integrity);
    assert_eq!(r.block_index, 4);
}

#[test]
fn trilemma_sacrifice() {
    assert_eq!(trilemma_scores(ProtocolKind::Pbft).primary_sacrifice(), TrilemmaAxis::Scalability);
    assert_eq!(trilemma_scores(ProtocolKind::Gossip).primary_sacrifice(), TrilemmaAxis::Security);
    assert_eq!(trilemma_scores(ProtocolKind::Other).primary_sacrifice(), TrilemmaAxis::Scalability);
    let s = TrilemmaScores { decentralization: 1, security: 2, scalability: 2 };
    assert_eq!(s.primary_sacrifice(), TrilemmaAxis::Decentralization);
    let s = TrilemmaScores { decentralization: 2, security: 2, scalability: 3 };
    assert_eq!(s.primary_sacrifice(), TrilemmaAxis::Security);
}

#[test]
fn tallies_pool_across_rounds() {
    let mut a = BenchmarkTally::new();
    a.record(BlockOutcome::Committed, 10, false);
    a.record(BlockOutcome::Failed, 4, false);
    let mut b = BenchmarkTally::new();
    b.record(BlockOutcome::Committed, 2, false);
    b.record(BlockOutcome::Error, 20, true);
    let p = a.pool(&b);
    assert_eq!(p.total_blocks, 4);
    assert_eq!(p.committed_blocks, 2);
    assert_eq!(p.min_latency_ms, 2);
    assert_eq!(p.max_latency_ms, 20);
    assert_eq!(p.total_latency_ms, 36);
    assert!(!p.data_integrity_maintained);
    let empty = BenchmarkTally::new();
    let q = empty.pool(&a);
    assert_eq!(q.min_latency_ms, 4);
    assert_eq!(count_with_integrity(&vec![a, b, p]), 1);
}

#[test]
fn best_scores_on_each_axis() {
    let scores: Vec<TrilemmaScores> = [ProtocolKind::Pbft, ProtocolKind::Gossip, ProtocolKind::Eventual]
        .iter()
        .map(|k| trilemma_scores(*k))
        .collect();
    assert_eq!(best_on_axis(&scores, TrilemmaAxis::Security), Some(0));
    assert_eq!(best_on_axis(&scores, TrilemmaAxis::Scalability), Some(1));
    assert_eq!(best_on_axis(&scores, TrilemmaAxis::Decentralization), Some(1));
    assert_eq!(best_on_axis(&Vec::new(), TrilemmaAxis::Security), None);
}

#[test]
fn hash_text_escapes_control_characters() {
    let mut block = sample_block();
    block.data[0].source = "a\nb\u{1}\\".to_string();
    let text = block.hash_text();
    assert!(text.contains("\"source\":\"a\\nb\\u0001\\\\\""));
}
