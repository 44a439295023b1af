use rust_eth_mempool_lab::models::{RawBlock, RawTx};
use rust_eth_mempool_lab::normalize::{
    narrow_to_i64, narrow_to_i64_lossy, normalize_block, normalize_pending_tx, normalize_tx,
    recent_block_range,
};

fn raw_tx(
    hash: &str,
    from: &str,
    to: Option<&str>,
    value: &str,
    gas: u128,
    nonce: u128,
    gas_price: Option<&str>,
    max_fee: Option<&str>,
) -> RawTx {
    RawTx {
        hash: hash.to_string(),
        from: from.to_string(),
        to: to.map(|s| s.to_string()),
        value_wei: value.to_string(),
        gas,
        gas_price_wei: gas_price.map(|s| s.to_string()),
        max_fee_per_gas_wei: max_fee.map(|s| s.to_string()),
        nonce,
    }
}

#[test]
fn normalize_legacy_tx_sets_gas_price() {
    let tx = raw_tx(
        "0x0000000000000000000000000000000000000000000000000000000000000001",
        "0x0000000000000000000000000000000000000002",
        Some("0x0000000000000000000000000000000000000003"),
        "42",
        21_000,
        7,
        Some("1000"),
        None,
    );
    let normalized = normalize_tx(tx, 10, 1234);
    assert_eq!(normalized.gas_price_wei, Some("1000".to_string()));
    assert_eq!(normalized.max_fee_per_gas_wei, None);
}

#[test]
fn normalize_eip1559_tx_sets_max_fee() {
    let tx = raw_tx(
        "0x0000000000000000000000000000000000000000000000000000000000000005",
        "0x0000000000000000000000000000000000000006",
        Some("0x0000000000000000000000000000000000000007"),
        "99",
        30_000,
        8,
        None,
        Some("2000000000"),
    );
    let normalized = normalize_tx(tx, 11, 4567);
    assert_eq!(
        normalized.max_fee_per_gas_wei,
        Some("2000000000".to_string())
    );
    assert_eq!(normalized.gas_price_wei, None);
}

#[test]
fn normalize_pending_tx_sets_block_fields_none() {
    let tx = raw_tx(
        "0x0000000000000000000000000000000000000000000000000000000000000009",
        "0x000000000000000000000000000000000000000a",
        None,
        "123",
        50_000,
        3,
        Some("5000"),
        None,
    );
    let normalized = normalize_pending_tx(tx);
    assert_eq!(normalized.block_number, None);
    assert_eq!(normalized.timestamp, None);
    assert_eq!(normalized.gas_price_wei, Some("5000".to_string()));
}

#[test]
fn fee_market_tx_with_both_raw_fields_drops_gas_price() {
    let tx = raw_tx("0xh", "0xf", None, "0", 1, 1, Some("7"), Some("9"));
    let normalized = normalize_pending_tx(tx);
    assert_eq!(normalized.gas_price_wei, None);
    assert_eq!(normalized.max_fee_per_gas_wei, Some("9".to_string()));
}

#[test]
fn tx_with_neither_pricing_field_keeps_both_absent() {
    let tx = raw_tx("0xh", "0xf", None, "0", 1, 1, None, None);
    let normalized = normalize_tx(tx, 1, 1);
    assert_eq!(normalized.gas_price_wei, None);
    assert_eq!(normalized.max_fee_per_gas_wei, None);
}

#[test]
fn confirmed_tx_carries_both_block_fields() {
    let tx = raw_tx("0xh", "0xf", Some("0xt"), "5", 21_000, 2, Some("10"), None);
    let normalized = normalize_tx(tx, 77, 1_700_000_000);
    assert_eq!(normalized.block_number, Some(77));
    assert_eq!(normalized.timestamp, Some(1_700_000_000));
    assert_eq!(normalized.hash, "0xh".to_string());
    assert_eq!(normalized.from, "0xf".to_string());
    assert_eq!(normalized.to, Some("0xt".to_string()));
    assert_eq!(normalized.value_wei, "5".to_string());
    assert_eq!(normalized.gas, 21_000);
    assert_eq!(normalized.nonce, 2);
    assert_eq!(normalized.status, None);
}

#[test]
fn gas_and_nonce_saturate_to_i64_max() {
    let tx = raw_tx("0xh", "0xf", None, "0", u128::MAX, (i64::MAX as u128) + 1, None, None);
    let normalized = normalize_pending_tx(tx);
    assert_eq!(normalized.gas, i64::MAX);
    assert_eq!(normalized.nonce, i64::MAX);
}

#[test]
fn narrowing_boundaries() {
    assert_eq!(narrow_to_i64(i64::MAX as u128), Some(i64::MAX));
    assert_eq!(narrow_to_i64((i64::MAX as u128) + 1), None);
    assert_eq!(narrow_to_i64(0), Some(0));
    assert_eq!(narrow_to_i64_lossy((i64::MAX as u128) + 1), i64::MAX);
    assert_eq!(narrow_to_i64_lossy(42), 42);
}

#[test]
fn normalize_block_requires_number_and_hash() {
    let no_number = RawBlock {
        number: None,
        hash: Some("0xb".to_string()),
        timestamp: 5,
        transactions: Vec::new(),
    };
    assert!(normalize_block(no_number).is_none());
    let no_hash = RawBlock { number: Some(1), hash: None, timestamp: 5, transactions: Vec::new() };
    assert!(normalize_block(no_hash).is_none());
}

#[test]
fn normalize_block_normalizes_inline_transactions() {
    let block = RawBlock {
        number: Some(12),
        hash: Some("0xblock".to_string()),
        timestamp: 999,
        transactions: vec![
            raw_tx("0xa", "0x1", None, "1", 21_000, 0, Some("100"), None),
            raw_tx("0xb", "0x2", Some("0x3"), "2", 30_000, 1, None, Some("200")),
        ],
    };
    let (info, txs) = normalize_block(block).unwrap();
    assert_eq!(info.number, 12);
    assert_eq!(info.hash, "0xblock".to_string());
    assert_eq!(info.timestamp, 999);
    assert_eq!(txs.len(), 2);
    assert_eq!(txs[0].block_number, Some(12));
    assert_eq!(txs[0].timestamp, Some(999));
    assert_eq!(txs[0].gas_price_wei, Some("100".to_string()));
    assert_eq!(txs[1].gas_price_wei, None);
    assert_eq!(txs[1].max_fee_per_gas_wei, Some("200".to_string()));
}

#[test]
fn recent_block_range_windows() {
    assert_eq!(recent_block_range(10, 3), Some((8, 10)));
    assert_eq!(recent_block_range(10, 0), None);
    assert_eq!(recent_block_range(2, 5), Some((0, 2)));
    assert_eq!(recent_block_range(7, 1), Some((7, 7)));
    assert_eq!(recent_block_range(0, 1), Some((0, 0)));
}
