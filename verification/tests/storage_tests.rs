use rust_eth_mempool_lab::models::{BlockInfo, NormalizedTx};
use rust_eth_mempool_lab::storage::Storage;

fn tx(hash: &str, from: &str, block: Option<i64>, ts: Option<i64>, gas_price: Option<&str>) -> NormalizedTx {
    NormalizedTx {
        hash: hash.to_string(),
        from: from.to_string(),
        to: None,
        value_wei: "0".to_string(),
        gas: 21_000,
        gas_price_wei: gas_price.map(|s| s.to_string()),
        max_fee_per_gas_wei: None,
        nonce: 0,
        block_number: block,
        timestamp: ts,
        status: None,
    }
}

fn block(number: i64, ts: i64) -> BlockInfo {
    BlockInfo { number, hash: format!("0xb{}", number), timestamp: ts }
}

#[test]
fn reinserting_known_hash_is_a_no_op() {
    let mut store = Storage::new();
    let batch = vec![
        tx("0xtx1", "0xaaa", Some(1), Some(100), Some("1000")),
        tx("0xtx2", "0xbbb", Some(1), Some(101), Some("2000")),
    ];
    store.insert_block(&block(1, 100));
    store.insert_transactions(&batch);
    assert_eq!(store.tx_count(), 2);
    let before: Vec<NormalizedTx> = store.get_recent_transactions(10);

    let mut duplicate = vec![tx("0xtx1", "0xzzz", Some(9), Some(999), Some("777"))];
    store.insert_transactions(&duplicate);
    assert_eq!(store.tx_count(), 2);
    duplicate = batch.clone();
    store.insert_transactions(&duplicate);
    assert_eq!(store.tx_count(), 2);

    let after: Vec<NormalizedTx> = store.get_recent_transactions(10);
    assert_eq!(before.len(), after.len());
    for (a, b) in before.iter().zip(after.iter()) {
        assert_eq!(a.hash, b.hash);
        assert_eq!(a.from, b.from);
        assert_eq!(a.value_wei, b.value_wei);
        assert_eq!(a.gas_price_wei, b.gas_price_wei);
        assert_eq!(a.block_number, b.block_number);
        assert_eq!(a.timestamp, b.timestamp);
    }
}

#[test]
fn duplicate_hash_within_one_batch_keeps_first() {
    let mut store = Storage::new();
    let batch = vec![
        tx("0xsame", "0xfirst", None, None, None),
        tx("0xsame", "0xsecond", None, None, None),
    ];
    store.insert_transactions(&batch);
    assert_eq!(store.tx_count(), 1);
    let rows = store.get_recent_transactions(10);
    assert_eq!(rows[0].from, "0xfirst".to_string());
}

#[test]
fn reinserting_known_block_number_is_a_no_op() {
    let mut store = Storage::new();
    store.insert_block(&block(5, 500));
    assert_eq!(store.block_count(), 1);
    store.insert_block(&BlockInfo { number: 5, hash: "0xother".to_string(), timestamp: 1 });
    assert_eq!(store.block_count(), 1);
    store.insert_block(&block(6, 600));
    assert_eq!(store.block_count(), 2);
}

#[test]
fn recent_transactions_orders_newest_first_and_pending_last() {
    let mut store = Storage::new();
    store.insert_block(&block(1, 100));
    store.insert_block(&block(2, 200));
    store.insert_transactions(&vec![
        tx("0xold", "0xaaa", Some(1), Some(100), None),
        tx("0xpending", "0xbbb", None, None, None),
        tx("0xnew", "0xccc", Some(2), Some(200), None),
    ]);
    let rows = store.get_recent_transactions(10);
    assert_eq!(rows.len(), 3);
    assert_eq!(rows[0].hash, "0xnew".to_string());
    assert_eq!(rows[1].hash, "0xold".to_string());
    assert_eq!(rows[2].hash, "0xpending".to_string());

    let capped = store.get_recent_transactions(2);
    assert_eq!(capped.len(), 2);
    assert_eq!(capped[0].hash, "0xnew".to_string());
}

#[test]
fn top_senders_orders_by_count_and_caps() {
    let mut store = Storage::new();
    store.insert_transactions(&vec![
        tx("0x1", "0xa", None, None, None),
        tx("0x2", "0xa", None, None, None),
        tx("0x3", "0xa", None, None, None),
        tx("0x4", "0xb", None, None, None),
        tx("0x5", "0xc", None, None, None),
    ]);
    let top = store.get_top_senders(2);
    assert_eq!(top.len(), 2);
    assert_eq!(top[0].address, "0xa".to_string());
    assert_eq!(top[0].count, 3);
    assert_eq!(top[1].count, 1);
    assert!(top[1].address == "0xb".to_string() || top[1].address == "0xc".to_string());
}

#[test]
fn top_senders_on_empty_store_is_empty() {
    let store = Storage::new();
    assert!(store.get_top_senders(5).is_empty());
}

#[test]
fn gas_stats_exact_values() {
    let mut store = Storage::new();
    store.insert_block(&block(1, 100));
    store.insert_block(&block(2, 200));
    store.insert_transactions(&vec![
        tx("0x1", "0xa", Some(1), Some(100), Some("1000")),
        tx("0x2", "0xb", Some(2), Some(200), Some("2000")),
    ]);
    let stats = store.get_gas_stats(10).unwrap();
    assert_eq!(stats.min, 1000);
    assert_eq!(stats.max, 2000);
    assert_eq!(stats.avg, 1500);
    assert!(stats.min <= stats.avg && stats.avg <= stats.max);
}

#[test]
fn gas_stats_average_uses_integer_quotient() {
    let mut store = Storage::new();
    store.insert_block(&block(1, 100));
    store.insert_transactions(&vec![
        tx("0x1", "0xa", Some(1), Some(100), Some("1000")),
        tx("0x2", "0xb", Some(1), Some(100), Some("2001")),
    ]);
    let stats = store.get_gas_stats(5).unwrap();
    assert_eq!(stats.min, 1000);
    assert_eq!(stats.max, 2001);
    assert_eq!(stats.avg, 1500);
}

#[test]
fn gas_stats_restricts_to_last_n_blocks() {
    let mut store = Storage::new();
    store.insert_block(&block(1, 100));
    store.insert_block(&block(2, 200));
    store.insert_transactions(&vec![
        tx("0x1", "0xa", Some(1), Some(100), Some("111")),
        tx("0x2", "0xb", Some(2), Some(200), Some("999")),
    ]);
    let stats = store.get_gas_stats(1).unwrap();
    assert_eq!(stats.min, 999);
    assert_eq!(stats.max, 999);
    assert_eq!(stats.avg, 999);
}

#[test]
fn gas_stats_has_no_data_when_nothing_qualifies() {
    let mut store = Storage::new();
    store.insert_block(&block(1, 100));
    store.insert_transactions(&vec![
        tx("0xnull", "0xa", Some(1), Some(100), None),
        tx("0xalpha", "0xb", Some(1), Some(100), Some("12a4")),
        tx("0xlong", "0xc", Some(1), Some(100), Some("1000000000000000000")),
        tx("0xpending", "0xd", None, None, Some("500")),
    ]);
    assert!(store.get_gas_stats(10).is_none());

    let mut outside = Storage::new();
    outside.insert_block(&block(1, 100));
    outside.insert_block(&block(2, 200));
    outside.insert_transactions(&vec![tx("0x1", "0xa", Some(1), Some(100), Some("100"))]);
    assert!(outside.get_gas_stats(1).is_none());
    assert!(outside.get_gas_stats(2).is_some());
}

#[test]
fn gas_stats_excludes_fee_market_rows() {
    let mut store = Storage::new();
    store.insert_block(&block(1, 100));
    let mut fee_market = tx("0xfm", "0xa", Some(1), Some(100), None);
    fee_market.max_fee_per_gas_wei = Some("5000".to_string());
    store.insert_transactions(&vec![fee_market]);
    assert!(store.get_gas_stats(10).is_none());
}

#[test]
fn gas_stats_boundary_of_length_guard() {
    let mut store = Storage::new();
    store.insert_block(&block(1, 100));
    store.insert_transactions(&vec![
        tx("0x18", "0xa", Some(1), Some(100), Some("999999999999999999")),
    ]);
    let stats = store.get_gas_stats(10).unwrap();
    assert_eq!(stats.min, 999_999_999_999_999_999);
    assert_eq!(stats.max, 999_999_999_999_999_999);
    assert_eq!(stats.avg, 999_999_999_999_999_999);
}
