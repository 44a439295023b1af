use rust_eth_mempool_lab::models::RawTx;
use rust_eth_mempool_lab::sampler::{FetchOutcome, PendingSampler};

fn raw(hash: &str, from: &str, to: Option<&str>) -> RawTx {
    RawTx {
        hash: hash.to_string(),
        from: from.to_string(),
        to: to.map(|s| s.to_string()),
        value_wei: "1".to_string(),
        gas: 21_000,
        gas_price_wei: Some("1000".to_string()),
        max_fee_per_gas_wei: None,
        nonce: 0,
    }
}

#[test]
fn session_ends_after_exactly_max_count_hashes() {
    let mut sampler = PendingSampler::new(5, 100, None);
    let mut flushed_mid_session = false;
    for i in 0..5 {
        assert!(sampler.is_running());
        let batch = sampler.process_hash(FetchOutcome::Fetched(raw(
            &format!("0x{}", i),
            "0xsender",
            None,
        )));
        if batch.is_some() {
            flushed_mid_session = true;
        }
    }
    assert!(!flushed_mid_session);
    assert!(!sampler.is_running());
    assert!(sampler.is_draining());
    let drained = sampler.drain().expect("partial buffer flushes at termination");
    assert_eq!(drained.len(), 5);
    assert!(sampler.is_done());
    let stats = sampler.stats();
    assert_eq!(stats.received, 5);
    assert_eq!(stats.fetched, 5);
}

#[test]
fn filter_drops_unrelated_and_keeps_matching_to_address() {
    let filter = vec!["0xaaa".to_string()];
    let mut sampler = PendingSampler::new(10, 100, Some(filter));
    sampler.process_hash(FetchOutcome::Fetched(raw("0x1", "0xccc", Some("0xddd"))));
    sampler.process_hash(FetchOutcome::Fetched(raw("0x2", "0xccc", Some("0xaaa"))));
    sampler.end_input();
    let drained = sampler.drain().expect("one transaction passed the filter");
    assert_eq!(drained.len(), 1);
    assert_eq!(drained[0].hash, "0x2".to_string());
    assert_eq!(drained[0].to, Some("0xaaa".to_string()));
    let stats = sampler.stats();
    assert_eq!(stats.received, 2);
    assert_eq!(stats.fetched, 2);
}

#[test]
fn failed_final_drain_flush_counts_one_insert_error() {
    let mut sampler = PendingSampler::new(10, 100, None);
    sampler.process_hash(FetchOutcome::Fetched(raw("0x1", "0xa", None)));
    sampler.process_hash(FetchOutcome::Fetched(raw("0x2", "0xb", None)));
    sampler.end_input();
    let inserted_before = sampler.stats().inserted;
    let batch = sampler.drain().expect("buffered rows drain at termination");
    sampler.note_flush(batch.len(), false);
    let stats = sampler.stats();
    assert_eq!(stats.insert_errors, 1);
    assert_eq!(stats.inserted, inserted_before);
    assert!(sampler.is_done());
}

#[test]
fn buffer_flushes_at_threshold() {
    let mut sampler = PendingSampler::new(10, 2, None);
    assert!(sampler.process_hash(FetchOutcome::Fetched(raw("0x1", "0xa", None))).is_none());
    let batch = sampler
        .process_hash(FetchOutcome::Fetched(raw("0x2", "0xb", None)))
        .expect("threshold reached");
    assert_eq!(batch.len(), 2);
    sampler.note_flush(batch.len(), true);
    assert_eq!(sampler.stats().inserted, 2);
    assert!(sampler.is_running());
    sampler.end_input();
    assert!(sampler.drain().is_none());
}

#[test]
fn missing_and_failed_fetches_are_skipped() {
    let mut sampler = PendingSampler::new(3, 100, None);
    sampler.process_hash(FetchOutcome::Missing);
    sampler.process_hash(FetchOutcome::Failed);
    sampler.process_hash(FetchOutcome::Fetched(raw("0x1", "0xa", None)));
    assert!(sampler.is_draining());
    let stats = sampler.stats();
    assert_eq!(stats.received, 3);
    assert_eq!(stats.fetched, 1);
    let drained = sampler.drain().unwrap();
    assert_eq!(drained.len(), 1);
    assert_eq!(drained[0].block_number, None);
    assert_eq!(drained[0].timestamp, None);
}

#[test]
fn zero_cap_session_accepts_no_hash() {
    let mut sampler = PendingSampler::new(0, 100, None);
    assert!(!sampler.is_running());
    assert!(sampler.is_draining());
    assert!(sampler.drain().is_none());
    assert!(sampler.is_done());
    let stats = sampler.stats();
    assert_eq!(stats.received, 0);
    assert_eq!(stats.inserted, 0);
}

#[test]
fn deadline_ends_input_before_cap() {
    let mut sampler = PendingSampler::new(100, 10, None);
    sampler.process_hash(FetchOutcome::Fetched(raw("0x1", "0xa", None)));
    assert!(sampler.is_running());
    sampler.end_input();
    assert!(!sampler.is_running());
    assert!(sampler.is_draining());
    let drained = sampler.drain().unwrap();
    assert_eq!(drained.len(), 1);
    assert_eq!(sampler.stats().received, 1);
}

#[test]
fn successful_flushes_accumulate_inserted() {
    let mut sampler = PendingSampler::new(10, 2, None);
    for i in 0..4 {
        if let Some(batch) = sampler.process_hash(FetchOutcome::Fetched(raw(
            &format!("0x{}", i),
            "0xa",
            None,
        ))) {
            sampler.note_flush(batch.len(), true);
        }
    }
    assert_eq!(sampler.stats().inserted, 4);
    assert_eq!(sampler.stats().insert_errors, 0);
}

#[test]
fn default_sample_stats_are_zero() {
    let stats = rust_eth_mempool_lab::sampler::PendingSampleStats::default();
    assert_eq!(stats.received, 0);
    assert_eq!(stats.fetched, 0);
    assert_eq!(stats.inserted, 0);
    assert_eq!(stats.insert_errors, 0);
}
