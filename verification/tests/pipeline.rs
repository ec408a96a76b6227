//! End-to-end tests of the reconciliation pipeline: decode, ingest,
//! verify, alert, and cursor bookkeeping.

use snapshot_reconciler::alerts::{AlertService, AlertSeverity, AlertType};
use snapshot_reconciler::api::{
    get_verification_summary_response, list_contract_events, parse_status, EventListQuery,
};
use snapshot_reconciler::hashing::sha256_hex;
use snapshot_reconciler::indexer::EventIndexer;
use snapshot_reconciler::job::{ContractEventListenerConfig, ContractEventListenerJob};
use snapshot_reconciler::listener::{
    decode_snapshot_event, interpret_snapshot_reply, poll_window, ContractEventListener,
    DecodeError, ListenerConfig, RawEvent, RpcErrorInfo, Verdict,
};
use snapshot_reconciler::model::VerificationStatus;
use snapshot_reconciler::snapshots::{SnapshotRow, SnapshotStore};

fn config() -> ListenerConfig {
    ListenerConfig {
        rpc_url: "https://test.com".to_string(),
        contract_id: "test-contract".to_string(),
        poll_interval_secs: 10,
        start_ledger: Some(100),
    }
}

fn listener_with(snapshots: SnapshotStore) -> ContractEventListener {
    ContractEventListener::new(config(), EventIndexer::new(), snapshots, AlertService::new())
}

fn snap_row(epoch: u64, canonical_json: &str, created_at: u64) -> SnapshotRow {
    SnapshotRow {
        epoch,
        hash: sha256_hex(canonical_json),
        canonical_json: canonical_json.to_string(),
        created_at,
        verification_status: None,
        verified_at: None,
    }
}

fn raw_snap_event(id: &str, ledger: &str, epoch: u64, hash: &str) -> RawEvent {
    RawEvent {
        event_type: "contract".to_string(),
        ledger: ledger.to_string(),
        ledger_closed_at: "2023-11-14T22:13:20Z".to_string(),
        contract_id: "test-contract".to_string(),
        id: id.to_string(),
        paging_token: "1".to_string(),
        topics: vec!["SNAP_SUB".to_string()],
        epoch: Some(epoch),
        hash: Some(hash.to_string()),
        timestamp: Some(1700000000),
    }
}

#[test]
fn test_calculate_hash() {
    let listener = listener_with(SnapshotStore::new());
    let data = r#"{"test": "data"}"#;
    let hash = listener.calculate_hash(data);

    // Should be 64 characters (32 bytes x 2 hex chars)
    assert_eq!(hash.len(), 64);

    // Should only contain valid hex characters
    assert!(hash.chars().all(|c| c.is_ascii_hexdigit()));
}

#[test]
fn happy_path_verification() {
    // S-style: the backend snapshot for epoch 42 exists and the on-chain
    // hash matches its digest.
    let canonical = "{\"x\":1}";
    let good_hash = sha256_hex(canonical);
    let mut snaps = SnapshotStore::new();
    snaps.insert_snapshot(snap_row(42, canonical, 50));
    let mut listener = listener_with(snaps);

    let ev = raw_snap_event("evt-1", "100", 42, good_hash.as_str());
    let report = listener.run_tick(110, vec![ev], 1700000100);
    assert_eq!(report.processed, 1);
    assert_eq!(report.decode_errors, 0);

    let row = listener.indexer().get_event_by_id("evt-1").unwrap();
    assert_eq!(row.verification_status, Some(VerificationStatus::Verified));
    assert_eq!(row.epoch, Some(42));
    assert_eq!(row.ledger, 100);
    assert_eq!(listener.alerts().len(), 0);
    let stats = listener.indexer().get_event_stats(1700000100);
    assert_eq!(stats.verified_snapshots, 1);
    assert_eq!(stats.failed_verifications, 0);
}

#[test]
fn hash_mismatch_records_failure_and_alerts() {
    let canonical = "{\"x\":1}";
    let expected = sha256_hex(canonical);
    let bad_hash = "b000000000000000000000000000000000000000000000000000000000000000";
    let mut snaps = SnapshotStore::new();
    snaps.insert_snapshot(snap_row(42, canonical, 50));
    let mut listener = listener_with(snaps);

    let ev = raw_snap_event("evt-1", "100", 42, bad_hash);
    listener.run_tick(110, vec![ev], 1700000100);

    let row = listener.indexer().get_event_by_id("evt-1").unwrap();
    assert_eq!(row.verification_status, Some(VerificationStatus::Failed));

    assert_eq!(listener.alerts().len(), 1);
    let alert = listener.alerts().get_alert(0);
    assert_eq!(alert.severity, AlertSeverity::Critical);
    match &alert.alert_type {
        AlertType::VerificationFailed { epoch, expected_hash, actual_hash } => {
            assert_eq!(*epoch, 42);
            assert_eq!(expected_hash.as_str(), expected.as_str());
            assert_eq!(actual_hash.as_str(), bad_hash);
        }
        other => panic!("unexpected alert kind: {:?}", other),
    }

    let stats = listener.indexer().get_event_stats(1700000100);
    assert_eq!(stats.failed_verifications, 1);
}

#[test]
fn mismatch_self_audit_recomputes_the_stored_digest() {
    let canonical = "{\"x\":1}";
    let mut snaps = SnapshotStore::new();
    snaps.insert_snapshot(snap_row(42, canonical, 50));
    let mut listener = listener_with(snaps);

    let (verdict, audit) = listener.verify_snapshot_with_backend(
        42,
        "b000000000000000000000000000000000000000000000000000000000000000",
        None,
        1700000100,
    );
    assert_eq!(verdict, Verdict::Failed);
    assert_eq!(audit.unwrap().as_str(), sha256_hex(canonical).as_str());
}

#[test]
fn missing_snapshot_records_pending_and_warns() {
    let mut listener = listener_with(SnapshotStore::new());

    let ev = raw_snap_event("evt-99", "100", 99, "abcd");
    listener.run_tick(110, vec![ev], 1700000100);

    let row = listener.indexer().get_event_by_id("evt-99").unwrap();
    assert!(row.verification_status != Some(VerificationStatus::Verified));
    assert!(row.verification_status != Some(VerificationStatus::Failed));

    assert_eq!(listener.alerts().len(), 1);
    let alert = listener.alerts().get_alert(0);
    assert_eq!(alert.severity, AlertSeverity::Warning);
    match &alert.alert_type {
        AlertType::MissingSnapshot { epoch } => assert_eq!(*epoch, 99),
        other => panic!("unexpected alert kind: {:?}", other),
    }
    assert_eq!(
        alert.message.as_str(),
        "No snapshot found in database for epoch 99"
    );

    let summary = listener.indexer().get_verification_summary(10);
    assert_eq!(summary.len(), 1);
    assert_eq!(summary[0].epoch, 99);
    assert_eq!(summary[0].verification_status, VerificationStatus::Pending);
}

#[test]
fn idempotent_replay_across_ticks() {
    let canonical = "{\"x\":1}";
    let good_hash = sha256_hex(canonical);
    let mut snaps = SnapshotStore::new();
    snaps.insert_snapshot(snap_row(42, canonical, 50));
    let mut listener = listener_with(snaps);

    for head in [110, 120, 130] {
        let ev = raw_snap_event("evt-1", "100", 42, good_hash.as_str());
        listener.run_tick(head, vec![ev], 1700000100);
        let row = listener.indexer().get_event_by_id("evt-1").unwrap();
        assert_eq!(row.verification_status, Some(VerificationStatus::Verified));
    }
    let stats = listener.indexer().get_event_stats(1700000100);
    assert_eq!(stats.total_events, 1);
}

#[test]
fn duplicate_id_within_one_batch_yields_one_row() {
    let mut listener = listener_with(SnapshotStore::new());
    let a = raw_snap_event("evt-1", "103", 1, "aa");
    let b = raw_snap_event("evt-1", "103", 1, "aa");
    listener.run_tick(110, vec![a, b], 1000);
    assert_eq!(listener.indexer().len(), 1);
}

#[test]
fn cursor_advances_to_the_head_and_backfill_resumes_past_it() {
    let mut listener = listener_with(SnapshotStore::new());
    assert_eq!(listener.last_ledger(), 100);

    let a = raw_snap_event("evt-103", "103", 1, "aa");
    let b = raw_snap_event("evt-107", "107", 2, "bb");
    listener.run_tick(110, vec![a, b], 1000);

    assert_eq!(listener.last_ledger(), 110);
    assert!(listener.indexer().get_event_by_id("evt-103").is_some());
    assert!(listener.indexer().get_event_by_id("evt-107").is_some());

    // Resuming after the tick polls the window just past the head.
    assert_eq!(poll_window(listener.last_ledger(), 111), Some((111, 111)));
}

#[test]
fn empty_batch_still_advances_the_cursor() {
    let mut listener = listener_with(SnapshotStore::new());
    let report = listener.run_tick(110, Vec::new(), 1000);
    assert_eq!(report.processed, 0);
    assert_eq!(report.ignored, 0);
    assert_eq!(listener.last_ledger(), 110);
}

#[test]
fn draining_alerts_empties_the_sink() {
    let mut listener = listener_with(SnapshotStore::new());
    let ev = raw_snap_event("evt-99", "100", 99, "abcd");
    listener.run_tick(110, vec![ev], 1000);
    assert_eq!(listener.alerts().len(), 1);
    let drained = listener.drain_alerts();
    assert_eq!(drained.len(), 1);
    assert!(matches!(drained[0].alert_type, AlertType::MissingSnapshot { epoch: 99 }));
    assert_eq!(listener.alerts().len(), 0);
}

#[test]
fn ledger_regression_is_a_no_op() {
    let mut listener = listener_with(SnapshotStore::new());
    let ev = raw_snap_event("evt-1", "90", 1, "aa");
    let report = listener.run_tick(90, vec![ev], 1000);
    assert_eq!(report.processed, 0);
    assert_eq!(listener.last_ledger(), 100);
    assert_eq!(listener.indexer().len(), 0);
}

#[test]
fn epoch_gap_is_accepted() {
    let mut listener = listener_with(SnapshotStore::new());
    let a = raw_snap_event("evt-a", "101", 5, "aa");
    let b = raw_snap_event("evt-b", "102", 7, "bb");
    listener.run_tick(110, vec![a, b], 1000);
    assert_eq!(listener.indexer().len(), 2);
}

#[test]
fn uppercase_hash_verifies_like_lowercase() {
    let canonical = "{\"x\":1}";
    let good_hash = sha256_hex(canonical);
    let upper = good_hash.to_uppercase();

    let mut snaps = SnapshotStore::new();
    snaps.insert_snapshot(snap_row(42, canonical, 50));
    let mut listener = listener_with(snaps);
    let verified = listener.verify_snapshot(42, Some(upper), 1000);
    assert!(verified);

    let mut snaps = SnapshotStore::new();
    snaps.insert_snapshot(snap_row(42, canonical, 50));
    let mut listener = listener_with(snaps);
    let verified = listener.verify_snapshot(42, Some(good_hash), 1000);
    assert!(verified);
}

#[test]
fn operator_verify_without_on_chain_hash_reports_false() {
    let mut listener = listener_with(SnapshotStore::new());
    assert!(!listener.verify_snapshot(42, None, 1000));
    assert_eq!(listener.alerts().len(), 0);
}

#[test]
fn decode_errors_name_the_missing_field() {
    let mut ev = raw_snap_event("evt-1", "100", 1, "aa");
    ev.epoch = None;
    assert_eq!(decode_snapshot_event(&ev), Err(DecodeError::MissingEpoch));

    let mut ev = raw_snap_event("evt-1", "100", 1, "aa");
    ev.hash = None;
    assert_eq!(decode_snapshot_event(&ev), Err(DecodeError::MissingHash));

    let mut ev = raw_snap_event("evt-1", "100", 1, "aa");
    ev.timestamp = None;
    assert_eq!(decode_snapshot_event(&ev), Err(DecodeError::MissingTimestamp));

    let ev = raw_snap_event("evt-1", "ledger-100", 1, "aa");
    assert_eq!(decode_snapshot_event(&ev), Err(DecodeError::InvalidLedger));

    let ev = raw_snap_event("evt-1", "100", 1, "aa");
    let decoded = decode_snapshot_event(&ev).unwrap();
    assert_eq!(decoded.epoch, 1);
    assert_eq!(decoded.ledger, 100);
    assert_eq!(decoded.transaction_hash, "evt-1".to_string());
    assert_eq!(decoded.event_type, "SNAP_SUB".to_string());
}

#[test]
fn decode_errors_skip_the_event_but_the_cursor_advances() {
    let mut listener = listener_with(SnapshotStore::new());
    let mut bad = raw_snap_event("evt-bad", "100", 1, "aa");
    bad.epoch = None;
    let good = raw_snap_event("evt-good", "101", 2, "bb");
    let report = listener.run_tick(110, vec![bad, good], 1000);
    assert_eq!(report.decode_errors, 1);
    assert_eq!(report.processed, 1);
    assert_eq!(listener.last_ledger(), 110);
    assert!(listener.indexer().get_event_by_id("evt-bad").is_none());
    assert!(listener.indexer().get_event_by_id("evt-good").is_some());
}

#[test]
fn decode_error_flood_raises_listener_failure() {
    let mut listener = listener_with(SnapshotStore::new());
    let mut events = Vec::new();
    for i in 0..11 {
        let mut bad = raw_snap_event(&format!("evt-{}", i), "100", 1, "aa");
        bad.epoch = None;
        events.push(bad);
    }
    let report = listener.run_tick(110, events, 1000);
    // Eleven malformed submissions are skipped silently; crossing the
    // threshold raises one listener-failure alert.
    assert_eq!(report.decode_errors, 11);
    assert_eq!(listener.alerts().len(), 1);
    let last = listener.alerts().get_alert(0);
    assert_eq!(last.severity, AlertSeverity::Error);
    assert!(matches!(last.alert_type, AlertType::ListenerFailure { .. }));
}

#[test]
fn non_snapshot_topics_are_ignored() {
    let mut listener = listener_with(SnapshotStore::new());
    let mut ev = raw_snap_event("evt-1", "100", 1, "aa");
    ev.topics = vec!["TRANSFER".to_string()];
    let report = listener.run_tick(110, vec![ev], 1000);
    assert_eq!(report.ignored, 1);
    assert_eq!(listener.indexer().len(), 0);
}

#[test]
fn snapshot_reply_interpretation() {
    let ok = interpret_snapshot_reply(None, Some("abc".to_string()));
    assert_eq!(ok.unwrap(), Some("abc".to_string()));

    let not_found = interpret_snapshot_reply(
        Some(RpcErrorInfo { code: -32600, message: "entry not found".to_string() }),
        None,
    );
    assert_eq!(not_found.unwrap(), None);

    let failure = interpret_snapshot_reply(
        Some(RpcErrorInfo { code: -32603, message: "internal error".to_string() }),
        None,
    );
    let err = failure.unwrap_err();
    assert_eq!(err.code, -32603);
    assert_eq!(err.message.as_str(), "internal error");
}

#[test]
fn latest_backend_snapshot_wins() {
    let mut snaps = SnapshotStore::new();
    let older = snap_row(42, "{\"v\":1}", 10);
    let newer = snap_row(42, "{\"v\":2}", 20);
    let newer_hash = newer.hash.clone();
    snaps.insert_snapshot(older);
    snaps.insert_snapshot(newer);
    let mut listener = listener_with(snaps);
    assert!(listener.verify_snapshot(42, Some(newer_hash), 1000));
}

#[test]
fn test_contract_event_listener_job_config() {
    let config = ContractEventListenerConfig::default();

    assert!(config.enabled);
    assert_eq!(config.interval_seconds, 10);
    assert!(!config.contract_id.is_empty());
    assert!(!config.rpc_url.is_empty());
}

#[test]
fn test_contract_event_listener_job_creation() {
    let config = ContractEventListenerConfig::default();
    let job = ContractEventListenerJob::new(listener_with(SnapshotStore::new()), config);

    assert_eq!(job.config().interval_seconds, 10);
    assert!(job.config().enabled);
}

#[test]
fn test_get_stats() {
    let config = ContractEventListenerConfig::default();
    let job = ContractEventListenerJob::new(listener_with(SnapshotStore::new()), config);

    let stats = job.get_stats(1000);

    assert!(stats.enabled);
    assert_eq!(stats.interval_seconds, 10);
    assert_eq!(stats.total_events, 0); // No events in an empty store.
}

#[test]
fn missed_scan_starts_past_the_highest_stored_ledger() {
    let config = ContractEventListenerConfig::default();
    let mut job = ContractEventListenerJob::new(listener_with(SnapshotStore::new()), config);
    // Empty store, no configured start ledger: start from zero.
    assert_eq!(job.missed_events_start(), 0);

    let a = raw_snap_event("evt-103", "103", 1, "aa");
    let b = raw_snap_event("evt-107", "107", 2, "bb");
    job.run_tick(110, vec![a, b], 1000);
    assert_eq!(job.missed_events_start(), 108);
}

#[test]
fn parse_status_names_the_three_verdicts() {
    assert_eq!(parse_status("pending"), Some(VerificationStatus::Pending));
    assert_eq!(parse_status("verified"), Some(VerificationStatus::Verified));
    assert_eq!(parse_status("failed"), Some(VerificationStatus::Failed));
    assert_eq!(parse_status("Verified"), None);
    assert_eq!(parse_status(""), None);
}

#[test]
fn event_listing_applies_defaults_and_rejects_unknown_statuses() {
    let mut listener = listener_with(SnapshotStore::new());
    let ev = raw_snap_event("evt-1", "101", 5, "aa");
    listener.run_tick(110, vec![ev], 1000);

    let params = EventListQuery {
        limit: None,
        offset: None,
        event_type: Some("SNAP_SUB".to_string()),
        verification_status: None,
    };
    let r = list_contract_events(listener.indexer(), &params);
    assert_eq!(r.len(), 1);

    let params = EventListQuery {
        limit: None,
        offset: None,
        event_type: None,
        verification_status: Some("bogus".to_string()),
    };
    let r = list_contract_events(listener.indexer(), &params);
    assert_eq!(r.len(), 0);
}

#[test]
fn summary_response_surfaces_the_newest_epoch() {
    let canonical = "{\"x\":1}";
    let good_hash = sha256_hex(canonical);
    let mut snaps = SnapshotStore::new();
    snaps.insert_snapshot(snap_row(41, canonical, 40));
    snaps.insert_snapshot(snap_row(42, canonical, 50));
    let mut listener = listener_with(snaps);
    let a = raw_snap_event("evt-41", "101", 41, good_hash.as_str());
    let b = raw_snap_event("evt-42", "102", 42, good_hash.as_str());
    listener.run_tick(110, vec![a, b], 1000);

    let resp = get_verification_summary_response(listener.indexer());
    assert_eq!(resp.latest_epoch, Some(42));
    assert_eq!(resp.latest_status, Some(VerificationStatus::Verified));
    assert_eq!(resp.latest_ledger, Some(102));
    assert_eq!(resp.latest_submitted, Some(1000));
    assert_eq!(resp.audit_trail.len(), 2);
    assert_eq!(resp.audit_trail[1].epoch, 41);
}
