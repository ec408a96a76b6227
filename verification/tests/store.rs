//! Tests of the event store: upsert, queries, statistics and retention.

use snapshot_reconciler::indexer::EventIndexer;
use snapshot_reconciler::model::{
    EventOrderBy, EventQuery, IndexedEvent, VerificationStatus,
};

fn event(id: &str, epoch: u64, ledger: u64, created_at: u64) -> IndexedEvent {
    IndexedEvent {
        id: id.to_string(),
        contract_id: "test-contract".to_string(),
        event_type: "SNAP_SUB".to_string(),
        epoch: Some(epoch),
        hash: Some("abcd1234".to_string()),
        timestamp: Some(1234567890),
        ledger,
        transaction_hash: id.to_string(),
        created_at,
        verification_status: None,
        verified_at: None,
    }
}

#[test]
fn test_event_indexing() {
    let mut indexer = EventIndexer::new();

    let event = IndexedEvent {
        id: "test-event-1".to_string(),
        contract_id: "test-contract".to_string(),
        event_type: "SNAP_SUB".to_string(),
        epoch: Some(42),
        hash: Some("abcd1234".to_string()),
        timestamp: Some(1234567890),
        ledger: 12345,
        transaction_hash: "tx-hash-1".to_string(),
        created_at: 1234567890,
        verification_status: Some(VerificationStatus::Verified),
        verified_at: None,
    };

    indexer.index_event(event.clone());

    let retrieved = indexer.get_event_by_id("test-event-1");
    assert!(retrieved.is_some());
    assert_eq!(retrieved.unwrap().epoch, Some(42));

    let query = EventQuery {
        event_type: Some("SNAP_SUB".to_string()),
        ..Default::default()
    };
    let results = indexer.query_events(&query);
    assert_eq!(results.len(), 1);
}

#[test]
fn test_verification_status_update() {
    let mut indexer = EventIndexer::new();

    let event = IndexedEvent {
        id: "test-event-2".to_string(),
        contract_id: "test-contract".to_string(),
        event_type: "SNAP_SUB".to_string(),
        epoch: Some(43),
        hash: Some("efgh5678".to_string()),
        timestamp: Some(1234567891),
        ledger: 12346,
        transaction_hash: "tx-hash-2".to_string(),
        created_at: 1234567891,
        verification_status: None,
        verified_at: None,
    };

    indexer.index_event(event);

    indexer.update_verification_status("test-event-2", VerificationStatus::Verified, 1234567900);

    let retrieved = indexer.get_event_by_id("test-event-2");
    assert!(retrieved.is_some());
    assert_eq!(
        retrieved.unwrap().verification_status,
        Some(VerificationStatus::Verified)
    );
}

#[test]
fn upsert_is_idempotent() {
    let mut indexer = EventIndexer::new();
    let e = event("evt-1", 7, 100, 1000);
    indexer.index_event(e.clone());
    indexer.index_event(e.clone());
    indexer.index_event(e.clone());
    assert_eq!(indexer.len(), 1);
    let row = indexer.get_event_by_id("evt-1").unwrap();
    assert_eq!(row.epoch, Some(7));
    assert_eq!(row.ledger, 100);
}

#[test]
fn upsert_replaces_columns_but_keeps_terminal_verdict() {
    let mut indexer = EventIndexer::new();
    let mut e = event("evt-1", 7, 100, 1000);
    e.verification_status = Some(VerificationStatus::Failed);
    e.verified_at = Some(1500);
    indexer.index_event(e);

    // Re-ingestion of the same id with no verdict must not reset the
    // terminal verdict, while other columns are replaced.
    let mut again = event("evt-1", 7, 100, 2000);
    again.hash = Some("ffff0000".to_string());
    indexer.index_event(again);

    assert_eq!(indexer.len(), 1);
    let row = indexer.get_event_by_id("evt-1").unwrap();
    assert_eq!(row.verification_status, Some(VerificationStatus::Failed));
    assert_eq!(row.verified_at, Some(1500));
    assert_eq!(row.hash, Some("ffff0000".to_string()));
    assert_eq!(row.created_at, 2000);
}

#[test]
fn pending_verdict_is_replaced_by_upsert() {
    let mut indexer = EventIndexer::new();
    let mut e = event("evt-1", 7, 100, 1000);
    e.verification_status = Some(VerificationStatus::Pending);
    indexer.index_event(e);

    let mut again = event("evt-1", 7, 100, 2000);
    again.verification_status = Some(VerificationStatus::Verified);
    indexer.index_event(again);

    let row = indexer.get_event_by_id("evt-1").unwrap();
    assert_eq!(row.verification_status, Some(VerificationStatus::Verified));
}

#[test]
fn update_status_never_overwrites_terminal_verdict() {
    let mut indexer = EventIndexer::new();
    let mut e = event("evt-1", 7, 100, 1000);
    e.verification_status = Some(VerificationStatus::Verified);
    e.verified_at = Some(1100);
    indexer.index_event(e);

    let updated =
        indexer.update_verification_status("evt-1", VerificationStatus::Failed, 2000);
    assert!(!updated);
    let row = indexer.get_event_by_id("evt-1").unwrap();
    assert_eq!(row.verification_status, Some(VerificationStatus::Verified));
    assert_eq!(row.verified_at, Some(1100));
}

#[test]
fn update_status_on_missing_row_is_a_no_op() {
    let mut indexer = EventIndexer::new();
    let updated =
        indexer.update_verification_status("no-such-id", VerificationStatus::Verified, 1);
    assert!(!updated);
    assert_eq!(indexer.len(), 0);
}

#[test]
fn query_filters_are_conjoined() {
    let mut indexer = EventIndexer::new();
    indexer.index_event(event("a", 1, 10, 100));
    indexer.index_event(event("b", 2, 20, 200));
    indexer.index_event(event("c", 2, 30, 300));

    let q = EventQuery {
        epoch: Some(2),
        ledger_range: Some((25, 35)),
        ..Default::default()
    };
    let r = indexer.query_events(&q);
    assert_eq!(r.len(), 1);
    assert_eq!(r[0].id, "c".to_string());

    let q = EventQuery {
        time_range: Some((100, 200)),
        ..Default::default()
    };
    let r = indexer.query_events(&q);
    assert_eq!(r.len(), 2);
}

#[test]
fn query_orders_and_paginates() {
    let mut indexer = EventIndexer::new();
    indexer.index_event(event("a", 1, 10, 300));
    indexer.index_event(event("b", 2, 20, 100));
    indexer.index_event(event("c", 3, 30, 200));

    // Default order: newest ingested first.
    let r = indexer.query_events(&EventQuery::default());
    assert_eq!(r.len(), 3);
    assert_eq!(r[0].id, "a".to_string());
    assert_eq!(r[1].id, "c".to_string());
    assert_eq!(r[2].id, "b".to_string());

    // Ledger ascending with offset and limit.
    let q = EventQuery {
        order_by: Some(EventOrderBy::LedgerAsc),
        limit: Some(1),
        offset: Some(1),
        ..Default::default()
    };
    let r = indexer.query_events(&q);
    assert_eq!(r.len(), 1);
    assert_eq!(r[0].id, "b".to_string());

    // Epoch descending.
    let q = EventQuery {
        order_by: Some(EventOrderBy::EpochDesc),
        ..Default::default()
    };
    let r = indexer.query_events(&q);
    assert_eq!(r[0].epoch, Some(3));
    assert_eq!(r[2].epoch, Some(1));
}

#[test]
fn stats_count_verdicts_and_track_maxima() {
    let mut indexer = EventIndexer::new();
    let mut a = event("a", 5, 10, 1000);
    a.verification_status = Some(VerificationStatus::Verified);
    let mut b = event("b", 9, 50, 90000);
    b.verification_status = Some(VerificationStatus::Failed);
    let c = event("c", 2, 70, 95000);
    indexer.index_event(a);
    indexer.index_event(b);
    indexer.index_event(c);

    let now = 100000; // cutoff for the trailing day is 13600
    let stats = indexer.get_event_stats(now);
    assert_eq!(stats.total_events, 3);
    assert_eq!(stats.verified_snapshots, 1);
    assert_eq!(stats.failed_verifications, 1);
    assert_eq!(stats.latest_epoch, Some(9));
    assert_eq!(stats.latest_ledger, Some(70));
    assert_eq!(stats.events_last_24h, 2);
}

#[test]
fn stats_on_empty_store_are_zero() {
    let indexer = EventIndexer::new();
    let stats = indexer.get_event_stats(500);
    assert_eq!(stats.total_events, 0);
    assert_eq!(stats.verified_snapshots, 0);
    assert_eq!(stats.failed_verifications, 0);
    assert_eq!(stats.latest_epoch, None);
    assert_eq!(stats.latest_ledger, None);
    assert_eq!(stats.events_last_24h, 0);
}

#[test]
fn latest_snapshots_come_epoch_descending() {
    let mut indexer = EventIndexer::new();
    indexer.index_event(event("a", 1, 10, 100));
    indexer.index_event(event("b", 3, 20, 200));
    indexer.index_event(event("c", 2, 30, 300));
    let mut other = event("d", 9, 40, 400);
    other.event_type = "OTHER".to_string();
    indexer.index_event(other);

    let r = indexer.get_latest_snapshots(10);
    assert_eq!(r.len(), 3);
    assert_eq!(r[0].epoch, Some(3));
    assert_eq!(r[1].epoch, Some(2));
    assert_eq!(r[2].epoch, Some(1));
}

#[test]
fn search_by_hash_prefix_matches_plain_characters_only() {
    let mut indexer = EventIndexer::new();
    let mut e = event("a", 1, 10, 100);
    e.hash = Some("deadc0ffee00000000000000000000000000000000000000000000000000beef".to_string());
    indexer.index_event(e);

    let found = indexer.search_by_hash_prefix("dea", 10);
    assert_eq!(found.len(), 1);

    // A hostile "prefix" is just characters: it matches nothing and the
    // store is untouched.
    let hostile = indexer.search_by_hash_prefix("dea'; DROP TABLE contract_events;--", 10);
    assert_eq!(hostile.len(), 0);
    assert_eq!(indexer.len(), 1);
    assert!(indexer.get_event_by_id("a").is_some());
}

#[test]
fn verification_summary_projects_missing_verdicts_as_pending() {
    let mut indexer = EventIndexer::new();
    let mut a = event("a", 1, 10, 100);
    a.verification_status = Some(VerificationStatus::Verified);
    indexer.index_event(a);
    indexer.index_event(event("b", 2, 20, 200));

    let summary = indexer.get_verification_summary(10);
    assert_eq!(summary.len(), 2);
    assert_eq!(summary[0].epoch, 2);
    assert_eq!(summary[0].verification_status, VerificationStatus::Pending);
    assert_eq!(summary[1].epoch, 1);
    assert_eq!(summary[1].verification_status, VerificationStatus::Verified);
}

#[test]
fn cleanup_deletes_rows_past_the_horizon() {
    let mut indexer = EventIndexer::new();
    let day = 86400;
    indexer.index_event(event("old", 1, 10, 5 * day));
    indexer.index_event(event("fresh", 2, 20, 95 * day));

    let now = 100 * day;
    let deleted = indexer.cleanup_old_events(90, now);
    assert_eq!(deleted, 1);
    assert_eq!(indexer.len(), 1);
    assert!(indexer.get_event_by_id("old").is_none());
    assert!(indexer.get_event_by_id("fresh").is_some());
}
