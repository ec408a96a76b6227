//! The reconciliation pipeline: decoding snapshot-submission events,
//! recording them, and binding each on-chain commitment to the backend's
//! snapshot for the same epoch.
//!
//! The listener here is the decision core of the polling loop. The
//! surrounding runtime fetches the chain head and the raw events over
//! JSON-RPC and hands them in as plain values; one call to
//! [`ContractEventListener::run_tick`] then performs everything a poll
//! tick does — decode, persist, verify, alert, and advance the cursor.

use vstd::prelude::*;

use crate::alerts::{
    listener_failure_alert, missing_snapshot_alert, verification_failed_alert, AlertModel,
    AlertService,
};
use crate::hashing::{hex_chars, sha256_hex, sha256_of};
use crate::indexer::{unique_ids, upsert_rows, EventIndexer, is_query_result};
use crate::model::{
    opt_view, rows_view, EventModel, EventOrderBy, EventQuery, IndexedEvent, QueryModel,
    VerificationStatus,
};
use crate::snapshots::{best_snap, set_epoch_status, SnapshotModel, SnapshotStore};
use crate::text::{
    all_dec_digits, contains_seq, contains_sub, dec_value, lower_chars,
    lemma_lower_chars_idempotent, parse_u64, str_eq, to_lower_ascii,
};
use vstd::string::StringSliceAdditionalSpecFns;

verus! {

/// The poll window to fetch next, given the cursor and the chain head:
/// `None` when the chain has not advanced past the cursor, otherwise the
/// inclusive ledger range `(cursor + 1, head)`.
pub fn poll_window(last_ledger: u64, latest_ledger: u64) -> (r: Option<(u64, u64)>)
    ensures
        r is Some <==> latest_ledger > last_ledger,
        r matches Some(w) ==> w.0 == last_ledger + 1 && w.1 == latest_ledger,
{
    if latest_ledger > last_ledger {
        Some((last_ledger + 1, latest_ledger))
    } else {
        None
    }
}

/// Mathematical view of a listener configuration.
#[verifier::ext_equal]
pub ghost struct ConfigModel {
    pub rpc_url: Seq<char>,
    pub contract_id: Seq<char>,
    pub poll_interval_secs: u64,
    pub start_ledger: Option<u64>,
}

/// Configuration of one listener task.
pub struct ListenerConfig {
    /// JSON-RPC endpoint URL.
    pub rpc_url: String,
    /// Address of the observed contract.
    pub contract_id: String,
    /// Seconds between polls.
    pub poll_interval_secs: u64,
    /// Ledger to start from; the chain head is adopted when absent.
    pub start_ledger: Option<u64>,
}

impl View for ListenerConfig {
    type V = ConfigModel;

    open spec fn view(&self) -> ConfigModel {
        ConfigModel {
            rpc_url: self.rpc_url@,
            contract_id: self.contract_id@,
            poll_interval_secs: self.poll_interval_secs,
            start_ledger: self.start_ledger,
        }
    }
}

impl Clone for ListenerConfig {
    fn clone(&self) -> (r: Self)
        ensures
            r == *self,
    {
        ListenerConfig {
            rpc_url: self.rpc_url.clone(),
            contract_id: self.contract_id.clone(),
            poll_interval_secs: self.poll_interval_secs,
            start_ledger: self.start_ledger,
        }
    }
}

/// Mathematical view of a raw contract event.
#[verifier::ext_equal]
pub ghost struct RawEventModel {
    pub event_type: Seq<char>,
    pub ledger: Seq<char>,
    pub ledger_closed_at: Seq<char>,
    pub contract_id: Seq<char>,
    pub id: Seq<char>,
    pub paging_token: Seq<char>,
    pub topics: Seq<Seq<char>>,
    pub epoch: Option<u64>,
    pub hash: Option<Seq<char>>,
    pub timestamp: Option<u64>,
}

/// The view of a sequence of owned strings.
pub open spec fn strings_view(s: Seq<String>) -> Seq<Seq<char>> {
    s.map_values(|x: String| x@)
}

/// A contract event as the RPC transport delivers it, already decoded to
/// plain values: the envelope fields verbatim, and the payload's `epoch`,
/// `hash` and `timestamp` fields where the payload carried them.
pub struct RawEvent {
    pub event_type: String,
    pub ledger: String,
    pub ledger_closed_at: String,
    pub contract_id: String,
    pub id: String,
    pub paging_token: String,
    pub topics: Vec<String>,
    pub epoch: Option<u64>,
    pub hash: Option<String>,
    pub timestamp: Option<u64>,
}

impl View for RawEvent {
    type V = RawEventModel;

    open spec fn view(&self) -> RawEventModel {
        RawEventModel {
            event_type: self.event_type@,
            ledger: self.ledger@,
            ledger_closed_at: self.ledger_closed_at@,
            contract_id: self.contract_id@,
            id: self.id@,
            paging_token: self.paging_token@,
            topics: strings_view(self.topics@),
            epoch: self.epoch,
            hash: opt_view(self.hash),
            timestamp: self.timestamp,
        }
    }
}

/// The view of a raw-event batch.
pub open spec fn raws_view(s: Seq<RawEvent>) -> Seq<RawEventModel> {
    s.map_values(|x: RawEvent| x@)
}

/// Mathematical view of a decoded snapshot submission.
#[verifier::ext_equal]
pub ghost struct SnapshotEventModel {
    pub epoch: u64,
    pub hash: Seq<char>,
    pub timestamp: u64,
    pub ledger: u64,
    pub transaction_hash: Seq<char>,
    pub contract_id: Seq<char>,
    pub event_type: Seq<char>,
}

/// A decoded snapshot-submission event.
#[derive(Debug, PartialEq, Eq)]
pub struct SnapshotEvent {
    pub epoch: u64,
    pub hash: String,
    pub timestamp: u64,
    pub ledger: u64,
    pub transaction_hash: String,
    pub contract_id: String,
    pub event_type: String,
}

impl View for SnapshotEvent {
    type V = SnapshotEventModel;

    open spec fn view(&self) -> SnapshotEventModel {
        SnapshotEventModel {
            epoch: self.epoch,
            hash: self.hash@,
            timestamp: self.timestamp,
            ledger: self.ledger,
            transaction_hash: self.transaction_hash@,
            contract_id: self.contract_id@,
            event_type: self.event_type@,
        }
    }
}

/// The store row a decoded submission becomes when ingested at `now`: the
/// chain-assigned event id keys the row, and no verdict is recorded yet.
pub open spec fn indexed_of(se: SnapshotEventModel, now: u64) -> EventModel {
    EventModel {
        id: se.transaction_hash,
        contract_id: se.contract_id,
        event_type: se.event_type,
        epoch: Some(se.epoch),
        hash: Some(se.hash),
        timestamp: Some(se.timestamp),
        ledger: se.ledger,
        transaction_hash: se.transaction_hash,
        created_at: now,
        verification_status: None,
        verified_at: None,
    }
}

impl SnapshotEvent {
    /// The store row this submission becomes when ingested at `now`.
    pub fn to_indexed_event(&self, now: u64) -> (r: IndexedEvent)
        ensures
            r@ == indexed_of(self@, now),
    {
        IndexedEvent {
            id: self.transaction_hash.clone(),
            contract_id: self.contract_id.clone(),
            event_type: self.event_type.clone(),
            epoch: Some(self.epoch),
            hash: Some(self.hash.clone()),
            timestamp: Some(self.timestamp),
            ledger: self.ledger,
            transaction_hash: self.transaction_hash.clone(),
            created_at: now,
            verification_status: None,
            verified_at: None,
        }
    }
}

/// Why a snapshot-submission event could not be decoded.
#[derive(Clone, Copy, Debug, PartialEq, Eq, Structural)]
pub enum DecodeError {
    /// The payload carries no `epoch`.
    MissingEpoch,
    /// The payload carries no `hash`.
    MissingHash,
    /// The payload carries no `timestamp`.
    MissingTimestamp,
    /// The envelope's ledger field is not a decimal ledger number.
    InvalidLedger,
}

/// Whether any topic marks the event as a snapshot submission.
pub open spec fn raw_is_snap(raw: RawEventModel) -> bool {
    exists|i: int| 0 <= i < raw.topics.len() && raw.topics[i] == "SNAP_SUB"@
}

/// Whether the raw event decodes: the three payload fields are present and
/// the ledger field is a decimal number that fits.
pub open spec fn decode_ok(raw: RawEventModel) -> bool {
    &&& raw.epoch is Some
    &&& raw.hash is Some
    &&& raw.timestamp is Some
    &&& raw.ledger.len() > 0
    &&& all_dec_digits(raw.ledger)
    &&& dec_value(raw.ledger) <= u64::MAX
}

/// The error reported for a raw event that does not decode, checked in
/// payload order.
pub open spec fn decode_err(raw: RawEventModel) -> DecodeError {
    if raw.epoch is None {
        DecodeError::MissingEpoch
    } else if raw.hash is None {
        DecodeError::MissingHash
    } else if raw.timestamp is None {
        DecodeError::MissingTimestamp
    } else {
        DecodeError::InvalidLedger
    }
}

/// What a decodable raw event decodes to.
pub open spec fn decoded_se(raw: RawEventModel) -> SnapshotEventModel {
    SnapshotEventModel {
        epoch: raw.epoch->0,
        hash: raw.hash->0,
        timestamp: raw.timestamp->0,
        ledger: dec_value(raw.ledger) as u64,
        transaction_hash: raw.id,
        contract_id: raw.contract_id,
        event_type: "SNAP_SUB"@,
    }
}

/// Decodes a snapshot-submission event: requires `epoch`, `hash` and
/// `timestamp` in the payload and a decimal ledger number, and keys the
/// result by the chain-assigned event id.
pub fn decode_snapshot_event(raw: &RawEvent) -> (r: Result<SnapshotEvent, DecodeError>)
    ensures
        r is Ok <==> decode_ok(raw@),
        r matches Ok(ev) ==> ev@ == decoded_se(raw@),
        r matches Err(e) ==> e == decode_err(raw@),
{
    let epoch = match raw.epoch {
        Some(v) => v,
        None => {
            return Err(DecodeError::MissingEpoch);
        },
    };
    let hash = match &raw.hash {
        Some(h) => h.clone(),
        None => {
            return Err(DecodeError::MissingHash);
        },
    };
    let timestamp = match raw.timestamp {
        Some(t) => t,
        None => {
            return Err(DecodeError::MissingTimestamp);
        },
    };
    let ledger = match parse_u64(raw.ledger.as_str()) {
        Some(l) => l,
        None => {
            return Err(DecodeError::InvalidLedger);
        },
    };
    Ok(
        SnapshotEvent {
            epoch,
            hash,
            timestamp,
            ledger,
            transaction_hash: raw.id.clone(),
            contract_id: raw.contract_id.clone(),
            event_type: "SNAP_SUB".to_owned(),
        },
    )
}

/// Whether the event carries the snapshot-submission topic.
pub fn is_snapshot_submission(raw: &RawEvent) -> (r: bool)
    ensures
        r == raw_is_snap(raw@),
{
    let n = raw.topics.len();
    let mut i: usize = 0;
    while i < n
        invariant
            n == raw.topics@.len(),
            i <= n,
            forall|k: int| 0 <= k < i ==> strings_view(raw.topics@)[k] != "SNAP_SUB"@,
        decreases n - i,
    {
        if str_eq(raw.topics[i].as_str(), "SNAP_SUB") {
            assert(raw@.topics[i as int] == "SNAP_SUB"@);
            assert(raw_is_snap(raw@));
            return true;
        }
        assert(strings_view(raw.topics@)[i as int] != "SNAP_SUB"@);
        i = i + 1;
    }
    false
}

/// An error object returned by the JSON-RPC endpoint.
#[derive(Debug)]
pub struct RpcErrorInfo {
    pub code: i64,
    pub message: String,
}

impl Clone for RpcErrorInfo {
    fn clone(&self) -> (r: Self)
        ensures
            r == *self,
    {
        RpcErrorInfo { code: self.code, message: self.message.clone() }
    }
}

/// How the contract's `get_snapshot` reply is read: an error whose message
/// reports "not found" means the epoch holds no snapshot and is an empty
/// result, any other error propagates, and otherwise the reply's return
/// value is the stored hash.
pub fn interpret_snapshot_reply(
    error: Option<RpcErrorInfo>,
    return_value: Option<String>,
) -> (r: Result<Option<String>, RpcErrorInfo>)
    ensures
        error is None ==> r == Ok::<Option<String>, RpcErrorInfo>(return_value),
        (error matches Some(e) && contains_seq(e.message@, "not found"@)) ==> r == Ok::<
            Option<String>,
            RpcErrorInfo,
        >(None),
        (error matches Some(e) && !contains_seq(e.message@, "not found"@)) ==> r == Err::<
            Option<String>,
            RpcErrorInfo,
        >(error->0),
{
    match error {
        None => Ok(return_value),
        Some(e) => {
            if contains_sub(e.message.as_str(), "not found") {
                Ok(None)
            } else {
                Err(e)
            }
        },
    }
}

/// A reconciliation verdict for one (epoch, on-chain hash) pair.
#[derive(Clone, Copy, Debug, PartialEq, Eq, Structural)]
pub enum Verdict {
    /// The backend's digest matches the on-chain commitment.
    Verified,
    /// The backend's digest differs from the on-chain commitment.
    Failed,
    /// The backend holds no snapshot for the epoch.
    Missing,
}

/// Mathematical view of the listener's whole mutable state: the cursor and
/// the three stores it drives.
#[verifier::ext_equal]
pub ghost struct ListenerModel {
    pub config: ConfigModel,
    pub last_ledger: u64,
    pub rows: Seq<EventModel>,
    pub snaps: Seq<SnapshotModel>,
    pub alerts: Seq<AlertModel>,
}

/// The verdict for an epoch against an on-chain hash: the inbound hash is
/// normalized to lowercase, then compared byte for byte with the digest of
/// the epoch's most recent backend snapshot.
pub open spec fn spec_verdict(snaps: Seq<SnapshotModel>, epoch: u64, on_chain: Seq<char>) -> Verdict {
    match best_snap(snaps, epoch) {
        None => Verdict::Missing,
        Some(s) => if s.hash == lower_chars(on_chain) {
            Verdict::Verified
        } else {
            Verdict::Failed
        },
    }
}

/// The listener state after verifying `epoch` against `on_chain`: the
/// verdict is recorded on the epoch's snapshot rows and, when an event row
/// id is given, on that event row; a missing backend snapshot records
/// pending and raises a warning, and a mismatch raises a critical alert
/// with the backend's digest and the normalized on-chain hash.
pub open spec fn spec_verify(
    m: ListenerModel,
    epoch: u64,
    on_chain: Seq<char>,
    event_id: Option<Seq<char>>,
    now: u64,
) -> ListenerModel {
    let norm = lower_chars(on_chain);
    match best_snap(m.snaps, epoch) {
        None => ListenerModel {
            rows: match event_id {
                None => m.rows,
                Some(id) => EventIndexer::set_status_rows(
                    m.rows,
                    id,
                    VerificationStatus::Pending,
                    now,
                ),
            },
            alerts: m.alerts.push(missing_snapshot_alert(epoch, now)),
            ..m
        },
        Some(s) => {
            if s.hash == norm {
                ListenerModel {
                    rows: match event_id {
                        None => m.rows,
                        Some(id) => EventIndexer::set_status_rows(
                            m.rows,
                            id,
                            VerificationStatus::Verified,
                            now,
                        ),
                    },
                    snaps: set_epoch_status(m.snaps, epoch, VerificationStatus::Verified, now),
                    ..m
                }
            } else {
                ListenerModel {
                    rows: match event_id {
                        None => m.rows,
                        Some(id) => EventIndexer::set_status_rows(
                            m.rows,
                            id,
                            VerificationStatus::Failed,
                            now,
                        ),
                    },
                    snaps: set_epoch_status(m.snaps, epoch, VerificationStatus::Failed, now),
                    alerts: m.alerts.push(
                        verification_failed_alert(epoch, s.hash, norm, now),
                    ),
                    ..m
                }
            }
        },
    }
}

/// Verifying an already-normalized hash decides exactly as verifying the
/// original: verification is insensitive to ASCII case in the inbound
/// hash.
pub proof fn lemma_verdict_case_insensitive(
    snaps: Seq<SnapshotModel>,
    epoch: u64,
    on_chain: Seq<char>,
)
    ensures
        spec_verdict(snaps, epoch, lower_chars(on_chain)) == spec_verdict(snaps, epoch, on_chain),
{
    lemma_lower_chars_idempotent(on_chain);
}

/// The whole effect of verification — verdict, recorded statuses and
/// alerts alike — agrees between an inbound hash and its lowercase form.
pub proof fn lemma_verify_case_insensitive(
    m: ListenerModel,
    epoch: u64,
    on_chain: Seq<char>,
    event_id: Option<Seq<char>>,
    now: u64,
)
    ensures
        spec_verify(m, epoch, lower_chars(on_chain), event_id, now) == spec_verify(
            m,
            epoch,
            on_chain,
            event_id,
            now,
        ),
{
    lemma_lower_chars_idempotent(on_chain);
}

/// One listener task's decision core: the cursor, the event store, the
/// snapshot mirror and the alert sink, driven by plain values that the
/// surrounding runtime fetches.
pub struct ContractEventListener {
    config: ListenerConfig,
    last_ledger: u64,
    indexer: EventIndexer,
    snapshots: SnapshotStore,
    alerts: AlertService,
}

impl View for ContractEventListener {
    type V = ListenerModel;

    closed spec fn view(&self) -> ListenerModel {
        ListenerModel {
            config: self.config@,
            last_ledger: self.last_ledger,
            rows: self.indexer@,
            snaps: self.snapshots@,
            alerts: self.alerts@,
        }
    }
}

impl ContractEventListener {
    /// Well-formedness: the event store holds one row per id.
    pub open spec fn wf(&self) -> bool {
        unique_ids(self@.rows)
    }

    /// Creates a listener over the given stores. The cursor starts at the
    /// configured start ledger, or at zero, to be adopted from the chain
    /// head on the first poll.
    pub fn new(
        config: ListenerConfig,
        indexer: EventIndexer,
        snapshots: SnapshotStore,
        alerts: AlertService,
    ) -> (r: Self)
        requires
            indexer.wf(),
        ensures
            r@.last_ledger == match config.start_ledger {
                None => 0u64,
                Some(l) => l,
            },
            r@.rows == indexer@,
            r@.snaps == snapshots@,
            r@.alerts == alerts@,
            r@.config == config@,
            r.wf(),
    {
        let last_ledger = match config.start_ledger {
            None => 0,
            Some(l) => l,
        };
        ContractEventListener { config, last_ledger, indexer, snapshots, alerts }
    }

    /// The task's configuration; never changed by reconciliation.
    pub fn config(&self) -> (r: &ListenerConfig)
        ensures
            r@ == self@.config,
    {
        &self.config
    }

    /// The event store, for read-only queries.
    pub fn indexer(&self) -> (r: &EventIndexer)
        ensures
            r@ == self@.rows,
    {
        &self.indexer
    }

    /// The alert sink, for inspection.
    pub fn alerts(&self) -> (r: &AlertService)
        ensures
            r@ == self@.alerts,
    {
        &self.alerts
    }

    /// Hands recorded alerts to the delivery collaborator.
    pub fn drain_alerts(&mut self) -> (r: Vec<crate::alerts::Alert>)
        ensures
            crate::alerts::alerts_view(r@) == old(self)@.alerts,
            final(self)@ == (ListenerModel { alerts: Seq::empty(), ..old(self)@ }),
    {
        let r = self.alerts.drain();
        proof {
            assert(final(self)@ =~= (ListenerModel { alerts: Seq::empty(), ..old(self)@ }));
        }
        r
    }

    /// The current cursor: every ledger up to it has been polled.
    pub fn last_ledger(&self) -> (r: u64)
        ensures
            r == self@.last_ledger,
    {
        self.last_ledger
    }

    /// Adopts the chain head as the cursor when no start ledger was
    /// configured and no tick has run yet.
    pub fn adopt_head(&mut self, latest_ledger: u64)
        ensures
            final(self)@ == (ListenerModel {
                last_ledger: if old(self)@.last_ledger == 0 {
                    latest_ledger
                } else {
                    old(self)@.last_ledger
                },
                ..old(self)@
            }),
    {
        if self.last_ledger == 0 {
            self.last_ledger = latest_ledger;
        }
        proof {
            assert(final(self)@ =~= (ListenerModel {
                last_ledger: if old(self)@.last_ledger == 0 {
                    latest_ledger
                } else {
                    old(self)@.last_ledger
                },
                ..old(self)@
            }));
        }
    }

    /// The commitment digest of canonical data: SHA-256 rendered as 64
    /// lowercase hexadecimal characters.
    pub fn calculate_hash(&self, data: &str) -> (r: String)
        ensures
            r@ == hex_chars(sha256_of(data.spec_bytes())),
            r@.len() == 64,
            lower_chars(r@) == r@,
    {
        sha256_hex(data)
    }

    /// Verifies one epoch's on-chain commitment against the backend
    /// snapshot and records the verdict; see [`spec_verify`]. Returns the
    /// verdict and, on a mismatch, the digest recomputed from the stored
    /// canonical JSON as a self-audit.
    pub fn verify_snapshot_with_backend(
        &mut self,
        epoch: u64,
        on_chain_hash: &str,
        event_id: Option<&str>,
        now: u64,
    ) -> (r: (Verdict, Option<String>))
        requires
            old(self).wf(),
        ensures
            final(self)@ == spec_verify(
                old(self)@,
                epoch,
                on_chain_hash@,
                match event_id {
                    None => None,
                    Some(id) => Some(id@),
                },
                now,
            ),
            final(self).wf(),
            r.0 == spec_verdict(old(self)@.snaps, epoch, on_chain_hash@),
            r.0 == Verdict::Failed ==> (r.1 matches Some(d) && d@ == hex_chars(
                sha256_of(
                    vstd::utf8::encode_utf8(best_snap(old(self)@.snaps, epoch)->0.canonical_json),
                ),
            )),
            r.0 != Verdict::Failed ==> r.1 is None,
    {
        let found = self.snapshots.latest_for_epoch(epoch);
        match found {
            None => {
                if let Some(id) = event_id {
                    self.indexer.update_verification_status(
                        id,
                        VerificationStatus::Pending,
                        now,
                    );
                }
                self.alerts.alert_missing_snapshot(epoch, now);
                proof {
                    assert(final(self)@ =~= spec_verify(
                        old(self)@,
                        epoch,
                        on_chain_hash@,
                        match event_id {
                            None => None,
                            Some(id) => Some(id@),
                        },
                        now,
                    ));
                }
                (Verdict::Missing, None)
            },
            Some(snap) => {
                let norm = to_lower_ascii(on_chain_hash);
                if str_eq(snap.hash.as_str(), norm.as_str()) {
                    self.snapshots.update_status(epoch, VerificationStatus::Verified, now);
                    if let Some(id) = event_id {
                        self.indexer.update_verification_status(
                            id,
                            VerificationStatus::Verified,
                            now,
                        );
                    }
                    proof {
                        assert(final(self)@ =~= spec_verify(
                            old(self)@,
                            epoch,
                            on_chain_hash@,
                            match event_id {
                                None => None,
                                Some(id) => Some(id@),
                            },
                            now,
                        ));
                    }
                    (Verdict::Verified, None)
                } else {
                    let audit = sha256_hex(snap.canonical_json.as_str());
                    self.snapshots.update_status(epoch, VerificationStatus::Failed, now);
                    if let Some(id) = event_id {
                        self.indexer.update_verification_status(
                            id,
                            VerificationStatus::Failed,
                            now,
                        );
                    }
                    self.alerts.alert_verification_failed(epoch, snap.hash, norm, now);
                    proof {
                        assert(final(self)@ =~= spec_verify(
                            old(self)@,
                            epoch,
                            on_chain_hash@,
                            match event_id {
                                None => None,
                                Some(id) => Some(id@),
                            },
                            now,
                        ));
                    }
                    (Verdict::Failed, Some(audit))
                }
            },
        }
    }

    /// Verifies one epoch on operator demand, the on-chain hash having
    /// been fetched (or found absent) by the runtime. Returns whether the
    /// epoch verified.
    pub fn verify_snapshot(&mut self, epoch: u64, on_chain_hash: Option<String>, now: u64) -> (r:
        bool)
        requires
            old(self).wf(),
        ensures
            on_chain_hash is None ==> final(self)@ == old(self)@ && !r,
            on_chain_hash matches Some(h) ==> final(self)@ == spec_verify(
                old(self)@,
                epoch,
                h@,
                None,
                now,
            ) && (r <==> spec_verdict(old(self)@.snaps, epoch, h@) == Verdict::Verified),
            final(self).wf(),
    {
        match on_chain_hash {
            None => false,
            Some(h) => {
                let (verdict, _audit) = self.verify_snapshot_with_backend(
                    epoch,
                    h.as_str(),
                    None,
                    now,
                );
                match verdict {
                    Verdict::Verified => true,
                    _ => false,
                }
            },
        }
    }
}

/// What processing one raw event came to.
#[derive(Clone, Copy, Debug, PartialEq, Eq, Structural)]
pub enum ProcessOutcome {
    /// The event does not carry the snapshot-submission topic.
    Ignored,
    /// The event was decoded, recorded, and verified with this verdict.
    Reconciled(Verdict),
}

/// The listener state after processing one raw event: an event without
/// the snapshot-submission topic, or one that does not decode, changes
/// nothing; otherwise the decoded row is upserted and its epoch verified.
pub open spec fn spec_process(m: ListenerModel, raw: RawEventModel, now: u64) -> ListenerModel {
    if !raw_is_snap(raw) {
        m
    } else if !decode_ok(raw) {
        m
    } else {
        let e = indexed_of(decoded_se(raw), now);
        let m1 = ListenerModel { rows: upsert_rows(m.rows, e), ..m };
        spec_verify(m1, raw.epoch->0, raw.hash->0, Some(raw.id), now)
    }
}

impl ContractEventListener {
    /// Processes one raw contract event: snapshot submissions are decoded,
    /// recorded in the event store, and verified against the backend
    /// snapshot of their epoch; other events are ignored.
    pub fn process_event(&mut self, event: &RawEvent, now: u64) -> (r: Result<
        ProcessOutcome,
        DecodeError,
    >)
        requires
            old(self).wf(),
        ensures
            final(self)@ == spec_process(old(self)@, event@, now),
            final(self).wf(),
            !raw_is_snap(event@) ==> r == Ok::<ProcessOutcome, DecodeError>(
                ProcessOutcome::Ignored,
            ),
            raw_is_snap(event@) && decode_ok(event@) ==> r == Ok::<ProcessOutcome, DecodeError>(
                ProcessOutcome::Reconciled(
                    spec_verdict(old(self)@.snaps, event@.epoch->0, event@.hash->0),
                ),
            ),
            raw_is_snap(event@) && !decode_ok(event@) ==> r == Err::<ProcessOutcome, DecodeError>(
                decode_err(event@),
            ),
    {
        if !is_snapshot_submission(event) {
            return Ok(ProcessOutcome::Ignored);
        }
        let se = match decode_snapshot_event(event) {
            Ok(se) => se,
            Err(e) => {
                return Err(e);
            },
        };
        let row = se.to_indexed_event(now);
        self.indexer.index_event(row);
        proof {
            assert(self@ =~= (ListenerModel {
                rows: upsert_rows(old(self)@.rows, indexed_of(decoded_se(event@), now)),
                ..old(self)@
            }));
        }
        let (verdict, _audit) = self.verify_snapshot_with_backend(
            se.epoch,
            se.hash.as_str(),
            Some(se.transaction_hash.as_str()),
            now,
        );
        Ok(ProcessOutcome::Reconciled(verdict))
    }
}

/// The listener state after processing each event of a batch in order.
pub open spec fn spec_tick_fold(m: ListenerModel, evs: Seq<RawEventModel>, now: u64) -> ListenerModel
    decreases evs.len(),
{
    if evs.len() == 0 {
        m
    } else {
        spec_process(spec_tick_fold(m, evs.drop_last(), now), evs.last(), now)
    }
}

/// How many events of the batch are snapshot submissions that do not
/// decode.
pub open spec fn tick_decode_errors(evs: Seq<RawEventModel>) -> int
    decreases evs.len(),
{
    if evs.len() == 0 {
        0
    } else {
        tick_decode_errors(evs.drop_last()) + if raw_is_snap(evs.last()) && !decode_ok(
            evs.last(),
        ) {
            1int
        } else {
            0int
        }
    }
}

/// How many events of the batch are snapshot submissions that decode.
pub open spec fn tick_processed(evs: Seq<RawEventModel>) -> int
    decreases evs.len(),
{
    if evs.len() == 0 {
        0
    } else {
        tick_processed(evs.drop_last()) + if raw_is_snap(evs.last()) && decode_ok(evs.last()) {
            1int
        } else {
            0int
        }
    }
}

/// How many events of the batch do not carry the submission topic.
pub open spec fn tick_ignored(evs: Seq<RawEventModel>) -> int
    decreases evs.len(),
{
    if evs.len() == 0 {
        0
    } else {
        tick_ignored(evs.drop_last()) + if !raw_is_snap(evs.last()) {
            1int
        } else {
            0int
        }
    }
}

/// Tick counts never exceed the batch length.
proof fn lemma_tick_counts_bound(evs: Seq<RawEventModel>)
    ensures
        0 <= tick_decode_errors(evs) <= evs.len(),
        0 <= tick_processed(evs) <= evs.len(),
        0 <= tick_ignored(evs) <= evs.len(),
    decreases evs.len(),
{
    if evs.len() > 0 {
        lemma_tick_counts_bound(evs.drop_last());
    }
}

/// How many snapshot submissions may fail to decode within one tick
/// before a listener-failure alert is raised.
pub open spec fn decode_error_threshold() -> int {
    10
}

/// The listener state after one poll tick against chain head
/// `current`: a head at or below the cursor is a no-op (a ledger
/// regression included); otherwise every event of the batch is processed
/// in order, a tick with more decode errors than the threshold raises a
/// listener-failure alert, and the cursor advances to the head whatever
/// the per-event outcomes were.
pub open spec fn spec_tick(
    m: ListenerModel,
    current: u64,
    evs: Seq<RawEventModel>,
    now: u64,
) -> ListenerModel {
    if current <= m.last_ledger {
        m
    } else {
        let m1 = spec_tick_fold(m, evs, now);
        let m2 = if tick_decode_errors(evs) > decode_error_threshold() {
            ListenerModel {
                alerts: m1.alerts.push(
                    listener_failure_alert("too many decode errors in one tick"@, now),
                ),
                ..m1
            }
        } else {
            m1
        };
        ListenerModel { last_ledger: current, ..m2 }
    }
}

/// What one call to [`ContractEventListener::run_tick`] reports.
#[derive(Clone, Copy, Debug, PartialEq, Eq, Structural)]
pub struct TickReport {
    /// Snapshot submissions decoded, recorded and verified.
    pub processed: u64,
    /// Snapshot submissions that did not decode and were skipped.
    pub decode_errors: u64,
    /// Events without the snapshot-submission topic.
    pub ignored: u64,
}

impl ContractEventListener {
    /// Runs one poll tick: the runtime has read chain head
    /// `current_ledger` and fetched `events` for the window past the
    /// cursor; this decodes, records and verifies each snapshot
    /// submission, skips events that do not decode, and advances the
    /// cursor to the head. After any tick the cursor is at least the end
    /// of the processed window.
    pub fn run_tick(&mut self, current_ledger: u64, events: Vec<RawEvent>, now: u64) -> (r:
        TickReport)
        requires
            old(self).wf(),
        ensures
            final(self)@ == spec_tick(old(self)@, current_ledger, raws_view(events@), now),
            final(self).wf(),
            final(self)@.last_ledger >= old(self)@.last_ledger,
            current_ledger > old(self)@.last_ledger ==> final(self)@.last_ledger
                == current_ledger,
            current_ledger <= old(self)@.last_ledger ==> final(self)@ == old(self)@ && r == (
            TickReport { processed: 0, decode_errors: 0, ignored: 0 }),
            current_ledger > old(self)@.last_ledger ==> {
                &&& r.processed == tick_processed(raws_view(events@))
                &&& r.decode_errors == tick_decode_errors(raws_view(events@))
                &&& r.ignored == tick_ignored(raws_view(events@))
            },
    {
        if current_ledger <= self.last_ledger {
            return TickReport { processed: 0, decode_errors: 0, ignored: 0 };
        }
        let ghost m0 = self@;
        let ghost evs = raws_view(events@);
        let n = events.len();
        let mut processed: u64 = 0;
        let mut decode_errors: u64 = 0;
        let mut ignored: u64 = 0;
        assert(evs.subrange(0, 0) =~= Seq::<RawEventModel>::empty());
        let mut i: usize = 0;
        while i < n
            invariant
                n == events@.len(),
                i <= n,
                evs == raws_view(events@),
                m0 == old(self)@,
                self@ == spec_tick_fold(m0, evs.subrange(0, i as int), now),
                self.wf(),
                processed == tick_processed(evs.subrange(0, i as int)),
                decode_errors == tick_decode_errors(evs.subrange(0, i as int)),
                ignored == tick_ignored(evs.subrange(0, i as int)),
            decreases n - i,
        {
            let ghost pre = evs.subrange(0, i as int);
            let ghost post = evs.subrange(0, i + 1);
            proof {
                assert(post.drop_last() =~= pre);
                assert(post.last() == evs[i as int]);
                lemma_tick_counts_bound(pre);
            }
            match self.process_event(&events[i], now) {
                Ok(ProcessOutcome::Ignored) => {
                    ignored = ignored + 1;
                },
                Ok(ProcessOutcome::Reconciled(_)) => {
                    processed = processed + 1;
                },
                Err(_) => {
                    decode_errors = decode_errors + 1;
                },
            }
            proof {
                assert(self@ == spec_tick_fold(m0, post, now));
            }
            i = i + 1;
        }
        proof {
            assert(evs.subrange(0, n as int) =~= evs);
        }
        if decode_errors > 10 {
            self.alerts.alert_listener_failure(
                "too many decode errors in one tick".to_owned(),
                now,
            );
        }
        self.last_ledger = current_ledger;
        proof {
            assert(self@ =~= spec_tick(m0, current_ledger, evs, now));
        }
        TickReport { processed, decode_errors, ignored }
    }

    /// The most recently ingested rows of the event store, at most
    /// `limit` of them.
    pub fn get_recent_events(&self, limit: usize) -> (r: Vec<IndexedEvent>)
        ensures
            is_query_result(self@.rows, recent_query(limit), rows_view(r@)),
    {
        let q = EventQuery {
            limit: Some(limit),
            order_by: Some(EventOrderBy::CreatedAtDesc),
            contract_id: None,
            event_type: None,
            epoch: None,
            hash: None,
            ledger_range: None,
            time_range: None,
            verification_status: None,
            offset: None,
        };
        let r = self.indexer.query_events(&q);
        proof {
            assert(q@ =~= recent_query(limit));
        }
        r
    }
}

/// The filter behind [`ContractEventListener::get_recent_events`]: the
/// newest rows by ingestion time.
pub open spec fn recent_query(limit: usize) -> QueryModel {
    QueryModel {
        contract_id: None,
        event_type: None,
        epoch: None,
        hash: None,
        ledger_range: None,
        time_range: None,
        verification_status: None,
        limit: Some(limit),
        offset: None,
        order_by: Some(EventOrderBy::CreatedAtDesc),
    }
}

} // verus!
