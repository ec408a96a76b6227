//! Data model of the event store.
//!
//! `IndexedEvent` is one row of the store: a decoded contract event with
//! ingestion metadata and an optional verification verdict. Each executable
//! type has a mathematical view (`EventModel`, `QueryModel`) over which the
//! store's contracts are stated.

use vstd::prelude::*;

verus! {

/// Verification verdict recorded on a row. A row with no verdict yet
/// carries `None` and is surfaced as pending.
#[derive(Clone, Copy, Debug, PartialEq, Eq, Structural)]
pub enum VerificationStatus {
    Pending,
    Verified,
    Failed,
}

/// A terminal verdict can never be overwritten.
pub open spec fn is_terminal(s: Option<VerificationStatus>) -> bool {
    s == Some(VerificationStatus::Verified) || s == Some(VerificationStatus::Failed)
}

/// Executable test for [`is_terminal`].
pub fn check_terminal(s: &Option<VerificationStatus>) -> (r: bool)
    ensures
        r == is_terminal(*s),
{
    match s {
        Some(VerificationStatus::Verified) => true,
        Some(VerificationStatus::Failed) => true,
        _ => false,
    }
}

/// Mathematical view of one stored event row.
#[verifier::ext_equal]
pub ghost struct EventModel {
    pub id: Seq<char>,
    pub contract_id: Seq<char>,
    pub event_type: Seq<char>,
    pub epoch: Option<u64>,
    pub hash: Option<Seq<char>>,
    pub timestamp: Option<u64>,
    pub ledger: u64,
    pub transaction_hash: Seq<char>,
    pub created_at: u64,
    pub verification_status: Option<VerificationStatus>,
    pub verified_at: Option<u64>,
}

/// The view of an optional owned string.
pub open spec fn opt_view(o: Option<String>) -> Option<Seq<char>> {
    match o {
        None => None,
        Some(s) => Some(s@),
    }
}

/// One row of the event store: a contract event decoded from the chain,
/// keyed by its chain-assigned event id.
pub struct IndexedEvent {
    pub id: String,
    pub contract_id: String,
    pub event_type: String,
    pub epoch: Option<u64>,
    pub hash: Option<String>,
    pub timestamp: Option<u64>,
    pub ledger: u64,
    pub transaction_hash: String,
    pub created_at: u64,
    pub verification_status: Option<VerificationStatus>,
    pub verified_at: Option<u64>,
}

impl View for IndexedEvent {
    type V = EventModel;

    open spec fn view(&self) -> EventModel {
        EventModel {
            id: self.id@,
            contract_id: self.contract_id@,
            event_type: self.event_type@,
            epoch: self.epoch,
            hash: opt_view(self.hash),
            timestamp: self.timestamp,
            ledger: self.ledger,
            transaction_hash: self.transaction_hash@,
            created_at: self.created_at,
            verification_status: self.verification_status,
            verified_at: self.verified_at,
        }
    }
}

/// Clones an optional owned string, preserving the value exactly.
pub fn clone_opt_string(o: &Option<String>) -> (r: Option<String>)
    ensures
        r == *o,
{
    match o {
        None => None,
        Some(s) => Some(s.clone()),
    }
}

impl Clone for IndexedEvent {
    fn clone(&self) -> (r: Self)
        ensures
            r == *self,
    {
        IndexedEvent {
            id: self.id.clone(),
            contract_id: self.contract_id.clone(),
            event_type: self.event_type.clone(),
            epoch: self.epoch,
            hash: clone_opt_string(&self.hash),
            timestamp: self.timestamp,
            ledger: self.ledger,
            transaction_hash: self.transaction_hash.clone(),
            created_at: self.created_at,
            verification_status: self.verification_status,
            verified_at: self.verified_at,
        }
    }
}

/// The view of a row sequence.
pub open spec fn rows_view(s: Seq<IndexedEvent>) -> Seq<EventModel> {
    s.map_values(|e: IndexedEvent| e@)
}

/// Sort orders offered by the query layer; a closed enumeration, so no
/// caller-supplied text ever reaches an ordering decision.
#[derive(Clone, Copy, Debug, PartialEq, Eq, Structural)]
pub enum EventOrderBy {
    CreatedAtAsc,
    CreatedAtDesc,
    LedgerAsc,
    LedgerDesc,
    EpochAsc,
    EpochDesc,
}

/// An absent epoch sorts below every present epoch.
pub open spec fn epoch_key(e: EventModel) -> int {
    match e.epoch {
        None => -1,
        Some(v) => v as int,
    }
}

/// The integer key a row is sorted by under the given order; descending
/// orders negate the key.
pub open spec fn sort_key(ord: EventOrderBy, e: EventModel) -> int {
    match ord {
        EventOrderBy::CreatedAtAsc => e.created_at as int,
        EventOrderBy::CreatedAtDesc => -(e.created_at as int),
        EventOrderBy::LedgerAsc => e.ledger as int,
        EventOrderBy::LedgerDesc => -(e.ledger as int),
        EventOrderBy::EpochAsc => epoch_key(e),
        EventOrderBy::EpochDesc => -epoch_key(e),
    }
}

/// Whether `a` may stand before `b` under the given order.
pub fn key_le(ord: EventOrderBy, a: &IndexedEvent, b: &IndexedEvent) -> (r: bool)
    ensures
        r == (sort_key(ord, a@) <= sort_key(ord, b@)),
{
    match ord {
        EventOrderBy::CreatedAtAsc => a.created_at <= b.created_at,
        EventOrderBy::CreatedAtDesc => b.created_at <= a.created_at,
        EventOrderBy::LedgerAsc => a.ledger <= b.ledger,
        EventOrderBy::LedgerDesc => b.ledger <= a.ledger,
        EventOrderBy::EpochAsc => epoch_key_exec(a) <= epoch_key_exec(b),
        EventOrderBy::EpochDesc => epoch_key_exec(b) <= epoch_key_exec(a),
    }
}

/// Executable epoch key: absent epochs sort below present ones.
fn epoch_key_exec(e: &IndexedEvent) -> (r: i128)
    ensures
        r == epoch_key(e@),
{
    match e.epoch {
        None => -1,
        Some(v) => v as i128,
    }
}

/// Mathematical view of a query filter.
#[verifier::ext_equal]
pub ghost struct QueryModel {
    pub contract_id: Option<Seq<char>>,
    pub event_type: Option<Seq<char>>,
    pub epoch: Option<u64>,
    pub hash: Option<Seq<char>>,
    pub ledger_range: Option<(u64, u64)>,
    pub time_range: Option<(u64, u64)>,
    pub verification_status: Option<VerificationStatus>,
    pub limit: Option<usize>,
    pub offset: Option<usize>,
    pub order_by: Option<EventOrderBy>,
}

/// A query filter: absent fields do not constrain, present fields are
/// conjoined. Ranges are inclusive on both ends.
pub struct EventQuery {
    pub contract_id: Option<String>,
    pub event_type: Option<String>,
    pub epoch: Option<u64>,
    pub hash: Option<String>,
    pub ledger_range: Option<(u64, u64)>,
    pub time_range: Option<(u64, u64)>,
    pub verification_status: Option<VerificationStatus>,
    pub limit: Option<usize>,
    pub offset: Option<usize>,
    pub order_by: Option<EventOrderBy>,
}

impl View for EventQuery {
    type V = QueryModel;

    open spec fn view(&self) -> QueryModel {
        QueryModel {
            contract_id: opt_view(self.contract_id),
            event_type: opt_view(self.event_type),
            epoch: self.epoch,
            hash: opt_view(self.hash),
            ledger_range: self.ledger_range,
            time_range: self.time_range,
            verification_status: self.verification_status,
            limit: self.limit,
            offset: self.offset,
            order_by: self.order_by,
        }
    }
}

/// The query that constrains nothing and keeps the default order and
/// pagination.
pub open spec fn empty_query() -> QueryModel {
    QueryModel {
        contract_id: None,
        event_type: None,
        epoch: None,
        hash: None,
        ledger_range: None,
        time_range: None,
        verification_status: None,
        limit: None,
        offset: None,
        order_by: None,
    }
}

impl Default for EventQuery {
    fn default() -> (r: Self)
        ensures
            r@ == empty_query(),
    {
        EventQuery {
            contract_id: None,
            event_type: None,
            epoch: None,
            hash: None,
            ledger_range: None,
            time_range: None,
            verification_status: None,
            limit: None,
            offset: None,
            order_by: None,
        }
    }
}

/// Whether a row satisfies a filter: every present field must match.
pub open spec fn matches_query(q: QueryModel, e: EventModel) -> bool {
    &&& (q.contract_id matches Some(c) ==> e.contract_id == c)
    &&& (q.event_type matches Some(t) ==> e.event_type == t)
    &&& (q.epoch matches Some(ep) ==> e.epoch == Some(ep))
    &&& (q.hash matches Some(h) ==> e.hash == Some(h))
    &&& (q.ledger_range matches Some(r) ==> r.0 <= e.ledger <= r.1)
    &&& (q.time_range matches Some(r) ==> r.0 <= e.created_at <= r.1)
    &&& (q.verification_status matches Some(vs) ==> e.verification_status == Some(vs))
}

/// Executable test for [`matches_query`].
pub fn event_matches(q: &EventQuery, e: &IndexedEvent) -> (r: bool)
    ensures
        r == matches_query(q@, e@),
{
    let cid_ok = match &q.contract_id {
        None => true,
        Some(c) => *c == e.contract_id,
    };
    let ty_ok = match &q.event_type {
        None => true,
        Some(t) => *t == e.event_type,
    };
    let ep_ok = match q.epoch {
        None => true,
        Some(ep) => match e.epoch {
            None => false,
            Some(v) => v == ep,
        },
    };
    let hash_ok = match &q.hash {
        None => true,
        Some(h) => match &e.hash {
            None => false,
            Some(v) => *v == *h,
        },
    };
    let ledger_ok = match q.ledger_range {
        None => true,
        Some((lo, hi)) => lo <= e.ledger && e.ledger <= hi,
    };
    let time_ok = match q.time_range {
        None => true,
        Some((t0, t1)) => t0 <= e.created_at && e.created_at <= t1,
    };
    let status_ok = match q.verification_status {
        None => true,
        Some(vs) => match e.verification_status {
            None => false,
            Some(v) => v == vs,
        },
    };
    cid_ok && ty_ok && ep_ok && hash_ok && ledger_ok && time_ok && status_ok
}

/// Aggregate statistics over the store.
#[derive(Clone, Copy, Debug)]
pub struct EventStats {
    pub total_events: u64,
    pub verified_snapshots: u64,
    pub failed_verifications: u64,
    pub latest_epoch: Option<u64>,
    pub latest_ledger: Option<u64>,
    pub events_last_24h: u64,
}

/// One line of the operator-facing audit trail: a snapshot submission
/// projected to its verification outcome. A row without a recorded verdict
/// is surfaced as pending.
pub struct VerificationSummary {
    pub epoch: u64,
    pub hash: Option<String>,
    pub ledger: u64,
    pub verification_status: VerificationStatus,
    pub created_at: u64,
    pub transaction_hash: String,
}

/// Mathematical view of an audit-trail line.
#[verifier::ext_equal]
pub ghost struct SummaryModel {
    pub epoch: u64,
    pub hash: Option<Seq<char>>,
    pub ledger: u64,
    pub verification_status: VerificationStatus,
    pub created_at: u64,
    pub transaction_hash: Seq<char>,
}

impl View for VerificationSummary {
    type V = SummaryModel;

    open spec fn view(&self) -> SummaryModel {
        SummaryModel {
            epoch: self.epoch,
            hash: opt_view(self.hash),
            ledger: self.ledger,
            verification_status: self.verification_status,
            created_at: self.created_at,
            transaction_hash: self.transaction_hash@,
        }
    }
}

/// The view of a sequence of audit-trail lines.
pub open spec fn summaries_view(s: Seq<VerificationSummary>) -> Seq<SummaryModel> {
    s.map_values(|x: VerificationSummary| x@)
}

/// The audit-trail projection of a snapshot-submission row, defined for
/// rows that carry an epoch.
pub open spec fn summary_of(e: EventModel) -> SummaryModel {
    SummaryModel {
        epoch: e.epoch->0,
        hash: e.hash,
        ledger: e.ledger,
        verification_status: match e.verification_status {
            None => VerificationStatus::Pending,
            Some(vs) => vs,
        },
        created_at: e.created_at,
        transaction_hash: e.transaction_hash,
    }
}

} // verus!
