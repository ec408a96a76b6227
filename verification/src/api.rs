//! The operator-facing query facade: pagination defaults and response
//! shaping over the event store. Every operation here is read-only; the
//! HTTP collaborator only translates parameters in and serializes results
//! out.

use vstd::prelude::*;

use crate::indexer::{
    is_query_result, snapshot_rows, sorted_by_key, query_window, EventIndexer,
};
use crate::model::{
    opt_view, rows_view, summaries_view, EventModel, EventOrderBy, EventQuery, IndexedEvent,
    QueryModel, SummaryModel, VerificationStatus, VerificationSummary, summary_of,
};
use crate::snapshots::SnapshotModel;
use crate::text::str_eq;

verus! {

/// Mathematical view of the event-list parameters.
#[verifier::ext_equal]
pub ghost struct ListQueryModel {
    pub limit: Option<usize>,
    pub offset: Option<usize>,
    pub event_type: Option<Seq<char>>,
    pub verification_status: Option<Seq<char>>,
}

/// Query parameters accepted by the event-listing endpoint.
pub struct EventListQuery {
    pub limit: Option<usize>,
    pub offset: Option<usize>,
    pub event_type: Option<String>,
    pub verification_status: Option<String>,
}

impl View for EventListQuery {
    type V = ListQueryModel;

    open spec fn view(&self) -> ListQueryModel {
        ListQueryModel {
            limit: self.limit,
            offset: self.offset,
            event_type: opt_view(self.event_type),
            verification_status: opt_view(self.verification_status),
        }
    }
}

/// The verdict a status string denotes, if any.
pub open spec fn status_of_chars(s: Seq<char>) -> Option<VerificationStatus> {
    if s == "pending"@ {
        Some(VerificationStatus::Pending)
    } else if s == "verified"@ {
        Some(VerificationStatus::Verified)
    } else if s == "failed"@ {
        Some(VerificationStatus::Failed)
    } else {
        None
    }
}

/// Parses a verdict name: `pending`, `verified` or `failed`.
pub fn parse_status(s: &str) -> (r: Option<VerificationStatus>)
    ensures
        r == status_of_chars(s@),
{
    if str_eq(s, "pending") {
        Some(VerificationStatus::Pending)
    } else if str_eq(s, "verified") {
        Some(VerificationStatus::Verified)
    } else if str_eq(s, "failed") {
        Some(VerificationStatus::Failed)
    } else {
        None
    }
}

/// The store filter that a set of list parameters denotes, given the
/// parsed verdict filter.
pub open spec fn list_query(p: ListQueryModel, status: Option<VerificationStatus>) -> QueryModel {
    QueryModel {
        contract_id: None,
        event_type: p.event_type,
        epoch: None,
        hash: None,
        ledger_range: None,
        time_range: None,
        verification_status: status,
        limit: match p.limit {
            None => Some(50usize),
            Some(l) => Some(l),
        },
        offset: p.offset,
        order_by: Some(EventOrderBy::CreatedAtDesc),
    }
}

/// Lists contract events for the dashboard: filtered by the optional
/// event type and verdict, newest ingested first, fifty per page unless a
/// limit is given. A verdict string that names no verdict matches no row.
pub fn list_contract_events(indexer: &EventIndexer, params: &EventListQuery) -> (r: Vec<
    IndexedEvent,
>)
    ensures
        (params@.verification_status matches Some(vs) && status_of_chars(vs) is None) ==> r@.len()
            == 0,
        (match params@.verification_status {
            None => true,
            Some(vs) => status_of_chars(vs) is Some,
        }) ==> is_query_result(
            indexer@,
            list_query(
                params@,
                match params@.verification_status {
                    None => None,
                    Some(vs) => status_of_chars(vs),
                },
            ),
            rows_view(r@),
        ),
{
    let status: Option<VerificationStatus> = match &params.verification_status {
        None => None,
        Some(s) => {
            match parse_status(s.as_str()) {
                Some(vs) => Some(vs),
                None => {
                    let empty: Vec<IndexedEvent> = Vec::new();
                    assert(rows_view(empty@) =~= Seq::<EventModel>::empty());
                    return empty;
                },
            }
        },
    };
    let q = EventQuery {
        event_type: crate::model::clone_opt_string(&params.event_type),
        verification_status: status,
        limit: match params.limit {
            None => Some(50),
            Some(l) => Some(l),
        },
        offset: params.offset,
        order_by: Some(EventOrderBy::CreatedAtDesc),
        contract_id: None,
        epoch: None,
        hash: None,
        ledger_range: None,
        time_range: None,
    };
    let r = indexer.query_events(&q);
    proof {
        assert(q@ =~= list_query(
            params@,
            match params@.verification_status {
                None => None,
                Some(vs) => status_of_chars(vs),
            },
        ));
    }
    r
}

/// The dashboard's reconciliation overview: the newest audit-trail line
/// flattened into the headline fields, and the trail itself, at most ten
/// lines.
pub struct VerificationSummaryResponse {
    pub latest_epoch: Option<u64>,
    pub latest_status: Option<VerificationStatus>,
    pub latest_hash: Option<String>,
    pub latest_ledger: Option<u64>,
    pub latest_submitted: Option<u64>,
    pub audit_trail: Vec<VerificationSummary>,
}

/// Shapes the reconciliation overview from the event store: the audit
/// trail of the ten most recent epochs, with the newest line's fields
/// surfaced as the headline.
pub fn get_verification_summary_response(indexer: &EventIndexer) -> (r:
    VerificationSummaryResponse)
    ensures
        exists|s: Seq<EventModel>|
            {
                &&& #[trigger] s.to_multiset() == snapshot_rows(indexer@).to_multiset()
                &&& sorted_by_key(EventOrderBy::EpochDesc, s)
                &&& r.audit_trail@.len() == query_window(s, 0, 10).len()
                &&& forall|i: int|
                    0 <= i < r.audit_trail@.len() ==> summaries_view(r.audit_trail@)[i]
                        == summary_of(s[i])
            },
        r.audit_trail@.len() <= 10,
        r.audit_trail@.len() == 0 ==> r.latest_epoch is None && r.latest_status is None
            && r.latest_hash is None && r.latest_ledger is None && r.latest_submitted is None,
        r.audit_trail@.len() > 0 ==> {
            let head = summaries_view(r.audit_trail@)[0];
            &&& r.latest_epoch == Some(head.epoch)
            &&& r.latest_status == Some(head.verification_status)
            &&& opt_view(r.latest_hash) == head.hash
            &&& r.latest_ledger == Some(head.ledger)
            &&& r.latest_submitted == Some(head.created_at)
        },
{
    let trail = indexer.get_verification_summary(10);
    if trail.len() == 0 {
        VerificationSummaryResponse {
            latest_epoch: None,
            latest_status: None,
            latest_hash: None,
            latest_ledger: None,
            latest_submitted: None,
            audit_trail: trail,
        }
    } else {
        let latest_epoch = Some(trail[0].epoch);
        let latest_status = Some(trail[0].verification_status);
        let latest_hash = crate::model::clone_opt_string(&trail[0].hash);
        let latest_ledger = Some(trail[0].ledger);
        let latest_submitted = Some(trail[0].created_at);
        VerificationSummaryResponse {
            latest_epoch,
            latest_status,
            latest_hash,
            latest_ledger,
            latest_submitted,
            audit_trail: trail,
        }
    }
}

} // verus!
