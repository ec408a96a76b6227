//! The event store: rows of [`IndexedEvent`] keyed by event id, with
//! idempotent, verdict-preserving upsert, filtered queries, statistics and
//! retention.
//!
//! The store's behaviour is specified over its view, a sequence of
//! [`EventModel`] rows with pairwise distinct ids. Re-ingesting an event
//! replaces every column of its row except a terminal verification verdict,
//! which is never overwritten.

use vstd::prelude::*;

use crate::model::{
    is_terminal, matches_query, rows_view, sort_key, EventModel, EventOrderBy, EventQuery,
    EventStats, IndexedEvent, QueryModel, SummaryModel, VerificationStatus, VerificationSummary,
    check_terminal, clone_opt_string, event_matches, key_le, summary_of,
};
use crate::text::str_eq;
use vstd::multiset::Multiset;

verus! {

/// Every row has its own id: the store never holds two rows for one event.
pub open spec fn unique_ids(rows: Seq<EventModel>) -> bool {
    forall|i: int, j: int| 0 <= i < j < rows.len() ==> rows[i].id != rows[j].id
}

/// The row that an upsert of `e` leaves in place of `prev`: every column
/// taken from `e`, except that a terminal verdict of `prev` survives.
pub open spec fn merge_row(prev: EventModel, e: EventModel) -> EventModel {
    if is_terminal(prev.verification_status) {
        EventModel {
            verification_status: prev.verification_status,
            verified_at: prev.verified_at,
            ..e
        }
    } else {
        e
    }
}

/// The store's rows after upserting `e`: the row with `e`'s id is merged in
/// place, or `e` is appended when no such row exists.
pub open spec fn upsert_rows(rows: Seq<EventModel>, e: EventModel) -> Seq<EventModel> {
    if exists|i: int| 0 <= i < rows.len() && rows[i].id == e.id {
        let i = choose|i: int| 0 <= i < rows.len() && rows[i].id == e.id;
        rows.update(i, merge_row(rows[i], e))
    } else {
        rows.push(e)
    }
}

/// Upserting never duplicates an id.
pub proof fn lemma_upsert_unique(rows: Seq<EventModel>, e: EventModel)
    requires
        unique_ids(rows),
    ensures
        unique_ids(upsert_rows(rows, e)),
{
    if exists|i: int| 0 <= i < rows.len() && rows[i].id == e.id {
        let i = choose|i: int| 0 <= i < rows.len() && rows[i].id == e.id;
        assert(merge_row(rows[i], e).id == e.id);
    }
}

/// The merge of a merged row with the same event changes nothing further.
proof fn lemma_merge_absorbs(prev: EventModel, e: EventModel)
    ensures
        merge_row(merge_row(prev, e), e) == merge_row(prev, e),
{
    if is_terminal(prev.verification_status) {
        assert(merge_row(merge_row(prev, e), e) =~= merge_row(prev, e));
    } else {
        if is_terminal(e.verification_status) {
            assert(merge_row(e, e) =~= e);
        }
    }
}

/// Upserting the same event a second time leaves the store unchanged.
pub proof fn lemma_upsert_idempotent(rows: Seq<EventModel>, e: EventModel)
    requires
        unique_ids(rows),
    ensures
        upsert_rows(upsert_rows(rows, e), e) == upsert_rows(rows, e),
{
    lemma_upsert_unique(rows, e);
    let once = upsert_rows(rows, e);
    if exists|i: int| 0 <= i < rows.len() && rows[i].id == e.id {
        let i = choose|i: int| 0 <= i < rows.len() && rows[i].id == e.id;
        assert(once == rows.update(i, merge_row(rows[i], e)));
        assert(once[i].id == e.id);
        let j = choose|j: int| 0 <= j < once.len() && once[j].id == e.id;
        assert(j == i);
        lemma_merge_absorbs(rows[i], e);
        assert(upsert_rows(once, e) =~= once);
    } else {
        assert(once == rows.push(e));
        assert(once[rows.len() as int].id == e.id);
        let j = choose|j: int| 0 <= j < once.len() && once[j].id == e.id;
        assert(j == rows.len());
        lemma_merge_absorbs(e, e);
        assert(upsert_rows(once, e) =~= once);
    }
}

/// The store's rows after upserting the same event `k` times.
pub open spec fn upsert_rows_times(rows: Seq<EventModel>, e: EventModel, k: nat) -> Seq<
    EventModel,
>
    decreases k,
{
    if k == 0 {
        rows
    } else {
        upsert_rows(upsert_rows_times(rows, e, (k - 1) as nat), e)
    }
}

/// Upserting an event any number of times `k >= 1` yields exactly the row
/// state of upserting it once.
pub proof fn lemma_upsert_times_idempotent(rows: Seq<EventModel>, e: EventModel, k: nat)
    requires
        unique_ids(rows),
        k >= 1,
    ensures
        upsert_rows_times(rows, e, k) == upsert_rows(rows, e),
    decreases k,
{
    if k == 1 {
        assert(upsert_rows_times(rows, e, 0) == rows);
        assert(upsert_rows_times(rows, e, 1) == upsert_rows(rows, e));
    } else {
        lemma_upsert_times_idempotent(rows, e, (k - 1) as nat);
        lemma_upsert_idempotent(rows, e);
        assert(upsert_rows_times(rows, e, k) == upsert_rows(upsert_rows_times(rows, e, (k - 1) as nat), e));
    }
}

/// Once a row's verdict is terminal, re-ingesting its event neither
/// removes the row nor rewrites its verdict.
pub proof fn lemma_upsert_verdict_monotonic(rows: Seq<EventModel>, e: EventModel, i: int)
    requires
        unique_ids(rows),
        0 <= i < rows.len(),
        rows[i].id == e.id,
        is_terminal(rows[i].verification_status),
    ensures
        upsert_rows(rows, e).len() == rows.len(),
        upsert_rows(rows, e)[i].id == rows[i].id,
        upsert_rows(rows, e)[i].verification_status == rows[i].verification_status,
        upsert_rows(rows, e)[i].verified_at == rows[i].verified_at,
{
    let j = choose|j: int| 0 <= j < rows.len() && rows[j].id == e.id;
    assert(j == i);
}

/// Durable table of indexed contract events with upsert-by-id, rich
/// filtering, pagination and retention.
pub struct EventIndexer {
    rows: Vec<IndexedEvent>,
}

impl View for EventIndexer {
    type V = Seq<EventModel>;

    closed spec fn view(&self) -> Seq<EventModel> {
        rows_view(self.rows@)
    }
}

impl EventIndexer {
    /// Well-formedness: ids are pairwise distinct.
    pub open spec fn wf(&self) -> bool {
        unique_ids(self@)
    }

    /// Creates an empty store.
    pub fn new() -> (r: Self)
        ensures
            r@ == Seq::<EventModel>::empty(),
            r.wf(),
    {
        let r = EventIndexer { rows: Vec::new() };
        proof {
            assert(r@ =~= Seq::<EventModel>::empty());
        }
        r
    }

    /// The number of rows held.
    pub fn len(&self) -> (r: usize)
        ensures
            r == self@.len(),
    {
        self.rows.len()
    }

    /// Indexes a contract event: upsert by id, keeping any terminal verdict
    /// already recorded on the row.
    pub fn index_event(&mut self, event: IndexedEvent)
        requires
            old(self).wf(),
        ensures
            final(self)@ == upsert_rows(old(self)@, event@),
            final(self).wf(),
    {
        proof {
            lemma_upsert_unique(self@, event@);
        }
        let ghost rows0 = self@;
        let n = self.rows.len();
        let mut i: usize = 0;
        while i < n
            invariant
                n == self.rows.len(),
                i <= n,
                rows_view(self.rows@) == rows0,
                rows0 == old(self)@,
                unique_ids(rows0),
                forall|k: int| 0 <= k < i ==> rows0[k].id != event@.id,
            decreases n - i,
        {
            if str_eq(self.rows[i].id.as_str(), event.id.as_str()) {
                assert(rows0[i as int].id == event@.id);
                let vs = self.rows[i].verification_status;
                let va = self.rows[i].verified_at;
                let merged = if check_terminal(&vs) {
                    IndexedEvent { verification_status: vs, verified_at: va, ..event }
                } else {
                    event
                };
                proof {
                    assert(merged@ == merge_row(rows0[i as int], event@));
                    let j = choose|j: int| 0 <= j < rows0.len() && rows0[j].id == event@.id;
                    assert(j == i);
                }
                self.rows.set(i, merged);
                proof {
                    assert(rows_view(self.rows@) =~= rows0.update(
                        i as int,
                        merge_row(rows0[i as int], event@),
                    ));
                }
                return ;
            }
            i = i + 1;
        }
        self.rows.push(event);
        proof {
            assert(rows_view(self.rows@) =~= rows0.push(event@));
        }
    }

    /// Looks a row up by its event id.
    pub fn get_event_by_id(&self, id: &str) -> (r: Option<IndexedEvent>)
        ensures
            r is Some <==> exists|i: int| 0 <= i < self@.len() && self@[i].id == id@,
            r matches Some(e) ==> exists|i: int|
                0 <= i < self@.len() && self@[i] == e@ && #[trigger] self@[i].id == id@,
    {
        let n = self.rows.len();
        let mut i: usize = 0;
        while i < n
            invariant
                n == self.rows.len(),
                i <= n,
                forall|k: int| 0 <= k < i ==> rows_view(self.rows@)[k].id != id@,
            decreases n - i,
        {
            if str_eq(self.rows[i].id.as_str(), id) {
                let e = self.rows[i].clone();
                assert(rows_view(self.rows@)[i as int] == e@);
                assert(rows_view(self.rows@)[i as int].id == id@);
                return Some(e);
            }
            i = i + 1;
        }
        None
    }

    /// The rows after recording verdict `status` on the row with the given
    /// id at time `now`: a terminal verdict already present survives, and a
    /// missing row leaves the store unchanged.
    pub open spec fn set_status_rows(
        rows: Seq<EventModel>,
        id: Seq<char>,
        status: VerificationStatus,
        now: u64,
    ) -> Seq<EventModel> {
        if exists|i: int| 0 <= i < rows.len() && rows[i].id == id {
            let i = choose|i: int| 0 <= i < rows.len() && rows[i].id == id;
            if is_terminal(rows[i].verification_status) {
                rows
            } else {
                rows.update(
                    i,
                    EventModel {
                        verification_status: Some(status),
                        verified_at: Some(now),
                        ..rows[i]
                    },
                )
            }
        } else {
            rows
        }
    }

    /// Records a verification verdict on the row with the given event id.
    /// Returns whether a row was updated; a missing row is a no-op, and a
    /// terminal verdict is never overwritten.
    pub fn update_verification_status(
        &mut self,
        event_id: &str,
        status: VerificationStatus,
        now: u64,
    ) -> (updated: bool)
        requires
            old(self).wf(),
        ensures
            final(self)@ == Self::set_status_rows(old(self)@, event_id@, status, now),
            final(self).wf(),
            updated <==> exists|i: int|
                0 <= i < old(self)@.len() && #[trigger] old(self)@[i].id == event_id@
                    && !is_terminal(old(self)@[i].verification_status),
    {
        let ghost rows0 = self@;
        let n = self.rows.len();
        let mut i: usize = 0;
        while i < n
            invariant
                n == self.rows.len(),
                i <= n,
                rows_view(self.rows@) == rows0,
                rows0 == old(self)@,
                unique_ids(rows0),
                forall|k: int| 0 <= k < i ==> rows0[k].id != event_id@,
            decreases n - i,
        {
            if str_eq(self.rows[i].id.as_str(), event_id) {
                proof {
                    assert(rows0[i as int].id == event_id@);
                    let j = choose|j: int| 0 <= j < rows0.len() && rows0[j].id == event_id@;
                    assert(j == i);
                }
                if check_terminal(&self.rows[i].verification_status) {
                    return false;
                }
                let mut row = self.rows[i].clone();
                row.verification_status = Some(status);
                row.verified_at = Some(now);
                proof {
                    assert(row@ =~= EventModel {
                        verification_status: Some(status),
                        verified_at: Some(now),
                        ..rows0[i as int]
                    });
                }
                self.rows.set(i, row);
                proof {
                    assert(rows_view(self.rows@) =~= rows0.update(i as int, row@));
                }
                return true;
            }
            i = i + 1;
        }
        false
    }
}

/// The rows of `rows` that satisfy filter `q`, in store order.
pub open spec fn filtered_rows(rows: Seq<EventModel>, q: QueryModel) -> Seq<EventModel>
    decreases rows.len(),
{
    if rows.len() == 0 {
        Seq::empty()
    } else {
        let rest = filtered_rows(rows.drop_last(), q);
        if matches_query(q, rows.last()) {
            rest.push(rows.last())
        } else {
            rest
        }
    }
}

/// Every filtered row satisfies the filter.
pub proof fn lemma_filtered_pred(rows: Seq<EventModel>, q: QueryModel)
    ensures
        forall|i: int|
            0 <= i < filtered_rows(rows, q).len() ==> matches_query(
                q,
                #[trigger] filtered_rows(rows, q)[i],
            ),
    decreases rows.len(),
{
    if rows.len() > 0 {
        lemma_filtered_pred(rows.drop_last(), q);
        let rest = filtered_rows(rows.drop_last(), q);
        assert forall|i: int| 0 <= i < filtered_rows(rows, q).len() implies matches_query(
            q,
            #[trigger] filtered_rows(rows, q)[i],
        ) by {
            if matches_query(q, rows.last()) {
                assert(filtered_rows(rows, q) == rest.push(rows.last()));
                if i < rest.len() {
                    assert(filtered_rows(rows, q)[i] == rest[i]);
                }
            } else {
                assert(filtered_rows(rows, q) == rest);
            }
        }
    }
}

/// Every filtered row is a row of the store.
pub proof fn lemma_filtered_subset(rows: Seq<EventModel>, q: QueryModel)
    ensures
        forall|x: EventModel| #[trigger]
            filtered_rows(rows, q).contains(x) ==> rows.contains(x),
    decreases rows.len(),
{
    if rows.len() > 0 {
        lemma_filtered_subset(rows.drop_last(), q);
        assert forall|x: EventModel| #[trigger]
            filtered_rows(rows, q).contains(x) implies rows.contains(x) by {
            let f = filtered_rows(rows, q);
            let k = choose|k: int| 0 <= k < f.len() && f[k] == x;
            if matches_query(q, rows.last()) && k == f.len() - 1 {
                assert(rows[rows.len() - 1] == x);
            } else {
                assert(filtered_rows(rows.drop_last(), q).contains(x));
                let t = choose|t: int|
                    0 <= t < rows.drop_last().len() && rows.drop_last()[t] == x;
                assert(rows[t] == x);
            }
        }
    }
}

/// Every row of the store that satisfies the filter appears among the
/// filtered rows.
pub proof fn lemma_filtered_complete(rows: Seq<EventModel>, q: QueryModel, k: int)
    requires
        0 <= k < rows.len(),
        matches_query(q, rows[k]),
    ensures
        filtered_rows(rows, q).contains(rows[k]),
    decreases rows.len(),
{
    if k == rows.len() - 1 {
        assert(rows.last() == rows[k]);
        let f = filtered_rows(rows, q);
        assert(f[f.len() - 1] == rows[k]);
    } else {
        lemma_filtered_complete(rows.drop_last(), q, k);
        let rest = filtered_rows(rows.drop_last(), q);
        let t = choose|t: int| 0 <= t < rest.len() && rest[t] == rows.drop_last()[k];
        assert(filtered_rows(rows, q)[t] == rows[k]);
    }
}

/// The order a query sorts by; newest ingested first when unspecified.
pub open spec fn order_of(q: QueryModel) -> EventOrderBy {
    match q.order_by {
        None => EventOrderBy::CreatedAtDesc,
        Some(o) => o,
    }
}

/// The page size a query returns: 50 when unspecified, capped at 1000.
pub open spec fn limit_of(q: QueryModel) -> int {
    match q.limit {
        None => 50,
        Some(l) => if l > 1000 {
            1000
        } else {
            l as int
        },
    }
}

/// The number of leading rows a query skips.
pub open spec fn offset_of(q: QueryModel) -> int {
    match q.offset {
        None => 0,
        Some(o) => o as int,
    }
}

/// Whether `s` is sorted by the given order's key.
pub open spec fn sorted_by_key(ord: EventOrderBy, s: Seq<EventModel>) -> bool {
    forall|i: int, j: int|
        0 <= i < j < s.len() ==> sort_key(ord, s[i]) <= sort_key(ord, s[j])
}

/// The page of `s` that offset `off` and limit `lim` select.
pub open spec fn query_window(s: Seq<EventModel>, off: int, lim: int) -> Seq<EventModel> {
    let lo = if off < s.len() {
        off
    } else {
        s.len() as int
    };
    let hi = if off + lim < s.len() {
        off + lim
    } else {
        s.len() as int
    };
    s.subrange(lo, hi)
}

/// The length of the selected page.
pub open spec fn window_len(n: int, off: int, lim: int) -> int {
    if off >= n {
        0
    } else if off + lim <= n {
        lim
    } else {
        n - off
    }
}

/// What `query` returns: some ordering `s` of the filtered rows, sorted by
/// the query's key, of which the result is the page the query selects.
/// Rows with equal keys may come back in either order, as the store gives
/// no further guarantee.
pub open spec fn is_query_result(rows: Seq<EventModel>, q: QueryModel, out: Seq<EventModel>) -> bool {
    exists|s: Seq<EventModel>|
        {
            &&& #[trigger] s.to_multiset() == filtered_rows(rows, q).to_multiset()
            &&& sorted_by_key(order_of(q), s)
            &&& out == query_window(s, offset_of(q), limit_of(q))
        }
}

/// What every query result satisfies: only matching rows of the store come
/// back, sorted, at most a page of them, and when the page covers the whole
/// filtered set the result is exactly the filtered rows.
pub proof fn lemma_query_result_props(rows: Seq<EventModel>, q: QueryModel, out: Seq<EventModel>)
    requires
        is_query_result(rows, q, out),
    ensures
        sorted_by_key(order_of(q), out),
        forall|i: int|
            0 <= i < out.len() ==> matches_query(q, #[trigger] out[i]) && rows.contains(out[i]),
        out.len() == window_len(filtered_rows(rows, q).len() as int, offset_of(q), limit_of(q)),
        offset_of(q) == 0 && filtered_rows(rows, q).len() <= limit_of(q) ==> out.to_multiset()
            == filtered_rows(rows, q).to_multiset(),
{
    broadcast use vstd::seq_lib::group_to_multiset_ensures;

    let s = choose|s: Seq<EventModel>|
        {
            &&& #[trigger] s.to_multiset() == filtered_rows(rows, q).to_multiset()
            &&& sorted_by_key(order_of(q), s)
            &&& out == query_window(s, offset_of(q), limit_of(q))
        };
    let f = filtered_rows(rows, q);
    s.to_multiset_ensures();
    f.to_multiset_ensures();
    assert(s.len() == f.len());
    let off = offset_of(q);
    let lim = limit_of(q);
    let lo = if off < s.len() {
        off
    } else {
        s.len() as int
    };
    let hi = if off + lim < s.len() {
        off + lim
    } else {
        s.len() as int
    };
    lemma_filtered_pred(rows, q);
    lemma_filtered_subset(rows, q);
    assert forall|i: int| 0 <= i < out.len() implies matches_query(q, #[trigger] out[i])
        && rows.contains(out[i]) by {
        assert(out[i] == s[lo + i]);
        assert(s.contains(s[lo + i]));
        assert(s.to_multiset().count(s[lo + i]) > 0);
        assert(f.contains(s[lo + i]));
        let k = choose|k: int| 0 <= k < f.len() && f[k] == s[lo + i];
        assert(matches_query(q, f[k]));
    }
    if off == 0 && f.len() <= lim {
        assert(out =~= s);
    }
}

/// Sorts events by the given order's key. The result is a permutation of
/// the input; ties may land in either order.
fn sort_events(v: Vec<IndexedEvent>, ord: EventOrderBy) -> (r: Vec<IndexedEvent>)
    ensures
        rows_view(r@).to_multiset() == rows_view(v@).to_multiset(),
        sorted_by_key(ord, rows_view(r@)),
        r@.len() == v@.len(),
{
    broadcast use vstd::seq_lib::group_to_multiset_ensures;

    let ghost orig = rows_view(v@);
    let mut rest = v;
    let mut out: Vec<IndexedEvent> = Vec::new();
    proof {
        assert(rows_view(out@) =~= Seq::<EventModel>::empty());
        assert(rows_view(out@).to_multiset() =~= Multiset::<EventModel>::empty());
        assert(rows_view(out@).to_multiset().add(rows_view(rest@).to_multiset()) =~= orig.to_multiset());
    }
    while rest.len() > 0
        invariant
            rows_view(out@).to_multiset().add(rows_view(rest@).to_multiset()) == orig.to_multiset(),
            out@.len() + rest@.len() == orig.len(),
            sorted_by_key(ord, rows_view(out@)),
            forall|i: int, j: int|
                0 <= i < out@.len() && 0 <= j < rest@.len() ==> sort_key(
                    ord,
                    #[trigger] rows_view(out@)[i],
                ) <= sort_key(ord, #[trigger] rows_view(rest@)[j]),
        decreases rest.len(),
    {
        let n = rest.len();
        let mut best: usize = 0;
        let mut t: usize = 1;
        while t < n
            invariant
                n == rest@.len(),
                best < n,
                t <= n,
                forall|u: int|
                    0 <= u < t ==> sort_key(ord, rows_view(rest@)[best as int]) <= sort_key(
                        ord,
                        #[trigger] rows_view(rest@)[u],
                    ),
            decreases n - t,
        {
            if key_le(ord, &rest[t], &rest[best]) {
                best = t;
            }
            t = t + 1;
        }
        let ghost rest0 = rows_view(rest@);
        let x = rest.remove(best);
        proof {
            assert(rows_view(rest@) =~= rest0.remove(best as int));
            rest0.remove_ensures(best as int);
            rest0.to_multiset_ensures();
            assert(rest0.remove(best as int).to_multiset() == rest0.to_multiset().remove(
                rest0[best as int],
            ));
            assert(x@ == rest0[best as int]);
            assert(rest0.to_multiset().count(x@) > 0) by {
                assert(rest0.contains(rest0[best as int]));
            }
        }
        let ghost out0 = rows_view(out@);
        out.push(x);
        proof {
            assert(rows_view(out@) =~= out0.push(x@));
            out0.to_multiset_ensures();
            assert(out0.push(x@).to_multiset() == out0.to_multiset().insert(x@));
            assert(out0.to_multiset().insert(x@).add(rest0.to_multiset().remove(x@))
                =~= out0.to_multiset().add(rest0.to_multiset()));
            assert forall|i: int, j: int|
                0 <= i < out@.len() && 0 <= j < rest@.len() implies sort_key(
                ord,
                #[trigger] rows_view(out@)[i],
            ) <= sort_key(ord, #[trigger] rows_view(rest@)[j]) by {
                assert(rows_view(rest@)[j] == if j < best as int {
                    rest0[j]
                } else {
                    rest0[j + 1]
                });
                assert(sort_key(ord, x@) <= sort_key(ord, rows_view(rest@)[j]));
                if i < out0.len() {
                    assert(rows_view(out@)[i] == out0[i]);
                } else {
                    assert(rows_view(out@)[i] == x@);
                }
            }
            assert forall|i: int, j: int| 0 <= i < j < out@.len() implies sort_key(
                ord,
                rows_view(out@)[i],
            ) <= sort_key(ord, rows_view(out@)[j]) by {
                if j < out0.len() {
                } else {
                    assert(rows_view(out@)[j] == x@);
                    assert(rows_view(out@)[i] == out0[i]);
                }
            }
        }
    }
    proof {
        assert(rows_view(rest@) =~= Seq::<EventModel>::empty());
        assert(rows_view(rest@).to_multiset() =~= Multiset::<EventModel>::empty());
        assert(rows_view(out@).to_multiset() =~= orig.to_multiset());
    }
    out
}

/// Clones the page `[off, off + lim)` of `v`, clipped to its length.
fn take_window(v: &Vec<IndexedEvent>, off: usize, lim: usize) -> (r: Vec<IndexedEvent>)
    ensures
        rows_view(r@) == query_window(rows_view(v@), off as int, lim as int),
{
    let n = v.len();
    let lo = if off < n {
        off
    } else {
        n
    };
    let hi = if n - lo < lim {
        n
    } else {
        lo + lim
    };
    let mut r: Vec<IndexedEvent> = Vec::new();
    assert(rows_view(r@) =~= rows_view(v@).subrange(lo as int, lo as int));
    let mut idx: usize = lo;
    while idx < hi
        invariant
            lo <= idx <= hi <= n,
            n == v@.len(),
            rows_view(r@) == rows_view(v@).subrange(lo as int, idx as int),
        decreases hi - idx,
    {
        let ghost r0 = rows_view(r@);
        let e = v[idx].clone();
        r.push(e);
        proof {
            assert(rows_view(r@) =~= r0.push(e@));
            assert(r0.push(e@) =~= rows_view(v@).subrange(lo as int, idx + 1));
        }
        idx = idx + 1;
    }
    proof {
        assert(rows_view(r@) =~= query_window(rows_view(v@), off as int, lim as int));
    }
    r
}

impl EventIndexer {
    /// Copies out the rows that satisfy the filter, in store order.
    fn filter_rows(&self, query: &EventQuery) -> (r: Vec<IndexedEvent>)
        ensures
            rows_view(r@) == filtered_rows(self@, query@),
    {
        let n = self.rows.len();
        let mut r: Vec<IndexedEvent> = Vec::new();
        assert(rows_view(r@) =~= filtered_rows(rows_view(self.rows@).subrange(0, 0), query@));
        let mut i: usize = 0;
        while i < n
            invariant
                n == self.rows@.len(),
                i <= n,
                rows_view(r@) == filtered_rows(rows_view(self.rows@).subrange(0, i as int), query@),
            decreases n - i,
        {
            let ghost pre = rows_view(self.rows@).subrange(0, i as int);
            let ghost post = rows_view(self.rows@).subrange(0, i + 1);
            proof {
                assert(post.drop_last() =~= pre);
                assert(post.last() == rows_view(self.rows@)[i as int]);
            }
            if event_matches(query, &self.rows[i]) {
                let e = self.rows[i].clone();
                r.push(e);
                assert(rows_view(r@) =~= filtered_rows(post, query@));
            } else {
                assert(rows_view(r@) == filtered_rows(post, query@));
            }
            i = i + 1;
        }
        proof {
            assert(rows_view(self.rows@).subrange(0, n as int) =~= rows_view(self.rows@));
        }
        r
    }

    /// Queries the store: rows satisfying the filter, sorted by the chosen
    /// order (newest ingested first when unspecified), then paginated with
    /// a default page of 50 rows and a cap of 1000.
    pub fn query_events(&self, query: &EventQuery) -> (r: Vec<IndexedEvent>)
        ensures
            is_query_result(self@, query@, rows_view(r@)),
            sorted_by_key(order_of(query@), rows_view(r@)),
            forall|i: int|
                0 <= i < r@.len() ==> matches_query(query@, #[trigger] rows_view(r@)[i])
                    && self@.contains(rows_view(r@)[i]),
            r@.len() == window_len(
                filtered_rows(self@, query@).len() as int,
                offset_of(query@),
                limit_of(query@),
            ),
            offset_of(query@) == 0 && filtered_rows(self@, query@).len() <= limit_of(query@)
                ==> rows_view(r@).to_multiset() == filtered_rows(self@, query@).to_multiset(),
    {
        let matched = self.filter_rows(query);
        let ord = match query.order_by {
            None => EventOrderBy::CreatedAtDesc,
            Some(o) => o,
        };
        let sorted = sort_events(matched, ord);
        let off = match query.offset {
            None => 0,
            Some(o) => o,
        };
        let lim = match query.limit {
            None => 50,
            Some(l) => if l > 1000 {
                1000
            } else {
                l
            },
        };
        let r = take_window(&sorted, off, lim);
        proof {
            assert(ord == order_of(query@));
            assert(off as int == offset_of(query@));
            assert(lim as int == limit_of(query@));
            assert(rows_view(sorted@).to_multiset() == filtered_rows(self@, query@).to_multiset());
            assert(rows_view(r@) == query_window(
                rows_view(sorted@),
                offset_of(query@),
                limit_of(query@),
            ));
            assert(is_query_result(self@, query@, rows_view(r@)));
            lemma_query_result_props(self@, query@, rows_view(r@));
        }
        r
    }
}

/// The filter behind [`EventIndexer::get_latest_snapshots`]: snapshot
/// submissions, most recent epoch first.
pub open spec fn snapshots_query(limit: usize) -> QueryModel {
    QueryModel {
        contract_id: None,
        event_type: Some("SNAP_SUB"@),
        epoch: None,
        hash: None,
        ledger_range: None,
        time_range: None,
        verification_status: None,
        limit: Some(limit),
        offset: None,
        order_by: Some(EventOrderBy::EpochDesc),
    }
}

/// The filter behind [`EventIndexer::get_events_for_epoch`]: one epoch's
/// rows, newest ingested first.
pub open spec fn epoch_query(epoch: u64) -> QueryModel {
    QueryModel {
        contract_id: None,
        event_type: None,
        epoch: Some(epoch),
        hash: None,
        ledger_range: None,
        time_range: None,
        verification_status: None,
        limit: None,
        offset: None,
        order_by: Some(EventOrderBy::CreatedAtDesc),
    }
}

/// The filter behind [`EventIndexer::get_verification_history`]: verified
/// snapshot submissions, most recent epoch first.
pub open spec fn history_query(limit: usize) -> QueryModel {
    QueryModel {
        contract_id: None,
        event_type: Some("SNAP_SUB"@),
        epoch: None,
        hash: None,
        ledger_range: None,
        time_range: None,
        verification_status: Some(VerificationStatus::Verified),
        limit: Some(limit),
        offset: None,
        order_by: Some(EventOrderBy::EpochDesc),
    }
}

/// The filter behind [`EventIndexer::get_failed_verifications`]: failed
/// snapshot submissions, newest ingested first.
pub open spec fn failed_query(limit: usize) -> QueryModel {
    QueryModel {
        contract_id: None,
        event_type: Some("SNAP_SUB"@),
        epoch: None,
        hash: None,
        ledger_range: None,
        time_range: None,
        verification_status: Some(VerificationStatus::Failed),
        limit: Some(limit),
        offset: None,
        order_by: Some(EventOrderBy::CreatedAtDesc),
    }
}

impl EventIndexer {
    /// The most recent snapshot submissions, by descending epoch.
    pub fn get_latest_snapshots(&self, limit: usize) -> (r: Vec<IndexedEvent>)
        ensures
            is_query_result(self@, snapshots_query(limit), rows_view(r@)),
            forall|i: int|
                0 <= i < r@.len() ==> (#[trigger] rows_view(r@)[i]).event_type == "SNAP_SUB"@
                    && self@.contains(rows_view(r@)[i]),
            sorted_by_key(EventOrderBy::EpochDesc, rows_view(r@)),
    {
        let q = EventQuery {
            event_type: Some("SNAP_SUB".to_owned()),
            limit: Some(limit),
            order_by: Some(EventOrderBy::EpochDesc),
            contract_id: None,
            epoch: None,
            hash: None,
            ledger_range: None,
            time_range: None,
            verification_status: None,
            offset: None,
        };
        let r = self.query_events(&q);
        proof {
            assert(q@ =~= snapshots_query(limit));
            lemma_query_result_props(self@, snapshots_query(limit), rows_view(r@));
        }
        r
    }

    /// All rows recorded for one epoch, newest ingested first.
    pub fn get_events_for_epoch(&self, epoch: u64) -> (r: Vec<IndexedEvent>)
        ensures
            is_query_result(self@, epoch_query(epoch), rows_view(r@)),
            forall|i: int|
                0 <= i < r@.len() ==> (#[trigger] rows_view(r@)[i]).epoch == Some(epoch)
                    && self@.contains(rows_view(r@)[i]),
            sorted_by_key(EventOrderBy::CreatedAtDesc, rows_view(r@)),
    {
        let q = EventQuery {
            epoch: Some(epoch),
            order_by: Some(EventOrderBy::CreatedAtDesc),
            contract_id: None,
            event_type: None,
            hash: None,
            ledger_range: None,
            time_range: None,
            verification_status: None,
            limit: None,
            offset: None,
        };
        let r = self.query_events(&q);
        proof {
            assert(q@ =~= epoch_query(epoch));
            lemma_query_result_props(self@, epoch_query(epoch), rows_view(r@));
        }
        r
    }

    /// Verified snapshot submissions, by descending epoch.
    pub fn get_verification_history(&self, limit: usize) -> (r: Vec<IndexedEvent>)
        ensures
            is_query_result(self@, history_query(limit), rows_view(r@)),
            forall|i: int|
                0 <= i < r@.len() ==> (#[trigger] rows_view(r@)[i]).verification_status == Some(
                    VerificationStatus::Verified,
                ) && self@.contains(rows_view(r@)[i]),
    {
        let q = EventQuery {
            event_type: Some("SNAP_SUB".to_owned()),
            verification_status: Some(VerificationStatus::Verified),
            limit: Some(limit),
            order_by: Some(EventOrderBy::EpochDesc),
            contract_id: None,
            epoch: None,
            hash: None,
            ledger_range: None,
            time_range: None,
            offset: None,
        };
        let r = self.query_events(&q);
        proof {
            assert(q@ =~= history_query(limit));
            lemma_query_result_props(self@, history_query(limit), rows_view(r@));
        }
        r
    }

    /// Failed snapshot submissions, newest ingested first.
    pub fn get_failed_verifications(&self, limit: usize) -> (r: Vec<IndexedEvent>)
        ensures
            is_query_result(self@, failed_query(limit), rows_view(r@)),
            forall|i: int|
                0 <= i < r@.len() ==> (#[trigger] rows_view(r@)[i]).verification_status == Some(
                    VerificationStatus::Failed,
                ) && self@.contains(rows_view(r@)[i]),
    {
        let q = EventQuery {
            event_type: Some("SNAP_SUB".to_owned()),
            verification_status: Some(VerificationStatus::Failed),
            limit: Some(limit),
            order_by: Some(EventOrderBy::CreatedAtDesc),
            contract_id: None,
            epoch: None,
            hash: None,
            ledger_range: None,
            time_range: None,
            offset: None,
        };
        let r = self.query_events(&q);
        proof {
            assert(q@ =~= failed_query(limit));
            lemma_query_result_props(self@, failed_query(limit), rows_view(r@));
        }
        r
    }
}

/// How many rows carry the given verdict.
pub open spec fn count_status(rows: Seq<EventModel>, vs: VerificationStatus) -> int
    decreases rows.len(),
{
    if rows.len() == 0 {
        0
    } else {
        count_status(rows.drop_last(), vs) + if rows.last().verification_status == Some(vs) {
            1int
        } else {
            0int
        }
    }
}

/// How many rows were ingested after `cutoff`.
pub open spec fn count_recent(rows: Seq<EventModel>, cutoff: u64) -> int
    decreases rows.len(),
{
    if rows.len() == 0 {
        0
    } else {
        count_recent(rows.drop_last(), cutoff) + if rows.last().created_at > cutoff {
            1int
        } else {
            0int
        }
    }
}

/// The larger of two optional numbers, absent values losing to present.
pub open spec fn opt_max(a: Option<u64>, b: Option<u64>) -> Option<u64> {
    match (a, b) {
        (None, x) => x,
        (Some(p), None) => Some(p),
        (Some(p), Some(q)) => if p >= q {
            Some(p)
        } else {
            Some(q)
        },
    }
}

/// The largest epoch any row carries, if any row carries one.
pub open spec fn max_epoch(rows: Seq<EventModel>) -> Option<u64>
    decreases rows.len(),
{
    if rows.len() == 0 {
        None
    } else {
        opt_max(max_epoch(rows.drop_last()), rows.last().epoch)
    }
}

/// The largest ledger among the rows, absent only for an empty store.
pub open spec fn max_ledger(rows: Seq<EventModel>) -> Option<u64>
    decreases rows.len(),
{
    if rows.len() == 0 {
        None
    } else {
        opt_max(max_ledger(rows.drop_last()), Some(rows.last().ledger))
    }
}

/// A count over a row sequence never exceeds its length.
proof fn lemma_count_bounds(rows: Seq<EventModel>, vs: VerificationStatus, cutoff: u64)
    ensures
        0 <= count_status(rows, vs) <= rows.len(),
        0 <= count_recent(rows, cutoff) <= rows.len(),
    decreases rows.len(),
{
    if rows.len() > 0 {
        lemma_count_bounds(rows.drop_last(), vs, cutoff);
    }
}

/// The start of the trailing 24-hour window ending at `now`.
pub open spec fn day_cutoff(now: u64) -> u64 {
    if now >= 86400 {
        (now - 86400) as u64
    } else {
        0
    }
}

impl EventIndexer {
    /// Aggregate statistics at wall-clock time `now` (unix seconds).
    pub fn get_event_stats(&self, now: u64) -> (r: EventStats)
        ensures
            r.total_events == self@.len(),
            r.verified_snapshots == count_status(self@, VerificationStatus::Verified),
            r.failed_verifications == count_status(self@, VerificationStatus::Failed),
            r.latest_epoch == max_epoch(self@),
            r.latest_ledger == max_ledger(self@),
            r.events_last_24h == count_recent(self@, day_cutoff(now)),
    {
        let cutoff = if now >= 86400 {
            now - 86400
        } else {
            0
        };
        let n = self.rows.len();
        let mut verified: u64 = 0;
        let mut failed: u64 = 0;
        let mut recent: u64 = 0;
        let mut latest_epoch: Option<u64> = None;
        let mut latest_ledger: Option<u64> = None;
        let ghost rows = rows_view(self.rows@);
        assert(rows.subrange(0, 0) =~= Seq::<EventModel>::empty());
        let mut i: usize = 0;
        while i < n
            invariant
                n == self.rows@.len(),
                i <= n,
                rows == rows_view(self.rows@),
                cutoff == day_cutoff(now),
                verified == count_status(rows.subrange(0, i as int), VerificationStatus::Verified),
                failed == count_status(rows.subrange(0, i as int), VerificationStatus::Failed),
                recent == count_recent(rows.subrange(0, i as int), cutoff),
                latest_epoch == max_epoch(rows.subrange(0, i as int)),
                latest_ledger == max_ledger(rows.subrange(0, i as int)),
            decreases n - i,
        {
            let ghost pre = rows.subrange(0, i as int);
            let ghost post = rows.subrange(0, i + 1);
            proof {
                assert(post.drop_last() =~= pre);
                assert(post.last() == rows[i as int]);
                lemma_count_bounds(pre, VerificationStatus::Verified, cutoff);
                lemma_count_bounds(pre, VerificationStatus::Failed, cutoff);
            }
            let e = &self.rows[i];
            match e.verification_status {
                Some(VerificationStatus::Verified) => {
                    verified = verified + 1;
                },
                Some(VerificationStatus::Failed) => {
                    failed = failed + 1;
                },
                _ => {},
            }
            if e.created_at > cutoff {
                recent = recent + 1;
            }
            latest_epoch = match (latest_epoch, e.epoch) {
                (None, x) => x,
                (Some(p), None) => Some(p),
                (Some(p), Some(q)) => if p >= q {
                    Some(p)
                } else {
                    Some(q)
                },
            };
            latest_ledger = match latest_ledger {
                None => Some(e.ledger),
                Some(p) => if p >= e.ledger {
                    Some(p)
                } else {
                    Some(e.ledger)
                },
            };
            i = i + 1;
        }
        proof {
            assert(rows.subrange(0, n as int) =~= rows);
        }
        EventStats {
            total_events: n as u64,
            verified_snapshots: verified,
            failed_verifications: failed,
            latest_epoch,
            latest_ledger,
            events_last_24h: recent,
        }
    }
}

impl EventIndexer {
    /// The highest ledger among the stored rows, absent for an empty
    /// store.
    pub fn latest_stored_ledger(&self) -> (r: Option<u64>)
        ensures
            r == max_ledger(self@),
    {
        let n = self.rows.len();
        let mut best: Option<u64> = None;
        assert(self@.subrange(0, 0) =~= Seq::<EventModel>::empty());
        let mut i: usize = 0;
        while i < n
            invariant
                n == self.rows@.len(),
                i <= n,
                best == max_ledger(self@.subrange(0, i as int)),
            decreases n - i,
        {
            let ghost pre = self@.subrange(0, i as int);
            let ghost post = self@.subrange(0, i + 1);
            proof {
                assert(post.drop_last() =~= pre);
                assert(post.last() == self@[i as int]);
            }
            best = match best {
                None => Some(self.rows[i].ledger),
                Some(p) => if p >= self.rows[i].ledger {
                    Some(p)
                } else {
                    Some(self.rows[i].ledger)
                },
            };
            i = i + 1;
        }
        proof {
            assert(self@.subrange(0, n as int) =~= self@);
        }
        best
    }
}

/// Whether a row enters the operator audit trail: a snapshot submission
/// carrying an epoch.
pub open spec fn is_snapshot_row(e: EventModel) -> bool {
    e.event_type == "SNAP_SUB"@ && e.epoch is Some
}

/// The audit-trail rows of the store, in store order.
pub open spec fn snapshot_rows(rows: Seq<EventModel>) -> Seq<EventModel>
    decreases rows.len(),
{
    if rows.len() == 0 {
        Seq::empty()
    } else {
        let rest = snapshot_rows(rows.drop_last());
        if is_snapshot_row(rows.last()) {
            rest.push(rows.last())
        } else {
            rest
        }
    }
}

/// Every audit-trail row is a snapshot submission with an epoch.
proof fn lemma_snapshot_rows_pred(rows: Seq<EventModel>)
    ensures
        forall|i: int|
            0 <= i < snapshot_rows(rows).len() ==> is_snapshot_row(
                #[trigger] snapshot_rows(rows)[i],
            ),
    decreases rows.len(),
{
    if rows.len() > 0 {
        lemma_snapshot_rows_pred(rows.drop_last());
        let rest = snapshot_rows(rows.drop_last());
        assert forall|i: int| 0 <= i < snapshot_rows(rows).len() implies is_snapshot_row(
            #[trigger] snapshot_rows(rows)[i],
        ) by {
            if is_snapshot_row(rows.last()) {
                assert(snapshot_rows(rows) == rest.push(rows.last()));
                if i < rest.len() {
                    assert(snapshot_rows(rows)[i] == rest[i]);
                }
            } else {
                assert(snapshot_rows(rows) == rest);
            }
        }
    }
}

impl EventIndexer {
    /// Copies out the audit-trail rows, in store order.
    fn snapshot_candidates(&self) -> (r: Vec<IndexedEvent>)
        ensures
            rows_view(r@) == snapshot_rows(self@),
    {
        let n = self.rows.len();
        let mut r: Vec<IndexedEvent> = Vec::new();
        assert(rows_view(r@) =~= snapshot_rows(rows_view(self.rows@).subrange(0, 0)));
        let mut i: usize = 0;
        while i < n
            invariant
                n == self.rows@.len(),
                i <= n,
                rows_view(r@) == snapshot_rows(rows_view(self.rows@).subrange(0, i as int)),
            decreases n - i,
        {
            let ghost pre = rows_view(self.rows@).subrange(0, i as int);
            let ghost post = rows_view(self.rows@).subrange(0, i + 1);
            proof {
                assert(post.drop_last() =~= pre);
                assert(post.last() == rows_view(self.rows@)[i as int]);
            }
            let is_snap = str_eq(self.rows[i].event_type.as_str(), "SNAP_SUB") && self.rows[
                i
            ].epoch.is_some();
            if is_snap {
                let ghost r0 = rows_view(r@);
                let e = self.rows[i].clone();
                r.push(e);
                proof {
                    assert(rows_view(r@) =~= r0.push(rows_view(self.rows@)[i as int]));
                    assert(rows_view(r@) == snapshot_rows(post));
                }
            } else {
                assert(rows_view(r@) == snapshot_rows(post));
            }
            i = i + 1;
        }
        proof {
            assert(rows_view(self.rows@).subrange(0, n as int) =~= rows_view(self.rows@));
        }
        r
    }

    /// The audit trail for the most recent `epoch_count` snapshot
    /// submissions: each row projected to its verification outcome, most
    /// recent epoch first, a missing verdict surfacing as pending.
    pub fn get_verification_summary(&self, epoch_count: usize) -> (r: Vec<VerificationSummary>)
        ensures
            exists|s: Seq<EventModel>|
                {
                    &&& #[trigger] s.to_multiset() == snapshot_rows(self@).to_multiset()
                    &&& sorted_by_key(EventOrderBy::EpochDesc, s)
                    &&& r@.len() == query_window(s, 0, epoch_count as int).len()
                    &&& forall|i: int|
                        0 <= i < r@.len() ==> crate::model::summaries_view(r@)[i] == summary_of(
                            s[i],
                        )
                },
            r@.len() <= epoch_count,
            forall|i: int, j: int|
                0 <= i < j < r@.len() ==> (#[trigger] crate::model::summaries_view(r@)[i]).epoch
                    >= (#[trigger] crate::model::summaries_view(r@)[j]).epoch,
    {
        broadcast use vstd::seq_lib::group_to_multiset_ensures;

        let cand = self.snapshot_candidates();
        let sorted = sort_events(cand, EventOrderBy::EpochDesc);
        let paged = take_window(&sorted, 0, epoch_count);
        let ghost s = rows_view(sorted@);
        proof {
            lemma_snapshot_rows_pred(self@);
            assert forall|i: int| 0 <= i < s.len() implies is_snapshot_row(#[trigger] s[i]) by {
                assert(s.contains(s[i]));
                assert(s.to_multiset().count(s[i]) > 0);
                let f = snapshot_rows(self@);
                assert(f.contains(s[i]));
                let k = choose|k: int| 0 <= k < f.len() && f[k] == s[i];
                assert(is_snapshot_row(f[k]));
            }
            assert(rows_view(paged@) =~= query_window(s, 0, epoch_count as int));
            assert(rows_view(paged@).len() <= s.len());
            assert forall|k: int| 0 <= k < paged@.len() implies #[trigger] rows_view(paged@)[k]
                == s[k] && is_snapshot_row(rows_view(paged@)[k]) by {
                assert(rows_view(paged@)[k] == query_window(s, 0, epoch_count as int)[k]);
                assert(query_window(s, 0, epoch_count as int)[k] == s[k]);
                assert(0 <= k < s.len());
            }
        }
        let m = paged.len();
        let mut out: Vec<VerificationSummary> = Vec::new();
        let mut i: usize = 0;
        while i < m
            invariant
                m == paged@.len(),
                i <= m,
                out@.len() == i,
                forall|k: int|
                    0 <= k < i ==> crate::model::summaries_view(out@)[k] == summary_of(
                        #[trigger] rows_view(paged@)[k],
                    ),
                forall|k: int| 0 <= k < m ==> is_snapshot_row(#[trigger] rows_view(paged@)[k]),
            decreases m - i,
        {
            let e = &paged[i];
            assert(is_snapshot_row(rows_view(paged@)[i as int]));
            let epoch = match e.epoch {
                Some(v) => v,
                None => 0,
            };
            let status = match e.verification_status {
                None => VerificationStatus::Pending,
                Some(vs) => vs,
            };
            let line = VerificationSummary {
                epoch,
                hash: clone_opt_string(&e.hash),
                ledger: e.ledger,
                verification_status: status,
                created_at: e.created_at,
                transaction_hash: e.transaction_hash.clone(),
            };
            proof {
                assert(line@ =~= summary_of(rows_view(paged@)[i as int]));
            }
            out.push(line);
            i = i + 1;
        }
        proof {
            assert(out@.len() == query_window(s, 0, epoch_count as int).len());
            assert forall|k: int| 0 <= k < out@.len() implies #[trigger] crate::model::summaries_view(
                out@,
            )[k] == summary_of(s[k]) by {
                assert(crate::model::summaries_view(out@)[k] == summary_of(rows_view(paged@)[k]));
                assert(rows_view(paged@)[k] == s[k]);
            }
            assert({
                &&& s.to_multiset() == snapshot_rows(self@).to_multiset()
                &&& sorted_by_key(EventOrderBy::EpochDesc, s)
                &&& out@.len() == query_window(s, 0, epoch_count as int).len()
                &&& forall|i: int|
                    0 <= i < out@.len() ==> crate::model::summaries_view(out@)[i] == summary_of(
                        s[i],
                    )
            });
            assert forall|i: int, j: int| 0 <= i < j < out@.len() implies (
            #[trigger] crate::model::summaries_view(out@)[i]).epoch >= (
            #[trigger] crate::model::summaries_view(out@)[j]).epoch by {
                assert(out@.len() <= s.len());
                assert(sort_key(EventOrderBy::EpochDesc, s[i]) <= sort_key(
                    EventOrderBy::EpochDesc,
                    s[j],
                ));
                assert(is_snapshot_row(s[i]) && is_snapshot_row(s[j]));
                assert(crate::model::summaries_view(out@)[i] == summary_of(s[i]));
                assert(crate::model::summaries_view(out@)[j] == summary_of(s[j]));
            }
        }
        out
    }
}

/// Whether a row's hash begins with the given prefix.
pub open spec fn hash_has_prefix(e: EventModel, p: Seq<char>) -> bool {
    e.hash matches Some(h) && crate::text::is_prefix_of(p, h)
}

/// The rows whose hash begins with the given prefix, in store order.
pub open spec fn prefix_rows(rows: Seq<EventModel>, p: Seq<char>) -> Seq<EventModel>
    decreases rows.len(),
{
    if rows.len() == 0 {
        Seq::empty()
    } else {
        let rest = prefix_rows(rows.drop_last(), p);
        if hash_has_prefix(rows.last(), p) {
            rest.push(rows.last())
        } else {
            rest
        }
    }
}

/// Every prefix-filtered row's hash begins with the prefix.
proof fn lemma_prefix_rows_pred(rows: Seq<EventModel>, p: Seq<char>)
    ensures
        forall|i: int|
            0 <= i < prefix_rows(rows, p).len() ==> hash_has_prefix(
                #[trigger] prefix_rows(rows, p)[i],
                p,
            ),
    decreases rows.len(),
{
    if rows.len() > 0 {
        lemma_prefix_rows_pred(rows.drop_last(), p);
        let rest = prefix_rows(rows.drop_last(), p);
        assert forall|i: int| 0 <= i < prefix_rows(rows, p).len() implies hash_has_prefix(
            #[trigger] prefix_rows(rows, p)[i],
            p,
        ) by {
            if hash_has_prefix(rows.last(), p) {
                assert(prefix_rows(rows, p) == rest.push(rows.last()));
                if i < rest.len() {
                    assert(prefix_rows(rows, p)[i] == rest[i]);
                }
            } else {
                assert(prefix_rows(rows, p) == rest);
            }
        }
    }
}

impl EventIndexer {
    /// Rows whose hash begins with `prefix`, newest ingested first, at most
    /// `limit` of them. The prefix is matched as plain characters: no
    /// caller-supplied text reaches any query machinery unescaped.
    pub fn search_by_hash_prefix(&self, prefix: &str, limit: usize) -> (r: Vec<IndexedEvent>)
        ensures
            exists|s: Seq<EventModel>|
                {
                    &&& #[trigger] s.to_multiset() == prefix_rows(self@, prefix@).to_multiset()
                    &&& sorted_by_key(EventOrderBy::CreatedAtDesc, s)
                    &&& rows_view(r@) == query_window(s, 0, limit as int)
                },
            r@.len() <= limit,
            forall|i: int|
                0 <= i < r@.len() ==> hash_has_prefix(#[trigger] rows_view(r@)[i], prefix@),
    {
        broadcast use vstd::seq_lib::group_to_multiset_ensures;

        let n = self.rows.len();
        let mut cand: Vec<IndexedEvent> = Vec::new();
        assert(rows_view(cand@) =~= prefix_rows(rows_view(self.rows@).subrange(0, 0), prefix@));
        let mut i: usize = 0;
        while i < n
            invariant
                n == self.rows@.len(),
                i <= n,
                rows_view(cand@) == prefix_rows(
                    rows_view(self.rows@).subrange(0, i as int),
                    prefix@,
                ),
            decreases n - i,
        {
            let ghost pre = rows_view(self.rows@).subrange(0, i as int);
            let ghost post = rows_view(self.rows@).subrange(0, i + 1);
            proof {
                assert(post.drop_last() =~= pre);
                assert(post.last() == rows_view(self.rows@)[i as int]);
            }
            let keep = match &self.rows[i].hash {
                None => false,
                Some(h) => crate::text::has_prefix(h.as_str(), prefix),
            };
            if keep {
                let ghost c0 = rows_view(cand@);
                let e = self.rows[i].clone();
                cand.push(e);
                proof {
                    assert(rows_view(cand@) =~= c0.push(rows_view(self.rows@)[i as int]));
                    assert(rows_view(cand@) == prefix_rows(post, prefix@));
                }
            } else {
                assert(rows_view(cand@) == prefix_rows(post, prefix@));
            }
            i = i + 1;
        }
        proof {
            assert(rows_view(self.rows@).subrange(0, n as int) =~= rows_view(self.rows@));
        }
        let sorted = sort_events(cand, EventOrderBy::CreatedAtDesc);
        let r = take_window(&sorted, 0, limit);
        let ghost s = rows_view(sorted@);
        proof {
            lemma_prefix_rows_pred(self@, prefix@);
            assert(rows_view(r@) =~= query_window(s, 0, limit as int));
            assert forall|i: int| 0 <= i < r@.len() implies hash_has_prefix(
                #[trigger] rows_view(r@)[i],
                prefix@,
            ) by {
                assert(rows_view(r@)[i] == s[i]);
                assert(s.contains(s[i]));
                assert(s.to_multiset().count(s[i]) > 0);
                let f = prefix_rows(self@, prefix@);
                assert(f.contains(s[i]));
                let k = choose|k: int| 0 <= k < f.len() && f[k] == s[i];
                assert(hash_has_prefix(f[k], prefix@));
            }
        }
        r
    }
}

/// The rows that survive a retention sweep with the given cutoff.
pub open spec fn retained_rows(rows: Seq<EventModel>, cutoff: u64) -> Seq<EventModel>
    decreases rows.len(),
{
    if rows.len() == 0 {
        Seq::empty()
    } else {
        let rest = retained_rows(rows.drop_last(), cutoff);
        if rows.last().created_at >= cutoff {
            rest.push(rows.last())
        } else {
            rest
        }
    }
}

/// Every surviving row is a row of the store.
proof fn lemma_retained_subset(rows: Seq<EventModel>, cutoff: u64)
    ensures
        forall|x: EventModel| #[trigger]
            retained_rows(rows, cutoff).contains(x) ==> rows.contains(x),
        retained_rows(rows, cutoff).len() <= rows.len(),
    decreases rows.len(),
{
    if rows.len() > 0 {
        lemma_retained_subset(rows.drop_last(), cutoff);
        assert forall|x: EventModel| #[trigger]
            retained_rows(rows, cutoff).contains(x) implies rows.contains(x) by {
            let f = retained_rows(rows, cutoff);
            let k = choose|k: int| 0 <= k < f.len() && f[k] == x;
            if rows.last().created_at >= cutoff && k == f.len() - 1 {
                assert(rows[rows.len() - 1] == x);
            } else {
                assert(retained_rows(rows.drop_last(), cutoff).contains(x));
                let t = choose|t: int|
                    0 <= t < rows.drop_last().len() && rows.drop_last()[t] == x;
                assert(rows[t] == x);
            }
        }
    }
}

/// A retention sweep keeps ids pairwise distinct.
proof fn lemma_retained_unique(rows: Seq<EventModel>, cutoff: u64)
    requires
        unique_ids(rows),
    ensures
        unique_ids(retained_rows(rows, cutoff)),
    decreases rows.len(),
{
    if rows.len() > 0 {
        assert(unique_ids(rows.drop_last())) by {
            assert(forall|i: int|
                0 <= i < rows.drop_last().len() ==> #[trigger] rows.drop_last()[i] == rows[i]);
        }
        lemma_retained_unique(rows.drop_last(), cutoff);
        lemma_retained_subset(rows.drop_last(), cutoff);
        let rest = retained_rows(rows.drop_last(), cutoff);
        if rows.last().created_at >= cutoff {
            assert forall|i: int, j: int|
                0 <= i < j < retained_rows(rows, cutoff).len() implies retained_rows(
                rows,
                cutoff,
            )[i].id != retained_rows(rows, cutoff)[j].id by {
                if j < rest.len() {
                } else {
                    assert(retained_rows(rows, cutoff)[j] == rows.last());
                    assert(retained_rows(rows, cutoff)[i] == rest[i]);
                    assert(rest.contains(rest[i]));
                    let t = choose|t: int|
                        0 <= t < rows.drop_last().len() && rows.drop_last()[t] == rest[i];
                    assert(rows[t] == rest[i]);
                    assert(rows[t].id != rows[rows.len() - 1].id);
                }
            }
        }
    }
}

/// The ingestion time before which a sweep keeping `days` days deletes,
/// clipped at the epoch origin.
pub open spec fn retention_cutoff(days: u64, now: u64) -> u64 {
    if days * 86400 > now {
        0
    } else {
        (now - days * 86400) as u64
    }
}

impl EventIndexer {
    /// Deletes rows ingested more than `days_to_keep` days before `now`,
    /// and returns how many were deleted.
    pub fn cleanup_old_events(&mut self, days_to_keep: u64, now: u64) -> (deleted: u64)
        requires
            old(self).wf(),
        ensures
            final(self)@ == retained_rows(old(self)@, retention_cutoff(days_to_keep, now)),
            final(self).wf(),
            deleted == old(self)@.len() - final(self)@.len(),
    {
        proof {
            vstd::arithmetic::div_mod::lemma_fundamental_div_mod(now as int, 86400);
        }
        let cutoff = if days_to_keep > now / 86400 {
            0
        } else {
            now - days_to_keep * 86400
        };
        assert(cutoff == retention_cutoff(days_to_keep, now));
        let ghost rows0 = self@;
        let n = self.rows.len();
        let mut kept: Vec<IndexedEvent> = Vec::new();
        assert(rows_view(kept@) =~= retained_rows(rows0.subrange(0, 0), cutoff));
        let mut i: usize = 0;
        while i < n
            invariant
                n == self.rows@.len(),
                rows0 == rows_view(self.rows@),
                i <= n,
                rows_view(kept@) == retained_rows(rows0.subrange(0, i as int), cutoff),
            decreases n - i,
        {
            let ghost pre = rows0.subrange(0, i as int);
            let ghost post = rows0.subrange(0, i + 1);
            proof {
                assert(post.drop_last() =~= pre);
                assert(post.last() == rows0[i as int]);
            }
            if self.rows[i].created_at >= cutoff {
                let ghost k0 = rows_view(kept@);
                let e = self.rows[i].clone();
                kept.push(e);
                proof {
                    assert(rows_view(kept@) =~= k0.push(rows0[i as int]));
                    assert(rows_view(kept@) == retained_rows(post, cutoff));
                }
            } else {
                assert(rows_view(kept@) == retained_rows(post, cutoff));
            }
            i = i + 1;
        }
        proof {
            assert(rows0.subrange(0, n as int) =~= rows0);
            lemma_retained_subset(rows0, cutoff);
            lemma_retained_unique(rows0, cutoff);
        }
        let kept_len = kept.len();
        self.rows = kept;
        (n - kept_len) as u64
    }
}

} // verus!
