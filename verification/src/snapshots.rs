//! Read-mostly mirror of the backend's snapshot table.
//!
//! The snapshot builder (an external collaborator) produces one row per
//! epoch: the canonical JSON of that epoch's data and its SHA-256 digest.
//! The verifier reads the most recent row for an epoch and mirrors its
//! verdict back onto the row.

use vstd::prelude::*;

use crate::model::VerificationStatus;

verus! {

/// Mathematical view of one snapshot row.
#[verifier::ext_equal]
pub ghost struct SnapshotModel {
    pub epoch: u64,
    pub hash: Seq<char>,
    pub canonical_json: Seq<char>,
    pub created_at: u64,
    pub verification_status: Option<VerificationStatus>,
    pub verified_at: Option<u64>,
}

/// One snapshot row: an epoch's canonical serialization, its digest, and
/// the verdict mirrored from reconciliation.
pub struct SnapshotRow {
    pub epoch: u64,
    pub hash: String,
    pub canonical_json: String,
    pub created_at: u64,
    pub verification_status: Option<VerificationStatus>,
    pub verified_at: Option<u64>,
}

impl View for SnapshotRow {
    type V = SnapshotModel;

    open spec fn view(&self) -> SnapshotModel {
        SnapshotModel {
            epoch: self.epoch,
            hash: self.hash@,
            canonical_json: self.canonical_json@,
            created_at: self.created_at,
            verification_status: self.verification_status,
            verified_at: self.verified_at,
        }
    }
}

impl Clone for SnapshotRow {
    fn clone(&self) -> (r: Self)
        ensures
            r == *self,
    {
        SnapshotRow {
            epoch: self.epoch,
            hash: self.hash.clone(),
            canonical_json: self.canonical_json.clone(),
            created_at: self.created_at,
            verification_status: self.verification_status,
            verified_at: self.verified_at,
        }
    }
}

/// The view of a snapshot row sequence.
pub open spec fn snaps_view(s: Seq<SnapshotRow>) -> Seq<SnapshotModel> {
    s.map_values(|r: SnapshotRow| r@)
}

/// The snapshot the verifier reads for an epoch: the row with that epoch
/// whose `created_at` is largest, the earliest such row winning ties.
pub open spec fn best_snap(rows: Seq<SnapshotModel>, epoch: u64) -> Option<SnapshotModel>
    decreases rows.len(),
{
    if rows.len() == 0 {
        None
    } else {
        let prev = best_snap(rows.drop_last(), epoch);
        if rows.last().epoch == epoch {
            match prev {
                None => Some(rows.last()),
                Some(p) => if rows.last().created_at > p.created_at {
                    Some(rows.last())
                } else {
                    Some(p)
                },
            }
        } else {
            prev
        }
    }
}

/// The chosen snapshot exists and is the most recent for its epoch.
pub proof fn lemma_best_snap_props(rows: Seq<SnapshotModel>, epoch: u64)
    ensures
        best_snap(rows, epoch) is Some <==> exists|i: int|
            0 <= i < rows.len() && (#[trigger] rows[i]).epoch == epoch,
        best_snap(rows, epoch) matches Some(s) ==> s.epoch == epoch && rows.contains(s) && forall|
            i: int,
        |
            0 <= i < rows.len() && (#[trigger] rows[i]).epoch == epoch ==> rows[i].created_at
                <= s.created_at,
    decreases rows.len(),
{
    if rows.len() > 0 {
        lemma_best_snap_props(rows.drop_last(), epoch);
        let prev = best_snap(rows.drop_last(), epoch);
        assert(forall|i: int|
            0 <= i < rows.drop_last().len() ==> #[trigger] rows.drop_last()[i] == rows[i]);
        if prev is Some {
            let p = prev->0;
            assert(rows.drop_last().contains(p));
            let t = choose|t: int|
                0 <= t < rows.drop_last().len() && rows.drop_last()[t] == p;
            assert(rows[t] == p);
            assert(rows.contains(p));
        }
        if rows.last().epoch == epoch {
            assert(rows.contains(rows.last())) by {
                assert(rows[rows.len() - 1] == rows.last());
            }
        }
        if exists|i: int| 0 <= i < rows.len() && (#[trigger] rows[i]).epoch == epoch {
            let w = choose|i: int| 0 <= i < rows.len() && (#[trigger] rows[i]).epoch == epoch;
            if w < rows.len() - 1 {
                assert(rows.drop_last()[w] == rows[w]);
                assert(prev is Some);
            }
            assert(best_snap(rows, epoch) is Some);
        }
        if prev is Some {
            let t = choose|t: int|
                0 <= t < rows.drop_last().len() && (#[trigger] rows.drop_last()[t]).epoch == epoch;
            assert(rows[t].epoch == epoch);
        }
        if best_snap(rows, epoch) is Some {
            let s = best_snap(rows, epoch)->0;
            assert forall|i: int|
                0 <= i < rows.len() && (#[trigger] rows[i]).epoch == epoch implies rows[i].created_at
                <= s.created_at by {
                if i < rows.len() - 1 {
                    assert(rows.drop_last()[i] == rows[i]);
                    assert(prev is Some);
                    assert(rows[i].created_at <= prev->0.created_at);
                } else {
                    assert(rows[i] == rows.last());
                }
            }
        }
    }
}

/// The rows after recording verdict `status` for every row of `epoch` at
/// time `now`.
pub open spec fn set_epoch_status(
    rows: Seq<SnapshotModel>,
    epoch: u64,
    status: VerificationStatus,
    now: u64,
) -> Seq<SnapshotModel> {
    Seq::new(
        rows.len(),
        |i: int|
            if rows[i].epoch == epoch {
                SnapshotModel {
                    verification_status: Some(status),
                    verified_at: Some(now),
                    ..rows[i]
                }
            } else {
                rows[i]
            },
    )
}

/// The mirror of the backend's snapshot table that the verifier works
/// against.
pub struct SnapshotStore {
    rows: Vec<SnapshotRow>,
}

impl View for SnapshotStore {
    type V = Seq<SnapshotModel>;

    closed spec fn view(&self) -> Seq<SnapshotModel> {
        snaps_view(self.rows@)
    }
}

impl SnapshotStore {
    /// Creates an empty mirror.
    pub fn new() -> (r: Self)
        ensures
            r@ == Seq::<SnapshotModel>::empty(),
    {
        let r = SnapshotStore { rows: Vec::new() };
        proof {
            assert(r@ =~= Seq::<SnapshotModel>::empty());
        }
        r
    }

    /// The number of snapshot rows held.
    pub fn len(&self) -> (r: usize)
        ensures
            r == self@.len(),
    {
        self.rows.len()
    }

    /// Appends a snapshot row, as the snapshot builder does.
    pub fn insert_snapshot(&mut self, row: SnapshotRow)
        ensures
            final(self)@ == old(self)@.push(row@),
    {
        self.rows.push(row);
        proof {
            assert(snaps_view(self.rows@) =~= old(self)@.push(row@));
        }
    }

    /// The most recent snapshot row for `epoch`, if any.
    pub fn latest_for_epoch(&self, epoch: u64) -> (r: Option<SnapshotRow>)
        ensures
            r is Some <==> best_snap(self@, epoch) is Some,
            r matches Some(row) ==> Some(row@) == best_snap(self@, epoch),
    {
        let n = self.rows.len();
        let mut found: Option<SnapshotRow> = None;
        assert(self@.subrange(0, 0) =~= Seq::<SnapshotModel>::empty());
        let mut i: usize = 0;
        while i < n
            invariant
                n == self.rows@.len(),
                i <= n,
                match found {
                    None => best_snap(self@.subrange(0, i as int), epoch) is None,
                    Some(row) => Some(row@) == best_snap(self@.subrange(0, i as int), epoch),
                },
            decreases n - i,
        {
            let ghost pre = self@.subrange(0, i as int);
            let ghost post = self@.subrange(0, i + 1);
            proof {
                assert(post.drop_last() =~= pre);
                assert(post.last() == self@[i as int]);
            }
            if self.rows[i].epoch == epoch {
                let replace = match &found {
                    None => true,
                    Some(row) => self.rows[i].created_at > row.created_at,
                };
                if replace {
                    found = Some(self.rows[i].clone());
                }
            }
            assert(match found {
                None => best_snap(post, epoch) is None,
                Some(row) => Some(row@) == best_snap(post, epoch),
            });
            i = i + 1;
        }
        proof {
            assert(self@.subrange(0, n as int) =~= self@);
        }
        found
    }

    /// Records the verdict for every snapshot row of `epoch`.
    pub fn update_status(&mut self, epoch: u64, status: VerificationStatus, now: u64)
        ensures
            final(self)@ == set_epoch_status(old(self)@, epoch, status, now),
    {
        let ghost rows0 = self@;
        let n = self.rows.len();
        let mut i: usize = 0;
        while i < n
            invariant
                n == self.rows@.len(),
                i <= n,
                snaps_view(self.rows@).len() == rows0.len(),
                forall|k: int|
                    i <= k < n ==> #[trigger] snaps_view(self.rows@)[k] == rows0[k],
                forall|k: int|
                    0 <= k < i ==> #[trigger] snaps_view(self.rows@)[k] == set_epoch_status(
                        rows0,
                        epoch,
                        status,
                        now,
                    )[k],
            decreases n - i,
        {
            assert(snaps_view(self.rows@)[i as int] == rows0[i as int]);
            if self.rows[i].epoch == epoch {
                let mut row = self.rows[i].clone();
                row.verification_status = Some(status);
                row.verified_at = Some(now);
                proof {
                    assert(row@ =~= SnapshotModel {
                        verification_status: Some(status),
                        verified_at: Some(now),
                        ..rows0[i as int]
                    });
                }
                let ghost before = self.rows@;
                self.rows.set(i, row);
                proof {
                    assert(self.rows@ == before.update(i as int, row));
                    assert forall|k: int| 0 <= k < n && k != i implies #[trigger] snaps_view(
                        self.rows@,
                    )[k] == snaps_view(before)[k] by {
                        assert(self.rows@[k] == before[k]);
                    }
                }
            }
            i = i + 1;
        }
        proof {
            assert(snaps_view(self.rows@) =~= set_epoch_status(rows0, epoch, status, now));
        }
    }
}

} // verus!
