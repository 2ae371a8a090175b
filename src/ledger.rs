use vstd::prelude::*;

use crate::error::CampaignError;
use crate::identity::Identity;
use crate::table::{find_row, has_key, keys_are_unique, keys_unique, lemma_lookup_at, lemma_lookup_push, lemma_lookup_replace, lookup};

verus! {

/// One successful contribution, as it happened.
#[derive(Clone, Copy, Debug, PartialEq, Eq, Structural)]
pub struct DonationRecord {
    pub donor: Identity,
    pub amount: i128,
    pub timestamp: u64,
}

/// The sum of the amounts in the rows.
pub open spec fn ledger_sum(rows: Seq<(Identity, i128)>) -> int
    decreases rows.len(),
{
    if rows.len() == 0 {
        0
    } else {
        ledger_sum(rows.drop_last()) + rows.last().1
    }
}

proof fn lemma_sum_push(rows: Seq<(Identity, i128)>, row: (Identity, i128))
    ensures
        ledger_sum(rows.push(row)) == ledger_sum(rows) + row.1,
{
    assert(rows.push(row).drop_last() =~= rows);
}

proof fn lemma_sum_update(rows: Seq<(Identity, i128)>, i: int, row: (Identity, i128))
    requires
        0 <= i < rows.len(),
    ensures
        ledger_sum(rows.update(i, row)) == ledger_sum(rows) - rows[i].1 + row.1,
    decreases rows.len(),
{
    let after = rows.update(i, row);
    if i == rows.len() - 1 {
        assert(after.drop_last() =~= rows.drop_last());
    } else {
        assert(after.drop_last() =~= rows.drop_last().update(i, row));
        lemma_sum_update(rows.drop_last(), i, row);
    }
}

proof fn lemma_row_within_sum(rows: Seq<(Identity, i128)>, i: int)
    requires
        0 <= i < rows.len(),
        forall|j: int| 0 <= j < rows.len() ==> #[trigger] rows[j].1 >= 0,
    ensures
        0 <= rows[i].1 <= ledger_sum(rows),
    decreases rows.len(),
{
    lemma_sum_nonnegative(rows.drop_last());
    if i < rows.len() - 1 {
        lemma_row_within_sum(rows.drop_last(), i);
    }
}

pub proof fn lemma_sum_nonnegative(rows: Seq<(Identity, i128)>)
    requires
        forall|j: int| 0 <= j < rows.len() ==> #[trigger] rows[j].1 >= 0,
    ensures
        ledger_sum(rows) >= 0,
    decreases rows.len(),
{
    if rows.len() > 0 {
        lemma_sum_nonnegative(rows.drop_last());
    }
}

proof fn lemma_prefix_within_sum(rows: Seq<(Identity, i128)>, k: int)
    requires
        0 <= k <= rows.len(),
        forall|j: int| 0 <= j < rows.len() ==> #[trigger] rows[j].1 >= 0,
    ensures
        ledger_sum(rows.subrange(0, k)) <= ledger_sum(rows),
    decreases rows.len(),
{
    if k == rows.len() {
        assert(rows.subrange(0, k) =~= rows);
    } else {
        assert(rows.subrange(0, k) =~= rows.drop_last().subrange(0, k));
        lemma_prefix_within_sum(rows.drop_last(), k);
    }
}

/// Cumulative contributions per contributor, the running total, and the
/// chronological record of every contribution.
pub struct DonationLedger {
    pub rows: Vec<(Identity, i128)>,
    pub history: Vec<DonationRecord>,
    pub total_raised: i128,
}

impl DonationLedger {
    /// Each contributor has at most one row, no amount is negative, and the
    /// total is the sum over all contributors.
    pub open spec fn wf(&self) -> bool {
        &&& keys_unique(self.rows@)
        &&& forall|j: int| 0 <= j < self.rows@.len() ==> #[trigger] self.rows@[j].1 >= 0
        &&& self.total_raised == ledger_sum(self.rows@)
    }

    /// What `who` has contributed and not taken back.
    pub open spec fn contribution_spec(&self, who: Identity) -> i128 {
        lookup(self.rows@, who, 0i128)
    }

    /// Everyone who has a row, in the order of their first contribution.
    pub open spec fn contributors(&self) -> Seq<Identity> {
        self.rows@.map_values(|row: (Identity, i128)| row.0)
    }

    /// The sum of the contributions of the given identities.
    pub open spec fn sum_contributions(&self, ids: Seq<Identity>) -> int
        decreases ids.len(),
    {
        if ids.len() == 0 {
            0
        } else {
            self.sum_contributions(ids.drop_last()) + self.contribution_spec(ids.last())
        }
    }

    pub fn new() -> (r: DonationLedger)
        ensures
            r.wf(),
            r.rows@.len() == 0,
            r.total_raised == 0,
            r.history@ == Seq::<DonationRecord>::empty(),
            forall|w: Identity| #[trigger] r.contribution_spec(w) == 0,
    {
        DonationLedger { rows: Vec::new(), history: Vec::new(), total_raised: 0 }
    }

    /// Whether the ledger is well-formed.
    pub fn is_consistent(&self) -> (r: bool)
        ensures
            r == self.wf(),
    {
        if !keys_are_unique(&self.rows) {
            return false;
        }
        let mut i: usize = 0;
        while i < self.rows.len()
            invariant
                i <= self.rows@.len(),
                forall|j: int| 0 <= j < i ==> #[trigger] self.rows@[j].1 >= 0,
            decreases self.rows@.len() - i,
        {
            if self.rows[i].1 < 0 {
                return false;
            }
            i = i + 1;
        }
        let ghost rows = self.rows@;
        let mut sum: i128 = 0;
        let mut k: usize = 0;
        while k < self.rows.len()
            invariant
                k <= rows.len(),
                rows == self.rows@,
                forall|j: int| 0 <= j < rows.len() ==> #[trigger] rows[j].1 >= 0,
                sum == ledger_sum(rows.subrange(0, k as int)),
            decreases rows.len() - k,
        {
            assert(rows.subrange(0, k + 1).drop_last() =~= rows.subrange(0, k as int));
            match sum.checked_add(self.rows[k].1) {
                Some(s) => {
                    sum = s;
                },
                None => {
                    proof {
                        lemma_prefix_within_sum(rows, k + 1);
                    }
                    return false;
                },
            }
            k = k + 1;
        }
        assert(rows.subrange(0, rows.len() as int) =~= rows);
        sum == self.total_raised
    }

    pub fn total_raised(&self) -> (r: i128)
        ensures
            r == self.total_raised,
    {
        self.total_raised
    }

    /// The cumulative amount of `who`, 0 if `who` never contributed.
    pub fn contribution(&self, who: Identity) -> (r: i128)
        requires
            self.wf(),
        ensures
            r == self.contribution_spec(who),
    {
        match find_row(&self.rows, who) {
            Some(i) => {
                proof {
                    lemma_lookup_at(self.rows@, i as int, 0i128);
                }
                self.rows[i].1
            },
            None => 0,
        }
    }

    /// Adds `amount` to what `donor` has contributed, logs the contribution and
    /// returns the donor's new cumulative amount.
    pub fn record_contribution(&mut self, donor: Identity, amount: i128, timestamp: u64) -> (r: i128)
        requires
            old(self).wf(),
            amount > 0,
            old(self).total_raised + amount <= i128::MAX,
        ensures
            final(self).wf(),
            r == old(self).contribution_spec(donor) + amount,
            final(self).total_raised == old(self).total_raised + amount,
            forall|w: Identity|
                #[trigger] final(self).contribution_spec(w) == if w == donor {
                    r
                } else {
                    old(self).contribution_spec(w)
                },
            final(self).history@ == old(self).history@.push(
                DonationRecord { donor, amount, timestamp },
            ),
    {
        let ghost rows = self.rows@;
        let new_total: i128;
        match find_row(&self.rows, donor) {
            Some(i) => {
                let current = self.rows[i].1;
                proof {
                    lemma_lookup_at(rows, i as int, 0i128);
                    lemma_row_within_sum(rows, i as int);
                }
                new_total = current + amount;
                proof {
                    lemma_lookup_replace(rows, i as int, new_total, 0i128);
                    lemma_sum_update(rows, i as int, (donor, new_total));
                }
                self.rows[i] = (donor, new_total);
            },
            None => {
                new_total = amount;
                proof {
                    lemma_lookup_push(rows, donor, amount, 0i128);
                    lemma_sum_push(rows, (donor, amount));
                }
                self.rows.push((donor, amount));
            },
        }
        assert forall|j: int| 0 <= j < self.rows@.len() implies #[trigger] self.rows@[j].1 >= 0 by {
            if j < rows.len() && self.rows@[j] != (donor, new_total) {
                assert(self.rows@[j] == rows[j]);
            }
        }
        self.total_raised = self.total_raised + amount;
        self.history.push(DonationRecord { donor, amount, timestamp });
        new_total
    }

    /// Zeroes what `donor` has contributed and returns that amount; refused
    /// with `NoDonation`, changing nothing, where there is nothing to return.
    pub fn mark_refunded(&mut self, donor: Identity) -> (r: Result<i128, CampaignError>)
        requires
            old(self).wf(),
        ensures
            final(self).wf(),
            final(self).history@ == old(self).history@,
            r.is_ok() <==> old(self).contribution_spec(donor) > 0,
            match r {
                Ok(amount) => {
                    &&& amount == old(self).contribution_spec(donor)
                    &&& final(self).total_raised == old(self).total_raised - amount
                    &&& forall|w: Identity|
                        #[trigger] final(self).contribution_spec(w) == if w == donor {
                            0
                        } else {
                            old(self).contribution_spec(w)
                        }
                },
                Err(e) => e == CampaignError::NoDonation && *final(self) == *old(self),
            },
    {
        let ghost rows = self.rows@;
        match find_row(&self.rows, donor) {
            Some(i) => {
                let amount = self.rows[i].1;
                proof {
                    lemma_lookup_at(rows, i as int, 0i128);
                }
                if amount <= 0 {
                    return Err(CampaignError::NoDonation);
                }
                proof {
                    lemma_row_within_sum(rows, i as int);
                    lemma_lookup_replace(rows, i as int, 0i128, 0i128);
                    lemma_sum_update(rows, i as int, (donor, 0i128));
                }
                self.rows[i] = (donor, 0);
                assert forall|j: int| 0 <= j < self.rows@.len() implies #[trigger] self.rows@[j].1 >= 0 by {
                    if j != i {
                        assert(self.rows@[j] == rows[j]);
                    }
                }
                self.total_raised = self.total_raised - amount;
                Ok(amount)
            },
            None => Err(CampaignError::NoDonation),
        }
    }
}

proof fn lemma_prefix_sum(l: &DonationLedger, k: int)
    requires
        l.wf(),
        0 <= k <= l.rows@.len(),
    ensures
        l.sum_contributions(l.contributors().subrange(0, k)) == ledger_sum(l.rows@.subrange(0, k)),
    decreases k,
{
    if k > 0 {
        lemma_prefix_sum(l, k - 1);
        assert(l.contributors().subrange(0, k).drop_last() =~= l.contributors().subrange(0, k - 1));
        assert(l.rows@.subrange(0, k).drop_last() =~= l.rows@.subrange(0, k - 1));
        lemma_lookup_at(l.rows@, k - 1, 0i128);
    }
}

/// The total raised is the sum, over all contributors, each counted once, of
/// what each has contributed; anyone else has contributed nothing.
pub proof fn lemma_total_is_sum_of_contributions(l: &DonationLedger)
    requires
        l.wf(),
    ensures
        l.contributors().no_duplicates(),
        forall|w: Identity| !l.contributors().contains(w) ==> #[trigger] l.contribution_spec(w) == 0,
        l.total_raised == l.sum_contributions(l.contributors()),
{
    let ids = l.contributors();
    assert forall|i: int, j: int| 0 <= i < ids.len() && 0 <= j < ids.len() && i != j implies ids[i]
        != ids[j] by {
        assert(l.rows@[i].0 != l.rows@[j].0);
    }
    assert forall|w: Identity| !ids.contains(w) implies #[trigger] l.contribution_spec(w) == 0 by {
        if has_key(l.rows@, w) {
            let j = choose|j: int| 0 <= j < l.rows@.len() && #[trigger] l.rows@[j].0 == w;
            assert(ids[j] == w);
        }
    }
    lemma_prefix_sum(l, l.rows@.len() as int);
    assert(ids.subrange(0, ids.len() as int) =~= ids);
    assert(l.rows@.subrange(0, l.rows@.len() as int) =~= l.rows@);
}

} // verus!
