use vstd::prelude::*;

use vstd::arithmetic::div_mod::{lemma_fundamental_div_mod, lemma_fundamental_div_mod_converse};

use crate::error::CampaignError;
use crate::identity::Identity;
use crate::leaderboard::{ranked_after, LeaderboardTracker, TopDonor};
use crate::ledger::{DonationLedger, DonationRecord};
use crate::streak::{day_of, no_streak, streak_after, streak_fits, StreakInfo, StreakTracker};

verus! {

/// The facts fixed when a campaign is set up.
#[derive(Clone, Copy, Debug, PartialEq, Eq, Structural)]
pub struct CampaignConfig {
    pub owner: Identity,
    pub goal: i128,
    pub deadline: u64,
    /// The asset contract that contributions are paid in.
    pub xlm_token: Identity,
}

/// `a / b` rounded towards negative infinity.
pub open spec fn floor_div(a: int, b: int) -> int {
    if b > 0 {
        a / b
    } else {
        (-a) / (-b)
    }
}

/// How much of the goal has been raised, in whole percent; 0 for a zero goal.
pub open spec fn progress_of(total: i128, goal: i128) -> int {
    if goal == 0 {
        0
    } else {
        floor_div(total * 100, goal as int)
    }
}

/// Copies a sequence of plain values.
fn copy_vec<T: Copy>(v: &Vec<T>) -> (r: Vec<T>)
    ensures
        r@ == v@,
{
    let mut r: Vec<T> = Vec::new();
    let mut i: usize = 0;
    while i < v.len()
        invariant
            i <= v@.len(),
            r@ == v@.subrange(0, i as int),
        decreases v@.len() - i,
    {
        r.push(v[i]);
        i = i + 1;
        assert(r@ == v@.subrange(0, i as int));
    }
    r
}

/// The whole state of one fundraising campaign: its configuration (absent
/// until it is set up), the ledger, the ranking and the streaks. Every
/// operation either applies all of its changes or, when it is refused, none.
pub struct CrowdfundingContract {
    pub config: Option<CampaignConfig>,
    pub ledger: DonationLedger,
    pub leaderboard: LeaderboardTracker,
    pub streaks: StreakTracker,
}

impl CrowdfundingContract {
    /// The ledger's total is the sum of every contributor's amount, the ranking
    /// is ordered, bounded and without repeats, and every streak record counts
    /// at least one day. A campaign that has not been set up holds nothing.
    pub open spec fn wf(&self) -> bool {
        &&& self.ledger.wf()
        &&& self.leaderboard.wf()
        &&& self.streaks.wf()
        &&& self.config is None ==> {
            &&& self.ledger.rows@.len() == 0
            &&& self.ledger.history@.len() == 0
            &&& self.leaderboard.entries@.len() == 0
            &&& self.streaks.rows@.len() == 0
        }
    }

    pub open spec fn goal_spec(&self) -> i128 {
        match self.config {
            Some(c) => c.goal,
            None => 0,
        }
    }

    pub open spec fn deadline_spec(&self) -> u64 {
        match self.config {
            Some(c) => c.deadline,
            None => 0,
        }
    }

    /// Whether the state is well-formed; every operation that reads or changes
    /// a campaign asks for this.
    pub fn is_consistent(&self) -> (r: bool)
        ensures
            r == self.wf(),
    {
        if !self.ledger.is_consistent() || !self.leaderboard.is_consistent()
            || !self.streaks.is_consistent() {
            return false;
        }
        match self.config {
            Some(_) => true,
            None => self.ledger.rows.len() == 0 && self.ledger.history.len() == 0
                && self.leaderboard.entries.len() == 0 && self.streaks.rows.len() == 0,
        }
    }

    /// A campaign that has not been set up.
    pub fn new() -> (r: CrowdfundingContract)
        ensures
            r.wf(),
            r.config is None,
            r.ledger.total_raised == 0,
            r.ledger.history@ == Seq::<DonationRecord>::empty(),
            r.leaderboard.entries@ == Seq::<TopDonor>::empty(),
            forall|w: Identity| #[trigger] r.ledger.contribution_spec(w) == 0,
            forall|w: Identity| #[trigger] r.streaks.streak_spec(w) == no_streak(),
    {
        CrowdfundingContract {
            config: None,
            ledger: DonationLedger::new(),
            leaderboard: LeaderboardTracker::new(),
            streaks: StreakTracker::new(),
        }
    }

    /// Sets the campaign up; whatever was recorded before is discarded.
    pub fn initialize(&mut self, owner: Identity, goal: i128, deadline: u64, xlm_token: Identity)
        ensures
            final(self).wf(),
            final(self).config == Some(CampaignConfig { owner, goal, deadline, xlm_token }),
            final(self).ledger.total_raised == 0,
            final(self).ledger.history@ == Seq::<DonationRecord>::empty(),
            final(self).leaderboard.entries@ == Seq::<TopDonor>::empty(),
            forall|w: Identity| #[trigger] final(self).ledger.contribution_spec(w) == 0,
            forall|w: Identity|
                #[trigger] final(self).streaks.streak_spec(w) == no_streak(),
    {
        self.config = Some(CampaignConfig { owner, goal, deadline, xlm_token });
        self.ledger = DonationLedger::new();
        self.leaderboard = LeaderboardTracker::new();
        self.streaks = StreakTracker::new();
    }

    /// A contribution of `amount` by `donor` at time `now` (unix seconds). It
    /// is refused before set-up, after the deadline, and for a non-positive
    /// amount, in that order; otherwise the ledger, the history, the ranking
    /// and the donor's streak take it in.
    pub fn donate(&mut self, donor: Identity, amount: i128, now: u64) -> (r: Result<(), CampaignError>)
        requires
            old(self).wf(),
            old(self).config is Some && now <= old(self).deadline_spec() && amount > 0 ==> {
                &&& old(self).ledger.total_raised + amount <= i128::MAX
                &&& streak_fits(old(self).streaks.streak_spec(donor), day_of(now))
            },
        ensures
            final(self).wf(),
            old(self).config is None ==> r == Err::<(), CampaignError>(CampaignError::NotInitialized),
            old(self).config is Some && now > old(self).deadline_spec() ==> r == Err::<(), CampaignError>(
                CampaignError::CampaignEnded,
            ),
            old(self).config is Some && now <= old(self).deadline_spec() && amount <= 0 ==> r == Err::<
                (),
                CampaignError,
            >(CampaignError::InvalidAmount),
            old(self).config is Some && now <= old(self).deadline_spec() && amount > 0 ==> r is Ok,
            r is Err ==> *final(self) == *old(self),
            r is Ok ==> {
                let total = old(self).ledger.contribution_spec(donor) + amount;
                &&& final(self).config == old(self).config
                &&& final(self).ledger.total_raised == old(self).ledger.total_raised + amount
                &&& forall|w: Identity|
                    #[trigger] final(self).ledger.contribution_spec(w) == if w == donor {
                        total
                    } else {
                        old(self).ledger.contribution_spec(w) as int
                    }
                &&& final(self).ledger.history@ == old(self).ledger.history@.push(
                    DonationRecord { donor, amount, timestamp: now },
                )
                &&& final(self).leaderboard.entries@ == ranked_after(
                    old(self).leaderboard.entries@,
                    donor,
                    total as i128,
                )
                &&& forall|w: Identity|
                    #[trigger] final(self).streaks.streak_spec(w) == if w == donor {
                        streak_after(old(self).streaks.streak_spec(donor), day_of(now))
                    } else {
                        old(self).streaks.streak_spec(w)
                    }
            },
    {
        let deadline = match self.config {
            Some(c) => c.deadline,
            None => {
                return Err(CampaignError::NotInitialized);
            },
        };
        if now > deadline {
            return Err(CampaignError::CampaignEnded);
        }
        if amount <= 0 {
            return Err(CampaignError::InvalidAmount);
        }
        let total = self.ledger.record_contribution(donor, amount, now);
        self.leaderboard.update(donor, total);
        self.streaks.update(donor, now);
        Ok(())
    }

    /// Gives `donor` back everything contributed, once the deadline has passed
    /// without the goal being met, and returns the amount to pay out. Refused
    /// before set-up, before the deadline, when the goal was reached, and when
    /// there is nothing to give back, in that order.
    pub fn refund(&mut self, donor: Identity, now: u64) -> (r: Result<i128, CampaignError>)
        requires
            old(self).wf(),
        ensures
            final(self).wf(),
            old(self).config is None ==> r == Err::<i128, CampaignError>(CampaignError::NotInitialized),
            old(self).config is Some && now <= old(self).deadline_spec() ==> r == Err::<
                i128,
                CampaignError,
            >(CampaignError::CampaignNotEnded),
            old(self).config is Some && now > old(self).deadline_spec()
                && old(self).ledger.total_raised >= old(self).goal_spec() ==> r == Err::<
                i128,
                CampaignError,
            >(CampaignError::GoalReached),
            old(self).config is Some && now > old(self).deadline_spec()
                && old(self).ledger.total_raised < old(self).goal_spec()
                && old(self).ledger.contribution_spec(donor) <= 0 ==> r == Err::<i128, CampaignError>(
                CampaignError::NoDonation,
            ),
            old(self).config is Some && now > old(self).deadline_spec()
                && old(self).ledger.total_raised < old(self).goal_spec()
                && old(self).ledger.contribution_spec(donor) > 0 ==> r is Ok,
            r is Err ==> *final(self) == *old(self),
            r is Ok ==> {
                let amount = r->Ok_0;
                &&& amount == old(self).ledger.contribution_spec(donor)
                &&& final(self).config == old(self).config
                &&& final(self).ledger.total_raised == old(self).ledger.total_raised - amount
                &&& forall|w: Identity|
                    #[trigger] final(self).ledger.contribution_spec(w) == if w == donor {
                        0
                    } else {
                        old(self).ledger.contribution_spec(w)
                    }
                &&& final(self).ledger.history@ == old(self).ledger.history@
                &&& final(self).leaderboard == old(self).leaderboard
                &&& final(self).streaks == old(self).streaks
            },
    {
        let (deadline, goal) = match self.config {
            Some(c) => (c.deadline, c.goal),
            None => {
                return Err(CampaignError::NotInitialized);
            },
        };
        if now <= deadline {
            return Err(CampaignError::CampaignNotEnded);
        }
        if self.ledger.total_raised >= goal {
            return Err(CampaignError::GoalReached);
        }
        self.ledger.mark_refunded(donor)
    }

    pub fn get_leaderboard(&self) -> (r: Vec<TopDonor>)
        requires
            self.wf(),
        ensures
            r@ == self.leaderboard.entries@,
            self.config is None ==> r@.len() == 0,
    {
        copy_vec(&self.leaderboard.entries)
    }

    pub fn get_streak_info(&self, donor: Identity) -> (r: StreakInfo)
        requires
            self.wf(),
        ensures
            r == self.streaks.streak_spec(donor),
            self.config is None ==> r == no_streak(),
    {
        self.streaks.streak_of(donor)
    }

    pub fn get_donation_history(&self) -> (r: Vec<DonationRecord>)
        requires
            self.wf(),
        ensures
            r@ == self.ledger.history@,
            self.config is None ==> r@.len() == 0,
    {
        copy_vec(&self.ledger.history)
    }

    pub fn get_total_raised(&self) -> (r: i128)
        requires
            self.wf(),
        ensures
            r == self.ledger.total_raised,
            self.config is None ==> r == 0,
    {
        self.ledger.total_raised()
    }

    pub fn get_donation(&self, donor: Identity) -> (r: i128)
        requires
            self.wf(),
        ensures
            r == self.ledger.contribution_spec(donor),
            r >= 0,
            self.config is None ==> r == 0,
    {
        self.ledger.contribution(donor)
    }

    pub fn get_is_already_init(&self) -> (r: bool)
        ensures
            r == self.config is Some,
    {
        self.config.is_some()
    }

    pub fn get_goal(&self) -> (r: i128)
        ensures
            r == self.goal_spec(),
    {
        match self.config {
            Some(c) => c.goal,
            None => 0,
        }
    }

    pub fn get_deadline(&self) -> (r: u64)
        ensures
            r == self.deadline_spec(),
    {
        match self.config {
            Some(c) => c.deadline,
            None => 0,
        }
    }

    pub fn is_goal_reached(&self) -> (r: bool)
        ensures
            r == (self.ledger.total_raised >= self.goal_spec()),
    {
        self.ledger.total_raised >= self.get_goal()
    }

    /// Whether the deadline has passed at time `now`.
    pub fn is_ended(&self, now: u64) -> (r: bool)
        ensures
            r == (now > self.deadline_spec()),
    {
        now > self.get_deadline()
    }

    pub fn get_progress_percentage(&self) -> (r: i128)
        requires
            self.wf(),
            self.ledger.total_raised * 100 <= i128::MAX,
        ensures
            r == progress_of(self.ledger.total_raised, self.goal_spec()),
    {
        let goal = self.get_goal();
        if goal == 0 {
            return 0;
        }
        proof {
            crate::ledger::lemma_sum_nonnegative(self.ledger.rows@);
        }
        let scaled = self.ledger.total_raised * 100;
        let s = scaled as u128;
        if goal > 0 {
            let g = goal as u128;
            let q = s / g;
            q as i128
        } else {
            let m: u128 = (-(goal + 1)) as u128 + 1;
            let q = s / m;
            let rem = s % m;
            proof {
                lemma_fundamental_div_mod(s as int, m as int);
                assert(s == q * m + rem) by (nonlinear_arith)
                    requires
                        s == m * q + rem,
                ;
                if rem == 0 {
                    assert(-scaled == (-q) * m + 0) by (nonlinear_arith)
                        requires
                            s == q * m + rem,
                            rem == 0,
                            s == scaled,
                    ;
                    lemma_fundamental_div_mod_converse(-scaled, m as int, -q, 0);
                } else {
                    assert(-scaled == (-q - 1) * m + (m - rem)) by (nonlinear_arith)
                        requires
                            s == q * m + rem,
                            s == scaled,
                    ;
                    lemma_fundamental_div_mod_converse(-scaled, m as int, -q - 1, m - rem);
                }
            }
            if rem == 0 {
                -(q as i128)
            } else {
                -(q as i128) - 1
            }
        }
    }
}

} // verus!
