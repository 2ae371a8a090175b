use vstd::prelude::*;

use crate::identity::Identity;
use crate::table::{find_row, has_key, keys_are_unique, keys_unique, lemma_lookup_at, lemma_lookup_push, lemma_lookup_replace, lookup};

verus! {

/// Length of the calendar day that streaks are counted in.
pub const ONE_DAY_SECONDS: u64 = 86400;

/// A contributor's participation: the day of the latest contribution and the
/// number of consecutive days, ending there, with at least one contribution.
#[derive(Clone, Copy, Debug, PartialEq, Eq, Structural)]
pub struct StreakInfo {
    pub last_donation_day: u64,
    pub streak_days: u32,
}

/// The record of someone who never contributed.
pub open spec fn no_streak() -> StreakInfo {
    StreakInfo { last_donation_day: 0, streak_days: 0 }
}

/// The calendar day that a timestamp (in seconds) falls in.
pub open spec fn day_of(timestamp: u64) -> u64 {
    (timestamp / ONE_DAY_SECONDS) as u64
}

/// The record after a contribution on `day`. A record whose last day is 0
/// counts as none; a contribution on the day after the last one extends the
/// streak, a later one starts a new streak, and one on the same day leaves the
/// count alone.
pub open spec fn streak_after(prev: StreakInfo, day: u64) -> StreakInfo {
    let days: int = if prev.last_donation_day == 0 {
        1
    } else if day == prev.last_donation_day + 1 {
        prev.streak_days + 1
    } else if day > prev.last_donation_day + 1 {
        1
    } else {
        prev.streak_days as int
    };
    StreakInfo { last_donation_day: day, streak_days: days as u32 }
}

/// Whether the count in `prev` can be extended by a contribution on `day`
/// without passing the largest count a record holds.
pub open spec fn streak_fits(prev: StreakInfo, day: u64) -> bool {
    prev.last_donation_day > 0 && day == prev.last_donation_day + 1 ==> prev.streak_days < u32::MAX
}

/// Per-contributor streak records.
pub struct StreakTracker {
    pub rows: Vec<(Identity, StreakInfo)>,
}

impl StreakTracker {
    pub open spec fn wf(&self) -> bool {
        &&& keys_unique(self.rows@)
        &&& forall|j: int| 0 <= j < self.rows@.len() ==> #[trigger] self.rows@[j].1.streak_days >= 1
    }

    pub open spec fn streak_spec(&self, who: Identity) -> StreakInfo {
        lookup(self.rows@, who, no_streak())
    }

    pub fn new() -> (r: StreakTracker)
        ensures
            r.wf(),
            r.rows@.len() == 0,
            forall|w: Identity| #[trigger] r.streak_spec(w) == no_streak(),
    {
        StreakTracker { rows: Vec::new() }
    }

    /// Whether the tracker is well-formed.
    pub fn is_consistent(&self) -> (r: bool)
        ensures
            r == self.wf(),
    {
        if !keys_are_unique(&self.rows) {
            return false;
        }
        let mut i: usize = 0;
        while i < self.rows.len()
            invariant
                i <= self.rows@.len(),
                forall|j: int| 0 <= j < i ==> #[trigger] self.rows@[j].1.streak_days >= 1,
            decreases self.rows@.len() - i,
        {
            if self.rows[i].1.streak_days < 1 {
                return false;
            }
            i = i + 1;
        }
        true
    }

    /// The record of `who`, `{0, 0}` if `who` never contributed.
    pub fn streak_of(&self, who: Identity) -> (r: StreakInfo)
        requires
            self.wf(),
        ensures
            r == self.streak_spec(who),
    {
        match find_row(&self.rows, who) {
            Some(i) => {
                proof {
                    lemma_lookup_at(self.rows@, i as int, no_streak());
                }
                self.rows[i].1
            },
            None => StreakInfo { last_donation_day: 0, streak_days: 0 },
        }
    }

    /// Records a contribution by `donor` at `timestamp`.
    pub fn update(&mut self, donor: Identity, timestamp: u64)
        requires
            old(self).wf(),
            streak_fits(old(self).streak_spec(donor), day_of(timestamp)),
        ensures
            final(self).wf(),
            forall|w: Identity|
                #[trigger] final(self).streak_spec(w) == if w == donor {
                    streak_after(old(self).streak_spec(donor), day_of(timestamp))
                } else {
                    old(self).streak_spec(w)
                },
    {
        let current_day = timestamp / ONE_DAY_SECONDS;
        let prev = self.streak_of(donor);
        let mut days = prev.streak_days;
        if prev.last_donation_day > 0 {
            if current_day > prev.last_donation_day && current_day - prev.last_donation_day == 1 {
                days = days + 1;
            } else if current_day > prev.last_donation_day {
                days = 1;
            }
        } else {
            days = 1;
        }
        let info = StreakInfo { last_donation_day: current_day, streak_days: days };
        assert(info == streak_after(prev, day_of(timestamp)));
        proof {
            if prev.last_donation_day > 0 {
                assert(has_key(self.rows@, donor)) by {
                    if !has_key(self.rows@, donor) {
                        assert(prev == no_streak());
                    }
                }
                let j = choose|j: int| 0 <= j < self.rows@.len() && #[trigger] self.rows@[j].0 == donor;
                lemma_lookup_at(self.rows@, j, no_streak());
                assert(prev.streak_days >= 1);
            }
        }
        match find_row(&self.rows, donor) {
            Some(i) => {
                proof {
                    lemma_lookup_replace(self.rows@, i as int, info, no_streak());
                }
                self.rows[i] = (donor, info);
            },
            None => {
                proof {
                    lemma_lookup_push(self.rows@, donor, info, no_streak());
                }
                self.rows.push((donor, info));
            },
        }
    }
}

/// Anyone whose last contribution day is past day 0 has a streak of at least
/// one day.
pub proof fn lemma_streak_positive(t: &StreakTracker, who: Identity)
    requires
        t.wf(),
    ensures
        t.streak_spec(who).last_donation_day > 0 ==> t.streak_spec(who).streak_days >= 1,
{
    if has_key(t.rows@, who) {
        let j = choose|j: int| 0 <= j < t.rows@.len() && #[trigger] t.rows@[j].0 == who;
        lemma_lookup_at(t.rows@, j, no_streak());
    }
}

} // verus!
