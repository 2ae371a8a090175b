use vstd::prelude::*;

use crate::identity::Identity;

verus! {

/// How many contributors the ranking holds at most.
pub const LEADERBOARD_SIZE: usize = 3;

/// A contributor's cumulative total as it stood when the ranking last saw it.
#[derive(Clone, Copy, Debug, PartialEq, Eq, Structural)]
pub struct TopDonor {
    pub donor: Identity,
    pub total_donation: i128,
}

/// Ordered by total, largest first; equal totals in any order.
pub open spec fn descending(s: Seq<TopDonor>) -> bool {
    forall|i: int, j: int|
        0 <= i < j < s.len() ==> #[trigger] s[i].total_donation >= #[trigger] s[j].total_donation
}

pub open spec fn strictly_descending(s: Seq<TopDonor>) -> bool {
    forall|i: int, j: int|
        0 <= i < j < s.len() ==> #[trigger] s[i].total_donation > #[trigger] s[j].total_donation
}

pub open spec fn donors_distinct(s: Seq<TopDonor>) -> bool {
    forall|i: int, j: int|
        0 <= i < s.len() && 0 <= j < s.len() && i != j ==> #[trigger] s[i].donor
            != #[trigger] s[j].donor
}

pub open spec fn ranks(s: Seq<TopDonor>, who: Identity) -> bool {
    exists|i: int| 0 <= i < s.len() && #[trigger] s[i].donor == who
}

/// The ranking with `who`'s entry taken out.
pub open spec fn without_donor(s: Seq<TopDonor>, who: Identity) -> Seq<TopDonor> {
    if ranks(s, who) {
        s.remove(choose|i: int| 0 <= i < s.len() && #[trigger] s[i].donor == who)
    } else {
        s
    }
}

/// `p` is the first place whose total is strictly below `total` (or the end).
pub open spec fn is_insert_pos(s: Seq<TopDonor>, total: i128, p: int) -> bool {
    &&& 0 <= p <= s.len()
    &&& forall|j: int| 0 <= j < p ==> #[trigger] s[j].total_donation >= total
    &&& p < s.len() ==> s[p].total_donation < total
}

pub open spec fn insert_pos(s: Seq<TopDonor>, total: i128) -> int {
    choose|p: int| is_insert_pos(s, total, p)
}

/// The ranking after `who` reached the cumulative total `total`: the old entry
/// of `who` goes, the new one is placed ahead of the first strictly smaller
/// total if that place is among the first `LEADERBOARD_SIZE`, and whatever then
/// falls past the bound is dropped.
pub open spec fn ranked_after(s: Seq<TopDonor>, who: Identity, total: i128) -> Seq<TopDonor> {
    let rest = without_donor(s, who);
    let p = insert_pos(rest, total);
    if p < LEADERBOARD_SIZE {
        let grown = rest.insert(p, TopDonor { donor: who, total_donation: total });
        if grown.len() > LEADERBOARD_SIZE {
            grown.drop_last()
        } else {
            grown
        }
    } else {
        rest
    }
}

pub proof fn lemma_insert_pos_unique(s: Seq<TopDonor>, total: i128, p: int)
    requires
        is_insert_pos(s, total, p),
    ensures
        insert_pos(s, total) == p,
{
    let q = insert_pos(s, total);
    if q < p {
        assert(s[q].total_donation >= total);
    } else if p < q {
        assert(s[p].total_donation >= total);
    }
}

/// Taking one entry out keeps the ranking's order and distinctness; an entry
/// that is not `s[i]` keeps its total.
proof fn lemma_remove_keeps_order(s: Seq<TopDonor>, i: int, total: i128)
    requires
        0 <= i < s.len(),
        descending(s),
        donors_distinct(s),
    ensures
        descending(s.remove(i)),
        donors_distinct(s.remove(i)),
        forall|j: int| 0 <= j < s.remove(i).len() ==> #[trigger] s.remove(i)[j].donor != s[i].donor,
        strictly_descending(s) && (forall|j: int|
            0 <= j < s.len() && #[trigger] s[j].donor != s[i].donor ==> s[j].total_donation != total)
            ==> strictly_descending(s.remove(i)) && (forall|j: int|
            0 <= j < s.remove(i).len() ==> #[trigger] s.remove(i)[j].total_donation != total),
{
    let r = s.remove(i);
    s.remove_ensures(i);
    assert forall|j: int| 0 <= j < r.len() implies r[j] == s[if j < i { j } else { j + 1 }] by {}
    assert forall|a: int, b: int| 0 <= a < b < r.len() implies #[trigger] r[a].total_donation
        >= #[trigger] r[b].total_donation by {
        assert(r[a] == s[if a < i { a } else { a + 1 }]);
        assert(r[b] == s[if b < i { b } else { b + 1 }]);
    }
    assert forall|a: int, b: int| 0 <= a < r.len() && 0 <= b < r.len() && a != b implies #[trigger] r[a].donor
        != #[trigger] r[b].donor by {
        assert(r[a] == s[if a < i { a } else { a + 1 }]);
        assert(r[b] == s[if b < i { b } else { b + 1 }]);
    }
    assert forall|j: int| 0 <= j < r.len() implies #[trigger] r[j].donor != s[i].donor by {
        assert(r[j] == s[if j < i { j } else { j + 1 }]);
    }
    if strictly_descending(s) && (forall|j: int|
        0 <= j < s.len() && #[trigger] s[j].donor != s[i].donor ==> s[j].total_donation != total) {
        assert forall|a: int, b: int| 0 <= a < b < r.len() implies #[trigger] r[a].total_donation
            > #[trigger] r[b].total_donation by {
            assert(r[a] == s[if a < i { a } else { a + 1 }]);
            assert(r[b] == s[if b < i { b } else { b + 1 }]);
        }
        assert forall|j: int| 0 <= j < r.len() implies #[trigger] r[j].total_donation != total by {
            let k = if j < i { j } else { j + 1 };
            assert(r[j] == s[k]);
            assert(s[k].donor != s[i].donor);
        }
    }
}

/// Placing a new entry at its insertion place keeps the ranking's order and
/// distinctness, and strictness where no total equals the new one.
proof fn lemma_insert_keeps_order(r: Seq<TopDonor>, p: int, e: TopDonor)
    requires
        descending(r),
        donors_distinct(r),
        !ranks(r, e.donor),
        is_insert_pos(r, e.total_donation, p),
    ensures
        descending(r.insert(p, e)),
        donors_distinct(r.insert(p, e)),
        strictly_descending(r) && (forall|j: int|
            0 <= j < r.len() ==> #[trigger] r[j].total_donation != e.total_donation)
            ==> strictly_descending(r.insert(p, e)),
{
    let g = r.insert(p, e);
    r.insert_ensures(p, e);
    assert forall|j: int| 0 <= j < g.len() && j != p implies g[j] == r[if j < p { j } else { j - 1 }] by {
        if j > p {
            assert(g[(j - 1) + 1] == r[j - 1]);
        }
    }
    assert forall|a: int, b: int| 0 <= a < b < g.len() implies #[trigger] g[a].total_donation
        >= #[trigger] g[b].total_donation by {
        if b > p {
            assert(g[b] == r[b - 1]);
            if p < r.len() {
                assert(r[p].total_donation >= r[b - 1].total_donation);
            }
        }
        if a != p {
            assert(g[a] == r[if a < p { a } else { a - 1 }]);
        }
    }
    assert forall|a: int, b: int| 0 <= a < g.len() && 0 <= b < g.len() && a != b implies #[trigger] g[a].donor
        != #[trigger] g[b].donor by {
        if a != p {
            assert(g[a] == r[if a < p { a } else { a - 1 }]);
        }
        if b != p {
            assert(g[b] == r[if b < p { b } else { b - 1 }]);
        }
    }
    if strictly_descending(r) && (forall|j: int|
        0 <= j < r.len() ==> #[trigger] r[j].total_donation != e.total_donation) {
        assert forall|a: int, b: int| 0 <= a < b < g.len() implies #[trigger] g[a].total_donation
            > #[trigger] g[b].total_donation by {
            if b > p {
                assert(g[b] == r[b - 1]);
                if p < r.len() {
                    assert(r[p].total_donation >= r[b - 1].total_donation);
                }
            }
            if a != p {
                assert(g[a] == r[if a < p { a } else { a - 1 }]);
            }
        }
    }
}

/// The bounded ranking of the largest cumulative contributors.
pub struct LeaderboardTracker {
    pub entries: Vec<TopDonor>,
}

impl LeaderboardTracker {
    pub open spec fn wf(&self) -> bool {
        &&& self.entries@.len() <= LEADERBOARD_SIZE
        &&& descending(self.entries@)
        &&& donors_distinct(self.entries@)
    }

    /// Whether the ranking is well-formed.
    pub fn is_consistent(&self) -> (r: bool)
        ensures
            r == self.wf(),
    {
        let s = &self.entries;
        if s.len() > LEADERBOARD_SIZE {
            return false;
        }
        let mut i: usize = 0;
        while i < s.len()
            invariant
                s@ == self.entries@,
                i <= s@.len(),
                forall|a: int, b: int|
                    0 <= a < i && 0 <= b < s@.len() && a != b ==> #[trigger] s@[a].donor
                        != #[trigger] s@[b].donor,
                forall|a: int, b: int|
                    0 <= a < i && a < b < s@.len() ==> #[trigger] s@[a].total_donation
                        >= #[trigger] s@[b].total_donation,
            decreases s@.len() - i,
        {
            let mut j: usize = 0;
            while j < s.len()
                invariant
                    s@ == self.entries@,
                    i < s@.len(),
                    j <= s@.len(),
                    forall|a: int, b: int|
                        0 <= a < i && 0 <= b < s@.len() && a != b ==> #[trigger] s@[a].donor
                            != #[trigger] s@[b].donor,
                    forall|a: int, b: int|
                        0 <= a < i && a < b < s@.len() ==> #[trigger] s@[a].total_donation
                            >= #[trigger] s@[b].total_donation,
                    forall|b: int| 0 <= b < j && b != i ==> s@[i as int].donor != #[trigger] s@[b].donor,
                    forall|b: int| i < b < j ==> s@[i as int].total_donation >= #[trigger] s@[b].total_donation,
                decreases s@.len() - j,
            {
                if j != i && s[i].donor == s[j].donor {
                    assert(!donors_distinct(s@)) by {
                        assert(s@[i as int].donor == s@[j as int].donor);
                    }
                    return false;
                }
                if j > i && s[i].total_donation < s[j].total_donation {
                    assert(!descending(s@)) by {
                        assert(s@[i as int].total_donation < s@[j as int].total_donation);
                    }
                    return false;
                }
                j = j + 1;
            }
            i = i + 1;
        }
        true
    }

    pub fn new() -> (r: LeaderboardTracker)
        ensures
            r.wf(),
            r.entries@ == Seq::<TopDonor>::empty(),
    {
        LeaderboardTracker { entries: Vec::new() }
    }

    /// Records that `donor`'s cumulative total is now `total_donation`.
    pub fn update(&mut self, donor: Identity, total_donation: i128)
        requires
            old(self).wf(),
        ensures
            final(self).wf(),
            final(self).entries@ == ranked_after(old(self).entries@, donor, total_donation),
            strictly_descending(old(self).entries@) && (forall|j: int|
                0 <= j < old(self).entries@.len() && #[trigger] old(self).entries@[j].donor
                    != donor ==> old(self).entries@[j].total_donation != total_donation)
                ==> strictly_descending(final(self).entries@),
    {
        let ghost s = self.entries@;
        let ghost strict_in = strictly_descending(s) && (forall|j: int|
            0 <= j < s.len() && #[trigger] s[j].donor != donor ==> s[j].total_donation
                != total_donation);
        let mut i: usize = 0;
        while i < self.entries.len() && !(self.entries[i].donor == donor)
            invariant
                self.entries@ == s,
                i <= s.len(),
                forall|j: int| 0 <= j < i ==> #[trigger] s[j].donor != donor,
            decreases s.len() - i,
        {
            i = i + 1;
        }
        let found = i < self.entries.len();
        if found {
            proof {
                let c = choose|j: int| 0 <= j < s.len() && #[trigger] s[j].donor == donor;
                assert(s[c].donor == s[i as int].donor);
                assert(c == i);
                lemma_remove_keeps_order(s, i as int, total_donation);
            }
            self.entries.remove(i);
        } else {
            assert forall|j: int| 0 <= j < s.len() implies #[trigger] s[j].donor != donor by {}
            assert(!ranks(s, donor));
            proof {
                if strict_in {
                    assert forall|j: int| 0 <= j < s.len() implies #[trigger] s[j].total_donation
                        != total_donation by {
                        assert(s[j].donor != donor);
                    }
                }
            }
        }
        let ghost rest = self.entries@;
        assert(rest == without_donor(s, donor));
        assert(descending(rest));
        assert(donors_distinct(rest));
        assert(!ranks(rest, donor));
        assert(strict_in ==> strictly_descending(rest) && (forall|j: int|
            0 <= j < rest.len() ==> #[trigger] rest[j].total_donation != total_donation));

        let mut pos: usize = 0;
        while pos < self.entries.len() && !(self.entries[pos].total_donation < total_donation)
            invariant
                self.entries@ == rest,
                pos <= rest.len(),
                forall|j: int| 0 <= j < pos ==> #[trigger] rest[j].total_donation >= total_donation,
            decreases rest.len() - pos,
        {
            pos = pos + 1;
        }
        proof {
            lemma_insert_pos_unique(rest, total_donation, pos as int);
        }
        if pos < LEADERBOARD_SIZE {
            let entry = TopDonor { donor, total_donation };
            proof {
                lemma_insert_keeps_order(rest, pos as int, entry);
            }
            self.entries.insert(pos, entry);
            if self.entries.len() > LEADERBOARD_SIZE {
                let ghost grown = self.entries@;
                self.entries.pop();
                assert(self.entries@ == grown.drop_last());
            }
        }
    }
}

} // verus!
