use vstd::prelude::*;

use crate::identity::Identity;

verus! {

// A table is a sequence of (identity, value) rows in which each identity
// appears at most once. It stands for the finite map from identities to values
// that gives `default` to every identity without a row.

pub open spec fn keys_unique<V>(rows: Seq<(Identity, V)>) -> bool {
    forall|i: int, j: int|
        0 <= i < rows.len() && 0 <= j < rows.len() && i != j ==> #[trigger] rows[i].0
            != #[trigger] rows[j].0
}

pub open spec fn has_key<V>(rows: Seq<(Identity, V)>, key: Identity) -> bool {
    exists|i: int| 0 <= i < rows.len() && #[trigger] rows[i].0 == key
}

/// The value that the table gives `key`.
pub open spec fn lookup<V>(rows: Seq<(Identity, V)>, key: Identity, default: V) -> V {
    if has_key(rows, key) {
        rows[choose|i: int| 0 <= i < rows.len() && #[trigger] rows[i].0 == key].1
    } else {
        default
    }
}

pub proof fn lemma_lookup_at<V>(rows: Seq<(Identity, V)>, i: int, default: V)
    requires
        keys_unique(rows),
        0 <= i < rows.len(),
    ensures
        lookup(rows, rows[i].0, default) == rows[i].1,
{
    let key = rows[i].0;
    assert(has_key(rows, key));
    let j = choose|j: int| 0 <= j < rows.len() && #[trigger] rows[j].0 == key;
    assert(rows[j].0 == rows[i].0);
}

/// Replacing the value in row `i` changes the lookup of that row's key only.
pub proof fn lemma_lookup_replace<V>(rows: Seq<(Identity, V)>, i: int, value: V, default: V)
    requires
        keys_unique(rows),
        0 <= i < rows.len(),
    ensures
        keys_unique(rows.update(i, (rows[i].0, value))),
        forall|k: Identity|
            #[trigger] lookup(rows.update(i, (rows[i].0, value)), k, default) == if k == rows[i].0 {
                value
            } else {
                lookup(rows, k, default)
            },
{
    let after = rows.update(i, (rows[i].0, value));
    assert forall|a: int, b: int|
        0 <= a < after.len() && 0 <= b < after.len() && a != b implies #[trigger] after[a].0
        != #[trigger] after[b].0 by {
        assert(after[a].0 == rows[a].0);
        assert(after[b].0 == rows[b].0);
    }
    assert forall|k: Identity|
        #[trigger] lookup(after, k, default) == if k == rows[i].0 {
            value
        } else {
            lookup(rows, k, default)
        } by {
        if k == rows[i].0 {
            lemma_lookup_at(after, i, default);
        } else if has_key(rows, k) {
            let j = choose|j: int| 0 <= j < rows.len() && #[trigger] rows[j].0 == k;
            lemma_lookup_at(rows, j, default);
            assert(after[j].0 == k);
            lemma_lookup_at(after, j, default);
        } else {
            assert forall|j: int| 0 <= j < after.len() implies #[trigger] after[j].0 != k by {
                assert(rows[j].0 != k);
            }
        }
    }
}

/// Appending a row for a new key changes the lookup of that key only.
pub proof fn lemma_lookup_push<V>(rows: Seq<(Identity, V)>, key: Identity, value: V, default: V)
    requires
        keys_unique(rows),
        !has_key(rows, key),
    ensures
        keys_unique(rows.push((key, value))),
        forall|k: Identity|
            #[trigger] lookup(rows.push((key, value)), k, default) == if k == key {
                value
            } else {
                lookup(rows, k, default)
            },
{
    let after = rows.push((key, value));
    assert forall|a: int, b: int|
        0 <= a < after.len() && 0 <= b < after.len() && a != b implies #[trigger] after[a].0
        != #[trigger] after[b].0 by {
        if a < rows.len() && b < rows.len() {
            assert(after[a].0 == rows[a].0);
            assert(after[b].0 == rows[b].0);
        } else if a < rows.len() {
            assert(after[a].0 == rows[a].0);
        } else {
            assert(after[b].0 == rows[b].0);
        }
    }
    assert forall|k: Identity|
        #[trigger] lookup(after, k, default) == if k == key {
            value
        } else {
            lookup(rows, k, default)
        } by {
        if k == key {
            lemma_lookup_at(after, rows.len() as int, default);
        } else if has_key(rows, k) {
            let j = choose|j: int| 0 <= j < rows.len() && #[trigger] rows[j].0 == k;
            lemma_lookup_at(rows, j, default);
            assert(after[j].0 == k);
            lemma_lookup_at(after, j, default);
        } else {
            assert forall|j: int| 0 <= j < after.len() implies #[trigger] after[j].0 != k by {
                if j < rows.len() {
                    assert(after[j].0 == rows[j].0);
                }
            }
        }
    }
}

/// Whether no identity has two rows.
pub fn keys_are_unique<V>(rows: &Vec<(Identity, V)>) -> (r: bool)
    ensures
        r == keys_unique(rows@),
{
    let mut i: usize = 0;
    while i < rows.len()
        invariant
            i <= rows@.len(),
            forall|a: int, b: int|
                0 <= a < i && 0 <= b < rows@.len() && a != b ==> #[trigger] rows@[a].0
                    != #[trigger] rows@[b].0,
        decreases rows@.len() - i,
    {
        let mut j: usize = 0;
        while j < rows.len()
            invariant
                i < rows@.len(),
                j <= rows@.len(),
                forall|a: int, b: int|
                    0 <= a < i && 0 <= b < rows@.len() && a != b ==> #[trigger] rows@[a].0
                        != #[trigger] rows@[b].0,
                forall|b: int| 0 <= b < j && b != i ==> rows@[i as int].0 != #[trigger] rows@[b].0,
            decreases rows@.len() - j,
        {
            if j != i && rows[i].0 == rows[j].0 {
                return false;
            }
            j = j + 1;
        }
        i = i + 1;
    }
    true
}

/// The row that holds `key`, if any.
pub fn find_row<V>(rows: &Vec<(Identity, V)>, key: Identity) -> (r: Option<usize>)
    ensures
        match r {
            Some(i) => i < rows@.len() && rows@[i as int].0 == key,
            None => !has_key(rows@, key),
        },
{
    let mut i: usize = 0;
    while i < rows.len()
        invariant
            i <= rows@.len(),
            forall|j: int| 0 <= j < i ==> #[trigger] rows@[j].0 != key,
        decreases rows@.len() - i,
    {
        if rows[i].0 == key {
            return Some(i);
        }
        i = i + 1;
    }
    None
}

} // verus!
