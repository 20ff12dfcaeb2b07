//! How the store keeps its two maps: as vectors of pairs, searched by key.

use vstd::prelude::*;
use crate::assoc::{
    as_map,
    distinct_keys,
    lemma_as_map_at,
    lemma_as_map_lacks,
    lemma_as_map_push,
    lemma_as_map_update,
    lemma_distinct_keys_push,
};
use crate::state::{Bucket, has_match, histories, is_first_match};
use crate::types::{
    CurrentTransaction,
    HistoricalRecord,
    HistoricalTransaction,
    TransactionId,
    views,
};

verus! {

/// The entries of one account's live snapshot, each under its key.
pub type Entries = Vec<(TransactionId, CurrentTransaction)>;

/// The lines of one account's history, in the order in which they came.
pub type Lines = Vec<HistoricalTransaction>;

/// The live snapshots as they are kept: for each account its entries.
pub type CurrentTransactions = Vec<(String, Entries)>;

/// The histories as they are kept: for each account its lines.
pub type AllTransactions = Vec<(String, Lines)>;

/// What the kept snapshots say, account by account.
pub open spec fn current_pairs(
    buckets: Seq<(String, Entries)>,
) -> Seq<(Seq<char>, Bucket)> {
    buckets.map_values(
        |b: (String, Entries)| (b.0@, as_map(views(b.1@))),
    )
}

/// The live snapshots of all accounts as a map.
pub open spec fn current_map(
    buckets: Seq<(String, Entries)>,
) -> Map<Seq<char>, Bucket> {
    as_map(current_pairs(buckets))
}

/// What the kept histories say, account by account.
pub open spec fn history_pairs(buckets: Seq<(String, Lines)>) -> Seq<
    (Seq<char>, Seq<HistoricalRecord>),
> {
    buckets.map_values(|b: (String, Lines)| (b.0@, views(b.1@)))
}

/// The histories of all accounts as a map.
pub open spec fn history_map(buckets: Seq<(String, Lines)>) -> Map<
    Seq<char>,
    Seq<HistoricalRecord>,
> {
    as_map(history_pairs(buckets))
}

/// No account has two buckets, and no bucket has two entries for one key.
pub open spec fn current_wf(buckets: Seq<(String, Entries)>) -> bool {
    &&& distinct_keys(current_pairs(buckets))
    &&& forall|i: int| 0 <= i < buckets.len() ==> distinct_keys(views((#[trigger] buckets[i]).1@))
}

/// No account has two histories.
pub open spec fn history_wf(buckets: Seq<(String, Lines)>) -> bool {
    distinct_keys(history_pairs(buckets))
}

/// The index of the pair kept for `account`, if there is one.
pub(crate) fn find_account<V>(buckets: &Vec<(String, V)>, account: &String) -> (r: Option<usize>)
    ensures
        match r {
            Some(i) => i < buckets.len() && buckets[i as int].0@ == account@,
            None => forall|j: int|
                0 <= j < buckets.len() ==> (#[trigger] buckets[j]).0@ != account@,
        },
{
    let mut i: usize = 0;
    while i < buckets.len()
        invariant
            i <= buckets.len(),
            forall|j: int| 0 <= j < i ==> (#[trigger] buckets[j]).0@ != account@,
        decreases buckets.len() - i,
    {
        if buckets[i].0 == *account {
            return Some(i);
        }
        i += 1;
    }
    None
}

/// The index of the entry kept under the key `id`, if there is one.
pub(crate) fn find_entry(entries: &Entries, id: &TransactionId) -> (r: Option<
    usize,
>)
    ensures
        match r {
            Some(i) => i < entries.len() && entries[i as int].0@ == id@,
            None => forall|j: int| 0 <= j < entries.len() ==> (#[trigger] entries[j]).0@ != id@,
        },
{
    let mut i: usize = 0;
    while i < entries.len()
        invariant
            i <= entries.len(),
            forall|j: int| 0 <= j < i ==> (#[trigger] entries[j]).0@ != id@,
        decreases entries.len() - i,
    {
        if entries[i].0 == *id {
            return Some(i);
        }
        i += 1;
    }
    None
}

/// The index of the first line about the transaction `id`, if there is one.
pub(crate) fn find_line(lines: &Lines, id: &TransactionId) -> (r: Option<usize>)
    ensures
        match r {
            Some(i) => is_first_match(views(lines@), id@, i as int),
            None => !has_match(views(lines@), id@),
        },
{
    let mut i: usize = 0;
    while i < lines.len()
        invariant
            i <= lines.len(),
            forall|j: int| 0 <= j < i ==> (#[trigger] views(lines@)[j]).id != id@,
        decreases lines.len() - i,
    {
        if lines[i].id == *id {
            return Some(i);
        }
        i += 1;
    }
    None
}

/// The bucket kept at index `i` is the snapshot of its account.
pub(crate) proof fn lemma_current_at(buckets: Seq<(String, Entries)>, i: int)
    requires
        current_wf(buckets),
        0 <= i < buckets.len(),
    ensures
        current_map(buckets).contains_key(buckets[i].0@),
        current_map(buckets)[buckets[i].0@] == as_map(views(buckets[i].1@)),
{
    lemma_as_map_at(current_pairs(buckets), i);
}

/// An account for which no bucket is kept has no snapshot.
pub(crate) proof fn lemma_current_lacks(
    buckets: Seq<(String, Entries)>,
    account: Seq<char>,
)
    requires
        forall|j: int| 0 <= j < buckets.len() ==> (#[trigger] buckets[j]).0@ != account,
    ensures
        !current_map(buckets).contains_key(account),
{
    let pairs = current_pairs(buckets);
    assert forall|j: int| 0 <= j < pairs.len() implies (#[trigger] pairs[j]).0 != account by {
        assert(buckets[j].0@ != account);
    }
    lemma_as_map_lacks(pairs, account);
}

/// Adding a bucket for a new account sets the snapshot of that account.
pub(crate) proof fn lemma_current_push(
    buckets: Seq<(String, Entries)>,
    bucket: (String, Entries),
)
    requires
        current_wf(buckets),
        distinct_keys(views(bucket.1@)),
        forall|j: int| 0 <= j < buckets.len() ==> (#[trigger] buckets[j]).0@ != bucket.0@,
    ensures
        current_wf(buckets.push(bucket)),
        current_map(buckets.push(bucket)) == current_map(buckets).insert(
            bucket.0@,
            as_map(views(bucket.1@)),
        ),
{
    let pairs = current_pairs(buckets);
    let pair = (bucket.0@, as_map(views(bucket.1@)));
    assert(current_pairs(buckets.push(bucket)) =~= pairs.push(pair));
    assert forall|j: int| 0 <= j < pairs.len() implies (#[trigger] pairs[j]).0 != pair.0 by {
        assert(buckets[j].0@ != bucket.0@);
    }
    lemma_distinct_keys_push(pairs, pair.0, pair.1);
    lemma_as_map_push(pairs, pair.0, pair.1);
}

/// Replacing the bucket of an account sets the snapshot of that account.
pub(crate) proof fn lemma_current_update(
    buckets: Seq<(String, Entries)>,
    i: int,
    bucket: (String, Entries),
)
    requires
        current_wf(buckets),
        0 <= i < buckets.len(),
        bucket.0@ == buckets[i].0@,
        distinct_keys(views(bucket.1@)),
    ensures
        current_wf(buckets.update(i, bucket)),
        current_map(buckets.update(i, bucket)) == current_map(buckets).insert(
            bucket.0@,
            as_map(views(bucket.1@)),
        ),
{
    let pairs = current_pairs(buckets);
    let value = as_map(views(bucket.1@));
    assert(current_pairs(buckets.update(i, bucket)) =~= pairs.update(i, (pairs[i].0, value)));
    lemma_as_map_update(pairs, i, value);
}

/// The lines kept at index `i` are the history of their account.
pub(crate) proof fn lemma_history_at(buckets: Seq<(String, Lines)>, i: int)
    requires
        history_wf(buckets),
        0 <= i < buckets.len(),
    ensures
        history_map(buckets).contains_key(buckets[i].0@),
        history_map(buckets)[buckets[i].0@] == views(buckets[i].1@),
{
    lemma_as_map_at(history_pairs(buckets), i);
}

/// An account for which no lines are kept has no history.
pub(crate) proof fn lemma_history_lacks(buckets: Seq<(String, Lines)>, account: Seq<char>)
    requires
        forall|j: int| 0 <= j < buckets.len() ==> (#[trigger] buckets[j]).0@ != account,
    ensures
        !history_map(buckets).contains_key(account),
{
    let pairs = history_pairs(buckets);
    assert forall|j: int| 0 <= j < pairs.len() implies (#[trigger] pairs[j]).0 != account by {
        assert(buckets[j].0@ != account);
    }
    lemma_as_map_lacks(pairs, account);
}

/// Adding lines for a new account sets the history of that account.
pub(crate) proof fn lemma_history_push(
    buckets: Seq<(String, Lines)>,
    bucket: (String, Lines),
)
    requires
        history_wf(buckets),
        forall|j: int| 0 <= j < buckets.len() ==> (#[trigger] buckets[j]).0@ != bucket.0@,
    ensures
        history_wf(buckets.push(bucket)),
        history_map(buckets.push(bucket)) == history_map(buckets).insert(
            bucket.0@,
            views(bucket.1@),
        ),
{
    let pairs = history_pairs(buckets);
    let pair = (bucket.0@, views(bucket.1@));
    assert(history_pairs(buckets.push(bucket)) =~= pairs.push(pair));
    assert forall|j: int| 0 <= j < pairs.len() implies (#[trigger] pairs[j]).0 != pair.0 by {
        assert(buckets[j].0@ != bucket.0@);
    }
    lemma_distinct_keys_push(pairs, pair.0, pair.1);
    lemma_as_map_push(pairs, pair.0, pair.1);
}

/// Replacing the lines of an account sets the history of that account.
pub(crate) proof fn lemma_history_update(
    buckets: Seq<(String, Lines)>,
    i: int,
    bucket: (String, Lines),
)
    requires
        history_wf(buckets),
        0 <= i < buckets.len(),
        bucket.0@ == buckets[i].0@,
    ensures
        history_wf(buckets.update(i, bucket)),
        history_map(buckets.update(i, bucket)) == history_map(buckets).insert(
            bucket.0@,
            views(bucket.1@),
        ),
{
    let pairs = history_pairs(buckets);
    let value = views(bucket.1@);
    assert(history_pairs(buckets.update(i, bucket)) =~= pairs.update(i, (pairs[i].0, value)));
    lemma_as_map_update(pairs, i, value);
}

} // verus!
