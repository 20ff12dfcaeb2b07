//! The live snapshots as they are kept, and the operations on them.

use vstd::prelude::*;
use crate::assoc::{
    as_map,
    distinct_keys,
    lemma_as_map_at,
    lemma_as_map_contains,
    lemma_as_map_lacks,
    lemma_as_map_push,
    lemma_as_map_update,
    lemma_distinct_keys_push,
};
use crate::repr::{
    CurrentTransactions,
    Entries,
    current_map,
    current_pairs,
    current_wf,
    find_account,
    find_entry,
    lemma_current_at,
    lemma_current_lacks,
    lemma_current_push,
    lemma_current_update,
};
use crate::state::{
    bucket_of,
    earliest,
    evicted,
    inserted,
    is_current_listing,
    latest,
    lists_current,
    without_range,
};
use crate::timestamp::Timestamp;
use crate::types::{
    CurrentRecord,
    CurrentTransaction,
    ImportedTransaction,
    TransactionId,
    TransactionKey,
    views,
};

verus! {

/// Writes an entry into a bucket, replacing the entry with the same key if
/// there is one.
pub(crate) fn upsert(
    entries: &mut Entries,
    id: TransactionId,
    entry: CurrentTransaction,
)
    requires
        distinct_keys(views(old(entries)@)),
    ensures
        distinct_keys(views(final(entries)@)),
        as_map(views(final(entries)@)) == as_map(views(old(entries)@)).insert(id@, entry@),
{
    let ghost before = views(entries@);
    let ghost key = id@;
    let ghost value = entry@;
    match find_entry(entries, &id) {
        Some(i) => {
            entries[i] = (id, entry);
            proof {
                assert(views(entries@) =~= before.update(i as int, (before[i as int].0, value)));
                lemma_as_map_update(before, i as int, value);
            }
        },
        None => {
            entries.push((id, entry));
            proof {
                assert(views(entries@) =~= before.push((key, value)));
                assert forall|j: int| 0 <= j < before.len() implies (#[trigger] before[j]).0
                    != key by {
                    assert(old(entries)[j].0@ != key);
                }
                lemma_distinct_keys_push(before, key, value);
                lemma_as_map_push(before, key, value);
            }
        },
    }
}

/// The earliest and the latest timestamp among the keys of a batch.
pub(crate) fn batch_span(records: &Vec<ImportedTransaction>) -> (span: (Timestamp, Timestamp))
    requires
        records.len() > 0,
    ensures
        span.0 == earliest(views(records@)),
        span.1 == latest(views(records@)),
{
    let ghost rs = views(records@);
    let mut first = records[0].0.timestamp;
    let mut last = first;
    let mut k: usize = 1;
    while k < records.len()
        invariant
            1 <= k <= records.len(),
            rs == views(records@),
            first == earliest(rs.take(k as int)),
            last == latest(rs.take(k as int)),
        decreases records.len() - k,
    {
        let t = records[k].0.timestamp;
        proof {
            assert(rs.take(k + 1).drop_last() =~= rs.take(k as int));
            assert(rs.take(k + 1).last() == rs[k as int]);
        }
        if t.is_before(first) {
            first = t;
        }
        if last.is_before(t) {
            last = t;
        }
        k += 1;
    }
    proof {
        assert(rs.take(records.len() as int) =~= rs);
    }
    (first, last)
}

/// The entries of a bucket whose timestamp lies outside `first` to `last`.
pub(crate) fn retained(
    entries: &Entries,
    first: Timestamp,
    last: Timestamp,
) -> (kept: Entries)
    requires
        distinct_keys(views(entries@)),
    ensures
        distinct_keys(views(kept@)),
        as_map(views(kept@)) == without_range(as_map(views(entries@)), first, last),
{
    let ghost all = views(entries@);
    let mut kept: Entries = Vec::new();
    let mut i: usize = 0;
    proof {
        assert(views(kept@) =~= Seq::empty());
        assert(as_map(views(kept@)) =~= without_range(as_map(all.take(0)), first, last));
    }
    while i < entries.len()
        invariant
            i <= entries.len(),
            all == views(entries@),
            distinct_keys(all),
            distinct_keys(views(kept@)),
            as_map(views(kept@)) == without_range(as_map(all.take(i as int)), first, last),
        decreases entries.len() - i,
    {
        let ghost head = all.take(i as int);
        let ghost done = views(kept@);
        let ghost key = all[i as int].0;
        let ghost value = all[i as int].1;
        proof {
            assert(all.take(i + 1) =~= head.push((key, value)));
            lemma_as_map_push(head, key, value);
        }
        if !entries[i].0.timestamp.is_within(first, last) {
            kept.push((entries[i].0.clone(), entries[i].1.clone()));
            proof {
                assert(views(kept@) =~= done.push((key, value)));
                assert forall|j: int| 0 <= j < done.len() implies (#[trigger] done[j]).0 != key by {
                    if done[j].0 == key {
                        lemma_as_map_contains(done, key);
                        lemma_as_map_contains(head, key);
                        let at = choose|at: int|
                            0 <= at < head.len() && (#[trigger] head[at]).0 == key;
                        assert(all[at].0 == all[i as int].0);
                    }
                }
                lemma_distinct_keys_push(done, key, value);
                lemma_as_map_push(done, key, value);
                assert(as_map(views(kept@)) =~= without_range(
                    as_map(all.take(i + 1)),
                    first,
                    last,
                ));
            }
        } else {
            proof {
                assert(as_map(views(kept@)) =~= without_range(
                    as_map(all.take(i + 1)),
                    first,
                    last,
                ));
            }
        }
        i += 1;
    }
    proof {
        assert(all.take(entries.len() as int) =~= all);
    }
    kept
}

/// Where each entry of a listing comes from: `origin[i]` is the place of
/// entry `i`, as the index of its bucket and its index within the bucket.
/// The entries listed are those before place `(b, e)`.
pub(crate) open spec fn listed_until(
    buckets: Seq<(String, Entries)>,
    listing: Seq<CurrentRecord>,
    origin: Seq<(int, int)>,
    b: int,
    e: int,
) -> bool {
    &&& origin.len() == listing.len()
    &&& origin.no_duplicates()
    &&& forall|i: int|
        0 <= i < origin.len() ==> {
            let o = #[trigger] origin[i];
            &&& 0 <= o.0 < buckets.len()
            &&& 0 <= o.1 < buckets[o.0].1.len()
            &&& (o.0 < b || (o.0 == b && o.1 < e))
            &&& listing[i] == buckets[o.0].1[o.1].1@
        }
    &&& forall|bb: int, ee: int|
        0 <= bb < buckets.len() && 0 <= ee < buckets[bb].1.len() && (bb < b || (bb == b && ee < e))
            ==> #[trigger] origin.contains((bb, ee))
}

/// Listing the entry at place `(b, e)` moves the listing on by one place.
pub(crate) proof fn lemma_listed_step(
    buckets: Seq<(String, Entries)>,
    listing: Seq<CurrentRecord>,
    origin: Seq<(int, int)>,
    b: int,
    e: int,
)
    requires
        listed_until(buckets, listing, origin, b, e),
        0 <= b < buckets.len(),
        0 <= e < buckets[b].1.len(),
    ensures
        listed_until(
            buckets,
            listing.push(buckets[b].1[e].1@),
            origin.push((b, e)),
            b,
            e + 1,
        ),
{
    let more = origin.push((b, e));
    assert forall|i: int, j: int|
        0 <= i < more.len() && 0 <= j < more.len() && i != j implies more[i] != more[j] by {
        if i < origin.len() && j < origin.len() {
            assert(origin[i] != origin[j]);
        } else if i < origin.len() {
            assert(origin[i] != (b, e));
        } else {
            assert(origin[j] != (b, e));
        }
    }
    assert forall|bb: int, ee: int|
        0 <= bb < buckets.len() && 0 <= ee < buckets[bb].1.len() && (bb < b || (bb == b && ee < e
            + 1)) implies #[trigger] more.contains((bb, ee)) by {
        if bb == b && ee == e {
            assert(more[origin.len() as int] == (bb, ee));
        } else {
            assert(origin.contains((bb, ee)));
            let i = choose|i: int| 0 <= i < origin.len() && origin[i] == (bb, ee);
            assert(more[i] == (bb, ee));
        }
    }
}

/// A listing that has passed every place lists the snapshots.
pub(crate) proof fn lemma_listed_all(
    buckets: Seq<(String, Entries)>,
    listing: Seq<CurrentRecord>,
    origin: Seq<(int, int)>,
)
    requires
        current_wf(buckets),
        listed_until(buckets, listing, origin, buckets.len() as int, 0),
    ensures
        lists_current(listing, current_map(buckets)),
{
    let current = current_map(buckets);
    let pairs = current_pairs(buckets);
    let slots = Seq::new(
        origin.len(),
        |i: int| (buckets[origin[i].0].0@, buckets[origin[i].0].1[origin[i].1].0@),
    );
    assert forall|i: int| 0 <= i < slots.len() implies {
        &&& current.contains_key((#[trigger] slots[i]).0)
        &&& current[slots[i].0].contains_key(slots[i].1)
        &&& listing[i] == current[slots[i].0][slots[i].1]
    } by {
        let o = origin[i];
        lemma_current_at(buckets, o.0);
        lemma_as_map_at(views(buckets[o.0].1@), o.1);
    }
    assert forall|i: int, j: int|
        0 <= i < slots.len() && 0 <= j < slots.len() && i != j implies slots[i] != slots[j] by {
        let oi = origin[i];
        let oj = origin[j];
        assert(oi != oj);
        if oi.0 != oj.0 {
            if oi.0 < oj.0 {
                assert(pairs[oi.0].0 != pairs[oj.0].0);
            } else {
                assert(pairs[oj.0].0 != pairs[oi.0].0);
            }
        } else {
            let entries = views(buckets[oi.0].1@);
            if oi.1 < oj.1 {
                assert(entries[oi.1].0 != entries[oj.1].0);
            } else {
                assert(entries[oj.1].0 != entries[oi.1].0);
            }
        }
    }
    assert forall|account: Seq<char>, key: TransactionKey|
        current.contains_key(account) && #[trigger] current[account].contains_key(
            key,
        ) implies slots.contains((account, key)) by {
        lemma_as_map_contains(pairs, account);
        let bb = choose|bb: int| 0 <= bb < pairs.len() && (#[trigger] pairs[bb]).0 == account;
        lemma_current_at(buckets, bb);
        let entries = views(buckets[bb].1@);
        lemma_as_map_contains(entries, key);
        let ee = choose|ee: int| 0 <= ee < entries.len() && (#[trigger] entries[ee]).0 == key;
        assert(origin.contains((bb, ee)));
        let i = choose|i: int| 0 <= i < origin.len() && origin[i] == (bb, ee);
        assert(slots[i] == (account, key));
    }
    assert(is_current_listing(listing, slots, current));
}

/// A copy of the entries of a bucket.
pub(crate) fn copy_entries(entries: &Entries) -> (copy: Entries)
    ensures
        views(copy@) == views(entries@),
{
    let mut copy: Entries = Vec::new();
    let mut i: usize = 0;
    while i < entries.len()
        invariant
            i <= entries.len(),
            views(copy@) == views(entries@).take(i as int),
        decreases entries.len() - i,
    {
        let ghost done = views(copy@);
        copy.push((entries[i].0.clone(), entries[i].1.clone()));
        proof {
            assert(views(copy@) =~= done.push(views(entries@)[i as int]));
            assert(views(entries@).take(i + 1) =~= done.push(views(entries@)[i as int]));
        }
        i += 1;
    }
    proof {
        assert(views(entries@).take(entries.len() as int) =~= views(entries@));
    }
    copy
}

/// The entries of a bucket without repeated keys: of the entries with one
/// key, the last stays.
pub(crate) fn unique_entries(entries: &Entries) -> (unique: Entries)
    ensures
        distinct_keys(views(unique@)),
        as_map(views(unique@)) == as_map(views(entries@)),
{
    let ghost all = views(entries@);
    let mut unique: Entries = Vec::new();
    let mut i: usize = 0;
    proof {
        assert(views(unique@) =~= Seq::empty());
        assert(all.take(0) =~= Seq::empty());
    }
    while i < entries.len()
        invariant
            i <= entries.len(),
            all == views(entries@),
            distinct_keys(views(unique@)),
            as_map(views(unique@)) == as_map(all.take(i as int)),
        decreases entries.len() - i,
    {
        proof {
            assert(all.take(i + 1).drop_last() =~= all.take(i as int));
        }
        upsert(&mut unique, entries[i].0.clone(), entries[i].1.clone());
        i += 1;
    }
    proof {
        assert(all.take(entries.len() as int) =~= all);
    }
    unique
}

/// Sets the bucket of an account, replacing the one it has if it has one.
pub(crate) fn put_bucket(
    buckets: &mut CurrentTransactions,
    account: String,
    entries: Entries,
)
    requires
        current_wf(old(buckets)@),
        distinct_keys(views(entries@)),
    ensures
        current_wf(final(buckets)@),
        current_map(final(buckets)@) == current_map(old(buckets)@).insert(
            account@,
            as_map(views(entries@)),
        ),
{
    let ghost before = buckets@;
    match find_account(buckets, &account) {
        Some(i) => {
            buckets[i] = (account, entries);
            proof {
                assert(buckets@ =~= before.update(i as int, buckets@[i as int]));
                lemma_current_update(before, i as int, buckets@[i as int]);
            }
        },
        None => {
            buckets.push((account, entries));
            proof {
                lemma_current_push(before, buckets@[before.len() as int]);
            }
        },
    }
}

/// Whether the account's snapshot has an entry for the key.
pub(crate) fn has_entry(buckets: &CurrentTransactions, account: &String, id: &TransactionId) -> (r:
    bool)
    requires
        current_wf(buckets@),
    ensures
        r == bucket_of(current_map(buckets@), account@).contains_key(id@),
{
    match find_account(buckets, account) {
        Some(b) => {
            proof {
                lemma_current_at(buckets@, b as int);
            }
            match find_entry(&buckets[b].1, id) {
                Some(i) => {
                    proof {
                        lemma_as_map_at(views(buckets@[b as int].1@), i as int);
                    }
                    true
                },
                None => {
                    proof {
                        lemma_as_map_lacks(views(buckets@[b as int].1@), id@);
                    }
                    false
                },
            }
        },
        None => {
            proof {
                lemma_current_lacks(buckets@, account@);
            }
            false
        },
    }
}

/// The index of the account's bucket. An account without bucket gets an
/// empty one.
pub(crate) fn bucket_index(buckets: &mut CurrentTransactions, account: &String) -> (b: usize)
    requires
        current_wf(old(buckets)@),
    ensures
        current_wf(final(buckets)@),
        b < final(buckets)@.len(),
        final(buckets)@[b as int].0@ == account@,
        as_map(views(final(buckets)@[b as int].1@)) == bucket_of(
            current_map(old(buckets)@),
            account@,
        ),
        current_map(final(buckets)@) == current_map(old(buckets)@).insert(
            account@,
            bucket_of(current_map(old(buckets)@), account@),
        ),
{
    let ghost before = buckets@;
    match find_account(buckets, account) {
        Some(b) => {
            proof {
                lemma_current_at(before, b as int);
                assert(current_map(before) =~= current_map(before).insert(
                    account@,
                    bucket_of(current_map(before), account@),
                ));
            }
            b
        },
        None => {
            proof {
                lemma_current_lacks(before, account@);
            }
            let fresh: Entries = Vec::new();
            assert(views(fresh@) =~= Seq::empty());
            buckets.push((account.clone(), fresh));
            proof {
                lemma_current_push(before, buckets@[before.len() as int]);
                lemma_current_at(buckets@, before.len() as int);
            }
            buckets.len() - 1
        },
    }
}

/// Writes one entry into the account's snapshot.
pub(crate) fn add_entry(
    buckets: &mut CurrentTransactions,
    account: &String,
    id: TransactionId,
    entry: CurrentTransaction,
)
    requires
        current_wf(old(buckets)@),
    ensures
        current_wf(final(buckets)@),
        current_map(final(buckets)@) == current_map(old(buckets)@).insert(
            account@,
            bucket_of(current_map(old(buckets)@), account@).insert(id@, entry@),
        ),
{
    let b = bucket_index(buckets, account);
    let ghost opened = buckets@;
    upsert(&mut buckets[b].1, id, entry);
    proof {
        assert(buckets@ =~= opened.update(b as int, buckets@[b as int]));
        lemma_current_update(opened, b as int, buckets@[b as int]);
        assert(current_map(buckets@) =~= current_map(old(buckets)@).insert(
            account@,
            bucket_of(current_map(old(buckets)@), account@).insert(id@, entry@),
        ));
    }
}

/// Replaces a span of the account's snapshot by a batch: drops the entries
/// whose timestamp falls into the batch's span, then writes the entries of
/// the batch in order.
pub(crate) fn import_entries(
    buckets: &mut CurrentTransactions,
    account: &String,
    records: &Vec<ImportedTransaction>,
)
    requires
        current_wf(old(buckets)@),
    ensures
        current_wf(final(buckets)@),
        current_map(final(buckets)@) == current_map(old(buckets)@).insert(
            account@,
            inserted(
                evicted(bucket_of(current_map(old(buckets)@), account@), views(records@)),
                views(records@),
            ),
        ),
{
    let ghost rs = views(records@);
    let ghost before = bucket_of(current_map(buckets@), account@);
    let n = records.len();
    let b = bucket_index(buckets, account);
    let ghost opened = buckets@;
    if n > 0 {
        let (first, last) = batch_span(records);
        let mut entries = retained(&buckets[b].1, first, last);
        let mut k: usize = 0;
        while k < n
            invariant
                k <= n,
                n == records.len(),
                rs == views(records@),
                distinct_keys(views(entries@)),
                as_map(views(entries@)) == inserted(evicted(before, rs), rs.take(k as int)),
            decreases n - k,
        {
            proof {
                assert(rs.take(k + 1).drop_last() =~= rs.take(k as int));
            }
            upsert(&mut entries, records[k].0.clone(), records[k].1.clone());
            k += 1;
        }
        proof {
            assert(rs.take(n as int) =~= rs);
        }
        buckets[b].1 = entries;
        proof {
            assert(buckets@ =~= opened.update(b as int, buckets@[b as int]));
            lemma_current_update(opened, b as int, buckets@[b as int]);
        }
    }
    proof {
        assert(current_map(buckets@) =~= current_map(old(buckets)@).insert(
            account@,
            inserted(evicted(before, rs), rs),
        ));
    }
}

/// Every entry of every snapshot, account after account.
pub(crate) fn list_current(buckets: &CurrentTransactions) -> (listing: Vec<CurrentTransaction>)
    requires
        current_wf(buckets@),
    ensures
        lists_current(views(listing@), current_map(buckets@)),
{
    let mut listing: Vec<CurrentTransaction> = Vec::new();
    let ghost mut origin: Seq<(int, int)> = Seq::empty();
    let mut b: usize = 0;
    proof {
        assert(views(listing@) =~= Seq::empty());
    }
    while b < buckets.len()
        invariant
            b <= buckets.len(),
            listed_until(buckets@, views(listing@), origin, b as int, 0),
        decreases buckets.len() - b,
    {
        let mut e: usize = 0;
        while e < buckets[b].1.len()
            invariant
                b < buckets.len(),
                e <= buckets@[b as int].1.len(),
                listed_until(buckets@, views(listing@), origin, b as int, e as int),
            decreases buckets@[b as int].1.len() - e,
        {
            let ghost done = views(listing@);
            listing.push(buckets[b].1[e].1.clone());
            proof {
                lemma_listed_step(buckets@, done, origin, b as int, e as int);
                origin = origin.push((b as int, e as int));
                assert(views(listing@) =~= done.push(buckets@[b as int].1[e as int].1@));
            }
            e += 1;
        }
        b += 1;
    }
    proof {
        lemma_listed_all(buckets@, views(listing@), origin);
    }
    listing
}

/// A copy of the snapshots.
pub(crate) fn copy_current(buckets: &CurrentTransactions) -> (copy: CurrentTransactions)
    requires
        current_wf(buckets@),
    ensures
        current_wf(copy@),
        current_map(copy@) == current_map(buckets@),
{
    let mut copy: CurrentTransactions = Vec::new();
    let mut b: usize = 0;
    proof {
        assert(current_pairs(copy@) =~= current_pairs(buckets@).take(0));
    }
    while b < buckets.len()
        invariant
            b <= buckets.len(),
            copy@.len() == b,
            current_pairs(copy@) == current_pairs(buckets@).take(b as int),
            forall|i: int| 0 <= i < b ==> views((#[trigger] copy@[i]).1@) == views(buckets@[i].1@),
        decreases buckets.len() - b,
    {
        let ghost done = current_pairs(copy@);
        let entries = copy_entries(&buckets[b].1);
        copy.push((buckets[b].0.clone(), entries));
        proof {
            assert(current_pairs(copy@) =~= done.push(current_pairs(buckets@)[b as int]));
            assert(current_pairs(buckets@).take(b + 1) =~= done.push(
                current_pairs(buckets@)[b as int],
            ));
        }
        b += 1;
    }
    proof {
        assert(current_pairs(buckets@).take(b as int) =~= current_pairs(buckets@));
    }
    copy
}

/// The snapshots that loaded data stands for, with one bucket for an account
/// and one entry for a key: of what occurs more than once, the last stays.
pub(crate) fn unique_current(loaded: &CurrentTransactions) -> (buckets: CurrentTransactions)
    ensures
        current_wf(buckets@),
        current_map(buckets@) == current_map(loaded@),
{
    let mut buckets: CurrentTransactions = Vec::new();
    let mut b: usize = 0;
    proof {
        assert(current_pairs(buckets@) =~= current_pairs(loaded@.take(0)));
    }
    while b < loaded.len()
        invariant
            b <= loaded.len(),
            current_wf(buckets@),
            current_map(buckets@) == current_map(loaded@.take(b as int)),
        decreases loaded.len() - b,
    {
        let entries = unique_entries(&loaded[b].1);
        put_bucket(&mut buckets, loaded[b].0.clone(), entries);
        proof {
            assert(current_pairs(loaded@.take(b + 1)).drop_last() =~= current_pairs(
                loaded@.take(b as int),
            ));
        }
        b += 1;
    }
    proof {
        assert(loaded@.take(b as int) =~= loaded@);
    }
    buckets
}

} // verus!
