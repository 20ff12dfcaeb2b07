//! What holds of the store across its operations.

use vstd::prelude::*;
use crate::error::{ApiErrorView, Status};
use crate::import::{failures, row_outcomes, successes};
use crate::repr::{Entries, Lines, current_map, history_map};
use crate::state::{
    Bucket,
    StoreView,
    account_not_found,
    already_exists,
    batch_of,
    brings,
    evicted,
    first_match,
    has_match,
    histories,
    in_span,
    inserted,
    is_current_listing,
    is_first_match,
    is_history_listing,
    joined,
    lists_current,
    lists_history,
    nothing_read,
    transaction_not_found,
    with_memo,
};
use crate::types::{
    CsvRecord,
    CurrentRecord,
    HistoricalRecord,
    ImportedRecord,
    TransactionKey,
    current_record,
    fresh_history,
    fresh_record,
};

verus! {

/// Exactly one element of `items` satisfies `wanted`.
pub open spec fn occurs_once<A>(items: Seq<A>, wanted: spec_fn(A) -> bool) -> bool {
    exists|i: int|
        0 <= i < items.len() && wanted(#[trigger] items[i]) && forall|j: int|
            0 <= j < items.len() && wanted(#[trigger] items[j]) ==> j == i
}

/// A transaction that was recorded cannot be recorded again: a second
/// attempt with the same account, timestamp, amount in cents, currency and
/// payee is refused as a conflict and leaves the store as it is.
pub proof fn lemma_second_create_conflicts(
    store: StoreView,
    account: Seq<char>,
    key: TransactionKey,
)
    ensures
        store.create(account, key).0.create(account, key) == (
            store.create(account, key).0,
            Err::<CurrentRecord, ApiErrorView>(already_exists()),
        ),
        already_exists().status == Status::Conflict,
{
}

/// No live entry of the store, in any account and under any key, is the
/// entry that stands for `key` in `account`.
pub open spec fn no_entry_like(store: StoreView, account: Seq<char>, key: TransactionKey) -> bool {
    forall|a: Seq<char>, k: TransactionKey|
        store.current.contains_key(a) && #[trigger] store.current[a].contains_key(k)
            ==> store.current[a][k] != current_record(account, key)
}

/// No line of the store, in the history of any account, is about `key` in
/// `account`.
pub open spec fn no_line_about(store: StoreView, account: Seq<char>, key: TransactionKey) -> bool {
    forall|a: Seq<char>, i: int|
        store.all.contains_key(a) && 0 <= i < store.all[a].len() ==> !((
        #[trigger] store.all[a][i]).account_id == account && store.all[a][i].id == key)
}

/// In a coherent store, a transaction that is not live has no entry
/// anywhere, and a transaction without a line in its account's history has
/// no line anywhere.
pub proof fn lemma_coherent_store_has_no_strays(
    store: StoreView,
    account: Seq<char>,
    key: TransactionKey,
)
    requires
        store.coherent(),
    ensures
        !store.has_current(account, key) ==> no_entry_like(store, account, key),
        !has_match(store.history(account), key) ==> no_line_about(store, account, key),
{
    if !has_match(store.history(account), key) {
        assert forall|a: Seq<char>, i: int|
            store.all.contains_key(a) && 0 <= i < store.all[a].len() implies !((
        #[trigger] store.all[a][i]).account_id == account && store.all[a][i].id == key) by {
            if store.all[a][i].account_id == account && store.all[a][i].id == key {
                assert(a == account);
                assert(store.history(account)[i].id == key);
            }
        }
    }
}

/// After a transaction was recorded, a listing of the live snapshots holds
/// its entry exactly once, provided that no entry of the store was like it
/// before.
pub proof fn lemma_created_is_listed_once(
    store: StoreView,
    account: Seq<char>,
    key: TransactionKey,
    listing: Seq<CurrentRecord>,
)
    requires
        store.create(account, key).1 is Ok,
        no_entry_like(store, account, key),
        lists_current(listing, store.create(account, key).0.current),
    ensures
        occurs_once(listing, |entry: CurrentRecord| entry == current_record(account, key)),
{
    let after = store.create(account, key).0;
    let slots = choose|slots: Seq<(Seq<char>, TransactionKey)>|
        is_current_listing(listing, slots, after.current);
    assert(after.current[account].contains_key(key));
    assert(slots.contains((account, key)));
    let i = choose|i: int| 0 <= i < slots.len() && slots[i] == (account, key);
    let wanted = |entry: CurrentRecord| entry == current_record(account, key);
    assert(wanted(listing[i]));
    assert forall|j: int| 0 <= j < listing.len() && wanted(#[trigger] listing[j]) implies j
        == i by {
        let slot = slots[j];
        assert(after.current[slot.0].contains_key(slot.1));
        if slot != (account, key) {
            assert(store.current.contains_key(slot.0));
            assert(store.current[slot.0].contains_key(slot.1));
        }
    }
}

/// Where a line of a joined listing comes from: the position of its account
/// and its index in that account's history.
pub proof fn lemma_joined_origin(
    accounts: Seq<Seq<char>>,
    all: Map<Seq<char>, Seq<HistoricalRecord>>,
    i: int,
) -> (o: (int, int))
    requires
        0 <= i < joined(accounts, all).len(),
    ensures
        0 <= o.0 < accounts.len(),
        0 <= o.1 < all[accounts[o.0]].len(),
        joined(accounts, all)[i] == all[accounts[o.0]][o.1],
        i == joined(accounts.take(o.0), all).len() + o.1,
    decreases accounts.len(),
{
    let init = accounts.drop_last();
    if i < joined(init, all).len() {
        let o = lemma_joined_origin(init, all, i);
        assert(init.take(o.0) =~= accounts.take(o.0));
        o
    } else {
        assert(accounts.take(accounts.len() - 1) =~= init);
        (accounts.len() - 1, i - joined(init, all).len())
    }
}

/// Where a line of an account's history stands in a joined listing.
pub proof fn lemma_joined_at(
    accounts: Seq<Seq<char>>,
    all: Map<Seq<char>, Seq<HistoricalRecord>>,
    p: int,
    j: int,
)
    requires
        0 <= p < accounts.len(),
        0 <= j < all[accounts[p]].len(),
    ensures
        joined(accounts.take(p), all).len() + j < joined(accounts, all).len(),
        joined(accounts, all)[joined(accounts.take(p), all).len() + j] == all[accounts[p]][j],
    decreases accounts.len(),
{
    let init = accounts.drop_last();
    if p == accounts.len() - 1 {
        assert(accounts.take(p) =~= init);
    } else {
        lemma_joined_at(init, all, p, j);
        assert(init.take(p) =~= accounts.take(p));
    }
}

/// After a transaction was recorded, a listing of the histories holds
/// exactly one line about the transaction in its account, and that line has
/// no memo, provided that no line of the store was about it before.
pub proof fn lemma_created_has_one_line(
    store: StoreView,
    account: Seq<char>,
    key: TransactionKey,
    listing: Seq<HistoricalRecord>,
)
    requires
        store.create(account, key).1 is Ok,
        no_line_about(store, account, key),
        lists_history(listing, store.create(account, key).0.all),
    ensures
        occurs_once(listing, |line: HistoricalRecord| line.account_id == account && line.id == key),
        forall|i: int|
            0 <= i < listing.len() && (#[trigger] listing[i]).account_id == account && listing[i].id
                == key ==> listing[i].memo is None,
{
    let after = store.create(account, key).0;
    let accounts = choose|accounts: Seq<Seq<char>>|
        is_history_listing(listing, accounts, after.all);
    let wanted = |line: HistoricalRecord| line.account_id == account && line.id == key;
    let before = store.history(account);
    assert(after.all.contains_key(account));
    assert(accounts.contains(account));
    let p = choose|p: int| 0 <= p < accounts.len() && accounts[p] == account;
    let j = before.len() as int;
    assert(after.all[account] == before.push(fresh_history(account, key)));
    lemma_joined_at(accounts, after.all, p, j);
    let i = joined(accounts.take(p), after.all).len() + j;
    assert(wanted(listing[i]));
    assert forall|n: int| 0 <= n < listing.len() && wanted(#[trigger] listing[n]) implies n == i
        && listing[n].memo is None by {
        let o = lemma_joined_origin(accounts, after.all, n);
        let a = accounts[o.0];
        assert(accounts.contains(a));
        assert(after.all.contains_key(a));
        if a != account {
            assert(store.all.contains_key(a));
            assert(store.all[a][o.1] == after.all[a][o.1]);
        } else {
            assert(o.0 == p);
            if o.1 < before.len() {
                assert(store.all.contains_key(account));
                assert(store.all[account][o.1] == before[o.1]);
            }
        }
    }
}

/// The batch brings `key` exactly if one of its parts does.
proof fn lemma_brings_step(records: Seq<ImportedRecord>, key: TransactionKey)
    requires
        records.len() > 0,
    ensures
        brings(records, key) <==> (records.last().0 == key || brings(records.drop_last(), key)),
{
    let init = records.drop_last();
    if brings(init, key) {
        let i = choose|i: int| 0 <= i < init.len() && (#[trigger] init[i]).0 == key;
        assert(records[i].0 == key);
    }
    if brings(records, key) && records.last().0 != key {
        let i = choose|i: int| 0 <= i < records.len() && (#[trigger] records[i]).0 == key;
        assert(init[i].0 == key);
    }
    if records.last().0 == key {
        assert(records[records.len() - 1].0 == key);
    }
}

/// What a bucket holds after a batch was written to it: the keys it had and
/// the keys of the batch; under a key of the batch the entry that the batch
/// brings for it, under any other key the entry that was there.
pub proof fn lemma_inserted(bucket: Bucket, records: Seq<ImportedRecord>, key: TransactionKey)
    ensures
        inserted(bucket, records).contains_key(key) <==> (bucket.contains_key(key) || brings(
            records,
            key,
        )),
        !brings(records, key) ==> inserted(bucket, records)[key] == bucket[key],
        brings(records, key) ==> exists|i: int|
            0 <= i < records.len() && (#[trigger] records[i]).0 == key && inserted(
                bucket,
                records,
            )[key] == records[i].1,
    decreases records.len(),
{
    if records.len() > 0 {
        let init = records.drop_last();
        lemma_inserted(bucket, init, key);
        lemma_brings_step(records, key);
        if records.last().0 == key {
            assert(records[records.len() - 1].0 == key);
        } else if brings(init, key) {
            let i = choose|i: int|
                0 <= i < init.len() && (#[trigger] init[i]).0 == key && inserted(bucket, init)[key]
                    == init[i].1;
            assert(records[i].0 == key && inserted(bucket, records)[key] == records[i].1);
        }
    }
}

/// The span of a batch covers the timestamp of each of its transactions.
pub proof fn lemma_span_covers_batch(records: Seq<ImportedRecord>, i: int)
    requires
        0 <= i < records.len(),
    ensures
        in_span(records, records[i].0.timestamp),
    decreases records.len(),
{
    if records.len() > 1 {
        let init = records.drop_last();
        if i < records.len() - 1 {
            lemma_span_covers_batch(init, i);
            assert(init[i] == records[i]);
        } else {
            lemma_span_covers_batch(init, 0);
        }
    }
}

/// What an import makes of the store. In the account of the import, a key
/// is live afterwards exactly if the batch brings it, or if it was live
/// before and its timestamp lies outside the batch's span; the history has
/// grown by the batch's lines and is otherwise as before. Every other
/// account is as before.
pub proof fn lemma_imported(
    store: StoreView,
    account: Seq<char>,
    records: Seq<ImportedRecord>,
    key: TransactionKey,
)
    ensures
        store.imported(account, records).has_current(account, key) <==> (brings(records, key) || (
        store.has_current(account, key) && !in_span(records, key.timestamp))),
        store.history(account).is_prefix_of(store.imported(account, records).history(account)),
        store.imported(account, records).history(account).len() == store.history(account).len()
            + records.len(),
        forall|other: Seq<char>|
            other != account ==> store.imported(account, records).bucket(other) == store.bucket(
                other,
            ) && store.imported(account, records).history(other) == store.history(other),
{
    lemma_inserted(evicted(store.bucket(account), records), records, key);
}

/// An import whose span covers a live entry of the account supersedes that
/// entry: afterwards the key is live only if the batch itself brings it, and
/// then with the batch's entry. The lines that the history held before are
/// all still there, in place.
pub proof fn lemma_import_supersedes_span(
    store: StoreView,
    account: Seq<char>,
    records: Seq<ImportedRecord>,
    key: TransactionKey,
)
    requires
        store.has_current(account, key),
        in_span(records, key.timestamp),
    ensures
        store.imported(account, records).has_current(account, key) <==> brings(records, key),
        store.history(account).is_prefix_of(store.imported(account, records).history(account)),
{
    lemma_imported(store, account, records, key);
}

/// Where every row of a file was refused, nothing was read.
pub proof fn lemma_all_refused(outcomes: Seq<Result<ImportedRecord, Seq<char>>>)
    requires
        forall|i: int| 0 <= i < outcomes.len() ==> (#[trigger] outcomes[i]) is Err,
    ensures
        successes(outcomes).len() == 0,
        failures(outcomes).len() == outcomes.len(),
    decreases outcomes.len(),
{
    if outcomes.len() > 0 {
        let init = outcomes.drop_last();
        assert forall|i: int| 0 <= i < init.len() implies (#[trigger] init[i]) is Err by {
            assert(outcomes[i] is Err);
        }
        lemma_all_refused(init);
        assert(outcomes[outcomes.len() - 1] is Err);
    }
}

/// An import of a file of which every row was refused is itself refused as
/// a bad request, and leaves the store as it is.
pub proof fn lemma_nothing_read_changes_nothing(
    store: StoreView,
    account: Seq<char>,
    outcomes: Seq<Result<ImportedRecord, Seq<char>>>,
)
    requires
        outcomes.len() > 0,
        forall|i: int| 0 <= i < outcomes.len() ==> (#[trigger] outcomes[i]) is Err,
    ensures
        store.import_read(account, successes(outcomes), failures(outcomes)) == (
            store,
            Err::<crate::types::ImportSummary, ApiErrorView>(nothing_read(outcomes.len())),
        ),
        nothing_read(outcomes.len()).status == Status::BadRequest,
{
    lemma_all_refused(outcomes);
}

/// What setting a memo does. An account without history and a transaction
/// without a line in the account's history are both answered with not
/// found, and nothing changes. Otherwise the first line about the
/// transaction gets the memo, in place of the memo it had; every other line,
/// every other account and the live snapshots stay as they are.
pub proof fn lemma_memo_touches_one_line(
    store: StoreView,
    account: Seq<char>,
    key: TransactionKey,
    memo: Option<Seq<char>>,
)
    ensures
        store.update_memo(account, key, memo).0.current == store.current,
        !store.all.contains_key(account) ==> store.update_memo(account, key, memo) == (
            store,
            Err::<(), ApiErrorView>(account_not_found()),
        ),
        store.all.contains_key(account) && !has_match(store.all[account], key)
            ==> store.update_memo(account, key, memo) == (
            store,
            Err::<(), ApiErrorView>(transaction_not_found()),
        ),
        account_not_found().status == Status::NotFound,
        transaction_not_found().status == Status::NotFound,
        store.has_history(account, key) ==> ({
            let after = store.update_memo(account, key, memo).0;
            let at = first_match(store.all[account], key);
            &&& store.update_memo(account, key, memo).1 is Ok
            &&& is_first_match(store.all[account], key, at)
            &&& after.all.dom() == store.all.dom()
            &&& forall|other: Seq<char>| other != account ==> after.all[other] == store.all[other]
            &&& after.all[account].len() == store.all[account].len()
            &&& forall|i: int|
                0 <= i < store.all[account].len() && i != at ==> after.all[account][i]
                    == store.all[account][i]
            &&& after.all[account][at] == with_memo(store.all[account][at], memo)
        }),
{
    if store.has_history(account, key) {
        let history = store.all[account];
        let i = choose|i: int| 0 <= i < history.len() && (#[trigger] history[i]).id == key;
        lemma_first_match(history, key, i);
        let after = store.update_memo(account, key, memo).0;
        assert(after.all.dom() =~= store.all.dom());
    }
}

/// A history with a line about `key` has a first such line.
pub proof fn lemma_first_match(history: Seq<HistoricalRecord>, key: TransactionKey, i: int)
    requires
        0 <= i < history.len(),
        history[i].id == key,
    ensures
        is_first_match(history, key, first_match(history, key)),
        first_match(history, key) <= i,
    decreases i,
{
    if exists|j: int| 0 <= j < i && (#[trigger] history[j]).id == key {
        let j = choose|j: int| 0 <= j < i && (#[trigger] history[j]).id == key;
        lemma_first_match(history, key, j);
    } else {
        assert(is_first_match(history, key, i));
        let at = first_match(history, key);
        assert(is_first_match(history, key, at));
        if at > i {
            assert(history[i].id != key);
        }
    }
}

/// Writing the store out and reading it back gives the same store: what is
/// restored from the two snapshots of a store has the live snapshots and the
/// histories of that store.
pub proof fn lemma_round_trip(
    store: StoreView,
    saved_current: Seq<(String, Entries)>,
    saved_all: Seq<(String, Lines)>,
    restored: StoreView,
)
    requires
        current_map(saved_current) == store.current,
        history_map(saved_all) == store.all,
        restored.current == current_map(saved_current),
        restored.all == history_map(saved_all),
    ensures
        restored == store,
{
}

/// Recording transactions in two different accounts does not depend on the
/// order: each is answered as it would be without the other, and the store
/// is the same at the end.
pub proof fn lemma_creates_in_two_accounts_commute(
    store: StoreView,
    first_account: Seq<char>,
    first_key: TransactionKey,
    second_account: Seq<char>,
    second_key: TransactionKey,
)
    requires
        first_account != second_account,
    ensures
        store.create(first_account, first_key).0.create(second_account, second_key).1
            == store.create(second_account, second_key).1,
        store.create(second_account, second_key).0.create(first_account, first_key).1
            == store.create(first_account, first_key).1,
        store.create(first_account, first_key).0.create(second_account, second_key).0
            == store.create(second_account, second_key).0.create(first_account, first_key).0,
{
    let one = store.create(first_account, first_key).0;
    let other = store.create(second_account, second_key).0;
    assert(one.bucket(second_account) == store.bucket(second_account));
    assert(other.bucket(first_account) == store.bucket(first_account));
    assert(one.history(second_account) == store.history(second_account));
    assert(other.history(first_account) == store.history(first_account));
    let left = one.create(second_account, second_key).0;
    let right = other.create(first_account, first_key).0;
    assert(left.current =~= right.current);
    assert(left.all =~= right.all);
}

/// The empty store is coherent.
pub proof fn lemma_empty_is_coherent()
    ensures
        StoreView::empty().coherent(),
{
}

/// Recording a transaction keeps the store coherent.
pub proof fn lemma_create_keeps_coherent(store: StoreView, account: Seq<char>, key: TransactionKey)
    requires
        store.coherent(),
    ensures
        store.create(account, key).0.coherent(),
{
    let after = store.create(account, key).0;
    if !store.has_current(account, key) {
        let before = store.history(account);
        let now = before.push(fresh_history(account, key));
        assert forall|a: Seq<char>, k: TransactionKey|
            after.current.contains_key(a) && #[trigger] after.current[a].contains_key(
                k,
            ) implies after.current[a][k] == current_record(a, k) && has_match(
            after.history(a),
            k,
        ) by {
            if a == account {
                if k == key {
                    assert(now[before.len() as int].id == key);
                } else {
                    assert(store.current[a].contains_key(k));
                    let i = choose|i: int| 0 <= i < before.len() && (#[trigger] before[i]).id == k;
                    assert(now[i].id == k);
                }
            } else {
                assert(store.current[a].contains_key(k));
            }
        }
        assert forall|a: Seq<char>, i: int|
            after.all.contains_key(a) && 0 <= i < after.all[a].len() implies (
        #[trigger] after.all[a][i]).account_id == a by {
            if a == account {
                if i < before.len() {
                    assert(store.all[a][i].account_id == a);
                }
            } else {
                assert(store.all[a][i].account_id == a);
            }
        }
    }
}

/// Importing a batch of an account into that account keeps the store
/// coherent.
pub proof fn lemma_import_keeps_coherent(
    store: StoreView,
    account: Seq<char>,
    records: Seq<ImportedRecord>,
)
    requires
        store.coherent(),
        batch_of(records, account),
    ensures
        store.imported(account, records).coherent(),
{
    let after = store.imported(account, records);
    let before = store.history(account);
    let now = before + histories(records);
    assert forall|a: Seq<char>, k: TransactionKey|
        after.current.contains_key(a) && #[trigger] after.current[a].contains_key(
            k,
        ) implies after.current[a][k] == current_record(a, k) && has_match(after.history(a), k) by {
        if a == account {
            lemma_inserted(evicted(store.bucket(account), records), records, k);
            if brings(records, k) {
                let i = choose|i: int|
                    0 <= i < records.len() && (#[trigger] records[i]).0 == k && inserted(
                        evicted(store.bucket(account), records),
                        records,
                    )[k] == records[i].1;
                assert(now[before.len() + i] == records[i].2);
                assert(now[before.len() + i].id == k);
            } else {
                assert(store.current[a].contains_key(k));
                let i = choose|i: int| 0 <= i < before.len() && (#[trigger] before[i]).id == k;
                assert(now[i].id == k);
            }
        } else {
            assert(store.current[a].contains_key(k));
        }
    }
    assert forall|a: Seq<char>, i: int|
        after.all.contains_key(a) && 0 <= i < after.all[a].len() implies (
    #[trigger] after.all[a][i]).account_id == a by {
        if a == account {
            if i < before.len() {
                assert(store.all[a][i].account_id == a);
            } else {
                assert(now[i] == records[i - before.len()].2);
            }
        } else {
            assert(store.all[a][i].account_id == a);
        }
    }
}

/// Setting a memo keeps the store coherent.
pub proof fn lemma_memo_keeps_coherent(
    store: StoreView,
    account: Seq<char>,
    key: TransactionKey,
    memo: Option<Seq<char>>,
)
    requires
        store.coherent(),
    ensures
        store.update_memo(account, key, memo).0.coherent(),
{
    let after = store.update_memo(account, key, memo).0;
    if store.has_history(account, key) {
        lemma_memo_touches_one_line(store, account, key, memo);
        let before = store.all[account];
        let now = after.all[account];
        let at = first_match(before, key);
        assert forall|a: Seq<char>, k: TransactionKey|
            after.current.contains_key(a) && #[trigger] after.current[a].contains_key(
                k,
            ) implies after.current[a][k] == current_record(a, k) && has_match(
            after.history(a),
            k,
        ) by {
            assert(store.current[a].contains_key(k));
            if a == account {
                let i = choose|i: int| 0 <= i < before.len() && (#[trigger] before[i]).id == k;
                assert(now[i].id == k);
            }
        }
        assert forall|a: Seq<char>, i: int|
            after.all.contains_key(a) && 0 <= i < after.all[a].len() implies (
        #[trigger] after.all[a][i]).account_id == a by {
            assert(store.all[a][i].account_id == a);
        }
    }
}

/// Every row of a file is either read or refused: the transactions and the
/// messages together are as many as the rows.
pub proof fn lemma_every_row_is_answered(outcomes: Seq<Result<ImportedRecord, Seq<char>>>)
    ensures
        successes(outcomes).len() + failures(outcomes).len() == outcomes.len(),
    decreases outcomes.len(),
{
    if outcomes.len() > 0 {
        lemma_every_row_is_answered(outcomes.drop_last());
    }
}

/// Outcomes whose transactions are all fresh transactions of `account` give
/// a batch of `account`.
proof fn lemma_fresh_batch(outcomes: Seq<Result<ImportedRecord, Seq<char>>>, account: Seq<char>)
    requires
        forall|i: int|
            0 <= i < outcomes.len() && (#[trigger] outcomes[i]) is Ok ==> outcomes[i]->Ok_0
                == fresh_record(account, outcomes[i]->Ok_0.0),
    ensures
        batch_of(successes(outcomes), account),
    decreases outcomes.len(),
{
    if outcomes.len() > 0 {
        let init = outcomes.drop_last();
        assert forall|i: int|
            0 <= i < init.len() && (#[trigger] init[i]) is Ok implies init[i]->Ok_0 == fresh_record(
            account,
            init[i]->Ok_0.0,
        ) by {
            assert(outcomes[i] is Ok);
        }
        lemma_fresh_batch(init, account);
        let last = outcomes[outcomes.len() - 1];
        assert(last == outcomes.last());
        if last is Ok {
            let batch = successes(outcomes);
            let before = successes(init);
            assert forall|i: int| 0 <= i < batch.len() implies {
                let r = #[trigger] batch[i];
                &&& r.1 == current_record(account, r.0)
                &&& r.2.account_id == account
                &&& r.2.id == r.0
            } by {
                if i < before.len() {
                    assert(batch[i] == before[i]);
                }
            }
        }
    }
}

/// What is read of a file for an account is a batch of that account, so
/// importing it keeps a coherent store coherent.
pub proof fn lemma_file_gives_batch_of_account(
    rows: Seq<Result<CsvRecord, Seq<char>>>,
    account: Seq<char>,
)
    ensures
        batch_of(successes(row_outcomes(rows, account)), account),
{
    lemma_fresh_batch(row_outcomes(rows, account), account);
}

/// The history is append-only. Recording a transaction and importing a batch
/// add lines at the end of one account's history and leave every line that
/// was there in its place; setting a memo changes neither how many lines a
/// history has nor which account and transaction any line is about.
pub proof fn lemma_history_is_append_only(
    store: StoreView,
    account: Seq<char>,
    key: TransactionKey,
    records: Seq<ImportedRecord>,
    memo: Option<Seq<char>>,
    any: Seq<char>,
)
    ensures
        store.history(any).is_prefix_of(store.create(account, key).0.history(any)),
        store.history(any).is_prefix_of(store.imported(account, records).history(any)),
        store.update_memo(account, key, memo).0.history(any).len() == store.history(any).len(),
        forall|i: int|
            0 <= i < store.history(any).len() ==> {
                let line = #[trigger] store.update_memo(account, key, memo).0.history(any)[i];
                line.account_id == store.history(any)[i].account_id && line.id == store.history(
                    any,
                )[i].id
            },
{
    if store.has_history(account, key) {
        lemma_memo_touches_one_line(store, account, key, memo);
    }
}

} // verus!
