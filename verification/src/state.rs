//! The state of the store as mathematics: two maps keyed by account, and what
//! each operation makes of them.

use vstd::prelude::*;
use crate::error::{ApiError, ApiErrorView, Status};
use crate::text::decimal;
use crate::timestamp::Timestamp;
use crate::types::{
    CurrentRecord,
    HistoricalRecord,
    ImportSummary,
    ImportedRecord,
    TransactionKey,
    current_record,
    fresh_history,
};

verus! {

/// An account's live snapshot: at most one entry for each transaction key.
pub type Bucket = Map<TransactionKey, CurrentRecord>;

/// The earliest timestamp among the keys of a batch that is not empty.
pub open spec fn earliest(records: Seq<ImportedRecord>) -> Timestamp
    decreases records.len(),
{
    if records.len() <= 1 {
        records[0].0.timestamp
    } else {
        let before = earliest(records.drop_last());
        let t = records.last().0.timestamp;
        if t.is_before(before) {
            t
        } else {
            before
        }
    }
}

/// The latest timestamp among the keys of a batch that is not empty.
pub open spec fn latest(records: Seq<ImportedRecord>) -> Timestamp
    decreases records.len(),
{
    if records.len() <= 1 {
        records[0].0.timestamp
    } else {
        let before = latest(records.drop_last());
        let t = records.last().0.timestamp;
        if before.is_before(t) {
            t
        } else {
            before
        }
    }
}

/// Whether `t` falls into the span of time that a batch covers: from its
/// earliest to its latest timestamp, both included. An empty batch covers
/// nothing.
pub open spec fn in_span(records: Seq<ImportedRecord>, t: Timestamp) -> bool {
    records.len() > 0 && t.is_within(earliest(records), latest(records))
}

/// The bucket without the entries whose timestamp lies within `first` and
/// `last`.
pub open spec fn without_range(bucket: Bucket, first: Timestamp, last: Timestamp) -> Bucket {
    bucket.remove_keys(Set::new(|k: TransactionKey| k.timestamp.is_within(first, last)))
}

/// The bucket without the entries that a batch supersedes: all those whose
/// timestamp falls into the batch's span, whatever their key.
pub open spec fn evicted(bucket: Bucket, records: Seq<ImportedRecord>) -> Bucket {
    if records.len() > 0 {
        without_range(bucket, earliest(records), latest(records))
    } else {
        bucket
    }
}

/// The bucket after the entries of a batch were written to it in order, a
/// later entry replacing an earlier one with the same key.
pub open spec fn inserted(bucket: Bucket, records: Seq<ImportedRecord>) -> Bucket
    decreases records.len(),
{
    if records.len() == 0 {
        bucket
    } else {
        inserted(bucket, records.drop_last()).insert(records.last().0, records.last().1)
    }
}

/// The lines of history that a batch brings, in order.
pub open spec fn histories(records: Seq<ImportedRecord>) -> Seq<HistoricalRecord> {
    records.map_values(|r: ImportedRecord| r.2)
}

/// Some transaction of the batch has the key `key`.
pub open spec fn brings(records: Seq<ImportedRecord>, key: TransactionKey) -> bool {
    exists|i: int| 0 <= i < records.len() && (#[trigger] records[i]).0 == key
}

/// The batch is one of `account`: each of its transactions comes with the
/// live entry of its own key in this account, and with a line of history
/// about this key in this account.
pub open spec fn batch_of(records: Seq<ImportedRecord>, account: Seq<char>) -> bool {
    forall|i: int|
        0 <= i < records.len() ==> {
            let r = #[trigger] records[i];
            &&& r.1 == current_record(account, r.0)
            &&& r.2.account_id == account
            &&& r.2.id == r.0
        }
}

/// Some line of `history` is about the transaction `key`.
pub open spec fn has_match(history: Seq<HistoricalRecord>, key: TransactionKey) -> bool {
    exists|i: int| 0 <= i < history.len() && (#[trigger] history[i]).id == key
}

/// Line `i` is the first line of `history` about the transaction `key`.
pub open spec fn is_first_match(
    history: Seq<HistoricalRecord>,
    key: TransactionKey,
    i: int,
) -> bool {
    &&& 0 <= i < history.len()
    &&& history[i].id == key
    &&& forall|j: int| 0 <= j < i ==> (#[trigger] history[j]).id != key
}

/// The index of the first line of `history` about the transaction `key`.
pub open spec fn first_match(history: Seq<HistoricalRecord>, key: TransactionKey) -> int {
    choose|i: int| is_first_match(history, key, i)
}

/// A line of history with its memo replaced.
pub open spec fn with_memo(line: HistoricalRecord, memo: Option<Seq<char>>) -> HistoricalRecord {
    HistoricalRecord { account_id: line.account_id, id: line.id, memo }
}

/// The live snapshot of an account; empty for an unknown account.
pub open spec fn bucket_of(current: Map<Seq<char>, Bucket>, account: Seq<char>) -> Bucket {
    if current.contains_key(account) {
        current[account]
    } else {
        Map::empty()
    }
}

/// The history of an account; empty for an unknown account.
pub open spec fn history_of(
    all: Map<Seq<char>, Seq<HistoricalRecord>>,
    account: Seq<char>,
) -> Seq<HistoricalRecord> {
    if all.contains_key(account) {
        all[account]
    } else {
        Seq::empty()
    }
}

/// The error that answers a transaction which is already in the snapshot.
pub open spec fn already_exists() -> ApiErrorView {
    ApiError::spec_new("Transaction already exists"@, Status::Conflict)
}

/// The error that answers an import of nothing.
pub open spec fn nothing_to_import() -> ApiErrorView {
    ApiError::spec_new("No valid transactions to import"@, Status::BadRequest)
}

/// The error that answers a file of which no row could be read, `errors`
/// being the number of rows that were refused.
pub open spec fn nothing_read(errors: nat) -> ApiErrorView {
    ApiError::spec_new(
        "CSV parsing failed with "@ + decimal(errors) + " errors"@,
        Status::BadRequest,
    )
}

/// The error that answers a memo for an account without history.
pub open spec fn account_not_found() -> ApiErrorView {
    ApiError::spec_new("Account not found"@, Status::NotFound)
}

/// The error that answers a memo for a transaction that the account's
/// history does not hold.
pub open spec fn transaction_not_found() -> ApiErrorView {
    ApiError::spec_new("Transaction not found"@, Status::NotFound)
}

/// The answer to an import that went through.
pub open spec fn import_summary(
    records: Seq<ImportedRecord>,
    errors: Seq<Seq<char>>,
) -> ImportSummary {
    ImportSummary { imported: records.len(), duplicates: 0, errors }
}

/// The content of a store: for each account its live snapshot and its history.
#[verifier::ext_equal]
pub struct StoreView {
    pub current: Map<Seq<char>, Bucket>,
    pub all: Map<Seq<char>, Seq<HistoricalRecord>>,
}

impl StoreView {
    /// The store that holds nothing.
    pub open spec fn empty() -> StoreView {
        StoreView { current: Map::empty(), all: Map::empty() }
    }

    /// The live snapshot of an account; empty for an unknown account.
    pub open spec fn bucket(self, account: Seq<char>) -> Bucket {
        bucket_of(self.current, account)
    }

    /// The history of an account; empty for an unknown account.
    pub open spec fn history(self, account: Seq<char>) -> Seq<HistoricalRecord> {
        history_of(self.all, account)
    }

    /// Whether the live snapshot of `account` has an entry for `key`.
    pub open spec fn has_current(self, account: Seq<char>, key: TransactionKey) -> bool {
        self.bucket(account).contains_key(key)
    }

    /// The store after the transaction `key` was recorded for `account`: one
    /// more entry in the live snapshot and one more line, without memo, at
    /// the end of the history.
    pub open spec fn created(self, account: Seq<char>, key: TransactionKey) -> StoreView {
        StoreView {
            current: self.current.insert(
                account,
                self.bucket(account).insert(key, current_record(account, key)),
            ),
            all: self.all.insert(account, self.history(account).push(fresh_history(account, key))),
        }
    }

    /// The store after a batch was imported into `account`: the live entries
    /// in the batch's span are gone, the batch's entries are written, and its
    /// lines are added to the end of the history.
    pub open spec fn imported(self, account: Seq<char>, records: Seq<ImportedRecord>) -> StoreView {
        StoreView {
            current: self.current.insert(
                account,
                inserted(evicted(self.bucket(account), records), records),
            ),
            all: self.all.insert(account, self.history(account) + histories(records)),
        }
    }

    /// Recording one transaction: what becomes of the store, and what is
    /// answered. A transaction that the account's live snapshot already has
    /// is refused as a conflict and changes nothing.
    pub open spec fn create(self, account: Seq<char>, key: TransactionKey) -> (
        StoreView,
        Result<CurrentRecord, ApiErrorView>,
    ) {
        if self.has_current(account, key) {
            (self, Err(already_exists()))
        } else {
            (self.created(account, key), Ok(current_record(account, key)))
        }
    }

    /// Importing a batch that was read already: what becomes of the store,
    /// and what is answered. An empty batch is refused as a bad request and
    /// changes nothing.
    pub open spec fn import_batch(self, account: Seq<char>, records: Seq<ImportedRecord>) -> (
        StoreView,
        Result<ImportSummary, ApiErrorView>,
    ) {
        if records.len() == 0 {
            (self, Err(nothing_to_import()))
        } else {
            (self.imported(account, records), Ok(import_summary(records, Seq::empty())))
        }
    }

    /// Importing what was read of a file, `records` being the transactions of
    /// the rows that could be read and `errors` the messages about the
    /// others: what becomes of the store, and what is answered. If no row
    /// could be read and at least one was refused, the import is refused as
    /// a bad request and changes nothing.
    pub open spec fn import_read(
        self,
        account: Seq<char>,
        records: Seq<ImportedRecord>,
        errors: Seq<Seq<char>>,
    ) -> (StoreView, Result<ImportSummary, ApiErrorView>) {
        if records.len() == 0 && errors.len() > 0 {
            (self, Err(nothing_read(errors.len())))
        } else {
            (self.imported(account, records), Ok(import_summary(records, errors)))
        }
    }

    /// Whether a memo can be set for `key` in `account`: the account has a
    /// history and one of its lines is about `key`.
    pub open spec fn has_history(self, account: Seq<char>, key: TransactionKey) -> bool {
        self.all.contains_key(account) && has_match(self.all[account], key)
    }

    /// The store after the memo of the first line about `key` in the history
    /// of `account` was replaced by `memo`.
    pub open spec fn annotated(
        self,
        account: Seq<char>,
        key: TransactionKey,
        memo: Option<Seq<char>>,
    ) -> StoreView {
        let history = self.history(account);
        let at = first_match(history, key);
        StoreView {
            current: self.current,
            all: self.all.insert(account, history.update(at, with_memo(history[at], memo))),
        }
    }

    /// Setting a memo: what becomes of the store, and what is answered. An
    /// account without history, and a transaction that the account's history
    /// does not hold, are both refused as not found and change nothing.
    pub open spec fn update_memo(
        self,
        account: Seq<char>,
        key: TransactionKey,
        memo: Option<Seq<char>>,
    ) -> (StoreView, Result<(), ApiErrorView>) {
        if !self.all.contains_key(account) {
            (self, Err(account_not_found()))
        } else if !has_match(self.all[account], key) {
            (self, Err(transaction_not_found()))
        } else {
            (self.annotated(account, key, memo), Ok(()))
        }
    }

    /// The two views of the store agree with each other: every live entry is
    /// filed under its own account and key, every line of history is filed
    /// under its own account, and every transaction that is live in an
    /// account has a line in that account's history. A line of history needs
    /// no live entry.
    pub open spec fn coherent(self) -> bool {
        &&& forall|account: Seq<char>, key: TransactionKey|
            self.current.contains_key(account) && #[trigger] self.current[account].contains_key(key)
                ==> self.current[account][key] == current_record(account, key) && has_match(
                self.history(account),
                key,
            )
        &&& forall|account: Seq<char>, i: int|
            self.all.contains_key(account) && 0 <= i < self.all[account].len() ==> (
            #[trigger] self.all[account][i]).account_id == account
    }
}

/// `listing` holds the entries of the live snapshots, each of them once:
/// entry `i` is the one that account `slots[i].0` has for the key
/// `slots[i].1`, and every pair of an account and one of its keys is the
/// slot of one entry.
pub open spec fn is_current_listing(
    listing: Seq<CurrentRecord>,
    slots: Seq<(Seq<char>, TransactionKey)>,
    current: Map<Seq<char>, Bucket>,
) -> bool {
    &&& slots.len() == listing.len()
    &&& slots.no_duplicates()
    &&& forall|i: int|
        0 <= i < slots.len() ==> {
            &&& current.contains_key((#[trigger] slots[i]).0)
            &&& current[slots[i].0].contains_key(slots[i].1)
            &&& listing[i] == current[slots[i].0][slots[i].1]
        }
    &&& forall|account: Seq<char>, key: TransactionKey|
        current.contains_key(account) && #[trigger] current[account].contains_key(key)
            ==> slots.contains((account, key))
}

/// `listing` holds every entry of every live snapshot once, in some order.
pub open spec fn lists_current(
    listing: Seq<CurrentRecord>,
    current: Map<Seq<char>, Bucket>,
) -> bool {
    exists|slots: Seq<(Seq<char>, TransactionKey)>| is_current_listing(listing, slots, current)
}

/// The histories of the given accounts, one after the other.
pub open spec fn joined(
    accounts: Seq<Seq<char>>,
    all: Map<Seq<char>, Seq<HistoricalRecord>>,
) -> Seq<HistoricalRecord>
    decreases accounts.len(),
{
    if accounts.len() == 0 {
        Seq::empty()
    } else {
        joined(accounts.drop_last(), all) + all[accounts.last()]
    }
}

/// `listing` is the histories of all accounts, one after the other, the
/// accounts taken in the order of `accounts`.
pub open spec fn is_history_listing(
    listing: Seq<HistoricalRecord>,
    accounts: Seq<Seq<char>>,
    all: Map<Seq<char>, Seq<HistoricalRecord>>,
) -> bool {
    &&& accounts.no_duplicates()
    &&& forall|account: Seq<char>| all.contains_key(account) <==> accounts.contains(account)
    &&& listing == joined(accounts, all)
}

/// `listing` is the histories of all accounts, each in its own order, one
/// account after the other in some order.
pub open spec fn lists_history(
    listing: Seq<HistoricalRecord>,
    all: Map<Seq<char>, Seq<HistoricalRecord>>,
) -> bool {
    exists|accounts: Seq<Seq<char>>| is_history_listing(listing, accounts, all)
}

} // verus!
