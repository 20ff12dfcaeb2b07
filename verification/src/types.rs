//! The records that the store keeps, and the requests it serves.

use vstd::prelude::*;
use vstd::std_specs::cmp::PartialEqSpecImpl;
use crate::timestamp::Timestamp;

verus! {

/// The natural key of a transaction. Two transactions with the same
/// timestamp, amount in cents, currency and payee are the same transaction.
#[derive(Debug, Hash)]
pub struct TransactionId {
    pub timestamp: Timestamp,
    /// The amount in minor units, so that amounts compare exactly.
    pub amount_cents: i64,
    pub currency: String,
    pub payee: String,
}

/// The mathematical content of a [`TransactionId`].
pub struct TransactionKey {
    pub timestamp: Timestamp,
    pub amount_cents: i64,
    pub currency: Seq<char>,
    pub payee: Seq<char>,
}

impl View for TransactionId {
    type V = TransactionKey;

    open spec fn view(&self) -> TransactionKey {
        TransactionKey {
            timestamp: self.timestamp,
            amount_cents: self.amount_cents,
            currency: self.currency@,
            payee: self.payee@,
        }
    }
}

impl Clone for TransactionId {
    fn clone(&self) -> (r: Self)
        ensures
            r == *self,
    {
        TransactionId {
            timestamp: self.timestamp,
            amount_cents: self.amount_cents,
            currency: self.currency.clone(),
            payee: self.payee.clone(),
        }
    }
}

impl PartialEq for TransactionId {
    fn eq(&self, other: &Self) -> (r: bool) {
        self.timestamp == other.timestamp && self.amount_cents == other.amount_cents
            && self.currency == other.currency && self.payee == other.payee
    }
}

impl Eq for TransactionId {

}

impl PartialEqSpecImpl for TransactionId {
    open spec fn obeys_eq_spec() -> bool {
        true
    }

    open spec fn eq_spec(&self, other: &Self) -> bool {
        self@ == other@
    }
}

/// The latest known state of a transaction within an account's live snapshot.
#[derive(Debug)]
pub struct CurrentTransaction {
    pub account_id: String,
    pub id: TransactionId,
}

/// The mathematical content of a [`CurrentTransaction`].
pub struct CurrentRecord {
    pub account_id: Seq<char>,
    pub id: TransactionKey,
}

impl View for CurrentTransaction {
    type V = CurrentRecord;

    open spec fn view(&self) -> CurrentRecord {
        CurrentRecord { account_id: self.account_id@, id: self.id@ }
    }
}

impl Clone for CurrentTransaction {
    fn clone(&self) -> (r: Self)
        ensures
            r == *self,
    {
        CurrentTransaction { account_id: self.account_id.clone(), id: self.id.clone() }
    }
}

impl PartialEq for CurrentTransaction {
    fn eq(&self, other: &Self) -> (r: bool) {
        self.account_id == other.account_id && self.id == other.id
    }
}

impl Eq for CurrentTransaction {

}

impl PartialEqSpecImpl for CurrentTransaction {
    open spec fn obeys_eq_spec() -> bool {
        true
    }

    open spec fn eq_spec(&self, other: &Self) -> bool {
        self@ == other@
    }
}

/// One line of an account's append-only history, with an optional memo.
#[derive(Debug)]
pub struct HistoricalTransaction {
    pub account_id: String,
    pub id: TransactionId,
    pub memo: Option<String>,
}

/// The mathematical content of a [`HistoricalTransaction`].
pub struct HistoricalRecord {
    pub account_id: Seq<char>,
    pub id: TransactionKey,
    pub memo: Option<Seq<char>>,
}

/// The content of an optional text.
pub open spec fn memo_view(memo: Option<String>) -> Option<Seq<char>> {
    match memo {
        Some(text) => Some(text@),
        None => None,
    }
}

impl View for HistoricalTransaction {
    type V = HistoricalRecord;

    open spec fn view(&self) -> HistoricalRecord {
        HistoricalRecord { account_id: self.account_id@, id: self.id@, memo: memo_view(self.memo) }
    }
}

impl Clone for HistoricalTransaction {
    fn clone(&self) -> (r: Self)
        ensures
            r == *self,
    {
        HistoricalTransaction {
            account_id: self.account_id.clone(),
            id: self.id.clone(),
            memo: match &self.memo {
                Some(text) => Some(text.clone()),
                None => None,
            },
        }
    }
}

impl PartialEq for HistoricalTransaction {
    fn eq(&self, other: &Self) -> (r: bool) {
        let same_memo = match &self.memo {
            Some(a) => match &other.memo {
                Some(b) => *a == *b,
                None => false,
            },
            None => other.memo.is_none(),
        };
        self.account_id == other.account_id && self.id == other.id && same_memo
    }
}

impl Eq for HistoricalTransaction {

}

impl PartialEqSpecImpl for HistoricalTransaction {
    open spec fn obeys_eq_spec() -> bool {
        true
    }

    open spec fn eq_spec(&self, other: &Self) -> bool {
        self@ == other@
    }
}

/// A transaction as it enters the store in a bulk import: its key, its entry
/// in the current snapshot and its line in the history.
pub type ImportedTransaction = (TransactionId, CurrentTransaction, HistoricalTransaction);

/// The mathematical content of an [`ImportedTransaction`].
pub type ImportedRecord = (TransactionKey, CurrentRecord, HistoricalRecord);

/// The entry of the current snapshot that stands for `id` in `account_id`.
pub open spec fn current_record(account_id: Seq<char>, id: TransactionKey) -> CurrentRecord {
    CurrentRecord { account_id, id }
}

/// The line of history that a fresh transaction gets: no memo yet.
pub open spec fn fresh_history(account_id: Seq<char>, id: TransactionKey) -> HistoricalRecord {
    HistoricalRecord { account_id, id, memo: None }
}

/// What a fresh transaction `id` of `account_id` brings into the store.
pub open spec fn fresh_record(account_id: Seq<char>, id: TransactionKey) -> ImportedRecord {
    (id, current_record(account_id, id), fresh_history(account_id, id))
}

/// The views of the elements of a sequence, in order.
pub open spec fn views<T: View>(items: Seq<T>) -> Seq<T::V> {
    items.map_values(|item: T| item@)
}

/// A request to record one transaction. The amount is given in cents.
#[derive(Debug)]
pub struct CreateTransactionRequest {
    pub account_id: String,
    pub timestamp: Timestamp,
    pub payee: String,
    pub amount_cents: i64,
    pub currency: String,
}

impl CreateTransactionRequest {
    /// The key of the transaction that the request describes.
    pub open spec fn key(&self) -> TransactionKey {
        TransactionKey {
            timestamp: self.timestamp,
            amount_cents: self.amount_cents,
            currency: self.currency@,
            payee: self.payee@,
        }
    }
}

/// One row of an import file, with its timestamp still as text and its
/// amount in cents.
#[derive(Debug)]
pub struct CsvTransaction {
    pub timestamp: String,
    pub payee: String,
    pub amount_cents: i64,
    pub currency: String,
}

/// The mathematical content of a [`CsvTransaction`].
pub struct CsvRecord {
    pub timestamp: Seq<char>,
    pub payee: Seq<char>,
    pub amount_cents: i64,
    pub currency: Seq<char>,
}

impl View for CsvTransaction {
    type V = CsvRecord;

    open spec fn view(&self) -> CsvRecord {
        CsvRecord {
            timestamp: self.timestamp@,
            payee: self.payee@,
            amount_cents: self.amount_cents,
            currency: self.currency@,
        }
    }
}

impl Clone for CsvTransaction {
    fn clone(&self) -> (r: Self)
        ensures
            r == *self,
    {
        CsvTransaction {
            timestamp: self.timestamp.clone(),
            payee: self.payee.clone(),
            amount_cents: self.amount_cents,
            currency: self.currency.clone(),
        }
    }
}

impl CsvRecord {
    /// The key of the row's transaction, once its timestamp has been read.
    pub open spec fn key_at(self, timestamp: Timestamp) -> TransactionKey {
        TransactionKey {
            timestamp,
            amount_cents: self.amount_cents,
            currency: self.currency,
            payee: self.payee,
        }
    }
}

/// A request to set or clear the memo of a line of history.
#[derive(Debug)]
pub struct UpdateMemoRequest {
    pub memo: Option<String>,
}

/// The outcome of a bulk import.
#[derive(Debug)]
pub struct BulkImportResponse {
    /// How many transactions were written to the current snapshot.
    pub imported: usize,
    /// Reserved; always zero.
    pub duplicates: usize,
    /// One message for each row that could not be read.
    pub errors: Vec<String>,
}

/// The mathematical content of a [`BulkImportResponse`].
pub struct ImportSummary {
    pub imported: nat,
    pub duplicates: nat,
    pub errors: Seq<Seq<char>>,
}

impl View for BulkImportResponse {
    type V = ImportSummary;

    open spec fn view(&self) -> ImportSummary {
        ImportSummary {
            imported: self.imported as nat,
            duplicates: self.duplicates as nat,
            errors: views(self.errors@),
        }
    }
}

/// The content of an answer that is a value or an error.
pub open spec fn result_view<T: View, E: View>(r: Result<T, E>) -> Result<T::V, E::V> {
    match r {
        Ok(value) => Ok(value@),
        Err(e) => Err(e@),
    }
}

} // verus!
