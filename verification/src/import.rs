//! Reading the rows of an import file, and importing what could be read.

use vstd::prelude::*;
use crate::error::{ApiError, Status};
use crate::store::TransactionStore;
use crate::text::{append_decimal, decimal};
use crate::timestamp::{Timestamp, parse_utc, timestamp_reading};
use crate::types::{
    BulkImportResponse,
    CsvRecord,
    CsvTransaction,
    CurrentTransaction,
    HistoricalTransaction,
    ImportedRecord,
    ImportedTransaction,
    TransactionId,
    fresh_record,
    result_view,
    views,
};

verus! {

/// A row as the file's decoder hands it over: its fields, or the words with
/// which the decoder refused it.
pub type CsvRow = Result<CsvTransaction, String>;

/// What became of a row: the transaction it describes, or the message that
/// says why it could not be read.
pub type RowOutcome = Result<ImportedTransaction, String>;

/// The mathematical content of a [`CsvRow`].
pub open spec fn row_view(row: CsvRow) -> Result<CsvRecord, Seq<char>> {
    match row {
        Ok(fields) => Ok(fields@),
        Err(words) => Err(words@),
    }
}

/// The mathematical content of a [`RowOutcome`].
pub open spec fn outcome_view(outcome: RowOutcome) -> Result<ImportedRecord, Seq<char>> {
    match outcome {
        Ok(transaction) => Ok(transaction@),
        Err(message) => Err(message@),
    }
}

/// The mathematical content of a timestamp that was read, or not.
pub open spec fn reading_view(parsed: Result<Timestamp, String>) -> Result<Timestamp, Seq<char>> {
    match parsed {
        Ok(t) => Ok(t),
        Err(words) => Err(words@),
    }
}

/// What is said of a row whose timestamp could not be read.
pub open spec fn timestamp_error(words: Seq<char>) -> Seq<char> {
    "Invalid timestamp format - "@ + words
}

/// What is said of a row that the file's decoder refused.
pub open spec fn decoding_error(words: Seq<char>) -> Seq<char> {
    "CSV parsing error - "@ + words
}

/// The number under which the row at `index` is reported: rows are counted
/// from one, after the header line.
pub open spec fn row_number(index: int) -> nat {
    (index + 2) as nat
}

/// The message for the row at `index`, tagged with the row's number.
pub open spec fn row_error(index: int, detail: Seq<char>) -> Seq<char> {
    "Row "@ + decimal(row_number(index)) + ": "@ + detail
}

/// What becomes of a row once the reading of its timestamp is known: a fresh
/// transaction of the account under the key that the row gives, or the
/// message about the timestamp.
pub open spec fn assembled(
    parsed: Result<Timestamp, Seq<char>>,
    fields: CsvRecord,
    account: Seq<char>,
) -> Result<ImportedRecord, Seq<char>> {
    match parsed {
        Ok(t) => Ok(fresh_record(account, fields.key_at(t))),
        Err(words) => Err(timestamp_error(words)),
    }
}

/// What becomes of a row's fields.
pub open spec fn processed(fields: CsvRecord, account: Seq<char>) -> Result<
    ImportedRecord,
    Seq<char>,
> {
    assembled(timestamp_reading(fields.timestamp), fields, account)
}

/// What becomes of the row at `index`.
pub open spec fn row_outcome(
    index: int,
    row: Result<CsvRecord, Seq<char>>,
    account: Seq<char>,
) -> Result<ImportedRecord, Seq<char>> {
    match row {
        Err(words) => Err(row_error(index, decoding_error(words))),
        Ok(fields) => match processed(fields, account) {
            Ok(transaction) => Ok(transaction),
            Err(detail) => Err(row_error(index, detail)),
        },
    }
}

/// What becomes of each row of a file.
pub open spec fn row_outcomes(rows: Seq<Result<CsvRecord, Seq<char>>>, account: Seq<char>) -> Seq<
    Result<ImportedRecord, Seq<char>>,
> {
    Seq::new(rows.len(), |i: int| row_outcome(i, rows[i], account))
}

/// What becomes of each row of a file, as the decoder handed the rows over.
pub open spec fn file_outcomes(rows: Seq<CsvRow>, account: Seq<char>) -> Seq<
    Result<ImportedRecord, Seq<char>>,
> {
    row_outcomes(rows.map_values(|row: CsvRow| row_view(row)), account)
}

/// The transactions among the outcomes, in order.
pub open spec fn successes(outcomes: Seq<Result<ImportedRecord, Seq<char>>>) -> Seq<ImportedRecord>
    decreases outcomes.len(),
{
    if outcomes.len() == 0 {
        Seq::empty()
    } else {
        let before = successes(outcomes.drop_last());
        match outcomes.last() {
            Ok(transaction) => before.push(transaction),
            Err(_) => before,
        }
    }
}

/// The messages among the outcomes, in order.
pub open spec fn failures(outcomes: Seq<Result<ImportedRecord, Seq<char>>>) -> Seq<Seq<char>>
    decreases outcomes.len(),
{
    if outcomes.len() == 0 {
        Seq::empty()
    } else {
        let before = failures(outcomes.drop_last());
        match outcomes.last() {
            Ok(_) => before,
            Err(message) => before.push(message),
        }
    }
}

/// Builds the transaction of a row whose timestamp was read, or the message
/// for a row whose timestamp was refused.
pub fn assemble_transaction(
    parsed: Result<Timestamp, String>,
    csv_transaction: CsvTransaction,
    account_id: &str,
) -> (r: RowOutcome)
    ensures
        outcome_view(r) == assembled(reading_view(parsed), csv_transaction@, account_id@),
{
    match parsed {
        Ok(timestamp) => {
            let id = TransactionId {
                timestamp,
                amount_cents: csv_transaction.amount_cents,
                currency: csv_transaction.currency,
                payee: csv_transaction.payee,
            };
            let entry = CurrentTransaction { account_id: account_id.to_owned(), id: id.clone() };
            let line = HistoricalTransaction {
                account_id: account_id.to_owned(),
                id: id.clone(),
                memo: None,
            };
            Ok((id, entry, line))
        },
        Err(words) => {
            let mut message = "Invalid timestamp format - ".to_owned();
            message.append(words.as_str());
            Err(message)
        },
    }
}

/// Turns the fields of a row into a transaction of the account: reads the
/// timestamp, and fails with a message exactly if it cannot be read.
pub fn process_csv_transaction(csv_transaction: CsvTransaction, account_id: &str) -> (r: RowOutcome)
    ensures
        outcome_view(r) == processed(csv_transaction@, account_id@),
{
    let parsed = parse_utc(csv_transaction.timestamp.as_str());
    assemble_transaction(parsed, csv_transaction, account_id)
}

/// The message for the row at `index`, tagged with the row's number.
pub fn tag_row(index: usize, detail: &str) -> (message: String)
    ensures
        message@ == row_error(index as int, detail@),
{
    let mut message = "Row ".to_owned();
    append_decimal(&mut message, index as u128 + 2);
    message.append(": ");
    message.append(detail);
    message
}

/// Reads the row at `index`.
pub fn read_row(index: usize, row: &CsvRow, account_id: &str) -> (r: RowOutcome)
    ensures
        outcome_view(r) == row_outcome(index as int, row_view(*row), account_id@),
{
    match row {
        Err(words) => {
            let mut detail = "CSV parsing error - ".to_owned();
            detail.append(words.as_str());
            Err(tag_row(index, detail.as_str()))
        },
        Ok(fields) => match process_csv_transaction(fields.clone(), account_id) {
            Ok(transaction) => Ok(transaction),
            Err(detail) => Err(tag_row(index, detail.as_str())),
        },
    }
}

/// Reads the rows of a file: the transactions of the rows that could be
/// read, and one message for each of the others, both in the order of the
/// rows.
pub fn read_rows(rows: &Vec<CsvRow>, account_id: &str) -> (r: (
    Vec<ImportedTransaction>,
    Vec<String>,
))
    ensures
        views(r.0@) == successes(file_outcomes(rows@, account_id@)),
        views(r.1@) == failures(file_outcomes(rows@, account_id@)),
{
    let ghost outcomes = file_outcomes(rows@, account_id@);
    let mut transactions: Vec<ImportedTransaction> = Vec::new();
    let mut errors: Vec<String> = Vec::new();
    let mut i: usize = 0;
    proof {
        assert(outcomes.take(0) =~= Seq::empty());
        assert(views(transactions@) =~= Seq::empty());
        assert(views(errors@) =~= Seq::empty());
    }
    while i < rows.len()
        invariant
            i <= rows.len(),
            outcomes == file_outcomes(rows@, account_id@),
            views(transactions@) == successes(outcomes.take(i as int)),
            views(errors@) == failures(outcomes.take(i as int)),
        decreases rows.len() - i,
    {
        let ghost read = views(transactions@);
        let ghost refused = views(errors@);
        proof {
            assert(outcomes.take(i + 1).drop_last() =~= outcomes.take(i as int));
            assert(outcomes.take(i + 1).last() == outcomes[i as int]);
        }
        match read_row(i, &rows[i], account_id) {
            Ok(transaction) => {
                transactions.push(transaction);
                proof {
                    assert(views(transactions@) =~= read.push(outcomes[i as int]->Ok_0));
                }
            },
            Err(message) => {
                errors.push(message);
                proof {
                    assert(views(errors@) =~= refused.push(outcomes[i as int]->Err_0));
                }
            },
        }
        i += 1;
    }
    proof {
        assert(outcomes.take(rows.len() as int) =~= outcomes);
    }
    (transactions, errors)
}

impl TransactionStore {
    /// Imports what was read of a file. Fails with a bad request, and changes
    /// nothing, exactly if no row could be read and at least one was
    /// refused. Otherwise the transactions are imported as a batch, and the
    /// messages about the refused rows are handed back with the count.
    pub fn import_read(
        &mut self,
        account_id: String,
        new_transactions: Vec<ImportedTransaction>,
        errors: Vec<String>,
    ) -> (r: Result<BulkImportResponse, ApiError>)
        ensures
            (final(self)@, result_view(r)) == old(self)@.import_read(
                account_id@,
                views(new_transactions@),
                views(errors@),
            ),
            r is Err ==> *final(self) == *old(self),
    {
        if new_transactions.len() == 0 && errors.len() > 0 {
            let mut message = "CSV parsing failed with ".to_owned();
            append_decimal(&mut message, errors.len() as u128);
            message.append(" errors");
            return Err(ApiError { message, status: Status::BadRequest });
        }
        assert(views(new_transactions@).len() == new_transactions.len());
        assert(views(errors@).len() == errors.len());
        let imported = self.replace_range(&account_id, &new_transactions);
        Ok(BulkImportResponse { imported, duplicates: 0, errors })
    }

    /// Imports the rows of a file into an account. Each row is read on its
    /// own; a row that cannot be read gives a message tagged with its number
    /// and does not stop the others. Fails with a bad request, and changes
    /// nothing, exactly if no row could be read and at least one was refused.
    pub fn bulk_import(&mut self, account_id: String, rows: &Vec<CsvRow>) -> (r: Result<
        BulkImportResponse,
        ApiError,
    >)
        ensures
            (final(self)@, result_view(r)) == old(self)@.import_read(
                account_id@,
                successes(file_outcomes(rows@, account_id@)),
                failures(file_outcomes(rows@, account_id@)),
            ),
            r is Err ==> *final(self) == *old(self),
    {
        let (new_transactions, errors) = read_rows(rows, account_id.as_str());
        self.import_read(account_id, new_transactions, errors)
    }
}

} // verus!
