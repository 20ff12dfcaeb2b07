//! A store of financial transactions per account, in two views that are kept
//! in step: a deduplicated live snapshot, which a bulk import replaces span
//! by span, and an append-only history, whose lines can carry a memo.
//!
//! The store itself does no input or output. It hands out copies of its two
//! views to be written out, and takes back what was read.

use vstd::prelude::*;

pub mod assoc;
mod current;
pub mod error;
mod history;
pub mod import;
pub mod laws;
pub mod repr;
pub mod state;
pub mod store;
pub mod text;
pub mod timestamp;
pub mod types;
pub mod utils;

pub use crate::error::{ApiError, ErrorReply, Status, handle_rejection};
pub use crate::import::{CsvRow, RowOutcome, process_csv_transaction};
pub use crate::repr::{AllTransactions, CurrentTransactions};
pub use crate::store::TransactionStore;
pub use crate::timestamp::{Timestamp, parse_timestamp};
pub use crate::types::{
    BulkImportResponse,
    CreateTransactionRequest,
    CsvTransaction,
    CurrentTransaction,
    HistoricalTransaction,
    ImportedTransaction,
    TransactionId,
    UpdateMemoRequest,
};
pub use crate::utils::{get_required_param, parse_csv_string};

verus! {

} // verus!
