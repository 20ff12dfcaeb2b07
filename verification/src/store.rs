//! The transaction store: every account's live snapshot and history, and the
//! operations that read and change them.

use vstd::prelude::*;
use crate::current::{
    add_entry,
    copy_current,
    has_entry,
    import_entries,
    list_current,
    unique_current,
};
use crate::error::{ApiError, Status};
use crate::history::{
    add_line,
    copy_all,
    import_lines,
    list_history,
    memo_place,
    set_memo,
    unique_all,
};
use crate::repr::{
    AllTransactions,
    CurrentTransactions,
    current_map,
    current_wf,
    history_map,
    history_wf,
};
use crate::state::{StoreView, first_match, is_first_match, lists_current, lists_history};
use crate::types::{
    BulkImportResponse,
    CreateTransactionRequest,
    CurrentTransaction,
    HistoricalTransaction,
    ImportedTransaction,
    TransactionId,
    memo_view,
    result_view,
    views,
};

verus! {

/// The store of transactions of all accounts.
pub struct TransactionStore {
    current: CurrentTransactions,
    all: AllTransactions,
}

impl View for TransactionStore {
    type V = StoreView;

    closed spec fn view(&self) -> StoreView {
        StoreView { current: current_map(self.current@), all: history_map(self.all@) }
    }
}

impl TransactionStore {
    /// The store keeps one bucket and one history for an account, and one
    /// live entry for a key.
    #[verifier::type_invariant]
    spec fn wf(self) -> bool {
        current_wf(self.current@) && history_wf(self.all@)
    }

    /// A store that holds nothing.
    pub fn new() -> (store: TransactionStore)
        ensures
            store@ == StoreView::empty(),
    {
        let store = TransactionStore { current: Vec::new(), all: Vec::new() };
        assert(store@ =~= StoreView::empty());
        store
    }

    /// Every entry of every account's live snapshot, in no particular order.
    pub fn get_current_transactions(&self) -> (listing: Vec<CurrentTransaction>)
        ensures
            lists_current(views(listing@), self@.current),
    {
        proof {
            use_type_invariant(self);
        }
        list_current(&self.current)
    }

    /// The histories of all accounts, one account after the other in no
    /// particular order, each history in the order in which it grew.
    pub fn get_all_transactions(&self) -> (listing: Vec<HistoricalTransaction>)
        ensures
            lists_history(views(listing@), self@.all),
    {
        proof {
            use_type_invariant(self);
        }
        list_history(&self.all)
    }

    /// Records one transaction: a new entry in the account's live snapshot
    /// and a new line, without memo, at the end of its history. Fails with a
    /// conflict, and changes nothing, exactly if the live snapshot already
    /// has an entry for the transaction's key.
    pub fn create_transaction(&mut self, request: CreateTransactionRequest) -> (r: Result<
        CurrentTransaction,
        ApiError,
    >)
        ensures
            (final(self)@, result_view(r)) == old(self)@.create(request.account_id@, request.key()),
            r is Err ==> *final(self) == *old(self),
    {
        proof {
            use_type_invariant(&*self);
        }
        let id = TransactionId {
            timestamp: request.timestamp,
            amount_cents: request.amount_cents,
            currency: request.currency,
            payee: request.payee,
        };
        let account_id = request.account_id;
        if has_entry(&self.current, &account_id, &id) {
            return Err(ApiError::new("Transaction already exists", Status::Conflict));
        }
        let entry = CurrentTransaction { account_id: account_id.clone(), id: id.clone() };
        let line = HistoricalTransaction {
            account_id: account_id.clone(),
            id: id.clone(),
            memo: None,
        };
        let mut current: CurrentTransactions = Vec::new();
        std::mem::swap(&mut current, &mut self.current);
        add_entry(&mut current, &account_id, id, entry.clone());
        self.current = current;
        let mut all: AllTransactions = Vec::new();
        std::mem::swap(&mut all, &mut self.all);
        add_line(&mut all, &account_id, line);
        self.all = all;
        Ok(entry)
    }

    /// Imports a batch into an account. Every live entry of the account
    /// whose timestamp falls into the batch's span is dropped, whatever its
    /// key; then the batch's entries are written in order, a later one
    /// replacing an earlier one with the same key; and the batch's lines are
    /// added to the end of the account's history. Returns how many entries
    /// were written.
    pub fn replace_range(
        &mut self,
        account_id: &String,
        new_transactions: &Vec<ImportedTransaction>,
    ) -> (imported: usize)
        ensures
            final(self)@ == old(self)@.imported(account_id@, views(new_transactions@)),
            imported == new_transactions.len(),
    {
        proof {
            use_type_invariant(&*self);
        }
        let mut current: CurrentTransactions = Vec::new();
        std::mem::swap(&mut current, &mut self.current);
        import_entries(&mut current, account_id, new_transactions);
        self.current = current;
        let mut all: AllTransactions = Vec::new();
        std::mem::swap(&mut all, &mut self.all);
        import_lines(&mut all, account_id, new_transactions);
        self.all = all;
        new_transactions.len()
    }

    /// Imports a batch of transactions that were read already. Fails with a
    /// bad request, and changes nothing, exactly if the batch is empty.
    pub fn bulk_import_transactions(
        &mut self,
        account_id: String,
        new_transactions: Vec<ImportedTransaction>,
    ) -> (r: Result<BulkImportResponse, ApiError>)
        ensures
            (final(self)@, result_view(r)) == old(self)@.import_batch(
                account_id@,
                views(new_transactions@),
            ),
            r is Err ==> *final(self) == *old(self),
    {
        if new_transactions.len() == 0 {
            return Err(ApiError::new("No valid transactions to import", Status::BadRequest));
        }
        let imported = self.replace_range(&account_id, &new_transactions);
        let errors: Vec<String> = Vec::new();
        assert(views(errors@) =~= Seq::empty());
        Ok(BulkImportResponse { imported, duplicates: 0, errors })
    }

    /// Sets or clears the memo of the first line about a transaction in an
    /// account's history. Fails with not found, and changes nothing, if the
    /// account has no history or its history has no line about the
    /// transaction. The live snapshots are never touched.
    pub fn update_transaction_memo(
        &mut self,
        account_id: String,
        transaction_id: TransactionId,
        new_memo: Option<String>,
    ) -> (r: Result<(), ApiError>)
        ensures
            (final(self)@, result_view(r)) == old(self)@.update_memo(
                account_id@,
                transaction_id@,
                memo_view(new_memo),
            ),
            r is Err ==> *final(self) == *old(self),
    {
        proof {
            use_type_invariant(&*self);
        }
        match memo_place(&self.all, &account_id, &transaction_id) {
            Err(false) => Err(ApiError::new("Account not found", Status::NotFound)),
            Err(true) => Err(ApiError::new("Transaction not found", Status::NotFound)),
            Ok((h, i)) => {
                proof {
                    let history = history_map(self.all@)[account_id@];
                    let at = first_match(history, transaction_id@);
                    assert(is_first_match(history, transaction_id@, i as int));
                    assert(is_first_match(history, transaction_id@, at));
                    assert(at == i);
                }
                let mut all: AllTransactions = Vec::new();
                std::mem::swap(&mut all, &mut self.all);
                set_memo(&mut all, h, i, new_memo);
                self.all = all;
                Ok(())
            },
        }
    }

    /// A copy of the live snapshots, to be written out.
    pub fn current_snapshot(&self) -> (saved: CurrentTransactions)
        ensures
            current_map(saved@) == self@.current,
    {
        proof {
            use_type_invariant(self);
        }
        copy_current(&self.current)
    }

    /// A copy of the histories, to be written out.
    pub fn all_snapshot(&self) -> (saved: AllTransactions)
        ensures
            history_map(saved@) == self@.all,
    {
        proof {
            use_type_invariant(self);
        }
        copy_all(&self.all)
    }

    /// Replaces the live snapshots of all accounts by what was read back.
    /// Where the loaded data names an account or a key twice, the last
    /// occurrence counts. The histories stay as they are.
    pub fn replace_current(&mut self, loaded: &CurrentTransactions)
        ensures
            final(self)@.current == current_map(loaded@),
            final(self)@.all == old(self)@.all,
    {
        proof {
            use_type_invariant(&*self);
        }
        self.current = unique_current(loaded);
    }

    /// Replaces the histories of all accounts by what was read back. Where
    /// the loaded data names an account twice, the last occurrence counts.
    /// The live snapshots stay as they are.
    pub fn replace_all(&mut self, loaded: &AllTransactions)
        ensures
            final(self)@.all == history_map(loaded@),
            final(self)@.current == old(self)@.current,
    {
        proof {
            use_type_invariant(&*self);
        }
        self.all = unique_all(loaded);
    }
}

} // verus!
