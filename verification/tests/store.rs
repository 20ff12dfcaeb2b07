use std::collections::HashSet;
use transaction_store::{
    ApiError, CreateTransactionRequest, CurrentTransaction, HistoricalTransaction,
    ImportedTransaction, Status, Timestamp, TransactionId, TransactionStore,
};

fn at(secs: i64) -> Timestamp {
    Timestamp { secs, nanos: 0 }
}

fn id(secs: i64, cents: i64, payee: &str) -> TransactionId {
    TransactionId {
        timestamp: at(secs),
        amount_cents: cents,
        currency: "USD".to_string(),
        payee: payee.to_string(),
    }
}

fn request(account: &str, secs: i64, cents: i64, payee: &str) -> CreateTransactionRequest {
    CreateTransactionRequest {
        account_id: account.to_string(),
        timestamp: at(secs),
        payee: payee.to_string(),
        amount_cents: cents,
        currency: "USD".to_string(),
    }
}

fn entry(account: &str, secs: i64, cents: i64, payee: &str) -> CurrentTransaction {
    CurrentTransaction { account_id: account.to_string(), id: id(secs, cents, payee) }
}

fn line(account: &str, secs: i64, cents: i64, payee: &str, memo: Option<&str>) -> HistoricalTransaction {
    HistoricalTransaction {
        account_id: account.to_string(),
        id: id(secs, cents, payee),
        memo: memo.map(|m| m.to_string()),
    }
}

fn record(account: &str, secs: i64, cents: i64, payee: &str) -> ImportedTransaction {
    (
        id(secs, cents, payee),
        entry(account, secs, cents, payee),
        line(account, secs, cents, payee, None),
    )
}

fn count_current(store: &TransactionStore, wanted: &CurrentTransaction) -> usize {
    store.get_current_transactions().iter().filter(|e| *e == wanted).count()
}

fn count_lines(store: &TransactionStore, account: &str, wanted: &TransactionId) -> usize {
    store
        .get_all_transactions()
        .iter()
        .filter(|l| l.account_id == account && l.id == *wanted)
        .count()
}

#[test]
fn new_store_is_empty() {
    let store = TransactionStore::new();
    assert!(store.get_current_transactions().is_empty());
    assert!(store.get_all_transactions().is_empty());
    assert!(store.current_snapshot().is_empty());
    assert!(store.all_snapshot().is_empty());
}

#[test]
fn create_returns_the_new_entry() {
    let mut store = TransactionStore::new();
    let created = store.create_transaction(request("acct", 1705314600, 1050, "Coffee"));
    assert_eq!(created, Ok(entry("acct", 1705314600, 1050, "Coffee")));
}

#[test]
fn second_identical_create_conflicts_and_changes_nothing() {
    let mut store = TransactionStore::new();
    assert!(store.create_transaction(request("acct", 100, 1050, "Coffee")).is_ok());
    let current_before = store.get_current_transactions();
    let all_before = store.get_all_transactions();

    let again = store.create_transaction(request("acct", 100, 1050, "Coffee"));
    assert_eq!(
        again,
        Err(ApiError { message: "Transaction already exists".to_string(), status: Status::Conflict })
    );
    assert_eq!(store.get_current_transactions(), current_before);
    assert_eq!(store.get_all_transactions(), all_before);
}

#[test]
fn create_with_one_field_changed_is_another_transaction() {
    let mut store = TransactionStore::new();
    assert!(store.create_transaction(request("acct", 100, 1050, "Coffee")).is_ok());
    assert!(store.create_transaction(request("acct", 101, 1050, "Coffee")).is_ok());
    assert!(store.create_transaction(request("acct", 100, 1051, "Coffee")).is_ok());
    assert!(store.create_transaction(request("acct", 100, 1050, "Tea")).is_ok());
    let mut other_currency = request("acct", 100, 1050, "Coffee");
    other_currency.currency = "EUR".to_string();
    assert!(store.create_transaction(other_currency).is_ok());
    let mut finer = request("acct", 100, 1050, "Coffee");
    finer.timestamp = Timestamp { secs: 100, nanos: 1 };
    assert!(store.create_transaction(finer).is_ok());
    assert_eq!(store.get_current_transactions().len(), 6);
    assert_eq!(store.get_all_transactions().len(), 6);
}

#[test]
fn create_then_reads_hold_exactly_one_matching_entry() {
    let mut store = TransactionStore::new();
    assert!(store.create_transaction(request("other", 100, 1050, "Coffee")).is_ok());
    assert!(store.create_transaction(request("acct", 50, 700, "Bread")).is_ok());
    assert!(store.create_transaction(request("acct", 100, 1050, "Coffee")).is_ok());

    assert_eq!(count_current(&store, &entry("acct", 100, 1050, "Coffee")), 1);
    assert_eq!(count_lines(&store, "acct", &id(100, 1050, "Coffee")), 1);
    let all = store.get_all_transactions();
    let found = all
        .iter()
        .find(|l| l.account_id == "acct" && l.id == id(100, 1050, "Coffee"))
        .expect("the line is listed");
    assert_eq!(found.memo, None);
    assert_eq!(store.get_current_transactions().len(), 3);
    assert_eq!(all.len(), 3);
}

#[test]
fn same_transaction_in_two_accounts_is_no_conflict() {
    let mut store = TransactionStore::new();
    assert_eq!(
        store.create_transaction(request("a", 100, 1050, "Coffee")),
        Ok(entry("a", 100, 1050, "Coffee"))
    );
    assert_eq!(
        store.create_transaction(request("b", 100, 1050, "Coffee")),
        Ok(entry("b", 100, 1050, "Coffee"))
    );
    assert_eq!(count_current(&store, &entry("a", 100, 1050, "Coffee")), 1);
    assert_eq!(count_current(&store, &entry("b", 100, 1050, "Coffee")), 1);
}

#[test]
fn creates_in_two_accounts_give_the_same_store_in_either_order() {
    let mut one = TransactionStore::new();
    assert!(one.create_transaction(request("a", 100, 1, "x")).is_ok());
    assert!(one.create_transaction(request("b", 200, 2, "y")).is_ok());
    let mut other = TransactionStore::new();
    assert!(other.create_transaction(request("b", 200, 2, "y")).is_ok());
    assert!(other.create_transaction(request("a", 100, 1, "x")).is_ok());

    for wanted in [entry("a", 100, 1, "x"), entry("b", 200, 2, "y")] {
        assert_eq!(count_current(&one, &wanted), 1);
        assert_eq!(count_current(&other, &wanted), 1);
    }
    assert_eq!(one.get_current_transactions().len(), other.get_current_transactions().len());
    assert_eq!(one.get_all_transactions().len(), other.get_all_transactions().len());
}

#[test]
fn history_keeps_the_order_of_an_account() {
    let mut store = TransactionStore::new();
    assert!(store.create_transaction(request("a", 300, 3, "third in time")).is_ok());
    assert!(store.create_transaction(request("b", 1, 9, "elsewhere")).is_ok());
    assert!(store.create_transaction(request("a", 100, 1, "first in time")).is_ok());
    assert!(store.create_transaction(request("a", 200, 2, "second in time")).is_ok());
    let of_a: Vec<HistoricalTransaction> =
        store.get_all_transactions().into_iter().filter(|l| l.account_id == "a").collect();
    assert_eq!(
        of_a,
        vec![
            line("a", 300, 3, "third in time", None),
            line("a", 100, 1, "first in time", None),
            line("a", 200, 2, "second in time", None),
        ]
    );
}

#[test]
fn bulk_import_of_nothing_is_a_bad_request() {
    let mut store = TransactionStore::new();
    assert!(store.create_transaction(request("acct", 100, 1, "x")).is_ok());
    let result = store.bulk_import_transactions("acct".to_string(), vec![]);
    assert_eq!(
        result.unwrap_err(),
        ApiError {
            message: "No valid transactions to import".to_string(),
            status: Status::BadRequest
        }
    );
    assert_eq!(store.get_current_transactions(), vec![entry("acct", 100, 1, "x")]);
    assert_eq!(store.get_all_transactions(), vec![line("acct", 100, 1, "x", None)]);
}

#[test]
fn bulk_import_reports_what_it_wrote() {
    let mut store = TransactionStore::new();
    let response = store
        .bulk_import_transactions(
            "acct".to_string(),
            vec![record("acct", 100, 1, "x"), record("acct", 200, 2, "y")],
        )
        .unwrap();
    assert_eq!(response.imported, 2);
    assert_eq!(response.duplicates, 0);
    assert!(response.errors.is_empty());
    assert_eq!(count_current(&store, &entry("acct", 100, 1, "x")), 1);
    assert_eq!(count_current(&store, &entry("acct", 200, 2, "y")), 1);
    assert_eq!(
        store.get_all_transactions(),
        vec![line("acct", 100, 1, "x", None), line("acct", 200, 2, "y", None)]
    );
}

#[test]
fn bulk_import_evicts_the_span_and_keeps_the_history() {
    let mut store = TransactionStore::new();
    // Before, inside (on both ends and in the middle) and after the span 200..=400.
    for (secs, payee) in [(199, "before"), (200, "first"), (300, "middle"), (400, "last"), (401, "after")] {
        assert!(store.create_transaction(request("acct", secs, 1, payee)).is_ok());
    }
    assert!(store.create_transaction(request("other", 300, 1, "middle")).is_ok());

    let response = store
        .bulk_import_transactions(
            "acct".to_string(),
            vec![record("acct", 400, 7, "new b"), record("acct", 200, 7, "new a")],
        )
        .unwrap();
    assert_eq!(response.imported, 2);

    for (secs, payee) in [(200, "first"), (300, "middle"), (400, "last")] {
        assert_eq!(count_current(&store, &entry("acct", secs, 1, payee)), 0);
        assert_eq!(count_lines(&store, "acct", &id(secs, 1, payee)), 1);
    }
    for (secs, payee) in [(199, "before"), (401, "after")] {
        assert_eq!(count_current(&store, &entry("acct", secs, 1, payee)), 1);
    }
    assert_eq!(count_current(&store, &entry("acct", 400, 7, "new b")), 1);
    assert_eq!(count_current(&store, &entry("acct", 200, 7, "new a")), 1);
    assert_eq!(count_current(&store, &entry("other", 300, 1, "middle")), 1);
    assert_eq!(store.get_current_transactions().len(), 5);

    let of_acct: Vec<HistoricalTransaction> =
        store.get_all_transactions().into_iter().filter(|l| l.account_id == "acct").collect();
    assert_eq!(
        of_acct,
        vec![
            line("acct", 199, 1, "before", None),
            line("acct", 200, 1, "first", None),
            line("acct", 300, 1, "middle", None),
            line("acct", 400, 1, "last", None),
            line("acct", 401, 1, "after", None),
            line("acct", 400, 7, "new b", None),
            line("acct", 200, 7, "new a", None),
        ]
    );
}

#[test]
fn bulk_import_span_counts_nanoseconds() {
    let mut store = TransactionStore::new();
    let mut just_before = request("acct", 100, 1, "just before");
    just_before.timestamp = Timestamp { secs: 100, nanos: 499 };
    let mut on_the_edge = request("acct", 100, 1, "on the edge");
    on_the_edge.timestamp = Timestamp { secs: 100, nanos: 500 };
    assert!(store.create_transaction(just_before).is_ok());
    assert!(store.create_transaction(on_the_edge).is_ok());

    let mut incoming = record("acct", 100, 2, "incoming");
    incoming.0.timestamp = Timestamp { secs: 100, nanos: 500 };
    incoming.1.id.timestamp = Timestamp { secs: 100, nanos: 500 };
    incoming.2.id.timestamp = Timestamp { secs: 100, nanos: 500 };
    assert!(store.bulk_import_transactions("acct".to_string(), vec![incoming]).is_ok());

    let payees: Vec<String> =
        store.get_current_transactions().into_iter().map(|e| e.id.payee).collect();
    assert_eq!(payees.len(), 2);
    assert!(payees.contains(&"just before".to_string()));
    assert!(payees.contains(&"incoming".to_string()));
}

#[test]
fn bulk_import_same_key_twice_last_one_wins() {
    let mut store = TransactionStore::new();
    let first = record("acct", 100, 1, "x");
    let mut second = record("acct", 100, 1, "x");
    second.1.account_id = "marked".to_string();
    let response =
        store.bulk_import_transactions("acct".to_string(), vec![first, second]).unwrap();
    assert_eq!(response.imported, 2);
    assert_eq!(response.duplicates, 0);
    let current = store.get_current_transactions();
    assert_eq!(current.len(), 1);
    assert_eq!(current[0].account_id, "marked");
    assert_eq!(store.get_all_transactions().len(), 2);
}

#[test]
fn reimport_of_a_live_key_replaces_it() {
    let mut store = TransactionStore::new();
    assert!(store.create_transaction(request("acct", 100, 1, "x")).is_ok());
    assert!(store
        .bulk_import_transactions("acct".to_string(), vec![record("acct", 100, 1, "x")])
        .is_ok());
    assert_eq!(store.get_current_transactions(), vec![entry("acct", 100, 1, "x")]);
    assert_eq!(count_lines(&store, "acct", &id(100, 1, "x")), 2);
}

#[test]
fn create_after_eviction_succeeds_again() {
    let mut store = TransactionStore::new();
    assert!(store.create_transaction(request("acct", 100, 1, "x")).is_ok());
    assert!(store
        .bulk_import_transactions("acct".to_string(), vec![record("acct", 100, 2, "y")])
        .is_ok());
    assert_eq!(count_current(&store, &entry("acct", 100, 1, "x")), 0);
    assert!(store.create_transaction(request("acct", 100, 1, "x")).is_ok());
    assert_eq!(count_current(&store, &entry("acct", 100, 1, "x")), 1);
    assert_eq!(count_lines(&store, "acct", &id(100, 1, "x")), 2);
}

#[test]
fn memo_for_unknown_account_is_not_found() {
    let mut store = TransactionStore::new();
    assert!(store.create_transaction(request("acct", 100, 1, "x")).is_ok());
    let result =
        store.update_transaction_memo("nobody".to_string(), id(100, 1, "x"), Some("m".to_string()));
    assert_eq!(
        result,
        Err(ApiError { message: "Account not found".to_string(), status: Status::NotFound })
    );
    assert_eq!(store.get_all_transactions(), vec![line("acct", 100, 1, "x", None)]);
}

#[test]
fn memo_for_unknown_transaction_is_not_found() {
    let mut store = TransactionStore::new();
    assert!(store.create_transaction(request("acct", 100, 1, "x")).is_ok());
    let result =
        store.update_transaction_memo("acct".to_string(), id(100, 2, "x"), Some("m".to_string()));
    assert_eq!(
        result,
        Err(ApiError { message: "Transaction not found".to_string(), status: Status::NotFound })
    );
    assert_eq!(store.get_all_transactions(), vec![line("acct", 100, 1, "x", None)]);
}

#[test]
fn memo_is_set_replaced_and_cleared_on_one_line_only() {
    let mut store = TransactionStore::new();
    assert!(store.create_transaction(request("acct", 100, 1, "x")).is_ok());
    assert!(store.create_transaction(request("acct", 200, 2, "y")).is_ok());
    assert!(store.create_transaction(request("other", 100, 1, "x")).is_ok());
    let current_before = store.get_current_transactions();

    assert_eq!(
        store.update_transaction_memo("acct".to_string(), id(100, 1, "x"), Some("rent".to_string())),
        Ok(())
    );
    assert_eq!(
        store.get_all_transactions(),
        vec![
            line("acct", 100, 1, "x", Some("rent")),
            line("acct", 200, 2, "y", None),
            line("other", 100, 1, "x", None),
        ]
    );
    assert_eq!(
        store.update_transaction_memo("acct".to_string(), id(100, 1, "x"), Some("food".to_string())),
        Ok(())
    );
    assert_eq!(store.get_all_transactions()[0], line("acct", 100, 1, "x", Some("food")));
    assert_eq!(store.update_transaction_memo("acct".to_string(), id(100, 1, "x"), None), Ok(()));
    assert_eq!(store.get_all_transactions()[0], line("acct", 100, 1, "x", None));
    assert_eq!(store.get_current_transactions(), current_before);
}

#[test]
fn empty_memo_is_kept_as_an_empty_memo() {
    let mut store = TransactionStore::new();
    assert!(store.create_transaction(request("acct", 100, 1, "x")).is_ok());
    assert_eq!(
        store.update_transaction_memo("acct".to_string(), id(100, 1, "x"), Some(String::new())),
        Ok(())
    );
    assert_eq!(store.get_all_transactions(), vec![line("acct", 100, 1, "x", Some(""))]);
}

#[test]
fn memo_goes_to_the_first_of_two_lines_about_one_transaction() {
    let mut store = TransactionStore::new();
    assert!(store.create_transaction(request("acct", 100, 1, "x")).is_ok());
    assert!(store
        .bulk_import_transactions("acct".to_string(), vec![record("acct", 100, 1, "x")])
        .is_ok());
    assert_eq!(
        store.update_transaction_memo("acct".to_string(), id(100, 1, "x"), Some("m".to_string())),
        Ok(())
    );
    assert_eq!(
        store.get_all_transactions(),
        vec![line("acct", 100, 1, "x", Some("m")), line("acct", 100, 1, "x", None)]
    );
}

#[test]
fn memo_works_for_a_line_without_live_entry() {
    let mut store = TransactionStore::new();
    assert!(store.create_transaction(request("acct", 100, 1, "x")).is_ok());
    assert!(store
        .bulk_import_transactions("acct".to_string(), vec![record("acct", 100, 2, "y")])
        .is_ok());
    assert_eq!(
        store.update_transaction_memo("acct".to_string(), id(100, 1, "x"), Some("old".to_string())),
        Ok(())
    );
    assert_eq!(store.get_all_transactions()[0].memo, Some("old".to_string()));
    assert_eq!(store.get_current_transactions(), vec![entry("acct", 100, 2, "y")]);
}

#[test]
fn snapshots_restore_an_identical_store() {
    let mut store = TransactionStore::new();
    assert!(store.create_transaction(request("a", 100, 1, "x")).is_ok());
    assert!(store.create_transaction(request("a", 200, 2, "y")).is_ok());
    assert!(store.create_transaction(request("b", 100, 1, "x")).is_ok());
    assert!(store
        .bulk_import_transactions("a".to_string(), vec![record("a", 200, 5, "z")])
        .is_ok());
    assert_eq!(
        store.update_transaction_memo("a".to_string(), id(200, 2, "y"), Some("memo".to_string())),
        Ok(())
    );

    let saved_current = store.current_snapshot();
    let saved_all = store.all_snapshot();
    let mut fresh = TransactionStore::new();
    fresh.replace_current(&saved_current);
    fresh.replace_all(&saved_all);

    assert_eq!(fresh.get_current_transactions(), store.get_current_transactions());
    assert_eq!(fresh.get_all_transactions(), store.get_all_transactions());
    assert_eq!(fresh.current_snapshot(), saved_current);
    assert_eq!(fresh.all_snapshot(), saved_all);
    // The restored store goes on as the saved one would.
    assert!(fresh.create_transaction(request("a", 100, 1, "x")).is_err());
    assert!(fresh.create_transaction(request("a", 200, 2, "y")).is_ok());
}

#[test]
fn snapshot_holds_accounts_keys_and_entries() {
    let mut store = TransactionStore::new();
    assert!(store.create_transaction(request("a", 100, 1, "x")).is_ok());
    assert_eq!(
        store.current_snapshot(),
        vec![("a".to_string(), vec![(id(100, 1, "x"), entry("a", 100, 1, "x"))])]
    );
    assert_eq!(store.all_snapshot(), vec![("a".to_string(), vec![line("a", 100, 1, "x", None)])]);
}

#[test]
fn replace_is_wholesale_and_each_view_on_its_own() {
    let mut store = TransactionStore::new();
    assert!(store.create_transaction(request("a", 100, 1, "x")).is_ok());
    store.replace_current(&vec![(
        "b".to_string(),
        vec![(id(5, 5, "five"), entry("b", 5, 5, "five"))],
    )]);
    assert_eq!(store.get_current_transactions(), vec![entry("b", 5, 5, "five")]);
    assert_eq!(store.get_all_transactions(), vec![line("a", 100, 1, "x", None)]);
    store.replace_all(&vec![]);
    assert!(store.get_all_transactions().is_empty());
    assert_eq!(store.get_current_transactions(), vec![entry("b", 5, 5, "five")]);
}

#[test]
fn replace_takes_the_last_of_repeated_accounts_and_keys() {
    let mut store = TransactionStore::new();
    store.replace_current(&vec![
        ("a".to_string(), vec![(id(1, 1, "dropped"), entry("a", 1, 1, "dropped"))]),
        ("b".to_string(), vec![(id(2, 2, "kept"), entry("b", 2, 2, "kept"))]),
        (
            "a".to_string(),
            vec![
                (id(3, 3, "k"), entry("a", 3, 3, "early")),
                (id(4, 4, "other"), entry("a", 4, 4, "other")),
                (id(3, 3, "k"), entry("a", 3, 3, "late")),
            ],
        ),
    ]);
    let current = store.get_current_transactions();
    assert_eq!(current.len(), 3);
    assert!(current.contains(&entry("b", 2, 2, "kept")));
    assert!(current.contains(&entry("a", 3, 3, "late")));
    assert!(current.contains(&entry("a", 4, 4, "other")));

    store.replace_all(&vec![
        ("a".to_string(), vec![line("a", 1, 1, "dropped", None)]),
        ("a".to_string(), vec![line("a", 2, 2, "kept", Some("m")), line("a", 2, 2, "kept", None)]),
    ]);
    assert_eq!(
        store.get_all_transactions(),
        vec![line("a", 2, 2, "kept", Some("m")), line("a", 2, 2, "kept", None)]
    );
}

#[test]
fn loaded_entry_is_found_by_its_key_not_by_its_content() {
    let mut store = TransactionStore::new();
    store.replace_current(&vec![(
        "a".to_string(),
        vec![(id(100, 1, "key"), entry("elsewhere", 999, 9, "content"))],
    )]);
    assert_eq!(store.get_current_transactions(), vec![entry("elsewhere", 999, 9, "content")]);
    assert!(store.create_transaction(request("a", 100, 1, "key")).is_err());
    assert!(store.create_transaction(request("a", 999, 9, "content")).is_ok());
}

#[test]
fn keys_are_equal_exactly_if_all_four_fields_are() {
    let base = id(100, 1050, "Coffee");
    assert_eq!(base, id(100, 1050, "Coffee"));
    assert_eq!(base, base.clone());
    assert_ne!(base, id(101, 1050, "Coffee"));
    assert_ne!(base, id(100, 1049, "Coffee"));
    assert_ne!(base, id(100, 1050, "coffee"));
    let mut other_currency = id(100, 1050, "Coffee");
    other_currency.currency = "usd".to_string();
    assert_ne!(base, other_currency);
    let mut finer = id(100, 1050, "Coffee");
    finer.timestamp.nanos = 1;
    assert_ne!(base, finer);

    let mut set = HashSet::new();
    assert!(set.insert(id(100, 1050, "Coffee")));
    assert!(!set.insert(id(100, 1050, "Coffee")));
    assert!(set.insert(id(100, 1051, "Coffee")));
    assert!(set.contains(&base));
    assert_eq!(set.len(), 2);
}

#[test]
fn replace_range_with_an_empty_batch_evicts_nothing() {
    let mut store = TransactionStore::new();
    assert!(store.create_transaction(request("acct", 100, 1, "x")).is_ok());
    assert_eq!(store.replace_range(&"acct".to_string(), &vec![]), 0);
    assert_eq!(store.get_current_transactions(), vec![entry("acct", 100, 1, "x")]);
    assert_eq!(store.get_all_transactions(), vec![line("acct", 100, 1, "x", None)]);
    assert_eq!(store.replace_range(&"new".to_string(), &vec![]), 0);
    assert_eq!(store.current_snapshot().len(), 2);
    assert_eq!(store.all_snapshot().len(), 2);
}

#[test]
fn replace_range_takes_the_span_from_the_keys_of_the_batch() {
    let mut store = TransactionStore::new();
    for secs in [10, 20, 30, 40] {
        assert!(store.create_transaction(request("acct", secs, 1, "old")).is_ok());
    }
    // The entry and the line of a record may say what they like: the span is
    // that of the keys, here 20 to 30.
    let mut a = record("acct", 20, 9, "a");
    a.1.id.timestamp = Timestamp { secs: 5, nanos: 0 };
    let mut b = record("acct", 30, 9, "b");
    b.2.id.timestamp = Timestamp { secs: 50, nanos: 0 };
    assert_eq!(store.replace_range(&"acct".to_string(), &vec![b, a]), 2);
    let current = store.get_current_transactions();
    assert_eq!(current.len(), 4);
    assert!(current.contains(&entry("acct", 10, 1, "old")));
    assert!(current.contains(&entry("acct", 40, 1, "old")));
    assert!(current.contains(&entry("acct", 30, 9, "b")));
    assert!(current.contains(&entry("acct", 5, 9, "a")));
    assert!(store.create_transaction(request("acct", 20, 9, "a")).is_err());
    assert!(store.create_transaction(request("acct", 5, 9, "a")).is_ok());
}
