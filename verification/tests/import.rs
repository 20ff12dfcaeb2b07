use transaction_store::import::{assemble_transaction, read_row, read_rows, tag_row};
use transaction_store::{
    process_csv_transaction, ApiError, CreateTransactionRequest, CsvRow, CsvTransaction,
    CurrentTransaction, HistoricalTransaction, Status, Timestamp, TransactionId, TransactionStore,
};

fn row(timestamp: &str, payee: &str, cents: i64) -> CsvTransaction {
    CsvTransaction {
        timestamp: timestamp.to_string(),
        payee: payee.to_string(),
        amount_cents: cents,
        currency: "USD".to_string(),
    }
}

fn key(secs: i64, payee: &str, cents: i64) -> TransactionId {
    TransactionId {
        timestamp: Timestamp { secs, nanos: 0 },
        amount_cents: cents,
        currency: "USD".to_string(),
        payee: payee.to_string(),
    }
}

fn live(account: &str, secs: i64, payee: &str, cents: i64) -> CurrentTransaction {
    CurrentTransaction { account_id: account.to_string(), id: key(secs, payee, cents) }
}

fn past(account: &str, secs: i64, payee: &str, cents: i64) -> HistoricalTransaction {
    HistoricalTransaction { account_id: account.to_string(), id: key(secs, payee, cents), memo: None }
}

fn cents(amount: f64) -> i64 {
    (amount * 100.0).round() as i64
}

#[test]
fn row_becomes_a_fresh_transaction_of_the_account() {
    let outcome = process_csv_transaction(row("2024-01-15T10:30:00Z", "Coffee", 450), "acct");
    assert_eq!(
        outcome,
        Ok((
            key(1705314600, "Coffee", 450),
            live("acct", 1705314600, "Coffee", 450),
            past("acct", 1705314600, "Coffee", 450),
        ))
    );
}

#[test]
fn row_timestamp_is_converted_to_utc() {
    let outcome =
        process_csv_transaction(row("2024-01-15 10:30:00.25+02:00", "Coffee", 450), "acct").unwrap();
    assert_eq!(outcome.0.timestamp, Timestamp { secs: 1705307400, nanos: 250_000_000 });
}

#[test]
fn row_with_unreadable_timestamp_gives_the_parser_words() {
    assert_eq!(
        process_csv_transaction(row("not-a-date", "Coffee", 450), "acct"),
        Err("Invalid timestamp format - input contains invalid characters".to_string())
    );
    assert_eq!(
        process_csv_transaction(row("", "Coffee", 450), "acct"),
        Err("Invalid timestamp format - premature end of input".to_string())
    );
    assert_eq!(
        process_csv_transaction(row("2024-13-01T00:00:00Z", "Coffee", 450), "acct"),
        Err("Invalid timestamp format - input is out of range".to_string())
    );
    assert_eq!(
        process_csv_transaction(row("2024-01-15T10:30:00Z and more", "Coffee", 450), "acct"),
        Err("Invalid timestamp format - trailing input".to_string())
    );
}

#[test]
fn assembling_uses_the_reading_it_is_given() {
    let read = assemble_transaction(Ok(Timestamp { secs: 7, nanos: 8 }), row("ignored", "p", 1), "a");
    let (id, entry, line) = read.unwrap();
    assert_eq!(id.timestamp, Timestamp { secs: 7, nanos: 8 });
    assert_eq!(id.payee, "p");
    assert_eq!(id.amount_cents, 1);
    assert_eq!(id.currency, "USD");
    assert_eq!(entry, CurrentTransaction { account_id: "a".to_string(), id: id.clone() });
    assert_eq!(line, HistoricalTransaction { account_id: "a".to_string(), id, memo: None });

    let refused = assemble_transaction(Err("why".to_string()), row("ignored", "p", 1), "a");
    assert_eq!(refused, Err("Invalid timestamp format - why".to_string()));
}

#[test]
fn row_numbers_start_at_two() {
    assert_eq!(tag_row(0, "x"), "Row 2: x");
    assert_eq!(tag_row(1, "x"), "Row 3: x");
    assert_eq!(tag_row(8, ""), "Row 10: ");
    assert_eq!(tag_row(98, "y z"), "Row 100: y z");
    assert_eq!(tag_row(usize::MAX, "x"), format!("Row {}: x", usize::MAX as u128 + 2));
}

#[test]
fn refused_rows_are_tagged_with_their_number() {
    let undecoded: CsvRow = Err("missing field `payee`".to_string());
    assert_eq!(
        read_row(4, &undecoded, "acct"),
        Err("Row 6: CSV parsing error - missing field `payee`".to_string())
    );
    let unreadable: CsvRow = Ok(row("yesterday", "Coffee", 1));
    assert_eq!(
        read_row(0, &unreadable, "acct"),
        Err("Row 2: Invalid timestamp format - input contains invalid characters".to_string())
    );
    let fine: CsvRow = Ok(row("1970-01-01T00:00:05Z", "Coffee", 1));
    assert_eq!(
        read_row(0, &fine, "acct"),
        Ok((key(5, "Coffee", 1), live("acct", 5, "Coffee", 1), past("acct", 5, "Coffee", 1)))
    );
}

#[test]
fn rows_are_split_in_order() {
    let rows: Vec<CsvRow> = vec![
        Err("first".to_string()),
        Ok(row("1970-01-01T00:00:02Z", "b", 2)),
        Ok(row("nope", "c", 3)),
        Ok(row("1970-01-01T00:00:01Z", "a", 1)),
    ];
    let (read, refused) = read_rows(&rows, "acct");
    assert_eq!(
        read,
        vec![
            (key(2, "b", 2), live("acct", 2, "b", 2), past("acct", 2, "b", 2)),
            (key(1, "a", 1), live("acct", 1, "a", 1), past("acct", 1, "a", 1)),
        ]
    );
    assert_eq!(
        refused,
        vec![
            "Row 2: CSV parsing error - first".to_string(),
            "Row 4: Invalid timestamp format - input contains invalid characters".to_string(),
        ]
    );
}

#[test]
fn import_of_ok_malformed_ok() {
    let mut store = TransactionStore::new();
    let rows: Vec<CsvRow> = vec![
        Ok(row("2024-01-10T00:00:00Z", "Rent", 120000)),
        Ok(row("10/01/2024", "Broken", 1)),
        Ok(row("2024-01-20T00:00:00Z", "Power", 4550)),
    ];
    let response = store.bulk_import("acct".to_string(), &rows).unwrap();
    assert_eq!(response.imported, 2);
    assert_eq!(response.duplicates, 0);
    assert_eq!(
        response.errors,
        vec!["Row 3: Invalid timestamp format - input contains invalid characters".to_string()]
    );
    let current = store.get_current_transactions();
    assert_eq!(current.len(), 2);
    assert!(current.contains(&live("acct", 1704844800, "Rent", 120000)));
    assert!(current.contains(&live("acct", 1705708800, "Power", 4550)));
    assert_eq!(
        store.get_all_transactions(),
        vec![past("acct", 1704844800, "Rent", 120000), past("acct", 1705708800, "Power", 4550)]
    );
}

#[test]
fn import_overlapping_a_live_entry_evicts_it() {
    let mut store = TransactionStore::new();
    for (secs, payee) in [(1705060800, "inside the span"), (1706745600, "after the span")] {
        let created = store.create_transaction(CreateTransactionRequest {
            account_id: "acct".to_string(),
            timestamp: Timestamp { secs, nanos: 0 },
            payee: payee.to_string(),
            amount_cents: 999,
            currency: "USD".to_string(),
        });
        assert!(created.is_ok());
    }
    let rows: Vec<CsvRow> = vec![
        Ok(row("2024-01-20T00:00:00Z", "Power", 4550)),
        Ok(row("2024-01-10T00:00:00Z", "Rent", 120000)),
    ];
    assert_eq!(store.bulk_import("acct".to_string(), &rows).unwrap().imported, 2);

    let current = store.get_current_transactions();
    assert_eq!(current.len(), 3);
    assert!(!current.contains(&live("acct", 1705060800, "inside the span", 999)));
    assert!(current.contains(&live("acct", 1706745600, "after the span", 999)));
    assert!(current.contains(&live("acct", 1704844800, "Rent", 120000)));
    assert!(current.contains(&live("acct", 1705708800, "Power", 4550)));
    assert_eq!(
        store.get_all_transactions(),
        vec![
            past("acct", 1705060800, "inside the span", 999),
            past("acct", 1706745600, "after the span", 999),
            past("acct", 1705708800, "Power", 4550),
            past("acct", 1704844800, "Rent", 120000),
        ]
    );
}

#[test]
fn import_of_only_malformed_rows_changes_nothing() {
    let mut store = TransactionStore::new();
    let created = store.create_transaction(CreateTransactionRequest {
        account_id: "acct".to_string(),
        timestamp: Timestamp { secs: 1705060800, nanos: 0 },
        payee: "kept".to_string(),
        amount_cents: 1,
        currency: "USD".to_string(),
    });
    assert!(created.is_ok());
    let current_before = store.get_current_transactions();
    let all_before = store.get_all_transactions();
    let snapshot_before = (store.current_snapshot(), store.all_snapshot());

    let rows: Vec<CsvRow> = vec![Ok(row("bad", "a", 1)), Err("short row".to_string())];
    let result = store.bulk_import("acct".to_string(), &rows);
    assert_eq!(
        result.unwrap_err(),
        ApiError {
            message: "CSV parsing failed with 2 errors".to_string(),
            status: Status::BadRequest
        }
    );
    assert_eq!(store.get_current_transactions(), current_before);
    assert_eq!(store.get_all_transactions(), all_before);
    assert_eq!((store.current_snapshot(), store.all_snapshot()), snapshot_before);

    let result = store.bulk_import("new account".to_string(), &rows);
    assert_eq!(result.unwrap_err().status, Status::BadRequest);
    assert_eq!((store.current_snapshot(), store.all_snapshot()), snapshot_before);
}

#[test]
fn import_of_no_rows_opens_the_account() {
    let mut store = TransactionStore::new();
    let response = store.bulk_import("acct".to_string(), &vec![]).unwrap();
    assert_eq!(response.imported, 0);
    assert_eq!(response.duplicates, 0);
    assert!(response.errors.is_empty());
    assert!(store.get_current_transactions().is_empty());
    assert!(store.get_all_transactions().is_empty());
    assert_eq!(store.current_snapshot(), vec![("acct".to_string(), vec![])]);
    assert_eq!(store.all_snapshot(), vec![("acct".to_string(), vec![])]);
    // The account now has a history, though an empty one.
    assert_eq!(
        store.update_transaction_memo("acct".to_string(), key(1, "x", 1), None),
        Err(ApiError { message: "Transaction not found".to_string(), status: Status::NotFound })
    );
}

#[test]
fn import_read_keeps_the_messages_it_is_given() {
    let mut store = TransactionStore::new();
    let batch = vec![(key(5, "a", 1), live("acct", 5, "a", 1), past("acct", 5, "a", 1))];
    let response = store
        .import_read("acct".to_string(), batch, vec!["Row 9: x".to_string(), "Row 11: y".to_string()])
        .unwrap();
    assert_eq!(response.imported, 1);
    assert_eq!(response.duplicates, 0);
    assert_eq!(response.errors, vec!["Row 9: x".to_string(), "Row 11: y".to_string()]);

    let refused = store.import_read("acct".to_string(), vec![], vec!["only".to_string()]);
    assert_eq!(
        refused.unwrap_err(),
        ApiError {
            message: "CSV parsing failed with 1 errors".to_string(),
            status: Status::BadRequest
        }
    );
    let twelve: Vec<String> = (0..12).map(|i| format!("e{}", i)).collect();
    let refused = store.import_read("acct".to_string(), vec![], twelve);
    assert_eq!(refused.unwrap_err().message, "CSV parsing failed with 12 errors");
}

#[test]
fn amounts_round_to_the_nearest_cent_ties_away_from_zero() {
    assert_eq!(cents(10.005), 1001);
    assert_eq!(cents(10.004999), 1000);
    assert_eq!(cents(0.125), 13);
    assert_eq!(cents(-0.125), -13);
    assert_eq!(cents(19.99), 1999);
    assert_eq!(cents(-19.99), -1999);
    assert_eq!(cents(0.0), 0);

    // Amounts that round to the same cents are the same transaction; amounts
    // that round to different cents are not.
    let mut store = TransactionStore::new();
    let request = |amount: f64| CreateTransactionRequest {
        account_id: "acct".to_string(),
        timestamp: Timestamp { secs: 100, nanos: 0 },
        payee: "Coffee".to_string(),
        amount_cents: cents(amount),
        currency: "USD".to_string(),
    };
    assert_eq!(store.create_transaction(request(10.005)).unwrap().id.amount_cents, 1001);
    assert_eq!(store.create_transaction(request(10.004999)).unwrap().id.amount_cents, 1000);
    assert_eq!(store.create_transaction(request(10.0049)).unwrap_err().status, Status::Conflict);
    assert_eq!(store.create_transaction(request(10.0051)).unwrap_err().status, Status::Conflict);
}
