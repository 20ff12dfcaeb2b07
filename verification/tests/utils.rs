use bytes::Bytes;
use transaction_store::text::{append_decimal, same_text};
use transaction_store::timestamp::timestamp_or_bad_request;
use transaction_store::utils::text_of_bytes;
use transaction_store::{
    get_required_param, handle_rejection, parse_csv_string, parse_timestamp, ApiError, Status,
    Timestamp,
};

fn bad_request(message: &str) -> ApiError {
    ApiError { message: message.to_string(), status: Status::BadRequest }
}

#[test]
fn timestamps_are_read_as_utc_instants() {
    assert_eq!(parse_timestamp("2024-01-15T10:30:00Z"), Ok(Timestamp { secs: 1705314600, nanos: 0 }));
    assert_eq!(parse_timestamp("1970-01-01T00:00:00Z"), Ok(Timestamp { secs: 0, nanos: 0 }));
    assert_eq!(parse_timestamp("1969-12-31T23:59:59Z"), Ok(Timestamp { secs: -1, nanos: 0 }));
    assert_eq!(
        parse_timestamp("2024-01-15T10:30:00+02:00"),
        Ok(Timestamp { secs: 1705307400, nanos: 0 })
    );
    assert_eq!(
        parse_timestamp("2024-01-15 10:30:00.000000001Z"),
        Ok(Timestamp { secs: 1705314600, nanos: 1 })
    );
}

#[test]
fn leap_second_keeps_its_second_and_runs_on_in_nanoseconds() {
    let leap = parse_timestamp("2016-12-31T23:59:60Z").unwrap();
    assert_eq!(leap, Timestamp { secs: 1483228799, nanos: 1_000_000_000 });
    let before = parse_timestamp("2016-12-31T23:59:59.999999999Z").unwrap();
    let after = parse_timestamp("2017-01-01T00:00:00Z").unwrap();
    assert!(before.is_before(leap));
    assert!(leap.is_before(after));
    assert!(leap.is_within(before, after));
}

#[test]
fn unreadable_timestamp_is_a_bad_request() {
    for text in ["", "yesterday", "2024-01-15", "2024-01-15T10:30:00", "2024-02-30T00:00:00Z"] {
        assert_eq!(parse_timestamp(text), Err(bad_request("Invalid timestamp format")));
    }
    assert_eq!(
        timestamp_or_bad_request(Err("anything".to_string())),
        Err(bad_request("Invalid timestamp format"))
    );
    assert_eq!(
        timestamp_or_bad_request(Ok(Timestamp { secs: 1, nanos: 2 })),
        Ok(Timestamp { secs: 1, nanos: 2 })
    );
}

#[test]
fn timestamps_order_by_seconds_then_nanoseconds() {
    let a = Timestamp { secs: 10, nanos: 5 };
    let b = Timestamp { secs: 10, nanos: 6 };
    let c = Timestamp { secs: 11, nanos: 0 };
    let d = Timestamp { secs: -3, nanos: 999_999_999 };
    assert!(a.is_before(b) && b.is_before(c) && a.is_before(c) && d.is_before(a));
    assert!(!b.is_before(a) && !c.is_before(b) && !a.is_before(a));
    assert!(a.is_within(a, a));
    assert!(b.is_within(a, c) && a.is_within(a, c) && c.is_within(a, c));
    assert!(!d.is_within(a, c) && !c.is_within(a, b) && !b.is_within(c, a));
}

#[test]
fn body_bytes_become_text() {
    assert_eq!(
        parse_csv_string(Bytes::from_static(b"timestamp,payee\n2024-01-15T10:30:00Z,Coffee\n")),
        Ok("timestamp,payee\n2024-01-15T10:30:00Z,Coffee\n".to_string())
    );
    assert_eq!(parse_csv_string(Bytes::new()), Ok(String::new()));
    assert_eq!(
        parse_csv_string(Bytes::from("Caf\u{e9} \u{20ac}5 \u{1f600}".to_string())),
        Ok("Caf\u{e9} \u{20ac}5 \u{1f600}".to_string())
    );
    assert_eq!(text_of_bytes(vec![0x68, 0x69]), Ok("hi".to_string()));
}

#[test]
fn body_that_is_not_utf8_is_a_bad_request() {
    let wrong: [&[u8]; 4] = [&[0xff], &[0x61, 0x80], &[0xc3], &[0xed, 0xa0, 0x80]];
    for bytes in wrong {
        assert_eq!(
            parse_csv_string(Bytes::copy_from_slice(bytes)),
            Err(bad_request("Invalid UTF-8 in CSV"))
        );
        assert_eq!(text_of_bytes(bytes.to_vec()), Err(bad_request("Invalid UTF-8 in CSV")));
    }
}

#[test]
fn required_parameter_is_found_by_name() {
    let params = vec![
        ("timestamp".to_string(), "2024-01-15T10:30:00Z".to_string()),
        ("amount".to_string(), "10.50".to_string()),
        ("payee".to_string(), "".to_string()),
        ("amount".to_string(), "second".to_string()),
    ];
    assert_eq!(get_required_param(&params, "timestamp"), Ok("2024-01-15T10:30:00Z".to_string()));
    assert_eq!(get_required_param(&params, "amount"), Ok("10.50".to_string()));
    assert_eq!(get_required_param(&params, "payee"), Ok(String::new()));
}

#[test]
fn missing_parameter_is_a_bad_request() {
    let params = vec![("amount".to_string(), "1".to_string())];
    assert_eq!(get_required_param(&params, "currency"), Err(bad_request("Missing currency parameter")));
    assert_eq!(get_required_param(&params, "Amount"), Err(bad_request("Missing Amount parameter")));
    assert_eq!(get_required_param(&params, "amoun"), Err(bad_request("Missing amoun parameter")));
    assert_eq!(get_required_param(&vec![], ""), Err(bad_request("Missing  parameter")));
}

#[test]
fn texts_compare_character_by_character() {
    assert!(same_text("", ""));
    assert!(same_text("payee", "payee"));
    assert!(same_text("Caf\u{e9}", "Caf\u{e9}"));
    assert!(!same_text("payee", "payer"));
    assert!(!same_text("payee", "paye"));
    assert!(!same_text("", " "));
    assert!(!same_text("Caf\u{e9}", "Cafe"));
}

fn decimal_text(n: u128) -> String {
    let mut text = String::new();
    append_decimal(&mut text, n);
    text
}

#[test]
fn numbers_are_written_in_decimal() {
    assert_eq!(decimal_text(0), "0");
    assert_eq!(decimal_text(7), "7");
    assert_eq!(decimal_text(10), "10");
    assert_eq!(decimal_text(1234567890), "1234567890");
    assert_eq!(decimal_text(u128::MAX), "340282366920938463463374607431768211455");
    let mut text = "n = ".to_string();
    append_decimal(&mut text, 42);
    assert_eq!(text, "n = 42");
}

#[test]
fn status_codes() {
    assert_eq!(Status::BadRequest.code(), 400);
    assert_eq!(Status::NotFound.code(), 404);
    assert_eq!(Status::Conflict.code(), 409);
    assert_eq!(Status::InternalServerError.code(), 500);
}

#[test]
fn rejection_passes_the_store_error_on() {
    let error = ApiError { message: "Transaction already exists".to_string(), status: Status::Conflict };
    for not_found in [false, true] {
        let reply = handle_rejection(Some(&error), not_found);
        assert_eq!(reply.error, "Transaction already exists");
        assert_eq!(reply.status, Status::Conflict);
    }
}

#[test]
fn rejection_without_store_error() {
    let reply = handle_rejection(None, true);
    assert_eq!(reply.error, "Not found");
    assert_eq!(reply.status, Status::NotFound);
    let reply = handle_rejection(None, false);
    assert_eq!(reply.error, "Internal server error");
    assert_eq!(reply.status, Status::InternalServerError);
}
