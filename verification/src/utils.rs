//! Small readers for what a request carries: its query parameters and the
//! bytes of its body.

use vstd::prelude::*;
use vstd::utf8::{decode_utf8, valid_utf8};
use crate::error::{ApiError, ApiErrorView, Status};
use crate::text::same_text;
use crate::types::views;

verus! {

/// Pair `i` is the first of `params` with the name `key`.
pub open spec fn is_first_param(
    params: Seq<(Seq<char>, Seq<char>)>,
    key: Seq<char>,
    i: int,
) -> bool {
    &&& 0 <= i < params.len()
    &&& params[i].0 == key
    &&& forall|j: int| 0 <= j < i ==> (#[trigger] params[j]).0 != key
}

/// Some pair of `params` has the name `key`.
pub open spec fn has_param(params: Seq<(Seq<char>, Seq<char>)>, key: Seq<char>) -> bool {
    exists|i: int| 0 <= i < params.len() && (#[trigger] params[i]).0 == key
}

/// The index of the first pair of `params` with the name `key`.
pub open spec fn first_param(params: Seq<(Seq<char>, Seq<char>)>, key: Seq<char>) -> int {
    choose|i: int| is_first_param(params, key, i)
}

/// The error that answers a request without the parameter `key`.
pub open spec fn missing_parameter(key: Seq<char>) -> ApiErrorView {
    ApiError::spec_new("Missing "@ + key + " parameter"@, Status::BadRequest)
}

/// The value of the query parameter `key`: that of the first pair with this
/// name. Fails with a bad request exactly if no pair has the name.
pub fn get_required_param(params: &Vec<(String, String)>, key: &str) -> (r: Result<
    String,
    ApiError,
>)
    ensures
        match r {
            Ok(value) => has_param(views(params@), key@) && value@ == views(params@)[first_param(
                views(params@),
                key@,
            )].1,
            Err(e) => !has_param(views(params@), key@) && e@ == missing_parameter(key@),
        },
{
    let ghost pairs = views(params@);
    let mut i: usize = 0;
    while i < params.len()
        invariant
            i <= params.len(),
            pairs == views(params@),
            forall|j: int| 0 <= j < i ==> (#[trigger] pairs[j]).0 != key@,
        decreases params.len() - i,
    {
        if same_text(params[i].0.as_str(), key) {
            proof {
                let at = first_param(pairs, key@);
                assert(is_first_param(pairs, key@, i as int));
                assert(is_first_param(pairs, key@, at));
                assert(at == i);
            }
            return Ok(params[i].1.clone());
        }
        i += 1;
    }
    let mut message = "Missing ".to_owned();
    message.append(key);
    message.append(" parameter");
    Err(ApiError { message, status: Status::BadRequest })
}

/// What a byte buffer holds.
pub uninterp spec fn bytes_content(data: bytes::Bytes) -> Seq<u8>;

#[verifier::external_type_specification]
#[verifier::external_body]
pub struct ExBytes(bytes::Bytes);

/// Copies the bytes out of a buffer: `to_vec` on the slice that
/// `bytes::Bytes` dereferences to.
///
/// Trusted: that the vector holds the buffer's content, byte for byte.
#[verifier::external_body]
fn bytes_to_vec(data: &bytes::Bytes) -> (v: Vec<u8>)
    ensures
        v@ == bytes_content(*data),
{
    data.to_vec()
}

/// Makes a string of bytes with std's `String::from_utf8`.
///
/// Trusted: that the call succeeds exactly on well-formed UTF-8, and that
/// the string then holds the characters that the bytes encode.
#[verifier::external_body]
fn string_from_utf8(bytes: Vec<u8>) -> (r: Option<String>)
    ensures
        match r {
            Some(text) => valid_utf8(bytes@) && text@ == decode_utf8(bytes@),
            None => !valid_utf8(bytes@),
        },
{
    match String::from_utf8(bytes) {
        Ok(text) => Some(text),
        Err(_) => None,
    }
}

/// The error that answers a body which is not text.
pub open spec fn invalid_utf8() -> ApiErrorView {
    ApiError::spec_new("Invalid UTF-8 in CSV"@, Status::BadRequest)
}

/// The text that the bytes of a body encode. Fails with a bad request
/// exactly if the bytes are not well-formed UTF-8.
pub fn text_of_bytes(bytes: Vec<u8>) -> (r: Result<String, ApiError>)
    ensures
        match r {
            Ok(text) => valid_utf8(bytes@) && text@ == decode_utf8(bytes@),
            Err(e) => !valid_utf8(bytes@) && e@ == invalid_utf8(),
        },
{
    match string_from_utf8(bytes) {
        Some(text) => Ok(text),
        None => Err(ApiError::new("Invalid UTF-8 in CSV", Status::BadRequest)),
    }
}

/// The text of an uploaded file. Fails with a bad request exactly if the
/// buffer does not hold well-formed UTF-8.
pub fn parse_csv_string(csv_data: bytes::Bytes) -> (r: Result<String, ApiError>)
    ensures
        match r {
            Ok(text) => valid_utf8(bytes_content(csv_data)) && text@ == decode_utf8(
                bytes_content(csv_data),
            ),
            Err(e) => !valid_utf8(bytes_content(csv_data)) && e@ == invalid_utf8(),
        },
{
    text_of_bytes(bytes_to_vec(&csv_data))
}

} // verus!
