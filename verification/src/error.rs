//! Failures that the store reports to its callers.

use vstd::prelude::*;
use vstd::std_specs::cmp::PartialEqSpecImpl;

verus! {

/// The kind of a failure, named after the HTTP status it is reported with.
#[derive(Clone, Copy, Debug, PartialEq, Eq, Structural)]
pub enum Status {
    BadRequest,
    NotFound,
    Conflict,
    InternalServerError,
}

impl Status {
    /// The numeric HTTP status code of this kind.
    pub open spec fn spec_code(self) -> u16 {
        match self {
            Status::BadRequest => 400,
            Status::NotFound => 404,
            Status::Conflict => 409,
            Status::InternalServerError => 500,
        }
    }

    /// The numeric HTTP status code of this kind.
    #[verifier::when_used_as_spec(spec_code)]
    pub fn code(self) -> (c: u16)
        ensures
            c == self.spec_code(),
    {
        match self {
            Status::BadRequest => 400,
            Status::NotFound => 404,
            Status::Conflict => 409,
            Status::InternalServerError => 500,
        }
    }
}

/// A failed operation: what went wrong, and of which kind the failure is.
#[derive(Debug)]
pub struct ApiError {
    pub message: String,
    pub status: Status,
}

/// The mathematical content of an [`ApiError`].
pub struct ApiErrorView {
    pub message: Seq<char>,
    pub status: Status,
}

impl View for ApiError {
    type V = ApiErrorView;

    open spec fn view(&self) -> ApiErrorView {
        ApiErrorView { message: self.message@, status: self.status }
    }
}

impl Clone for ApiError {
    fn clone(&self) -> (r: Self)
        ensures
            r == *self,
    {
        ApiError { message: self.message.clone(), status: self.status }
    }
}

impl PartialEq for ApiError {
    fn eq(&self, other: &Self) -> (r: bool) {
        self.message == other.message && self.status == other.status
    }
}

impl Eq for ApiError {

}

impl PartialEqSpecImpl for ApiError {
    open spec fn obeys_eq_spec() -> bool {
        true
    }

    open spec fn eq_spec(&self, other: &Self) -> bool {
        self@ == other@
    }
}

impl ApiError {
    /// The content of an error with the given message and kind.
    pub open spec fn spec_new(message: Seq<char>, status: Status) -> ApiErrorView {
        ApiErrorView { message, status }
    }

    /// An error with the given message and kind.
    pub fn new(message: &str, status: Status) -> (e: ApiError)
        ensures
            e@ == Self::spec_new(message@, status),
    {
        ApiError { message: message.to_owned(), status }
    }
}

/// The body and status of the response that reports a failed request.
#[derive(Debug)]
pub struct ErrorReply {
    pub error: String,
    pub status: Status,
}

/// What is answered to a request that was turned away.
///
/// `api_error` is the store's own error if the request was turned away with
/// one; `is_not_found` says whether no route matched the request.
pub open spec fn rejection_reply(api_error: Option<ApiErrorView>, is_not_found: bool) -> (
    Seq<char>,
    Status,
) {
    match api_error {
        Some(e) => (e.message, e.status),
        None => if is_not_found {
            ("Not found"@, Status::NotFound)
        } else {
            ("Internal server error"@, Status::InternalServerError)
        },
    }
}

/// Chooses the reply for a request that was turned away: the store's own
/// error is passed on as it is, an unknown route is reported as not found,
/// and anything else as an internal error.
pub fn handle_rejection(api_error: Option<&ApiError>, is_not_found: bool) -> (reply: ErrorReply)
    ensures
        (reply.error@, reply.status) == rejection_reply(
            match api_error {
                Some(e) => Some(e@),
                None => None,
            },
            is_not_found,
        ),
{
    match api_error {
        Some(e) => ErrorReply { error: e.message.clone(), status: e.status },
        None => if is_not_found {
            ErrorReply { error: "Not found".to_owned(), status: Status::NotFound }
        } else {
            ErrorReply {
                error: "Internal server error".to_owned(),
                status: Status::InternalServerError,
            }
        },
    }
}

} // verus!
