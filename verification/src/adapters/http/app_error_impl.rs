use vstd::prelude::*;
use vstd::string::StringExecFns;
use crate::app_error::AppError;

verus! {

/// The status code with which an error is answered.
pub open spec fn status_of(error: AppError) -> u16 {
    match error {
        AppError::NotFound(_) => 404,
        AppError::Database(_) => 500,
        AppError::Internal(_) => 500,
        AppError::Mailchimp(_) => 502,
    }
}

/// The words with which an error is answered. What went wrong inside stays
/// inside: a failure of the store or of the engine is answered in general
/// words; a missing resource and a refusal of the mailing list are answered
/// with their own.
pub open spec fn message_of(error: AppError) -> Seq<char> {
    match error {
        AppError::NotFound(text) => text@,
        AppError::Database(_) => "Database exception"@,
        AppError::Internal(_) => "Internal server error"@,
        AppError::Mailchimp(text) => text@,
    }
}

/// The body of the answer to a request that failed.
#[derive(Debug)]
pub struct ErrorResponse {
    pub status: u16,
    pub message: String,
}

/// The answer to a request that ended in `error`.
pub fn error_response(error: AppError) -> (response: ErrorResponse)
    ensures
        response.status == status_of(error),
        response.message@ == message_of(error),
{
    match error {
        AppError::NotFound(text) => ErrorResponse { status: 404, message: text },
        AppError::Database(_) => ErrorResponse {
            status: 500,
            message: String::from_str("Database exception"),
        },
        AppError::Internal(_) => ErrorResponse {
            status: 500,
            message: String::from_str("Internal server error"),
        },
        AppError::Mailchimp(text) => ErrorResponse { status: 502, message: text },
    }
}

} // verus!
