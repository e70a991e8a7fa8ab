use vstd::prelude::*;
use vstd::string::StringExecFns;
use crate::app_error::{AppError, AppErrorView, AppResult};
use crate::entities::mailchimp::{email_hash, email_to_hash, MailchimpErrorResponse};
use crate::infrastructure::mailchimp::{base_url_of, MailchimpConfig};

verus! {

/// The address of the member with `email` in the list of `config`.
pub open spec fn member_url_of(config: MailchimpConfig, email: Seq<char>) -> Seq<char> {
    base_url_of(config.server_prefix@) + "/lists/"@ + config.list_id@ + "/members/"@ + email_hash(
        email,
    )
}

/// The address under which the list keeps the member with `email`.
pub fn get_member_url(config: &MailchimpConfig, email: &str) -> (url: String)
    ensures
        url@ == member_url_of(*config, email@),
{
    let email_hash = email_to_hash(email);
    config.base_url().concat("/lists/").concat(config.list_id.as_str()).concat("/members/").concat(
        email_hash.as_str(),
    )
}

/// Whether a status code stands for success: 200 up to 299.
pub open spec fn is_success(status: u16) -> bool {
    200 <= status < 300
}

/// What was read of the body of an answer.
pub enum MailchimpBody {
    /// The body of a member.
    Member,
    /// The body of an error.
    Failure(MailchimpErrorResponse),
    /// Neither could be read; these are the words of the parser.
    Unreadable(String),
}

/// The words for an answer that says no more than its status.
pub open spec fn status_failure_text() -> Seq<char> {
    "API error: HTTP "@
}

/// The error for an answer of success whose body is not that of a member:
/// with the words of the parser where it could not be read at all.
pub open spec fn unparsed(body: MailchimpBody) -> AppErrorView {
    match body {
        MailchimpBody::Unreadable(words) => AppErrorView::Internal(
            "Failed to parse Mailchimp response: "@ + words@,
        ),
        _ => AppErrorView::Internal("Failed to parse Mailchimp response: not a member"@),
    }
}

/// The error for a refusal: with the detail that the service gave, or with
/// the status where it gave none.
pub open spec fn refusal(body: MailchimpBody, status_text: Seq<char>) -> AppErrorView {
    match body {
        MailchimpBody::Failure(failure) => AppErrorView::Mailchimp(failure.detail@),
        _ => AppErrorView::Mailchimp(status_failure_text() + status_text),
    }
}

/// Judges the answer to adding or updating a member. Success needs a status
/// of success and the body of a member; a body that cannot be read is
/// reported with the words of the parser; a refusal is reported with the
/// detail that the service gave, or with the status where it gave none.
pub fn upsert_outcome(status: u16, status_text: &str, body: MailchimpBody) -> (result: AppResult<()>)
    ensures
        result is Ok <==> is_success(status) && body is Member,
        is_success(status) && !(body is Member) ==> (result matches Err(e) && e@ == unparsed(
            body,
        )),
        !is_success(status) ==> (result matches Err(e) && e@ == refusal(body, status_text@)),
{
    if 200 <= status && status < 300 {
        match body {
            MailchimpBody::Member => Ok(()),
            MailchimpBody::Unreadable(words) => Err(
                AppError::Internal(
                    String::from_str("Failed to parse Mailchimp response: ").concat(
                        words.as_str(),
                    ),
                ),
            ),
            MailchimpBody::Failure(_) => Err(
                AppError::Internal(
                    String::from_str("Failed to parse Mailchimp response: not a member"),
                ),
            ),
        }
    } else {
        match body {
            MailchimpBody::Failure(failure) => Err(AppError::Mailchimp(failure.detail)),
            _ => Err(
                AppError::Mailchimp(String::from_str("API error: HTTP ").concat(status_text)),
            ),
        }
    }
}

/// Judges the answer to removing a member. A member that is not there counts
/// as removed.
pub fn delete_outcome(status: u16, status_text: &str, body: MailchimpBody) -> (result: AppResult<()>)
    ensures
        result is Ok <==> is_success(status) || status == 404,
        !(is_success(status) || status == 404) ==> (result matches Err(e) && e@ == refusal(
            body,
            status_text@,
        )),
{
    if (200 <= status && status < 300) || status == 404 {
        Ok(())
    } else {
        match body {
            MailchimpBody::Failure(failure) => Err(AppError::Mailchimp(failure.detail)),
            _ => Err(
                AppError::Mailchimp(String::from_str("API error: HTTP ").concat(status_text)),
            ),
        }
    }
}

} // verus!
