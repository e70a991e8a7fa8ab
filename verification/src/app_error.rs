use vstd::prelude::*;
use vstd::string::StringExecFns;

verus! {

/// The failures an operation of this crate can end in.
#[derive(Debug, Clone, PartialEq, Eq)]
pub enum AppError {
    /// A referral code or an applicant was looked up and is not there.
    NotFound(String),
    /// The store refused an operation for a reason other than the expected
    /// duplicate of an idempotent insert.
    Database(String),
    /// Anything else that ends the current operation, a missing setting
    /// included.
    Internal(String),
    /// The mailing list service refused a request or could not be reached.
    Mailchimp(String),
}

/// An error as a mathematical value: its kind and its words.
pub enum AppErrorView {
    NotFound(Seq<char>),
    Database(Seq<char>),
    Internal(Seq<char>),
    Mailchimp(Seq<char>),
}

impl View for AppError {
    type V = AppErrorView;

    open spec fn view(&self) -> AppErrorView {
        match self {
            AppError::NotFound(text) => AppErrorView::NotFound(text@),
            AppError::Database(text) => AppErrorView::Database(text@),
            AppError::Internal(text) => AppErrorView::Internal(text@),
            AppError::Mailchimp(text) => AppErrorView::Mailchimp(text@),
        }
    }
}

/// The error for a resource that is looked up and is not there.
pub open spec fn resource_not_found() -> AppErrorView {
    AppErrorView::NotFound("Resource not found"@)
}

impl AppErrorView {
    /// The words of the error.
    pub open spec fn text(self) -> Seq<char> {
        match self {
            AppErrorView::NotFound(text) => text,
            AppErrorView::Database(text) => text,
            AppErrorView::Internal(text) => text,
            AppErrorView::Mailchimp(text) => text,
        }
    }
}

impl AppError {
    /// The words of the error, without its kind.
    pub fn message(&self) -> (text: String)
        ensures
            text@ == self@.text(),
    {
        match self {
            AppError::NotFound(text) => text.clone(),
            AppError::Database(text) => text.clone(),
            AppError::Internal(text) => text.clone(),
            AppError::Mailchimp(text) => text.clone(),
        }
    }

    /// The error for a resource that is looked up and is not there.
    pub fn not_found() -> (error: AppError)
        ensures
            error@ == resource_not_found(),
    {
        AppError::NotFound(String::from_str("Resource not found"))
    }
}

pub type AppResult<T> = Result<T, AppError>;

} // verus!
