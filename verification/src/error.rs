//! The errors that requests are answered with.

use vstd::prelude::*;

verus! {

/// Why a request was refused or failed.
#[derive(Debug)]
pub enum AppError {
    /// The caller is not known.
    Auth(String),
    /// The request itself is at fault.
    BadRequest(String),
    /// The caller may not do this.
    Forbidden(String),
    /// What the request names does not exist.
    NotFound(String),
    /// The request does not fit what is stored.
    Conflict(String),
    /// Another server did not answer as it should.
    BadGateway(String),
    /// This server is at fault.
    Internal(String),
}

/// An error as its kind and its message.
pub ghost enum ErrorView {
    Auth(Seq<char>),
    BadRequest(Seq<char>),
    Forbidden(Seq<char>),
    NotFound(Seq<char>),
    Conflict(Seq<char>),
    BadGateway(Seq<char>),
    Internal(Seq<char>),
}

impl View for AppError {
    type V = ErrorView;

    open spec fn view(&self) -> ErrorView {
        match self {
            AppError::Auth(m) => ErrorView::Auth(m@),
            AppError::BadRequest(m) => ErrorView::BadRequest(m@),
            AppError::Forbidden(m) => ErrorView::Forbidden(m@),
            AppError::NotFound(m) => ErrorView::NotFound(m@),
            AppError::Conflict(m) => ErrorView::Conflict(m@),
            AppError::BadGateway(m) => ErrorView::BadGateway(m@),
            AppError::Internal(m) => ErrorView::Internal(m@),
        }
    }
}

impl AppError {
    pub fn auth(message: &str) -> (r: AppError)
        ensures
            r@ == ErrorView::Auth(message@),
    {
        AppError::Auth(message.to_owned())
    }

    pub fn bad_request(message: &str) -> (r: AppError)
        ensures
            r@ == ErrorView::BadRequest(message@),
    {
        AppError::BadRequest(message.to_owned())
    }

    pub fn forbidden(message: &str) -> (r: AppError)
        ensures
            r@ == ErrorView::Forbidden(message@),
    {
        AppError::Forbidden(message.to_owned())
    }

    pub fn not_found(message: &str) -> (r: AppError)
        ensures
            r@ == ErrorView::NotFound(message@),
    {
        AppError::NotFound(message.to_owned())
    }

    pub fn conflict(message: &str) -> (r: AppError)
        ensures
            r@ == ErrorView::Conflict(message@),
    {
        AppError::Conflict(message.to_owned())
    }

    pub fn internal(message: &str) -> (r: AppError)
        ensures
            r@ == ErrorView::Internal(message@),
    {
        AppError::Internal(message.to_owned())
    }

    /// The HTTP status that answers a request which ended in this error.
    pub fn status_code(&self) -> (r: u16)
        ensures
            r == (match self@ {
                ErrorView::Auth(_) => 401u16,
                ErrorView::BadRequest(_) => 400u16,
                ErrorView::Forbidden(_) => 403u16,
                ErrorView::NotFound(_) => 404u16,
                ErrorView::Conflict(_) => 409u16,
                ErrorView::BadGateway(_) => 502u16,
                ErrorView::Internal(_) => 500u16,
            }),
    {
        match self {
            AppError::Auth(_) => 401,
            AppError::BadRequest(_) => 400,
            AppError::Forbidden(_) => 403,
            AppError::NotFound(_) => 404,
            AppError::Conflict(_) => 409,
            AppError::BadGateway(_) => 502,
            AppError::Internal(_) => 500,
        }
    }
}

} // verus!
