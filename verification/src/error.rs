//! The error that a terminal request is refused with.

use vstd::prelude::*;

verus! {

/// Why a request is refused. Each variant carries the message for the caller.
#[derive(Debug)]
pub enum AppError {
    NotFound(String),
    Unauthorized(String),
    Conflict(String),
    TooManyRequests(String),
    BadRequest(String),
    Internal(String),
}

/// An `AppError`, its message as characters.
pub enum AppErrorView {
    NotFound(Seq<char>),
    Unauthorized(Seq<char>),
    Conflict(Seq<char>),
    TooManyRequests(Seq<char>),
    BadRequest(Seq<char>),
    Internal(Seq<char>),
}

impl AppErrorView {
    /// The message that the error carries.
    pub open spec fn message(self) -> Seq<char> {
        match self {
            AppErrorView::NotFound(m) => m,
            AppErrorView::Unauthorized(m) => m,
            AppErrorView::Conflict(m) => m,
            AppErrorView::TooManyRequests(m) => m,
            AppErrorView::BadRequest(m) => m,
            AppErrorView::Internal(m) => m,
        }
    }
}

impl View for AppError {
    type V = AppErrorView;

    open spec fn view(&self) -> AppErrorView {
        match self {
            AppError::NotFound(m) => AppErrorView::NotFound(m@),
            AppError::Unauthorized(m) => AppErrorView::Unauthorized(m@),
            AppError::Conflict(m) => AppErrorView::Conflict(m@),
            AppError::TooManyRequests(m) => AppErrorView::TooManyRequests(m@),
            AppError::BadRequest(m) => AppErrorView::BadRequest(m@),
            AppError::Internal(m) => AppErrorView::Internal(m@),
        }
    }
}

impl AppError {
    /// The message that the error carries.
    pub fn to_string(&self) -> (message: String)
        ensures
            message@ == self@.message(),
    {
        match self {
            AppError::NotFound(m) => m.clone(),
            AppError::Unauthorized(m) => m.clone(),
            AppError::Conflict(m) => m.clone(),
            AppError::TooManyRequests(m) => m.clone(),
            AppError::BadRequest(m) => m.clone(),
            AppError::Internal(m) => m.clone(),
        }
    }
}

} // verus!
