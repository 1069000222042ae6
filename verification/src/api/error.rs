//! What a request fails with.

use vstd::prelude::*;

verus! {

/// What a request fails with.
#[derive(Debug)]
pub enum ApiError {
    BadRequest(String),
    Conflict(String),
    Internal(String),
    NotFound(String),
    NotImplemented(String),
}

/// What a request fails with.
pub enum ErrorView {
    BadRequest(Seq<char>),
    Conflict(Seq<char>),
    Internal(Seq<char>),
    NotFound(Seq<char>),
    NotImplemented(Seq<char>),
}

impl View for ApiError {
    type V = ErrorView;

    open spec fn view(&self) -> ErrorView {
        match self {
            ApiError::BadRequest(s) => ErrorView::BadRequest(s@),
            ApiError::Conflict(s) => ErrorView::Conflict(s@),
            ApiError::Internal(s) => ErrorView::Internal(s@),
            ApiError::NotFound(s) => ErrorView::NotFound(s@),
            ApiError::NotImplemented(s) => ErrorView::NotImplemented(s@),
        }
    }
}

} // verus!
