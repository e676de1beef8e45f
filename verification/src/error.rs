//! Errors reported by the library: a kind, a stable machine-readable code and
//! a structured detail payload.

use vstd::prelude::*;

verus! {

/// The category of an error.
#[derive(Debug, Clone, Copy, PartialEq, Eq, Structural)]
pub enum ErrorKind {
    /// A configuration value is missing or malformed.
    Config,
    /// A looked-up object does not exist.
    NotFound,
    /// Any other failure.
    Other,
}

/// Structured details attached to an error.
#[derive(Debug, Clone)]
pub enum ErrorDetail {
    /// No details: `{}`.
    Empty,
    /// `{ "err": message }`.
    Message(String),
    /// `{ "status": status }`.
    Status(u16),
    /// `{ "status": status, "msg": message }`.
    StatusMessage(u16, String),
    /// `{ "path": path, "depth": depth, "limit": limit }`.
    TreeTooDeep(String, u32, u32),
}

/// An application error.
#[derive(Debug, Clone)]
pub struct AppError {
    pub kind: ErrorKind,
    pub code: String,
    pub detail: ErrorDetail,
}

/// The mathematical value of an error's details.
pub enum DetailView {
    Empty,
    Message(Seq<char>),
    Status(u16),
    StatusMessage(u16, Seq<char>),
    TreeTooDeep(Seq<char>, u32, u32),
}

/// The value of `d`.
pub open spec fn detail_view(d: ErrorDetail) -> DetailView {
    match d {
        ErrorDetail::Empty => DetailView::Empty,
        ErrorDetail::Message(m) => DetailView::Message(m@),
        ErrorDetail::Status(s) => DetailView::Status(s),
        ErrorDetail::StatusMessage(s, m) => DetailView::StatusMessage(s, m@),
        ErrorDetail::TreeTooDeep(p, d, l) => DetailView::TreeTooDeep(p@, d, l),
    }
}

/// The code and details of `e`.
pub open spec fn err_view(e: AppError) -> (Seq<char>, DetailView) {
    (e.code@, detail_view(e.detail))
}

/// `e` has the given kind and code.
pub open spec fn error_is(e: AppError, kind: ErrorKind, code: Seq<char>) -> bool {
    e.kind == kind && e.code@ == code
}

/// `d` is `{}`.
pub open spec fn detail_is_empty(d: ErrorDetail) -> bool {
    d is Empty
}

/// `d` is `{ "err": msg }`.
pub open spec fn detail_is_message(d: ErrorDetail, msg: Seq<char>) -> bool {
    d matches ErrorDetail::Message(m) && m@ == msg
}

impl AppError {
    /// Builds an error of the given kind.
    pub fn new(kind: ErrorKind, code: &str, detail: ErrorDetail) -> (e: AppError)
        ensures
            e.kind == kind,
            e.code@ == code@,
            e.detail == detail,
    {
        AppError { kind, code: String::from_str(code), detail }
    }

    /// A configuration error.
    pub fn config(code: &str, detail: ErrorDetail) -> (e: AppError)
        ensures
            error_is(e, ErrorKind::Config, code@),
            e.detail == detail,
    {
        AppError::new(ErrorKind::Config, code, detail)
    }

    /// A not-found error.
    pub fn not_found(code: &str, detail: ErrorDetail) -> (e: AppError)
        ensures
            error_is(e, ErrorKind::NotFound, code@),
            e.detail == detail,
    {
        AppError::new(ErrorKind::NotFound, code, detail)
    }

    /// Any other error.
    pub fn other(code: &str, detail: ErrorDetail) -> (e: AppError)
        ensures
            error_is(e, ErrorKind::Other, code@),
            e.detail == detail,
    {
        AppError::new(ErrorKind::Other, code, detail)
    }

    /// The error's machine-readable code.
    pub fn code(&self) -> (c: &str)
        ensures
            c@ == self.code@,
    {
        self.code.as_str()
    }
}

} // verus!
