//! The reasons a request is refused, and how contracts speak of them.

use vstd::prelude::*;

verus! {

/// Why a request is not carried out. The text is what the caller is told.
#[derive(Debug)]
pub enum AppError {
    Validation(String),
    Forbidden(String),
    NotFound(String),
    Conflict(String),
    Unauthorized(String),
    TooManyRequests(String),
    Unavailable(String),
    Config(String),
    Other(String),
}

/// A refusal as contracts see it.
#[verifier::ext_equal]
pub enum Refusal {
    Validation(Seq<char>),
    Forbidden(Seq<char>),
    NotFound(Seq<char>),
    Conflict(Seq<char>),
    Unauthorized(Seq<char>),
    TooManyRequests(Seq<char>),
    Unavailable(Seq<char>),
    Config(Seq<char>),
    Other(Seq<char>),
}

impl View for AppError {
    type V = Refusal;

    open spec fn view(&self) -> Refusal {
        match self {
            AppError::Validation(m) => Refusal::Validation(m@),
            AppError::Forbidden(m) => Refusal::Forbidden(m@),
            AppError::NotFound(m) => Refusal::NotFound(m@),
            AppError::Conflict(m) => Refusal::Conflict(m@),
            AppError::Unauthorized(m) => Refusal::Unauthorized(m@),
            AppError::TooManyRequests(m) => Refusal::TooManyRequests(m@),
            AppError::Unavailable(m) => Refusal::Unavailable(m@),
            AppError::Config(m) => Refusal::Config(m@),
            AppError::Other(m) => Refusal::Other(m@),
        }
    }
}

/// What was refused, where anything was.
pub open spec fn refusal<T>(r: Result<T, AppError>) -> Option<Refusal> {
    match r {
        Ok(_) => None,
        Err(e) => Some(e@),
    }
}

/// What the caller is told.
pub open spec fn told(e: Refusal) -> Seq<char> {
    match e {
        Refusal::Validation(m) => m,
        Refusal::Forbidden(m) => m,
        Refusal::NotFound(m) => m,
        Refusal::Conflict(m) => m,
        Refusal::Unauthorized(m) => m,
        Refusal::TooManyRequests(m) => m,
        Refusal::Unavailable(m) => m,
        Refusal::Config(m) => m,
        Refusal::Other(m) => m,
    }
}

impl AppError {
    /// What the caller is told.
    pub fn text(&self) -> (r: &str)
        ensures
            r@ == told(self@),
    {
        match self {
            AppError::Validation(m) => m.as_str(),
            AppError::Forbidden(m) => m.as_str(),
            AppError::NotFound(m) => m.as_str(),
            AppError::Conflict(m) => m.as_str(),
            AppError::Unauthorized(m) => m.as_str(),
            AppError::TooManyRequests(m) => m.as_str(),
            AppError::Unavailable(m) => m.as_str(),
            AppError::Config(m) => m.as_str(),
            AppError::Other(m) => m.as_str(),
        }
    }
}

pub fn validation(m: &str) -> (e: AppError)
    ensures
        e@ == Refusal::Validation(m@),
{
    AppError::Validation(m.to_owned())
}

pub fn forbidden(m: &str) -> (e: AppError)
    ensures
        e@ == Refusal::Forbidden(m@),
{
    AppError::Forbidden(m.to_owned())
}

pub fn not_found(m: &str) -> (e: AppError)
    ensures
        e@ == Refusal::NotFound(m@),
{
    AppError::NotFound(m.to_owned())
}

pub fn conflict(m: &str) -> (e: AppError)
    ensures
        e@ == Refusal::Conflict(m@),
{
    AppError::Conflict(m.to_owned())
}

/// A refusal is of the kind of its error and tells what the error says; what went well has none.
pub proof fn refusals_tell_what_was_said(m: String)
    ensures
        AppError::Validation(m)@ == Refusal::Validation(m@),
        AppError::Forbidden(m)@ == Refusal::Forbidden(m@),
        AppError::NotFound(m)@ == Refusal::NotFound(m@),
        AppError::Conflict(m)@ == Refusal::Conflict(m@),
        AppError::Unauthorized(m)@ == Refusal::Unauthorized(m@),
        AppError::TooManyRequests(m)@ == Refusal::TooManyRequests(m@),
        AppError::Unavailable(m)@ == Refusal::Unavailable(m@),
        AppError::Config(m)@ == Refusal::Config(m@),
        AppError::Other(m)@ == Refusal::Other(m@),
        told(Refusal::Validation(m@)) == m@,
        told(Refusal::Forbidden(m@)) == m@,
        told(Refusal::NotFound(m@)) == m@,
        told(Refusal::Conflict(m@)) == m@,
        told(Refusal::Unauthorized(m@)) == m@,
        told(Refusal::TooManyRequests(m@)) == m@,
        told(Refusal::Unavailable(m@)) == m@,
        told(Refusal::Config(m@)) == m@,
        told(Refusal::Other(m@)) == m@,
{
}

/// A result is refused with its error, and not refused where it is none.
pub proof fn results_are_refused_or_not<T>(v: T, e: AppError)
    ensures
        refusal(Ok::<T, AppError>(v)) is None,
        refusal(Err::<T, AppError>(e)) == Some(e@),
{
}

} // verus!
