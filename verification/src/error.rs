//! The failures the service answers a request with: a status code and a
//! message.
use vstd::prelude::*;

verus! {

/// The status codes the service answers with.
#[derive(Clone, Copy, Debug, PartialEq, Eq, Structural)]
pub enum StatusCode {
    InvalidArgument,
    NotFound,
    Internal,
    Unauthenticated,
}

/// A refused or failed request.
#[derive(Clone, Debug)]
pub struct ServiceError {
    pub code: StatusCode,
    pub message: String,
}

impl ServiceError {
    /// An error with `code` and `message`.
    pub fn new(code: StatusCode, message: &str) -> (r: ServiceError)
        ensures
            r.code == code,
            r.message@ == message@,
    {
        ServiceError { code, message: String::from_str(message) }
    }

}

/// The contents of a [`ServiceError`].
pub struct ErrorView {
    pub code: StatusCode,
    pub message: Seq<char>,
}

impl View for ServiceError {
    type V = ErrorView;

    open spec fn view(&self) -> ErrorView {
        ErrorView { code: self.code, message: self.message@ }
    }
}

/// An error with `code` and `message`.
pub open spec fn error_view(code: StatusCode, message: Seq<char>) -> ErrorView {
    ErrorView { code, message }
}

} // verus!
