//! Stable error taxonomy shared by adapters.

use crate::text::join3;
use vstd::prelude::*;
use vstd::string::*;

verus! {

#[derive(Clone, Copy, Debug, Eq, PartialEq, Structural)]
pub enum ErrorCategory {
    InvalidArgument,
    InvalidState,
    Configuration,
    Authentication,
    Permission,
    Connection,
    Timeout,
    Protocol,
    RateLimited,
    Unavailable,
    Cancelled,
    Internal,
}

/// An error with a category for decisions, a stable code for programs and a message for people.
#[derive(Debug, Eq, PartialEq)]
pub struct VoxError {
    category: ErrorCategory,
    code: &'static str,
    message: String,
    retryable: bool,
}

impl Clone for VoxError {
    fn clone(&self) -> (r: Self)
        ensures
            r == *self,
    {
        VoxError {
            category: self.category,
            code: self.code,
            message: self.message.clone(),
            retryable: self.retryable,
        }
    }
}

impl VoxError {
    pub closed spec fn kind(self) -> ErrorCategory {
        self.category
    }

    pub closed spec fn code_text(self) -> Seq<char> {
        self.code@
    }

    pub closed spec fn message_text(self) -> Seq<char> {
        self.message@
    }

    pub closed spec fn retry(self) -> bool {
        self.retryable
    }

    /// The error says exactly this.
    pub open spec fn says(
        self,
        category: ErrorCategory,
        code: Seq<char>,
        message: Seq<char>,
        retryable: bool,
    ) -> bool {
        &&& self.kind() == category
        &&& self.code_text() == code
        &&& self.message_text() == message
        &&& self.retry() == retryable
    }

    pub fn new(category: ErrorCategory, code: &'static str, message: &str) -> (error: Self)
        ensures
            error.says(category, code@, message@, false),
    {
        VoxError { category, code, message: String::from_str(message), retryable: false }
    }

    pub fn category(&self) -> (r: ErrorCategory)
        ensures
            r == self.kind(),
    {
        self.category
    }

    pub fn code(&self) -> (r: &'static str)
        ensures
            r@ == self.code_text(),
    {
        self.code
    }

    pub fn message(&self) -> (r: &str)
        ensures
            r@ == self.message_text(),
    {
        self.message.as_str()
    }

    pub fn is_retryable(&self) -> (r: bool)
        ensures
            r == self.retry(),
    {
        self.retryable
    }

    pub fn with_retryable(self, retryable: bool) -> (error: Self)
        ensures
            error.says(self.kind(), self.code_text(), self.message_text(), retryable),
    {
        VoxError {
            category: self.category,
            code: self.code,
            message: self.message,
            retryable,
        }
    }

    /// The line that is shown for the error: its code and its message.
    pub fn to_text(&self) -> (r: String)
        ensures
            r@ == self.code_text() + ": "@ + self.message_text(),
    {
        join3(self.code, ": ", self.message.as_str())
    }
}

} // verus!
