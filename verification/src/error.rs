//! Return codes of the C interface, and the error type that they stand for.

use vstd::prelude::*;

verus! {

pub const ARES_ABI_VERSION: i32 = 1;

pub const ARES_OK: i32 = 0;

pub const ARES_STATUS_TRUNCATED: i32 = 1;

pub const ARES_ERROR_NULL_POINTER: i32 = -1;

pub const ARES_ERROR_INVALID_LENGTH: i32 = -2;

pub const ARES_ERROR_BACKEND: i32 = -3;

/// What can go wrong in a call of the C interface.
#[derive(Debug)]
pub enum AresError {
    NullPointer,
    InvalidLength(String),
    Backend(String),
}

impl AresError {
    /// The return code of the error.
    pub open spec fn return_code(self) -> i32 {
        match self {
            AresError::NullPointer => ARES_ERROR_NULL_POINTER,
            AresError::InvalidLength(_) => ARES_ERROR_INVALID_LENGTH,
            AresError::Backend(_) => ARES_ERROR_BACKEND,
        }
    }

    /// The message of the error.
    pub open spec fn text(self) -> Seq<char> {
        match self {
            AresError::NullPointer => "null output pointer"@,
            AresError::InvalidLength(message) => message@,
            AresError::Backend(message) => message@,
        }
    }

    /// An error about the length of a buffer.
    pub fn invalid_length(message: &str) -> (r: Self)
        ensures
            r is InvalidLength,
            r.text() == message@,
    {
        AresError::InvalidLength(message.to_string())
    }

    /// An error of a backend.
    pub fn backend(message: &str) -> (r: Self)
        ensures
            r is Backend,
            r.text() == message@,
    {
        AresError::Backend(message.to_string())
    }

    /// The return code of the error.
    pub fn code(&self) -> (r: i32)
        ensures
            r == self.return_code(),
    {
        match self {
            AresError::NullPointer => ARES_ERROR_NULL_POINTER,
            AresError::InvalidLength(_) => ARES_ERROR_INVALID_LENGTH,
            AresError::Backend(_) => ARES_ERROR_BACKEND,
        }
    }

    /// The message of the error.
    pub fn message(&self) -> (r: &str)
        ensures
            r@ == self.text(),
    {
        match self {
            AresError::NullPointer => "null output pointer",
            AresError::InvalidLength(message) => message.as_str(),
            AresError::Backend(message) => message.as_str(),
        }
    }
}

/// Errors have negative return codes; success and the truncation status do not.
pub proof fn law_return_codes(error: AresError)
    ensures
        error.return_code() < 0,
        ARES_OK == 0,
        ARES_STATUS_TRUNCATED > 0,
{
}

/// Two errors of different kinds have different return codes.
pub proof fn law_return_codes_tell_kinds_apart(a: AresError, b: AresError)
    ensures
        a.return_code() == b.return_code() <==> (a is NullPointer && b is NullPointer) || (
        a is InvalidLength && b is InvalidLength) || (a is Backend && b is Backend),
{
}

/// An error tells the message that it was given, in full.
pub proof fn law_messages_are_told_in_full(message: String)
    ensures
        AresError::InvalidLength(message).text() == message@,
        AresError::Backend(message).text() == message@,
        AresError::NullPointer.text() == "null output pointer"@,
        AresError::InvalidLength(message).return_code() == -2,
        AresError::Backend(message).return_code() == -3,
        AresError::NullPointer.return_code() == -1,
{
}

} // verus!
