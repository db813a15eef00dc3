//! The ways a ledger operation can fail.

use vstd::prelude::*;

verus! {

/// What was wrong with a request field.
#[derive(Clone, Copy, PartialEq, Eq, Structural, Debug)]
pub enum Invalid {
    /// The user id is not positive.
    UserId,
    /// The amount carries more than six fractional digits.
    AmountScale,
    /// The amount is below one millionth.
    AmountTooSmall,
    /// The order number is shorter than 32 characters.
    OrderNumber,
    /// The description is empty.
    Description,
    /// A date is not a calendar day written as year-month-day.
    DateFormat,
    /// The end day lies before the start day.
    TimeRange,
    /// A day has no usable midnight in the session time zone.
    DayBoundary,
    /// The session time zone is not known.
    TimeZone,
    /// The page number is below the first page.
    Page,
    /// The page size is outside the configured bounds.
    PageSize,
}

/// The category of a failed operation.
#[derive(Clone, Copy, PartialEq, Eq, Structural, Debug)]
pub enum Error {
    /// A request field is malformed or out of range.
    Validation(Invalid),
    /// The account, or an asset type or action type id, is absent.
    NotFound,
    /// The account exists already, or the order number was used before.
    Conflict,
    /// The account is inactive.
    Forbidden,
    /// A debit exceeds the balance it draws on.
    InsufficientFunds,
    /// The store cannot hold the value that the operation would produce.
    OutOfRange,
}

impl Error {
    /// The HTTP status code under which a failure of this category is reported.
    pub open spec fn status(self) -> int {
        match self {
            Error::Validation(_) => 400,
            Error::NotFound => 404,
            Error::Conflict => 409,
            Error::Forbidden => 403,
            Error::InsufficientFunds => 402,
            Error::OutOfRange => 500,
        }
    }

    /// The HTTP status code under which a failure of this category is reported.
    pub fn status_code(&self) -> (code: u16)
        ensures
            code == self.status(),
    {
        match self {
            Error::Validation(_) => 400,
            Error::NotFound => 404,
            Error::Conflict => 409,
            Error::Forbidden => 403,
            Error::InsufficientFunds => 402,
            Error::OutOfRange => 500,
        }
    }
}

} // verus!
