//! The reasons for which the ledger refuses an operation.

use vstd::prelude::*;

verus! {

/// Why an operation was refused.
#[derive(Clone, Copy, Debug, PartialEq, Eq, Structural)]
pub enum TipError {
    /// The caller did not prove control of the sender's address.
    Unauthorized,
    /// The amount of a tip was zero or negative.
    InvalidAmount,
    /// No tip is stored under the identifier asked for.
    NotFound,
    /// The identifier counter or a running total would leave its range.
    Overflow,
}

impl TipError {
    /// The text that describes this error.
    pub open spec fn spec_message(self) -> Seq<char> {
        match self {
            TipError::Unauthorized => "Sender is not authorized"@,
            TipError::InvalidAmount => "Amount must be positive"@,
            TipError::NotFound => "Tip not found"@,
            TipError::Overflow => "Arithmetic overflow"@,
        }
    }

    /// The text that describes this error.
    pub fn message(&self) -> (r: String)
        ensures
            r@ == self.spec_message(),
    {
        match self {
            TipError::Unauthorized => "Sender is not authorized".to_owned(),
            TipError::InvalidAmount => "Amount must be positive".to_owned(),
            TipError::NotFound => "Tip not found".to_owned(),
            TipError::Overflow => "Arithmetic overflow".to_owned(),
        }
    }
}

} // verus!
