//! The error values that every operation of the library can report.

use vstd::prelude::*;

verus! {

/// Failure report of an operation. `NotFound` means a referenced identifier
/// does not exist in the relevant table; `InvalidInput` means an
/// operation-specific precondition was violated (for example, booking a
/// flight with no available seats). Both carry a human-readable message.
#[derive(Debug)]
pub enum Error {
    NotFound { msg: String },
    InvalidInput { msg: String },
}

impl Error {
    /// The message carried by the error, for callers that wish to display it.
    pub fn message(&self) -> (r: &String)
        ensures
            *self matches Error::NotFound { msg } ==> r@ == msg@,
            *self matches Error::InvalidInput { msg } ==> r@ == msg@,
    {
        match self {
            Error::NotFound { msg } => msg,
            Error::InvalidInput { msg } => msg,
        }
    }
}

} // verus!
