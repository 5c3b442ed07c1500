//! The result type of the fly coin ledger: an operation hands its items back
//! whether it succeeded or not, and a failure carries an error code and message.
use vstd::prelude::*;

verus! {

/// An error code and a human readable message.
pub struct Error {
    pub code: String,
    pub msg: String,
}

impl Error {
    /// Builds an error from its code and message.
    pub fn new(_code: &str, _msg: &str) -> (error: Error)
        ensures
            error.code@ == _code@,
            error.msg@ == _msg@,
    {
        let error = Error { code: _code.to_string(), msg: _msg.to_string() };
        error
    }
}

/// The outcome of a ledger operation: on success and on failure the items
/// are handed back, so that no coin is lost by a refused operation.
pub enum Result<T> {
    SUCCESS { item: T },
    FAIL { error: Error, item: T },
}

impl<T> Result<T> {
    /// The items that the operation handed back, whatever its outcome.
    pub open spec fn spec_item(self) -> T {
        match self {
            Result::SUCCESS { item } => item,
            Result::FAIL { item, .. } => item,
        }
    }

    /// Takes the items out, whether the operation succeeded or failed.
    pub fn unwrap(self) -> (item: T)
        ensures
            item == self.spec_item(),
    {
        let item_return = match self {
            Result::SUCCESS { item } => item,
            Result::FAIL { error, item } => item,
        };
        item_return
    }
}

} // verus!
