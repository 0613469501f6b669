//! The one error type of the store, and how the table's answer to a write
//! becomes an operation's result.

use vstd::prelude::*;

verus! {

/// Every failure an operation of the store can surface.
pub enum StoreError {
    /// No row under the key read; closing treats it as done, not as a failure.
    NotFound,
    /// A conditional update found no row to update.
    PreconditionFailed,
    /// A row's contents could not be encoded or decoded.
    SerializationError(String),
    /// The metadata could not be encrypted or decrypted.
    CryptoError(String),
    /// The transport failed, was throttled, or a transaction conflicted.
    StorageError(String),
}

/// The table's answer to a conditional write.
pub enum WriteOutcome {
    /// The write took effect.
    Written,
    /// Its condition did not hold, and nothing was written.
    ConditionFailed,
    /// Anything else went wrong; the text describes it.
    Failed(String),
}

/// The result of an update: a failed condition means the open row the
/// update targets does not exist.
pub fn update_result(outcome: WriteOutcome) -> (r: Result<(), StoreError>)
    ensures
        outcome is Written ==> r is Ok,
        outcome is ConditionFailed ==> r matches Err(StoreError::PreconditionFailed),
        outcome is Failed ==> (r matches Err(StoreError::StorageError(m)) && m@ == outcome->Failed_0@),
{
    match outcome {
        WriteOutcome::Written => Ok(()),
        WriteOutcome::ConditionFailed => Err(StoreError::PreconditionFailed),
        WriteOutcome::Failed(m) => Err(StoreError::StorageError(m)),
    }
}

/// The result of moving a row: a failed condition means another caller
/// moved it first, so the session is closed and there is nothing to do.
pub fn close_result(outcome: WriteOutcome) -> (r: Result<(), StoreError>)
    ensures
        outcome is Failed <==> r is Err,
        outcome is Failed ==> (r matches Err(StoreError::StorageError(m)) && m@ == outcome->Failed_0@),
{
    match outcome {
        WriteOutcome::Written => Ok(()),
        WriteOutcome::ConditionFailed => Ok(()),
        WriteOutcome::Failed(m) => Err(StoreError::StorageError(m)),
    }
}

} // verus!
