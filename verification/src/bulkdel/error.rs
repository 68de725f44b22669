//! Why a deletion request, or one call made for it, failed.

use vstd::prelude::*;

verus! {

/// The failures of a bulk deletion.
#[derive(Clone, Copy, Debug, PartialEq, Eq, Structural)]
pub enum BulkDeleteError {
    /// The requesting actor may not manage messages in the channel.
    Unauthorized,
    /// The two bookends did not resolve to a range.
    BadRange,
    /// A message was not found: deleted, in another channel, or its
    /// identifier was malformed.
    NotFound,
    /// The platform asked to try again later. Nothing retries by itself.
    RateLimited,
    /// The call did not get through, and will not within this request.
    TransportError,
    /// The platform refused to delete this message.
    Forbidden,
    /// The message was gone before the call. Counts as deleted.
    AlreadyDeleted,
    /// A page brought nothing new while the range was not yet consumed.
    NoProgress,
    /// The range was consumed, but some messages could not be deleted.
    PartialFailure,
    /// The workflow was handed an event that its state does not wait for.
    UnexpectedEvent,
}

/// What the refusal of a call is, by the status that the platform answered
/// with: 403 is `Forbidden`, 404 is `missing`, 429 is `RateLimited`, and any
/// other status, or none at all, is `TransportError`.
pub open spec fn refusal(status: Option<u16>, missing: BulkDeleteError) -> BulkDeleteError {
    if status == Some(403u16) {
        BulkDeleteError::Forbidden
    } else if status == Some(404u16) {
        missing
    } else if status == Some(429u16) {
        BulkDeleteError::RateLimited
    } else {
        BulkDeleteError::TransportError
    }
}

impl BulkDeleteError {
    /// The failure that a refused call stands for ([`refusal`]). `status` is
    /// the HTTP status of the answer, `None` where no answer came. `missing`
    /// says what it means here that the platform did not find what the call
    /// named: `NotFound` for a fetch, `AlreadyDeleted` for a deletion.
    pub fn from_status(status: Option<u16>, missing: BulkDeleteError) -> (error: BulkDeleteError)
        ensures
            error == refusal(status, missing),
    {
        match status {
            Some(403) => BulkDeleteError::Forbidden,
            Some(404) => missing,
            Some(429) => BulkDeleteError::RateLimited,
            _ => BulkDeleteError::TransportError,
        }
    }
}

} // verus!
