//! From two message identifiers, in either order, to the range between them.

use vstd::prelude::*;
use crate::bulkdel::error::BulkDeleteError;
use crate::bulkdel::message::{DeletionRange, MessageRef, ordered};

verus! {

/// The lookup of `id` in `channel` brought that message. An identifier that
/// was malformed is `None`, and finds nothing.
pub open spec fn found_in(channel: u64, id: Option<u64>, lookup: Option<MessageRef>) -> bool {
    &&& id is Some
    &&& lookup matches Some(m) && m.id == id->0 && m.channel == channel
}

/// Orders the two bookends of a request into a range.
///
/// `id_a` and `id_b` are the identifiers as they were given, `None` where
/// one was malformed. `found_a` and `found_b` are what looking them up in
/// `channel` brought, `None` where the lookup failed. The range is made if
/// both brought the message asked for, in that channel; if not, the answer
/// is `NotFound`.
/// Which identifier was given first makes no difference to the order of the
/// ends, but where the timestamps are equal: then `id_a` is the earlier end.
pub fn resolve(
    channel: u64,
    id_a: Option<u64>,
    id_b: Option<u64>,
    found_a: Option<MessageRef>,
    found_b: Option<MessageRef>,
) -> (range: Result<DeletionRange, BulkDeleteError>)
    ensures
        found_in(channel, id_a, found_a) && found_in(channel, id_b, found_b) ==> range is Ok
            && range->Ok_0@ == ordered(found_a->0, found_b->0) && range->Ok_0@.wf(),
        !(found_in(channel, id_a, found_a) && found_in(channel, id_b, found_b)) ==> range is Err
            && range->Err_0 == BulkDeleteError::NotFound,
{
    match (id_a, id_b, found_a, found_b) {
        (Some(id_a), Some(id_b), Some(a), Some(b)) => {
            if a.id == id_a && a.channel == channel && b.id == id_b && b.channel == channel {
                Ok(DeletionRange::new(a, b))
            } else {
                Err(BulkDeleteError::NotFound)
            }
        },
        _ => Err(BulkDeleteError::NotFound),
    }
}

} // verus!
