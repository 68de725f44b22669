//! Which delete calls a batch takes, and what a call's answer is worth.

use vstd::prelude::*;
use crate::bulkdel::error::BulkDeleteError;
use crate::bulkdel::message::MessageRef;
use crate::bulkdel::partitioner::{BatchView, DeletionBatch, is_old};

verus! {

/// The fewest messages that one bulk call takes.
pub const BULK_MIN: usize = 2;

/// The most messages that one bulk call takes.
pub const BULK_MAX: usize = 100;

/// The delete calls for one batch: one call for each of `singles`, in order,
/// then one bulk call for `bulk` unless it is empty.
#[derive(Debug)]
pub struct DeletionPlan {
    pub singles: Vec<MessageRef>,
    pub bulk: Vec<MessageRef>,
}

/// A [`DeletionPlan`] as contracts speak of it.
pub struct PlanView {
    pub singles: Seq<MessageRef>,
    pub bulk: Seq<MessageRef>,
}

impl View for DeletionPlan {
    type V = PlanView;

    open spec fn view(&self) -> PlanView {
        PlanView { singles: self.singles@, bulk: self.bulk@ }
    }
}

/// `batch` with `bookend` put in front of the list that its age calls for.
pub open spec fn with_bookend(batch: BatchView, bookend: MessageRef, threshold: i64) -> BatchView {
    if is_old(bookend, threshold) {
        BatchView {
            bulk_candidates: batch.bulk_candidates,
            individual_candidates: seq![bookend] + batch.individual_candidates,
        }
    } else {
        BatchView {
            bulk_candidates: seq![bookend] + batch.bulk_candidates,
            individual_candidates: batch.individual_candidates,
        }
    }
}

/// The plan for a batch. The individual candidates are deleted one by one.
/// A single bulk candidate joins them at the end, since a bulk call takes no
/// single message; two or more make the bulk call.
pub open spec fn scheduled(batch: BatchView) -> PlanView {
    if batch.bulk_candidates.len() == 1 {
        PlanView {
            singles: batch.individual_candidates + batch.bulk_candidates,
            bulk: Seq::empty(),
        }
    } else {
        PlanView { singles: batch.individual_candidates, bulk: batch.bulk_candidates }
    }
}

/// The platform's answer leaves the message, or the messages, deleted: the
/// call succeeded, or found them gone already.
pub open spec fn confirms(answer: Result<(), BulkDeleteError>) -> bool {
    answer is Ok || answer == Err::<(), BulkDeleteError>(BulkDeleteError::AlreadyDeleted)
}

/// Adds the earlier end of the range to the batch of the first page, where
/// no page brings it: in front of the individual candidates if it is older
/// than the threshold, else in front of the bulk candidates.
pub fn include_bookend(batch: DeletionBatch, bookend: MessageRef, threshold: i64) -> (out:
    DeletionBatch)
    ensures
        out@ == with_bookend(batch@, bookend, threshold),
{
    let mut out = batch;
    if bookend.timestamp < threshold {
        out.individual_candidates.insert(0, bookend);
        assert(out.individual_candidates@ =~= seq![bookend] + batch.individual_candidates@);
    } else {
        out.bulk_candidates.insert(0, bookend);
        assert(out.bulk_candidates@ =~= seq![bookend] + batch.bulk_candidates@);
    }
    out
}

/// Decides the delete calls for a batch ([`scheduled`]).
pub fn schedule(batch: DeletionBatch) -> (plan: DeletionPlan)
    ensures
        plan@ == scheduled(batch@),
{
    let DeletionBatch { bulk_candidates, individual_candidates } = batch;
    if bulk_candidates.len() == 1 {
        let mut singles = individual_candidates;
        let only = bulk_candidates[0];
        singles.push(only);
        assert(singles@ =~= individual_candidates@ + bulk_candidates@);
        DeletionPlan { singles, bulk: Vec::new() }
    } else {
        DeletionPlan { singles: individual_candidates, bulk: bulk_candidates }
    }
}

/// What a call to delete one message came to. A message that was gone
/// already is as good as deleted; any other failure stands, and concerns
/// this message only.
pub fn individual_outcome(answer: Result<(), BulkDeleteError>) -> (outcome: Result<
    (),
    BulkDeleteError,
>)
    ensures
        confirms(answer) ==> outcome is Ok,
        !confirms(answer) ==> outcome == answer,
{
    match answer {
        Ok(()) => Ok(()),
        Err(BulkDeleteError::AlreadyDeleted) => Ok(()),
        Err(e) => Err(e),
    }
}

/// What a bulk call for `requested` messages came to: all of them count as
/// deleted if the call succeeded, also where some were gone already; any
/// failure stands. A call for no message at all is none: it comes to
/// nothing deleted, whatever the answer.
pub fn bulk_outcome(requested: usize, answer: Result<(), BulkDeleteError>) -> (outcome: Result<
    usize,
    BulkDeleteError,
>)
    ensures
        requested == 0 || confirms(answer) ==> outcome == Ok::<usize, BulkDeleteError>(requested),
        requested > 0 && !confirms(answer) ==> outcome is Err && outcome->Err_0 == answer->Err_0,
{
    if requested == 0 {
        return Ok(0);
    }
    match answer {
        Ok(()) => Ok(requested),
        Err(BulkDeleteError::AlreadyDeleted) => Ok(requested),
        Err(e) => Err(e),
    }
}

} // verus!
