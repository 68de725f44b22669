//! The deletion workflow as a state machine: what each state does with each
//! event, and which call it asks for next.
//!
//! The machine itself performs no call. It names the call to make as an
//! action, and takes the outcome of that call as the next event.

use vstd::prelude::*;
use crate::bulkdel::error::BulkDeleteError;
use crate::bulkdel::executor::{BULK_MAX, BULK_MIN, PlanView, confirms, scheduled, with_bookend};
use crate::bulkdel::message::{MessageRef, RangeView, ordered};
use crate::bulkdel::paginator::{PAGE_MAX, normalized};
use crate::bulkdel::partitioner::{BatchView, next_anchor, reaches_end, routed};
use crate::bulkdel::permission::{MANAGE_MESSAGES, authorized};
use crate::bulkdel::resolver::found_in;

verus! {

/// The page size asked for while the earlier end of the range still waits to
/// be deleted: it shares the bulk call of the first page.
pub const FIRST_PAGE_LIMIT: usize = PAGE_MAX - 1;

/// What was asked: delete from one message to another in a channel. The
/// two messages are named by their identifiers; one that was malformed is
/// `None`.
#[derive(Clone, Copy, Debug, PartialEq, Eq, Structural)]
pub struct Request {
    pub channel: u64,
    pub id_a: Option<u64>,
    pub id_b: Option<u64>,
}

/// How far a deletion has come.
pub struct ProgressView {
    pub channel: u64,
    /// From the last message dealt with to the later end of the range.
    pub remaining: RangeView,
    /// No page has been looked at yet, and the earlier end still waits.
    pub first_page: bool,
    /// Deletions that the platform confirmed.
    pub deleted_count: u64,
    /// Single deletions that failed and were passed over.
    pub failed_count: u64,
}

/// The states of the workflow.
pub enum WorkflowView {
    /// The request is in; nothing was done yet.
    Start { request: Request },
    /// Waiting for the roles of the actor.
    Authorizing { request: Request },
    /// Waiting for the two bookends.
    Resolving { request: Request },
    /// Waiting for the page after the earlier end of `progress.remaining`.
    Paginating { progress: ProgressView },
    /// Waiting for the deletion of `queue[cursor]`. The rest of `queue`
    /// follows, then `bulk`; `next` is the anchor of the page after that, or
    /// `None` where the range ends with this page.
    Deleting {
        progress: ProgressView,
        queue: Seq<MessageRef>,
        cursor: int,
        bulk: Seq<MessageRef>,
        next: Option<MessageRef>,
    },
    /// Waiting for the bulk deletion of `requested` messages.
    DeletingBulk { progress: ProgressView, requested: usize, next: Option<MessageRef> },
    /// The range is consumed.
    Done { deleted_count: u64, failed_count: u64 },
    /// The request was given up.
    Failed { error: BulkDeleteError, deleted_count: u64 },
}

/// What the outside world reports to the workflow.
pub enum EventView {
    /// Go.
    Begin,
    /// The roles of the actor, as in [`crate::bulkdel::permission::Actor`].
    RolesResolved(Seq<Option<u64>>),
    /// What looking up the two identifiers of the request brought.
    BookendsFetched(Option<MessageRef>, Option<MessageRef>),
    /// The page that was asked for, as the platform gave it.
    PageFetched(Result<Seq<MessageRef>, BulkDeleteError>),
    /// The answer to a call that deletes one message.
    IndividualDeleted(Result<(), BulkDeleteError>),
    /// The answer to a bulk call.
    BulkDeleted(Result<(), BulkDeleteError>),
}

/// What the workflow asks the outside world to do next.
pub enum ActionView {
    /// Look up the roles of the actor.
    ResolveRoles,
    /// Look up both bookends.
    FetchBookends { channel: u64, id_a: Option<u64>, id_b: Option<u64> },
    /// Fetch up to `limit` messages that follow `after`.
    FetchPage { channel: u64, after: MessageRef, limit: usize },
    /// Delete one message.
    DeleteIndividual { channel: u64, message: MessageRef },
    /// Delete these messages in one call.
    DeleteBulk { channel: u64, messages: Seq<MessageRef> },
    /// Report the end: so many deleted, so many passed over.
    Complete { deleted_count: u64, failed_count: u64 },
    /// Report the failure, and what was deleted before it.
    Abort { error: BulkDeleteError, deleted_count: u64 },
    /// Nothing: the workflow has ended.
    Halt,
}

/// `count` and `n` more, as far as the counter goes.
pub open spec fn credited(count: u64, n: int) -> u64 {
    if count + n > u64::MAX {
        u64::MAX
    } else {
        (count + n) as u64
    }
}

/// The page size to ask for.
pub open spec fn page_limit(first_page: bool) -> usize {
    if first_page {
        FIRST_PAGE_LIMIT
    } else {
        PAGE_MAX
    }
}

/// `next` may follow a page of `range`: it lies after the earlier end, not
/// after the later end, and is not that end.
pub open spec fn goes_on(range: RangeView, next: Option<MessageRef>) -> bool {
    next matches Some(a) ==> {
        &&& range.earlier.timestamp < a.timestamp <= range.later.timestamp
        &&& a.id != range.later.id
    }
}

impl WorkflowView {
    /// What the workflow keeps true of its state.
    pub open spec fn wf(self) -> bool {
        match self {
            WorkflowView::Paginating { progress } => {
                &&& progress.remaining.wf()
                &&& !progress.remaining.is_single()
            },
            WorkflowView::Deleting { progress, queue, cursor, bulk, next } => {
                &&& progress.remaining.wf()
                &&& 0 <= cursor < queue.len()
                &&& (bulk.len() == 0 || BULK_MIN <= bulk.len() <= BULK_MAX)
                &&& goes_on(progress.remaining, next)
            },
            WorkflowView::DeletingBulk { progress, requested, next } => {
                &&& progress.remaining.wf()
                &&& BULK_MIN <= requested <= BULK_MAX
                &&& goes_on(progress.remaining, next)
            },
            _ => true,
        }
    }

    /// The workflow has ended: no event changes it any more.
    pub open spec fn is_terminal(self) -> bool {
        self is Done || self is Failed
    }

    /// Deletions confirmed so far.
    pub open spec fn deleted_count(self) -> u64 {
        match self {
            WorkflowView::Paginating { progress } => progress.deleted_count,
            WorkflowView::Deleting { progress, .. } => progress.deleted_count,
            WorkflowView::DeletingBulk { progress, .. } => progress.deleted_count,
            WorkflowView::Done { deleted_count, .. } => deleted_count,
            WorkflowView::Failed { deleted_count, .. } => deleted_count,
            _ => 0,
        }
    }
}

/// Giving up: the failed state, and the action that reports it.
pub open spec fn failed(error: BulkDeleteError, deleted_count: u64) -> (WorkflowView, ActionView) {
    (WorkflowView::Failed { error, deleted_count }, ActionView::Abort { error, deleted_count })
}

/// What one page came to: the deletions confirmed so far, the last message
/// dealt with, and whether the range ends here.
#[derive(Clone, Copy, Debug, PartialEq, Eq, Structural)]
pub struct DeletionOutcome {
    pub deleted_count: u64,
    pub last_message_processed: MessageRef,
    pub exhausted: bool,
}

/// The outcome of a page of `range` once its calls are answered. Where the
/// partitioner named an anchor for the next page, that is the last message
/// dealt with, and the range goes on; where it named none, the range ends
/// with its later end.
pub open spec fn outcome_of_page(
    deleted_count: u64,
    range: RangeView,
    next: Option<MessageRef>,
) -> DeletionOutcome {
    match next {
        Some(anchor) => DeletionOutcome {
            deleted_count,
            last_message_processed: anchor,
            exhausted: false,
        },
        None => DeletionOutcome {
            deleted_count,
            last_message_processed: range.later,
            exhausted: true,
        },
    }
}

/// After the calls of one page: the end if the range ends here, else the
/// page after the last message dealt with.
pub open spec fn advance(progress: ProgressView, next: Option<MessageRef>) -> (
    WorkflowView,
    ActionView,
) {
    let outcome = outcome_of_page(progress.deleted_count, progress.remaining, next);
    if outcome.exhausted {
        (
            WorkflowView::Done {
                deleted_count: outcome.deleted_count,
                failed_count: progress.failed_count,
            },
            ActionView::Complete {
                deleted_count: outcome.deleted_count,
                failed_count: progress.failed_count,
            },
        )
    } else {
        (
            WorkflowView::Paginating {
                progress: ProgressView {
                    remaining: RangeView {
                        earlier: outcome.last_message_processed,
                        later: progress.remaining.later,
                    },
                    first_page: false,
                    deleted_count: outcome.deleted_count,
                    ..progress
                },
            },
            ActionView::FetchPage {
                channel: progress.channel,
                after: outcome.last_message_processed,
                limit: PAGE_MAX,
            },
        )
    }
}

/// After the single deletions of one page: the bulk call, if there is one to
/// make.
pub open spec fn after_singles(
    progress: ProgressView,
    bulk: Seq<MessageRef>,
    next: Option<MessageRef>,
) -> (WorkflowView, ActionView) {
    if BULK_MIN <= bulk.len() <= BULK_MAX {
        (
            WorkflowView::DeletingBulk { progress, requested: bulk.len() as usize, next },
            ActionView::DeleteBulk { channel: progress.channel, messages: bulk },
        )
    } else {
        advance(progress, next)
    }
}

/// The first call of a plan.
pub open spec fn begin_deleting(
    progress: ProgressView,
    plan: PlanView,
    next: Option<MessageRef>,
) -> (WorkflowView, ActionView) {
    if plan.singles.len() > 0 {
        (
            WorkflowView::Deleting {
                progress,
                queue: plan.singles,
                cursor: 0,
                bulk: plan.bulk,
                next,
            },
            ActionView::DeleteIndividual { channel: progress.channel, message: plan.singles[0] },
        )
    } else {
        after_singles(progress, plan.bulk, next)
    }
}

/// The batch of a page: what the partitioner takes from it, and on the first
/// page the earlier end of the range as well.
pub open spec fn batch_of(
    progress: ProgressView,
    page: Seq<MessageRef>,
    threshold: i64,
) -> BatchView {
    let taken = BatchView {
        bulk_candidates: routed(page, progress.remaining, threshold, false, page.len()),
        individual_candidates: routed(page, progress.remaining, threshold, true, page.len()),
    };
    if progress.first_page {
        with_bookend(taken, progress.remaining.earlier, threshold)
    } else {
        taken
    }
}

/// A page has come in, in order. If the range goes on beyond it and it
/// brought nothing new, the request fails with `NoProgress`. If not, its
/// batch is scheduled and the first call is asked for.
pub open spec fn on_page(progress: ProgressView, page: Seq<MessageRef>, threshold: i64) -> (
    WorkflowView,
    ActionView,
) {
    let next = next_anchor(page, progress.remaining);
    if !reaches_end(page, progress.remaining) && next is None {
        failed(BulkDeleteError::NoProgress, progress.deleted_count)
    } else {
        begin_deleting(
            ProgressView { first_page: false, ..progress },
            scheduled(batch_of(progress, page, threshold)),
            next,
        )
    }
}

/// The bookends are in order. A range of one message needs no page: it is
/// treated as if an empty page had come. Any other range starts with the
/// page after its earlier end.
pub open spec fn start_paging(channel: u64, range: RangeView, threshold: i64) -> (
    WorkflowView,
    ActionView,
) {
    let progress = ProgressView {
        channel,
        remaining: range,
        first_page: true,
        deleted_count: 0,
        failed_count: 0,
    };
    if range.is_single() {
        on_page(progress, Seq::empty(), threshold)
    } else {
        (
            WorkflowView::Paginating { progress },
            ActionView::FetchPage { channel, after: range.earlier, limit: FIRST_PAGE_LIMIT },
        )
    }
}

/// The answer to a single deletion has come in: it is counted if it
/// confirms the deletion, and recorded as passed over if not. Either way the
/// next call follows.
pub open spec fn on_individual(
    progress: ProgressView,
    queue: Seq<MessageRef>,
    cursor: int,
    bulk: Seq<MessageRef>,
    next: Option<MessageRef>,
    answer: Result<(), BulkDeleteError>,
) -> (WorkflowView, ActionView) {
    let progress = if confirms(answer) {
        ProgressView { deleted_count: credited(progress.deleted_count, 1), ..progress }
    } else {
        ProgressView { failed_count: credited(progress.failed_count, 1), ..progress }
    };
    if cursor + 1 < queue.len() {
        (
            WorkflowView::Deleting { progress, queue, cursor: cursor + 1, bulk, next },
            ActionView::DeleteIndividual { channel: progress.channel, message: queue[cursor + 1] },
        )
    } else {
        after_singles(progress, bulk, next)
    }
}

/// The answer to a bulk call has come in: all its messages are counted if it
/// confirms the deletion; if not, the request fails with the call's error.
pub open spec fn on_bulk(
    progress: ProgressView,
    requested: usize,
    next: Option<MessageRef>,
    answer: Result<(), BulkDeleteError>,
) -> (WorkflowView, ActionView) {
    if confirms(answer) {
        advance(
            ProgressView {
                deleted_count: credited(progress.deleted_count, requested as int),
                ..progress
            },
            next,
        )
    } else {
        failed(answer->Err_0, progress.deleted_count)
    }
}

/// One step of the workflow: from a state and an event to the next state and
/// the action to take. `threshold` is the age threshold at the time of the
/// step.
///
/// A state that has ended stays as it is. An event that the state does not
/// wait for fails the request with `UnexpectedEvent`.
pub open spec fn step_spec(state: WorkflowView, event: EventView, threshold: i64) -> (
    WorkflowView,
    ActionView,
) {
    match state {
        WorkflowView::Start { request } => match event {
            EventView::Begin => (WorkflowView::Authorizing { request }, ActionView::ResolveRoles),
            _ => failed(BulkDeleteError::UnexpectedEvent, 0),
        },
        WorkflowView::Authorizing { request } => match event {
            EventView::RolesResolved(roles) => if authorized(roles, MANAGE_MESSAGES) {
                (
                    WorkflowView::Resolving { request },
                    ActionView::FetchBookends {
                        channel: request.channel,
                        id_a: request.id_a,
                        id_b: request.id_b,
                    },
                )
            } else {
                failed(BulkDeleteError::Unauthorized, 0)
            },
            _ => failed(BulkDeleteError::UnexpectedEvent, 0),
        },
        WorkflowView::Resolving { request } => match event {
            EventView::BookendsFetched(a, b) => if found_in(request.channel, request.id_a, a)
                && found_in(request.channel, request.id_b, b) {
                start_paging(request.channel, ordered(a->0, b->0), threshold)
            } else {
                failed(BulkDeleteError::BadRange, 0)
            },
            _ => failed(BulkDeleteError::UnexpectedEvent, 0),
        },
        WorkflowView::Paginating { progress } => match event {
            EventView::PageFetched(Ok(raw)) => on_page(
                progress,
                normalized(raw, page_limit(progress.first_page)),
                threshold,
            ),
            EventView::PageFetched(Err(error)) => failed(error, progress.deleted_count),
            _ => failed(BulkDeleteError::UnexpectedEvent, progress.deleted_count),
        },
        WorkflowView::Deleting { progress, queue, cursor, bulk, next } => match event {
            EventView::IndividualDeleted(answer) => on_individual(
                progress,
                queue,
                cursor,
                bulk,
                next,
                answer,
            ),
            _ => failed(BulkDeleteError::UnexpectedEvent, progress.deleted_count),
        },
        WorkflowView::DeletingBulk { progress, requested, next } => match event {
            EventView::BulkDeleted(answer) => on_bulk(progress, requested, next, answer),
            _ => failed(BulkDeleteError::UnexpectedEvent, progress.deleted_count),
        },
        WorkflowView::Done { .. } => (state, ActionView::Halt),
        WorkflowView::Failed { .. } => (state, ActionView::Halt),
    }
}

} // verus!
