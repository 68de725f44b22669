//! The workflow that drives a deletion: it is handed what happened, and says
//! what to do next.

use vstd::prelude::*;
use crate::bulkdel::clock::{threshold_at, two_weeks_ago};
use crate::bulkdel::error::BulkDeleteError;
use crate::bulkdel::executor::{
    BULK_MAX, BULK_MIN, DeletionPlan, bulk_outcome, include_bookend, individual_outcome, schedule,
};
use crate::bulkdel::message::{DeletionRange, MessageRef};
use crate::bulkdel::paginator::{PAGE_MAX, lemma_normalized_len, page_after};
use crate::bulkdel::partitioner::{lemma_next_anchor, lemma_routed_len, partition};
use crate::bulkdel::permission::{Actor, MANAGE_MESSAGES, authorize};
use crate::bulkdel::resolver::resolve;
use crate::bulkdel::workflow::{
    ActionView, DeletionOutcome, EventView, FIRST_PAGE_LIMIT, ProgressView, Request, WorkflowView,
    advance, after_singles, begin_deleting, failed, goes_on, on_bulk, on_individual, on_page,
    outcome_of_page, page_limit, start_paging, step_spec,
};

verus! {

/// What the outside world reports to the workflow.
#[derive(Debug)]
pub enum Event {
    /// Go.
    Begin,
    /// The roles of the actor were looked up.
    RolesResolved(Actor),
    /// What looking up the two identifiers of the request brought, `None`
    /// where a lookup failed.
    BookendsFetched(Option<MessageRef>, Option<MessageRef>),
    /// The page that was asked for, as the platform gave it, or why there is
    /// none.
    PageFetched(Result<Vec<MessageRef>, BulkDeleteError>),
    /// The answer to a call that deletes one message.
    IndividualDeleted(Result<(), BulkDeleteError>),
    /// The answer to a bulk call.
    BulkDeleted(Result<(), BulkDeleteError>),
}

impl View for Event {
    type V = EventView;

    open spec fn view(&self) -> EventView {
        match self {
            Event::Begin => EventView::Begin,
            Event::RolesResolved(actor) => EventView::RolesResolved(actor.roles@),
            Event::BookendsFetched(a, b) => EventView::BookendsFetched(*a, *b),
            Event::PageFetched(Ok(raw)) => EventView::PageFetched(Ok(raw@)),
            Event::PageFetched(Err(error)) => EventView::PageFetched(Err(*error)),
            Event::IndividualDeleted(answer) => EventView::IndividualDeleted(*answer),
            Event::BulkDeleted(answer) => EventView::BulkDeleted(*answer),
        }
    }
}

/// What the workflow asks the outside world to do next.
#[derive(Debug, PartialEq, Eq)]
pub enum Action {
    /// Look up the roles of the actor, and report `RolesResolved`.
    ResolveRoles,
    /// Look up both bookends, and report `BookendsFetched`.
    FetchBookends { channel: u64, id_a: Option<u64>, id_b: Option<u64> },
    /// Fetch up to `limit` messages that follow `after`, and report
    /// `PageFetched`.
    FetchPage { channel: u64, after: MessageRef, limit: usize },
    /// Delete one message, and report `IndividualDeleted`.
    DeleteIndividual { channel: u64, message: MessageRef },
    /// Delete these messages in one call, and report `BulkDeleted`.
    DeleteBulk { channel: u64, messages: Vec<MessageRef> },
    /// Tell the requester the end: so many deleted, so many passed over.
    Complete { deleted_count: u64, failed_count: u64 },
    /// Tell the requester the failure, and what was deleted before it.
    Abort { error: BulkDeleteError, deleted_count: u64 },
    /// Nothing: the workflow has ended.
    Halt,
}

impl View for Action {
    type V = ActionView;

    open spec fn view(&self) -> ActionView {
        match self {
            Action::ResolveRoles => ActionView::ResolveRoles,
            Action::FetchBookends { channel, id_a, id_b } => ActionView::FetchBookends {
                channel: *channel,
                id_a: *id_a,
                id_b: *id_b,
            },
            Action::FetchPage { channel, after, limit } => ActionView::FetchPage {
                channel: *channel,
                after: *after,
                limit: *limit,
            },
            Action::DeleteIndividual { channel, message } => ActionView::DeleteIndividual {
                channel: *channel,
                message: *message,
            },
            Action::DeleteBulk { channel, messages } => ActionView::DeleteBulk {
                channel: *channel,
                messages: messages@,
            },
            Action::Complete { deleted_count, failed_count } => ActionView::Complete {
                deleted_count: *deleted_count,
                failed_count: *failed_count,
            },
            Action::Abort { error, deleted_count } => ActionView::Abort {
                error: *error,
                deleted_count: *deleted_count,
            },
            Action::Halt => ActionView::Halt,
        }
    }
}

/// The stage that a workflow is in.
#[derive(Clone, Copy, Debug, PartialEq, Eq, Structural)]
pub enum Phase {
    Start,
    Authorizing,
    Resolving,
    Paginating,
    Deleting,
    Done,
    Failed,
}

/// The stage of a state.
pub open spec fn phase_of(state: WorkflowView) -> Phase {
    match state {
        WorkflowView::Start { .. } => Phase::Start,
        WorkflowView::Authorizing { .. } => Phase::Authorizing,
        WorkflowView::Resolving { .. } => Phase::Resolving,
        WorkflowView::Paginating { .. } => Phase::Paginating,
        WorkflowView::Deleting { .. } => Phase::Deleting,
        WorkflowView::DeletingBulk { .. } => Phase::Deleting,
        WorkflowView::Done { .. } => Phase::Done,
        WorkflowView::Failed { .. } => Phase::Failed,
    }
}

/// How the request ended, if it has: the count of deleted messages where the
/// range was consumed and nothing was passed over, `PartialFailure` where it
/// was consumed but some single deletions failed, and the error where the
/// request was given up.
pub open spec fn outcome_of(state: WorkflowView) -> Option<Result<u64, BulkDeleteError>> {
    match state {
        WorkflowView::Done { deleted_count, failed_count } => if failed_count == 0 {
            Some(Ok(deleted_count))
        } else {
            Some(Err(BulkDeleteError::PartialFailure))
        },
        WorkflowView::Failed { error, .. } => Some(Err(error)),
        _ => None,
    }
}

struct Progress {
    channel: u64,
    remaining: DeletionRange,
    first_page: bool,
    deleted_count: u64,
    failed_count: u64,
}

impl View for Progress {
    type V = ProgressView;

    closed spec fn view(&self) -> ProgressView {
        ProgressView {
            channel: self.channel,
            remaining: self.remaining@,
            first_page: self.first_page,
            deleted_count: self.deleted_count,
            failed_count: self.failed_count,
        }
    }
}

enum State {
    Start { request: Request },
    Authorizing { request: Request },
    Resolving { request: Request },
    Paginating { progress: Progress },
    Deleting {
        progress: Progress,
        queue: Vec<MessageRef>,
        cursor: usize,
        bulk: Vec<MessageRef>,
        next: Option<MessageRef>,
    },
    DeletingBulk { progress: Progress, requested: usize, next: Option<MessageRef> },
    Done { deleted_count: u64, failed_count: u64 },
    Failed { error: BulkDeleteError, deleted_count: u64 },
}

impl View for State {
    type V = WorkflowView;

    closed spec fn view(&self) -> WorkflowView {
        match self {
            State::Start { request } => WorkflowView::Start { request: *request },
            State::Authorizing { request } => WorkflowView::Authorizing { request: *request },
            State::Resolving { request } => WorkflowView::Resolving { request: *request },
            State::Paginating { progress } => WorkflowView::Paginating { progress: progress@ },
            State::Deleting { progress, queue, cursor, bulk, next } => WorkflowView::Deleting {
                progress: progress@,
                queue: queue@,
                cursor: *cursor as int,
                bulk: bulk@,
                next: *next,
            },
            State::DeletingBulk { progress, requested, next } => WorkflowView::DeletingBulk {
                progress: progress@,
                requested: *requested,
                next: *next,
            },
            State::Done { deleted_count, failed_count } => WorkflowView::Done {
                deleted_count: *deleted_count,
                failed_count: *failed_count,
            },
            State::Failed { error, deleted_count } => WorkflowView::Failed {
                error: *error,
                deleted_count: *deleted_count,
            },
        }
    }
}

/// One deletion request on its way from `Start` to `Done` or `Failed`.
///
/// The workflow makes no call itself. [`Workflow::step`] takes what happened
/// and returns what to do next; whoever runs it performs that action and
/// comes back with the outcome.
pub struct Workflow {
    state: State,
}

impl View for Workflow {
    type V = WorkflowView;

    closed spec fn view(&self) -> WorkflowView {
        self.state@
    }
}

fn give_up(error: BulkDeleteError, deleted_count: u64) -> (out: (Workflow, Action))
    ensures
        (out.0@, out.1@) == failed(error, deleted_count),
{
    (Workflow { state: State::Failed { error, deleted_count } }, Action::Abort {
        error,
        deleted_count,
    })
}

impl DeletionOutcome {
    /// The outcome of a page of `range` once its calls are answered
    /// ([`outcome_of_page`]): `deleted_count` deletions are confirmed, and
    /// `next` is the anchor that the partitioner named for the next page.
    pub fn after_page(
        deleted_count: u64,
        range: &DeletionRange,
        next: Option<MessageRef>,
    ) -> (outcome: DeletionOutcome)
        ensures
            outcome == outcome_of_page(deleted_count, range@, next),
    {
        match next {
            Some(anchor) => DeletionOutcome {
                deleted_count,
                last_message_processed: anchor,
                exhausted: false,
            },
            None => DeletionOutcome {
                deleted_count,
                last_message_processed: range.later(),
                exhausted: true,
            },
        }
    }
}

fn go_on(progress: Progress, next: Option<MessageRef>) -> (out: (Workflow, Action))
    requires
        goes_on(progress@.remaining, next),
    ensures
        (out.0@, out.1@) == advance(progress@, next),
{
    let outcome = DeletionOutcome::after_page(progress.deleted_count, &progress.remaining, next);
    if outcome.exhausted {
        (
            Workflow {
                state: State::Done {
                    deleted_count: outcome.deleted_count,
                    failed_count: progress.failed_count,
                },
            },
            Action::Complete {
                deleted_count: outcome.deleted_count,
                failed_count: progress.failed_count,
            },
        )
    } else {
        let anchor = outcome.last_message_processed;
        let remaining = progress.remaining.rest_after(anchor);
        let channel = progress.channel;
        let progress = Progress {
            channel,
            remaining,
            first_page: false,
            deleted_count: outcome.deleted_count,
            failed_count: progress.failed_count,
        };
        (Workflow { state: State::Paginating { progress } }, Action::FetchPage {
            channel,
            after: anchor,
            limit: PAGE_MAX,
        })
    }
}

fn finish_singles(progress: Progress, bulk: Vec<MessageRef>, next: Option<MessageRef>) -> (out: (
    Workflow,
    Action,
))
    requires
        goes_on(progress@.remaining, next),
    ensures
        (out.0@, out.1@) == after_singles(progress@, bulk@, next),
{
    if BULK_MIN <= bulk.len() && bulk.len() <= BULK_MAX {
        proof {
            use_type_invariant(&progress.remaining);
        }
        let channel = progress.channel;
        let requested = bulk.len();
        (Workflow { state: State::DeletingBulk { progress, requested, next } }, Action::DeleteBulk {
            channel,
            messages: bulk,
        })
    } else {
        go_on(progress, next)
    }
}

fn start_deleting(progress: Progress, plan: DeletionPlan, next: Option<MessageRef>) -> (out: (
    Workflow,
    Action,
))
    requires
        goes_on(progress@.remaining, next),
        plan@.bulk.len() == 0 || BULK_MIN <= plan@.bulk.len() <= BULK_MAX,
    ensures
        (out.0@, out.1@) == begin_deleting(progress@, plan@, next),
{
    let DeletionPlan { singles, bulk } = plan;
    if singles.len() > 0 {
        proof {
            use_type_invariant(&progress.remaining);
        }
        let channel = progress.channel;
        let message = singles[0];
        (
            Workflow { state: State::Deleting { progress, queue: singles, cursor: 0, bulk, next } },
            Action::DeleteIndividual { channel, message },
        )
    } else {
        finish_singles(progress, bulk, next)
    }
}

fn take_page(progress: Progress, page: Vec<MessageRef>, threshold: i64) -> (out: (Workflow, Action))
    requires
        page@.len() <= page_limit(progress@.first_page),
    ensures
        (out.0@, out.1@) == on_page(progress@, page@, threshold),
{
    let (batch, next, exhausted) = partition(&page, &progress.remaining, threshold);
    if !exhausted && next.is_none() {
        return give_up(BulkDeleteError::NoProgress, progress.deleted_count);
    }
    proof {
        lemma_next_anchor(page@, progress@.remaining);
        lemma_routed_len(page@, progress@.remaining, threshold, page@.len());
    }
    let batch = if progress.first_page {
        include_bookend(batch, progress.remaining.earlier(), threshold)
    } else {
        batch
    };
    let plan = schedule(batch);
    let progress = Progress {
        channel: progress.channel,
        remaining: progress.remaining,
        first_page: false,
        deleted_count: progress.deleted_count,
        failed_count: progress.failed_count,
    };
    start_deleting(progress, plan, next)
}

fn begin_paging(channel: u64, range: DeletionRange, threshold: i64) -> (out: (Workflow, Action))
    ensures
        (out.0@, out.1@) == start_paging(channel, range@, threshold),
{
    let earlier = range.earlier();
    let later = range.later();
    let progress = Progress {
        channel,
        remaining: range,
        first_page: true,
        deleted_count: 0,
        failed_count: 0,
    };
    if earlier.id == later.id {
        take_page(progress, Vec::new(), threshold)
    } else {
        (Workflow { state: State::Paginating { progress } }, Action::FetchPage {
            channel,
            after: earlier,
            limit: FIRST_PAGE_LIMIT,
        })
    }
}

fn take_individual(
    progress: Progress,
    queue: Vec<MessageRef>,
    cursor: usize,
    bulk: Vec<MessageRef>,
    next: Option<MessageRef>,
    answer: Result<(), BulkDeleteError>,
) -> (out: (Workflow, Action))
    requires
        cursor < queue@.len(),
        bulk@.len() == 0 || BULK_MIN <= bulk@.len() <= BULK_MAX,
        goes_on(progress@.remaining, next),
    ensures
        (out.0@, out.1@) == on_individual(progress@, queue@, cursor as int, bulk@, next, answer),
{
    let mut progress = progress;
    match individual_outcome(answer) {
        Ok(()) => {
            progress.deleted_count = progress.deleted_count.saturating_add(1);
        },
        Err(_) => {
            progress.failed_count = progress.failed_count.saturating_add(1);
        },
    }
    let len = queue.len();
    if cursor + 1 < len {
        proof {
            use_type_invariant(&progress.remaining);
        }
        let channel = progress.channel;
        let message = queue[cursor + 1];
        (
            Workflow { state: State::Deleting { progress, queue, cursor: cursor + 1, bulk, next } },
            Action::DeleteIndividual { channel, message },
        )
    } else {
        finish_singles(progress, bulk, next)
    }
}

fn take_bulk(
    progress: Progress,
    requested: usize,
    next: Option<MessageRef>,
    answer: Result<(), BulkDeleteError>,
) -> (out: (Workflow, Action))
    requires
        BULK_MIN <= requested,
        goes_on(progress@.remaining, next),
    ensures
        (out.0@, out.1@) == on_bulk(progress@, requested, next, answer),
{
    match bulk_outcome(requested, answer) {
        Ok(n) => {
            let mut progress = progress;
            progress.deleted_count = progress.deleted_count.saturating_add(n as u64);
            go_on(progress, next)
        },
        Err(error) => give_up(error, progress.deleted_count),
    }
}

impl Workflow {
    /// Every workflow is in a well-formed state.
    #[verifier::type_invariant]
    pub closed spec fn inv(self) -> bool {
        self@.wf()
    }

    /// A workflow for `request`, in `Start`.
    pub fn new(request: Request) -> (workflow: Workflow)
        ensures
            workflow@ == (WorkflowView::Start { request }),
    {
        Workflow { state: State::Start { request } }
    }

    /// One step of the workflow, with the age threshold given
    /// ([`step_spec`]).
    pub fn step_at(self, event: Event, threshold: i64) -> (out: (Workflow, Action))
        ensures
            self@.wf(),
            out.0@.wf(),
            (out.0@, out.1@) == step_spec(self@, event@, threshold),
    {
        proof {
            use_type_invariant(&self);
        }
        let out = match self.state {
            State::Start { request } => match event {
                Event::Begin => (
                    Workflow { state: State::Authorizing { request } },
                    Action::ResolveRoles,
                ),
                _ => give_up(BulkDeleteError::UnexpectedEvent, 0),
            },
            State::Authorizing { request } => match event {
                Event::RolesResolved(actor) => if authorize(&actor, MANAGE_MESSAGES) {
                    (Workflow { state: State::Resolving { request } }, Action::FetchBookends {
                        channel: request.channel,
                        id_a: request.id_a,
                        id_b: request.id_b,
                    })
                } else {
                    give_up(BulkDeleteError::Unauthorized, 0)
                },
                _ => give_up(BulkDeleteError::UnexpectedEvent, 0),
            },
            State::Resolving { request } => match event {
                Event::BookendsFetched(a, b) => match resolve(
                    request.channel,
                    request.id_a,
                    request.id_b,
                    a,
                    b,
                ) {
                    Ok(range) => begin_paging(request.channel, range, threshold),
                    Err(_) => give_up(BulkDeleteError::BadRange, 0),
                },
                _ => give_up(BulkDeleteError::UnexpectedEvent, 0),
            },
            State::Paginating { progress } => match event {
                Event::PageFetched(fetched) => {
                    let limit = if progress.first_page {
                        FIRST_PAGE_LIMIT
                    } else {
                        PAGE_MAX
                    };
                    proof {
                        if fetched is Ok {
                            lemma_normalized_len(fetched->Ok_0@, limit);
                        }
                    }
                    match page_after(limit, fetched) {
                        Ok(page) => take_page(progress, page, threshold),
                        Err(error) => give_up(error, progress.deleted_count),
                    }
                },
                _ => give_up(BulkDeleteError::UnexpectedEvent, progress.deleted_count),
            },
            State::Deleting { progress, queue, cursor, bulk, next } => match event {
                Event::IndividualDeleted(answer) => take_individual(
                    progress,
                    queue,
                    cursor,
                    bulk,
                    next,
                    answer,
                ),
                _ => give_up(BulkDeleteError::UnexpectedEvent, progress.deleted_count),
            },
            State::DeletingBulk { progress, requested, next } => match event {
                Event::BulkDeleted(answer) => take_bulk(progress, requested, next, answer),
                _ => give_up(BulkDeleteError::UnexpectedEvent, progress.deleted_count),
            },
            State::Done { deleted_count, failed_count } => (
                Workflow { state: State::Done { deleted_count, failed_count } },
                Action::Halt,
            ),
            State::Failed { error, deleted_count } => (
                Workflow { state: State::Failed { error, deleted_count } },
                Action::Halt,
            ),
        };
        proof {
            use_type_invariant(&out.0);
        }
        out
    }

    /// One step of the workflow, at this moment: the age threshold is taken
    /// from the clock, and the step is that of [`Workflow::step_at`] with it.
    pub fn step(self, event: Event) -> (out: (Workflow, Action))
        ensures
            self@.wf(),
            out.0@.wf(),
            exists|now: i64| (out.0@, out.1@) == step_spec(self@, event@, threshold_at(now)),
    {
        let threshold = two_weeks_ago();
        self.step_at(event, threshold)
    }

    /// The stage that the workflow is in.
    pub fn phase(&self) -> (phase: Phase)
        ensures
            phase == phase_of(self@),
    {
        match &self.state {
            State::Start { .. } => Phase::Start,
            State::Authorizing { .. } => Phase::Authorizing,
            State::Resolving { .. } => Phase::Resolving,
            State::Paginating { .. } => Phase::Paginating,
            State::Deleting { .. } => Phase::Deleting,
            State::DeletingBulk { .. } => Phase::Deleting,
            State::Done { .. } => Phase::Done,
            State::Failed { .. } => Phase::Failed,
        }
    }

    /// The deletions that the platform has confirmed so far.
    pub fn deleted_count(&self) -> (count: u64)
        ensures
            count == self@.deleted_count(),
    {
        match &self.state {
            State::Paginating { progress } => progress.deleted_count,
            State::Deleting { progress, .. } => progress.deleted_count,
            State::DeletingBulk { progress, .. } => progress.deleted_count,
            State::Done { deleted_count, .. } => *deleted_count,
            State::Failed { deleted_count, .. } => *deleted_count,
            _ => 0,
        }
    }

    /// How the request ended ([`outcome_of`]); `None` while it is under way.
    pub fn outcome(&self) -> (outcome: Option<Result<u64, BulkDeleteError>>)
        ensures
            outcome == outcome_of(self@),
    {
        match &self.state {
            State::Done { deleted_count, failed_count } => if *failed_count == 0 {
                Some(Ok(*deleted_count))
            } else {
                Some(Err(BulkDeleteError::PartialFailure))
            },
            State::Failed { error, .. } => Some(Err(*error)),
            _ => None,
        }
    }
}

} // verus!
