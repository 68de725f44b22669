//! What holds of the states that a workflow runs through, of the calls that
//! it asks for, and of its count.

use vstd::prelude::*;
use crate::bulkdel::executor::{BULK_MAX, BULK_MIN, confirms};
use crate::bulkdel::message::{MessageRef, ordered};
use crate::bulkdel::paginator::{lemma_normalized_len, normalized};
use crate::bulkdel::partitioner::{lemma_next_anchor, lemma_routed_len};
use crate::bulkdel::resolver::found_in;
use crate::bulkdel::workflow::{
    ActionView, EventView, ProgressView, WorkflowView, credited, on_page, page_limit, step_spec,
};

verus! {

/// What an event and the age threshold at its time are to a run.
pub struct Timed {
    pub event: EventView,
    pub threshold: i64,
}

/// The state after a run of events, each taken at its time.
pub open spec fn run(state: WorkflowView, events: Seq<Timed>) -> WorkflowView
    decreases events.len(),
{
    if events.len() == 0 {
        state
    } else {
        step_spec(run(state, events.drop_last()), events.last().event, events.last().threshold).0
    }
}

/// The deletions that an event confirms to a state: one where the state
/// waits for a single deletion and the answer confirms it, as many as were
/// requested where it waits for a bulk call and the answer confirms it, and
/// none otherwise.
pub open spec fn confirmed(state: WorkflowView, event: EventView) -> nat {
    match (state, event) {
        (WorkflowView::Deleting { .. }, EventView::IndividualDeleted(answer)) => if confirms(
            answer,
        ) {
            1
        } else {
            0
        },
        (WorkflowView::DeletingBulk { requested, .. }, EventView::BulkDeleted(answer)) => if confirms(
            answer,
        ) {
            requested as nat
        } else {
            0
        },
        _ => 0,
    }
}

/// The deletions that were confirmed in the course of a run.
pub open spec fn confirmed_in(state: WorkflowView, events: Seq<Timed>) -> nat
    decreases events.len(),
{
    if events.len() == 0 {
        0
    } else {
        confirmed_in(state, events.drop_last()) + confirmed(
            run(state, events.drop_last()),
            events.last().event,
        )
    }
}

/// The workflow keeps its state well formed.
pub proof fn law_step_keeps_wf(state: WorkflowView, event: EventView, threshold: i64)
    requires
        state.wf(),
    ensures
        step_spec(state, event, threshold).0.wf(),
{
    match state {
        WorkflowView::Resolving { request } => {
            if let EventView::BookendsFetched(a, b) = event {
                if found_in(request.channel, request.id_a, a) && found_in(
                    request.channel,
                    request.id_b,
                    b,
                ) {
                    let range = ordered(a->0, b->0);
                    let progress = ProgressView {
                        channel: request.channel,
                        remaining: range,
                        first_page: true,
                        deleted_count: 0,
                        failed_count: 0,
                    };
                    if range.is_single() {
                        lemma_on_page_wf(progress, Seq::empty(), threshold);
                    }
                }
            }
        },
        WorkflowView::Paginating { progress } => {
            if let EventView::PageFetched(Ok(raw)) = event {
                lemma_normalized_len(raw, page_limit(progress.first_page));
                lemma_on_page_wf(
                    progress,
                    normalized(raw, page_limit(progress.first_page)),
                    threshold,
                );
            }
        },
        _ => {},
    }
}

/// What `on_page` leads to is well formed, if the page is no longer than
/// what was asked for.
proof fn lemma_on_page_wf(progress: ProgressView, page: Seq<MessageRef>, threshold: i64)
    requires
        progress.remaining.wf(),
        page.len() <= page_limit(progress.first_page),
    ensures
        on_page(progress, page, threshold).0.wf(),
{
    lemma_next_anchor(page, progress.remaining);
    lemma_routed_len(page, progress.remaining, threshold, page.len());
}

/// The state after any run from a well-formed state is well formed.
pub proof fn law_run_keeps_wf(state: WorkflowView, events: Seq<Timed>)
    requires
        state.wf(),
    ensures
        run(state, events).wf(),
    decreases events.len(),
{
    if events.len() > 0 {
        law_run_keeps_wf(state, events.drop_last());
        law_step_keeps_wf(
            run(state, events.drop_last()),
            events.last().event,
            events.last().threshold,
        );
    }
}

/// One step adds to the count exactly the deletions that its event
/// confirms.
pub proof fn law_step_counts(state: WorkflowView, event: EventView, threshold: i64)
    ensures
        step_spec(state, event, threshold).0.deleted_count() == credited(
            state.deleted_count(),
            confirmed(state, event) as int,
        ),
{
}

/// Aggregation is correct: after any run, the count is the count before it
/// and the deletions that were confirmed in its course, as far as the
/// counter goes.
pub proof fn law_run_counts(state: WorkflowView, events: Seq<Timed>)
    ensures
        run(state, events).deleted_count() == credited(
            state.deleted_count(),
            confirmed_in(state, events) as int,
        ),
    decreases events.len(),
{
    if events.len() > 0 {
        law_run_counts(state, events.drop_last());
        law_step_counts(
            run(state, events.drop_last()),
            events.last().event,
            events.last().threshold,
        );
    }
}

/// The call that a state waits for: the action that led into it.
pub open spec fn awaits(state: WorkflowView, action: ActionView) -> bool {
    match state {
        WorkflowView::Start { .. } => true,
        WorkflowView::Authorizing { .. } => action == ActionView::ResolveRoles,
        WorkflowView::Resolving { request } => action == (ActionView::FetchBookends {
            channel: request.channel,
            id_a: request.id_a,
            id_b: request.id_b,
        }),
        WorkflowView::Paginating { progress } => action == (ActionView::FetchPage {
            channel: progress.channel,
            after: progress.remaining.earlier,
            limit: page_limit(progress.first_page),
        }),
        WorkflowView::Deleting { progress, queue, cursor, .. } => action
            == (ActionView::DeleteIndividual { channel: progress.channel, message: queue[cursor] }),
        WorkflowView::DeletingBulk { progress, requested, .. } => action matches ActionView::DeleteBulk {
            channel,
            messages,
        } && channel == progress.channel && messages.len() == requested,
        WorkflowView::Done { deleted_count, failed_count } => action == (ActionView::Complete {
            deleted_count,
            failed_count,
        }) || action == ActionView::Halt,
        WorkflowView::Failed { error, deleted_count } => action == (ActionView::Abort {
            error,
            deleted_count,
        }) || action == ActionView::Halt,
    }
}

/// Each step asks for the call that its new state waits for. So a bulk call
/// is asked for between two and a hundred messages, and is counted, once
/// confirmed, as exactly the messages that it named; and every page is
/// asked for after the last message dealt with.
pub proof fn law_step_asks(state: WorkflowView, event: EventView, threshold: i64)
    requires
        state.wf(),
    ensures
        awaits(step_spec(state, event, threshold).0, step_spec(state, event, threshold).1),
        step_spec(state, event, threshold).1 matches ActionView::DeleteBulk { messages, .. }
            ==> BULK_MIN <= messages.len() <= BULK_MAX,
{
    law_step_keeps_wf(state, event, threshold);
}

} // verus!
