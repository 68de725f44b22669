//! Why a workflow ends.

use vstd::prelude::*;
use crate::bulkdel::error::BulkDeleteError;
use crate::bulkdel::message::{MessageRef, RangeView, ordered};
use crate::bulkdel::paginator::{lemma_normalized_from, lemma_normalized_len, normalized};
use crate::bulkdel::partitioner::{
    lemma_latest, lemma_next_anchor, next_anchor, passes, reaches_end,
};
use crate::bulkdel::resolver::found_in;
use crate::bulkdel::workflow::{
    EventView, ProgressView, WorkflowView, failed, page_limit, step_spec,
};

verus! {

/// A page that brings nothing while the range goes on ends the request: the
/// workflow does not ask for another page, it fails with `NoProgress`, and
/// the count is what it was.
pub proof fn law_empty_page_fails(progress: ProgressView, threshold: i64)
    requires
        (WorkflowView::Paginating { progress }).wf(),
    ensures
        step_spec(
            WorkflowView::Paginating { progress },
            EventView::PageFetched(Ok(Seq::empty())),
            threshold,
        ) == failed(BulkDeleteError::NoProgress, progress.deleted_count),
{
    let raw = Seq::<MessageRef>::empty();
    lemma_normalized_len(raw, page_limit(progress.first_page));
    assert(normalized(raw, page_limit(progress.first_page)) =~= raw);
}

/// The same of any page that holds neither the later end of the range, nor
/// a message beyond it, nor one after the anchor.
pub proof fn law_stale_page_fails(progress: ProgressView, raw: Seq<MessageRef>, threshold: i64)
    requires
        (WorkflowView::Paginating { progress }).wf(),
        forall|i: int|
            0 <= i < raw.len() ==> (#[trigger] raw[i]).timestamp
                <= progress.remaining.earlier.timestamp && raw[i].id != progress.remaining.later.id,
    ensures
        step_spec(
            WorkflowView::Paginating { progress },
            EventView::PageFetched(Ok(raw)),
            threshold,
        ) == failed(BulkDeleteError::NoProgress, progress.deleted_count),
{
    let range = progress.remaining;
    let page = normalized(raw, page_limit(progress.first_page));
    lemma_normalized_from(raw, page_limit(progress.first_page));
    assert forall|i: int| 0 <= i < page.len() implies (#[trigger] page[i]).timestamp
        <= range.earlier.timestamp && page[i].id != range.later.id by {
        assert(raw.contains(page[i]));
        let k = choose|k: int| 0 <= k < raw.len() && raw[k] == page[i];
        assert(raw[k] == page[i]);
    }
    lemma_latest(page, page.len());
    if next_anchor(page, range) is Some {
        let a = next_anchor(page, range)->0;
        let i = choose|i: int| 0 <= i < page.len() && page[i] == a;
        assert(page[i].timestamp <= range.earlier.timestamp);
    }
    if reaches_end(page, range) {
        let i = choose|i: int|
            0 <= i < page.len() && passes(#[trigger] page[i], range);
        assert(page[i].timestamp <= range.earlier.timestamp);
    }
}

/// How far a state is from the end of its workflow, most significant part
/// first: the stages still to come, the time between the last message dealt
/// with and the later end of the range, the calls still to come for the
/// page at hand by kind, and the single deletions still to come.
pub struct Distance {
    pub stage: nat,
    pub span: nat,
    pub kind: nat,
    pub queued: nat,
}

/// `b` is nearer to the end than `a`.
pub open spec fn nearer(b: Distance, a: Distance) -> bool {
    ||| b.stage < a.stage
    ||| b.stage == a.stage && b.span < a.span
    ||| b.stage == a.stage && b.span == a.span && b.kind < a.kind
    ||| b.stage == a.stage && b.span == a.span && b.kind == a.kind && b.queued < a.queued
}

/// The time that a range spans.
pub open spec fn span_of(range: RangeView) -> nat {
    (range.later.timestamp - range.earlier.timestamp) as nat
}

/// The distance of a state from the end.
pub open spec fn distance(state: WorkflowView) -> Distance {
    match state {
        WorkflowView::Start { .. } => Distance { stage: 4, span: 0, kind: 0, queued: 0 },
        WorkflowView::Authorizing { .. } => Distance { stage: 3, span: 0, kind: 0, queued: 0 },
        WorkflowView::Resolving { .. } => Distance { stage: 2, span: 0, kind: 0, queued: 0 },
        WorkflowView::Paginating { progress } => Distance {
            stage: 1,
            span: span_of(progress.remaining),
            kind: 2,
            queued: 0,
        },
        WorkflowView::Deleting { progress, queue, cursor, .. } => Distance {
            stage: 1,
            span: span_of(progress.remaining),
            kind: 1,
            queued: (queue.len() - cursor) as nat,
        },
        WorkflowView::DeletingBulk { progress, .. } => Distance {
            stage: 1,
            span: span_of(progress.remaining),
            kind: 0,
            queued: 0,
        },
        WorkflowView::Done { .. } => Distance { stage: 0, span: 0, kind: 0, queued: 0 },
        WorkflowView::Failed { .. } => Distance { stage: 0, span: 0, kind: 0, queued: 0 },
    }
}

/// The workflow terminates: every step from a state that has not ended
/// leads to a state that is nearer to the end, in an order that has no
/// endless descent. In particular each page moves the anchor forward in
/// time, and a state that has ended stays as it is.
pub proof fn law_step_comes_nearer(state: WorkflowView, event: EventView, threshold: i64)
    requires
        state.wf(),
    ensures
        !state.is_terminal() ==> nearer(
            distance(step_spec(state, event, threshold).0),
            distance(state),
        ),
        state.is_terminal() ==> step_spec(state, event, threshold).0 == state,
{
    match state {
        WorkflowView::Resolving { request } => {
            if let EventView::BookendsFetched(a, b) = event {
                if found_in(request.channel, request.id_a, a) && found_in(
                    request.channel,
                    request.id_b,
                    b,
                ) {
                    let range = ordered(a->0, b->0);
                    let progress = ProgressView {
                        channel: request.channel,
                        remaining: range,
                        first_page: true,
                        deleted_count: 0,
                        failed_count: 0,
                    };
                    lemma_next_anchor(Seq::empty(), range);
                }
            }
        },
        WorkflowView::Paginating { progress } => {
            if let EventView::PageFetched(Ok(raw)) = event {
                lemma_next_anchor(
                    normalized(raw, page_limit(progress.first_page)),
                    progress.remaining,
                );
            }
        },
        _ => {},
    }
}

} // verus!
