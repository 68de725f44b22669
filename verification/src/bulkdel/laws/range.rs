//! Why a workflow deletes nothing outside its range.

use vstd::prelude::*;
use crate::bulkdel::laws::counting::{Timed, law_run_keeps_wf, run};
use crate::bulkdel::laws::once::{
    candidates, lemma_candidates, lemma_page_names_candidates, named_by, named_in, pending,
};
use crate::bulkdel::message::{MessageRef, RangeView};
use crate::bulkdel::paginator::{lemma_normalized_len, normalized};
use crate::bulkdel::partitioner::{eligible, lemma_next_anchor};
use crate::bulkdel::workflow::{
    EventView, ProgressView, WorkflowView, on_page, page_limit, start_paging, step_spec,
};

verus! {

/// The message belongs to the range: it is the earlier end, or it is not
/// later than the later end and lies after the earlier end or is the later
/// end itself.
pub open spec fn inside(m: MessageRef, range: RangeView) -> bool {
    ||| m == range.earlier
    ||| m.timestamp <= range.later.timestamp && (range.earlier.timestamp < m.timestamp || m.id
        == range.later.id)
}

/// The state works on `range`, or on what is left of it: what remains ends
/// where `range` ends and begins no earlier, and every message that the
/// state will still ask to delete belongs to `range`. A state that has
/// ended works on nothing any more.
pub open spec fn confined(state: WorkflowView, range: RangeView) -> bool {
    match state {
        WorkflowView::Paginating { progress } => if progress.first_page {
            progress.remaining == range
        } else {
            &&& progress.remaining.later == range.later
            &&& range.earlier.timestamp <= progress.remaining.earlier.timestamp
        },
        WorkflowView::Deleting { progress, .. } => {
            &&& progress.remaining.later == range.later
            &&& range.earlier.timestamp <= progress.remaining.earlier.timestamp
            &&& forall|i: int|
                0 <= i < pending(state).len() ==> inside(#[trigger] pending(state)[i], range)
        },
        WorkflowView::DeletingBulk { progress, .. } => {
            &&& progress.remaining.later == range.later
            &&& range.earlier.timestamp <= progress.remaining.earlier.timestamp
        },
        WorkflowView::Done { .. } => true,
        WorkflowView::Failed { .. } => true,
        _ => false,
    }
}

/// What a page of the rest of `range` leads to works on `range` still, and
/// asks to delete only what belongs to it.
proof fn lemma_page_stays_in_range(
    progress: ProgressView,
    page: Seq<MessageRef>,
    threshold: i64,
    range: RangeView,
)
    requires
        progress.remaining.wf(),
        page.len() <= page_limit(progress.first_page),
        confined(WorkflowView::Paginating { progress }, range),
    ensures
        confined(on_page(progress, page, threshold).0, range),
        forall|i: int|
            0 <= i < named_by(on_page(progress, page, threshold).1).len() ==> inside(
                #[trigger] named_by(on_page(progress, page, threshold).1)[i],
                range,
            ),
{
    let out = on_page(progress, page, threshold);
    if !(out.0 is Failed) {
        lemma_page_names_candidates(progress, page, threshold);
        lemma_candidates(progress, page, threshold);
        lemma_next_anchor(page, progress.remaining);
        let fresh = candidates(progress, page, threshold);
        let named = named_by(out.1);
        let held = pending(out.0);
        assert forall|i: int| 0 <= i < fresh.len() implies inside(#[trigger] fresh[i], range) by {
            let m = fresh[i];
            assert(progress.first_page && m == progress.remaining.earlier || page.contains(m)
                && eligible(m, progress.remaining));
        }
        assert forall|i: int| 0 <= i < named.len() implies inside(#[trigger] named[i], range) by {
            assert((named + held)[i] == named[i]);
        }
        assert forall|i: int| 0 <= i < held.len() implies inside(#[trigger] held[i], range) by {
            assert((named + held)[named.len() + i] == held[i]);
        }
    }
}

/// A workflow that has its range works on it from the first step: what the
/// ordering of the bookends leads to is confined to the range, and asks to
/// delete only what belongs to it.
pub proof fn law_start_is_in_range(channel: u64, range: RangeView, threshold: i64)
    requires
        range.wf(),
    ensures
        confined(start_paging(channel, range, threshold).0, range),
        forall|i: int|
            0 <= i < named_by(start_paging(channel, range, threshold).1).len() ==> inside(
                #[trigger] named_by(start_paging(channel, range, threshold).1)[i],
                range,
            ),
{
    if range.is_single() {
        let progress = ProgressView {
            channel,
            remaining: range,
            first_page: true,
            deleted_count: 0,
            failed_count: 0,
        };
        lemma_page_stays_in_range(progress, Seq::empty(), threshold, range);
    }
}

/// No step leaves the range: a state that works on `range` leads to one
/// that does, and the step asks to delete only what belongs to `range`.
pub proof fn law_step_stays_in_range(
    state: WorkflowView,
    event: EventView,
    threshold: i64,
    range: RangeView,
)
    requires
        state.wf(),
        confined(state, range),
    ensures
        confined(step_spec(state, event, threshold).0, range),
        forall|i: int|
            0 <= i < named_by(step_spec(state, event, threshold).1).len() ==> inside(
                #[trigger] named_by(step_spec(state, event, threshold).1)[i],
                range,
            ),
{
    let out = step_spec(state, event, threshold);
    match state {
        WorkflowView::Paginating { progress } => {
            if let EventView::PageFetched(Ok(raw)) = event {
                lemma_normalized_len(raw, page_limit(progress.first_page));
                lemma_page_stays_in_range(
                    progress,
                    normalized(raw, page_limit(progress.first_page)),
                    threshold,
                    range,
                );
            }
        },
        WorkflowView::Deleting { progress, queue, cursor, bulk, next } => {
            if let EventView::IndividualDeleted(answer) = event {
                let held = pending(state);
                let named = named_by(out.1);
                assert(named + pending(out.0) =~= held || out.0 is Paginating || out.0 is Done) by {
                    if cursor + 1 < queue.len() {
                        assert(seq![queue[cursor + 1]] + queue.skip(cursor + 2) =~= queue.skip(
                            cursor + 1,
                        ));
                    } else {
                        assert(queue.skip(cursor + 1) =~= Seq::empty());
                    }
                }
                if !(out.0 is Paginating || out.0 is Done) {
                    let left = pending(out.0);
                    assert forall|i: int| 0 <= i < named.len() implies inside(
                        #[trigger] named[i],
                        range,
                    ) by {
                        assert((named + left)[i] == named[i]);
                        assert(inside(held[i], range));
                    }
                    assert forall|i: int| 0 <= i < left.len() implies inside(
                        #[trigger] left[i],
                        range,
                    ) by {
                        assert((named + left)[named.len() + i] == left[i]);
                        assert(inside(held[named.len() + i], range));
                    }
                }
            }
        },
        _ => {},
    }
}

/// A workflow deletes nothing outside its range: in any run from a state
/// that works on `range`, every message that an action asks to delete
/// belongs to `range`.
pub proof fn law_run_stays_in_range(state: WorkflowView, events: Seq<Timed>, range: RangeView)
    requires
        state.wf(),
        confined(state, range),
    ensures
        confined(run(state, events), range),
        forall|i: int|
            0 <= i < named_in(state, events).len() ==> inside(
                #[trigger] named_in(state, events)[i],
                range,
            ),
    decreases events.len(),
{
    if events.len() > 0 {
        let before = events.drop_last();
        law_run_stays_in_range(state, before, range);
        law_run_keeps_wf(state, before);
        law_step_stays_in_range(
            run(state, before),
            events.last().event,
            events.last().threshold,
            range,
        );
        let earlier = named_in(state, before);
        let now = named_by(
            step_spec(run(state, before), events.last().event, events.last().threshold).1,
        );
        assert forall|i: int| 0 <= i < named_in(state, events).len() implies inside(
            #[trigger] named_in(state, events)[i],
            range,
        ) by {
            if i < earlier.len() {
                assert(named_in(state, events)[i] == earlier[i]);
            } else {
                assert(named_in(state, events)[i] == now[i - earlier.len()]);
            }
        }
    }
}

} // verus!
