//! Why a workflow asks for the deletion of each message once.

use vstd::prelude::*;
use crate::bulkdel::executor::scheduled;
use crate::bulkdel::message::{MessageRef, RangeView, ordered};
use crate::bulkdel::paginator::{insert_by_time, lemma_normalized_len, normalized, sorted_by_time};
use crate::bulkdel::partitioner::{
    eligible, is_old, lemma_latest, lemma_next_anchor, lemma_routed_len, next_anchor, passes,
    reaches_end, routed,
};
use crate::bulkdel::resolver::found_in;
use crate::bulkdel::workflow::{
    ActionView, EventView, ProgressView, WorkflowView, batch_of, on_page, page_limit,
    start_paging, step_spec,
};
use crate::bulkdel::laws::partition::{
    law_bookends_only, law_partition_is_correct, law_routed_disjoint, law_routed_distinct,
};
use crate::bulkdel::laws::counting::{Timed, law_run_keeps_wf, run};

verus! {

/// The messages that an action asks to delete.
pub open spec fn named_by(action: ActionView) -> Seq<MessageRef> {
    match action {
        ActionView::DeleteIndividual { message, .. } => seq![message],
        ActionView::DeleteBulk { messages, .. } => messages,
        _ => Seq::empty(),
    }
}

/// The messages that the actions of a run ask to delete, in order.
pub open spec fn named_in(state: WorkflowView, events: Seq<Timed>) -> Seq<MessageRef>
    decreases events.len(),
{
    if events.len() == 0 {
        Seq::empty()
    } else {
        named_in(state, events.drop_last()) + named_by(
            step_spec(run(state, events.drop_last()), events.last().event, events.last().threshold).1,
        )
    }
}

/// The messages that a state will still ask to delete for the page at hand.
pub open spec fn pending(state: WorkflowView) -> Seq<MessageRef> {
    match state {
        WorkflowView::Deleting { queue, cursor, bulk, .. } => queue.skip(cursor + 1) + bulk,
        _ => Seq::empty(),
    }
}

/// The message lies behind the range: no page of what remains takes it.
pub open spec fn behind(m: MessageRef, range: RangeView) -> bool {
    m.timestamp <= range.earlier.timestamp && m.id != range.later.id
}

/// What holds between a state and the messages that were asked to be
/// deleted on the way to it: they, and those that the state will still ask
/// for, are all different; and none of them can come up again in what
/// remains of the range.
pub open spec fn apart(state: WorkflowView, named: Seq<MessageRef>) -> bool {
    let total = named + pending(state);
    &&& total.no_duplicates()
    &&& match state {
        WorkflowView::Start { .. } => named.len() == 0,
        WorkflowView::Authorizing { .. } => named.len() == 0,
        WorkflowView::Resolving { .. } => named.len() == 0,
        WorkflowView::Paginating { progress } => if progress.first_page {
            named.len() == 0
        } else {
            forall|i: int| 0 <= i < named.len() ==> behind(#[trigger] named[i], progress.remaining)
        },
        WorkflowView::Deleting { progress, next, .. } => next matches Some(anchor) ==> forall|i: int|
            0 <= i < total.len() ==> behind(
                #[trigger] total[i],
                RangeView { earlier: anchor, later: progress.remaining.later },
            ),
        WorkflowView::DeletingBulk { progress, next, .. } => next matches Some(anchor)
            ==> forall|i: int|
            0 <= i < total.len() ==> behind(
                #[trigger] total[i],
                RangeView { earlier: anchor, later: progress.remaining.later },
            ),
        _ => true,
    }
}

/// The candidates of a page, the individual ones first.
pub open spec fn candidates(progress: ProgressView, page: Seq<MessageRef>, threshold: i64) -> Seq<
    MessageRef,
> {
    batch_of(progress, page, threshold).individual_candidates + batch_of(
        progress,
        page,
        threshold,
    ).bulk_candidates
}

/// Two lists without a message twice, and without a message in both, make
/// one such list.
proof fn lemma_join_apart(a: Seq<MessageRef>, b: Seq<MessageRef>)
    requires
        a.no_duplicates(),
        b.no_duplicates(),
        forall|i: int, j: int| 0 <= i < a.len() && 0 <= j < b.len() ==> a[i] != b[j],
    ensures
        (a + b).no_duplicates(),
{
    let c = a + b;
    assert forall|i: int, j: int| 0 <= i < c.len() && 0 <= j < c.len() && i != j implies c[i]
        != c[j] by {
        if i < a.len() && j < a.len() {
        } else if i >= a.len() && j >= a.len() {
            assert(b[i - a.len()] != b[j - a.len()]);
        } else if i < a.len() {
            assert(a[i] != b[j - a.len()]);
        } else {
            assert(a[j] != b[i - a.len()]);
        }
    }
}

/// The candidates of a page are all different, by their identifiers even;
/// each is the earlier end of the range, on the first page, or a message of
/// the page that is eligible.
pub proof fn lemma_candidates(progress: ProgressView, page: Seq<MessageRef>, threshold: i64)
    ensures
        forall|i: int, j: int|
            0 <= i < j < candidates(progress, page, threshold).len() ==> (#[trigger] candidates(
                progress,
                page,
                threshold,
            )[i]).id != (#[trigger] candidates(progress, page, threshold)[j]).id,
        candidates(progress, page, threshold).no_duplicates(),
        forall|i: int|
            0 <= i < candidates(progress, page, threshold).len() ==> {
                let m = #[trigger] candidates(progress, page, threshold)[i];
                ||| progress.first_page && m == progress.remaining.earlier
                ||| page.contains(m) && eligible(m, progress.remaining)
            },
        candidates(progress, page, threshold) == scheduled(
            batch_of(progress, page, threshold),
        ).singles + scheduled(batch_of(progress, page, threshold)).bulk,
{
    let range = progress.remaining;
    let olds = routed(page, range, threshold, true, page.len());
    let news = routed(page, range, threshold, false, page.len());
    let all = candidates(progress, page, threshold);
    let batch = batch_of(progress, page, threshold);
    law_partition_is_correct(page, range, threshold);
    law_routed_distinct(page, range, threshold, true);
    law_routed_distinct(page, range, threshold, false);
    law_routed_disjoint(page, range, threshold);
    assert forall|i: int| 0 <= i < olds.len() implies page.contains(#[trigger] olds[i])
        && eligible(olds[i], range) by {
        assert(olds.contains(olds[i]));
    }
    assert forall|i: int| 0 <= i < news.len() implies page.contains(#[trigger] news[i])
        && eligible(news[i], range) by {
        assert(news.contains(news[i]));
    }
    let seed = range.earlier;
    // Where each candidate comes from: the seed, the old or the recent list.
    assert forall|i: int| 0 <= i < all.len() implies {
        let m = #[trigger] all[i];
        ||| progress.first_page && m == seed
        ||| page.contains(m) && eligible(m, range)
    } by {
        if progress.first_page && is_old(seed, threshold) {
            assert(batch.individual_candidates == seq![seed] + olds);
            assert(batch.bulk_candidates == news);
            if i == 0 {
            } else if i < 1 + olds.len() {
                assert(all[i] == olds[i - 1]);
            } else {
                assert(all[i] == news[i - 1 - olds.len()]);
            }
        } else if progress.first_page {
            assert(batch.individual_candidates == olds);
            assert(batch.bulk_candidates == seq![seed] + news);
            if i < olds.len() {
                assert(all[i] == olds[i]);
            } else if i == olds.len() {
            } else {
                assert(all[i] == news[i - olds.len() - 1]);
            }
        } else {
            if i < olds.len() {
                assert(all[i] == olds[i]);
            } else {
                assert(all[i] == news[i - olds.len()]);
            }
        }
    }
    assert forall|i: int, j: int| 0 <= i < j < all.len() implies (#[trigger] all[i]).id != (
    #[trigger] all[j]).id by {
        if progress.first_page && is_old(seed, threshold) {
            assert(batch.individual_candidates == seq![seed] + olds);
            if i == 0 {
                assert(page.contains(all[j]) && eligible(all[j], range)) by {
                    if j < 1 + olds.len() {
                        assert(all[j] == olds[j - 1]);
                    } else {
                        assert(all[j] == news[j - 1 - olds.len()]);
                    }
                }
            } else if j < 1 + olds.len() {
                assert(all[i] == olds[i - 1] && all[j] == olds[j - 1]);
            } else if i < 1 + olds.len() {
                assert(all[i] == olds[i - 1] && all[j] == news[j - 1 - olds.len()]);
            } else {
                assert(all[i] == news[i - 1 - olds.len()] && all[j] == news[j - 1 - olds.len()]);
            }
        } else if progress.first_page {
            assert(batch.bulk_candidates == seq![seed] + news);
            if j < olds.len() {
                assert(all[i] == olds[i] && all[j] == olds[j]);
            } else if j == olds.len() {
                assert(all[i] == olds[i]);
            } else if i < olds.len() {
                assert(all[i] == olds[i] && all[j] == news[j - olds.len() - 1]);
            } else if i == olds.len() {
                assert(all[j] == news[j - olds.len() - 1]);
            } else {
                assert(all[i] == news[i - olds.len() - 1] && all[j] == news[j - olds.len() - 1]);
            }
        } else {
            if j < olds.len() {
                assert(all[i] == olds[i] && all[j] == olds[j]);
            } else if i < olds.len() {
                assert(all[i] == olds[i] && all[j] == news[j - olds.len()]);
            } else {
                assert(all[i] == news[i - olds.len()] && all[j] == news[j - olds.len()]);
            }
        }
    }
    assert(all.no_duplicates()) by {
        assert forall|i: int, j: int| 0 <= i < all.len() && 0 <= j < all.len() && i != j implies all[i]
            != all[j] by {
            if i < j {
                assert(all[i].id != all[j].id);
            } else {
                assert(all[j].id != all[i].id);
            }
        }
    }
    let plan = scheduled(batch);
    assert(all =~= plan.singles + plan.bulk);
}

/// What a page leads to, unless it fails the request, asks for the
/// candidates of the page and nothing else: the first call names the first
/// of them, and the state holds the others.
pub proof fn lemma_page_names_candidates(
    progress: ProgressView,
    page: Seq<MessageRef>,
    threshold: i64,
)
    requires
        page.len() <= page_limit(progress.first_page),
    ensures
        on_page(progress, page, threshold).0 is Failed || named_by(
            on_page(progress, page, threshold).1,
        ) + pending(on_page(progress, page, threshold).0) == candidates(progress, page, threshold),
{
    let out = on_page(progress, page, threshold);
    if !(out.0 is Failed) {
        lemma_candidates(progress, page, threshold);
        lemma_routed_len(page, progress.remaining, threshold, page.len());
        let plan = scheduled(batch_of(progress, page, threshold));
        if plan.singles.len() > 0 {
            assert(seq![plan.singles[0]] + plan.singles.skip(1) =~= plan.singles);
        }
        assert(named_by(out.1) + pending(out.0) =~= plan.singles + plan.bulk);
    }
}

/// What a page leads to keeps the messages apart.
proof fn lemma_page_apart(
    progress: ProgressView,
    page: Seq<MessageRef>,
    threshold: i64,
    named: Seq<MessageRef>,
)
    requires
        progress.remaining.wf(),
        page.len() <= page_limit(progress.first_page),
        named.no_duplicates(),
        progress.first_page ==> named.len() == 0,
        forall|i: int| 0 <= i < named.len() ==> behind(#[trigger] named[i], progress.remaining),
    ensures
        apart(
            on_page(progress, page, threshold).0,
            named + named_by(on_page(progress, page, threshold).1),
        ),
{
    let range = progress.remaining;
    let next = next_anchor(page, range);
    let out = on_page(progress, page, threshold);
    if !reaches_end(page, range) && next is None {
        assert(named + named_by(out.1) =~= named);
        assert(named + pending(out.0) =~= named);
    } else {
        lemma_candidates(progress, page, threshold);
        lemma_next_anchor(page, range);
        lemma_routed_len(page, range, threshold, page.len());
        lemma_latest(page, page.len());
        let fresh = candidates(progress, page, threshold);
        let plan = scheduled(batch_of(progress, page, threshold));
        let total = named + fresh;
        assert forall|i: int, j: int| 0 <= i < named.len() && 0 <= j < fresh.len() implies named[i]
            != fresh[j] by {
            assert(behind(named[i], range));
            let m = fresh[j];
            assert(progress.first_page && m == range.earlier || page.contains(m) && eligible(
                m,
                range,
            ));
        }
        lemma_join_apart(named, fresh);
        if next is Some {
            let anchor = next->0;
            let rest = RangeView { earlier: anchor, later: range.later };
            assert forall|i: int| 0 <= i < total.len() implies behind(#[trigger] total[i], rest) by {
                if i < named.len() {
                    assert(behind(named[i], range));
                } else {
                    let m = fresh[i - named.len()];
                    assert(total[i] == m);
                    assert(progress.first_page && m == range.earlier || page.contains(m)
                        && eligible(m, range));
                    if page.contains(m) {
                        let k = choose|k: int| 0 <= k < page.len() && page[k] == m;
                        assert(page[k].timestamp <= anchor.timestamp);
                        assert(!passes(page[k], range));
                    }
                }
            }
        }
        // The first action names the head of the plan; the state holds the rest.
        assert(named + named_by(out.1) + pending(out.0) =~= total) by {
            assert(fresh == plan.singles + plan.bulk);
            if plan.singles.len() > 0 {
                assert(seq![plan.singles[0]] + plan.singles.skip(1) =~= plan.singles);
            }
        }
        if out.0 is Paginating {
            assert(fresh.len() == 0);
            assert(total =~= named);
        }
    }
}

/// No step names a message that was named before: what holds between a state
/// and the messages named on the way to it ([`apart`]) holds again after the
/// step, of the next state and those messages with the ones that the step
/// names.
pub proof fn law_step_keeps_apart(
    state: WorkflowView,
    event: EventView,
    threshold: i64,
    named: Seq<MessageRef>,
)
    requires
        state.wf(),
        apart(state, named),
    ensures
        apart(
            step_spec(state, event, threshold).0,
            named + named_by(step_spec(state, event, threshold).1),
        ),
{
    let out = step_spec(state, event, threshold);
    let total = named + pending(state);
    assert(named.no_duplicates()) by {
        assert forall|i: int, j: int| 0 <= i < named.len() && 0 <= j < named.len() && i
            != j implies named[i] != named[j] by {
            assert(total[i] == named[i] && total[j] == named[j]);
        }
    }
    match state {
        WorkflowView::Resolving { request } => {
            if let EventView::BookendsFetched(a, b) = event {
                if found_in(request.channel, request.id_a, a) && found_in(
                    request.channel,
                    request.id_b,
                    b,
                ) {
                    let range = ordered(a->0, b->0);
                    let progress = ProgressView {
                        channel: request.channel,
                        remaining: range,
                        first_page: true,
                        deleted_count: 0,
                        failed_count: 0,
                    };
                    if range.is_single() {
                        lemma_page_apart(progress, Seq::empty(), threshold, named);
                    }
                }
            }
            assert(named + named_by(out.1) + pending(out.0) =~= named + named_by(out.1) + pending(
                out.0,
            ));
        },
        WorkflowView::Paginating { progress } => {
            if let EventView::PageFetched(Ok(raw)) = event {
                lemma_normalized_len(raw, page_limit(progress.first_page));
                lemma_page_apart(
                    progress,
                    normalized(raw, page_limit(progress.first_page)),
                    threshold,
                    named,
                );
            } else {
                assert(named + named_by(out.1) + pending(out.0) =~= named);
            }
        },
        WorkflowView::Deleting { progress, queue, cursor, bulk, next } => {
            if let EventView::IndividualDeleted(answer) = event {
                assert(named + named_by(out.1) + pending(out.0) =~= total) by {
                    if cursor + 1 < queue.len() {
                        assert(seq![queue[cursor + 1]] + queue.skip(cursor + 2) =~= queue.skip(
                            cursor + 1,
                        ));
                    } else {
                        assert(queue.skip(cursor + 1) =~= Seq::empty());
                    }
                }
                if out.0 is Paginating {
                    assert(total =~= named);
                }
            } else {
                assert(named + named_by(out.1) + pending(out.0) =~= named);
            }
        },
        WorkflowView::DeletingBulk { progress, requested, next } => {
            assert(named + named_by(out.1) + pending(out.0) =~= named);
            assert(total =~= named);
        },
        _ => {
            assert(named + named_by(out.1) + pending(out.0) =~= named);
        },
    }
}

/// No run asks twice for the deletion of one message: from a state in which
/// nothing was asked yet, the messages that the actions of a run name are
/// all different. So the deletions that the count adds up are of different
/// messages, as long as the platform shows each message with one timestamp
/// and in one channel.
pub proof fn law_run_names_each_once(state: WorkflowView, events: Seq<Timed>)
    requires
        state is Start || state is Authorizing || state is Resolving,
    ensures
        named_in(state, events).no_duplicates(),
        apart(run(state, events), named_in(state, events)),
    decreases events.len(),
{
    if events.len() == 0 {
        assert(named_in(state, events) + pending(state) =~= Seq::<MessageRef>::empty());
    } else {
        let before = events.drop_last();
        law_run_names_each_once(state, before);
        law_run_keeps_wf(state, before);
        law_step_keeps_apart(
            run(state, before),
            events.last().event,
            events.last().threshold,
            named_in(state, before),
        );
        let named = named_in(state, events);
        let total = named + pending(run(state, events));
        assert forall|i: int, j: int| 0 <= i < named.len() && 0 <= j < named.len() && i
            != j implies named[i] != named[j] by {
            assert(total[i] == named[i] && total[j] == named[j]);
        }
    }
}

/// The workflow deletes exactly the two bookends of a range that holds
/// nothing else, and exactly the one message of a range whose ends are one:
/// after the first page, which brings the later end alone, the delete calls
/// asked for and still to come name the two ends and nothing more, and no
/// further page follows; for a single message no page is asked for at all.
pub proof fn law_bookends_only_are_two_calls(channel: u64, range: RangeView, threshold: i64)
    requires
        range.wf(),
    ensures
        !range.is_single() ==> {
            let asked = step_spec(
                start_paging(channel, range, threshold).0,
                EventView::PageFetched(Ok(seq![range.later])),
                threshold,
            );
            &&& start_paging(channel, range, threshold).0 is Paginating
            &&& named_by(asked.1) + pending(asked.0) == seq![range.earlier, range.later]
            &&& asked.0 matches WorkflowView::Deleting { next, .. } ==> next is None
            &&& asked.0 matches WorkflowView::DeletingBulk { next, .. } ==> next is None
            &&& asked.0 is Deleting || asked.0 is DeletingBulk
        },
        range.is_single() ==> {
            let asked = start_paging(channel, range, threshold);
            &&& named_by(asked.1) + pending(asked.0) == seq![range.earlier]
            &&& asked.0 matches WorkflowView::Deleting { next, .. } && next is None
        },
{
    let progress = ProgressView {
        channel,
        remaining: range,
        first_page: true,
        deleted_count: 0,
        failed_count: 0,
    };
    law_bookends_only(progress, threshold);
    if range.is_single() {
        let asked = start_paging(channel, range, threshold);
        assert(named_by(asked.1) + pending(asked.0) =~= seq![range.earlier]);
    } else {
        let raw = seq![range.later];
        assert(raw.drop_last() =~= Seq::<MessageRef>::empty());
        reveal_with_fuel(sorted_by_time, 2);
        reveal_with_fuel(insert_by_time, 2);
        assert(sorted_by_time(raw) =~= raw);
        assert(normalized(raw, page_limit(true)) =~= raw);
        let asked = on_page(progress, raw, threshold);
        let batch = batch_of(progress, raw, threshold);
        assert(batch.individual_candidates + batch.bulk_candidates =~= seq![
            range.earlier,
            range.later,
        ]);
        let plan = scheduled(batch);
        assert(plan.singles + plan.bulk =~= seq![range.earlier, range.later]);
        if plan.singles.len() > 0 {
            assert(seq![plan.singles[0]] + plan.singles.skip(1) =~= plan.singles);
        }
        assert(named_by(asked.1) + pending(asked.0) =~= seq![range.earlier, range.later]);
    }
}

} // verus!
