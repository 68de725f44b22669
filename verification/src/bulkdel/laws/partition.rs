//! What holds of ranges, of the partitioning of a page, and of its batch.

use vstd::prelude::*;
use crate::bulkdel::executor::scheduled;
use crate::bulkdel::message::{MessageRef, RangeView, ordered};
use crate::bulkdel::partitioner::{
    eligible, first_occurrence, is_old, reaches_end, routed, selected,
};
use crate::bulkdel::workflow::{ProgressView, batch_of};

verus! {

/// Whichever bookend is named first, the range that the two span has its
/// ends in chronological order and consists of the two; and unless they share
/// a timestamp, it is the same range.
pub proof fn law_range_is_ordered(a: MessageRef, b: MessageRef)
    ensures
        ordered(a, b).wf(),
        ordered(b, a).wf(),
        ordered(a, b).earlier == a && ordered(a, b).later == b || ordered(a, b).earlier == b
            && ordered(a, b).later == a,
        a.timestamp != b.timestamp ==> ordered(a, b) == ordered(b, a),
{
}

/// Every message that `routed` puts into a list stands in the page, is
/// selected there, and has the age that the list is for.
pub proof fn law_routed_sound(
    page: Seq<MessageRef>,
    range: RangeView,
    threshold: i64,
    old: bool,
    n: nat,
)
    requires
        n <= page.len(),
    ensures
        forall|k: int|
            0 <= k < routed(page, range, threshold, old, n).len() ==> exists|i: int|
                0 <= i < n && page[i] == #[trigger] routed(page, range, threshold, old, n)[k]
                    && selected(page, range, i) && is_old(page[i], threshold) == old,
    decreases n,
{
    if n > 0 {
        law_routed_sound(page, range, threshold, old, (n - 1) as nat);
        let rest = routed(page, range, threshold, old, (n - 1) as nat);
        let all = routed(page, range, threshold, old, n);
        assert forall|k: int| 0 <= k < all.len() implies exists|i: int|
            0 <= i < n && page[i] == #[trigger] all[k] && selected(page, range, i) && is_old(
                page[i],
                threshold,
            ) == old by {
            if k < rest.len() {
                let i = choose|i: int|
                    0 <= i < n - 1 && page[i] == rest[k] && selected(page, range, i) && is_old(
                        page[i],
                        threshold,
                    ) == old;
                assert(page[i] == all[k]);
            } else {
                assert(page[n - 1] == all[k]);
            }
        }
    }
}

/// Every selected message among the first `n` of the page stands in the list
/// that is for its age.
pub proof fn law_routed_complete(
    page: Seq<MessageRef>,
    range: RangeView,
    threshold: i64,
    old: bool,
    n: nat,
)
    requires
        n <= page.len(),
    ensures
        forall|i: int|
            0 <= i < n && selected(page, range, i) && is_old(#[trigger] page[i], threshold) == old
                ==> routed(page, range, threshold, old, n).contains(page[i]),
    decreases n,
{
    if n > 0 {
        law_routed_complete(page, range, threshold, old, (n - 1) as nat);
        let rest = routed(page, range, threshold, old, (n - 1) as nat);
        let all = routed(page, range, threshold, old, n);
        assert forall|i: int|
            0 <= i < n && selected(page, range, i) && is_old(#[trigger] page[i], threshold)
                == old implies all.contains(page[i]) by {
            if i < n - 1 {
                let k = choose|k: int| 0 <= k < rest.len() && rest[k] == page[i];
                assert(all[k] == page[i]);
            } else {
                assert(all[all.len() - 1] == page[i]);
            }
        }
    }
}

/// The lists of a batch, as positions in the page: `routed` walks the page
/// from front to back, so the messages of a list come from ascending
/// positions.
proof fn lemma_routed_positions(
    page: Seq<MessageRef>,
    range: RangeView,
    threshold: i64,
    old: bool,
    n: nat,
) -> (at: Seq<int>)
    requires
        n <= page.len(),
    ensures
        at.len() == routed(page, range, threshold, old, n).len(),
        forall|k: int|
            0 <= k < at.len() ==> 0 <= #[trigger] at[k] < n && page[at[k]] == routed(
                page,
                range,
                threshold,
                old,
                n,
            )[k] && selected(page, range, at[k]),
        forall|j: int, k: int| 0 <= j < k < at.len() ==> at[j] < at[k],
    decreases n,
{
    if n == 0 {
        Seq::empty()
    } else {
        let before = lemma_routed_positions(page, range, threshold, old, (n - 1) as nat);
        if selected(page, range, n - 1) && is_old(page[n - 1], threshold) == old {
            before.push(n - 1)
        } else {
            before
        }
    }
}

/// No identifier stands twice in a list of a batch.
pub proof fn law_routed_distinct(
    page: Seq<MessageRef>,
    range: RangeView,
    threshold: i64,
    old: bool,
)
    ensures
        forall|j: int, k: int|
            0 <= j < k < routed(page, range, threshold, old, page.len()).len() ==> (#[trigger] routed(
                page,
                range,
                threshold,
                old,
                page.len(),
            )[j]).id != (#[trigger] routed(page, range, threshold, old, page.len())[k]).id,
{
    let list = routed(page, range, threshold, old, page.len());
    let at = lemma_routed_positions(page, range, threshold, old, page.len());
    assert forall|j: int, k: int| 0 <= j < k < list.len() implies (#[trigger] list[j]).id != (
    #[trigger] list[k]).id by {
        assert(at[j] < at[k]);
        assert(first_occurrence(page, at[k]));
        assert(page[at[j]].id != page[at[k]].id);
    }
}

/// No identifier stands in both lists of a batch.
pub proof fn law_routed_disjoint(page: Seq<MessageRef>, range: RangeView, threshold: i64)
    ensures
        forall|j: int, k: int|
            0 <= j < routed(page, range, threshold, true, page.len()).len() && 0 <= k < routed(
                page,
                range,
                threshold,
                false,
                page.len(),
            ).len() ==> (#[trigger] routed(page, range, threshold, true, page.len())[j]).id != (
            #[trigger] routed(page, range, threshold, false, page.len())[k]).id,
{
    let olds = routed(page, range, threshold, true, page.len());
    let news = routed(page, range, threshold, false, page.len());
    assert forall|j: int, k: int| 0 <= j < olds.len() && 0 <= k < news.len() implies (
    #[trigger] olds[j]).id != (#[trigger] news[k]).id by {
        law_routed_sound(page, range, threshold, true, page.len());
        law_routed_sound(page, range, threshold, false, page.len());
        let at_old = choose|i: int|
            0 <= i < page.len() && page[i] == olds[j] && selected(page, range, i) && is_old(
                page[i],
                threshold,
            ) == true;
        let at_new = choose|i: int|
            0 <= i < page.len() && page[i] == news[k] && selected(page, range, i) && is_old(
                page[i],
                threshold,
            ) == false;
        assert(at_old != at_new);
        assert(first_occurrence(page, at_old));
        assert(first_occurrence(page, at_new));
        if at_old < at_new {
            assert(page[at_old].id != page[at_new].id);
        } else {
            assert(page[at_new].id != page[at_old].id);
        }
    }
}

/// Partitioning is correct. Of a page, a range and a threshold:
/// every individual candidate is a message of the page that is older than
/// the threshold, every bulk candidate one that is not; every candidate is
/// the later end of the range or lies after its earlier end, and none lies
/// after its later end; and every message of the page that is eligible and
/// met for the first time is a candidate.
pub proof fn law_partition_is_correct(page: Seq<MessageRef>, range: RangeView, threshold: i64)
    ensures
        forall|m: MessageRef| #[trigger]
            routed(page, range, threshold, true, page.len()).contains(m) ==> page.contains(m)
                && m.timestamp < threshold && eligible(m, range),
        forall|m: MessageRef| #[trigger]
            routed(page, range, threshold, false, page.len()).contains(m) ==> page.contains(m)
                && m.timestamp >= threshold && eligible(m, range),
        forall|i: int|
            0 <= i < page.len() && selected(page, range, i) ==> if (#[trigger] page[i]).timestamp
                < threshold {
                routed(page, range, threshold, true, page.len()).contains(page[i])
            } else {
                routed(page, range, threshold, false, page.len()).contains(page[i])
            },
{
    law_routed_sound(page, range, threshold, true, page.len());
    law_routed_sound(page, range, threshold, false, page.len());
    law_routed_complete(page, range, threshold, true, page.len());
    law_routed_complete(page, range, threshold, false, page.len());
    let olds = routed(page, range, threshold, true, page.len());
    let news = routed(page, range, threshold, false, page.len());
    assert forall|m: MessageRef| #[trigger] olds.contains(m) implies page.contains(m) && m.timestamp
        < threshold && eligible(m, range) by {
        let k = choose|k: int| 0 <= k < olds.len() && olds[k] == m;
        let i = choose|i: int|
            0 <= i < page.len() && page[i] == olds[k] && selected(page, range, i) && is_old(
                page[i],
                threshold,
            ) == true;
        assert(page[i] == m);
    }
    assert forall|m: MessageRef| #[trigger] news.contains(m) implies page.contains(m) && m.timestamp
        >= threshold && eligible(m, range) by {
        let k = choose|k: int| 0 <= k < news.len() && news[k] == m;
        let i = choose|i: int|
            0 <= i < page.len() && page[i] == news[k] && selected(page, range, i) && is_old(
                page[i],
                threshold,
            ) == false;
        assert(page[i] == m);
    }
}

/// A range of nothing but its two bookends deletes exactly two messages: the
/// first page brings the later end alone, and its batch is the two ends. A
/// range whose ends are one message deletes exactly that one.
pub proof fn law_bookends_only(progress: ProgressView, threshold: i64)
    requires
        progress.remaining.wf(),
        progress.first_page,
    ensures
        !progress.remaining.is_single() ==> {
            let batch = batch_of(progress, seq![progress.remaining.later], threshold);
            &&& batch.individual_candidates + batch.bulk_candidates =~= seq![
                progress.remaining.earlier,
                progress.remaining.later,
            ]
            &&& reaches_end(seq![progress.remaining.later], progress.remaining)
        },
        progress.remaining.is_single() ==> {
            let batch = batch_of(progress, Seq::empty(), threshold);
            &&& batch.individual_candidates + batch.bulk_candidates =~= seq![
                progress.remaining.earlier,
            ]
            &&& reaches_end(Seq::empty(), progress.remaining)
        },
{
    let range = progress.remaining;
    if range.is_single() {
    } else {
        let page = seq![range.later];
        assert(page[0] == range.later);
        assert(first_occurrence(page, 0));
        assert(selected(page, range, 0));
        reveal_with_fuel(routed, 2);
        assert(routed(page, range, threshold, true, 0) =~= Seq::empty());
        assert(routed(page, range, threshold, false, 0) =~= Seq::empty());
    }
}

/// A bulk call takes recent messages only: every message in the bulk part
/// of the plan of a page is at least as late as the threshold against which
/// the page was partitioned, and every message older than that is deleted by
/// itself.
pub proof fn law_bulk_is_recent(progress: ProgressView, page: Seq<MessageRef>, threshold: i64)
    ensures
        forall|k: int|
            0 <= k < scheduled(batch_of(progress, page, threshold)).bulk.len() ==> !is_old(
                #[trigger] scheduled(batch_of(progress, page, threshold)).bulk[k],
                threshold,
            ),
        forall|k: int|
            0 <= k < batch_of(progress, page, threshold).individual_candidates.len() ==> scheduled(
                batch_of(progress, page, threshold),
            ).singles.contains(#[trigger] batch_of(progress, page, threshold).individual_candidates[k]),
{
    law_routed_sound(page, progress.remaining, threshold, false, page.len());
    let batch = batch_of(progress, page, threshold);
    let plan = scheduled(batch);
    assert forall|k: int| 0 <= k < batch.individual_candidates.len() implies plan.singles.contains(
        #[trigger] batch.individual_candidates[k],
    ) by {
        assert(plan.singles[k] == batch.individual_candidates[k]);
    }
}

} // verus!
