//! Splitting one page of history into what must be deleted one by one and
//! what may be deleted in bulk.

use vstd::prelude::*;
use crate::bulkdel::message::{DeletionRange, MessageRef, RangeView};

verus! {

/// The messages of one page that are to be deleted, by the way in which the
/// platform lets them be deleted. Both lists keep the order of the page.
#[derive(Debug)]
pub struct DeletionBatch {
    /// Recent enough for a bulk call.
    pub bulk_candidates: Vec<MessageRef>,
    /// Too old for a bulk call.
    pub individual_candidates: Vec<MessageRef>,
}

/// A [`DeletionBatch`] as contracts speak of it.
pub struct BatchView {
    pub bulk_candidates: Seq<MessageRef>,
    pub individual_candidates: Seq<MessageRef>,
}

impl View for DeletionBatch {
    type V = BatchView;

    open spec fn view(&self) -> BatchView {
        BatchView {
            bulk_candidates: self.bulk_candidates@,
            individual_candidates: self.individual_candidates@,
        }
    }
}

/// `m` is to be deleted as part of `range`, whose earlier end has been dealt
/// with already: it is not that end, it is not later than the later end, and
/// it is later than the earlier end or is the later end itself.
pub open spec fn eligible(m: MessageRef, range: RangeView) -> bool {
    &&& m.id != range.earlier.id
    &&& m.timestamp <= range.later.timestamp
    &&& (range.earlier.timestamp < m.timestamp || m.id == range.later.id)
}

/// No message before position `i` of the page has the identifier of the one
/// at `i`.
pub open spec fn first_occurrence(page: Seq<MessageRef>, i: int) -> bool {
    forall|j: int| 0 <= j < i ==> (#[trigger] page[j]).id != page[i].id
}

/// The message at position `i` of the page goes into the batch.
pub open spec fn selected(page: Seq<MessageRef>, range: RangeView, i: int) -> bool {
    eligible(page[i], range) && first_occurrence(page, i)
}

/// Older than the threshold: the platform deletes such a message only by
/// itself. A message sent exactly at the threshold is not old.
pub open spec fn is_old(m: MessageRef, threshold: i64) -> bool {
    m.timestamp < threshold
}

/// The selected messages among the first `n` of the page that are old
/// (`old`), or that are not (`!old`), in page order.
pub open spec fn routed(
    page: Seq<MessageRef>,
    range: RangeView,
    threshold: i64,
    old: bool,
    n: nat,
) -> Seq<MessageRef>
    decreases n,
{
    if n == 0 {
        Seq::empty()
    } else {
        let rest = routed(page, range, threshold, old, (n - 1) as nat);
        if selected(page, range, n - 1) && is_old(page[n - 1], threshold) == old {
            rest.push(page[n - 1])
        } else {
            rest
        }
    }
}

/// `m` is the later end of the range, or lies beyond it.
pub open spec fn passes(m: MessageRef, range: RangeView) -> bool {
    m.id == range.later.id || m.timestamp > range.later.timestamp
}

/// Nothing of the range lies beyond this page: the range is a single message,
/// or the page holds its later end or a message beyond it.
pub open spec fn reaches_end(page: Seq<MessageRef>, range: RangeView) -> bool {
    range.is_single() || exists|i: int| 0 <= i < page.len() && passes(#[trigger] page[i], range)
}

/// The message with the greatest timestamp among the first `n` of the page;
/// among several, the one that stands last.
pub open spec fn latest(page: Seq<MessageRef>, n: nat) -> Option<MessageRef>
    decreases n,
{
    if n == 0 {
        None
    } else {
        let before = latest(page, (n - 1) as nat);
        if before is Some && before->0.timestamp > page[n - 1].timestamp {
            before
        } else {
            Some(page[n - 1])
        }
    }
}

/// Where the next page is to be anchored: at the latest message of this page,
/// if the range goes on beyond the page and that message lies after the
/// earlier end. `None` where the range ends here, or the page brought nothing
/// new.
pub open spec fn next_anchor(page: Seq<MessageRef>, range: RangeView) -> Option<MessageRef> {
    let last = latest(page, page.len());
    if !reaches_end(page, range) && last is Some && last->0.timestamp > range.earlier.timestamp {
        last
    } else {
        None
    }
}

/// What `latest` gives is a message of the page, and none of the first `n`
/// is later than it.
pub proof fn lemma_latest(page: Seq<MessageRef>, n: nat)
    requires
        n <= page.len(),
    ensures
        latest(page, n) is None <==> n == 0,
        latest(page, n) matches Some(m) ==> {
            &&& exists|i: int| 0 <= i < n && page[i] == m
            &&& forall|i: int| 0 <= i < n ==> (#[trigger] page[i]).timestamp <= m.timestamp
        },
    decreases n,
{
    if n > 0 {
        lemma_latest(page, (n - 1) as nat);
        let m = latest(page, n)->0;
        if m == page[n - 1] {
            assert(page[n - 1] == m);
        } else {
            let i = choose|i: int| 0 <= i < n - 1 && page[i] == m;
            assert(page[i] == m);
        }
    }
}

/// No more messages are taken from a page than it holds.
pub proof fn lemma_routed_len(
    page: Seq<MessageRef>,
    range: RangeView,
    threshold: i64,
    n: nat,
)
    ensures
        routed(page, range, threshold, true, n).len() + routed(page, range, threshold, false, n).len()
            <= n,
    decreases n,
{
    if n > 0 {
        lemma_routed_len(page, range, threshold, (n - 1) as nat);
    }
}

/// The anchor of the next page lies after the earlier end of the range, not
/// after its later end, and is not that end.
pub proof fn lemma_next_anchor(page: Seq<MessageRef>, range: RangeView)
    ensures
        next_anchor(page, range) matches Some(a) ==> {
            &&& range.earlier.timestamp < a.timestamp <= range.later.timestamp
            &&& a.id != range.later.id
            &&& !reaches_end(page, range)
        },
{
    lemma_latest(page, page.len());
    if next_anchor(page, range) is Some {
        let a = next_anchor(page, range)->0;
        let i = choose|i: int| 0 <= i < page.len() && page[i] == a;
        assert(!passes(page[i], range));
    }
}


/// Whether a message with the identifier of `page[i]` stands before it.
fn seen_before(page: &Vec<MessageRef>, i: usize) -> (seen: bool)
    requires
        i < page.len(),
    ensures
        seen == !first_occurrence(page@, i as int),
{
    let mut j: usize = 0;
    while j < i
        invariant
            j <= i < page.len(),
            forall|k: int| 0 <= k < j ==> (#[trigger] page@[k]).id != page@[i as int].id,
        decreases i - j,
    {
        if page[j].id == page[i].id {
            return true;
        }
        j += 1;
    }
    false
}

/// Sorts the messages of `page` that belong to `range` into a batch, and says
/// where to go on.
///
/// A message is taken if [`eligible`] and met for the first time in the page.
/// It goes to `individual_candidates` if sent before `threshold`, else to
/// `bulk_candidates`. The second component is the anchor of the next page
/// ([`next_anchor`]), the third whether the range ends with this page
/// ([`reaches_end`]).
pub fn partition(page: &Vec<MessageRef>, range: &DeletionRange, threshold: i64) -> (out: (
    DeletionBatch,
    Option<MessageRef>,
    bool,
))
    ensures
        out.0@.individual_candidates == routed(page@, range@, threshold, true, page@.len()),
        out.0@.bulk_candidates == routed(page@, range@, threshold, false, page@.len()),
        out.1 == next_anchor(page@, range@),
        out.2 == reaches_end(page@, range@),
{
    let earlier = range.earlier();
    let later = range.later();
    let mut individual: Vec<MessageRef> = Vec::new();
    let mut bulk: Vec<MessageRef> = Vec::new();
    let mut last: Option<MessageRef> = None;
    let mut passed = earlier.id == later.id;
    let mut i: usize = 0;
    while i < page.len()
        invariant
            i <= page.len(),
            earlier == range@.earlier,
            later == range@.later,
            individual@ == routed(page@, range@, threshold, true, i as nat),
            bulk@ == routed(page@, range@, threshold, false, i as nat),
            last == latest(page@, i as nat),
            passed == (range@.is_single() || exists|k: int|
                0 <= k < i && passes(#[trigger] page@[k], range@)),
        decreases page.len() - i,
    {
        let m = page[i];
        let is_eligible = m.id != earlier.id && m.timestamp <= later.timestamp && (earlier.timestamp
            < m.timestamp || m.id == later.id);
        if is_eligible && !seen_before(page, i) {
            if m.timestamp < threshold {
                individual.push(m);
            } else {
                bulk.push(m);
            }
        }
        if m.id == later.id || m.timestamp > later.timestamp {
            passed = true;
        }
        last =
        match last {
            Some(best) => if best.timestamp > m.timestamp {
                Some(best)
            } else {
                Some(m)
            },
            None => Some(m),
        };
        i += 1;
    }
    let anchor = match last {
        Some(m) => if !passed && m.timestamp > earlier.timestamp {
            Some(m)
        } else {
            None
        },
        None => None,
    };
    (DeletionBatch { bulk_candidates: bulk, individual_candidates: individual }, anchor, passed)
}

} // verus!
