//! Pages of channel history: how many messages to ask for, and the order in
//! which a fetched page is handed on.

use vstd::prelude::*;
use crate::bulkdel::error::BulkDeleteError;
use crate::bulkdel::message::MessageRef;

verus! {

/// The most messages that the platform hands out in one page.
pub const PAGE_MAX: usize = 100;

/// No message of `s` stands before one with a smaller timestamp.
pub open spec fn ascending(s: Seq<MessageRef>) -> bool {
    forall|i: int, j: int| 0 <= i <= j < s.len() ==> s[i].timestamp <= s[j].timestamp
}

/// `s` with `m` put behind the last message that is not later than `m`.
pub open spec fn insert_by_time(s: Seq<MessageRef>, m: MessageRef) -> Seq<MessageRef>
    decreases s.len(),
{
    if s.len() == 0 || s.last().timestamp <= m.timestamp {
        s.push(m)
    } else {
        insert_by_time(s.drop_last(), m).push(s.last())
    }
}

/// The messages of `s` by ascending timestamp; messages with one timestamp
/// keep the order that they have in `s`.
pub open spec fn sorted_by_time(s: Seq<MessageRef>) -> Seq<MessageRef>
    decreases s.len(),
{
    if s.len() == 0 {
        s
    } else {
        insert_by_time(sorted_by_time(s.drop_last()), s.last())
    }
}

/// The page size that is asked of the platform for a wish of `limit`.
pub open spec fn clamped(limit: usize) -> usize {
    if limit <= PAGE_MAX {
        limit
    } else {
        PAGE_MAX
    }
}

/// What is handed on of the fetched messages `raw`: the first `clamped(limit)`
/// of them by ascending timestamp.
pub open spec fn normalized(raw: Seq<MessageRef>, limit: usize) -> Seq<MessageRef> {
    if raw.len() <= clamped(limit) {
        sorted_by_time(raw)
    } else {
        sorted_by_time(raw).take(clamped(limit) as int)
    }
}

/// Where `insert_by_time` puts `m`: at `p`, if everything from `p` on is
/// later than `m` and the message before `p` is not. So `m` comes behind
/// every message of its own timestamp that was there before it.
pub proof fn lemma_insert_position(s: Seq<MessageRef>, m: MessageRef, p: int)
    requires
        0 <= p <= s.len(),
        forall|k: int| p <= k < s.len() ==> s[k].timestamp > m.timestamp,
        p == 0 || s[p - 1].timestamp <= m.timestamp,
    ensures
        insert_by_time(s, m) == s.insert(p, m),
    decreases s.len(),
{
    if s.len() == 0 || s.last().timestamp <= m.timestamp {
        assert(p == s.len());
        assert(s.push(m) =~= s.insert(p, m));
    } else {
        assert(p < s.len());
        lemma_insert_position(s.drop_last(), m, p);
        assert(s.drop_last().insert(p, m).push(s.last()) =~= s.insert(p, m));
    }
}

/// Inserting keeps the length plus one, the messages, and an ascending order.
pub proof fn lemma_insert_by_time(s: Seq<MessageRef>, m: MessageRef)
    ensures
        insert_by_time(s, m).len() == s.len() + 1,
        insert_by_time(s, m).to_multiset() == s.to_multiset().insert(m),
        ascending(s) ==> ascending(insert_by_time(s, m)),
    decreases s.len(),
{
    broadcast use vstd::seq_lib::group_to_multiset_ensures;

    if s.len() == 0 || s.last().timestamp <= m.timestamp {
    } else {
        let head = s.drop_last();
        lemma_insert_by_time(head, m);
        let r = insert_by_time(head, m);
        assert(s == head.push(s.last()));
        assert(r.push(s.last()).to_multiset() =~= s.to_multiset().insert(m));
        if ascending(s) {
            assert(ascending(head));
            assert forall|i: int| 0 <= i < r.len() implies (#[trigger] r[i]).timestamp
                <= s.last().timestamp by {
                assert(r.to_multiset().count(r[i]) > 0);
                if r[i] != m {
                    assert(head.to_multiset().count(r[i]) > 0);
                    assert(head.contains(r[i]));
                    let k = choose|k: int| 0 <= k < head.len() && head[k] == r[i];
                    assert(s[k] == r[i]);
                }
            }
        }
    }
}

/// Sorting keeps the length and the messages, each as often as it came, and
/// gives an ascending order.
pub proof fn lemma_sorted_by_time(s: Seq<MessageRef>)
    ensures
        sorted_by_time(s).len() == s.len(),
        sorted_by_time(s).to_multiset() == s.to_multiset(),
        ascending(sorted_by_time(s)),
    decreases s.len(),
{
    broadcast use vstd::seq_lib::group_to_multiset_ensures;

    if s.len() == 0 {
    } else {
        lemma_sorted_by_time(s.drop_last());
        lemma_insert_by_time(sorted_by_time(s.drop_last()), s.last());
        assert(s == s.drop_last().push(s.last()));
    }
}

/// A page that is in ascending order already is left as it is.
pub proof fn lemma_sorted_is_fixed(s: Seq<MessageRef>)
    requires
        ascending(s),
    ensures
        sorted_by_time(s) == s,
    decreases s.len(),
{
    if s.len() > 0 {
        let head = s.drop_last();
        assert(ascending(head));
        lemma_sorted_is_fixed(head);
        if head.len() > 0 {
            assert(head.last() == s[s.len() - 2]);
        }
        assert(head.push(s.last()) =~= s);
    }
}

/// A normalized page is no longer than what was asked for, nor than what
/// came.
pub proof fn lemma_normalized_len(raw: Seq<MessageRef>, limit: usize)
    ensures
        normalized(raw, limit).len() <= clamped(limit),
        normalized(raw, limit).len() <= raw.len(),
{
    lemma_sorted_by_time(raw);
}

/// Every message of a normalized page is one of those that came.
pub proof fn lemma_normalized_from(raw: Seq<MessageRef>, limit: usize)
    ensures
        forall|i: int|
            0 <= i < normalized(raw, limit).len() ==> raw.contains(
                #[trigger] normalized(raw, limit)[i],
            ),
{
    broadcast use vstd::seq_lib::group_to_multiset_ensures;

    lemma_sorted_by_time(raw);
    let sorted = sorted_by_time(raw);
    let page = normalized(raw, limit);
    assert forall|i: int| 0 <= i < page.len() implies raw.contains(#[trigger] page[i]) by {
        assert(page[i] == sorted[i]);
        assert(sorted.contains(sorted[i]));
        assert(sorted.to_multiset().count(sorted[i]) > 0);
    }
}

/// The page size to ask the platform for: `limit`, but no more than
/// [`PAGE_MAX`].
pub fn request_limit(limit: usize) -> (asked: usize)
    ensures
        asked == clamped(limit),
{
    if limit <= PAGE_MAX {
        limit
    } else {
        PAGE_MAX
    }
}

/// Puts fetched messages into ascending order of timestamp, keeping the
/// order of those that share one.
pub fn normalize(raw: &Vec<MessageRef>) -> (page: Vec<MessageRef>)
    ensures
        page@ == sorted_by_time(raw@),
{
    let mut page: Vec<MessageRef> = Vec::new();
    let mut i: usize = 0;
    while i < raw.len()
        invariant
            i <= raw.len(),
            page@ == sorted_by_time(raw@.take(i as int)),
        decreases raw.len() - i,
    {
        let m = raw[i];
        let mut p: usize = page.len();
        while p > 0 && page[p - 1].timestamp > m.timestamp
            invariant
                p <= page.len(),
                forall|k: int| p <= k < page.len() ==> page@[k].timestamp > m.timestamp,
            decreases p,
        {
            p -= 1;
        }
        proof {
            lemma_insert_position(page@, m, p as int);
            assert(raw@.take(i + 1).drop_last() =~= raw@.take(i as int));
        }
        page.insert(p, m);
        i += 1;
    }
    assert(raw@.take(raw.len() as int) =~= raw@);
    page
}

/// The page that follows from what the platform answered to a request for
/// `limit` messages after an anchor.
///
/// An answer with messages gives them in ascending order of timestamp, cut
/// to the page size that was asked ([`normalized`]). A failed fetch is handed
/// on as it is.
pub fn page_after(limit: usize, fetched: Result<Vec<MessageRef>, BulkDeleteError>) -> (page: Result<
    Vec<MessageRef>,
    BulkDeleteError,
>)
    ensures
        match fetched {
            Ok(raw) => page is Ok && page->Ok_0@ == normalized(raw@, limit),
            Err(e) => page == Err::<Vec<MessageRef>, BulkDeleteError>(e),
        },
{
    match fetched {
        Ok(raw) => {
            let mut page = normalize(&raw);
            proof {
                lemma_sorted_by_time(raw@);
            }
            page.truncate(request_limit(limit));
            assert(page@ =~= normalized(raw@, limit));
            Ok(page)
        },
        Err(e) => Err(e),
    }
}

} // verus!
