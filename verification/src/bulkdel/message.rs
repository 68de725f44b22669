//! Messages as the deletion engine sees them, and the range between two of them.

use vstd::prelude::*;

verus! {

/// A fetched message: who it is, where it is, and when it was sent.
///
/// Identifiers are opaque: they are compared for equality and never ordered.
/// `timestamp` counts milliseconds since the Unix epoch and is the only field
/// by which messages are ordered.
#[derive(Clone, Copy, Debug, PartialEq, Eq, Structural)]
pub struct MessageRef {
    pub id: u64,
    pub channel: u64,
    pub timestamp: i64,
}

/// A [`DeletionRange`] as contracts speak of it: its two ends.
pub struct RangeView {
    pub earlier: MessageRef,
    pub later: MessageRef,
}

impl RangeView {
    /// The ends are in chronological order.
    pub open spec fn wf(self) -> bool {
        self.earlier.timestamp <= self.later.timestamp
    }

    /// The range is a single message, named twice.
    pub open spec fn is_single(self) -> bool {
        self.earlier.id == self.later.id
    }
}

/// Two messages of one channel with everything between them, both ends
/// included. The earlier end never has the later timestamp of the two.
#[derive(Clone, Copy, Debug)]
pub struct DeletionRange {
    earlier: MessageRef,
    later: MessageRef,
}

impl View for DeletionRange {
    type V = RangeView;

    closed spec fn view(&self) -> RangeView {
        RangeView { earlier: self.earlier, later: self.later }
    }
}

impl DeletionRange {
    /// Every range has its ends in chronological order.
    #[verifier::type_invariant]
    pub open spec fn inv(self) -> bool {
        self@.wf()
    }

    /// Orders two messages by timestamp. On a tie the first argument stays
    /// first.
    pub fn new(a: MessageRef, b: MessageRef) -> (range: DeletionRange)
        ensures
            range@.wf(),
            range@ == ordered(a, b),
    {
        if a.timestamp <= b.timestamp {
            DeletionRange { earlier: a, later: b }
        } else {
            DeletionRange { earlier: b, later: a }
        }
    }

    /// The end that was sent first.
    pub fn earlier(&self) -> (m: MessageRef)
        ensures
            m == self@.earlier,
            self@.wf(),
    {
        proof {
            use_type_invariant(self);
        }
        self.earlier
    }

    /// The end that was sent last.
    pub fn later(&self) -> (m: MessageRef)
        ensures
            m == self@.later,
            self@.wf(),
    {
        proof {
            use_type_invariant(self);
        }
        self.later
    }

    /// What is left of the range once everything up to `anchor` is dealt
    /// with: the range from `anchor` to the same later end.
    pub(crate) fn rest_after(&self, anchor: MessageRef) -> (rest: DeletionRange)
        requires
            anchor.timestamp <= self@.later.timestamp,
        ensures
            rest@ == (RangeView { earlier: anchor, later: self@.later }),
    {
        DeletionRange { earlier: anchor, later: self.later }
    }
}

/// The range that two messages span: the one with the smaller timestamp is the
/// earlier end, and on a tie `a` is.
pub open spec fn ordered(a: MessageRef, b: MessageRef) -> RangeView {
    if a.timestamp <= b.timestamp {
        RangeView { earlier: a, later: b }
    } else {
        RangeView { earlier: b, later: a }
    }
}

} // verus!
