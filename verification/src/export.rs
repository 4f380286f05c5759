//! The export seam: the sink that receives completed spans and makes them
//! visible outside the process. Interchangeable strategies stand behind one
//! capability interface.

use vstd::prelude::*;
use crate::span::Span;

verus! {

/// A sink for completed spans. Accepting a span must not block the caller's
/// critical path: every implementation returns after either recording the
/// span or dropping it, never after recording it more than once.
pub trait Exporter: Sized {
    /// The spans this exporter has accepted so far, in order of arrival.
    spec fn exported(self) -> Seq<Span>;

    /// Accepts one completed span: it is recorded at the end of the history,
    /// or dropped, and nothing already accepted changes.
    fn export(&mut self, span: Span)
        ensures
            final(self).exported() == old(self).exported().push(span) || final(self).exported()
                == old(self).exported(),
    ;
}

/// An exporter that keeps every span it is handed: the in-memory equivalent
/// of a synchronous sink, and the collector that tests inspect.
pub struct CollectingExporter {
    pub spans: Vec<Span>,
}

impl CollectingExporter {
    pub fn new() -> (r: CollectingExporter)
        ensures
            r.exported() == Seq::<Span>::empty(),
    {
        let r = CollectingExporter { spans: Vec::new() };
        proof {
            assert(r.spans@ =~= Seq::<Span>::empty());
        }
        r
    }
}

impl Exporter for CollectingExporter {
    open spec fn exported(self) -> Seq<Span> {
        self.spans@
    }

    fn export(&mut self, span: Span)
        ensures
            final(self).exported() == old(self).exported().push(span),
    {
        self.spans.push(span);
    }
}

/// An exporter over a bounded buffer: when the buffer is full it degrades to
/// dropping the span and counting the drop, rather than stalling the request
/// path behind a slow backend.
pub struct BoundedExporter {
    pub spans: Vec<Span>,
    pub capacity: usize,
    pub dropped: u64,
}

impl BoundedExporter {
    pub fn new(capacity: usize) -> (r: BoundedExporter)
        ensures
            r.exported() == Seq::<Span>::empty(),
            r.capacity == capacity,
            r.dropped == 0,
    {
        let r = BoundedExporter { spans: Vec::new(), capacity, dropped: 0 };
        proof {
            assert(r.spans@ =~= Seq::<Span>::empty());
        }
        r
    }
}

impl Exporter for BoundedExporter {
    open spec fn exported(self) -> Seq<Span> {
        self.spans@
    }

    /// Records the span while the buffer has room; once full, drops it and
    /// counts the drop (saturating), always returning to the caller.
    fn export(&mut self, span: Span)
        ensures
            old(self).spans@.len() < old(self).capacity ==> final(self).spans@ == old(
                self,
            ).spans@.push(span) && final(self).dropped == old(self).dropped,
            old(self).spans@.len() >= old(self).capacity ==> final(self).spans@ == old(self).spans@
                && final(self).dropped == (
            if old(self).dropped < u64::MAX {
                old(self).dropped + 1
            } else {
                old(self).dropped as int
            }),
            final(self).capacity == old(self).capacity,
    {
        if self.spans.len() < self.capacity {
            self.spans.push(span);
        } else if self.dropped < u64::MAX {
            self.dropped = self.dropped + 1;
        }
    }
}

/// Every span an exporter history holds is closed and well-formed, once every
/// span handed to it was.
pub open spec fn all_closed_wf(s: Seq<Span>) -> bool {
    forall|i: int| 0 <= i < s.len() ==> (#[trigger] s[i]).is_closed() && s[i].wf()
}

/// An export step preserves the history invariant: a history of closed,
/// well-formed spans stays one when a closed, well-formed span is recorded
/// or dropped.
pub proof fn lemma_export_preserves_closed_wf(before: Seq<Span>, after: Seq<Span>, s: Span)
    requires
        all_closed_wf(before),
        s.is_closed(),
        s.wf(),
        after == before.push(s) || after == before,
    ensures
        all_closed_wf(after),
{
    if after == before.push(s) {
        assert forall|i: int| 0 <= i < after.len() implies (#[trigger] after[i]).is_closed()
            && after[i].wf() by {
            if i < before.len() {
                assert(after[i] == before[i]);
            } else {
                assert(after[i] == s);
            }
        }
    }
}

} // verus!
