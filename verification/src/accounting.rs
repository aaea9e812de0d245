//! Accounting of live pages.
//!
//! A [`PageCounter`] is process-wide state made explicit: one counter value
//! is created at startup and handed to every allocator operation that
//! constructs or destroys pages, so the count can be read by an external
//! metrics collector and independent counters can be set up for tests. The
//! counter is advisory: allocators never consult it to admit or reject work.

use vstd::prelude::*;

verus! {

/// One accounting-relevant event in the life of the process: a page was
/// constructed, or the last handle to a page was dropped and its storage
/// released.
pub enum PageEvent {
    Constructed,
    Released,
}

/// How many events of `history` constructed a page.
pub open spec fn count_constructed(history: Seq<PageEvent>) -> int
    decreases history.len(),
{
    if history.len() == 0 {
        0
    } else {
        count_constructed(history.drop_last()) + if history.last() is Constructed {
            1int
        } else {
            0int
        }
    }
}

/// How many events of `history` released a page.
pub open spec fn count_released(history: Seq<PageEvent>) -> int
    decreases history.len(),
{
    if history.len() == 0 {
        0
    } else {
        count_released(history.drop_last()) + if history.last() is Released {
            1int
        } else {
            0int
        }
    }
}

/// The counter value reached by replaying `history` from `start`.
pub open spec fn replay(start: int, history: Seq<PageEvent>) -> int
    decreases history.len(),
{
    if history.len() == 0 {
        start
    } else {
        replay(start, history.drop_last()) + match history.last() {
            PageEvent::Constructed => 1int,
            PageEvent::Released => -1int,
        }
    }
}

/// Accounting conservation: after any sequence of construct and release
/// events, the live-page counter has moved from its starting value by
/// exactly (pages constructed) − (pages released).
pub proof fn lemma_accounting_conservation(start: int, history: Seq<PageEvent>)
    ensures
        replay(start, history) == start + count_constructed(history) - count_released(history),
    decreases history.len(),
{
    if history.len() > 0 {
        lemma_accounting_conservation(start, history.drop_last());
    }
}

/// A run of `n` identical events, as appended by a batch operation.
pub open spec fn event_run(event: PageEvent, n: nat) -> Seq<PageEvent> {
    Seq::new(n, |i: int| event)
}

/// How many slots of an allocator's arena hold a live page.
pub open spec fn live_slots<T>(slots: Seq<Option<T>>) -> int
    decreases slots.len(),
{
    if slots.len() == 0 {
        0
    } else {
        live_slots(slots.drop_last()) + if slots.last() is Some {
            1int
        } else {
            0int
        }
    }
}

/// Appending a slot adds one live slot exactly when it holds a page.
pub proof fn lemma_live_slots_push<T>(slots: Seq<Option<T>>, v: Option<T>)
    ensures
        live_slots(slots.push(v)) == live_slots(slots) + if v is Some {
            1int
        } else {
            0int
        },
{
    assert(slots.push(v).drop_last() =~= slots);
}

/// Replacing one slot changes the live count by the difference the
/// replacement makes at that slot.
pub proof fn lemma_live_slots_update<T>(slots: Seq<Option<T>>, i: int, v: Option<T>)
    requires
        0 <= i < slots.len(),
    ensures
        live_slots(slots.update(i, v)) == live_slots(slots) - (if slots[i] is Some {
            1int
        } else {
            0int
        }) + (if v is Some {
            1int
        } else {
            0int
        }),
    decreases slots.len(),
{
    let updated = slots.update(i, v);
    if i == slots.len() - 1 {
        assert(updated.drop_last() =~= slots.drop_last());
    } else {
        assert(updated.drop_last() =~= slots.drop_last().update(i, v));
        lemma_live_slots_update(slots.drop_last(), i, v);
    }
}

/// The process-wide count of live pages.
///
/// Incremented exactly once per page construction in any backend and
/// decremented exactly once per page destruction; never reset. The counter
/// carries a ghost history of the events applied to it, so that what the
/// count means — constructions minus releases — is part of its contract.
pub struct PageCounter {
    count: u64,
    history: Ghost<Seq<PageEvent>>,
}

impl PageCounter {
    /// The events recorded against this counter since it was created.
    pub closed spec fn history(&self) -> Seq<PageEvent> {
        self.history@
    }

    /// The current count, for use in contracts.
    pub closed spec fn count(&self) -> int {
        self.count as int
    }

    /// The count is exactly the replay of the recorded history from zero.
    pub closed spec fn wf(&self) -> bool {
        self.count as int == replay(0, self.history@)
    }

    /// A fresh counter: zero live pages, empty history.
    pub fn new() -> (r: PageCounter)
        ensures
            r.wf(),
            r.count() == 0,
            r.history() == Seq::<PageEvent>::empty(),
    {
        PageCounter { count: 0, history: Ghost(Seq::empty()) }
    }

    /// The current number of live pages, as read by a metrics exporter.
    pub fn get(&self) -> (r: u64)
        ensures
            r as int == self.count(),
    {
        self.count
    }

    /// Records the construction of one page.
    pub(crate) fn inc(&mut self)
        requires
            old(self).wf(),
            old(self).count() < u64::MAX,
        ensures
            final(self).wf(),
            final(self).count() == old(self).count() + 1,
            final(self).history() == old(self).history().push(PageEvent::Constructed),
    {
        self.count = self.count + 1;
        proof {
            self.history@ = self.history@.push(PageEvent::Constructed);
            assert(self.history@.drop_last() =~= old(self).history());
        }
    }

    /// Records the destruction of one page.
    pub(crate) fn dec(&mut self)
        requires
            old(self).wf(),
            old(self).count() > 0,
        ensures
            final(self).wf(),
            final(self).count() == old(self).count() - 1,
            final(self).history() == old(self).history().push(PageEvent::Released),
    {
        self.count = self.count - 1;
        proof {
            self.history@ = self.history@.push(PageEvent::Released);
            assert(self.history@.drop_last() =~= old(self).history());
        }
    }
}

} // verus!
