//! Frame callbacks: a round of frames starts when every monitor has shown the last.
use vstd::prelude::*;

verus! {

/// What happens when a frame callback fires.
#[derive(Clone, Copy, Debug, PartialEq, Eq, Structural)]
pub enum CallbackAction {
    /// Other monitors have not shown their frame yet.
    Wait,
    /// Request the next callback on every surface, then draw every monitor.
    NextRound,
}

/// The callbacks that are still to come, and the frames that were drawn.
#[derive(Clone, Copy, Debug, PartialEq, Eq, Structural)]
pub struct FrameCallbacks {
    pub pending_wl_callbacks: usize,
    pub frame_count: u64,
}

/// The callbacks left after one fired.
pub open spec fn left_after(pending: usize) -> int {
    if pending == 0 {
        0
    } else {
        pending - 1
    }
}

/// The number of frames that were drawn.
pub open spec fn count_drawn(drawn: Seq<bool>) -> nat
    decreases drawn.len(),
{
    if drawn.len() == 0 {
        0
    } else {
        count_drawn(drawn.drop_last()) + if drawn.last() {
            1nat
        } else {
            0
        }
    }
}

proof fn lemma_count_drawn(drawn: Seq<bool>, n: int)
    requires
        0 <= n <= drawn.len(),
    ensures
        count_drawn(drawn.take(n)) <= count_drawn(drawn),
        count_drawn(drawn) <= drawn.len(),
    decreases drawn.len(),
{
    if drawn.len() > 0 {
        lemma_count_drawn(drawn.drop_last(), if n == drawn.len() {
            n - 1
        } else {
            n
        });
        if n < drawn.len() {
            assert(drawn.drop_last().take(n) =~= drawn.take(n));
        } else {
            assert(drawn.take(n) =~= drawn);
        }
    }
}

impl FrameCallbacks {
    /// A frame callback fired; there are `monitors` monitors.
    pub fn fired(&mut self, monitors: usize) -> (r: CallbackAction)
        ensures
            final(self).frame_count == old(self).frame_count,
            left_after(old(self).pending_wl_callbacks) > 0 ==> r == CallbackAction::Wait
                && final(self).pending_wl_callbacks == left_after(old(self).pending_wl_callbacks),
            left_after(old(self).pending_wl_callbacks) == 0 ==> r == CallbackAction::NextRound
                && final(self).pending_wl_callbacks == monitors,
    {
        self.pending_wl_callbacks = self.pending_wl_callbacks.saturating_sub(1);
        if self.pending_wl_callbacks == 0 {
            self.pending_wl_callbacks = monitors;
            return CallbackAction::NextRound;
        }
        CallbackAction::Wait
    }

    /// Counts the frames that a round has drawn; one entry for each window.
    pub fn drawn(&mut self, drawn: &Vec<bool>)
        requires
            old(self).frame_count + count_drawn(drawn@) <= u64::MAX,
        ensures
            final(self).frame_count == old(self).frame_count + count_drawn(drawn@),
            final(self).pending_wl_callbacks == old(self).pending_wl_callbacks,
    {
        let mut i: usize = 0;
        while i < drawn.len()
            invariant
                i <= drawn.len(),
                old(self).frame_count + count_drawn(drawn@) <= u64::MAX,
                self.frame_count == old(self).frame_count + count_drawn(drawn@.take(i as int)),
                self.pending_wl_callbacks == old(self).pending_wl_callbacks,
            decreases drawn.len() - i,
        {
            proof {
                lemma_count_drawn(drawn@, i + 1);
                assert(drawn@.take(i + 1).drop_last() =~= drawn@.take(i as int));
                assert(drawn@.take(i + 1).last() == drawn@[i as int]);
            }
            if drawn[i] {
                self.frame_count += 1;
            }
            i += 1;
        }
        assert(drawn@.take(i as int) =~= drawn@);
    }
}

/// The callbacks left to come after `n` callbacks of one round fired.
pub open spec fn pending_after(pending: int, n: int) -> int {
    if n >= pending {
        0
    } else {
        pending - n
    }
}

/// A round ends exactly with the callback of its last monitor: after fewer callbacks
/// than there were to come, some are left, and after as many, none is.
pub proof fn law_round_takes_all_monitors(pending: usize, n: int)
    requires
        pending > 0,
        0 <= n < pending,
    ensures
        pending_after(pending as int, n) > 0,
        pending_after(pending as int, n + 1) == left_after(
            pending_after(pending as int, n) as usize,
        ),
        pending_after(pending as int, pending as int) == 0,
{
}

/// One callback that fires is one fewer to come, and none is never fewer than none.
pub proof fn law_each_callback_counts(pending: usize)
    ensures
        pending > 0 ==> left_after(pending) + 1 == pending,
        left_after(0) == 0,
{
}

/// The frames that were drawn are counted one by one, and those that were not are not.
pub proof fn law_drawn_frames_are_counted(drawn: Seq<bool>, more: Seq<bool>)
    ensures
        count_drawn(drawn.push(true)) == count_drawn(drawn) + 1,
        count_drawn(drawn.push(false)) == count_drawn(drawn),
        count_drawn(drawn + more) == count_drawn(drawn) + count_drawn(more),
        (forall|i: int| 0 <= i < drawn.len() ==> drawn[i]) ==> count_drawn(drawn) == drawn.len(),
        (forall|i: int| 0 <= i < drawn.len() ==> !drawn[i]) ==> count_drawn(drawn) == 0,
    decreases drawn.len() + more.len(),
{
    assert(drawn.push(true).drop_last() =~= drawn);
    assert(drawn.push(false).drop_last() =~= drawn);
    if more.len() > 0 {
        assert((drawn + more).drop_last() =~= drawn + more.drop_last());
        law_drawn_frames_are_counted(drawn, more.drop_last());
    } else {
        assert(drawn + more =~= drawn);
        if drawn.len() > 0 {
            law_drawn_frames_are_counted(drawn.drop_last(), more);
            assert(drawn[drawn.len() - 1] == drawn.last());
            assert(forall|i: int|
                0 <= i < drawn.drop_last().len() ==> drawn.drop_last()[i] == drawn[i]);
        }
    }
}

} // verus!
