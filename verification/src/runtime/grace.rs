//! The end of a test run: the frames that were asked for are shown, then the compositor is
//! given time to release the buffers.
use vstd::prelude::*;

use crate::app::buffers;
use crate::app::state::{App, AppModel};
use crate::runtime::event_loop;

verus! {

/// Milliseconds between two looks at the number of frames.
pub const POLL_MILLIS: u64 = 500;

/// Milliseconds that the compositor has to release buffers.
pub const GRACE_MILLIS: u64 = 2000;

/// What the buffers tell at the end.
#[derive(Clone, Copy, Debug, PartialEq, Eq, Structural)]
pub enum Verdict {
    /// No buffer was released.
    NoneReleased { total: usize },
    /// So many of the buffers were released.
    Released { free: usize, total: usize },
    /// There are not as many buffers as frames.
    Unexpected { expected: u64, total: usize },
}

/// What to do next.
#[derive(Clone, Copy, Debug, PartialEq, Eq, Structural)]
pub enum GraceAction {
    /// Look again after so many milliseconds.
    Again { millis: u64 },
    /// The test run is over; stop the main loop where that is marked.
    Over { verdict: Verdict, stop: bool },
}

/// Another frame is due in a run of `frames` when `committed` were shown.
pub open spec fn is_due(committed: u64, frames: u64) -> bool {
    committed < frames
}

/// Whether another frame may be shown when `committed` were: no more than `frames` are.
pub fn may_present(committed: u64, frames: u64) -> (r: bool)
    ensures
        r == is_due(committed, frames),
{
    committed < frames
}

/// What `total` buffers of which `free` are released tell after `frames` frames.
pub open spec fn verdict_of(total: nat, free: nat, frames: u64) -> Verdict {
    if total == frames as usize && free == 0 {
        Verdict::NoneReleased { total: total as usize }
    } else if total == frames as usize {
        Verdict::Released { free: free as usize, total: total as usize }
    } else {
        Verdict::Unexpected { expected: frames, total: total as usize }
    }
}

/// The timer at the end of a test run.
pub struct GraceTimer {
    started: bool,
}

impl GraceTimer {
    /// Whether the time to release buffers runs.
    pub closed spec fn started(self) -> bool {
        self.started
    }

    /// A timer that first looks after [`POLL_MILLIS`].
    pub fn new() -> (r: (GraceTimer, u64))
        ensures
            !r.0.started(),
            r.1 == POLL_MILLIS,
    {
        (GraceTimer { started: false }, POLL_MILLIS)
    }

    /// Looks at the number of frames: the time to release buffers starts once all frames
    /// that were asked for are shown, and when it is over the test run is, too.
    pub fn poll(&mut self, app: &App, frames: u64) -> (r: GraceAction)
        ensures
            final(self).started() == (old(self).started() || app@.committed_frames >= frames),
            r == if old(self).started() {
                GraceAction::Over {
                    verdict: verdict_of(
                        buffers::made(app@.buffers),
                        buffers::free(app@.buffers),
                        frames,
                    ),
                    stop: app@.main_loop_signal,
                }
            } else if app@.committed_frames >= frames {
                GraceAction::Again { millis: GRACE_MILLIS }
            } else {
                GraceAction::Again { millis: POLL_MILLIS }
            },
    {
        if app.committed_frames >= frames && !self.started {
            self.started = true;
            return GraceAction::Again { millis: GRACE_MILLIS };
        }
        if self.started {
            let (total, free): (usize, usize) = app.wl_buffer_states.count();
            let expected: usize = frames as usize;
            let verdict = if total == expected && free == 0 {
                Verdict::NoneReleased { total }
            } else if total == expected {
                Verdict::Released { free, total }
            } else {
                Verdict::Unexpected { expected: frames, total }
            };
            return GraceAction::Over { verdict, stop: app.main_loop_signal };
        }
        GraceAction::Again { millis: POLL_MILLIS }
    }
}

/// A run shows as many frames as were asked for and no more: while fewer were, another is due,
/// and one that is due makes not too many.
pub proof fn law_run_shows_frames_asked_for(app: AppModel, frames: u64)
    requires
        app.committed_frames <= frames,
    ensures
        is_due(app.committed_frames, frames) <==> app.committed_frames != frames,
        is_due(app.committed_frames, frames) ==> event_loop::counted(app).committed_frames
            <= frames,
{
}

/// Where there are as many buffers as frames, the verdict tells whether one of them is free;
/// it is that the number is unexpected exactly where there are not.
pub proof fn law_verdict(total: nat, free: nat, frames: u64)
    requires
        free <= total <= usize::MAX,
        frames <= usize::MAX,
    ensures
        verdict_of(total, free, frames) is Released <==> total == frames && free > 0,
        verdict_of(total, free, frames) is NoneReleased <==> total == frames && free == 0,
        verdict_of(total, free, frames) is Unexpected <==> total != frames,
{
}

/// The verdict tells the numbers that were found, and the timer looks twice a second and gives
/// the compositor two seconds.
pub proof fn law_verdict_tells_the_numbers(total: nat, free: nat, frames: u64)
    requires
        free <= total <= usize::MAX,
        frames <= usize::MAX,
    ensures
        verdict_of(total, free, frames) matches Verdict::NoneReleased { total: t } ==> t == total,
        verdict_of(total, free, frames) matches Verdict::Released { free: f, total: t } ==> t
            == total && f == free,
        verdict_of(total, free, frames) matches Verdict::Unexpected { expected, total: t }
            ==> expected == frames && t == total,
        POLL_MILLIS == 500,
        GRACE_MILLIS == 2000,
{
}

} // verus!
