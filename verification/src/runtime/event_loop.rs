//! The frames that come out of the queue: when each is shown, if at all, and what is
//! counted.
use vstd::prelude::*;

use crate::app::state::{App, AppModel};
use crate::decoder::format::PixelFormat;
use crate::frame_queue;
use crate::frame_queue::{FrameQueue, QueueModel};
use crate::timing;
use crate::timing::TimingModel;

verus! {

/// Seconds between two statistics.
pub const STATS_SECONDS: u64 = 5;

/// What to do with the oldest frame that waits.
#[derive(Clone, Copy, Debug, PartialEq, Eq, Structural)]
pub enum FrameDecision {
    /// No frame waits.
    Idle,
    /// The frame is too late. It was given back; release what this slot holds before the
    /// queue is asked for a slot again.
    Dropped { slot: u32 },
    /// Show the frame in this slot, after so many microseconds.
    Show { slot: u32, delay_us: u64 },
}

/// The schedule when a frame is met: it starts with the first frame, and starts anew where
/// the presentation time jumps back.
pub open spec fn met(t: TimingModel, pts: i64, started: u64, updated: u64) -> TimingModel {
    let running = if t.started {
        t
    } else {
        t.restarted(started as int)
    };
    running.updated(pts as int, updated as int)
}

/// What the schedule needs to tell the time of the frame.
pub open spec fn schedulable(
    t: TimingModel,
    pts: i64,
    started: u64,
    updated: u64,
    asked: u64,
) -> bool {
    &&& t.started ==> t.last_pts - timing::BACKWARD_TOLERANCE >= i64::MIN
    &&& met(t, pts, started, updated).can_time(pts, asked)
}

/// The decision on the oldest frame, with the presentation time `pts`.
pub open spec fn decision(q: QueueModel, t: TimingModel, pts: i64, asked: u64) -> FrameDecision {
    let slot = frame_queue::slot_of(q.read) as u32;
    if !q.readable() {
        FrameDecision::Idle
    } else if t.delay(pts, asked) == -1 {
        FrameDecision::Dropped { slot }
    } else {
        FrameDecision::Show { slot, delay_us: t.delay(pts, asked) as u64 }
    }
}

/// Whether the time of the frame can be told; [`common_loop`] asks for this.
pub fn can_schedule(app: &App, pts: i64, started: u64, updated: u64, asked: u64) -> (r: bool)
    ensures
        r == schedulable(app@.timing, pts, started, updated, asked),
{
    let mut t = app.timing.copy();
    if t.has_started() && t.last_pts() < i64::MIN + timing::BACKWARD_TOLERANCE {
        return false;
    }
    t.start_once(started);
    t.update(pts, updated);
    t.can_time(pts, asked)
}

/// Decides on the oldest frame that waits, whose presentation time is `pts`. The clock is
/// read three times: to start the schedule, to note the frame, and to ask for its delay.
/// A frame that is too late is given back.
pub fn common_loop(
    app: &mut App,
    queue: &mut FrameQueue,
    pts: i64,
    started: u64,
    updated: u64,
    asked: u64,
) -> (r: FrameDecision)
    requires
        old(queue)@.readable() ==> old(queue)@.read < u32::MAX && schedulable(
            old(app)@.timing,
            pts,
            started,
            updated,
            asked,
        ),
    ensures
        r == decision(
            old(queue)@,
            met(old(app)@.timing, pts, started, updated),
            pts,
            asked,
        ),
        final(app)@ == if r is Idle {
            old(app)@
        } else {
            AppModel { timing: met(old(app)@.timing, pts, started, updated), ..old(app)@ }
        },
        final(queue)@ == if r is Dropped {
            old(queue)@.after_read()
        } else {
            old(queue)@
        },
        r !is Idle ==> final(app)@.timing.drop_threshold == timing::DROP_THRESHOLD_US,
{
    let slot: u32 = match queue.try_get_read_slot() {
        Some(slot) => slot,
        None => return FrameDecision::Idle,
    };
    app.timing.start_once(started);
    app.timing.update(pts, updated);
    let delay: i64 = app.timing.get_delay(pts, asked);
    if delay == -1 {
        let slot: u32 = queue.commit_read();
        return FrameDecision::Dropped { slot };
    }
    FrameDecision::Show { slot, delay_us: delay as u64 }
}

/// A frame is shown no earlier than it is due: it waits for as long as it is early.
pub proof fn law_frames_wait_until_due(q: QueueModel, t: TimingModel, pts: i64, asked: u64)
    requires
        pts != timing::NO_PTS_VALUE,
        t.drop_threshold >= 0,
        t.can_time(pts, asked),
    ensures
        decision(q, t, pts, asked) matches FrameDecision::Show { slot, delay_us } ==> delay_us
            >= t.lead_us(pts as int, asked as int) && t.lead_us(pts as int, asked as int)
            >= -t.drop_threshold,
{
}

/// A frame without a presentation time is shown at once.
pub proof fn law_untimed_frames_show_at_once(q: QueueModel, t: TimingModel, asked: u64)
    requires
        q.readable(),
    ensures
        decision(q, t, timing::NO_PTS_VALUE, asked) == (FrameDecision::Show {
            slot: frame_queue::slot_of(q.read) as u32,
            delay_us: 0,
        }),
{
}

/// When a video starts over, the schedule does too: the first frame of the next round is
/// due at once.
pub proof fn law_next_round_shows_at_once(t: TimingModel, started: u64, now: u64)
    requires
        t.started,
        t.last_pts > timing::BACKWARD_TOLERANCE,
        timing::valid_time_base(t.time_base),
        t.drop_threshold >= 0,
    ensures
        met(t, 0, started, now).delay(0, now) == 0,
{
    timing::law_start_shows_first_frame(t, now);
}

/// The shader that turns a frame into colours.
#[derive(Clone, Copy, Debug, PartialEq, Eq, Structural)]
pub enum ShaderKind {
    Yuv420p,
    Nv12,
}

/// How a frame is drawn with OpenGL.
#[derive(Clone, Copy, Debug, PartialEq, Eq, Structural)]
pub enum GlFramePlan {
    /// The format cannot be drawn; give the frame back.
    Skip,
    /// Make the textures first where that is marked, fill them, and draw with the shader
    /// on every surface.
    Draw { shader: ShaderKind, make_textures: bool },
}

pub open spec fn shader_for(format: PixelFormat) -> Option<ShaderKind> {
    match format {
        PixelFormat::Yuv420p => Some(ShaderKind::Yuv420p),
        PixelFormat::Nv12 => Some(ShaderKind::Nv12),
        _ => None,
    }
}

/// How a frame of that format is drawn, where there are `textures` textures.
pub fn on_egl_gl_frame(format: PixelFormat, textures: usize) -> (r: GlFramePlan)
    ensures
        r == match shader_for(format) {
            Some(shader) => GlFramePlan::Draw { shader, make_textures: textures == 0 },
            None => GlFramePlan::Skip,
        },
{
    match format {
        PixelFormat::Yuv420p => GlFramePlan::Draw {
            shader: ShaderKind::Yuv420p,
            make_textures: textures == 0,
        },
        PixelFormat::Nv12 => GlFramePlan::Draw {
            shader: ShaderKind::Nv12,
            make_textures: textures == 0,
        },
        _ => GlFramePlan::Skip,
    }
}

/// The state with one more frame shown.
pub open spec fn counted(a: AppModel) -> AppModel {
    AppModel {
        committed_frames: (a.committed_frames + 1) as u64,
        frames_per_stats_sample: (a.frames_per_stats_sample + 1) as u64,
        ..a
    }
}

pub open spec fn can_count(a: AppModel) -> bool {
    a.committed_frames < u64::MAX && a.frames_per_stats_sample < u64::MAX
}

/// Gives the oldest frame back, and counts it where it was shown. Returns the slot; what it
/// holds must be released before the queue is asked for a slot again.
pub fn finish_frame(app: &mut App, queue: &mut FrameQueue, shown: bool) -> (slot: u32)
    requires
        old(queue)@.read < u32::MAX,
        shown ==> can_count(old(app)@),
    ensures
        slot == frame_queue::slot_of(old(queue)@.read),
        final(queue)@ == old(queue)@.after_read(),
        final(app)@ == if shown {
            counted(old(app)@)
        } else {
            old(app)@
        },
{
    let slot: u32 = queue.commit_read();
    if shown {
        app.committed_frames = app.committed_frames + 1;
        app.frames_per_stats_sample = app.frames_per_stats_sample + 1;
    }
    slot
}

/// What the statistics are made of.
#[derive(Clone, Copy, Debug, PartialEq, Eq, Structural)]
pub struct StatsSample {
    /// Frames shown since the last statistics.
    pub frames: u64,
    /// Microseconds since then.
    pub elapsed_us: u64,
}

/// Takes the statistics at the clock reading `now` and starts the next sample. Where none
/// was taken yet, the sample covers the time between two statistics.
pub fn take_stats(app: &mut App, now: u64) -> (r: StatsSample)
    ensures
        r.frames == old(app)@.frames_per_stats_sample,
        r.elapsed_us == match old(app)@.last_stats_time {
            Some(t) => timing::elapsed_us(t as int, now as int),
            None => STATS_SECONDS * 1_000_000,
        },
        final(app)@ == (AppModel {
            frames_per_stats_sample: 0,
            last_stats_time: Some(now),
            ..old(app)@
        }),
{
    let frames: u64 = app.frames_per_stats_sample;
    let elapsed_us: u64 = match app.last_stats_time {
        Some(t) => now.saturating_sub(t),
        None => STATS_SECONDS * 1_000_000,
    };
    app.frames_per_stats_sample = 0;
    app.last_stats_time = Some(now);
    StatsSample { frames, elapsed_us }
}

/// Takes note that there is a main loop, which can be stopped from now on.
pub fn build_common_loop(app: &mut App)
    ensures
        final(app)@ == (AppModel { main_loop_signal: true, ..old(app)@ }),
{
    app.main_loop_signal = true;
}

/// What is done with the oldest frame, from the clock alone: where none waits, nothing; where
/// `lead` microseconds are left until the frame is due it is shown after them, where it is
/// late by no more than the threshold at once, and a later one is dropped. The frame is in
/// the slot that its number in the order of writing tells.
pub proof fn law_oldest_frame_is_decided_on(
    q: QueueModel,
    t: TimingModel,
    pts: i64,
    asked: u64,
    lead: int,
)
    requires
        pts != i64::MIN,
        t.time_base.num >= 0,
        t.time_base.den > 0,
        t.drop_threshold >= 0,
        lead <= u64::MAX,
        ({
            let passed = if asked >= t.start_time {
                asked - t.start_time
            } else {
                0
            };
            let exact = pts * t.time_base.num * 1_000_000;
            let told = (lead + passed) * t.time_base.den;
            &&& exact >= 0 ==> -t.time_base.den <= 2 * (exact - told) < t.time_base.den
            &&& exact < 0 ==> -t.time_base.den < 2 * (exact - told) <= t.time_base.den
        }),
    ensures
        q.count == 0 ==> decision(q, t, pts, asked) == FrameDecision::Idle,
        q.count != 0 && lead < -t.drop_threshold ==> decision(q, t, pts, asked) == (
        FrameDecision::Dropped { slot: (q.read % 3) as u32 }),
        q.count != 0 && -t.drop_threshold <= lead < 0 ==> decision(q, t, pts, asked) == (
        FrameDecision::Show { slot: (q.read % 3) as u32, delay_us: 0 }),
        q.count != 0 && lead >= 0 ==> decision(q, t, pts, asked) == (FrameDecision::Show {
            slot: (q.read % 3) as u32,
            delay_us: lead as u64,
        }),
{
    timing::law_delay_is_the_time_left(t, pts, asked, lead);
}

/// The schedule starts with the first frame that is met, goes on with each that follows, and
/// starts anew with one that lies more than a hundred ticks before the last; the time base and
/// the threshold stay.
pub proof fn law_schedule_runs_from_the_first_frame(
    t: TimingModel,
    pts: i64,
    started: u64,
    updated: u64,
)
    ensures
        ({
            let after = met(t, pts, started, updated);
            let last = if t.started {
                t.last_pts
            } else {
                0
            };
            &&& after.started
            &&& after.time_base == t.time_base
            &&& after.drop_threshold == t.drop_threshold
            &&& pts < last - 100 ==> after.start_time == updated && after.last_pts == 0
            &&& pts >= last - 100 ==> after.last_pts == pts
            &&& pts >= last - 100 && t.started ==> after.start_time == t.start_time
            &&& pts >= last - 100 && !t.started ==> after.start_time == started
        }),
{
}

/// Each of the two formats in memory has a shader of its own, and no other format has one.
pub proof fn law_shaders_are_of_their_formats(format: PixelFormat)
    ensures
        shader_for(format) == Some(ShaderKind::Yuv420p) <==> format == PixelFormat::Yuv420p,
        shader_for(format) == Some(ShaderKind::Nv12) <==> format == PixelFormat::Nv12,
        shader_for(format) is None <==> format != PixelFormat::Yuv420p && format
            != PixelFormat::Nv12,
{
}

/// A frame that is shown counts once, in all and in the sample, and changes nothing else.
pub proof fn law_shown_frame_counts_once(a: AppModel)
    requires
        a.committed_frames < u64::MAX,
        a.frames_per_stats_sample < u64::MAX,
    ensures
        can_count(a),
        counted(a).committed_frames == a.committed_frames + 1,
        counted(a).frames_per_stats_sample == a.frames_per_stats_sample + 1,
        (AppModel {
            committed_frames: a.committed_frames,
            frames_per_stats_sample: a.frames_per_stats_sample,
            ..counted(a)
        }) == a,
        STATS_SECONDS == 5,
{
}

/// A frame can be scheduled exactly where the test for a jump back does not overflow and its
/// time can be told on the schedule as it then runs.
pub proof fn law_when_a_frame_can_be_scheduled(
    t: TimingModel,
    pts: i64,
    started: u64,
    updated: u64,
    asked: u64,
)
    ensures
        t.started && t.last_pts < i64::MIN + 100 ==> !schedulable(t, pts, started, updated, asked),
        !t.started || t.last_pts >= i64::MIN + 100 ==> (schedulable(
            t,
            pts,
            started,
            updated,
            asked,
        ) <==> met(t, pts, started, updated).can_time(pts, asked)),
{
}

/// Frames can be counted exactly while neither counter is at its end.
pub proof fn law_when_frames_can_be_counted(a: AppModel)
    ensures
        can_count(a) <==> a.committed_frames != u64::MAX && a.frames_per_stats_sample != u64::MAX,
{
}

} // verus!
