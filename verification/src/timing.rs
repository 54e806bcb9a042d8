//! When a frame is due.
//!
//! The clock is a monotonic count of microseconds that the caller reads; a frame's
//! presentation time counts in units of the stream's time base.
use vstd::prelude::*;

verus! {

/// A fraction, as streams give their time base.
#[derive(Clone, Copy, Debug, PartialEq, Eq, Structural)]
pub struct Rational {
    pub num: i32,
    pub den: i32,
}

/// The presentation time of a frame that has none.
pub const NO_PTS_VALUE: i64 = i64::MIN;

/// Microseconds that a frame may be late before it is dropped.
pub const DROP_THRESHOLD_US: i64 = 50_000;

/// Units of the time base that the presentation time may go back before this
/// counts as a jump to another place.
pub const BACKWARD_TOLERANCE: i64 = 100;

pub struct Timing {
    start_time: u64,
    time_base: Rational,
    drop_threshold: i64,
    last_pts: i64,
    started: bool,
}

/// The contents of a [`Timing`].
pub struct TimingModel {
    /// Clock reading at which presentation time zero is due.
    pub start_time: int,
    pub time_base: Rational,
    pub drop_threshold: int,
    pub last_pts: int,
    pub started: bool,
}

/// `n / d` rounded to the nearest integer, halfway cases away from zero.
pub open spec fn round_div(n: int, d: int) -> int {
    if n >= 0 {
        (2 * n + d) / (2 * d)
    } else {
        -((2 * -n + d) / (2 * d))
    }
}

/// A presentation time in microseconds.
pub open spec fn pts_us(pts: int, time_base: Rational) -> int {
    round_div(pts * time_base.num * 1_000_000, time_base.den as int)
}

/// The time bases that mean a positive or zero duration.
pub open spec fn valid_time_base(q: Rational) -> bool {
    q.num >= 0 && q.den > 0
}

/// Microseconds since the clock stood at `start`, zero where that lies ahead.
pub open spec fn elapsed_us(start: int, now: int) -> int {
    if now >= start {
        now - start
    } else {
        0
    }
}

impl View for Timing {
    type V = TimingModel;

    closed spec fn view(&self) -> TimingModel {
        TimingModel {
            start_time: self.start_time as int,
            time_base: self.time_base,
            drop_threshold: self.drop_threshold as int,
            last_pts: self.last_pts as int,
            started: self.started,
        }
    }
}

impl TimingModel {
    /// Microseconds from the clock reading `now` until the frame with the given
    /// presentation time is due; negative where it is late.
    pub open spec fn lead_us(self, pts: int, now: int) -> int {
        pts_us(pts, self.time_base) - elapsed_us(self.start_time, now)
    }

    /// Whether the presentation time and the lead of the frame fit the integers they
    /// are counted in.
    pub open spec fn can_time(self, pts: i64, now: u64) -> bool {
        pts == NO_PTS_VALUE || {
            &&& valid_time_base(self.time_base)
            &&& i64::MIN < pts_us(pts as int, self.time_base) <= i64::MAX
            &&& elapsed_us(self.start_time, now as int) <= i64::MAX
            &&& i64::MIN <= self.lead_us(pts as int, now as int)
        }
    }

    /// What the scheduler says of a frame: -1 to drop it, otherwise the
    /// microseconds to wait.
    pub open spec fn delay(self, pts: i64, now: u64) -> int {
        if pts == NO_PTS_VALUE {
            0
        } else if self.lead_us(pts as int, now as int) < -self.drop_threshold {
            -1
        } else if self.lead_us(pts as int, now as int) < 0 {
            0
        } else {
            self.lead_us(pts as int, now as int)
        }
    }

    /// The state after presentation starts anew at the clock reading `now`.
    pub open spec fn restarted(self, now: int) -> TimingModel {
        TimingModel { start_time: now, last_pts: 0, started: true, ..self }
    }

    /// The state after a frame with the given presentation time was met.
    pub open spec fn updated(self, pts: int, now: int) -> TimingModel {
        if pts < self.last_pts - BACKWARD_TOLERANCE {
            self.restarted(now)
        } else {
            TimingModel { last_pts: pts, ..self }
        }
    }
}

proof fn lemma_round_div_monotone(a: int, b: int, d: int)
    requires
        d > 0,
        a <= b,
    ensures
        round_div(a, d) <= round_div(b, d),
{
    if a >= 0 {
        vstd::arithmetic::div_mod::lemma_div_is_ordered(2 * a + d, 2 * b + d, 2 * d);
    } else if b < 0 {
        vstd::arithmetic::div_mod::lemma_div_is_ordered(2 * -b + d, 2 * -a + d, 2 * d);
    } else {
        vstd::arithmetic::div_mod::lemma_div_pos_is_pos(2 * -a + d, 2 * d);
        vstd::arithmetic::div_mod::lemma_div_pos_is_pos(2 * b + d, 2 * d);
    }
}

/// The magnitude of a presentation time in microseconds, where it is at most `i64::MAX`.
fn magnitude_us(magnitude: u64, num: u32, den: u32) -> (r: Option<i64>)
    requires
        den > 0,
        magnitude <= i64::MAX,
        num <= i32::MAX,
        den <= i32::MAX,
    ensures
        r matches Some(v) ==> v == round_div(magnitude * num * 1_000_000, den as int),
        r is None <==> round_div(magnitude * num * 1_000_000, den as int) > i64::MAX,
        r matches Some(v) ==> v >= 0,
{
    proof {
        assert(0 <= magnitude * num <= 0x7fff_ffff_ffff_ffff * 0x7fff_ffff) by (nonlinear_arith)
            requires
                0 <= magnitude <= 0x7fff_ffff_ffff_ffff,
                0 <= num <= 0x7fff_ffff,
        ;
    }
    let product: u128 = magnitude as u128 * num as u128;
    let scaled: u128 = product * 1_000_000;
    let rounded: u128 = (2 * scaled + den as u128) / (2 * den as u128);
    if rounded > i64::MAX as u128 {
        None
    } else {
        Some(rounded as i64)
    }
}

/// A presentation time in microseconds, as the mathematical value of
/// `pts * time_base` rounded to the nearest integer; `None` where it does not fit
/// or the time base is not one.
fn rescale_to_us(pts: i64, time_base: Rational) -> (r: Option<i64>)
    requires
        pts > i64::MIN,
    ensures
        r matches Some(v) ==> valid_time_base(time_base) && v == pts_us(pts as int, time_base),
        r is None <==> !(valid_time_base(time_base) && i64::MIN < pts_us(pts as int, time_base)
            <= i64::MAX),
{
    if time_base.num < 0 || time_base.den <= 0 {
        return None;
    }
    let num: u32 = time_base.num as u32;
    let den: u32 = time_base.den as u32;
    if pts >= 0 {
        let m = magnitude_us(pts as u64, num, den);
        proof {
            let n = pts * time_base.num * 1_000_000;
            assert(n >= 0) by (nonlinear_arith)
                requires
                    pts >= 0,
                    time_base.num >= 0,
                    n == pts * time_base.num * 1_000_000,
            ;
            vstd::arithmetic::div_mod::lemma_div_pos_is_pos(2 * n + den, 2 * den as int);
        }
        m
    } else {
        let m = magnitude_us((-pts) as u64, num, den);
        proof {
            let n = pts * time_base.num * 1_000_000;
            let k = (-pts) * time_base.num * 1_000_000;
            assert(k == -n && k >= 0) by (nonlinear_arith)
                requires
                    pts < 0,
                    time_base.num >= 0,
                    n == pts * time_base.num * 1_000_000,
                    k == (-pts) * time_base.num * 1_000_000,
            ;
            vstd::arithmetic::div_mod::lemma_div_pos_is_pos(2 * k + den, 2 * den as int);
            if n == 0 {
                assert((den as int) / (2 * den as int) == 0) by (nonlinear_arith)
                    requires
                        den > 0,
                ;
            }
        }
        match m {
            Some(v) => Some(-v),
            None => None,
        }
    }
}

impl Timing {
    /// Every schedule drops frames at the same threshold.
    #[verifier::type_invariant]
    spec fn has_threshold(self) -> bool {
        self.drop_threshold == DROP_THRESHOLD_US
    }

    /// A stopped schedule; `now` is the reading of the clock.
    pub fn new(now: u64) -> (r: Self)
        ensures
            r@ == (TimingModel {
                start_time: now as int,
                time_base: Rational { num: 1, den: 1 },
                drop_threshold: DROP_THRESHOLD_US as int,
                last_pts: 0,
                started: false,
            }),
    {
        Timing {
            start_time: now,
            time_base: Rational { num: 1, den: 1 },
            drop_threshold: DROP_THRESHOLD_US,
            last_pts: 0,
            started: false,
        }
    }

    /// Sets the time base; without effect once the schedule has started.
    pub fn configure(&mut self, time_base: Rational)
        ensures
            old(self)@.started ==> final(self)@ == old(self)@,
            !old(self)@.started ==> final(self)@ == (TimingModel { time_base, ..old(self)@ }),
            final(self)@.drop_threshold == DROP_THRESHOLD_US,
    {
        proof {
            use_type_invariant(&*self);
        }
        if self.started {
            return;
        }
        self.time_base = time_base;
    }

    /// Starts the schedule at the clock reading `now`, unless it has started.
    pub fn start_once(&mut self, now: u64)
        ensures
            old(self)@.started ==> final(self)@ == old(self)@,
            !old(self)@.started ==> final(self)@ == old(self)@.restarted(now as int),
            final(self)@.drop_threshold == DROP_THRESHOLD_US,
    {
        proof {
            use_type_invariant(&*self);
        }
        if self.started {
            return;
        }
        self.started = true;
        self.last_pts = 0;
        self.start_time = now;
    }

    /// Starts the schedule anew at the clock reading `now`.
    pub fn restart(&mut self, now: u64)
        ensures
            final(self)@ == old(self)@.restarted(now as int),
            final(self)@.drop_threshold == DROP_THRESHOLD_US,
    {
        proof {
            use_type_invariant(&*self);
        }
        self.started = false;
        self.start_once(now);
    }

    /// The same schedule once more.
    pub fn copy(&self) -> (r: Timing)
        ensures
            r@ == self@,
            self@.drop_threshold == DROP_THRESHOLD_US,
    {
        proof {
            use_type_invariant(&*self);
        }
        Timing {
            start_time: self.start_time,
            time_base: self.time_base,
            drop_threshold: self.drop_threshold,
            last_pts: self.last_pts,
            started: self.started,
        }
    }

    pub fn has_started(&self) -> (r: bool)
        ensures
            r == self@.started,
            self@.drop_threshold == DROP_THRESHOLD_US,
    {
        proof {
            use_type_invariant(&*self);
        }
        self.started
    }

    /// The presentation time of the last frame met.
    pub fn last_pts(&self) -> (r: i64)
        ensures
            r == self@.last_pts,
            self@.drop_threshold == DROP_THRESHOLD_US,
    {
        proof {
            use_type_invariant(&*self);
        }
        self.last_pts
    }

    /// Whether the time of a frame can be told; [`get_delay`](Self::get_delay) asks for this.
    pub fn can_time(&self, pts: i64, now: u64) -> (r: bool)
        ensures
            r == self@.can_time(pts, now),
            self@.drop_threshold == DROP_THRESHOLD_US,
    {
        proof {
            use_type_invariant(&*self);
        }
        if pts == NO_PTS_VALUE {
            return true;
        }
        match rescale_to_us(pts, self.time_base) {
            Some(target) => {
                let elapsed: u64 = now.saturating_sub(self.start_time);
                elapsed <= i64::MAX as u64 && target.checked_sub(elapsed as i64).is_some()
            },
            None => false,
        }
    }

    /// -1 where the frame is to be dropped, otherwise the microseconds to wait
    /// before it is shown.
    pub fn get_delay(&self, pts: i64, now: u64) -> (r: i64)
        requires
            self@.can_time(pts, now),
        ensures
            r == self@.delay(pts, now),
            self@.drop_threshold == DROP_THRESHOLD_US,
    {
        proof {
            use_type_invariant(&*self);
        }
        if pts == NO_PTS_VALUE {
            return 0;
        }
        let target: i64 = match rescale_to_us(pts, self.time_base) {
            Some(v) => v,
            None => 0,
        };
        let elapsed: i64 = now.saturating_sub(self.start_time) as i64;
        let delay: i64 = target - elapsed;
        if (delay as i128) < -(self.drop_threshold as i128) {
            return -1;
        }
        if delay < 0 {
            return 0;
        }
        delay
    }

    /// Takes note of a frame; a jump back starts the schedule anew.
    pub fn update(&mut self, current_pts: i64, now: u64)
        requires
            old(self)@.last_pts - BACKWARD_TOLERANCE >= i64::MIN,
        ensures
            final(self)@ == old(self)@.updated(current_pts as int, now as int),
            final(self)@.drop_threshold == DROP_THRESHOLD_US,
    {
        proof {
            use_type_invariant(&*self);
        }
        if current_pts < self.last_pts - BACKWARD_TOLERANCE {
            self.restart(now);
            return;
        }
        self.last_pts = current_pts;
    }
}

/// No event changes the threshold at which frames are dropped.
pub proof fn law_threshold_is_kept(t: TimingModel, pts: int, now: int)
    ensures
        t.restarted(now).drop_threshold == t.drop_threshold,
        t.updated(pts, now).drop_threshold == t.drop_threshold,
{
}

/// The later the clock, the smaller the lead: a frame that is dropped at one
/// reading of the clock is dropped at every later one.
pub proof fn law_dropped_stays_dropped(t: TimingModel, pts: i64, now: u64, later: u64)
    requires
        now <= later,
        t.drop_threshold >= 0,
        t.delay(pts, now) == -1,
    ensures
        t.delay(pts, later) == -1,
{
}

/// Frames are due in the order of their presentation times.
pub proof fn law_order_of_presentation(t: TimingModel, first: int, second: int, now: int)
    requires
        valid_time_base(t.time_base),
        first <= second,
    ensures
        t.lead_us(first, now) <= t.lead_us(second, now),
{
    let a = first * t.time_base.num * 1_000_000;
    let b = second * t.time_base.num * 1_000_000;
    assert(a <= b) by (nonlinear_arith)
        requires
            first <= second,
            t.time_base.num >= 0,
            a == first * t.time_base.num * 1_000_000,
            b == second * t.time_base.num * 1_000_000,
    ;
    lemma_round_div_monotone(a, b, t.time_base.den as int);
}

/// A frame is dropped exactly when it is later than the threshold; one that is
/// late by less is shown at once.
pub proof fn law_late_frames(t: TimingModel, pts: i64, now: u64)
    requires
        pts != NO_PTS_VALUE,
        t.drop_threshold >= 0,
    ensures
        t.delay(pts, now) == -1 <==> t.lead_us(pts as int, now as int) < -t.drop_threshold,
        t.delay(pts, now) == 0 <==> -t.drop_threshold <= t.lead_us(pts as int, now as int) <= 0,
{
}

/// Waiting for as long as the schedule says makes the frame due: asked again at
/// that reading of the clock, the schedule says to wait no longer.
pub proof fn law_waiting_makes_due(t: TimingModel, pts: i64, now: u64, later: u64)
    requires
        t.start_time <= now,
        t.drop_threshold >= 0,
        t.delay(pts, now) >= 0,
        later == now + t.delay(pts, now),
    ensures
        t.delay(pts, later) == 0,
{
}

/// Right after a start, the frame at presentation time zero is due at once, in
/// every time base.
pub proof fn law_start_shows_first_frame(t: TimingModel, now: u64)
    requires
        valid_time_base(t.time_base),
        t.drop_threshold >= 0,
    ensures
        t.restarted(now as int).delay(0, now) == 0,
{
    let d = t.time_base.den as int;
    assert(0 * t.time_base.num * 1_000_000 == 0) by (nonlinear_arith);
    assert(d / (2 * d) == 0) by (nonlinear_arith)
        requires
            d > 0,
    ;
}

proof fn lemma_round_div_nearest(n: int, d: int)
    requires
        d > 0,
    ensures
        n >= 0 ==> -d <= 2 * (n - round_div(n, d) * d) < d,
        n < 0 ==> -d < 2 * (n - round_div(n, d) * d) <= d,
{
    if n >= 0 {
        let a = 2 * n + d;
        let q = a / (2 * d);
        vstd::arithmetic::div_mod::lemma_fundamental_div_mod(a, 2 * d);
        vstd::arithmetic::div_mod::lemma_mod_bound(a, 2 * d);
        assert(2 * (q * d) == (2 * d) * q) by (nonlinear_arith);
    } else {
        let a = 2 * -n + d;
        let q = a / (2 * d);
        vstd::arithmetic::div_mod::lemma_fundamental_div_mod(a, 2 * d);
        vstd::arithmetic::div_mod::lemma_mod_bound(a, 2 * d);
        assert(2 * (q * d) == (2 * d) * q) by (nonlinear_arith);
        assert((-q) * d == -(q * d)) by (nonlinear_arith);
    }
}

proof fn lemma_nearest_is_unique(n: int, d: int, a: int, b: int)
    requires
        d > 0,
        n >= 0 ==> -d <= 2 * (n - a * d) < d,
        n < 0 ==> -d < 2 * (n - a * d) <= d,
        n >= 0 ==> -d <= 2 * (n - b * d) < d,
        n < 0 ==> -d < 2 * (n - b * d) <= d,
    ensures
        a == b,
{
    assert(a * d - b * d == (a - b) * d) by (nonlinear_arith);
    if a > b {
        assert((a - b) * d >= d) by (nonlinear_arith)
            requires
                a - b >= 1,
                d > 0,
        ;
    } else if a < b {
        assert((a - b) * d <= -d) by (nonlinear_arith)
            requires
                a - b <= -1,
                d > 0,
        ;
    }
}

/// A presentation time comes to the microsecond nearest to `pts * num / den` seconds, and
/// halfway to the one further from zero. A whole number of seconds comes to that many.
pub proof fn law_presentation_time_in_microseconds(pts: int, q: Rational, seconds: int)
    requires
        q.num >= 0,
        q.den > 0,
    ensures
        ({
            let exact = pts * q.num * 1_000_000;
            let told = pts_us(pts, q) * q.den;
            &&& exact >= 0 ==> -q.den <= 2 * (exact - told) < q.den
            &&& exact < 0 ==> -q.den < 2 * (exact - told) <= q.den
        }),
        pts * q.num == seconds * q.den ==> pts_us(pts, q) == seconds * 1_000_000,
{
    let d = q.den as int;
    let exact = pts * q.num * 1_000_000;
    lemma_round_div_nearest(exact, d);
    if pts * q.num == seconds * q.den {
        let told = seconds * 1_000_000;
        assert(told * d == seconds * d * 1_000_000) by (nonlinear_arith)
            requires
                told == seconds * 1_000_000,
        ;
        lemma_nearest_is_unique(exact, d, told, pts_us(pts, q));
    }
}

/// What is said of a frame, from the clock alone: where `lead` microseconds are left between
/// the time that has passed since the start and the microsecond nearest to the presentation
/// time, that is how long to wait; a frame that is late by no more than the threshold is shown
/// at once, and one that is later is dropped.
pub proof fn law_delay_is_the_time_left(t: TimingModel, pts: i64, now: u64, lead: int)
    requires
        pts != i64::MIN,
        t.time_base.num >= 0,
        t.time_base.den > 0,
        ({
            let passed = if now >= t.start_time {
                now - t.start_time
            } else {
                0
            };
            let exact = pts * t.time_base.num * 1_000_000;
            let told = (lead + passed) * t.time_base.den;
            &&& exact >= 0 ==> -t.time_base.den <= 2 * (exact - told) < t.time_base.den
            &&& exact < 0 ==> -t.time_base.den < 2 * (exact - told) <= t.time_base.den
        }),
    ensures
        lead >= 0 && t.drop_threshold >= 0 ==> t.delay(pts, now) == lead,
        -t.drop_threshold <= lead < 0 ==> t.delay(pts, now) == 0,
        lead < -t.drop_threshold ==> t.delay(pts, now) == -1,
{
    let d = t.time_base.den as int;
    let exact = pts * t.time_base.num * 1_000_000;
    lemma_round_div_nearest(exact, d);
    let passed = if now >= t.start_time {
        now - t.start_time
    } else {
        0
    };
    lemma_nearest_is_unique(exact, d, lead + passed, pts_us(pts as int, t.time_base));
}

/// A frame without a presentation time does not wait and is not dropped, whatever the clock
/// says.
pub proof fn law_untimed_frame_does_not_wait(t: TimingModel, now: u64)
    ensures
        t.delay(i64::MIN, now) == 0,
{
}

/// The schedule starts anew, at presentation time zero, exactly where a frame lies more than
/// a hundred units of the time base before the last one; otherwise it runs on and only the
/// last presentation time is that of the frame. The time base stays.
pub proof fn law_schedule_starts_anew_on_jump_back(t: TimingModel, pts: int, now: int)
    ensures
        ({
            let after = t.updated(pts, now);
            &&& after.time_base == t.time_base
            &&& pts + 100 < t.last_pts ==> after.start_time == now && after.last_pts == 0
                && after.started
            &&& pts + 100 >= t.last_pts ==> after.start_time == t.start_time && after.last_pts
                == pts && after.started == t.started
        }),
{
}

/// Time runs alike for all frames: while the clock goes on, a frame that waits waits less by
/// just as much.
pub proof fn law_waiting_shrinks_with_the_clock(t: TimingModel, pts: i64, now: u64, later: u64)
    requires
        t.start_time <= now <= later,
        t.drop_threshold >= 0,
        t.delay(pts, now) >= later - now,
        pts != i64::MIN,
    ensures
        t.delay(pts, later) == t.delay(pts, now) - (later - now),
{
}

/// The time of a frame can be told exactly where it has none, or where the microsecond nearest
/// to it, the time that has passed, and the time that is left fit their integers.
pub proof fn law_time_can_be_told(t: TimingModel, pts: i64, now: u64, us: int)
    requires
        pts != i64::MIN,
        t.time_base.num >= 0,
        t.time_base.den > 0,
        ({
            let exact = pts * t.time_base.num * 1_000_000;
            &&& exact >= 0 ==> -t.time_base.den <= 2 * (exact - us * t.time_base.den)
                < t.time_base.den
            &&& exact < 0 ==> -t.time_base.den < 2 * (exact - us * t.time_base.den)
                <= t.time_base.den
        }),
    ensures
        t.can_time(i64::MIN, now),
        ({
            let passed = if now >= t.start_time {
                now - t.start_time
            } else {
                0
            };
            t.can_time(pts, now) <==> i64::MIN < us <= i64::MAX && passed <= i64::MAX && us - passed
                >= i64::MIN
        }),
{
    let d = t.time_base.den as int;
    let exact = pts * t.time_base.num * 1_000_000;
    lemma_round_div_nearest(exact, d);
    lemma_nearest_is_unique(exact, d, us, pts_us(pts as int, t.time_base));
}

/// No time can be told on a time base that is negative or has no duration to divide by.
pub proof fn law_time_base_is_needed(t: TimingModel, pts: i64, now: u64)
    requires
        pts != i64::MIN,
        t.time_base.num < 0 || t.time_base.den <= 0,
    ensures
        !t.can_time(pts, now),
{
}

/// A frame may be late by a twentieth of a second, and the lowest number stands for no time.
pub proof fn law_limits_of_the_schedule()
    ensures
        20 * DROP_THRESHOLD_US == 1_000_000,
        NO_PTS_VALUE == i64::MIN,
        BACKWARD_TOLERANCE == 100,
{
}

} // verus!
