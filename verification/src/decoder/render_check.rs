//! A trial of the whole way: one frame is decoded on the GPU and shown for a while.
use vstd::prelude::*;

use crate::decoder::codes::{AVERROR_EAGAIN, AVERROR_EOF};

verus! {

/// How long the frame is shown, in milliseconds.
pub const SHOW_MILLIS: u64 = 3000;

/// How long to sleep between two looks at the clock, in milliseconds.
pub const STEP_MILLIS: u64 = 50;

/// The height of the part of the surface that is marked as changed.
pub const DAMAGE_HEIGHT: i32 = 1088;

/// What the trial holds of the codec library, in the order in which it is given up.
#[derive(Clone, Copy, Debug, PartialEq, Eq, Structural)]
pub struct RenderHoldings {
    /// The converted frame.
    pub converted: bool,
    pub frame: bool,
    pub packet: bool,
    pub context: bool,
    pub device: bool,
    pub input: bool,
}

pub open spec fn nothing() -> RenderHoldings {
    RenderHoldings {
        converted: false,
        frame: false,
        packet: false,
        context: false,
        device: false,
        input: false,
    }
}

/// All that is held before a frame was converted.
pub open spec fn decoder_parts() -> RenderHoldings {
    RenderHoldings {
        converted: false,
        frame: true,
        packet: true,
        context: true,
        device: true,
        input: true,
    }
}

/// All that is held once a frame was converted.
pub open spec fn everything() -> RenderHoldings {
    RenderHoldings { converted: true, ..decoder_parts() }
}

#[derive(Clone, Copy, Debug, PartialEq, Eq, Structural)]
pub enum RenderError {
    Alloc,
    /// There is no frame to show.
    NoFrame,
    CreateConverter,
    Convert,
    MapFrame,
    /// The compositor did not answer.
    Roundtrip,
}

/// What to do next.
#[derive(Clone, Copy, Debug, PartialEq, Eq, Structural)]
pub enum RenderAction {
    /// Make a packet and a frame.
    Alloc,
    Read,
    UnrefPacket,
    /// Send the packet, whatever comes of it.
    Send,
    /// Tell the codec that no more packets come.
    SendEnd,
    Receive,
    /// Set the converter up for frames of this size.
    CreateConverter { width: i32, height: i32 },
    Convert,
    /// Map the converted frame for the compositor.
    MapFrame,
    /// Attach the frame to the first monitor's surface, mark this part of it as changed
    /// and commit it.
    Show { width: i32, height: i32 },
    Roundtrip,
    /// Look at the clock.
    CheckTime,
    /// Sleep for this many milliseconds, then send what is queued.
    Sleep { millis: u64 },
    /// The trial is over; give up what is marked.
    Finish { release: RenderHoldings },
    Fail { error: RenderError, release: RenderHoldings },
}

/// What came of an action.
#[derive(Clone, Copy, Debug, PartialEq, Eq, Structural)]
pub enum RenderEvent {
    Allocated { packet: bool, frame: bool },
    /// The codec library's code, and the stream that the packet is of.
    WasRead { ret: i32, stream: i32 },
    /// The codec library's code, and the size of the frame.
    Received { ret: i32, width: i32, height: i32 },
    /// Whether it succeeded.
    Succeeded(bool),
    /// The width of the mapped frame, where it could be mapped.
    Mapped(Option<i32>),
    /// Milliseconds since the frame was shown.
    Elapsed(u64),
    Done,
}

/// Where the trial stands, that is, which action was given out.
#[derive(Clone, Copy, Debug, PartialEq, Eq, Structural)]
pub enum RenderCheckState {
    Allocating,
    Reading,
    Skipping,
    Sending,
    Emptying,
    Ending,
    Receiving,
    CreatingConverter,
    Converting,
    MappingFrame,
    Showing,
    WaitingForCompositor,
    CheckingTime,
    Sleeping,
    Over,
}

pub type RenderStep = Option<(RenderCheckState, RenderAction)>;

pub open spec fn fail(error: RenderError, release: RenderHoldings) -> RenderStep {
    Some((RenderCheckState::Over, RenderAction::Fail { error, release }))
}

pub open spec fn read_more() -> RenderStep {
    Some((RenderCheckState::Reading, RenderAction::Read))
}

/// The next state and action, where `video` is the stream that is decoded; `None` where
/// the event does not answer the last action.
pub open spec fn next(s: RenderCheckState, video: i32, e: RenderEvent) -> RenderStep {
    match (s, e) {
        (RenderCheckState::Allocating, RenderEvent::Allocated { packet, frame }) => if packet
            && frame {
            read_more()
        } else {
            fail(RenderError::Alloc, nothing())
        },
        (RenderCheckState::Reading, RenderEvent::WasRead { ret, stream }) => if ret
            == AVERROR_EOF {
            Some((RenderCheckState::Ending, RenderAction::SendEnd))
        } else if ret < 0 {
            fail(RenderError::NoFrame, decoder_parts())
        } else if stream != video {
            Some((RenderCheckState::Skipping, RenderAction::UnrefPacket))
        } else {
            Some((RenderCheckState::Sending, RenderAction::Send))
        },
        (RenderCheckState::Skipping, RenderEvent::Done) => read_more(),
        (RenderCheckState::Sending, RenderEvent::Done) => Some(
            (RenderCheckState::Emptying, RenderAction::UnrefPacket),
        ),
        (RenderCheckState::Emptying, RenderEvent::Done) => Some(
            (RenderCheckState::Receiving, RenderAction::Receive),
        ),
        (RenderCheckState::Ending, RenderEvent::Done) => Some(
            (RenderCheckState::Receiving, RenderAction::Receive),
        ),
        (RenderCheckState::Receiving, RenderEvent::Received { ret, width, height }) => if ret
            >= 0 {
            Some(
                (
                    RenderCheckState::CreatingConverter,
                    RenderAction::CreateConverter { width, height },
                ),
            )
        } else if ret == AVERROR_EAGAIN {
            read_more()
        } else {
            fail(RenderError::NoFrame, decoder_parts())
        },
        (RenderCheckState::CreatingConverter, RenderEvent::Succeeded(ok)) => if ok {
            Some((RenderCheckState::Converting, RenderAction::Convert))
        } else {
            fail(RenderError::CreateConverter, nothing())
        },
        (RenderCheckState::Converting, RenderEvent::Succeeded(ok)) => if ok {
            Some((RenderCheckState::MappingFrame, RenderAction::MapFrame))
        } else {
            fail(RenderError::Convert, nothing())
        },
        (RenderCheckState::MappingFrame, RenderEvent::Mapped(mapped)) => match mapped {
            Some(width) => Some(
                (
                    RenderCheckState::Showing,
                    RenderAction::Show { width, height: DAMAGE_HEIGHT },
                ),
            ),
            None => fail(
                RenderError::MapFrame,
                RenderHoldings { converted: true, ..nothing() },
            ),
        },
        (RenderCheckState::Showing, RenderEvent::Done) => Some(
            (RenderCheckState::WaitingForCompositor, RenderAction::Roundtrip),
        ),
        (RenderCheckState::WaitingForCompositor, RenderEvent::Succeeded(ok)) => if ok {
            Some((RenderCheckState::CheckingTime, RenderAction::CheckTime))
        } else {
            fail(RenderError::Roundtrip, everything())
        },
        (RenderCheckState::CheckingTime, RenderEvent::Elapsed(millis)) => if millis
            < SHOW_MILLIS {
            Some((RenderCheckState::Sleeping, RenderAction::Sleep { millis: STEP_MILLIS }))
        } else {
            Some((RenderCheckState::Over, RenderAction::Finish { release: everything() }))
        },
        (RenderCheckState::Sleeping, RenderEvent::Done) => Some(
            (RenderCheckState::CheckingTime, RenderAction::CheckTime),
        ),
        _ => None,
    }
}

/// The trial.
pub struct RenderCheck {
    video: i32,
    state: RenderCheckState,
}

impl RenderCheck {
    pub closed spec fn video(self) -> i32 {
        self.video
    }

    pub closed spec fn state(self) -> RenderCheckState {
        self.state
    }

    fn failure(error: RenderError, converted: bool, rest: bool) -> (r: (
        RenderCheckState,
        RenderAction,
    ))
        ensures
            Some(r) == fail(
                error,
                (RenderHoldings {
                    converted,
                    frame: rest,
                    packet: rest,
                    context: rest,
                    device: rest,
                    input: rest,
                }),
            ),
    {
        (
            RenderCheckState::Over,
            RenderAction::Fail {
                error,
                release: RenderHoldings {
                    converted,
                    frame: rest,
                    packet: rest,
                    context: rest,
                    device: rest,
                    input: rest,
                },
            },
        )
    }

    /// A trial that shows a frame of the stream `video_stream_idx`.
    pub fn start(video_stream_idx: i32) -> (r: (RenderCheck, RenderAction))
        ensures
            r.0.video() == video_stream_idx,
            r.0.state() == RenderCheckState::Allocating,
            r.1 == RenderAction::Alloc,
    {
        (
            RenderCheck { video: video_stream_idx, state: RenderCheckState::Allocating },
            RenderAction::Alloc,
        )
    }

    /// The action that follows what came of the last one; `None` where the event does not
    /// answer it.
    pub fn vaapi_render_check(&mut self, event: RenderEvent) -> (r: Option<RenderAction>)
        ensures
            final(self).video() == old(self).video(),
            match next(old(self).state(), old(self).video(), event) {
                Some((s, a)) => final(self).state() == s && r == Some(a),
                None => final(self).state() == old(self).state() && r is None,
            },
    {
        let (state, action): (RenderCheckState, RenderAction) = match (self.state, event) {
            (RenderCheckState::Allocating, RenderEvent::Allocated { packet, frame }) => if packet
                && frame {
                (RenderCheckState::Reading, RenderAction::Read)
            } else {
                Self::failure(RenderError::Alloc, false, false)
            },
            (RenderCheckState::Reading, RenderEvent::WasRead { ret, stream }) => if ret < 0 {
                if ret == AVERROR_EOF {
                    (RenderCheckState::Ending, RenderAction::SendEnd)
                } else {
                    Self::failure(RenderError::NoFrame, false, true)
                }
            } else if stream != self.video {
                (RenderCheckState::Skipping, RenderAction::UnrefPacket)
            } else {
                (RenderCheckState::Sending, RenderAction::Send)
            },
            (RenderCheckState::Skipping, RenderEvent::Done) => (
                RenderCheckState::Reading,
                RenderAction::Read,
            ),
            (RenderCheckState::Sending, RenderEvent::Done) => (
                RenderCheckState::Emptying,
                RenderAction::UnrefPacket,
            ),
            (RenderCheckState::Emptying, RenderEvent::Done) => (
                RenderCheckState::Receiving,
                RenderAction::Receive,
            ),
            (RenderCheckState::Ending, RenderEvent::Done) => (
                RenderCheckState::Receiving,
                RenderAction::Receive,
            ),
            (RenderCheckState::Receiving, RenderEvent::Received { ret, width, height }) => if ret
                >= 0 {
                (
                    RenderCheckState::CreatingConverter,
                    RenderAction::CreateConverter { width, height },
                )
            } else if ret == AVERROR_EAGAIN {
                (RenderCheckState::Reading, RenderAction::Read)
            } else {
                Self::failure(RenderError::NoFrame, false, true)
            },
            (RenderCheckState::CreatingConverter, RenderEvent::Succeeded(ok)) => if ok {
                (RenderCheckState::Converting, RenderAction::Convert)
            } else {
                Self::failure(RenderError::CreateConverter, false, false)
            },
            (RenderCheckState::Converting, RenderEvent::Succeeded(ok)) => if ok {
                (RenderCheckState::MappingFrame, RenderAction::MapFrame)
            } else {
                Self::failure(RenderError::Convert, false, false)
            },
            (RenderCheckState::MappingFrame, RenderEvent::Mapped(mapped)) => match mapped {
                Some(width) => (
                    RenderCheckState::Showing,
                    RenderAction::Show { width, height: DAMAGE_HEIGHT },
                ),
                None => Self::failure(RenderError::MapFrame, true, false),
            },
            (RenderCheckState::Showing, RenderEvent::Done) => (
                RenderCheckState::WaitingForCompositor,
                RenderAction::Roundtrip,
            ),
            (RenderCheckState::WaitingForCompositor, RenderEvent::Succeeded(ok)) => if ok {
                (RenderCheckState::CheckingTime, RenderAction::CheckTime)
            } else {
                Self::failure(RenderError::Roundtrip, true, true)
            },
            (RenderCheckState::CheckingTime, RenderEvent::Elapsed(millis)) => if millis
                < SHOW_MILLIS {
                (RenderCheckState::Sleeping, RenderAction::Sleep { millis: STEP_MILLIS })
            } else {
                (
                    RenderCheckState::Over,
                    RenderAction::Finish {
                        release: RenderHoldings {
                            converted: true,
                            frame: true,
                            packet: true,
                            context: true,
                            device: true,
                            input: true,
                        },
                    },
                )
            },
            (RenderCheckState::Sleeping, RenderEvent::Done) => (
                RenderCheckState::CheckingTime,
                RenderAction::CheckTime,
            ),
            _ => return None,
        };
        self.state = state;
        Some(action)
    }
}

/// What to say of a trial that failed, before what is known of the cause; `None` where the
/// cause says it all.
pub fn failure_text(e: RenderError) -> (r: Option<&'static str>)
    ensures
        match e {
            RenderError::Alloc => r matches Some(t) && t@
                == "Failed to allocate frames or packet"@,
            RenderError::NoFrame => r matches Some(t) && t@
                == "Could not decode a single frame to display."@,
            RenderError::Roundtrip => r matches Some(t) && t@ == "WaylandError"@,
            _ => r is None,
        },
{
    match e {
        RenderError::Alloc => Some("Failed to allocate frames or packet"),
        RenderError::NoFrame => Some("Could not decode a single frame to display."),
        RenderError::Roundtrip => Some("WaylandError"),
        _ => None,
    }
}

/// Where the trial stands after a run of events, and how many frames were shown so far.
pub open spec fn run(video: i32, events: Seq<RenderEvent>) -> (RenderCheckState, nat)
    decreases events.len(),
{
    if events.len() == 0 {
        (RenderCheckState::Allocating, 0)
    } else {
        let (before, shown) = run(video, events.drop_last());
        match next(before, video, events.last()) {
            None => (before, shown),
            Some((after, action)) => (
                after,
                if action is Show {
                    shown + 1
                } else {
                    shown
                },
            ),
        }
    }
}

/// Whether the frame is on its way to the screen, or there.
pub open spec fn has_shown(s: RenderCheckState) -> bool {
    s == RenderCheckState::Showing || s == RenderCheckState::WaitingForCompositor || s
        == RenderCheckState::CheckingTime || s == RenderCheckState::Sleeping
}

/// A trial shows at most one frame, and looks at the clock only after it showed one.
pub proof fn law_one_frame_is_shown(video: i32, events: Seq<RenderEvent>)
    ensures
        ({
            let (s, shown) = run(video, events);
            &&& shown <= 1
            &&& has_shown(s) ==> shown == 1
            &&& !has_shown(s) && !(s is Over) ==> shown == 0
        }),
    decreases events.len(),
{
    if events.len() > 0 {
        law_one_frame_is_shown(video, events.drop_last());
    }
}

/// The trial ends well exactly when the time is over, and then gives everything up.
pub proof fn law_finish_after_the_time(s: RenderCheckState, video: i32, e: RenderEvent)
    ensures
        (next(s, video, e) matches Some((_, a)) && a is Finish) <==> (s
            == RenderCheckState::CheckingTime && (e matches RenderEvent::Elapsed(millis) && millis
            >= SHOW_MILLIS)),
        match next(s, video, e) {
            Some((_, RenderAction::Finish { release })) => release == everything(),
            _ => true,
        },
{
}

/// A packet goes to the codec exactly where it is one of the stream that is tried; every
/// other one is emptied unused and the next is read. At the end of the file the codec is told
/// so, and a read that fails otherwise ends the trial without a frame.
pub proof fn law_only_the_tried_stream_is_sent(video: i32, ret: i32, stream: i32)
    ensures
        next(RenderCheckState::Reading, video, RenderEvent::WasRead { ret, stream }) matches Some(
            (after, action),
        ) && {
            &&& ret >= 0 ==> (action == RenderAction::Send <==> stream == video)
            &&& ret >= 0 ==> (action == RenderAction::UnrefPacket <==> stream != video)
            &&& ret == AVERROR_EOF <==> action == RenderAction::SendEnd
            &&& ret < 0 && ret != AVERROR_EOF <==> (action matches RenderAction::Fail {
                error,
                ..
            } && error == RenderError::NoFrame)
            &&& ret >= 0 && stream != video ==> next(after, video, RenderEvent::Done) == Some(
                (RenderCheckState::Reading, RenderAction::Read),
            )
            &&& ret >= 0 && stream == video ==> (next(after, video, RenderEvent::Done) matches Some(
                (then, second),
            ) && second == RenderAction::UnrefPacket && next(then, video, RenderEvent::Done)
                == Some((RenderCheckState::Receiving, RenderAction::Receive)))
            &&& ret == AVERROR_EOF ==> next(after, video, RenderEvent::Done) == Some(
                (RenderCheckState::Receiving, RenderAction::Receive),
            )
        },
{
}

/// The first frame that the codec hands out is converted in its own size, mapped and shown in
/// the mapped width; a codec that has no frame yet gets another packet, and one that has none
/// at all ends the trial.
pub proof fn law_first_frame_goes_to_the_screen(
    video: i32,
    ret: i32,
    width: i32,
    height: i32,
    mapped: i32,
)
    ensures
        next(
            RenderCheckState::Receiving,
            video,
            RenderEvent::Received { ret, width, height },
        ) matches Some((after, action)) && {
            &&& ret >= 0 <==> action == (RenderAction::CreateConverter { width, height })
            &&& ret == AVERROR_EAGAIN <==> action == RenderAction::Read
            &&& ret < 0 && ret != AVERROR_EAGAIN <==> action is Fail
            &&& ret >= 0 ==> (next(after, video, RenderEvent::Succeeded(true)) matches Some(
                (converting, second),
            ) && {
                &&& second == RenderAction::Convert
                &&& next(converting, video, RenderEvent::Succeeded(true)) matches Some(
                    (mapping, third),
                ) && {
                    &&& third == RenderAction::MapFrame
                    &&& next(mapping, video, RenderEvent::Mapped(Some(mapped))) matches Some(
                        (showing, fourth),
                    ) && {
                        &&& fourth == (RenderAction::Show { width: mapped, height: 1088 })
                        &&& next(showing, video, RenderEvent::Done) == Some(
                            (RenderCheckState::WaitingForCompositor, RenderAction::Roundtrip),
                        )
                    }
                }
            })
        },
{
}

/// Each step that fails ends the trial with an error of its own, and no other event does.
pub proof fn law_each_failure_has_its_error(s: RenderCheckState, video: i32, e: RenderEvent)
    ensures
        ({
            let failed: Option<RenderError> = match (s, e) {
                (RenderCheckState::Allocating, RenderEvent::Allocated { packet, frame }) => if packet
                    && frame {
                    None
                } else {
                    Some(RenderError::Alloc)
                },
                (RenderCheckState::Reading, RenderEvent::WasRead { ret, .. }) => if ret < 0 && ret
                    != AVERROR_EOF {
                    Some(RenderError::NoFrame)
                } else {
                    None
                },
                (RenderCheckState::Receiving, RenderEvent::Received { ret, .. }) => if ret < 0
                    && ret != AVERROR_EAGAIN {
                    Some(RenderError::NoFrame)
                } else {
                    None
                },
                (RenderCheckState::CreatingConverter, RenderEvent::Succeeded(false)) => Some(
                    RenderError::CreateConverter,
                ),
                (RenderCheckState::Converting, RenderEvent::Succeeded(false)) => Some(
                    RenderError::Convert,
                ),
                (RenderCheckState::MappingFrame, RenderEvent::Mapped(None)) => Some(
                    RenderError::MapFrame,
                ),
                (RenderCheckState::WaitingForCompositor, RenderEvent::Succeeded(false)) => Some(
                    RenderError::Roundtrip,
                ),
                _ => None,
            };
            match failed {
                Some(error) => next(s, video, e) matches Some(
                    (RenderCheckState::Over, RenderAction::Fail { error: told, .. }),
                ) && told == error,
                None => !(next(s, video, e) matches Some((_, a)) && a is Fail),
            }
        }),
{
}

/// What is given up where the trial fails: nothing where it holds nothing or the caller holds
/// it, all but a converted frame where no frame came, the converted frame alone where it could
/// not be mapped, and everything where the compositor did not answer.
pub proof fn law_failures_give_up(s: RenderCheckState, video: i32, e: RenderEvent)
    ensures
        next(s, video, e) matches Some((_, RenderAction::Fail { error, release: r })) ==> {
            let all = r.frame && r.packet && r.context && r.device && r.input;
            let none = !r.frame && !r.packet && !r.context && !r.device && !r.input;
            &&& error == RenderError::Alloc || error == RenderError::CreateConverter || error
                == RenderError::Convert ==> none && !r.converted
            &&& error == RenderError::NoFrame ==> all && !r.converted
            &&& error == RenderError::MapFrame ==> none && r.converted
            &&& error == RenderError::Roundtrip ==> all && r.converted
        },
        next(s, video, e) matches Some((_, RenderAction::Finish { release: r })) ==> r.converted
            && r.frame && r.packet && r.context && r.device && r.input,
{
}

/// A shown frame stays for three seconds: until then the clock is looked at every fifty
/// milliseconds.
pub proof fn law_frame_stays_for_three_seconds(video: i32, millis: u64)
    ensures
        next(RenderCheckState::WaitingForCompositor, video, RenderEvent::Succeeded(true)) == Some(
            (RenderCheckState::CheckingTime, RenderAction::CheckTime),
        ),
        next(RenderCheckState::CheckingTime, video, RenderEvent::Elapsed(millis)) matches Some(
            (after, action),
        ) && {
            &&& millis < 3000 <==> action == (RenderAction::Sleep { millis: 50 })
            &&& millis >= 3000 <==> action is Finish
            &&& millis < 3000 ==> next(after, video, RenderEvent::Done) == Some(
                (RenderCheckState::CheckingTime, RenderAction::CheckTime),
            )
        },
        next(
            RenderCheckState::Allocating,
            video,
            RenderEvent::Allocated { packet: true, frame: true },
        ) == Some((RenderCheckState::Reading, RenderAction::Read)),
{
}

} // verus!
