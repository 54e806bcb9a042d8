//! A trial of hardware decoding: some frames are decoded and their memory is looked at.
use vstd::prelude::*;

use crate::decoder::codes::{AVERROR_EAGAIN, AVERROR_EOF};
use crate::drm_frame;
use crate::drm_frame::FrameDescriptor;
use crate::text;

verus! {

/// What the trial holds of the codec library.
#[derive(Clone, Copy, Debug, PartialEq, Eq, Structural)]
pub struct CompatHoldings {
    pub frame: bool,
    pub drm_frame: bool,
    pub packet: bool,
    pub context: bool,
    pub device: bool,
    pub input: bool,
}

pub open spec fn everything() -> CompatHoldings {
    CompatHoldings {
        frame: true,
        drm_frame: true,
        packet: true,
        context: true,
        device: true,
        input: true,
    }
}

pub open spec fn nothing() -> CompatHoldings {
    CompatHoldings {
        frame: false,
        drm_frame: false,
        packet: false,
        context: false,
        device: false,
        input: false,
    }
}

#[derive(Clone, Copy, Debug, PartialEq, Eq, Structural)]
pub enum CompatError {
    Alloc,
    /// A plane names an object that is not there.
    InvalidObjectIndex,
}

/// What to do next.
#[derive(Clone, Copy, Debug, PartialEq, Eq, Structural)]
pub enum CompatAction {
    /// Make a packet and two frames.
    Alloc,
    Read,
    UnrefPacket,
    Send,
    /// Tell the codec that no more packets come.
    SendEnd,
    Receive,
    /// Map the frame's memory, for reading.
    MapFrame,
    UnrefMapped,
    UnrefFrame,
    /// The trial is over: this many frames were decoded. Give up what is marked.
    Finish { decoded: i32, release: CompatHoldings },
    Fail { error: CompatError, release: CompatHoldings },
}

/// What came of an action.
pub enum CompatEvent {
    /// Which of the packet and the two frames were made.
    Allocated { packet: bool, frame: bool, drm_frame: bool },
    /// The codec library's code, and the stream that the packet is of.
    WasRead { ret: i32, stream: i32 },
    Sent(i32),
    Received(i32),
    /// The codec library's code, and what it describes.
    Mapped { ret: i32, desc: Option<FrameDescriptor> },
    Done,
}

/// Where the trial stands, that is, which action was given out.
#[derive(Clone, Copy, Debug, PartialEq, Eq, Structural)]
pub enum CompatState {
    Allocating,
    Reading,
    /// Emptying a packet of another stream.
    Skipping,
    Sending,
    /// Emptying a packet that was sent.
    Emptying,
    /// Emptying a packet that the codec refused.
    Refused,
    Ending,
    /// Receiving frames; `at_end` after the end of the file.
    Receiving { at_end: bool },
    Mapping,
    UnmappingFrame,
    ReleasingFrame { at_end: bool },
    Over,
}

/// The trial in progress, in numbers: the stream, how many frames are wanted, and how
/// many were decoded.
#[derive(Clone, Copy, Debug, PartialEq, Eq, Structural)]
pub struct CompatModel {
    pub video: i32,
    pub wanted: i32,
    pub decoded: i32,
    pub state: CompatState,
}

pub type CompatStep = Option<(CompatModel, CompatAction)>;

pub open spec fn go(m: CompatModel, state: CompatState, action: CompatAction) -> CompatStep {
    Some((CompatModel { state, ..m }, action))
}

/// The trial ends and gives everything up.
pub open spec fn finish(m: CompatModel) -> CompatStep {
    go(
        m,
        CompatState::Over,
        CompatAction::Finish { decoded: m.decoded, release: everything() },
    )
}

/// Another packet is read while frames are wanted.
pub open spec fn read_more(m: CompatModel) -> CompatStep {
    if m.decoded < m.wanted {
        go(m, CompatState::Reading, CompatAction::Read)
    } else {
        finish(m)
    }
}

/// The next state and action; `None` where the event does not answer the last action.
pub open spec fn next(m: CompatModel, e: CompatEvent) -> CompatStep {
    match (m.state, e) {
        (CompatState::Allocating, CompatEvent::Allocated { packet, frame, drm_frame }) => if packet
            && frame && drm_frame {
            read_more(m)
        } else {
            go(
                m,
                CompatState::Over,
                CompatAction::Fail {
                    error: CompatError::Alloc,
                    release: CompatHoldings { packet, frame, drm_frame, ..everything() },
                },
            )
        },
        (CompatState::Reading, CompatEvent::WasRead { ret, stream }) => if ret == AVERROR_EOF {
            go(m, CompatState::Ending, CompatAction::SendEnd)
        } else if ret < 0 {
            finish(m)
        } else if stream != m.video {
            go(m, CompatState::Skipping, CompatAction::UnrefPacket)
        } else {
            go(m, CompatState::Sending, CompatAction::Send)
        },
        (CompatState::Skipping, CompatEvent::Done) => read_more(m),
        (CompatState::Sending, CompatEvent::Sent(ret)) => if ret < 0 && ret != AVERROR_EAGAIN {
            go(m, CompatState::Refused, CompatAction::UnrefPacket)
        } else {
            go(m, CompatState::Emptying, CompatAction::UnrefPacket)
        },
        (CompatState::Refused, CompatEvent::Done) => finish(m),
        (CompatState::Emptying, CompatEvent::Done) => go(
            m,
            CompatState::Receiving { at_end: false },
            CompatAction::Receive,
        ),
        (CompatState::Ending, CompatEvent::Done) => go(
            m,
            CompatState::Receiving { at_end: true },
            CompatAction::Receive,
        ),
        (CompatState::Receiving { at_end }, CompatEvent::Received(ret)) => if ret >= 0 {
            let counted = CompatModel { decoded: (m.decoded + 1) as i32, ..m };
            if at_end {
                go(counted, CompatState::ReleasingFrame { at_end }, CompatAction::UnrefFrame)
            } else {
                go(counted, CompatState::Mapping, CompatAction::MapFrame)
            }
        } else if at_end {
            finish(m)
        } else {
            read_more(m)
        },
        (CompatState::Mapping, CompatEvent::Mapped { ret, desc }) => if ret < 0 {
            go(m, CompatState::ReleasingFrame { at_end: false }, CompatAction::UnrefFrame)
        } else if desc matches Some(d) && !drm_frame::objects_in_range(d) {
            go(
                m,
                CompatState::Over,
                CompatAction::Fail {
                    error: CompatError::InvalidObjectIndex,
                    release: nothing(),
                },
            )
        } else {
            go(m, CompatState::UnmappingFrame, CompatAction::UnrefMapped)
        },
        (CompatState::UnmappingFrame, CompatEvent::Done) => go(
            m,
            CompatState::ReleasingFrame { at_end: false },
            CompatAction::UnrefFrame,
        ),
        (CompatState::ReleasingFrame { at_end }, CompatEvent::Done) => if m.decoded >= m.wanted {
            finish(m)
        } else {
            go(m, CompatState::Receiving { at_end }, CompatAction::Receive)
        },
        _ => None,
    }
}

/// A frame is received only while one is wanted, so the count never runs over.
pub open spec fn wf(m: CompatModel) -> bool {
    &&& 0 <= m.decoded
    &&& m.decoded <= m.wanted || m.decoded == 0
    &&& match m.state {
        CompatState::Allocating | CompatState::Over => true,
        CompatState::Mapping | CompatState::UnmappingFrame => true,
        CompatState::ReleasingFrame { .. } => true,
        _ => m.decoded < m.wanted,
    }
}

/// The trial.
pub struct CompatCheck {
    m: CompatModel,
}

impl View for CompatCheck {
    type V = CompatModel;

    closed spec fn view(&self) -> CompatModel {
        self.m
    }
}

impl CompatCheck {
    fn go(&self, state: CompatState, action: CompatAction) -> (r: (CompatModel, CompatAction))
        ensures
            Some(r) == go(self@, state, action),
    {
        (
            CompatModel {
                video: self.m.video,
                wanted: self.m.wanted,
                decoded: self.m.decoded,
                state,
            },
            action,
        )
    }

    fn finish(&self) -> (r: (CompatModel, CompatAction))
        ensures
            Some(r) == finish(self@),
    {
        self.go(
            CompatState::Over,
            CompatAction::Finish {
                decoded: self.m.decoded,
                release: CompatHoldings {
                    frame: true,
                    drm_frame: true,
                    packet: true,
                    context: true,
                    device: true,
                    input: true,
                },
            },
        )
    }

    fn read_more(&self) -> (r: (CompatModel, CompatAction))
        ensures
            Some(r) == read_more(self@),
    {
        if self.m.decoded < self.m.wanted {
            self.go(CompatState::Reading, CompatAction::Read)
        } else {
            self.finish()
        }
    }

    /// A trial that decodes `num_frames` frames of the stream `video_stream_idx`.
    pub fn start(video_stream_idx: i32, num_frames: i32) -> (r: (CompatCheck, CompatAction))
        ensures
            wf(r.0@),
            r.0@ == (CompatModel {
                video: video_stream_idx,
                wanted: num_frames,
                decoded: 0,
                state: CompatState::Allocating,
            }),
            r.1 == CompatAction::Alloc,
    {
        (
            CompatCheck {
                m: CompatModel {
                    video: video_stream_idx,
                    wanted: num_frames,
                    decoded: 0,
                    state: CompatState::Allocating,
                },
            },
            CompatAction::Alloc,
        )
    }

    /// The action that follows what came of the last one; `None` where the event does not
    /// answer it.
    pub fn vaapi_compat_check(&mut self, event: CompatEvent) -> (r: Option<CompatAction>)
        requires
            wf(old(self)@),
        ensures
            wf(final(self)@),
            match next(old(self)@, event) {
                Some((m, a)) => final(self)@ == m && r == Some(a),
                None => final(self)@ == old(self)@ && r is None,
            },
    {
        let (m, action): (CompatModel, CompatAction) = match (self.m.state, event) {
            (
                CompatState::Allocating,
                CompatEvent::Allocated { packet, frame, drm_frame },
            ) => if packet && frame && drm_frame {
                self.read_more()
            } else {
                self.go(
                    CompatState::Over,
                    CompatAction::Fail {
                        error: CompatError::Alloc,
                        release: CompatHoldings {
                            packet,
                            frame,
                            drm_frame,
                            context: true,
                            device: true,
                            input: true,
                        },
                    },
                )
            },
            (CompatState::Reading, CompatEvent::WasRead { ret, stream }) => if ret < 0 {
                if ret == AVERROR_EOF {
                    self.go(CompatState::Ending, CompatAction::SendEnd)
                } else {
                    self.finish()
                }
            } else if stream != self.m.video {
                self.go(CompatState::Skipping, CompatAction::UnrefPacket)
            } else {
                self.go(CompatState::Sending, CompatAction::Send)
            },
            (CompatState::Skipping, CompatEvent::Done) => self.read_more(),
            (CompatState::Sending, CompatEvent::Sent(ret)) => if ret < 0 && ret != AVERROR_EAGAIN {
                self.go(CompatState::Refused, CompatAction::UnrefPacket)
            } else {
                self.go(CompatState::Emptying, CompatAction::UnrefPacket)
            },
            (CompatState::Refused, CompatEvent::Done) => self.finish(),
            (CompatState::Emptying, CompatEvent::Done) => self.go(
                CompatState::Receiving { at_end: false },
                CompatAction::Receive,
            ),
            (CompatState::Ending, CompatEvent::Done) => self.go(
                CompatState::Receiving { at_end: true },
                CompatAction::Receive,
            ),
            (CompatState::Receiving { at_end }, CompatEvent::Received(ret)) => if ret >= 0 {
                self.m.decoded = self.m.decoded + 1;
                if at_end {
                    self.go(CompatState::ReleasingFrame { at_end }, CompatAction::UnrefFrame)
                } else {
                    self.go(CompatState::Mapping, CompatAction::MapFrame)
                }
            } else if at_end {
                self.finish()
            } else {
                self.read_more()
            },
            (CompatState::Mapping, CompatEvent::Mapped { ret, desc }) => {
                let known = match &desc {
                    Some(d) => drm_frame::has_known_objects(d),
                    None => true,
                };
                if ret < 0 {
                    self.go(
                        CompatState::ReleasingFrame { at_end: false },
                        CompatAction::UnrefFrame,
                    )
                } else if !known {
                    self.go(
                        CompatState::Over,
                        CompatAction::Fail {
                            error: CompatError::InvalidObjectIndex,
                            release: CompatHoldings {
                                frame: false,
                                drm_frame: false,
                                packet: false,
                                context: false,
                                device: false,
                                input: false,
                            },
                        },
                    )
                } else {
                    self.go(CompatState::UnmappingFrame, CompatAction::UnrefMapped)
                }
            },
            (CompatState::UnmappingFrame, CompatEvent::Done) => self.go(
                CompatState::ReleasingFrame { at_end: false },
                CompatAction::UnrefFrame,
            ),
            (CompatState::ReleasingFrame { at_end }, CompatEvent::Done) => if self.m.decoded
                >= self.m.wanted {
                self.finish()
            } else {
                self.go(CompatState::Receiving { at_end }, CompatAction::Receive)
            },
            _ => return None,
        };
        self.m = m;
        Some(action)
    }
}

/// What is said of a trial that came to its end.
pub fn summary(decoded: i32, wanted: i32) -> (r: String)
    ensures
        r@ == "VAAPI compat: decoded "@ + text::signed_decimal(decoded as int) + "/"@
            + text::signed_decimal(wanted as int) + " frames successfully"@,
{
    let mut r = "VAAPI compat: decoded ".to_string();
    text::push_signed(&mut r, decoded);
    r.append("/");
    text::push_signed(&mut r, wanted);
    r.append(" frames successfully");
    r
}

/// What to say of a trial that failed.
pub fn failure_text(e: CompatError) -> (r: &'static str)
    ensures
        e == CompatError::Alloc ==> r@ == "Failed to allocate frames or packet"@,
        e == CompatError::InvalidObjectIndex ==> r@ == "Invalid object_index in plane"@,
{
    match e {
        CompatError::Alloc => "Failed to allocate frames or packet",
        CompatError::InvalidObjectIndex => "Invalid object_index in plane",
    }
}

/// The trial after a run of events.
pub open spec fn run(m: CompatModel, events: Seq<CompatEvent>) -> CompatModel
    decreases events.len(),
{
    if events.len() == 0 {
        m
    } else {
        let before = run(m, events.drop_last());
        match next(before, events.last()) {
            Some((after, _)) => after,
            None => before,
        }
    }
}

/// A trial never decodes more frames than were asked for.
pub proof fn law_decodes_no_more_than_wanted(m: CompatModel, events: Seq<CompatEvent>)
    requires
        m.state == CompatState::Allocating,
        m.decoded == 0,
    ensures
        wf(run(m, events)),
        run(m, events).wanted == m.wanted,
        m.wanted >= 0 ==> run(m, events).decoded <= m.wanted,
        m.wanted <= 0 ==> run(m, events).decoded == 0,
    decreases events.len(),
{
    if events.len() > 0 {
        law_decodes_no_more_than_wanted(m, events.drop_last());
    }
}

/// A trial that ends, and one that cannot get its packet and frames, gives up all that it
/// holds.
pub proof fn law_trial_gives_up_everything(m: CompatModel, e: CompatEvent)
    ensures
        match next(m, e) {
            Some((_, CompatAction::Finish { release, .. })) => release == everything(),
            Some((_, CompatAction::Fail { error, release })) => error == CompatError::Alloc ==> (e
                matches CompatEvent::Allocated { packet, frame, drm_frame } && release == (
            CompatHoldings { packet, frame, drm_frame, ..everything() })),
            _ => true,
        },
{
}

/// A packet goes to the codec exactly where it is one of the stream that is tried; every
/// other one is emptied unused. At the end of the file the codec is told so, and a read that
/// fails otherwise ends the trial.
pub proof fn law_only_the_tried_stream_is_sent(m: CompatModel, ret: i32, stream: i32)
    requires
        m.state == CompatState::Reading,
    ensures
        next(m, CompatEvent::WasRead { ret, stream }) matches Some((after, action)) && {
            &&& ret >= 0 ==> (action == CompatAction::Send <==> stream == m.video)
            &&& ret >= 0 ==> (action == CompatAction::UnrefPacket <==> stream != m.video)
            &&& ret == AVERROR_EOF <==> action == CompatAction::SendEnd
            &&& ret < 0 && ret != AVERROR_EOF <==> action is Finish
            &&& after.decoded == m.decoded && after.wanted == m.wanted && after.video == m.video
            &&& ret >= 0 && stream == m.video ==> after.state == CompatState::Sending
            &&& ret == AVERROR_EOF ==> after.state == CompatState::Ending
        },
{
}

/// The number of frames that the trial tells is the number of those that the codec handed
/// out: each counts once, when it is received, and nothing else does.
pub proof fn law_received_frames_are_counted(m: CompatModel, e: CompatEvent)
    requires
        0 <= m.decoded < i32::MAX,
    ensures
        next(m, e) matches Some((after, action)) ==> {
            let received = m.state is Receiving && (e matches CompatEvent::Received(ret) && ret
                >= 0);
            &&& after.decoded == m.decoded + if received {
                1int
            } else {
                0
            }
            &&& after.video == m.video
            &&& after.wanted == m.wanted
            &&& action matches CompatAction::Finish { decoded, .. } ==> decoded == m.decoded
        },
{
}

/// While frames are wanted, the trial goes on: after a packet of another stream, after a
/// packet that gave all its frames, and after each frame. It is over when there are enough.
pub proof fn law_trial_goes_on_while_frames_are_wanted(m: CompatModel, e: CompatEvent)
    requires
        ({
            ||| m.state == CompatState::Skipping && e is Done
            ||| m.state == (CompatState::Receiving { at_end: false }) && (e
                matches CompatEvent::Received(ret) && ret < 0)
            ||| m.state == CompatState::Allocating && (e matches CompatEvent::Allocated {
                packet,
                frame,
                drm_frame,
            } && packet && frame && drm_frame)
        }),
    ensures
        next(m, e) matches Some((after, action)) && {
            &&& m.decoded < m.wanted <==> action == CompatAction::Read
            &&& m.decoded >= m.wanted <==> action is Finish
            &&& m.decoded < m.wanted ==> after.state == CompatState::Reading
            &&& m.decoded >= m.wanted ==> after.state == CompatState::Over
        },
{
}

/// A frame that was received while packets come is mapped, and one that was mapped is given
/// up before the frame itself; at the end of the file frames are only counted. After each the
/// codec is asked for the next one, until there are enough.
pub proof fn law_received_frames_are_mapped_and_given_up(m: CompatModel, e: CompatEvent)
    ensures
        m.state is Receiving && (e matches CompatEvent::Received(ret) && ret >= 0) ==> (next(m, e)
            matches Some((after, action)) && {
            &&& m.state == (CompatState::Receiving { at_end: false }) ==> action
                == CompatAction::MapFrame && after.state == CompatState::Mapping
            &&& m.state == (CompatState::Receiving { at_end: true }) ==> action
                == CompatAction::UnrefFrame && after.state == (CompatState::ReleasingFrame {
                at_end: true,
            })
        }),
        m.state == (CompatState::Receiving { at_end: true }) && (e matches CompatEvent::Received(ret)
            && ret < 0) ==> (next(m, e) matches Some((_, action)) && action is Finish),
        m.state == CompatState::UnmappingFrame && e is Done ==> (next(m, e) matches Some(
            (after, action),
        ) && action == CompatAction::UnrefFrame && after.state == (CompatState::ReleasingFrame {
            at_end: false,
        })),
        m.state is ReleasingFrame && e is Done ==> (next(m, e) matches Some((after, action)) && {
            &&& m.decoded < m.wanted <==> action == CompatAction::Receive
            &&& m.decoded >= m.wanted <==> action is Finish
            &&& m.decoded < m.wanted ==> after.state == (CompatState::Receiving {
                at_end: m.state->ReleasingFrame_at_end,
            })
        }),
{
}

/// A frame that cannot be mapped is given up and the trial goes on; a mapping in which a plane
/// names an object that is not there ends it with an error, and every other is undone.
pub proof fn law_mappings_are_looked_at(m: CompatModel, ret: i32, desc: Option<FrameDescriptor>)
    requires
        m.state == CompatState::Mapping,
    ensures
        next(m, CompatEvent::Mapped { ret, desc }) matches Some((after, action)) && {
            let wrong = desc matches Some(d) && exists|i: int, j: int|
                #![trigger d.layers@[i].planes@[j]]
                0 <= i < d.layers@.len() && 0 <= j < d.layers@[i].planes@.len() && !(0
                    <= d.layers@[i].planes@[j].object_index < d.objects@.len());
            &&& ret < 0 ==> action == CompatAction::UnrefFrame
            &&& ret >= 0 && wrong <==> (action matches CompatAction::Fail { error, .. } && error
                == CompatError::InvalidObjectIndex)
            &&& ret >= 0 && !wrong <==> action == CompatAction::UnrefMapped
            &&& ret >= 0 && !wrong ==> after.state == CompatState::UnmappingFrame
            &&& ret < 0 ==> after.state == (CompatState::ReleasingFrame { at_end: false })
        },
{
    if desc is Some {
        let d = desc->0;
        drm_frame::law_frame_is_mapped_or_told_why(true, 0, desc, 0, 0, 0);
        drm_frame::lemma_objects_in_range(d);
    }
}

/// A packet that the codec took, or had no room for, is emptied and frames are asked for; one
/// that it refuses is emptied and the trial is over. At the end of the file frames are asked
/// for, too.
pub proof fn law_sent_packets_are_emptied(m: CompatModel, ret: i32)
    requires
        m.state == CompatState::Sending,
    ensures
        next(m, CompatEvent::Sent(ret)) matches Some((after, action)) && {
            &&& action == CompatAction::UnrefPacket
            &&& next(after, CompatEvent::Done) matches Some((then, second)) && {
                &&& ret >= 0 || ret == AVERROR_EAGAIN <==> second == CompatAction::Receive
                &&& ret < 0 && ret != AVERROR_EAGAIN <==> second is Finish
                &&& second == CompatAction::Receive ==> then.state == (CompatState::Receiving {
                    at_end: false,
                })
            }
        },
        next(CompatModel { state: CompatState::Ending, ..m }, CompatEvent::Done) matches Some(
            (then, second),
        ) && second == CompatAction::Receive && then.state == (CompatState::Receiving {
            at_end: true,
        }),
{
}

/// What is given up at the end, part by part: all that the trial holds when it ends; what was
/// got and what came before where the packet or a frame is missing; nothing where a mapping
/// names an object that is not there. The number of frames that were decoded is told.
pub proof fn law_each_part_is_given_up(m: CompatModel, e: CompatEvent)
    ensures
        next(m, e) matches Some((after, CompatAction::Finish { decoded, release })) ==> {
            &&& decoded == after.decoded
            &&& release.frame && release.drm_frame && release.packet
            &&& release.context && release.device && release.input
        },
        next(m, e) matches Some((_, CompatAction::Fail { error, release })) ==> {
            &&& error == CompatError::Alloc ==> (e matches CompatEvent::Allocated {
                packet,
                frame,
                drm_frame,
            } && release.packet == packet && release.frame == frame && release.drm_frame
                == drm_frame && release.context && release.device && release.input)
            &&& error == CompatError::InvalidObjectIndex ==> !release.frame && !release.drm_frame
                && !release.packet && !release.context && !release.device && !release.input
        },
{
}

} // verus!
