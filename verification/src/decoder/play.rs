//! Decoding a video over and over, into the frame queue.
use vstd::prelude::*;

use crate::decoder::codes::{AVERROR_EAGAIN, AVERROR_EOF};
use crate::frame_queue::{FrameQueue, QueueModel, WriteSlot};

verus! {

/// What to do next.
#[derive(Clone, Copy, Debug, PartialEq, Eq, Structural)]
pub enum PlayAction {
    AllocPacket,
    /// Look whether the decoder is still wanted.
    CheckRunning,
    /// Read the next packet.
    Read,
    /// Empty the packet.
    Unref,
    /// Send the packet to the codec.
    Send,
    /// Tell the codec that no more packets come, so that it hands out what it holds.
    SendEnd,
    /// Take all frames that the codec has.
    Drain,
    /// Go back to the start of the stream.
    SeekStart,
    /// Make the codec forget what it was sent.
    Flush,
    /// Give the packet, the context and the file up, and end; report an error where that
    /// is marked.
    Finish { error: bool },
    /// End at once.
    Abandon,
}

/// What came of an action.
#[derive(Clone, Copy, Debug, PartialEq, Eq, Structural)]
pub enum PlayEvent {
    Allocated(bool),
    Running(bool),
    /// The codec library's code, and the stream that the packet is of.
    WasRead { ret: i32, stream: i32 },
    Sent(i32),
    /// The frames were taken; `closed` where the queue takes no more.
    Drained { closed: bool },
    Done,
}

/// What follows after the frames were taken.
#[derive(Clone, Copy, Debug, PartialEq, Eq, Structural)]
pub enum AfterDrain {
    NextPacket,
    SendAgain,
    Rewind,
}

/// Where the loop stands, that is, which action was given out.
#[derive(Clone, Copy, Debug, PartialEq, Eq, Structural)]
pub enum PlayState {
    Allocating,
    Checking,
    Reading,
    /// Emptying a packet that is not used.
    Dropping,
    Sending,
    /// Emptying a packet that the codec took.
    Emptying,
    Draining(AfterDrain),
    Ending,
    Seeking,
    Flushing,
    Over,
}

pub open spec fn to_check() -> Option<(PlayState, PlayAction)> {
    Some((PlayState::Checking, PlayAction::CheckRunning))
}

/// The next state and action, where `video` is the stream that is decoded; `None` where
/// the event does not answer the last action. At the end of the file the codec is told so
/// and drained before the file is played again.
pub open spec fn next(s: PlayState, video: i32, e: PlayEvent) -> Option<(PlayState, PlayAction)> {
    match (s, e) {
        (PlayState::Allocating, PlayEvent::Allocated(ok)) => if ok {
            to_check()
        } else {
            Some((PlayState::Over, PlayAction::Abandon))
        },
        (PlayState::Checking, PlayEvent::Running(running)) => Some(
            if running {
                (PlayState::Reading, PlayAction::Read)
            } else {
                (PlayState::Over, PlayAction::Finish { error: false })
            },
        ),
        (PlayState::Reading, PlayEvent::WasRead { ret, stream }) => Some(
            if ret == AVERROR_EOF {
                (PlayState::Ending, PlayAction::SendEnd)
            } else if ret < 0 {
                (PlayState::Over, PlayAction::Finish { error: true })
            } else if stream != video {
                (PlayState::Dropping, PlayAction::Unref)
            } else {
                (PlayState::Sending, PlayAction::Send)
            },
        ),
        (PlayState::Dropping, PlayEvent::Done) => to_check(),
        (PlayState::Sending, PlayEvent::Sent(ret)) => Some(
            if ret == 0 {
                (PlayState::Emptying, PlayAction::Unref)
            } else if ret == AVERROR_EAGAIN {
                (PlayState::Draining(AfterDrain::SendAgain), PlayAction::Drain)
            } else {
                (PlayState::Dropping, PlayAction::Unref)
            },
        ),
        (PlayState::Emptying, PlayEvent::Done) => Some(
            (PlayState::Draining(AfterDrain::NextPacket), PlayAction::Drain),
        ),
        (PlayState::Draining(then), PlayEvent::Drained { closed }) => if closed {
            Some((PlayState::Over, PlayAction::Finish { error: false }))
        } else {
            match then {
                AfterDrain::NextPacket => to_check(),
                AfterDrain::SendAgain => Some((PlayState::Sending, PlayAction::Send)),
                AfterDrain::Rewind => Some((PlayState::Seeking, PlayAction::SeekStart)),
            }
        },
        (PlayState::Ending, PlayEvent::Done) => Some(
            (PlayState::Draining(AfterDrain::Rewind), PlayAction::Drain),
        ),
        (PlayState::Seeking, PlayEvent::Done) => Some((PlayState::Flushing, PlayAction::Flush)),
        (PlayState::Flushing, PlayEvent::Done) => to_check(),
        _ => None,
    }
}

/// The decoding loop.
pub struct DecodeLoop {
    video: i32,
    state: PlayState,
}

impl DecodeLoop {
    pub closed spec fn video(self) -> i32 {
        self.video
    }

    pub closed spec fn state(self) -> PlayState {
        self.state
    }

    /// A loop over the stream `video`.
    pub fn start(video: i32) -> (r: (DecodeLoop, PlayAction))
        ensures
            r.0.video() == video,
            r.0.state() == PlayState::Allocating,
            r.1 == PlayAction::AllocPacket,
    {
        (DecodeLoop { video, state: PlayState::Allocating }, PlayAction::AllocPacket)
    }

    /// The action that follows what came of the last one; `None` where the event does not
    /// answer it.
    pub fn decode_loop(&mut self, event: PlayEvent) -> (r: Option<PlayAction>)
        ensures
            final(self).video() == old(self).video(),
            match next(old(self).state(), old(self).video(), event) {
                Some((s, a)) => final(self).state() == s && r == Some(a),
                None => final(self).state() == old(self).state() && r is None,
            },
    {
        let (state, action): (PlayState, PlayAction) = match (self.state, event) {
            (PlayState::Allocating, PlayEvent::Allocated(ok)) => if ok {
                (PlayState::Checking, PlayAction::CheckRunning)
            } else {
                (PlayState::Over, PlayAction::Abandon)
            },
            (PlayState::Checking, PlayEvent::Running(running)) => if running {
                (PlayState::Reading, PlayAction::Read)
            } else {
                (PlayState::Over, PlayAction::Finish { error: false })
            },
            (PlayState::Reading, PlayEvent::WasRead { ret, stream }) => if ret < 0 {
                if ret == AVERROR_EOF {
                    (PlayState::Ending, PlayAction::SendEnd)
                } else {
                    (PlayState::Over, PlayAction::Finish { error: true })
                }
            } else if stream != self.video {
                (PlayState::Dropping, PlayAction::Unref)
            } else {
                (PlayState::Sending, PlayAction::Send)
            },
            (PlayState::Dropping, PlayEvent::Done) => (
                PlayState::Checking,
                PlayAction::CheckRunning,
            ),
            (PlayState::Sending, PlayEvent::Sent(ret)) => if ret == 0 {
                (PlayState::Emptying, PlayAction::Unref)
            } else if ret == AVERROR_EAGAIN {
                (PlayState::Draining(AfterDrain::SendAgain), PlayAction::Drain)
            } else {
                (PlayState::Dropping, PlayAction::Unref)
            },
            (PlayState::Emptying, PlayEvent::Done) => (
                PlayState::Draining(AfterDrain::NextPacket),
                PlayAction::Drain,
            ),
            (PlayState::Draining(then), PlayEvent::Drained { closed }) => if closed {
                (PlayState::Over, PlayAction::Finish { error: false })
            } else {
                match then {
                    AfterDrain::NextPacket => (PlayState::Checking, PlayAction::CheckRunning),
                    AfterDrain::SendAgain => (PlayState::Sending, PlayAction::Send),
                    AfterDrain::Rewind => (PlayState::Seeking, PlayAction::SeekStart),
                }
            },
            (PlayState::Ending, PlayEvent::Done) => (
                PlayState::Draining(AfterDrain::Rewind),
                PlayAction::Drain,
            ),
            (PlayState::Seeking, PlayEvent::Done) => (PlayState::Flushing, PlayAction::Flush),
            (PlayState::Flushing, PlayEvent::Done) => (
                PlayState::Checking,
                PlayAction::CheckRunning,
            ),
            _ => return None,
        };
        self.state = state;
        Some(action)
    }
}

/// Where the loop stands after a run of events, and whether the packet holds data: it does
/// after a successful read, until it is emptied.
pub open spec fn run(video: i32, events: Seq<PlayEvent>) -> (PlayState, bool)
    decreases events.len(),
{
    if events.len() == 0 {
        (PlayState::Allocating, false)
    } else {
        let (before, full) = run(video, events.drop_last());
        let e = events.last();
        match next(before, video, e) {
            None => (before, full),
            Some((after, _)) => (
                after,
                match (before, e) {
                    (PlayState::Reading, PlayEvent::WasRead { ret, .. }) => ret >= 0,
                    (PlayState::Dropping, _) => false,
                    (PlayState::Emptying, _) => false,
                    _ => full,
                },
            ),
        }
    }
}

/// The packet is empty whenever a new one is read, full whenever it is sent, and never
/// emptied twice.
pub proof fn law_packets_are_balanced(video: i32, events: Seq<PlayEvent>)
    ensures
        ({
            let (s, full) = run(video, events);
            match s {
                PlayState::Sending => full,
                PlayState::Dropping => full,
                PlayState::Emptying => full,
                PlayState::Draining(then) => full == (then == AfterDrain::SendAgain),
                PlayState::Over => true,
                _ => !full,
            }
        }),
    decreases events.len(),
{
    if events.len() > 0 {
        law_packets_are_balanced(video, events.drop_last());
    }
}

/// At the end of the file the frames that the codec still holds are taken, and only then
/// the file starts over.
pub proof fn law_end_of_file_drains_before_rewinding(video: i32, stream: i32)
    ensures
        next(PlayState::Reading, video, PlayEvent::WasRead { ret: AVERROR_EOF, stream }) == Some(
            (PlayState::Ending, PlayAction::SendEnd),
        ),
        next(PlayState::Ending, video, PlayEvent::Done) == Some(
            (PlayState::Draining(AfterDrain::Rewind), PlayAction::Drain),
        ),
        next(
            PlayState::Draining(AfterDrain::Rewind),
            video,
            PlayEvent::Drained { closed: false },
        ) == Some((PlayState::Seeking, PlayAction::SeekStart)),
        next(PlayState::Seeking, video, PlayEvent::Done) == Some(
            (PlayState::Flushing, PlayAction::Flush),
        ),
        next(PlayState::Flushing, video, PlayEvent::Done) == to_check(),
{
}

/// The loop ends with an error exactly where a packet could not be read for another reason
/// than the end of the file.
pub proof fn law_error_means_read_failed(s: PlayState, video: i32, e: PlayEvent)
    ensures
        (next(s, video, e) matches Some((_, a)) && a == PlayAction::Finish { error: true }) <==> (s
            == PlayState::Reading && (e matches PlayEvent::WasRead { ret, .. } && ret < 0 && ret
            != AVERROR_EOF)),
{
}

/// What to do next while frames are taken.
#[derive(Clone, Copy, Debug, PartialEq, Eq, Structural)]
pub enum DrainAction {
    /// Receive a frame into this slot.
    Receive(u32),
    /// Wait for a slot to be free, then ask again.
    Wait,
    /// There is nothing more to take; `closed` where the queue takes no more.
    Stop { closed: bool },
}

/// Where the next frame goes.
pub open spec fn receive_into(q: QueueModel) -> DrainAction {
    match q.write_slot() {
        WriteSlot::Slot(i) => DrainAction::Receive(i),
        WriteSlot::Full => DrainAction::Wait,
        WriteSlot::Closed => DrainAction::Stop { closed: true },
    }
}

/// The queue after the codec's answer to a request for a frame, if there was one.
pub open spec fn after_receive(q: QueueModel, received: Option<i32>) -> QueueModel {
    match received {
        Some(ret) => if ret >= 0 {
            q.after_write()
        } else {
            q
        },
        None => q,
    }
}

/// Takes the codec's code for the last frame, commits the frame where there is one, and
/// says what comes next. A committed frame is to be announced to the consumer.
pub fn drain_decoder(queue: &mut FrameQueue, received: Option<i32>) -> (r: DrainAction)
    requires
        received matches Some(ret) && ret >= 0 ==> old(queue)@.written < u32::MAX,
    ensures
        final(queue)@ == after_receive(old(queue)@, received),
        r == if received matches Some(ret) && ret < 0 {
            DrainAction::Stop { closed: false }
        } else {
            receive_into(final(queue)@)
        },
{
    if let Some(ret) = received {
        if ret < 0 {
            return DrainAction::Stop { closed: false };
        }
        queue.commit_write();
    }
    match queue.get_write_slot() {
        WriteSlot::Slot(i) => DrainAction::Receive(i),
        WriteSlot::Full => DrainAction::Wait,
        WriteSlot::Closed => DrainAction::Stop { closed: true },
    }
}

/// The number of frames among the codec's answers.
pub open spec fn frames_in(answers: Seq<Option<i32>>) -> nat
    decreases answers.len(),
{
    if answers.len() == 0 {
        0
    } else if answers.last() matches Some(ret) && ret >= 0 {
        frames_in(answers.drop_last()) + 1
    } else {
        frames_in(answers.drop_last())
    }
}

pub open spec fn drained(q: QueueModel, answers: Seq<Option<i32>>) -> QueueModel
    decreases answers.len(),
{
    if answers.len() == 0 {
        q
    } else {
        after_receive(drained(q, answers.drop_last()), answers.last())
    }
}

/// Every frame that the codec hands out gets into the queue, and nothing else does.
pub proof fn law_drain_keeps_every_frame(q: QueueModel, answers: Seq<Option<i32>>)
    ensures
        drained(q, answers).written == q.written + frames_in(answers),
        drained(q, answers).read == q.read,
        drained(q, answers).closed == q.closed,
    decreases answers.len(),
{
    if answers.len() > 0 {
        law_drain_keeps_every_frame(q, answers.drop_last());
    }
}

/// A frame is received only into a slot that no waiting frame is in, and the queue stays
/// orderly when the frame is committed.
pub proof fn law_receive_only_into_free_slot(q: QueueModel)
    requires
        q.orderly(),
        receive_into(q) is Receive,
    ensures
        q.after_write().orderly(),
        forall|k: nat|
            q.read <= k < q.written ==> receive_into(q) != DrainAction::Receive(
                #[trigger] crate::frame_queue::slot_of(k) as u32,
            ),
{
}

/// The stream of the packet that was read last, if any.
pub open spec fn last_stream(video: i32, events: Seq<PlayEvent>) -> Option<i32>
    decreases events.len(),
{
    if events.len() == 0 {
        None
    } else {
        match (run(video, events.drop_last()).0, events.last()) {
            (PlayState::Reading, PlayEvent::WasRead { ret, stream }) => if ret >= 0 {
                Some(stream)
            } else {
                None
            },
            _ => last_stream(video, events.drop_last()),
        }
    }
}

/// A packet that was read goes to the codec exactly where it is one of the stream that is
/// decoded; every other packet is emptied unused, and the next one is read.
pub proof fn law_only_the_video_stream_is_sent(video: i32, ret: i32, stream: i32)
    requires
        ret >= 0,
    ensures
        next(PlayState::Reading, video, PlayEvent::WasRead { ret, stream }) matches Some(
            (after, action),
        ) && {
            &&& action == PlayAction::Send <==> stream == video
            &&& action == PlayAction::Unref <==> stream != video
            &&& stream != video ==> next(after, video, PlayEvent::Done) == Some(
                (PlayState::Checking, PlayAction::CheckRunning),
            )
        },
{
}

/// Whenever a packet is at the codec, it is the one that was read last, of the stream that is
/// decoded.
pub proof fn law_packet_at_codec_is_of_video(video: i32, events: Seq<PlayEvent>)
    ensures
        match run(video, events).0 {
            PlayState::Sending | PlayState::Emptying | PlayState::Draining(
                AfterDrain::SendAgain,
            ) => last_stream(video, events) == Some(video),
            _ => true,
        },
    decreases events.len(),
{
    if events.len() > 0 {
        law_packet_at_codec_is_of_video(video, events.drop_last());
    }
}

/// No packet of the video is lost to a codec that is busy: its frames are taken and the same
/// packet is sent again. One that the codec took is emptied, and its frames are taken before
/// the next packet is read; one that it refuses for another reason is emptied and passed over.
pub proof fn law_codec_answers(video: i32, ret: i32)
    ensures
        next(PlayState::Sending, video, PlayEvent::Sent(ret)) matches Some((after, action)) && {
            &&& ret == AVERROR_EAGAIN ==> {
                &&& action == PlayAction::Drain
                &&& next(after, video, PlayEvent::Drained { closed: false }) == Some(
                    (PlayState::Sending, PlayAction::Send),
                )
            }
            &&& ret == 0 ==> {
                &&& action == PlayAction::Unref
                &&& next(after, video, PlayEvent::Done) matches Some((then, drain)) && {
                    &&& drain == PlayAction::Drain
                    &&& next(then, video, PlayEvent::Drained { closed: false }) == Some(
                        (PlayState::Checking, PlayAction::CheckRunning),
                    )
                }
            }
            &&& ret != 0 && ret != AVERROR_EAGAIN ==> {
                &&& action == PlayAction::Unref
                &&& next(after, video, PlayEvent::Done) == Some(
                    (PlayState::Checking, PlayAction::CheckRunning),
                )
            }
        },
{
}

/// The loop ends only where the packet cannot be made, where it is no longer wanted, where a
/// packet cannot be read, or where the queue takes no more; the end of the file, a packet of
/// another stream and a codec that refuses a packet never end it. While it is wanted, it reads
/// on.
pub proof fn law_loop_ends_for_cause(s: PlayState, video: i32, e: PlayEvent)
    ensures
        (next(s, video, e) matches Some((_, PlayAction::Abandon))) <==> s == PlayState::Allocating
            && e == PlayEvent::Allocated(false),
        (next(s, video, e) matches Some((_, PlayAction::Finish { error: false }))) <==> (s
            == PlayState::Checking && e == PlayEvent::Running(false)) || (s is Draining && e
            == PlayEvent::Drained { closed: true }),
        next(PlayState::Checking, video, PlayEvent::Running(true)) == Some(
            (PlayState::Reading, PlayAction::Read),
        ),
        next(PlayState::Allocating, video, PlayEvent::Allocated(true)) == Some(
            (PlayState::Checking, PlayAction::CheckRunning),
        ),
        next(s, video, e) matches Some((after, a)) ==> (after == PlayState::Over <==> (a
            == PlayAction::Abandon || a is Finish)),
        next(PlayState::Over, video, e) is None,
{
}

/// While frames are taken, the codec is asked again after each frame that it hands out, until
/// it has none or the queue takes no more. It waits exactly while three frames wait unread.
pub proof fn law_drain_asks_until_there_is_none(q: QueueModel)
    requires
        q.orderly(),
    ensures
        receive_into(q) is Stop <==> q.closed,
        receive_into(q) == DrainAction::Wait <==> !q.closed && q.written - q.read == 3,
        receive_into(q) is Receive <==> !q.closed && q.written - q.read < 3,
        receive_into(q) matches DrainAction::Receive(slot) ==> slot < 3 && (q.written - slot) % 3
            == 0,
{
}

} // verus!
