//! Showing a frame that was decoded on the GPU: it is converted, mapped and handed to the
//! compositor as a buffer.
use vstd::prelude::*;

use crate::app::buffers;
use crate::app::buffers::{BufferModel, BufferPlan, FillStage};
use crate::app::state::{App, AppModel};
use crate::drm_frame;
use crate::drm_frame::{DrmFrame, FrameModel, PlaneRequest};
use crate::frame_queue;
use crate::frame_queue::{FrameQueue, QueueModel};
use crate::runtime::event_loop;

verus! {

/// How a frame ended.
#[derive(Clone, Copy, Debug, PartialEq, Eq, Structural)]
pub enum FrameEnd {
    Shown,
    /// Every buffer is in use.
    NoBuffer,
    /// The buffer could not be filled.
    NotFilled(BufferPlan, FillStage),
    /// The decoder has no frames on the GPU.
    NoHwFrames,
    /// There is no converter for the frames.
    NoConverter,
}

/// What to do next.
#[derive(Clone, Copy, Debug, PartialEq, Eq, Structural)]
pub enum PresentAction {
    /// Ask the decoder for its frames on the GPU.
    GetHwFrames,
    /// Set the converter up for frames of this size.
    CreateConverter { width: i32, height: i32 },
    /// Convert the frame for the buffer and map the result.
    Fill(BufferPlan),
    /// Destroy the buffer that is replaced, then make one of the mapped frame's planes.
    CreateBuffer { retired: Option<u32>, width: i32, height: i32, format: u32 },
    /// Attach the buffer to the first monitor's surface, mark all of it as changed and
    /// commit it.
    Show { wl_buffer: u32, width: i32, height: i32 },
    /// The frame was given back; release what its slot holds before the queue is asked for a
    /// slot again, and stop the main loop where that is marked.
    Finish { slot: u32, end: FrameEnd, stop: bool },
}

/// What came of an action.
pub enum PresentEvent {
    /// A frame of this size waits to be shown.
    Begin { width: i32, height: i32 },
    /// Whether the decoder has frames on the GPU.
    HwFrames(bool),
    /// Whether the converter is set up.
    Converter(bool),
    Filled(Result<DrmFrame, FillStage>),
    /// The compositor's object for the new buffer.
    BufferCreated(u32),
    Done,
}

/// Where showing the frame stands, that is, which action was given out.
pub enum PresentState {
    Fresh,
    GettingHwFrames { width: i32, height: i32 },
    CreatingConverter,
    Filling(BufferPlan),
    CreatingBuffer(BufferPlan, DrmFrame),
    Showing,
    Over,
}

/// The contents of a [`PresentState`].
pub enum PresentModel {
    Fresh,
    GettingHwFrames { width: i32, height: i32 },
    CreatingConverter,
    Filling(BufferPlan),
    CreatingBuffer(BufferPlan, FrameModel),
    Showing,
    Over,
}

/// The next state, the player, the queue, and what to do.
pub type PresentStep = Option<(PresentModel, AppModel, QueueModel, PresentAction)>;

/// The frame is given back without being shown.
pub open spec fn give_back(a: AppModel, q: QueueModel, end: FrameEnd, stop: bool) -> PresentStep {
    Some(
        (
            PresentModel::Over,
            a,
            q.after_read(),
            PresentAction::Finish { slot: frame_queue::slot_of(q.read) as u32, end, stop },
        ),
    )
}

/// A buffer is chosen for the frame, if there is one.
pub open spec fn choose_buffer(a: AppModel, q: QueueModel) -> PresentStep {
    match buffers::plan_of(a.buffers) {
        Some(plan) => Some((PresentModel::Filling(plan), a, q, PresentAction::Fill(plan))),
        None => give_back(a, q, FrameEnd::NoBuffer, false),
    }
}

/// The compositor's object for the buffer in the plan's place, if there is one.
pub open spec fn replaced(a: AppModel, plan: BufferPlan) -> Option<u32> {
    match a.buffers[buffers::place_of(plan)] {
        Some(b) => b.wl_buffer,
        None => None,
    }
}

/// The player after that object was given up.
pub open spec fn without_replaced(a: AppModel, plan: BufferPlan) -> AppModel {
    match a.buffers[buffers::place_of(plan)] {
        Some(b) => AppModel {
            buffers: a.buffers.update(
                buffers::place_of(plan),
                Some(BufferModel { wl_buffer: None, ..b }),
            ),
            ..a
        },
        None => a,
    }
}

/// The player with the frame in a buffer that is in use.
pub open spec fn with_buffer(a: AppModel, plan: BufferPlan, frame: FrameModel, id: u32) -> AppModel {
    AppModel {
        buffers: a.buffers.update(
            buffers::place_of(plan),
            Some(BufferModel { wl_buffer: Some(id), frame, in_use: true }),
        ),
        ..a
    }
}

/// What follows an event; `None` where it does not answer the last action.
pub open spec fn next(s: PresentModel, a: AppModel, q: QueueModel, e: PresentEvent) -> PresentStep {
    match (s, e) {
        (PresentModel::Fresh, PresentEvent::Begin { width, height }) => if a.converter {
            choose_buffer(a, q)
        } else {
            Some(
                (
                    PresentModel::GettingHwFrames { width, height },
                    a,
                    q,
                    PresentAction::GetHwFrames,
                ),
            )
        },
        (PresentModel::GettingHwFrames { width, height }, PresentEvent::HwFrames(ok)) => if ok {
            Some(
                (
                    PresentModel::CreatingConverter,
                    a,
                    q,
                    PresentAction::CreateConverter { width, height },
                ),
            )
        } else {
            give_back(a, q, FrameEnd::NoHwFrames, a.main_loop_signal)
        },
        (PresentModel::CreatingConverter, PresentEvent::Converter(ok)) => if ok {
            choose_buffer(AppModel { converter: true, ..a }, q)
        } else {
            give_back(a, q, FrameEnd::NoConverter, a.main_loop_signal)
        },
        (PresentModel::Filling(plan), PresentEvent::Filled(outcome)) => match outcome {
            Ok(frame) => Some(
                (
                    PresentModel::CreatingBuffer(plan, frame@),
                    without_replaced(a, plan),
                    q,
                    PresentAction::CreateBuffer {
                        retired: replaced(a, plan),
                        width: frame@.width,
                        height: frame@.height,
                        format: frame@.format,
                    },
                ),
            ),
            Err(stage) => give_back(a, q, FrameEnd::NotFilled(plan, stage), false),
        },
        (PresentModel::CreatingBuffer(plan, frame), PresentEvent::BufferCreated(id)) => Some(
            (
                PresentModel::Showing,
                with_buffer(a, plan, frame, id),
                q,
                PresentAction::Show {
                    wl_buffer: id,
                    width: frame.width,
                    height: frame.height,
                },
            ),
        ),
        (PresentModel::Showing, PresentEvent::Done) => Some(
            (
                PresentModel::Over,
                event_loop::counted(a),
                q.after_read(),
                PresentAction::Finish {
                    slot: frame_queue::slot_of(q.read) as u32,
                    end: FrameEnd::Shown,
                    stop: false,
                },
            ),
        ),
        _ => None,
    }
}

/// The place that is filled is one of the player's.
pub open spec fn in_bounds(s: PresentModel, a: AppModel) -> bool {
    &&& a.buffers.len() <= usize::MAX
    &&& match s {
        PresentModel::Filling(plan) => 0 <= buffers::place_of(plan) < a.buffers.len(),
        PresentModel::CreatingBuffer(plan, _) => 0 <= buffers::place_of(plan) < a.buffers.len(),
        _ => true,
    }
}

/// A frame on its way to the screen.
pub struct Presenter {
    state: PresentState,
}

impl View for Presenter {
    type V = PresentModel;

    closed spec fn view(&self) -> PresentModel {
        match self.state {
            PresentState::Fresh => PresentModel::Fresh,
            PresentState::GettingHwFrames { width, height } => PresentModel::GettingHwFrames {
                width,
                height,
            },
            PresentState::CreatingConverter => PresentModel::CreatingConverter,
            PresentState::Filling(plan) => PresentModel::Filling(plan),
            PresentState::CreatingBuffer(plan, frame) => PresentModel::CreatingBuffer(
                plan,
                frame@,
            ),
            PresentState::Showing => PresentModel::Showing,
            PresentState::Over => PresentModel::Over,
        }
    }
}

impl Presenter {
    pub fn new() -> (r: Presenter)
        ensures
            r@ == PresentModel::Fresh,
    {
        Presenter { state: PresentState::Fresh }
    }

    /// Whether the planes to make the buffer of can be numbered, while one is made;
    /// [`plane_requests`](Self::plane_requests) asks for this.
    pub fn can_request_planes(&self) -> (r: bool)
        ensures
            r == (self@ matches PresentModel::CreatingBuffer(_, frame) ==> drm_frame::all_planes(
                frame.layers,
            ).len() <= u32::MAX),
    {
        match &self.state {
            PresentState::CreatingBuffer(_, frame) => drm_frame::can_number_planes(frame),
            _ => true,
        }
    }

    /// The planes to make the buffer of, while one is made.
    pub fn plane_requests(&self) -> (r: Option<Vec<PlaneRequest>>)
        requires
            self@ matches PresentModel::CreatingBuffer(_, frame) ==> drm_frame::all_planes(
                frame.layers,
            ).len() <= u32::MAX,
        ensures
            match self@ {
                PresentModel::CreatingBuffer(_, frame) => r matches Some(v) && v@
                    == drm_frame::requests_for(frame),
                _ => r is None,
            },
    {
        match &self.state {
            PresentState::CreatingBuffer(_, frame) => Some(drm_frame::plane_requests(frame)),
            _ => None,
        }
    }

    fn give_back(
        &mut self,
        app: &mut App,
        queue: &mut FrameQueue,
        end: FrameEnd,
        stop: bool,
    ) -> (r: PresentAction)
        requires
            old(queue)@.read < u32::MAX,
        ensures
            Some((final(self)@, final(app)@, final(queue)@, r)) == give_back(
                old(app)@,
                old(queue)@,
                end,
                stop,
            ),
    {
        let slot: u32 = event_loop::finish_frame(app, queue, false);
        self.state = PresentState::Over;
        PresentAction::Finish { slot, end, stop }
    }

    fn choose_buffer(&mut self, app: &mut App, queue: &mut FrameQueue) -> (r: PresentAction)
        requires
            old(app)@.converter,
            old(app)@.buffers.len() <= usize::MAX,
            old(queue)@.read < u32::MAX,
        ensures
            Some((final(self)@, final(app)@, final(queue)@, r)) == choose_buffer(
                old(app)@,
                old(queue)@,
            ),
            in_bounds(final(self)@, final(app)@),
    {
        proof {
            buffers::law_plan_spares_used(app@.buffers);
        }
        match app.acquire_or_create_buffer() {
            Ok(Some(plan)) => {
                self.state = PresentState::Filling(plan);
                PresentAction::Fill(plan)
            },
            _ => self.give_back(app, queue, FrameEnd::NoBuffer, false),
        }
    }

    /// Takes note of what came of the last action and says what comes next; `None` where
    /// the event does not answer it. The frame is the oldest in the queue, and is given
    /// back at the end.
    pub fn on_drm_frame(
        &mut self,
        app: &mut App,
        queue: &mut FrameQueue,
        event: PresentEvent,
    ) -> (r: Option<PresentAction>)
        requires
            in_bounds(old(self)@, old(app)@),
            old(queue)@.read < u32::MAX,
            event_loop::can_count(old(app)@),
        ensures
            in_bounds(final(self)@, final(app)@),
            match next(old(self)@, old(app)@, old(queue)@, event) {
                Some((s, a, q, action)) => {
                    &&& final(self)@ == s
                    &&& final(app)@ == a
                    &&& final(queue)@ == q
                    &&& r == Some(action)
                },
                None => {
                    &&& final(self)@ == old(self)@
                    &&& final(app)@ == old(app)@
                    &&& final(queue)@ == old(queue)@
                    &&& r is None
                },
            },
    {
        let stop: bool = app.main_loop_signal;
        let mut state: PresentState = PresentState::Over;
        std::mem::swap(&mut state, &mut self.state);
        match (state, event) {
            (PresentState::Fresh, PresentEvent::Begin { width, height }) => {
                if app.converter {
                    Some(self.choose_buffer(app, queue))
                } else {
                    self.state = PresentState::GettingHwFrames { width, height };
                    Some(PresentAction::GetHwFrames)
                }
            },
            (PresentState::GettingHwFrames { width, height }, PresentEvent::HwFrames(ok)) => {
                if ok {
                    self.state = PresentState::CreatingConverter;
                    Some(PresentAction::CreateConverter { width, height })
                } else {
                    Some(self.give_back(app, queue, FrameEnd::NoHwFrames, stop))
                }
            },
            (PresentState::CreatingConverter, PresentEvent::Converter(ok)) => {
                if ok {
                    app.converter = true;
                    Some(self.choose_buffer(app, queue))
                } else {
                    Some(self.give_back(app, queue, FrameEnd::NoConverter, stop))
                }
            },
            (PresentState::Filling(plan), PresentEvent::Filled(outcome)) => {
                match outcome {
                    Ok(frame) => {
                        let retired: Option<u32> = app.retire_buffer(plan);
                        let action = PresentAction::CreateBuffer {
                            retired,
                            width: frame.width,
                            height: frame.height,
                            format: frame.format,
                        };
                        self.state = PresentState::CreatingBuffer(plan, frame);
                        Some(action)
                    },
                    Err(stage) => Some(
                        self.give_back(app, queue, FrameEnd::NotFilled(plan, stage), false),
                    ),
                }
            },
            (PresentState::CreatingBuffer(plan, frame), PresentEvent::BufferCreated(id)) => {
                let action = PresentAction::Show {
                    wl_buffer: id,
                    width: frame.width,
                    height: frame.height,
                };
                app.install_buffer(plan, frame, id);
                self.state = PresentState::Showing;
                Some(action)
            },
            (PresentState::Showing, PresentEvent::Done) => {
                let slot: u32 = event_loop::finish_frame(app, queue, true);
                Some(PresentAction::Finish { slot, end: FrameEnd::Shown, stop: false })
            },
            (before, _) => {
                self.state = before;
                None
            },
        }
    }
}

/// Where showing a frame stands after a run of events.
pub open spec fn run(a: AppModel, q: QueueModel, events: Seq<PresentEvent>) -> (
    PresentModel,
    AppModel,
    QueueModel,
)
    decreases events.len(),
{
    if events.len() == 0 {
        (PresentModel::Fresh, a, q)
    } else {
        let (s, b, r) = run(a, q, events.drop_last());
        match next(s, b, r, events.last()) {
            Some((s1, b1, r1, _)) => (s1, b1, r1),
            None => (s, b, r),
        }
    }
}

/// However showing a frame goes, the frame is given back exactly once, at the end; until
/// then it stays in the queue.
pub proof fn law_frame_is_given_back_once(a: AppModel, q: QueueModel, events: Seq<PresentEvent>)
    ensures
        ({
            let (s, b, r) = run(a, q, events);
            &&& s is Over ==> r == q.after_read()
            &&& !(s is Over) ==> r == q
        }),
    decreases events.len(),
{
    if events.len() > 0 {
        law_frame_is_given_back_once(a, q, events.drop_last());
    }
}

/// A frame counts as shown exactly when it was handed to the compositor.
pub proof fn law_only_shown_frames_count(
    a: AppModel,
    q: QueueModel,
    events: Seq<PresentEvent>,
    e: PresentEvent,
)
    requires
        event_loop::can_count(a),
    ensures
        ({
            let (s, b, r) = run(a, q, events);
            match next(s, b, r, e) {
                Some((_, after, _, PresentAction::Finish { end, .. })) => after.committed_frames
                    == a.committed_frames + if end == FrameEnd::Shown {
                    1int
                } else {
                    0
                },
                Some((_, after, _, _)) => after.committed_frames == a.committed_frames,
                None => true,
            }
        }),
{
    lemma_uncounted_until_over(a, q, events);
}

proof fn lemma_uncounted_until_over(a: AppModel, q: QueueModel, events: Seq<PresentEvent>)
    ensures
        ({
            let (s, b, r) = run(a, q, events);
            !(s is Over) ==> b.committed_frames == a.committed_frames
        }),
    decreases events.len(),
{
    if events.len() > 0 {
        lemma_uncounted_until_over(a, q, events.drop_last());
    }
}

/// A buffer that the compositor uses is left alone while another frame is shown.
pub proof fn law_used_buffers_are_left_alone(
    a: AppModel,
    q: QueueModel,
    events: Seq<PresentEvent>,
    i: int,
)
    requires
        a.buffers.len() <= usize::MAX,
        0 <= i < a.buffers.len(),
        a.buffers[i] matches Some(b) && b.in_use,
    ensures
        run(a, q, events).1.buffers.len() == a.buffers.len(),
        run(a, q, events).1.buffers[i] == a.buffers[i],
{
    lemma_place_is_not_used(a, q, events, i);
}

proof fn lemma_place_is_not_used(a: AppModel, q: QueueModel, events: Seq<PresentEvent>, i: int)
    requires
        a.buffers.len() <= usize::MAX,
        0 <= i < a.buffers.len(),
        a.buffers[i] matches Some(b) && b.in_use,
    ensures
        ({
            let (s, b, r) = run(a, q, events);
            &&& b.buffers.len() == a.buffers.len()
            &&& b.buffers[i] == a.buffers[i]
            &&& match s {
                PresentModel::Filling(plan) => 0 <= buffers::place_of(plan) < a.buffers.len()
                    && buffers::place_of(plan) != i,
                PresentModel::CreatingBuffer(plan, _) => 0 <= buffers::place_of(plan)
                    < a.buffers.len() && buffers::place_of(plan) != i,
                _ => true,
            }
        }),
    decreases events.len(),
{
    if events.len() > 0 {
        lemma_place_is_not_used(a, q, events.drop_last(), i);
        let (s, b, r) = run(a, q, events.drop_last());
        buffers::law_plan_spares_used(b.buffers);
    }
}

/// A converter is made where there is none yet, of the size of the frame that is met and once
/// the decoder has frames on the GPU; with it the frame is shown as if it had always been
/// there.
pub proof fn law_converter_is_made_once(a: AppModel, q: QueueModel, width: i32, height: i32)
    ensures
        a.converter ==> !(next(PresentModel::Fresh, a, q, PresentEvent::Begin { width, height })
            matches Some((_, _, _, PresentAction::GetHwFrames))),
        !a.converter ==> (next(PresentModel::Fresh, a, q, PresentEvent::Begin { width, height })
            matches Some((s, b, p, action)) && {
            &&& action == PresentAction::GetHwFrames
            &&& b == a && p == q
            &&& next(s, b, p, PresentEvent::HwFrames(true)) matches Some((u, c, r, then))
            &&& then == (PresentAction::CreateConverter { width, height })
            &&& c == a && r == q
            &&& next(u, c, r, PresentEvent::Converter(true)) == next(
                PresentModel::Fresh,
                AppModel { converter: true, ..a },
                q,
                PresentEvent::Begin { width, height },
            )
        }),
{
}

/// A frame is filled into the buffer that is chosen from those of the player, and is given
/// back where there is none.
pub proof fn law_frame_goes_to_the_chosen_buffer(
    a: AppModel,
    q: QueueModel,
    width: i32,
    height: i32,
)
    requires
        a.converter,
        a.buffers.len() <= usize::MAX,
    ensures
        next(PresentModel::Fresh, a, q, PresentEvent::Begin { width, height }) matches Some(
            (s, b, p, action),
        ) && {
            &&& b == a
            &&& action matches PresentAction::Fill(plan) ==> {
                &&& p == q
                &&& s == PresentModel::Filling(plan)
                &&& plan matches BufferPlan::Reuse(i) ==> i < a.buffers.len()
                    && (a.buffers[i as int] matches Some(c) && !c.in_use)
                &&& plan matches BufferPlan::Create(i) ==> i < a.buffers.len()
                    && a.buffers[i as int] is None
            }
            &&& !(action is Fill) ==> {
                &&& forall|j: int|
                    0 <= j < a.buffers.len() ==> (#[trigger] a.buffers[j] matches Some(c)
                        && c.in_use)
                &&& p.read == q.read + 1
                &&& action == (PresentAction::Finish {
                    slot: (q.read % 3) as u32,
                    end: FrameEnd::NoBuffer,
                    stop: false,
                })
            }
        },
{
    buffers::law_plan_spares_used(a.buffers);
    buffers::law_exhausted_when_all_used(a.buffers);
}

/// A frame that was filled replaces what its place holds: the object there is given up, and
/// the new one holds the frame, is in use and is shown in the frame's size. No other place
/// changes. When it was shown it counts, and is given back.
pub proof fn law_filled_frame_is_shown(
    a: AppModel,
    q: QueueModel,
    plan: BufferPlan,
    frame: DrmFrame,
    id: u32,
)
    requires
        0 <= buffers::place_of(plan) < a.buffers.len(),
        a.committed_frames < u64::MAX,
        a.frames_per_stats_sample < u64::MAX,
    ensures
        next(PresentModel::Filling(plan), a, q, PresentEvent::Filled(Ok(frame))) matches Some(
            (s, b, p, action),
        ) && {
            let place = buffers::place_of(plan);
            &&& p == q
            &&& action matches PresentAction::CreateBuffer { retired, width, height, format }
            &&& width == frame@.width && height == frame@.height && format == frame@.format
            &&& match a.buffers[place] {
                Some(held) => retired == held.wl_buffer,
                None => retired is None,
            }
            &&& b == (AppModel { buffers: b.buffers, ..a })
            &&& b.buffers.len() == a.buffers.len()
            &&& b.buffers[place] matches Some(held) ==> held.wl_buffer is None
            &&& forall|j: int|
                0 <= j < a.buffers.len() && j != place ==> #[trigger] b.buffers[j] == a.buffers[j]
            &&& next(s, b, p, PresentEvent::BufferCreated(id)) matches Some((u, c, r, then))
            &&& r == q
            &&& then == (PresentAction::Show {
                wl_buffer: id,
                width: frame@.width,
                height: frame@.height,
            })
            &&& c.buffers.len() == a.buffers.len()
            &&& c.buffers[place] == Some(
                BufferModel { wl_buffer: Some(id), frame: frame@, in_use: true },
            )
            &&& forall|j: int|
                0 <= j < a.buffers.len() && j != place ==> #[trigger] c.buffers[j] == a.buffers[j]
            &&& c == (AppModel { buffers: c.buffers, ..a })
            &&& next(u, c, r, PresentEvent::Done) matches Some((v, d, t, last))
            &&& v == PresentModel::Over
            &&& d.committed_frames == a.committed_frames + 1
            &&& d.frames_per_stats_sample == a.frames_per_stats_sample + 1
            &&& d.buffers == c.buffers
            &&& t.read == q.read + 1 && t.written == q.written
            &&& last == (PresentAction::Finish {
                slot: (q.read % 3) as u32,
                end: FrameEnd::Shown,
                stop: false,
            })
        },
{
}

/// A frame that cannot be shown is given back, and the player stays as it is; each failure has
/// its end, and without frames on the GPU or a converter for them the main loop is stopped
/// where there is one.
pub proof fn law_failed_frame_is_given_back(
    a: AppModel,
    q: QueueModel,
    plan: BufferPlan,
    stage: FillStage,
    width: i32,
    height: i32,
)
    ensures
        ({
            let no_hw = next(
                PresentModel::GettingHwFrames { width, height },
                a,
                q,
                PresentEvent::HwFrames(false),
            );
            let no_converter = next(
                PresentModel::CreatingConverter,
                a,
                q,
                PresentEvent::Converter(false),
            );
            let not_filled = next(
                PresentModel::Filling(plan),
                a,
                q,
                PresentEvent::Filled(Err(stage)),
            );
            let slot = (q.read % 3) as u32;
            &&& no_hw matches Some((s, b, p, action)) && s == PresentModel::Over && b == a
                && p.read == q.read + 1 && p.written == q.written && action == (
            PresentAction::Finish { slot, end: FrameEnd::NoHwFrames, stop: a.main_loop_signal })
            &&& no_converter matches Some((s, b, p, action)) && s == PresentModel::Over && b == a
                && p.read == q.read + 1 && p.written == q.written && action == (
            PresentAction::Finish { slot, end: FrameEnd::NoConverter, stop: a.main_loop_signal })
            &&& not_filled matches Some((s, b, p, action)) && s == PresentModel::Over && b == a
                && p.read == q.read + 1 && p.written == q.written && action == (
            PresentAction::Finish { slot, end: FrameEnd::NotFilled(plan, stage), stop: false })
        }),
{
}

} // verus!
