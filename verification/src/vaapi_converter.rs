//! Converting decoded frames on the GPU to the colours that compositors show.
use vstd::prelude::*;

use crate::decoder::codes::AVERROR_EAGAIN;
use crate::decoder::format::NV12;
use crate::text;

verus! {

/// One step of building the filter graph.
#[derive(Clone, Copy, Debug, PartialEq, Eq, Structural)]
pub enum GraphStep {
    AllocGraph,
    FindSource,
    CreateSource,
    /// Tell the source of the frames on the GPU; cannot fail.
    SetParameters,
    FindScale,
    CreateScale,
    FindSink,
    CreateSink,
    /// Have the sink take frames on the GPU only; cannot fail.
    SetFormats,
    LinkSource,
    LinkScale,
    Configure,
}

/// The steps, in order: source, scaler and sink are made and linked up.
pub open spec fn steps() -> Seq<GraphStep> {
    seq![
        GraphStep::AllocGraph,
        GraphStep::FindSource,
        GraphStep::CreateSource,
        GraphStep::SetParameters,
        GraphStep::FindScale,
        GraphStep::CreateScale,
        GraphStep::FindSink,
        GraphStep::CreateSink,
        GraphStep::SetFormats,
        GraphStep::LinkSource,
        GraphStep::LinkScale,
        GraphStep::Configure,
    ]
}

fn all_steps() -> (r: Vec<GraphStep>)
    ensures
        r@ == steps(),
{
    vec![
        GraphStep::AllocGraph,
        GraphStep::FindSource,
        GraphStep::CreateSource,
        GraphStep::SetParameters,
        GraphStep::FindScale,
        GraphStep::CreateScale,
        GraphStep::FindSink,
        GraphStep::CreateSink,
        GraphStep::SetFormats,
        GraphStep::LinkSource,
        GraphStep::LinkScale,
        GraphStep::Configure,
    ]
}

/// The name of the filter that a step is about.
pub open spec fn filter_of(step: GraphStep) -> Option<Seq<char>> {
    match step {
        GraphStep::FindSource => Some("buffer"@),
        GraphStep::FindScale => Some("scale_vaapi"@),
        GraphStep::FindSink => Some("buffersink"@),
        _ => None,
    }
}

/// The name that a filter has in the graph.
pub open spec fn name_of(step: GraphStep) -> Option<Seq<char>> {
    match step {
        GraphStep::CreateSource => Some("in"@),
        GraphStep::CreateScale => Some("scale"@),
        GraphStep::CreateSink => Some("out"@),
        _ => None,
    }
}

/// The arguments of a filter: the source is told the size and the colours of the frames,
/// the scaler keeps the size and changes the colours.
pub open spec fn arguments_of(step: GraphStep, width: i32, height: i32) -> Option<Seq<char>> {
    match step {
        GraphStep::CreateSource => Some(
            "video_size="@ + text::signed_decimal(width as int) + "x"@ + text::signed_decimal(
                height as int,
            ) + ":pix_fmt="@ + text::signed_decimal(NV12 as int)
                + ":time_base=1/30:pixel_aspect=1/1:colorspace=bt709:range=tv"@,
        ),
        GraphStep::CreateScale => Some(
            "w="@ + text::signed_decimal(width as int) + ":h="@ + text::signed_decimal(
                height as int,
            ) + ":format=bgra"@,
        ),
        _ => None,
    }
}

/// The same text, where there is one.
pub open spec fn is_text(r: Option<&'static str>, t: Option<Seq<char>>) -> bool {
    match t {
        Some(u) => r matches Some(v) && v@ == u,
        None => r is None,
    }
}

/// The same text, where there is one.
pub open spec fn is_string(r: Option<String>, t: Option<Seq<char>>) -> bool {
    match t {
        Some(u) => r matches Some(v) && v@ == u,
        None => r is None,
    }
}

/// The name of the filter to look up.
pub fn filter_name(step: GraphStep) -> (r: Option<&'static str>)
    ensures
        is_text(r, filter_of(step)),
{
    match step {
        GraphStep::FindSource => Some("buffer"),
        GraphStep::FindScale => Some("scale_vaapi"),
        GraphStep::FindSink => Some("buffersink"),
        _ => None,
    }
}

/// The name to give a filter in the graph.
pub fn instance_name(step: GraphStep) -> (r: Option<&'static str>)
    ensures
        is_text(r, name_of(step)),
{
    match step {
        GraphStep::CreateSource => Some("in"),
        GraphStep::CreateScale => Some("scale"),
        GraphStep::CreateSink => Some("out"),
        _ => None,
    }
}

fn arguments_for(step: GraphStep, width: i32, height: i32) -> (r: Option<String>)
    ensures
        is_string(r, arguments_of(step, width, height)),
{
    match step {
        GraphStep::CreateSource => {
            let mut r = "video_size=".to_string();
            text::push_signed(&mut r, width);
            r.append("x");
            text::push_signed(&mut r, height);
            r.append(":pix_fmt=");
            text::push_signed(&mut r, NV12);
            r.append(":time_base=1/30:pixel_aspect=1/1:colorspace=bt709:range=tv");
            Some(r)
        },
        GraphStep::CreateScale => {
            let mut r = "w=".to_string();
            text::push_signed(&mut r, width);
            r.append(":h=");
            text::push_signed(&mut r, height);
            r.append(":format=bgra");
            Some(r)
        },
        _ => None,
    }
}

/// What is said of a step that failed with the library's code `ret`.
pub open spec fn failure_of(step: GraphStep, ret: i32) -> Option<Seq<char>> {
    let code = text::signed_decimal(ret as int);
    match step {
        GraphStep::AllocGraph => Some("avfilter_graph_alloc failed"@),
        GraphStep::FindSource => Some("avfilter_get_by_name('buffer') failed"@),
        GraphStep::CreateSource => Some("create buffer src failed: "@ + code),
        GraphStep::FindScale => Some("avfilter_get_by_name('scale_vaapi') failed"@),
        GraphStep::CreateScale => Some("create scale_vaapi failed: "@ + code),
        GraphStep::FindSink => Some("avfilter_get_by_name('buffersink') failed"@),
        GraphStep::CreateSink => Some("create buffersink failed: "@ + code),
        GraphStep::LinkSource => Some("link src->scale failed: "@ + code),
        GraphStep::LinkScale => Some("link scale->sink failed: "@ + code),
        GraphStep::Configure => Some("graph config failed: "@ + code),
        GraphStep::SetParameters | GraphStep::SetFormats => None,
    }
}

fn with_code(t: &str, ret: i32) -> (r: Option<String>)
    ensures
        r matches Some(s) && s@ == t@ + text::signed_decimal(ret as int),
{
    let mut s = t.to_string();
    text::push_signed(&mut s, ret);
    Some(s)
}

/// What to say of a step that failed; `None` for a step that cannot.
pub fn failure_text(step: GraphStep, ret: i32) -> (r: Option<String>)
    ensures
        is_string(r, failure_of(step, ret)),
{
    match step {
        GraphStep::AllocGraph => Some("avfilter_graph_alloc failed".to_string()),
        GraphStep::FindSource => Some("avfilter_get_by_name('buffer') failed".to_string()),
        GraphStep::CreateSource => with_code("create buffer src failed: ", ret),
        GraphStep::FindScale => Some("avfilter_get_by_name('scale_vaapi') failed".to_string()),
        GraphStep::CreateScale => with_code("create scale_vaapi failed: ", ret),
        GraphStep::FindSink => Some("avfilter_get_by_name('buffersink') failed".to_string()),
        GraphStep::CreateSink => with_code("create buffersink failed: ", ret),
        GraphStep::LinkSource => with_code("link src->scale failed: ", ret),
        GraphStep::LinkScale => with_code("link scale->sink failed: ", ret),
        GraphStep::Configure => with_code("graph config failed: ", ret),
        GraphStep::SetParameters => None,
        GraphStep::SetFormats => None,
    }
}

/// What to do next.
#[derive(Clone, Copy, Debug, PartialEq, Eq, Structural)]
pub enum GraphAction {
    Perform(GraphStep),
    /// The graph is ready for frames.
    Ready,
    /// The step failed for good; free the graph where that is marked.
    Fail { step: GraphStep, free_graph: bool },
}

pub open spec fn can_fail(step: GraphStep) -> bool {
    step != GraphStep::SetParameters && step != GraphStep::SetFormats
}

/// Building after the step `at` succeeded or failed: the number of steps that are done,
/// and what comes next.
pub open spec fn next(at: nat, ok: bool) -> (nat, GraphAction) {
    let step = steps()[at as int];
    if !ok && can_fail(step) {
        (at, GraphAction::Fail { step, free_graph: step != GraphStep::AllocGraph })
    } else if at + 1 == steps().len() {
        (at + 1, GraphAction::Ready)
    } else {
        (at + 1, GraphAction::Perform(steps()[at as int + 1]))
    }
}

/// A converter, built or being built.
pub struct VaapiConverter {
    at: usize,
    width: i32,
    height: i32,
}

impl VaapiConverter {
    /// The number of steps that are done.
    pub closed spec fn at(self) -> nat {
        self.at as nat
    }

    /// Width and height of the frames.
    pub closed spec fn frame_size(self) -> (i32, i32) {
        (self.width, self.height)
    }

    /// Starts to build a converter for frames of that size.
    pub fn new(width: i32, height: i32) -> (r: (VaapiConverter, GraphAction))
        ensures
            r.0.at() == 0,
            r.0.frame_size() == (width, height),
            r.1 == GraphAction::Perform(GraphStep::AllocGraph),
    {
        (VaapiConverter { at: 0, width, height }, GraphAction::Perform(GraphStep::AllocGraph))
    }

    /// Width and height of the frames.
    pub fn size(&self) -> (r: (i32, i32))
        ensures
            r == self.frame_size(),
    {
        (self.width, self.height)
    }

    /// The arguments to give the filter that the current step makes.
    pub fn arguments(&self) -> (r: Option<String>)
        ensures
            is_string(
                r,
                if self.at() < steps().len() {
                    arguments_of(
                        steps()[self.at() as int],
                        self.frame_size().0,
                        self.frame_size().1,
                    )
                } else {
                    None
                },
            ),
    {
        let all = all_steps();
        if self.at < all.len() {
            arguments_for(all[self.at], self.width, self.height)
        } else {
            None
        }
    }

    /// Takes note of how the current step went and says what comes next.
    pub fn advance(&mut self, ok: bool) -> (r: GraphAction)
        requires
            old(self).at() < steps().len(),
        ensures
            (final(self).at(), r) == next(old(self).at(), ok),
            final(self).frame_size() == old(self).frame_size(),
    {
        let all = all_steps();
        let step = all[self.at];
        if !ok && step != GraphStep::SetParameters && step != GraphStep::SetFormats {
            return GraphAction::Fail { step, free_graph: step != GraphStep::AllocGraph };
        }
        self.at = self.at + 1;
        if self.at == all.len() {
            GraphAction::Ready
        } else {
            GraphAction::Perform(all[self.at])
        }
    }

    /// Whether frames can be converted.
    pub fn is_ready(&self) -> (r: bool)
        ensures
            r == (self.at() >= steps().len()),
    {
        self.at >= all_steps().len()
    }
}

/// The steps that are done after a run of outcomes, and what comes next.
pub open spec fn run(outcomes: Seq<bool>) -> (nat, GraphAction)
    decreases outcomes.len(),
{
    if outcomes.len() == 0 {
        (0, GraphAction::Perform(GraphStep::AllocGraph))
    } else {
        let (at, action) = run(outcomes.drop_last());
        if action is Perform {
            next(at, outcomes.last())
        } else {
            (at, action)
        }
    }
}

/// A converter is ready only after all steps, and a graph that was made is freed
/// where a later step fails.
pub proof fn law_graph_is_complete_or_freed(outcomes: Seq<bool>)
    ensures
        match run(outcomes) {
            (at, GraphAction::Ready) => at == steps().len(),
            (at, GraphAction::Perform(step)) => at < steps().len() && step == steps()[at as int],
            (at, GraphAction::Fail { step, free_graph }) => at < steps().len() && step
                == steps()[at as int] && free_graph == (at > 0),
        },
    decreases outcomes.len(),
{
    if outcomes.len() > 0 {
        law_graph_is_complete_or_freed(outcomes.drop_last());
    }
}

// ---------------------------------------------------------------------------
// Converting one frame

#[derive(Clone, Copy, Debug, PartialEq, Eq, Structural)]
pub enum ConvertError {
    Alloc,
    /// The graph does not take the frame; the library's code.
    AddFrame(i32),
    /// The graph wants more frames first.
    NeedsInput,
    /// The graph gives no frame; the library's code.
    GetFrame(i32),
}

/// What to do next.
#[derive(Clone, Copy, Debug, PartialEq, Eq, Structural)]
pub enum ConvertAction {
    /// Make a frame to convert into.
    AllocFrame,
    /// Put the decoded frame into the graph, and keep it.
    AddFrame,
    /// Take the converted frame out of the graph.
    GetFrame,
    /// The converted frame is the caller's.
    Ready,
    /// Free the frame that was to be converted into, where that is marked.
    Fail { error: ConvertError, free_frame: bool },
}

/// Where a conversion stands, that is, which action was given out.
#[derive(Clone, Copy, Debug, PartialEq, Eq, Structural)]
pub enum ConvertState {
    Allocating,
    Adding,
    Getting,
    Over,
}

/// What came of an action: whether a frame was made, or the library's code.
#[derive(Clone, Copy, Debug, PartialEq, Eq, Structural)]
pub enum ConvertEvent {
    Allocated(bool),
    Returned(i32),
}

/// The next state and action; `None` where the event does not answer the last action.
pub open spec fn convert_next(s: ConvertState, e: ConvertEvent) -> Option<
    (ConvertState, ConvertAction),
> {
    match (s, e) {
        (ConvertState::Allocating, ConvertEvent::Allocated(ok)) => Some(
            if ok {
                (ConvertState::Adding, ConvertAction::AddFrame)
            } else {
                (
                    ConvertState::Over,
                    ConvertAction::Fail { error: ConvertError::Alloc, free_frame: false },
                )
            },
        ),
        (ConvertState::Adding, ConvertEvent::Returned(ret)) => Some(
            if ret >= 0 {
                (ConvertState::Getting, ConvertAction::GetFrame)
            } else {
                (
                    ConvertState::Over,
                    ConvertAction::Fail { error: ConvertError::AddFrame(ret), free_frame: true },
                )
            },
        ),
        (ConvertState::Getting, ConvertEvent::Returned(ret)) => Some(
            if ret >= 0 {
                (ConvertState::Over, ConvertAction::Ready)
            } else {
                (
                    ConvertState::Over,
                    ConvertAction::Fail {
                        error: if ret == AVERROR_EAGAIN {
                            ConvertError::NeedsInput
                        } else {
                            ConvertError::GetFrame(ret)
                        },
                        free_frame: true,
                    },
                )
            },
        ),
        _ => None,
    }
}

/// A conversion in progress.
pub struct Conversion {
    state: ConvertState,
}

impl VaapiConverter {
    /// Starts to convert a frame; `has_frame` says whether there is a frame to convert into.
    pub fn convert(&self, has_frame: bool) -> (r: (Conversion, ConvertAction))
        requires
            self.at() >= steps().len(),
        ensures
            has_frame ==> r.0.state() == ConvertState::Adding && r.1 == ConvertAction::AddFrame,
            !has_frame ==> r.0.state() == ConvertState::Allocating && r.1
                == ConvertAction::AllocFrame,
    {
        if has_frame {
            (Conversion { state: ConvertState::Adding }, ConvertAction::AddFrame)
        } else {
            (Conversion { state: ConvertState::Allocating }, ConvertAction::AllocFrame)
        }
    }
}

impl Conversion {
    pub closed spec fn state(self) -> ConvertState {
        self.state
    }

    /// The action that follows what came of the last one; `None` where the event does not
    /// answer it.
    pub fn advance(&mut self, event: ConvertEvent) -> (r: Option<ConvertAction>)
        ensures
            match convert_next(old(self).state(), event) {
                Some((s, a)) => final(self).state() == s && r == Some(a),
                None => final(self).state() == old(self).state() && r is None,
            },
    {
        let (state, action): (ConvertState, ConvertAction) = match (self.state, event) {
            (ConvertState::Allocating, ConvertEvent::Allocated(ok)) => if ok {
                (ConvertState::Adding, ConvertAction::AddFrame)
            } else {
                (
                    ConvertState::Over,
                    ConvertAction::Fail { error: ConvertError::Alloc, free_frame: false },
                )
            },
            (ConvertState::Adding, ConvertEvent::Returned(ret)) => if ret >= 0 {
                (ConvertState::Getting, ConvertAction::GetFrame)
            } else {
                (
                    ConvertState::Over,
                    ConvertAction::Fail { error: ConvertError::AddFrame(ret), free_frame: true },
                )
            },
            (ConvertState::Getting, ConvertEvent::Returned(ret)) => if ret >= 0 {
                (ConvertState::Over, ConvertAction::Ready)
            } else {
                let error = if ret == AVERROR_EAGAIN {
                    ConvertError::NeedsInput
                } else {
                    ConvertError::GetFrame(ret)
                };
                (ConvertState::Over, ConvertAction::Fail { error, free_frame: true })
            },
            _ => return None,
        };
        self.state = state;
        Some(action)
    }
}

/// What is said of a conversion that failed.
pub open spec fn convert_failure_of(e: ConvertError) -> Seq<char> {
    match e {
        ConvertError::Alloc => "av_frame_alloc failed for convert!"@,
        ConvertError::AddFrame(ret) => "buffersrc_add_frame failed: "@ + text::signed_decimal(
            ret as int,
        ),
        ConvertError::NeedsInput => "converter needs more input"@,
        ConvertError::GetFrame(ret) => "buffersink_get_frame failed: "@ + text::signed_decimal(
            ret as int,
        ),
    }
}

/// What to say of a conversion that failed.
pub fn convert_failure_text(e: ConvertError) -> (r: String)
    ensures
        r@ == convert_failure_of(e),
{
    match e {
        ConvertError::Alloc => "av_frame_alloc failed for convert!".to_string(),
        ConvertError::AddFrame(ret) => {
            let mut s = "buffersrc_add_frame failed: ".to_string();
            text::push_signed(&mut s, ret);
            s
        },
        ConvertError::NeedsInput => "converter needs more input".to_string(),
        ConvertError::GetFrame(ret) => {
            let mut s = "buffersink_get_frame failed: ".to_string();
            text::push_signed(&mut s, ret);
            s
        },
    }
}

/// Where a conversion stands after a run of events, and whether there is a frame to
/// convert into.
pub open spec fn convert_run(has_frame: bool, events: Seq<ConvertEvent>) -> (
    ConvertState,
    Option<ConvertAction>,
    bool,
)
    decreases events.len(),
{
    if events.len() == 0 {
        (
            if has_frame {
                ConvertState::Adding
            } else {
                ConvertState::Allocating
            },
            None,
            has_frame,
        )
    } else {
        let (before, action, frame) = convert_run(has_frame, events.drop_last());
        let e = events.last();
        match convert_next(before, e) {
            None => (before, action, frame),
            Some((after, a)) => (after, Some(a), frame || e == ConvertEvent::Allocated(true)),
        }
    }
}

/// On success the frame is there and is the caller's; on failure a frame that is there is
/// freed.
pub proof fn law_frame_is_kept_or_freed(has_frame: bool, events: Seq<ConvertEvent>)
    ensures
        match convert_run(has_frame, events) {
            (s, Some(ConvertAction::Ready), frame) => s is Over && frame,
            (s, Some(ConvertAction::Fail { free_frame, .. }), frame) => s is Over && free_frame
                == frame,
            (s, _, frame) => !(s is Over) && frame == !(s is Allocating),
        },
    decreases events.len(),
{
    if events.len() > 0 {
        law_frame_is_kept_or_freed(has_frame, events.drop_last());
    }
}

/// The graph is built so that each step finds what it needs: a filter is looked up before it
/// is made, all are made before they are linked, source before sink, and the graph is checked
/// last.
pub proof fn law_graph_is_built_in_order(i: int, j: int)
    requires
        0 <= i < steps().len(),
        0 <= j < steps().len(),
    ensures
        steps().len() == 12,
        steps()[i] == steps()[j] ==> i == j,
        steps()[i] == GraphStep::AllocGraph ==> i == 0,
        steps()[i] == GraphStep::Configure ==> i == 11,
        steps()[i] == GraphStep::FindSource && steps()[j] == GraphStep::CreateSource ==> i < j,
        steps()[i] == GraphStep::CreateSource && steps()[j] == GraphStep::SetParameters ==> i < j,
        steps()[i] == GraphStep::SetParameters && steps()[j] == GraphStep::LinkSource ==> i < j,
        steps()[i] == GraphStep::FindScale && steps()[j] == GraphStep::CreateScale ==> i < j,
        steps()[i] == GraphStep::FindSink && steps()[j] == GraphStep::CreateSink ==> i < j,
        steps()[i] == GraphStep::CreateSink && steps()[j] == GraphStep::SetFormats ==> i < j,
        steps()[i] == GraphStep::SetFormats && steps()[j] == GraphStep::LinkSource ==> i < j,
        steps()[i] == GraphStep::CreateScale && steps()[j] == GraphStep::LinkSource ==> i < j,
        steps()[i] == GraphStep::LinkSource && steps()[j] == GraphStep::LinkScale ==> i < j,
        (steps()[i] == GraphStep::FindSource && j == i + 1) ==> steps()[j]
            == GraphStep::CreateSource,
        (steps()[i] == GraphStep::FindScale && j == i + 1) ==> steps()[j] == GraphStep::CreateScale,
        (steps()[i] == GraphStep::FindSink && j == i + 1) ==> steps()[j] == GraphStep::CreateSink,
{
}

/// A step that succeeds, and one that cannot fail, is followed by the next; one that fails
/// ends the attempt, and the graph is freed unless it is what could not be made.
pub proof fn law_graph_steps_follow(at: nat, ok: bool)
    requires
        at < steps().len(),
    ensures
        ({
            let step = steps()[at as int];
            let goes_on = ok || step == GraphStep::SetParameters || step == GraphStep::SetFormats;
            let (after, action) = next(at, ok);
            &&& goes_on ==> after == at + 1
            &&& goes_on && at + 1 < steps().len() ==> action == GraphAction::Perform(
                steps()[at as int + 1],
            )
            &&& goes_on && at + 1 == steps().len() ==> action == GraphAction::Ready
            &&& !goes_on ==> after == at && action == (GraphAction::Fail {
                step,
                free_graph: at > 0,
            })
        }),
{
}

/// The source is told the size of the frames, and the scaler the same size, so that only the
/// colours change.
pub proof fn law_scaler_keeps_the_size(width: i32, height: i32)
    ensures
        arguments_of(GraphStep::CreateSource, width, height) == Some(
            "video_size="@ + text::signed_decimal(width as int) + "x"@ + text::signed_decimal(
                height as int,
            ) + ":pix_fmt="@ + text::signed_decimal(23)
                + ":time_base=1/30:pixel_aspect=1/1:colorspace=bt709:range=tv"@,
        ),
        arguments_of(GraphStep::CreateScale, width, height) == Some(
            "w="@ + text::signed_decimal(width as int) + ":h="@ + text::signed_decimal(
                height as int,
            ) + ":format=bgra"@,
        ),
        filter_of(GraphStep::FindSource) == Some("buffer"@),
        filter_of(GraphStep::FindScale) == Some("scale_vaapi"@),
        filter_of(GraphStep::FindSink) == Some("buffersink"@),
{
}

/// A frame is converted by putting it into the graph and taking the result out: a frame to
/// convert into is made first where there is none. Each step that fails has its error, with
/// the library's code; a graph that wants more frames is told apart.
pub proof fn law_conversion_goes_step_by_step(ret: i32, ok: bool)
    ensures
        convert_next(ConvertState::Allocating, ConvertEvent::Allocated(true)) == Some(
            (ConvertState::Adding, ConvertAction::AddFrame),
        ),
        convert_next(ConvertState::Allocating, ConvertEvent::Allocated(false)) matches Some(
            (_, ConvertAction::Fail { error, free_frame }),
        ) && error == ConvertError::Alloc && !free_frame,
        ret >= 0 ==> convert_next(ConvertState::Adding, ConvertEvent::Returned(ret)) == Some(
            (ConvertState::Getting, ConvertAction::GetFrame),
        ),
        ret < 0 ==> (convert_next(ConvertState::Adding, ConvertEvent::Returned(ret)) matches Some(
            (_, ConvertAction::Fail { error, free_frame }),
        ) && error == ConvertError::AddFrame(ret) && free_frame),
        ret >= 0 <==> convert_next(ConvertState::Getting, ConvertEvent::Returned(ret)) == Some(
            (ConvertState::Over, ConvertAction::Ready),
        ),
        ret == AVERROR_EAGAIN ==> (convert_next(
            ConvertState::Getting,
            ConvertEvent::Returned(ret),
        ) matches Some((_, ConvertAction::Fail { error, free_frame })) && error
            == ConvertError::NeedsInput && free_frame),
        ret < 0 && ret != AVERROR_EAGAIN ==> (convert_next(
            ConvertState::Getting,
            ConvertEvent::Returned(ret),
        ) matches Some((_, ConvertAction::Fail { error, free_frame })) && error
            == ConvertError::GetFrame(ret) && free_frame),
{
}

/// The filters are known in the graph as its way in, the scaler and its way out, and no other
/// step has a filter or a name.
pub proof fn law_filters_have_names(step: GraphStep)
    ensures
        name_of(step) == Some("in"@) <==> step == GraphStep::CreateSource,
        name_of(step) == Some("scale"@) <==> step == GraphStep::CreateScale,
        name_of(step) == Some("out"@) <==> step == GraphStep::CreateSink,
        name_of(step) is Some <==> step == GraphStep::CreateSource || step == GraphStep::CreateScale
            || step == GraphStep::CreateSink,
        filter_of(step) is Some <==> step == GraphStep::FindSource || step == GraphStep::FindScale
            || step == GraphStep::FindSink,
{
    reveal_strlit("in");
    reveal_strlit("scale");
    reveal_strlit("out");
    assert("in"@.len() != "scale"@.len());
    assert("in"@.len() != "out"@.len());
    assert("scale"@.len() != "out"@.len());
}

/// The same text is one with the same characters, or none where there is none.
pub proof fn law_same_text(r: Option<&'static str>, s: Option<String>, t: Option<Seq<char>>)
    ensures
        is_text(r, t) <==> (match r {
            Some(v) => t == Some(v@),
            None => t is None,
        }),
        is_string(s, t) <==> (match s {
            Some(v) => t == Some(v@),
            None => t is None,
        }),
{
}

/// What is said of a step that failed: the library's code where the call has one, and nothing
/// of a step that cannot fail.
pub proof fn law_failed_step_is_told(ret: i32)
    ensures
        failure_of(GraphStep::AllocGraph, ret) == Some("avfilter_graph_alloc failed"@),
        failure_of(GraphStep::FindSource, ret) == Some("avfilter_get_by_name('buffer') failed"@),
        failure_of(GraphStep::FindScale, ret) == Some(
            "avfilter_get_by_name('scale_vaapi') failed"@,
        ),
        failure_of(GraphStep::FindSink, ret) == Some("avfilter_get_by_name('buffersink') failed"@),
        failure_of(GraphStep::CreateSource, ret) == Some(
            "create buffer src failed: "@ + text::signed_decimal(ret as int),
        ),
        failure_of(GraphStep::CreateScale, ret) == Some(
            "create scale_vaapi failed: "@ + text::signed_decimal(ret as int),
        ),
        failure_of(GraphStep::CreateSink, ret) == Some(
            "create buffersink failed: "@ + text::signed_decimal(ret as int),
        ),
        failure_of(GraphStep::LinkSource, ret) == Some(
            "link src->scale failed: "@ + text::signed_decimal(ret as int),
        ),
        failure_of(GraphStep::LinkScale, ret) == Some(
            "link scale->sink failed: "@ + text::signed_decimal(ret as int),
        ),
        failure_of(GraphStep::Configure, ret) == Some(
            "graph config failed: "@ + text::signed_decimal(ret as int),
        ),
        failure_of(GraphStep::SetParameters, ret) is None,
        failure_of(GraphStep::SetFormats, ret) is None,
{
}

} // verus!
