//! Opening a video, up to a running decoder or a trial of one.
use vstd::prelude::*;

use crate::decoder::format::PixelFormat;
use crate::text;
use crate::timing::Rational;

verus! {

/// The device that is decoded on where no other is known.
pub const DEFAULT_DEVICE: &'static str = "/dev/dri/renderD129";

/// How many frames a trial decodes.
pub const TRIAL_FRAMES: i32 = 30;

/// A stream of a file.
#[derive(Clone, Copy, Debug, PartialEq, Eq, Structural)]
pub struct StreamInfo {
    pub is_video: bool,
    pub codec_id: i32,
    pub time_base: Rational,
    pub width: i32,
    pub height: i32,
}

/// The stream that is decoded.
#[derive(Clone, Copy, Debug, PartialEq, Eq, Structural)]
pub struct VideoStream {
    /// The position of the stream; negative where there is none.
    pub index: i32,
    pub codec_id: i32,
    pub time_base: Rational,
    pub width: i32,
    pub height: i32,
}

/// The position of the first video stream, or the number of streams where there is none.
pub open spec fn first_video(streams: Seq<StreamInfo>) -> nat
    decreases streams.len(),
{
    if streams.len() == 0 || streams[0].is_video {
        0
    } else {
        1 + first_video(streams.skip(1))
    }
}

/// The first video stream. A position beyond an `i32` wraps around.
pub open spec fn video_stream(streams: Seq<StreamInfo>) -> VideoStream {
    let i = first_video(streams);
    if i < streams.len() {
        let s = streams[i as int];
        VideoStream {
            index: i as i32,
            codec_id: s.codec_id,
            time_base: s.time_base,
            width: s.width,
            height: s.height,
        }
    } else {
        VideoStream {
            index: -1i32,
            codec_id: 0,
            time_base: Rational { num: 0, den: 0 },
            width: 0,
            height: 0,
        }
    }
}

/// Finds the first video stream.
pub fn set_video_stream(streams: &Vec<StreamInfo>) -> (r: VideoStream)
    ensures
        r == video_stream(streams@),
{
    let mut i: usize = 0;
    assert(streams@.skip(0) =~= streams@);
    while i < streams.len()
        invariant
            i <= streams.len(),
            first_video(streams@) == i + first_video(streams@.skip(i as int)),
        decreases streams.len() - i,
    {
        let s = streams[i];
        assert(streams@.skip(i as int)[0] == s);
        if s.is_video {
            return VideoStream {
                index: i as i32,
                codec_id: s.codec_id,
                time_base: s.time_base,
                width: s.width,
                height: s.height,
            };
        }
        assert(streams@.skip(i as int).skip(1) =~= streams@.skip(i + 1));
        i += 1;
    }
    VideoStream {
        index: -1,
        codec_id: 0,
        time_base: Rational { num: 0, den: 0 },
        width: 0,
        height: 0,
    }
}

/// The device to decode on: the compositor's, where it is known.
pub fn device_path(render_node: Option<String>) -> (r: String)
    ensures
        r@ == match render_node {
            Some(p) => p@,
            None => DEFAULT_DEVICE@,
        },
{
    match render_node {
        Some(p) => p,
        None => DEFAULT_DEVICE.to_string(),
    }
}

/// A decoder that runs.
#[derive(Clone, Copy, Debug, PartialEq, Eq, Structural)]
pub struct Decoder {
    pub running: bool,
    pub stream: VideoStream,
    pub pixel_format: PixelFormat,
    /// Whether it holds a device, to be given up at the end.
    pub hw_device: bool,
}

/// What a video is opened for.
#[derive(Clone, Copy, Debug, PartialEq, Eq, Structural)]
pub enum Purpose {
    Play,
    /// Try out whether frames come from the GPU.
    CompatCheck,
    /// Try out whether such a frame gets to the screen.
    RenderCheck,
}

#[derive(Clone, Copy, Debug, PartialEq, Eq, Structural)]
pub enum OpenError {
    /// The file cannot be opened; the library's code.
    OpenInput(i32),
    StreamInfo,
    NoVideoStream,
    /// No decoder for this codec.
    NoDecoder(i32),
    AllocContext,
    CopyParameters,
    CreateDevice,
    OpenCodec,
    Spawn,
}

/// What is held of the codec library. It is given up in this order.
#[derive(Clone, Copy, Debug, PartialEq, Eq, Structural)]
pub struct Holdings {
    pub device: bool,
    pub context: bool,
    pub input: bool,
}

pub open spec fn nothing() -> Holdings {
    Holdings { device: false, context: false, input: false }
}

/// What to do next.
#[derive(Clone, Copy, Debug, PartialEq, Eq, Structural)]
pub enum OpenAction {
    OpenInput,
    FindStreamInfo,
    ListStreams,
    FindDecoder(i32),
    AllocContext,
    CopyParameters,
    CreateDevice,
    OpenCodec,
    /// Start the thread that decodes this stream.
    Spawn(VideoStream),
    /// Decode this many frames of the stream, whatever comes of it.
    TryDecoding { stream: VideoStream, frames: i32 },
    /// Show one frame of the stream, whatever comes of it.
    TryRendering { stream: VideoStream },
    /// The decoder runs.
    Started(Decoder),
    /// There is nothing to try.
    Skip,
    /// Opening failed; give this up.
    Fail { error: OpenError, release: Holdings },
}

/// What came of an action.
pub enum OpenEvent {
    /// The codec library's code.
    Returned(i32),
    /// Whether the codec library, or the system, handed out what was asked for.
    Given(bool),
    Streams(Vec<StreamInfo>),
    /// The codec library's code for opening the codec, and the format that it decodes to.
    CodecOpened { ret: i32, pixel_format: PixelFormat },
}

/// Where opening stands, that is, which action was given out.
#[derive(Clone, Copy, Debug, PartialEq, Eq, Structural)]
pub enum OpenState {
    OpeningInput,
    FindingStreamInfo,
    ListingStreams,
    FindingDecoder(VideoStream),
    AllocatingContext(VideoStream),
    CopyingParameters(VideoStream),
    CreatingDevice(VideoStream),
    OpeningCodec(VideoStream),
    Spawning(VideoStream, PixelFormat),
    Over,
}

/// What is held at each stage.
pub open spec fn held(s: OpenState, use_vaapi: bool) -> Holdings {
    match s {
        OpenState::OpeningInput => nothing(),
        OpenState::FindingStreamInfo => Holdings { input: true, ..nothing() },
        OpenState::ListingStreams => Holdings { input: true, ..nothing() },
        OpenState::FindingDecoder(_) => Holdings { input: true, ..nothing() },
        OpenState::AllocatingContext(_) => Holdings { input: true, ..nothing() },
        OpenState::CopyingParameters(_) => Holdings { input: true, context: true, ..nothing() },
        OpenState::CreatingDevice(_) => Holdings { input: true, context: true, ..nothing() },
        OpenState::OpeningCodec(_) => Holdings { input: true, context: true, device: use_vaapi },
        OpenState::Spawning(_, _) => Holdings { input: true, context: true, device: use_vaapi },
        OpenState::Over => nothing(),
    }
}

/// Opening ends with an error, and gives up what it holds.
pub open spec fn fail(s: OpenState, use_vaapi: bool, error: OpenError) -> (OpenState, OpenAction) {
    (OpenState::Over, OpenAction::Fail { error, release: held(s, use_vaapi) })
}

/// The codec is open: what the video was opened for begins.
pub open spec fn opened(purpose: Purpose, stream: VideoStream, pixel_format: PixelFormat) -> (
    OpenState,
    OpenAction,
) {
    match purpose {
        Purpose::Play => (OpenState::Spawning(stream, pixel_format), OpenAction::Spawn(stream)),
        Purpose::CompatCheck => (
            OpenState::Over,
            OpenAction::TryDecoding { stream, frames: TRIAL_FRAMES },
        ),
        Purpose::RenderCheck => (OpenState::Over, OpenAction::TryRendering { stream }),
    }
}

/// The next state and action; `None` where the event does not answer the last action.
/// A file without video, and a thread that does not start, end the attempt with nothing
/// given up.
pub open spec fn next(purpose: Purpose, use_vaapi: bool, s: OpenState, e: OpenEvent) -> Option<
    (OpenState, OpenAction),
> {
    match (s, e) {
        (OpenState::OpeningInput, OpenEvent::Returned(ret)) => Some(
            if ret != 0 {
                fail(s, use_vaapi, OpenError::OpenInput(ret))
            } else {
                (OpenState::FindingStreamInfo, OpenAction::FindStreamInfo)
            },
        ),
        (OpenState::FindingStreamInfo, OpenEvent::Returned(ret)) => Some(
            if ret < 0 {
                fail(s, use_vaapi, OpenError::StreamInfo)
            } else {
                (OpenState::ListingStreams, OpenAction::ListStreams)
            },
        ),
        (OpenState::ListingStreams, OpenEvent::Streams(streams)) => {
            let stream = video_stream(streams@);
            Some(
                if stream.index < 0 {
                    (
                        OpenState::Over,
                        OpenAction::Fail { error: OpenError::NoVideoStream, release: nothing() },
                    )
                } else {
                    (
                        OpenState::FindingDecoder(stream),
                        OpenAction::FindDecoder(stream.codec_id),
                    )
                },
            )
        },
        (OpenState::FindingDecoder(stream), OpenEvent::Given(ok)) => Some(
            if !ok {
                fail(s, use_vaapi, OpenError::NoDecoder(stream.codec_id))
            } else {
                (OpenState::AllocatingContext(stream), OpenAction::AllocContext)
            },
        ),
        (OpenState::AllocatingContext(stream), OpenEvent::Given(ok)) => Some(
            if !ok {
                fail(s, use_vaapi, OpenError::AllocContext)
            } else {
                (OpenState::CopyingParameters(stream), OpenAction::CopyParameters)
            },
        ),
        (OpenState::CopyingParameters(stream), OpenEvent::Returned(ret)) => Some(
            if ret < 0 {
                fail(s, use_vaapi, OpenError::CopyParameters)
            } else if use_vaapi {
                (OpenState::CreatingDevice(stream), OpenAction::CreateDevice)
            } else {
                (OpenState::OpeningCodec(stream), OpenAction::OpenCodec)
            },
        ),
        (OpenState::CreatingDevice(stream), OpenEvent::Returned(ret)) => Some(
            if ret < 0 {
                fail(s, use_vaapi, OpenError::CreateDevice)
            } else {
                (OpenState::OpeningCodec(stream), OpenAction::OpenCodec)
            },
        ),
        (OpenState::OpeningCodec(stream), OpenEvent::CodecOpened { ret, pixel_format }) => Some(
            if ret < 0 {
                fail(s, use_vaapi, OpenError::OpenCodec)
            } else {
                opened(purpose, stream, pixel_format)
            },
        ),
        (OpenState::Spawning(stream, pixel_format), OpenEvent::Given(ok)) => Some(
            if !ok {
                (
                    OpenState::Over,
                    OpenAction::Fail { error: OpenError::Spawn, release: nothing() },
                )
            } else {
                (
                    OpenState::Over,
                    OpenAction::Started(
                        Decoder { running: true, stream, pixel_format, hw_device: use_vaapi },
                    ),
                )
            },
        ),
        _ => None,
    }
}

/// A video that is being opened.
pub struct Opening {
    purpose: Purpose,
    use_vaapi: bool,
    state: OpenState,
}

impl Opening {
    pub closed spec fn purpose(self) -> Purpose {
        self.purpose
    }

    pub closed spec fn use_vaapi(self) -> bool {
        self.use_vaapi
    }

    pub closed spec fn state(self) -> OpenState {
        self.state
    }

    /// Takes note of what came of the last action and says what comes next; `None` where
    /// the event does not answer it.
    pub fn advance(&mut self, event: OpenEvent) -> (r: Option<OpenAction>)
        ensures
            final(self).purpose() == old(self).purpose(),
            final(self).use_vaapi() == old(self).use_vaapi(),
            match next(old(self).purpose(), old(self).use_vaapi(), old(self).state(), event) {
                Some((s, a)) => final(self).state() == s && r == Some(a),
                None => final(self).state() == old(self).state() && r is None,
            },
    {
        let device: bool = self.use_vaapi;
        let (state, action): (OpenState, OpenAction) = match (self.state, event) {
            (OpenState::OpeningInput, OpenEvent::Returned(ret)) => if ret != 0 {
                Self::failure(OpenError::OpenInput(ret), false, false, false)
            } else {
                (OpenState::FindingStreamInfo, OpenAction::FindStreamInfo)
            },
            (OpenState::FindingStreamInfo, OpenEvent::Returned(ret)) => if ret < 0 {
                Self::failure(OpenError::StreamInfo, false, false, true)
            } else {
                (OpenState::ListingStreams, OpenAction::ListStreams)
            },
            (OpenState::ListingStreams, OpenEvent::Streams(streams)) => {
                let stream = set_video_stream(&streams);
                if stream.index < 0 {
                    Self::failure(OpenError::NoVideoStream, false, false, false)
                } else {
                    (
                        OpenState::FindingDecoder(stream),
                        OpenAction::FindDecoder(stream.codec_id),
                    )
                }
            },
            (OpenState::FindingDecoder(stream), OpenEvent::Given(ok)) => if !ok {
                Self::failure(OpenError::NoDecoder(stream.codec_id), false, false, true)
            } else {
                (OpenState::AllocatingContext(stream), OpenAction::AllocContext)
            },
            (OpenState::AllocatingContext(stream), OpenEvent::Given(ok)) => if !ok {
                Self::failure(OpenError::AllocContext, false, false, true)
            } else {
                (OpenState::CopyingParameters(stream), OpenAction::CopyParameters)
            },
            (OpenState::CopyingParameters(stream), OpenEvent::Returned(ret)) => if ret < 0 {
                Self::failure(OpenError::CopyParameters, false, true, true)
            } else if self.use_vaapi {
                (OpenState::CreatingDevice(stream), OpenAction::CreateDevice)
            } else {
                (OpenState::OpeningCodec(stream), OpenAction::OpenCodec)
            },
            (OpenState::CreatingDevice(stream), OpenEvent::Returned(ret)) => if ret < 0 {
                Self::failure(OpenError::CreateDevice, false, true, true)
            } else {
                (OpenState::OpeningCodec(stream), OpenAction::OpenCodec)
            },
            (OpenState::OpeningCodec(stream), OpenEvent::CodecOpened { ret, pixel_format }) => if ret
                < 0 {
                Self::failure(OpenError::OpenCodec, device, true, true)
            } else {
                match self.purpose {
                    Purpose::Play => (
                        OpenState::Spawning(stream, pixel_format),
                        OpenAction::Spawn(stream),
                    ),
                    Purpose::CompatCheck => (
                        OpenState::Over,
                        OpenAction::TryDecoding { stream, frames: TRIAL_FRAMES },
                    ),
                    Purpose::RenderCheck => (
                        OpenState::Over,
                        OpenAction::TryRendering { stream },
                    ),
                }
            },
            (OpenState::Spawning(stream, pixel_format), OpenEvent::Given(ok)) => if !ok {
                Self::failure(OpenError::Spawn, false, false, false)
            } else {
                (
                    OpenState::Over,
                    OpenAction::Started(
                        Decoder {
                            running: true,
                            stream,
                            pixel_format,
                            hw_device: self.use_vaapi,
                        },
                    ),
                )
            },
            _ => return None,
        };
        self.state = state;
        Some(action)
    }

    fn failure(error: OpenError, device: bool, context: bool, input: bool) -> (r: (
        OpenState,
        OpenAction,
    ))
        ensures
            r == (
                OpenState::Over,
                OpenAction::Fail { error, release: Holdings { device, context, input } },
            ),
    {
        (
            OpenState::Over,
            OpenAction::Fail { error, release: Holdings { device, context, input } },
        )
    }
}

impl Decoder {
    /// Starts to open a video for playing.
    pub fn start(use_vaapi: bool) -> (r: (Opening, OpenAction))
        ensures
            r.0.purpose() == Purpose::Play,
            r.0.use_vaapi() == use_vaapi,
            r.0.state() == OpenState::OpeningInput,
            r.1 == OpenAction::OpenInput,
    {
        (
            Opening { purpose: Purpose::Play, use_vaapi, state: OpenState::OpeningInput },
            OpenAction::OpenInput,
        )
    }

    /// Starts to open a video for a trial of decoding.
    pub fn start_vaapi_check(use_vaapi: bool) -> (r: (Opening, OpenAction))
        ensures
            r.0.purpose() == Purpose::CompatCheck,
            r.0.use_vaapi() == use_vaapi,
            r.0.state() == OpenState::OpeningInput,
            r.1 == OpenAction::OpenInput,
    {
        (
            Opening { purpose: Purpose::CompatCheck, use_vaapi, state: OpenState::OpeningInput },
            OpenAction::OpenInput,
        )
    }

    /// Starts to open a video for a trial of showing a frame; there is nothing to try
    /// without hardware decoding.
    pub fn start_vaapi_render_check(use_vaapi: bool) -> (r: (Opening, OpenAction))
        ensures
            r.0.purpose() == Purpose::RenderCheck,
            r.0.use_vaapi() == use_vaapi,
            use_vaapi ==> r.0.state() == OpenState::OpeningInput && r.1 == OpenAction::OpenInput,
            !use_vaapi ==> r.0.state() == OpenState::Over && r.1 == OpenAction::Skip,
    {
        if !use_vaapi {
            return (
                Opening { purpose: Purpose::RenderCheck, use_vaapi, state: OpenState::Over },
                OpenAction::Skip,
            );
        }
        (
            Opening { purpose: Purpose::RenderCheck, use_vaapi, state: OpenState::OpeningInput },
            OpenAction::OpenInput,
        )
    }

    /// Asks the decoder to end.
    pub fn stop(&mut self)
        ensures
            *final(self) == (Decoder { running: false, ..*old(self) }),
    {
        self.running = false;
    }
}

/// What is said of an attempt that failed.
pub open spec fn failure_of(e: OpenError, path: Seq<char>) -> Seq<char> {
    match e {
        OpenError::OpenInput(ret) => "avformat_open_input failed: "@ + path + " "@
            + text::signed_decimal(ret as int),
        OpenError::StreamInfo => "avformat_find_stream_info failed"@,
        OpenError::NoVideoStream => "No video stream found"@,
        OpenError::NoDecoder(id) => "No decoder found for codec_id="@ + text::signed_decimal(
            id as int,
        ),
        OpenError::AllocContext => "avcodec_alloc_context3 failed"@,
        OpenError::CopyParameters => "avcodec_parameters_to_context failed"@,
        OpenError::CreateDevice => "av_hwdevice_ctx_create failed"@,
        OpenError::OpenCodec => "avcodec_open2 failed"@,
        OpenError::Spawn => "Failed to spawn decoder thread"@,
    }
}

/// What to say of an attempt that failed to open the file at `path`.
pub fn failure_text(e: OpenError, path: &str) -> (r: String)
    ensures
        r@ == failure_of(e, path@),
{
    match e {
        OpenError::OpenInput(ret) => {
            let mut r = "avformat_open_input failed: ".to_string();
            r.append(path);
            r.append(" ");
            text::push_signed(&mut r, ret);
            r
        },
        OpenError::StreamInfo => "avformat_find_stream_info failed".to_string(),
        OpenError::NoVideoStream => "No video stream found".to_string(),
        OpenError::NoDecoder(id) => {
            let mut r = "No decoder found for codec_id=".to_string();
            text::push_signed(&mut r, id);
            r
        },
        OpenError::AllocContext => "avcodec_alloc_context3 failed".to_string(),
        OpenError::CopyParameters => "avcodec_parameters_to_context failed".to_string(),
        OpenError::CreateDevice => "av_hwdevice_ctx_create failed".to_string(),
        OpenError::OpenCodec => "avcodec_open2 failed".to_string(),
        OpenError::Spawn => "Failed to spawn decoder thread".to_string(),
    }
}

/// Where opening stands after a run of events, and what the codec library handed out on
/// the way: the file once it is open, the context once it is there, the device once it
/// is made.
pub open spec fn run(purpose: Purpose, use_vaapi: bool, events: Seq<OpenEvent>) -> (
    OpenState,
    Holdings,
)
    decreases events.len(),
{
    if events.len() == 0 {
        (OpenState::OpeningInput, nothing())
    } else {
        let (before, had) = run(purpose, use_vaapi, events.drop_last());
        let e = events.last();
        match next(purpose, use_vaapi, before, e) {
            None => (before, had),
            Some((after, _)) => (
                after,
                match (before, e) {
                    (OpenState::OpeningInput, OpenEvent::Returned(ret)) => Holdings {
                        input: had.input || ret == 0,
                        ..had
                    },
                    (OpenState::AllocatingContext(_), OpenEvent::Given(ok)) => Holdings {
                        context: had.context || ok,
                        ..had
                    },
                    (OpenState::CreatingDevice(_), OpenEvent::Returned(ret)) => Holdings {
                        device: had.device || ret >= 0,
                        ..had
                    },
                    _ => had,
                },
            ),
        }
    }
}

proof fn lemma_held(purpose: Purpose, use_vaapi: bool, events: Seq<OpenEvent>)
    ensures
        ({
            let (s, had) = run(purpose, use_vaapi, events);
            &&& !(s is Over) ==> had == held(s, use_vaapi)
            &&& s is CreatingDevice ==> use_vaapi
        }),
    decreases events.len(),
{
    if events.len() > 0 {
        lemma_held(purpose, use_vaapi, events.drop_last());
    }
}

/// However an attempt came to fail, all that the codec library handed out is given up,
/// but for a file without video and for a thread that does not start.
pub proof fn law_failure_gives_up_everything(
    purpose: Purpose,
    use_vaapi: bool,
    events: Seq<OpenEvent>,
    e: OpenEvent,
)
    ensures
        ({
            let (s, had) = run(purpose, use_vaapi, events);
            match next(purpose, use_vaapi, s, e) {
                Some((_, OpenAction::Fail { error, release })) => error == OpenError::NoVideoStream
                    || error == OpenError::Spawn || release == had,
                _ => true,
            }
        }),
{
    lemma_held(purpose, use_vaapi, events);
}

/// The stream that is worked on, if one was found.
spec fn stream_of(s: OpenState) -> Option<VideoStream> {
    match s {
        OpenState::FindingDecoder(v) => Some(v),
        OpenState::AllocatingContext(v) => Some(v),
        OpenState::CopyingParameters(v) => Some(v),
        OpenState::CreatingDevice(v) => Some(v),
        OpenState::OpeningCodec(v) => Some(v),
        OpenState::Spawning(v, _) => Some(v),
        _ => None,
    }
}

/// The event lists streams of which `v` is the first video stream.
pub open spec fn lists(e: OpenEvent, v: VideoStream) -> bool {
    e matches OpenEvent::Streams(streams) && v == video_stream(streams@) && v.index >= 0
}

proof fn lemma_stream(purpose: Purpose, use_vaapi: bool, events: Seq<OpenEvent>)
    ensures
        stream_of(run(purpose, use_vaapi, events).0) matches Some(v) ==> exists|i: int|
            0 <= i < events.len() && lists(#[trigger] events[i], v),
    decreases events.len(),
{
    if events.len() > 0 {
        let front = events.drop_last();
        lemma_stream(purpose, use_vaapi, front);
        let before = run(purpose, use_vaapi, front).0;
        assert(events[events.len() - 1] == events.last());
        if let Some(v) = stream_of(before) {
            let i = choose|i: int| 0 <= i < front.len() && lists(#[trigger] front[i], v);
            assert(events[i] == front[i]);
        }
    }
}

/// A decoder that runs decodes the first video stream of those that the file lists, and
/// holds a device exactly where hardware decoding was asked for.
pub proof fn law_started_decoder(use_vaapi: bool, events: Seq<OpenEvent>, e: OpenEvent)
    ensures
        next(Purpose::Play, use_vaapi, run(Purpose::Play, use_vaapi, events).0, e) matches Some(
            (_, OpenAction::Started(d)),
        ) ==> {
            &&& d.running
            &&& d.hw_device == use_vaapi
            &&& exists|i: int| 0 <= i < events.len() && lists(#[trigger] events[i], d.stream)
        },
{
    lemma_stream(Purpose::Play, use_vaapi, events);
}

/// The stream that is decoded is the first one of video: it has its number, its codec, its
/// time base and its size, and no stream before it is one of video. Only a file without a
/// stream of video has none.
pub proof fn law_first_video_stream_is_chosen(streams: Seq<StreamInfo>)
    requires
        streams.len() <= i32::MAX,
    ensures
        ({
            let v = video_stream(streams);
            &&& v.index >= 0 ==> {
                &&& v.index < streams.len()
                &&& streams[v.index as int].is_video
                &&& v.codec_id == streams[v.index as int].codec_id
                &&& v.time_base == streams[v.index as int].time_base
                &&& v.width == streams[v.index as int].width
                &&& v.height == streams[v.index as int].height
                &&& forall|j: int| 0 <= j < v.index ==> !(#[trigger] streams[j]).is_video
            }
            &&& v.index < 0 ==> forall|j: int|
                0 <= j < streams.len() ==> !(#[trigger] streams[j]).is_video
        }),
{
    lemma_first_video(streams);
}

proof fn lemma_first_video(streams: Seq<StreamInfo>)
    ensures
        first_video(streams) <= streams.len(),
        first_video(streams) < streams.len() ==> streams[first_video(streams) as int].is_video,
        forall|j: int| 0 <= j < first_video(streams) ==> !(#[trigger] streams[j]).is_video,
    decreases streams.len(),
{
    if streams.len() > 0 && !streams[0].is_video {
        lemma_first_video(streams.skip(1));
        assert forall|j: int| 0 <= j < first_video(streams) implies !(
        #[trigger] streams[j]).is_video by {
            if j > 0 {
                assert(streams.skip(1)[j - 1] == streams[j]);
            }
        }
    }
}

/// A video is opened step by step, each step only after the one before it succeeded: the
/// file, its streams, the decoder for the codec of the video stream, a context with the
/// parameters of the stream, for hardware decoding a device, and the codec.
pub proof fn law_opening_goes_step_by_step(
    purpose: Purpose,
    use_vaapi: bool,
    v: VideoStream,
    ret: i32,
    streams: Vec<StreamInfo>,
    pixel_format: PixelFormat,
)
    ensures
        next(purpose, use_vaapi, OpenState::OpeningInput, OpenEvent::Returned(0)) == Some(
            (OpenState::FindingStreamInfo, OpenAction::FindStreamInfo),
        ),
        ret >= 0 ==> next(
            purpose,
            use_vaapi,
            OpenState::FindingStreamInfo,
            OpenEvent::Returned(ret),
        ) == Some((OpenState::ListingStreams, OpenAction::ListStreams)),
        video_stream(streams@).index >= 0 ==> next(
            purpose,
            use_vaapi,
            OpenState::ListingStreams,
            OpenEvent::Streams(streams),
        ) == Some(
            (
                OpenState::FindingDecoder(video_stream(streams@)),
                OpenAction::FindDecoder(video_stream(streams@).codec_id),
            ),
        ),
        next(
            purpose,
            use_vaapi,
            OpenState::FindingDecoder(v),
            OpenEvent::Given(true),
        ) == Some((OpenState::AllocatingContext(v), OpenAction::AllocContext)),
        next(
            purpose,
            use_vaapi,
            OpenState::AllocatingContext(v),
            OpenEvent::Given(true),
        ) == Some((OpenState::CopyingParameters(v), OpenAction::CopyParameters)),
        ret >= 0 && use_vaapi ==> next(
            purpose,
            use_vaapi,
            OpenState::CopyingParameters(v),
            OpenEvent::Returned(ret),
        ) == Some((OpenState::CreatingDevice(v), OpenAction::CreateDevice)),
        ret >= 0 && !use_vaapi ==> next(
            purpose,
            use_vaapi,
            OpenState::CopyingParameters(v),
            OpenEvent::Returned(ret),
        ) == Some((OpenState::OpeningCodec(v), OpenAction::OpenCodec)),
        ret >= 0 ==> next(
            purpose,
            use_vaapi,
            OpenState::CreatingDevice(v),
            OpenEvent::Returned(ret),
        ) == Some((OpenState::OpeningCodec(v), OpenAction::OpenCodec)),
        ret >= 0 ==> next(
            Purpose::Play,
            use_vaapi,
            OpenState::OpeningCodec(v),
            OpenEvent::CodecOpened { ret, pixel_format },
        ) == Some((OpenState::Spawning(v, pixel_format), OpenAction::Spawn(v))),
        next(
            Purpose::Play,
            use_vaapi,
            OpenState::Spawning(v, pixel_format),
            OpenEvent::Given(true),
        ) == Some(
            (
                OpenState::Over,
                OpenAction::Started(
                    Decoder { running: true, stream: v, pixel_format, hw_device: use_vaapi },
                ),
            ),
        ),
{
}

/// An open codec leads to what the video was opened for, on the stream that was found: a
/// trial of decoding takes thirty frames, and neither trial starts a thread.
pub proof fn law_trials_take_the_open_codec(
    use_vaapi: bool,
    v: VideoStream,
    ret: i32,
    pixel_format: PixelFormat,
)
    requires
        ret >= 0,
    ensures
        next(
            Purpose::CompatCheck,
            use_vaapi,
            OpenState::OpeningCodec(v),
            OpenEvent::CodecOpened { ret, pixel_format },
        ) == Some((OpenState::Over, OpenAction::TryDecoding { stream: v, frames: 30 })),
        next(
            Purpose::RenderCheck,
            use_vaapi,
            OpenState::OpeningCodec(v),
            OpenEvent::CodecOpened { ret, pixel_format },
        ) == Some((OpenState::Over, OpenAction::TryRendering { stream: v })),
{
}

/// Every step that fails ends the attempt with an error of its own, and no other event does:
/// the codec library fails with a negative code, and the file with any but zero.
pub proof fn law_each_failure_has_its_error(
    purpose: Purpose,
    use_vaapi: bool,
    s: OpenState,
    e: OpenEvent,
)
    ensures
        ({
            let failed: Option<OpenError> = match (s, e) {
                (OpenState::OpeningInput, OpenEvent::Returned(ret)) => if ret != 0 {
                    Some(OpenError::OpenInput(ret))
                } else {
                    None
                },
                (OpenState::FindingStreamInfo, OpenEvent::Returned(ret)) => if ret < 0 {
                    Some(OpenError::StreamInfo)
                } else {
                    None
                },
                (OpenState::ListingStreams, OpenEvent::Streams(streams)) => if video_stream(
                    streams@,
                ).index < 0 {
                    Some(OpenError::NoVideoStream)
                } else {
                    None
                },
                (OpenState::FindingDecoder(v), OpenEvent::Given(false)) => Some(
                    OpenError::NoDecoder(v.codec_id),
                ),
                (OpenState::AllocatingContext(_), OpenEvent::Given(false)) => Some(
                    OpenError::AllocContext,
                ),
                (OpenState::CopyingParameters(_), OpenEvent::Returned(ret)) => if ret < 0 {
                    Some(OpenError::CopyParameters)
                } else {
                    None
                },
                (OpenState::CreatingDevice(_), OpenEvent::Returned(ret)) => if ret < 0 {
                    Some(OpenError::CreateDevice)
                } else {
                    None
                },
                (OpenState::OpeningCodec(_), OpenEvent::CodecOpened { ret, .. }) => if ret < 0 {
                    Some(OpenError::OpenCodec)
                } else {
                    None
                },
                (OpenState::Spawning(_, _), OpenEvent::Given(false)) => Some(OpenError::Spawn),
                _ => None,
            };
            match failed {
                Some(error) => next(purpose, use_vaapi, s, e) matches Some(
                    (OpenState::Over, OpenAction::Fail { error: told, .. }),
                ) && told == error,
                None => !(next(purpose, use_vaapi, s, e) matches Some((_, a)) && a is Fail),
            }
        }),
{
}

/// What is given up at a failure is what was taken before it: the file from when it is open,
/// the context from when it is there, and for hardware decoding the device from when the
/// codec is opened.
pub proof fn law_failure_gives_up_what_was_taken(
    purpose: Purpose,
    use_vaapi: bool,
    s: OpenState,
    e: OpenEvent,
)
    ensures
        next(purpose, use_vaapi, s, e) matches Some((_, OpenAction::Fail { error, release })) ==> {
            &&& error is NoVideoStream || error is Spawn ==> !release.input && !release.context
                && !release.device
            &&& error is OpenInput ==> !release.input && !release.context && !release.device
            &&& error is StreamInfo || error is NoDecoder || error is AllocContext
                ==> release.input && !release.context && !release.device
            &&& error is CopyParameters || error is CreateDevice ==> release.input
                && release.context && !release.device
            &&& error is OpenCodec ==> release.input && release.context && release.device
                == use_vaapi
        },
{
}

/// What is said of an attempt that failed: with the path and the library's code where the file
/// cannot be opened, with the codec's number where there is no decoder for it.
pub proof fn law_failed_attempt_is_told(path: Seq<char>, n: i32)
    ensures
        failure_of(OpenError::OpenInput(n), path) == "avformat_open_input failed: "@ + path + " "@
            + text::signed_decimal(n as int),
        failure_of(OpenError::StreamInfo, path) == "avformat_find_stream_info failed"@,
        failure_of(OpenError::NoVideoStream, path) == "No video stream found"@,
        failure_of(OpenError::NoDecoder(n), path) == "No decoder found for codec_id="@
            + text::signed_decimal(n as int),
        failure_of(OpenError::AllocContext, path) == "avcodec_alloc_context3 failed"@,
        failure_of(OpenError::CopyParameters, path) == "avcodec_parameters_to_context failed"@,
        failure_of(OpenError::CreateDevice, path) == "av_hwdevice_ctx_create failed"@,
        failure_of(OpenError::OpenCodec, path) == "avcodec_open2 failed"@,
        failure_of(OpenError::Spawn, path) == "Failed to spawn decoder thread"@,
{
}

} // verus!
