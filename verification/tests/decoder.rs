use waywall::decoder::codes::{AVERROR_EAGAIN, AVERROR_EOF};
use waywall::decoder::compat::{
    self, CompatAction, CompatCheck, CompatError, CompatEvent, CompatHoldings,
};
use waywall::decoder::format::{
    pix_fmt_name, pix_fmt_number, vaapi_get_format, wants_hardware, HwFrames, HwFramesAction,
    HwFramesEvent, HwFramesSettings, PixelFormat,
};
use waywall::decoder::opening::{
    self, device_path, set_video_stream, Decoder, Holdings, OpenAction, OpenError, OpenEvent,
    Opening, StreamInfo, VideoStream,
};
use waywall::decoder::play::{drain_decoder, DecodeLoop, DrainAction, PlayAction, PlayEvent};
use waywall::decoder::render_check::{
    self, RenderAction, RenderCheck, RenderError, RenderEvent, RenderHoldings,
};
use waywall::drm_frame::{DrmObject, FrameDescriptor, LayerDescriptor, PlaneDescriptor};
use waywall::frame_queue::FrameQueue;
use waywall::timing::Rational;

// ---------------------------------------------------------------------------
// Formats

#[test]
fn hardware_frames_are_preferred_where_they_can_be_had() {
    let offered = vec![PixelFormat::Other(5), PixelFormat::Vaapi, PixelFormat::Yuv420p];
    assert!(wants_hardware(true, &offered));
    assert_eq!(vaapi_get_format(true, &offered, true), PixelFormat::Vaapi);
    assert_eq!(vaapi_get_format(true, &offered, false), PixelFormat::Yuv420p);
    assert!(!wants_hardware(false, &offered));
    assert_eq!(vaapi_get_format(false, &offered, true), PixelFormat::Yuv420p);
}

#[test]
fn the_first_software_format_is_taken() {
    let offered = vec![
        PixelFormat::Other(99),
        PixelFormat::P010le,
        PixelFormat::Nv12,
        PixelFormat::NoFormat,
    ];
    assert_eq!(vaapi_get_format(true, &offered, true), PixelFormat::P010le);
    assert_eq!(
        vaapi_get_format(false, &vec![PixelFormat::Yuv420p10le], true),
        PixelFormat::Yuv420p10le
    );
}

#[test]
fn formats_behind_the_end_of_the_list_do_not_count() {
    let offered = vec![PixelFormat::NoFormat, PixelFormat::Vaapi, PixelFormat::Nv12];
    assert!(!wants_hardware(true, &offered));
    assert_eq!(vaapi_get_format(true, &offered, true), PixelFormat::NoFormat);
}

#[test]
fn names_of_formats() {
    assert_eq!(pix_fmt_number(23), 23);
    assert_eq!(pix_fmt_number(266), 266);
    assert_eq!(pix_fmt_number(267), -1);
    assert_eq!(pix_fmt_number(-2), -1);
    assert_eq!(pix_fmt_name(23, Some("nv12".to_string())), "nv12");
    assert_eq!(pix_fmt_name(-7, None), "unknown(-7)");
}

fn answer(ret: i32, frames: bool) -> HwFramesEvent {
    HwFramesEvent { ret, frames }
}

#[test]
fn hardware_frames_as_the_codec_wants_them() {
    let (mut f, first) = HwFrames::start(1920, 1080);
    assert_eq!(first, HwFramesAction::GetParameters);
    assert_eq!(f.try_init_vaapi_hw(answer(0, true)), Some(HwFramesAction::Init));
    assert_eq!(f.try_init_vaapi_hw(answer(0, true)), Some(HwFramesAction::Adopt));
    assert_eq!(f.try_init_vaapi_hw(answer(0, true)), None);
}

#[test]
fn hardware_frames_made_by_hand() {
    let (mut f, _) = HwFrames::start(1280, 720);
    assert_eq!(f.try_init_vaapi_hw(answer(-1, true)), Some(HwFramesAction::Allocate { unref: true }));
    assert_eq!(
        f.try_init_vaapi_hw(answer(0, true)),
        Some(HwFramesAction::Configure(HwFramesSettings {
            format: PixelFormat::Vaapi,
            sw_format: PixelFormat::Nv12,
            width: 1280,
            height: 720,
            initial_pool_size: 16,
        }))
    );
    assert_eq!(f.try_init_vaapi_hw(answer(-5, true)), Some(HwFramesAction::Refuse { unref: true }));
    let (mut g, _) = HwFrames::start(1, 1);
    g.try_init_vaapi_hw(answer(-1, false));
    assert_eq!(g.try_init_vaapi_hw(answer(0, false)), Some(HwFramesAction::Refuse { unref: false }));
}

// ---------------------------------------------------------------------------
// Opening

fn stream(is_video: bool, codec_id: i32) -> StreamInfo {
    StreamInfo { is_video, codec_id, time_base: Rational { num: 1, den: 90000 }, width: 640, height: 360 }
}

fn streams() -> OpenEvent {
    OpenEvent::Streams(vec![stream(false, 1), stream(true, 27), stream(true, 173)])
}

fn found() -> VideoStream {
    VideoStream {
        index: 1,
        codec_id: 27,
        time_base: Rational { num: 1, den: 90000 },
        width: 640,
        height: 360,
    }
}

fn ok_events() -> Vec<OpenEvent> {
    vec![
        OpenEvent::Returned(0),
        OpenEvent::Returned(0),
        streams(),
        OpenEvent::Given(true),
        OpenEvent::Given(true),
        OpenEvent::Returned(0),
    ]
}

fn run_open(mut o: Opening, events: Vec<OpenEvent>) -> OpenAction {
    let mut last = None;
    for e in events {
        last = o.advance(e);
        assert!(last.is_some());
    }
    last.unwrap()
}

#[test]
fn the_first_video_stream_is_taken() {
    assert_eq!(set_video_stream(&vec![stream(false, 1), stream(true, 27), stream(true, 173)]), found());
    assert_eq!(set_video_stream(&vec![stream(false, 1)]).index, -1);
}

#[test]
fn a_video_is_opened_in_software() {
    let (o, first) = Decoder::start(false);
    assert_eq!(first, OpenAction::OpenInput);
    let mut events = ok_events();
    events.push(OpenEvent::CodecOpened { ret: 0, pixel_format: PixelFormat::Yuv420p });
    events.push(OpenEvent::Given(true));
    let OpenAction::Started(mut d) = run_open(o, events) else { panic!("not started") };
    assert_eq!(d.stream, found());
    assert_eq!(d.pixel_format, PixelFormat::Yuv420p);
    assert!(d.running && !d.hw_device);
    d.stop();
    assert!(!d.running);
}

#[test]
fn a_video_is_opened_on_the_gpu() {
    let (mut o, _) = Decoder::start(true);
    for e in ok_events() {
        o.advance(e);
    }
    assert_eq!(o.advance(OpenEvent::Returned(0)), Some(OpenAction::OpenCodec));
    assert_eq!(
        o.advance(OpenEvent::CodecOpened { ret: 0, pixel_format: PixelFormat::Vaapi }),
        Some(OpenAction::Spawn(found()))
    );
    assert_eq!(
        o.advance(OpenEvent::Given(false)),
        Some(OpenAction::Fail {
            error: OpenError::Spawn,
            release: Holdings { device: false, context: false, input: false },
        })
    );
}

#[test]
fn failures_to_open_give_up_what_is_held() {
    let held = |device, context, input| Holdings { device, context, input };
    let cases = vec![
        (0, OpenEvent::Returned(-2), OpenError::OpenInput(-2), held(false, false, false)),
        (1, OpenEvent::Returned(-1), OpenError::StreamInfo, held(false, false, true)),
        (2, OpenEvent::Streams(vec![]), OpenError::NoVideoStream, held(false, false, false)),
        (3, OpenEvent::Given(false), OpenError::NoDecoder(27), held(false, false, true)),
        (4, OpenEvent::Given(false), OpenError::AllocContext, held(false, false, true)),
        (5, OpenEvent::Returned(-1), OpenError::CopyParameters, held(false, true, true)),
        (6, OpenEvent::Returned(-1), OpenError::CreateDevice, held(false, true, true)),
    ];
    for (n, event, error, release) in cases {
        let (o, _) = Decoder::start(true);
        let mut events: Vec<_> = ok_events().into_iter().take(n).collect();
        events.push(event);
        assert_eq!(run_open(o, events), OpenAction::Fail { error, release });
    }
    let (o, _) = Decoder::start(true);
    let mut events = ok_events();
    events.push(OpenEvent::Returned(0));
    events.push(OpenEvent::CodecOpened { ret: -1, pixel_format: PixelFormat::NoFormat });
    assert_eq!(
        run_open(o, events),
        OpenAction::Fail { error: OpenError::OpenCodec, release: held(true, true, true) }
    );
}

#[test]
fn trials_begin_once_the_codec_is_open() {
    let opened = || OpenEvent::CodecOpened { ret: 0, pixel_format: PixelFormat::Vaapi };
    let (o, _) = Decoder::start_vaapi_check(false);
    let mut events = ok_events();
    events.push(opened());
    assert_eq!(run_open(o, events), OpenAction::TryDecoding { stream: found(), frames: 30 });
    let (o, _) = Decoder::start_vaapi_render_check(true);
    let mut events = ok_events();
    events.push(OpenEvent::Returned(0));
    events.push(opened());
    assert_eq!(run_open(o, events), OpenAction::TryRendering { stream: found() });
    assert_eq!(Decoder::start_vaapi_render_check(false).1, OpenAction::Skip);
}

#[test]
fn events_out_of_turn_change_nothing() {
    let (mut o, _) = Decoder::start(false);
    assert_eq!(o.advance(OpenEvent::Given(true)), None);
    assert_eq!(o.advance(OpenEvent::Returned(0)), Some(OpenAction::FindStreamInfo));
}

#[test]
fn what_is_said_of_a_video_that_does_not_open() {
    assert_eq!(
        opening::failure_text(OpenError::OpenInput(-2), "v.mp4"),
        "avformat_open_input failed: v.mp4 -2"
    );
    assert_eq!(opening::failure_text(OpenError::NoDecoder(27), "v"), "No decoder found for codec_id=27");
    assert_eq!(opening::failure_text(OpenError::NoVideoStream, "v"), "No video stream found");
    assert_eq!(device_path(None), "/dev/dri/renderD129");
    assert_eq!(device_path(Some("/dev/dri/renderD128".to_string())), "/dev/dri/renderD128");
}

// ---------------------------------------------------------------------------
// Playing

fn playing() -> DecodeLoop {
    let (mut p, first) = DecodeLoop::start(2);
    assert_eq!(first, PlayAction::AllocPacket);
    assert_eq!(p.decode_loop(PlayEvent::Allocated(true)), Some(PlayAction::CheckRunning));
    assert_eq!(p.decode_loop(PlayEvent::Running(true)), Some(PlayAction::Read));
    p
}

fn steps(p: &mut DecodeLoop, events: &[PlayEvent]) -> Vec<PlayAction> {
    events.iter().map(|e| p.decode_loop(*e).unwrap()).collect()
}

#[test]
fn a_packet_is_sent_and_drained() {
    let mut p = playing();
    assert_eq!(
        steps(
            &mut p,
            &[
                PlayEvent::WasRead { ret: 0, stream: 2 },
                PlayEvent::Sent(AVERROR_EAGAIN),
                PlayEvent::Drained { closed: false },
                PlayEvent::Sent(0),
                PlayEvent::Done,
                PlayEvent::Drained { closed: false },
            ]
        ),
        vec![
            PlayAction::Send,
            PlayAction::Drain,
            PlayAction::Send,
            PlayAction::Unref,
            PlayAction::Drain,
            PlayAction::CheckRunning,
        ]
    );
}

#[test]
fn the_end_of_the_file_starts_the_next_round() {
    let mut p = playing();
    assert_eq!(
        steps(
            &mut p,
            &[
                PlayEvent::WasRead { ret: AVERROR_EOF, stream: 0 },
                PlayEvent::Done,
                PlayEvent::Drained { closed: false },
                PlayEvent::Done,
                PlayEvent::Done,
                PlayEvent::Running(false),
            ]
        ),
        vec![
            PlayAction::SendEnd,
            PlayAction::Drain,
            PlayAction::SeekStart,
            PlayAction::Flush,
            PlayAction::CheckRunning,
            PlayAction::Finish { error: false },
        ]
    );
}

#[test]
fn other_packets_and_refused_ones_are_emptied() {
    let mut p = playing();
    assert_eq!(
        steps(&mut p, &[PlayEvent::WasRead { ret: 0, stream: 1 }, PlayEvent::Done]),
        vec![PlayAction::Unref, PlayAction::CheckRunning]
    );
    assert_eq!(
        steps(
            &mut p,
            &[
                PlayEvent::Running(true),
                PlayEvent::WasRead { ret: 0, stream: 2 },
                PlayEvent::Sent(-22),
                PlayEvent::Done,
            ]
        ),
        vec![PlayAction::Read, PlayAction::Send, PlayAction::Unref, PlayAction::CheckRunning]
    );
}

#[test]
fn ends_of_the_decoding_loop() {
    let mut p = playing();
    assert_eq!(
        p.decode_loop(PlayEvent::WasRead { ret: -5, stream: 0 }),
        Some(PlayAction::Finish { error: true })
    );
    assert_eq!(p.decode_loop(PlayEvent::Running(true)), None);
    let (mut q, _) = DecodeLoop::start(0);
    assert_eq!(q.decode_loop(PlayEvent::Allocated(false)), Some(PlayAction::Abandon));
    let mut r = playing();
    steps(&mut r, &[PlayEvent::WasRead { ret: 0, stream: 2 }, PlayEvent::Sent(AVERROR_EAGAIN)]);
    assert_eq!(
        r.decode_loop(PlayEvent::Drained { closed: true }),
        Some(PlayAction::Finish { error: false })
    );
}

#[test]
fn frames_are_drained_into_the_queue() {
    let mut q = FrameQueue::new();
    assert_eq!(drain_decoder(&mut q, None), DrainAction::Receive(0));
    assert_eq!(drain_decoder(&mut q, Some(0)), DrainAction::Receive(1));
    assert_eq!(drain_decoder(&mut q, Some(0)), DrainAction::Receive(2));
    assert_eq!(drain_decoder(&mut q, Some(0)), DrainAction::Wait);
    assert_eq!(q.len(), 3);
    q.commit_read();
    assert_eq!(drain_decoder(&mut q, None), DrainAction::Receive(0));
    assert_eq!(drain_decoder(&mut q, Some(AVERROR_EAGAIN)), DrainAction::Stop { closed: false });
    assert_eq!(q.len(), 2);
    q.close();
    assert_eq!(drain_decoder(&mut q, None), DrainAction::Stop { closed: true });
}

// ---------------------------------------------------------------------------
// Trials

fn described(object_index: i32) -> Option<FrameDescriptor> {
    Some(FrameDescriptor {
        objects: vec![DrmObject { fd: 3, size: 1, format_modifier: 0 }],
        layers: vec![LayerDescriptor {
            format: 1,
            planes: vec![PlaneDescriptor { object_index, offset: 0, pitch: 64 }],
        }],
    })
}

fn trial(frames: i32) -> (CompatCheck, CompatAction) {
    let (mut c, first) = CompatCheck::start(0, frames);
    assert_eq!(first, CompatAction::Alloc);
    let a = c
        .vaapi_compat_check(CompatEvent::Allocated { packet: true, frame: true, drm_frame: true })
        .unwrap();
    (c, a)
}

fn all_held() -> CompatHoldings {
    CompatHoldings {
        frame: true,
        drm_frame: true,
        packet: true,
        context: true,
        device: true,
        input: true,
    }
}

#[test]
fn a_trial_decodes_as_many_frames_as_wanted() {
    let (mut c, a) = trial(2);
    assert_eq!(a, CompatAction::Read);
    let mut step = |e| c.vaapi_compat_check(e).unwrap();
    assert_eq!(step(CompatEvent::WasRead { ret: 0, stream: 0 }), CompatAction::Send);
    assert_eq!(step(CompatEvent::Sent(0)), CompatAction::UnrefPacket);
    assert_eq!(step(CompatEvent::Done), CompatAction::Receive);
    assert_eq!(step(CompatEvent::Received(0)), CompatAction::MapFrame);
    assert_eq!(step(CompatEvent::Mapped { ret: 0, desc: described(0) }), CompatAction::UnrefMapped);
    assert_eq!(step(CompatEvent::Done), CompatAction::UnrefFrame);
    assert_eq!(step(CompatEvent::Done), CompatAction::Receive);
    assert_eq!(step(CompatEvent::Received(0)), CompatAction::MapFrame);
    assert_eq!(step(CompatEvent::Mapped { ret: -38, desc: None }), CompatAction::UnrefFrame);
    assert_eq!(step(CompatEvent::Done), CompatAction::Finish { decoded: 2, release: all_held() });
    assert_eq!(compat::summary(2, 2), "VAAPI compat: decoded 2/2 frames successfully");
}

#[test]
fn a_trial_takes_the_last_frames_at_the_end_of_the_file() {
    let (mut c, _) = trial(5);
    let mut step = |e| c.vaapi_compat_check(e).unwrap();
    assert_eq!(step(CompatEvent::WasRead { ret: 0, stream: 9 }), CompatAction::UnrefPacket);
    assert_eq!(step(CompatEvent::Done), CompatAction::Read);
    assert_eq!(step(CompatEvent::WasRead { ret: AVERROR_EOF, stream: 0 }), CompatAction::SendEnd);
    assert_eq!(step(CompatEvent::Done), CompatAction::Receive);
    assert_eq!(step(CompatEvent::Received(0)), CompatAction::UnrefFrame);
    assert_eq!(step(CompatEvent::Done), CompatAction::Receive);
    assert_eq!(
        step(CompatEvent::Received(AVERROR_EOF)),
        CompatAction::Finish { decoded: 1, release: all_held() }
    );
}

#[test]
fn a_trial_of_no_frames_is_over_at_once() {
    assert_eq!(trial(0).1, CompatAction::Finish { decoded: 0, release: all_held() });
    assert_eq!(trial(-3).1, CompatAction::Finish { decoded: 0, release: all_held() });
}

#[test]
fn failures_of_a_trial() {
    let (mut c, _) = CompatCheck::start(0, 1);
    assert_eq!(
        c.vaapi_compat_check(CompatEvent::Allocated { packet: true, frame: false, drm_frame: true }),
        Some(CompatAction::Fail {
            error: CompatError::Alloc,
            release: CompatHoldings { frame: false, ..all_held() },
        })
    );
    let (mut c, _) = trial(1);
    let mut step = |e| c.vaapi_compat_check(e).unwrap();
    step(CompatEvent::WasRead { ret: 0, stream: 0 });
    step(CompatEvent::Sent(AVERROR_EAGAIN));
    step(CompatEvent::Done);
    step(CompatEvent::Received(0));
    assert!(matches!(
        step(CompatEvent::Mapped { ret: 0, desc: described(1) }),
        CompatAction::Fail { error: CompatError::InvalidObjectIndex, .. }
    ));
    let (mut c, _) = trial(1);
    let mut step = |e| c.vaapi_compat_check(e).unwrap();
    step(CompatEvent::WasRead { ret: 0, stream: 0 });
    step(CompatEvent::Sent(-1));
    assert_eq!(step(CompatEvent::Done), CompatAction::Finish { decoded: 0, release: all_held() });
    assert_eq!(compat::failure_text(CompatError::Alloc), "Failed to allocate frames or packet");
    assert_eq!(compat::failure_text(CompatError::InvalidObjectIndex), "Invalid object_index in plane");
}

fn showing() -> RenderCheck {
    let (mut c, first) = RenderCheck::start(0);
    assert_eq!(first, RenderAction::Alloc);
    assert_eq!(
        c.vaapi_render_check(RenderEvent::Allocated { packet: true, frame: true }),
        Some(RenderAction::Read)
    );
    c
}

fn received(ret: i32) -> RenderEvent {
    RenderEvent::Received { ret, width: 1920, height: 1080 }
}

fn render_held(converted: bool) -> RenderHoldings {
    RenderHoldings { converted, frame: true, packet: true, context: true, device: true, input: true }
}

fn render_nothing() -> RenderHoldings {
    RenderHoldings {
        converted: false,
        frame: false,
        packet: false,
        context: false,
        device: false,
        input: false,
    }
}

/// The trial, up to the frame that was received.
fn with_frame() -> RenderCheck {
    let mut c = showing();
    let mut step = |e| c.vaapi_render_check(e).unwrap();
    assert_eq!(step(RenderEvent::WasRead { ret: 0, stream: 0 }), RenderAction::Send);
    assert_eq!(step(RenderEvent::Done), RenderAction::UnrefPacket);
    assert_eq!(step(RenderEvent::Done), RenderAction::Receive);
    assert_eq!(step(received(AVERROR_EAGAIN)), RenderAction::Read);
    assert_eq!(step(RenderEvent::WasRead { ret: AVERROR_EOF, stream: 0 }), RenderAction::SendEnd);
    assert_eq!(step(RenderEvent::Done), RenderAction::Receive);
    assert_eq!(step(received(0)), RenderAction::CreateConverter { width: 1920, height: 1080 });
    c
}

#[test]
fn one_frame_is_shown_for_three_seconds() {
    let mut c = with_frame();
    let mut step = |e| c.vaapi_render_check(e).unwrap();
    assert_eq!(step(RenderEvent::Succeeded(true)), RenderAction::Convert);
    assert_eq!(step(RenderEvent::Succeeded(true)), RenderAction::MapFrame);
    assert_eq!(
        step(RenderEvent::Mapped(Some(1920))),
        RenderAction::Show { width: 1920, height: 1088 }
    );
    assert_eq!(step(RenderEvent::Done), RenderAction::Roundtrip);
    assert_eq!(step(RenderEvent::Succeeded(true)), RenderAction::CheckTime);
    assert_eq!(step(RenderEvent::Elapsed(2999)), RenderAction::Sleep { millis: 50 });
    assert_eq!(step(RenderEvent::Done), RenderAction::CheckTime);
    assert_eq!(
        step(RenderEvent::Elapsed(3000)),
        RenderAction::Finish { release: render_held(true) }
    );
}

#[test]
fn failures_of_showing_a_frame() {
    let (mut c, _) = RenderCheck::start(0);
    assert_eq!(
        c.vaapi_render_check(RenderEvent::Allocated { packet: false, frame: true }),
        Some(RenderAction::Fail { error: RenderError::Alloc, release: render_nothing() })
    );
    let mut c = showing();
    assert_eq!(
        c.vaapi_render_check(RenderEvent::WasRead { ret: -5, stream: 0 }),
        Some(RenderAction::Fail { error: RenderError::NoFrame, release: render_held(false) })
    );
    let mut c = with_frame();
    assert_eq!(
        c.vaapi_render_check(RenderEvent::Succeeded(false)),
        Some(RenderAction::Fail { error: RenderError::CreateConverter, release: render_nothing() })
    );
    let mut c = with_frame();
    c.vaapi_render_check(RenderEvent::Succeeded(true));
    assert_eq!(
        c.vaapi_render_check(RenderEvent::Succeeded(false)),
        Some(RenderAction::Fail { error: RenderError::Convert, release: render_nothing() })
    );
    let mut c = with_frame();
    c.vaapi_render_check(RenderEvent::Succeeded(true));
    c.vaapi_render_check(RenderEvent::Succeeded(true));
    assert_eq!(
        c.vaapi_render_check(RenderEvent::Mapped(None)),
        Some(RenderAction::Fail {
            error: RenderError::MapFrame,
            release: RenderHoldings { converted: true, ..render_nothing() },
        })
    );
    let mut c = with_frame();
    c.vaapi_render_check(RenderEvent::Succeeded(true));
    c.vaapi_render_check(RenderEvent::Succeeded(true));
    c.vaapi_render_check(RenderEvent::Mapped(Some(8)));
    c.vaapi_render_check(RenderEvent::Done);
    assert_eq!(
        c.vaapi_render_check(RenderEvent::Succeeded(false)),
        Some(RenderAction::Fail { error: RenderError::Roundtrip, release: render_held(true) })
    );
    assert_eq!(
        render_check::failure_text(RenderError::NoFrame),
        Some("Could not decode a single frame to display.")
    );
    assert_eq!(render_check::failure_text(RenderError::Convert), None);
}
