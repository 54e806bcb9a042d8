use waywall::app::buffers::{self, BufferPlan, FillStage};
use waywall::app::state::{App, BufferError};
use waywall::decoder::format::PixelFormat;
use waywall::drm_frame::{DrmFrame, DrmObject, FrameDescriptor, LayerDescriptor, PlaneDescriptor};
use waywall::frame_queue::FrameQueue;
use waywall::runtime::drm_present::{FrameEnd, PresentAction, PresentEvent, Presenter};
use waywall::runtime::event_loop::{
    build_common_loop, can_schedule, common_loop, finish_frame, on_egl_gl_frame, take_stats,
    FrameDecision, GlFramePlan, ShaderKind,
};
use waywall::runtime::grace::{may_present, GraceAction, GraceTimer, Verdict};
use waywall::timing::{Rational, Timing, NO_PTS_VALUE};

fn player() -> App {
    let mut timing = Timing::new(0);
    timing.configure(Rational { num: 1, den: 1000 });
    App::new(true, timing)
}

fn frame(width: i32) -> DrmFrame {
    let desc = FrameDescriptor {
        objects: vec![DrmObject { fd: 9, size: 1, format_modifier: 1 << 40 }],
        layers: vec![LayerDescriptor {
            format: 0x34325258,
            planes: vec![PlaneDescriptor { object_index: 0, offset: 0, pitch: 4096 }],
        }],
    };
    DrmFrame::map(true, 0, &Some(desc), width, 1080, 0).ok().unwrap()
}

#[test]
fn frames_are_shown_when_they_are_due() {
    let mut app = player();
    let mut q = FrameQueue::new();
    assert_eq!(common_loop(&mut app, &mut q, 5, 0, 0, 0), FrameDecision::Idle);
    q.commit_write();
    assert!(can_schedule(&app, 40, 100, 101, 102));
    assert_eq!(
        common_loop(&mut app, &mut q, 40, 100, 101, 102),
        FrameDecision::Show { slot: 0, delay_us: 39_998 }
    );
    assert_eq!(q.len(), 1);
    assert_eq!(finish_frame(&mut app, &mut q, true), 0);
    assert_eq!((q.len(), app.committed_frames), (0, 1));
}

#[test]
fn late_frames_are_given_back() {
    let mut app = player();
    let mut q = FrameQueue::new();
    q.commit_write();
    q.commit_write();
    common_loop(&mut app, &mut q, 0, 0, 0, 0);
    assert_eq!(
        common_loop(&mut app, &mut q, 10, 0, 0, 60_001),
        FrameDecision::Dropped { slot: 0 }
    );
    assert_eq!(
        common_loop(&mut app, &mut q, 10, 0, 0, 60_000),
        FrameDecision::Show { slot: 1, delay_us: 0 }
    );
    assert_eq!((app.committed_frames, app.dropped_frames), (0, 0));
}

#[test]
fn the_next_round_starts_the_schedule_anew() {
    let mut app = player();
    let mut q = FrameQueue::new();
    q.commit_write();
    common_loop(&mut app, &mut q, 5_000, 0, 0, 0);
    assert_eq!(
        common_loop(&mut app, &mut q, 0, 0, 9_000_000, 9_000_000),
        FrameDecision::Show { slot: 0, delay_us: 0 }
    );
    assert_eq!(
        common_loop(&mut app, &mut q, NO_PTS_VALUE, 0, 9, 9),
        FrameDecision::Show { slot: 0, delay_us: 0 }
    );
}

#[test]
fn only_known_formats_are_drawn() {
    assert_eq!(
        on_egl_gl_frame(PixelFormat::Yuv420p, 0),
        GlFramePlan::Draw { shader: ShaderKind::Yuv420p, make_textures: true }
    );
    assert_eq!(
        on_egl_gl_frame(PixelFormat::Nv12, 2),
        GlFramePlan::Draw { shader: ShaderKind::Nv12, make_textures: false }
    );
    assert_eq!(on_egl_gl_frame(PixelFormat::Vaapi, 3), GlFramePlan::Skip);
}

#[test]
fn statistics_start_over_each_time() {
    let mut app = player();
    let mut q = FrameQueue::new();
    assert_eq!(take_stats(&mut app, 7).elapsed_us, 5_000_000);
    app.last_stats_time = None;
    build_common_loop(&mut app);
    assert!(app.main_loop_signal && app.closed());
    assert_eq!(app.last_stats_time, None);
    app.last_stats_time = Some(1_000);
    q.commit_write();
    q.commit_write();
    finish_frame(&mut app, &mut q, true);
    finish_frame(&mut app, &mut q, false);
    let s = take_stats(&mut app, 5_001_000);
    assert_eq!((s.frames, s.elapsed_us), (1, 5_000_000));
    assert_eq!((app.frames_per_stats_sample, app.committed_frames), (0, 1));
}

fn present(app: &mut App, q: &mut FrameQueue, id: u32) -> PresentAction {
    q.commit_write();
    let mut p = Presenter::new();
    let mut a = p.on_drm_frame(app, q, PresentEvent::Begin { width: 1920, height: 1080 }).unwrap();
    loop {
        let e = match a {
            PresentAction::GetHwFrames => PresentEvent::HwFrames(true),
            PresentAction::CreateConverter { width, height } => {
                assert_eq!((width, height), (1920, 1080));
                PresentEvent::Converter(true)
            }
            PresentAction::Fill(_) => PresentEvent::Filled(Ok(frame(1920))),
            PresentAction::CreateBuffer { width, height, format, .. } => {
                assert_eq!((width, height, format), (1920, 1080, 0x34325258));
                let r = p.plane_requests().unwrap();
                assert_eq!((r[0].fd, r[0].modifier_hi, r[0].modifier_lo), (9, 256, 0));
                PresentEvent::BufferCreated(id)
            }
            PresentAction::Show { wl_buffer, width, height } => {
                assert_eq!((wl_buffer, width, height), (id, 1920, 1080));
                PresentEvent::Done
            }
            PresentAction::Finish { .. } => return a,
        };
        a = p.on_drm_frame(app, q, e).unwrap();
    }
}

fn end_of(a: PresentAction) -> FrameEnd {
    match a {
        PresentAction::Finish { end, .. } => end,
        _ => panic!("not over"),
    }
}

#[test]
fn buffers_are_made_then_used_again() {
    let mut app = player();
    let mut q = FrameQueue::new();
    assert_eq!(app.acquire_or_create_buffer(), Err(BufferError::NoConverter));
    assert_eq!(BufferError::NoConverter.text(), "VaapiConverter not initialized");
    for id in [11, 12, 13] {
        assert_eq!(end_of(present(&mut app, &mut q, id)), FrameEnd::Shown);
    }
    assert_eq!(app.wl_buffer_states.count(), (3, 0));
    assert_eq!(end_of(present(&mut app, &mut q, 14)), FrameEnd::NoBuffer);
    app.release_buffer(12);
    assert_eq!(app.acquire_or_create_buffer(), Ok(Some(BufferPlan::Reuse(1))));
    assert_eq!(end_of(present(&mut app, &mut q, 15)), FrameEnd::Shown);
    app.release_buffer(12);
    assert_eq!(app.wl_buffer_states.count(), (3, 0));
    app.release_buffer(15);
    assert_eq!(app.wl_buffer_states.count(), (3, 1));
    assert_eq!((app.committed_frames, q.len()), (4, 0));
}

#[test]
fn a_reused_buffer_is_destroyed_first() {
    let mut app = player();
    let mut q = FrameQueue::new();
    present(&mut app, &mut q, 21);
    app.release_buffer(21);
    q.commit_write();
    let mut p = Presenter::new();
    assert_eq!(
        p.on_drm_frame(&mut app, &mut q, PresentEvent::Begin { width: 1, height: 1 }),
        Some(PresentAction::Fill(BufferPlan::Reuse(0)))
    );
    assert!(matches!(
        p.on_drm_frame(&mut app, &mut q, PresentEvent::Filled(Ok(frame(8)))),
        Some(PresentAction::CreateBuffer { retired: Some(21), width: 8, .. })
    ));
    assert_eq!(p.on_drm_frame(&mut app, &mut q, PresentEvent::Done), None);
}

#[test]
fn failures_of_showing_end_the_frame() {
    let mut app = player();
    let mut q = FrameQueue::new();
    build_common_loop(&mut app);
    q.commit_write();
    let mut p = Presenter::new();
    p.on_drm_frame(&mut app, &mut q, PresentEvent::Begin { width: 1, height: 1 });
    assert_eq!(
        p.on_drm_frame(&mut app, &mut q, PresentEvent::HwFrames(false)),
        Some(PresentAction::Finish { slot: 0, end: FrameEnd::NoHwFrames, stop: true })
    );
    q.commit_write();
    let mut p = Presenter::new();
    p.on_drm_frame(&mut app, &mut q, PresentEvent::Begin { width: 1, height: 1 });
    p.on_drm_frame(&mut app, &mut q, PresentEvent::HwFrames(true));
    assert_eq!(
        p.on_drm_frame(&mut app, &mut q, PresentEvent::Converter(false)),
        Some(PresentAction::Finish { slot: 1, end: FrameEnd::NoConverter, stop: true })
    );
    q.commit_write();
    let mut p = Presenter::new();
    p.on_drm_frame(&mut app, &mut q, PresentEvent::Begin { width: 1, height: 1 });
    p.on_drm_frame(&mut app, &mut q, PresentEvent::HwFrames(true));
    p.on_drm_frame(&mut app, &mut q, PresentEvent::Converter(true));
    let end = FrameEnd::NotFilled(BufferPlan::Create(0), FillStage::DrmMap);
    assert_eq!(
        p.on_drm_frame(&mut app, &mut q, PresentEvent::Filled(Err(FillStage::DrmMap))),
        Some(PresentAction::Finish { slot: 2, end, stop: false })
    );
    assert_eq!((app.committed_frames, q.len()), (0, 0));
    assert_eq!(
        buffers::failure_text(BufferPlan::Create(0), FillStage::DrmMap),
        "Drm map alloc failed"
    );
    assert_eq!(
        buffers::failure_text(BufferPlan::Reuse(0), FillStage::Convert),
        "VaapiConvert reuse failed"
    );
}

#[test]
fn a_test_run_ends_after_the_grace_time() {
    let mut app = player();
    let mut q = FrameQueue::new();
    build_common_loop(&mut app);
    let (mut g, first) = GraceTimer::new();
    assert_eq!(first, 500);
    assert_eq!(g.poll(&app, 2), GraceAction::Again { millis: 500 });
    assert!(may_present(app.committed_frames, 2));
    present(&mut app, &mut q, 1);
    assert!(may_present(app.committed_frames, 2));
    present(&mut app, &mut q, 2);
    assert!(!may_present(app.committed_frames, 2));
    assert!(!may_present(0, 0));
    assert_eq!(g.poll(&app, 2), GraceAction::Again { millis: 2000 });
    assert_eq!(
        g.poll(&app, 2),
        GraceAction::Over { verdict: Verdict::NoneReleased { total: 2 }, stop: true }
    );
    app.release_buffer(1);
    assert_eq!(
        g.poll(&app, 2),
        GraceAction::Over { verdict: Verdict::Released { free: 1, total: 2 }, stop: true }
    );
    assert_eq!(
        g.poll(&app, 60),
        GraceAction::Over { verdict: Verdict::Unexpected { expected: 60, total: 2 }, stop: true }
    );
}
