use waywall::app::bootstrap::{
    bootstrap, bootstrap_drm, bootstrap_gl_egl, failure_text, filter_outputs_by_name,
    output_bindings, say_no_outputs, say_unknown_outputs, BootAction, BootError, BootStep, Global,
    OutputError, Pipeline,
};
use waywall::app::state::{App, Monitor};
use waywall::cli::args::parse_from;
use waywall::drm_node::{ClassEntry, DriNode, DrmTree};
use waywall::render::egl::{self, GlAction, GlError, GlInit};
use waywall::timing::Timing;
use waywall::wayland::dispatch::OutputEvent;

fn boot(line: &[&str]) -> Result<(Pipeline, bool), BootError> {
    let args = parse_from(line.iter().map(|s| s.to_string()).collect()).unwrap();
    bootstrap(&args).map(|b| b.pipeline())
}

#[test]
fn the_command_line_chooses_the_pipeline() {
    assert_eq!(boot(&["w", "v"]), Ok((Pipeline::EglGl, false)));
    assert_eq!(boot(&["w", "--vaapi", "v"]), Ok((Pipeline::Drm, true)));
    assert_eq!(boot(&["w", "--vaapi", "--no-gl", "v"]), Ok((Pipeline::Drm, true)));
    assert_eq!(boot(&["w", "--no-gl", "v"]), Err(BootError::NoRenderer));
}

#[test]
fn every_step_is_performed_in_order() {
    let mut b = bootstrap_gl_egl();
    let mut steps = vec![b.current().unwrap()];
    loop {
        match b.advance(true) {
            BootAction::Perform(s) => steps.push(s),
            BootAction::Ready => break,
            other => panic!("{other:?}"),
        }
    }
    assert_eq!(steps.first(), Some(&BootStep::FindVideo));
    assert_eq!(steps.last(), Some(&BootStep::StartDecoder));
    assert_eq!(steps.len(), 17);
    assert!(!steps.contains(&BootStep::BindDmabuf));
    assert_eq!(b.current(), None);
}

fn advance_to(b: &mut waywall::app::bootstrap::Boot, step: BootStep) {
    while b.current() != Some(step) {
        let action = if b.current() == Some(BootStep::ResolveRenderNode) {
            b.take_node(Some("/dev/dri/renderD128".to_string()))
        } else {
            b.advance(true)
        };
        assert!(matches!(action, BootAction::Perform(_)));
    }
}

fn gpu() -> DrmTree {
    let device = || Some("/sys/pci/gpu".to_string());
    DrmTree {
        dri: Some(vec![DriNode {
            path: "/dev/dri/card1".to_string(),
            rdev: Some(0xe201),
            device: device(),
        }]),
        class: Some(vec![ClassEntry {
            name: "renderD129".to_string(),
            dev: Some("226:129".to_string()),
            device: device(),
        }]),
        existing: vec![],
    }
}

#[test]
fn the_decoder_opens_the_device_that_the_compositor_told() {
    let mut app = App::new(true, Timing::new(0));
    app.dmabuf_main_device = Some(0xe201u64.to_ne_bytes().to_vec());
    let mut b = bootstrap_drm(true);
    assert!(b.decoder_start().is_none());
    advance_to(&mut b, BootStep::ResolveRenderNode);
    let (action, error) = b.resolve_render_node(&app, &gpu());
    assert_eq!(action, BootAction::Perform(BootStep::MakeWakeup));
    assert!(error.is_none() && b.decoder_start().is_none());
    advance_to(&mut b, BootStep::StartDecoder);
    let start = b.decoder_start().unwrap();
    assert!(start.use_hwdec);
    assert_eq!(start.render_node.as_deref(), Some("/dev/dri/renderD129"));
    assert_eq!(b.advance(true), BootAction::Ready);

    let mut gl = bootstrap_gl_egl();
    advance_to(&mut gl, BootStep::StartDecoder);
    let start = gl.decoder_start().unwrap();
    assert!(!start.use_hwdec && start.render_node.is_none());
}

#[test]
fn a_device_without_a_render_node_ends_the_attempt() {
    let mut app = App::new(true, Timing::new(0));
    app.dmabuf_main_device = Some(vec![1]);
    let mut b = bootstrap_drm(true);
    advance_to(&mut b, BootStep::ResolveRenderNode);
    let (action, error) = b.resolve_render_node(&app, &gpu());
    assert_eq!(
        action,
        BootAction::Fail { step: BootStep::ResolveRenderNode, destroy_feedback: false }
    );
    assert_eq!(
        error.unwrap().text(&[1]),
        "No /dev/dri node matching main_device ([1]) found"
    );
    let mut c = bootstrap_drm(true);
    advance_to(&mut c, BootStep::ResolveRenderNode);
    assert_eq!(
        c.take_node(None),
        BootAction::Fail { step: BootStep::ResolveRenderNode, destroy_feedback: false }
    );
    assert_eq!(
        failure_text(BootStep::ResolveRenderNode, "v").as_deref(),
        Some("Failed to resolve compositor render node")
    );
}

#[test]
fn a_missing_dmabuf_falls_back_to_gl() {
    let mut b = bootstrap_drm(true);
    advance_to(&mut b, BootStep::BindDmabuf);
    assert_eq!(b.advance(false), BootAction::FallBack(BootStep::FindVideo));
    assert_eq!(b.pipeline(), (Pipeline::EglGl, false));
}

#[test]
fn a_missing_dmabuf_is_fatal_without_gl() {
    let mut b = bootstrap_drm(false);
    advance_to(&mut b, BootStep::BindDmabuf);
    assert_eq!(
        b.advance(false),
        BootAction::Fail { step: BootStep::BindDmabuf, destroy_feedback: false }
    );
    assert_eq!(
        failure_text(BootStep::BindDmabuf, "v.mp4").as_deref(),
        Some("Compositor does not support zwp_linux_dmabuf_v1 v4 (required for drm pipeline)")
    );
}

#[test]
fn a_missing_viewporter_is_no_failure() {
    let mut b = bootstrap_gl_egl();
    advance_to(&mut b, BootStep::BindViewporter);
    assert_eq!(b.advance(false), BootAction::Perform(BootStep::BindOutputs));
}

#[test]
fn the_feedback_is_destroyed_when_the_compositor_is_silent() {
    let mut b = bootstrap_drm(true);
    advance_to(&mut b, BootStep::MainDevice);
    assert_eq!(
        b.advance(false),
        BootAction::Fail { step: BootStep::MainDevice, destroy_feedback: true }
    );
    let mut c = bootstrap_gl_egl();
    advance_to(&mut c, BootStep::Configured);
    assert_eq!(
        c.advance(false),
        BootAction::Fail { step: BootStep::Configured, destroy_feedback: false }
    );
    assert_eq!(failure_text(BootStep::FilterOutputs, "v.mp4"), None);
}

#[test]
fn a_missing_video_is_named() {
    assert_eq!(
        failure_text(BootStep::FindVideo, "/tmp/no such.mp4").as_deref(),
        Some("Video file does not exist: /tmp/no such.mp4")
    );
    assert_eq!(
        failure_text(BootStep::ResolveVideo, "/tmp/v.mp4").as_deref(),
        Some("Error resolving video path")
    );
    assert_eq!(
        failure_text(BootStep::BindLayerShell, "v.mp4").as_deref(),
        Some("zwlr_layer_shell_v1 not available")
    );
    let mut b = bootstrap_gl_egl();
    assert_eq!(b.current(), Some(BootStep::FindVideo));
    assert_eq!(
        b.advance(false),
        BootAction::Fail { step: BootStep::FindVideo, destroy_feedback: false }
    );
}

#[test]
fn the_names_of_outputs_are_listed_in_quotes() {
    let asked = vec!["DP-9".to_string(), "a\"b".to_string(), "eDP-1".to_string()];
    let mut monitors = vec![];
    let e = filter_outputs_by_name(&mut monitors, &asked).unwrap_err();
    assert_eq!(
        e.text(&asked),
        "The following output names do not exist: [\"DP-9\", \"a\\\"b\", \"eDP-1\"]"
    );
    assert_eq!(e.text(&asked), format!("The following output names do not exist: {:?}", asked));
    let none = filter_outputs_by_name(&mut monitors, &vec![]).unwrap_err();
    assert_eq!(
        none.text(&vec![]),
        "No outputs detected. Make sure output names match. Requested: []"
    );
    assert_eq!(
        OutputError::NoOutputs.text(&vec!["DP-1".to_string()]),
        "No outputs detected. Make sure output names match. Requested: [\"DP-1\"]"
    );
    assert_eq!(say_unknown_outputs("[x]"), "The following output names do not exist: [x]");
    assert_eq!(
        say_no_outputs("[]"),
        "No outputs detected. Make sure output names match. Requested: []"
    );
}

#[test]
fn outputs_are_bound_in_a_version_that_is_understood() {
    let g = |name, interface: &str, version| Global { name, interface: interface.to_string(), version };
    let all = vec![g(1, "wl_output", 2), g(2, "wl_seat", 7), g(3, "wl_output", 9)];
    assert_eq!(output_bindings(&all), vec![(1, 2), (3, 4)]);
}

fn monitors(names: &[Option<&str>]) -> Vec<Monitor> {
    names
        .iter()
        .enumerate()
        .map(|(i, n)| {
            let mut m = Monitor::new(i as u32);
            m.name = n.map(|s| s.to_string());
            m
        })
        .collect()
}

fn strings(s: &[&str]) -> Vec<String> {
    s.iter().map(|x| x.to_string()).collect()
}

#[test]
fn outputs_are_kept_by_name_in_their_order() {
    let mut m = monitors(&[Some("DP-1"), None, Some("eDP-1"), Some("DP-2")]);
    assert_eq!(filter_outputs_by_name(&mut m, &strings(&["DP-2", "DP-1"])), Ok(()));
    assert_eq!(m.iter().map(|x| x.output).collect::<Vec<_>>(), vec![Some(0), Some(3)]);
}

#[test]
fn all_outputs_are_kept_without_names() {
    let mut m = monitors(&[Some("DP-1"), None]);
    assert_eq!(filter_outputs_by_name(&mut m, &vec![]), Ok(()));
    assert_eq!(m.len(), 2);
}

#[test]
fn unknown_output_names_are_told() {
    let mut m = monitors(&[Some("DP-1")]);
    assert_eq!(
        filter_outputs_by_name(&mut m, &strings(&["HDMI", "DP-1", "VGA"])),
        Err(OutputError::Unknown(strings(&["HDMI", "VGA"])))
    );
    assert_eq!(m.len(), 1);
}

#[test]
fn no_output_at_all_is_an_error() {
    let mut m = Vec::new();
    assert_eq!(filter_outputs_by_name(&mut m, &vec![]), Err(OutputError::NoOutputs));
}

fn app_with(sizes: &[(i32, i32)]) -> App {
    let mut app = App::new(false, Timing::new(0));
    for (i, &(width, height)) in sizes.iter().enumerate() {
        app.add_output(i as u32);
        app.output_event(i as u32, OutputEvent::Mode { width, height });
    }
    app
}

#[test]
fn surfaces_cover_every_output() {
    let mut app = app_with(&[(2560, 1440), (0, 0), (800, 0)]);
    let settings = app.create_layer_shell_surfaces(true);
    assert_eq!(settings.len(), 3);
    assert_eq!(settings[0].exclusive_zone, -1);
    assert!(settings[2].anchor_left && settings[2].anchor_bottom);
    let sizes: Vec<_> = app.monitors.iter().map(|m| (m.physical_width, m.physical_height)).collect();
    assert_eq!(sizes, vec![(2560, 1440), (1920, 1080), (1920, 1080)]);
    assert!(app.monitors.iter().all(|m| m.surface && m.layer_surface && m.viewport));
    let places: Vec<_> = settings.iter().map(|s| (s.output, s.index)).collect();
    assert_eq!(places, vec![(Some(0), 0), (Some(1), 1), (Some(2), 2)]);
    let mut lone = Monitor::new(41);
    let s = App::create_surfaces(&mut lone, 6, false);
    assert_eq!((s.output, s.index, s.namespace), (Some(41), 6, "mpvwall"));
    assert!(lone.layer_surface && !lone.viewport);
}

fn run_gl(app: &mut App, fail_at: Option<usize>) -> Vec<GlAction> {
    let (mut gl, first) = GlInit::start();
    let mut actions = vec![first];
    let mut i = 0;
    loop {
        match gl.initialize_gl_egl(app, Some(i) != fail_at) {
            Some(a) => actions.push(a),
            None => return actions,
        }
        i += 1;
    }
}

#[test]
fn every_monitor_gets_a_window_of_its_size() {
    let mut app = app_with(&[(2560, 1440), (1280, 720)]);
    app.create_layer_shell_surfaces(false);
    let actions = run_gl(&mut app, None);
    assert_eq!(actions.last(), Some(&GlAction::Ready));
    assert_eq!(actions.iter().filter(|a| **a == GlAction::CreateContext).count(), 1);
    let sizes: Vec<_> = app.render_states.iter().map(|r| (r.width, r.height)).collect();
    assert_eq!(sizes, vec![(2560, 1440), (1280, 720)]);
}

#[test]
fn a_window_falls_back_to_the_logical_size() {
    let mut app = app_with(&[(0, 0)]);
    app.monitors[0].surface = true;
    app.monitors[0].logical_width = 3000;
    app.monitors[0].logical_height = 10;
    run_gl(&mut app, None);
    assert_eq!((app.render_states[0].width, app.render_states[0].height), (3000, 1080));
}

#[test]
fn gl_failures_give_up_what_was_made() {
    let errors = [
        (0, GlError::GetDisplay, (false, false, false)),
        (1, GlError::Initialize, (false, false, false)),
        (2, GlError::BindApi, (false, false, false)),
        (3, GlError::ChooseConfig, (false, false, false)),
        (4, GlError::CreateWindow, (false, false, false)),
        (5, GlError::CreateSurface, (true, false, false)),
        (6, GlError::CreateContext, (false, false, false)),
        (7, GlError::MakeCurrent, (true, true, true)),
    ];
    for (at, error, (window, surface, context)) in errors {
        let mut app = app_with(&[(640, 480)]);
        app.create_layer_shell_surfaces(false);
        let actions = run_gl(&mut app, Some(at));
        assert_eq!(actions.last(), Some(&GlAction::Fail { error, window, surface, context }));
        assert!(app.render_states.is_empty());
    }
    let mut app = app_with(&[(640, 480)]);
    assert_eq!(
        run_gl(&mut app, None).last(),
        Some(&GlAction::Fail { error: GlError::NoSurface, window: false, surface: false, context: false })
    );
    assert_eq!(egl::failure_text(GlError::MakeCurrent), "eglMakeCurrent failed");
}

#[test]
fn egl_attributes_end_with_the_end_mark() {
    let c = egl::config_attributes();
    assert_eq!(c.len(), 15);
    assert_eq!(c.last(), Some(&egl::EGL_NONE));
    assert_eq!(egl::context_attributes(), vec![0x3098, 3, 0x30FB, 3, 0x3038]);
}

#[test]
fn the_first_events_of_the_compositor() {
    let mut app = app_with(&[(640, 480)]);
    assert!(!app.is_settled(Pipeline::EglGl));
    app.configure(0, 1, 640, 480);
    assert!(app.is_settled(Pipeline::EglGl));
    assert!(!app.is_settled(Pipeline::Drm));
    app.main_device(vec![0; 8]);
    assert!(app.is_settled(Pipeline::Drm));
}
