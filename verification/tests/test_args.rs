use waywall::app::bootstrap::Pipeline;
use waywall::cli::test_args::{parse, parse_from, usage, TestInvocation};

fn args(s: &[&str]) -> Vec<String> {
    s.iter().map(|x| x.to_string()).collect()
}

#[test]
fn defaults_are_drm_and_60_frames() {
    let a = parse_from(args(&["waywall-drm-test", "video.mp4"])).unwrap();
    assert_eq!(a.frames, 60);
    assert!(!a.use_egl_gl);
    assert_eq!(a.prod.video_path, "video.mp4");
}

#[test]
fn backend_egl_gl_sets_flag() {
    let a = parse_from(args(&["waywall-drm-test", "--backend", "egl-gl", "v.mp4"])).unwrap();
    assert!(a.use_egl_gl);
}

#[test]
fn backend_drm_clears_flag() {
    let a = parse_from(args(&[
        "waywall-drm-test",
        "--backend",
        "egl-gl",
        "--backend",
        "drm",
        "v.mp4",
    ]))
    .unwrap();
    assert!(!a.use_egl_gl);
}

#[test]
fn backend_invalid_errors() {
    let e =
        parse_from(args(&["waywall-drm-test", "--backend", "vulkan", "v.mp4"])).unwrap_err();
    assert!(e.contains("invalid --backend"), "unexpected: {e}");
}

#[test]
fn backend_missing_value_errors() {
    let e = parse_from(args(&["waywall-drm-test", "--backend"])).unwrap_err();
    assert!(e.contains("requires a value"), "unexpected: {e}");
}

#[test]
fn frames_custom_value() {
    let a = parse_from(args(&["waywall-drm-test", "--frames", "120", "v.mp4"])).unwrap();
    assert_eq!(a.frames, 120);
}

#[test]
fn frames_zero_errors() {
    let e = parse_from(args(&["waywall-drm-test", "--frames", "0", "v.mp4"])).unwrap_err();
    assert_eq!(e, "frames must be >= 1");
}

#[test]
fn frames_invalid_errors() {
    let e = parse_from(args(&["waywall-drm-test", "--frames", "abc", "v.mp4"])).unwrap_err();
    assert!(e.contains("invalid --frames"), "unexpected: {e}");
}

#[test]
fn frames_missing_value_errors() {
    let e = parse_from(args(&["waywall-drm-test", "--frames"])).unwrap_err();
    assert!(e.contains("requires a value"), "unexpected: {e}");
}

#[test]
fn prod_flags_still_delegate() {
    let a = parse_from(args(&[
        "waywall-drm-test",
        "-o",
        "eDP-1,DP-3",
        "--vaapi",
        "--backend",
        "egl-gl",
        "--frames",
        "10",
        "video.mp4",
    ]))
    .unwrap();
    assert_eq!(a.prod.outputs, vec!["eDP-1", "DP-3"]);
    assert!(a.prod.use_vaapi);
    assert!(a.use_egl_gl);
    assert_eq!(a.frames, 10);
}

#[test]
fn help_propagates_from_prod() {
    let e = parse_from(args(&["waywall-drm-test", "--help"])).unwrap_err();
    assert_eq!(e, "help");
}

#[test]
fn missing_program_name_errors() {
    let e = parse_from(Vec::<String>::new()).unwrap_err();
    assert_eq!(e, "missing program name");
}

#[test]
fn plain_command_line_is_that_of_the_player() {
    let line = args(&["waywall-drm-test", "--no-gl", "-o", "DP-1", "v.mp4"]);
    let plain = waywall::cli::args::parse_from(line.clone()).unwrap();
    assert_eq!(parse_from(line).unwrap().prod, plain);
}

#[test]
fn frames_are_never_zero() {
    for n in ["1", "+7", "18446744073709551615"] {
        let a = parse_from(args(&["t", "--frames", n, "v"])).unwrap();
        assert!(a.frames >= 1);
    }
    let e = parse_from(args(&["t", "--frames", "18446744073709551616", "v"])).unwrap_err();
    assert!(e.contains("invalid --frames"));
}

#[test]
fn test_run_shows_help_and_ends_well() {
    match parse(args(&["t", "--help"])) {
        TestInvocation::Run(_) => panic!("ran"),
        TestInvocation::Exit { status, message } => {
            assert_eq!(status, 0);
            assert_eq!(message, usage("t"));
        }
    }
}

#[test]
fn test_run_starts_on_a_good_command_line() {
    match parse(args(&["t", "--frames", "3", "v.mp4"])) {
        TestInvocation::Run(a) => assert_eq!(a.frames, 3),
        TestInvocation::Exit { .. } => panic!("refused"),
    }
}

#[test]
fn the_backend_is_the_pipeline_under_test() {
    let drm = parse_from(args(&["t", "v"])).unwrap();
    assert_eq!(drm.backend(), Pipeline::Drm);
    let gl = parse_from(args(&["t", "--backend", "egl-gl", "v"])).unwrap();
    assert_eq!(gl.backend(), Pipeline::EglGl);
}
