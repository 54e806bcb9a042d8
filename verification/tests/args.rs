use waywall::cli::args::{exit_for, parse, parse_from, usage, Invocation};

fn args(s: &[&str]) -> Vec<String> {
    s.iter().map(|x| x.to_string()).collect()
}

#[test]
fn parse_minimal_video_only() {
    let a = parse_from(args(&["waywall", "video.mp4"])).unwrap();
    assert_eq!(a.video_path, "video.mp4");
    assert!(a.outputs.is_empty());
    assert!(!a.use_vaapi);
    assert!(a.use_gl);
}

#[test]
fn parse_output_single_and_comma() {
    let a = parse_from(args(&["waywall", "-o", "eDP-1,DP-3", "vid.mp4"])).unwrap();
    assert_eq!(a.outputs, vec!["eDP-1", "DP-3"]);

    let b = parse_from(args(&["waywall", "-o", "eDP-1", "-o", "DP-3", "vid.mp4"])).unwrap();
    assert_eq!(b.outputs, vec!["eDP-1", "DP-3"]);

    let c = parse_from(args(&[
        "waywall",
        "--output",
        " eDP-1 , , DP-3 ",
        "vid.mp4",
    ]))
    .unwrap();
    assert_eq!(c.outputs, vec!["eDP-1", "DP-3"]);
}

#[test]
fn parse_flags_vaapi_no_gl() {
    let a = parse_from(args(&["waywall", "--vaapi", "--no-gl", "v.mp4"])).unwrap();
    assert!(a.use_vaapi);
    assert!(!a.use_gl);
}

#[test]
fn parse_missing_output_value_errors() {
    let e = parse_from(args(&["waywall", "-o"])).unwrap_err();
    assert!(e.contains("requires a value"));
}

#[test]
fn parse_unexpected_extra_arg_errors() {
    let e = parse_from(args(&["waywall", "a.mp4", "b.mp4"])).unwrap_err();
    assert!(e.contains("unexpected argument"));
}

#[test]
fn parse_missing_video_errors() {
    let e = parse_from(args(&["waywall", "-o", "eDP-1"])).unwrap_err();
    assert!(e.contains("missing video"));
}

#[test]
fn parse_help_returns_err_help() {
    let e = parse_from(args(&["waywall", "--help", "v.mp4"])).unwrap_err();
    assert_eq!(e, "help");
    let e2 = parse_from(args(&["waywall", "-h"])).unwrap_err();
    assert_eq!(e2, "help");
}

#[test]
fn parse_without_program_name_errors() {
    assert_eq!(parse_from(Vec::new()).unwrap_err(), "missing program name");
}

#[test]
fn comma_list_reads_like_repetition() {
    let list = parse_from(args(&["w", "-o", "a,b,c", "v"])).unwrap();
    let repeated = parse_from(args(&["w", "-o", "a", "-o", "b", "-o", "c", "v"])).unwrap();
    assert_eq!(list, repeated);
}

#[test]
fn output_names_are_trimmed_and_never_empty() {
    let a = parse_from(args(&["w", "-o", "\u{3000} HDMI-A-1\t,,", "v"])).unwrap();
    assert_eq!(a.outputs, vec!["HDMI-A-1"]);
}

#[test]
fn options_follow_the_video_too() {
    let a = parse_from(args(&["w", "v.mp4", "--vaapi", "-o", "DP-1"])).unwrap();
    assert_eq!(a.video_path, "v.mp4");
    assert!(a.use_hwdec());
    assert_eq!(a.outputs, vec!["DP-1"]);
}

#[test]
fn parse_runs_on_a_good_command_line() {
    match parse(args(&["waywall", "v.mp4"])) {
        Invocation::Run(a) => assert_eq!(a.video_path, "v.mp4"),
        Invocation::Exit { .. } => panic!("refused"),
    }
}

#[test]
fn parse_shows_help_and_ends_well() {
    match parse(args(&["waywall", "-h"])) {
        Invocation::Run(_) => panic!("ran"),
        Invocation::Exit { status, message } => {
            assert_eq!(status, 0);
            assert_eq!(message, usage("waywall"));
        }
    }
}

#[test]
fn parse_ends_with_an_error_on_a_bad_command_line() {
    match parse(args(&["waywall"])) {
        Invocation::Run(_) => panic!("ran"),
        Invocation::Exit { status, message } => {
            assert_eq!(status, 1);
            assert!(message.contains("missing video"));
            assert!(message.contains("Usage: waywall"));
        }
    }
}

#[test]
fn exit_status_tells_help_from_errors() {
    assert_eq!(exit_for("help", "U"), (0, "U".to_string()));
    assert_eq!(exit_for("bad", "U").0, 1);
}
