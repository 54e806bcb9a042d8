use waywall::app::state::App;
use waywall::timing::Timing;
use waywall::wayland::callbacks::{CallbackAction, FrameCallbacks};
use waywall::wayland::dispatch::{ConfigureAnswer, OutputEvent};

fn two_monitors() -> App {
    let mut app = App::new(false, Timing::new(0));
    app.add_output(7);
    app.add_output(8);
    app
}

#[test]
fn events_of_an_output_reach_its_monitor() {
    let mut app = two_monitors();
    app.output_event(8, OutputEvent::Name { name: "DP-1".to_string() });
    app.output_event(8, OutputEvent::Mode { width: 800, height: 600 });
    app.output_event(9, OutputEvent::Mode { width: 1, height: 1 });
    app.output_event(7, OutputEvent::Other);
    assert_eq!(app.monitors[1].name.as_deref(), Some("DP-1"));
    assert_eq!((app.monitors[1].physical_width, app.monitors[1].physical_height), (800, 600));
    assert_eq!(app.monitors[0].physical_width, 0);
}

#[test]
fn the_player_is_configured_with_its_last_monitor() {
    let mut app = two_monitors();
    app.create_layer_shell_surfaces(true);
    let a = app.configure(0, 55, 1280, 720);
    assert_eq!(a, ConfigureAnswer { destination: Some((1280, 720)), commit: true, ack: 55 });
    assert!(app.monitors[0].configured && !app.configured);
    assert_eq!(app.monitors[0].logical_width, 1280);
    app.configure(1, 56, 640, 480);
    assert!(app.configured);
    let late = app.configure(0, 57, 1, 1);
    assert_eq!(late, ConfigureAnswer { destination: None, commit: false, ack: 57 });
    assert_eq!(app.monitors[0].logical_width, 1280);
}

#[test]
fn unknown_surfaces_are_only_acknowledged() {
    let mut app = two_monitors();
    let a = app.configure(5, 3, 10, 10);
    assert_eq!(a, ConfigureAnswer { destination: None, commit: false, ack: 3 });
    assert!(!app.configured);
}

#[test]
fn the_compositors_device_is_kept() {
    let mut app = two_monitors();
    assert!(!app.closed());
    app.main_device(vec![1, 2, 3, 4]);
    assert_eq!(app.dmabuf_main_device, Some(vec![1, 2, 3, 4]));
}

#[test]
fn a_round_of_callbacks_takes_every_monitor() {
    let mut c = FrameCallbacks { pending_wl_callbacks: 3, frame_count: 0 };
    assert_eq!(c.fired(3), CallbackAction::Wait);
    assert_eq!(c.fired(3), CallbackAction::Wait);
    assert_eq!(c.fired(3), CallbackAction::NextRound);
    assert_eq!(c.pending_wl_callbacks, 3);
    c.drawn(&vec![true, false, true]);
    assert_eq!(c.frame_count, 2);
}
