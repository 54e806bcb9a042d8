use waywall::logging::directives::can_parse;
use waywall::logging::{
    choose_filter, init, init_prod, init_test, try_init, try_init_prod, try_init_test,
    FilterSource,
};
use waywall::mpv::events::{fmt_mpv_error, process_mpv_events, MpvEvent};

fn some(s: &str) -> Option<String> {
    Some(s.to_string())
}

#[test]
fn the_environment_says_what_is_logged() {
    assert_eq!(init_prod(some("debug")), some("debug"));
    assert_eq!(init_test(some("waywall=trace,calloop=off")), some("waywall=trace,calloop=off"));
    assert_eq!(init("warn", some("")), some(""));
}

#[test]
fn the_default_is_logged_without_a_readable_environment() {
    assert_eq!(init_prod(None), some("waywall=info"));
    assert_eq!(init_test(None), some("waywall=debug"));
    assert_eq!(init_prod(some("waywall=loud")), some("waywall=info"));
    assert_eq!(init("warn", some("a=b=c")), some("warn"));
}

#[test]
fn nothing_readable_is_no_filter() {
    assert_eq!(init("waywall=loud", None), None);
    assert_eq!(init("waywall=loud", some("waywall=louder")), None);
}

#[test]
fn directives_that_the_logging_library_can_be_given() {
    for s in ["", "info", "waywall=debug,calloop=off", " info, waywall = trace", "\u{e9}=info"] {
        assert!(can_parse(s), "{}", s);
        assert!(init_prod(some(s)).is_some());
    }
    for s in [" \u{e9}", " [a]", "  [\u{e9}]", "info, \u{e9}"] {
        assert!(can_parse(s), "{}", s);
        assert_eq!(init_prod(some(s)), some(s));
    }
    let refused = [
        "\u{a0}",
        " a=\u{e9}",
        "\u{a0}waywall=info",
        "   \u{e9}=info",
        " \u{20ac}=info",
        "a=b=c, \u{e9}=info",
        " [a{b=(}]=\u{e9}",
    ];
    for s in refused {
        assert!(can_parse(s), "{}", s);
        assert_eq!(init_prod(some(s)), some("waywall=info"), "{}", s);
        assert_eq!(try_init_test(some(s)), Some(some("waywall=debug")), "{}", s);
    }
}

#[test]
fn directives_that_would_be_cut_inside_a_character() {
    let cut = [
        " \u{e9}=info",
        "  \u{e9}=info",
        "info, \u{e9}=debug",
        "\u{a0}x=info",
        "a,\tb\u{fc}[c]",
        " [\u{e9}]",
        "\u{3000}[a{b}]",
    ];
    for s in cut {
        assert!(!can_parse(s), "{}", s);
        assert_eq!(try_init_prod(some(s)), None);
        assert_eq!(try_init_test(some(s)), None);
        assert_eq!(try_init("warn", some(s)), None);
        assert_eq!(try_init(s, None), None);
        assert_eq!(try_init(s, some("waywall=loud")), None);
        assert_eq!(try_init(s, some("warn")), Some(some("warn")));
        assert_eq!(init(s, some("warn")), some("warn"));
    }
    assert_eq!(try_init_prod(None), Some(some("waywall=info")));
    assert_eq!(try_init("waywall=loud", None), Some(None));
}

#[test]
fn short_directives_are_read_or_known_to_be_cut() {
    let letters = [' ', '\u{a0}', '\u{e9}', 'a', '=', '[', ']', '{', '}', ','];
    let mut texts = vec![String::new()];
    for _ in 0..4 {
        let mut longer: Vec<String> = Vec::new();
        for t in &texts {
            for c in letters {
                longer.push(format!("{}{}", t, c));
            }
        }
        for t in &longer {
            if let Some(chosen) = try_init_prod(some(t)) {
                assert!(chosen == some(t) || chosen == some("waywall=info"));
            } else {
                assert!(t.contains(' ') || t.contains('\u{a0}'));
            }
        }
        texts = longer;
    }
}

#[test]
fn sources_of_directives() {
    assert_eq!(choose_filter(Some(true), false), FilterSource::Environment);
    assert_eq!(choose_filter(Some(false), true), FilterSource::Default);
    assert_eq!(choose_filter(None, true), FilterSource::Default);
    assert_eq!(choose_filter(None, false), FilterSource::Invalid);
}

#[test]
fn mpv_events_are_taken_until_none_waits() {
    for e in [MpvEvent::EndFile, MpvEvent::LogMessage, MpvEvent::Other] {
        let r = process_mpv_events(e, true);
        assert!(r.again && !r.stop);
    }
    for e in [MpvEvent::Failed, MpvEvent::Nothing] {
        let r = process_mpv_events(e, true);
        assert!(!r.again && !r.stop);
    }
    let r = process_mpv_events(MpvEvent::Shutdown, true);
    assert!(!r.again && r.stop);
    assert!(!process_mpv_events(MpvEvent::Shutdown, false).stop);
}

#[test]
fn mpv_errors_in_words() {
    assert_eq!(fmt_mpv_error(-9, some("property unavailable")), "Raw(-9): property unavailable");
    assert_eq!(fmt_mpv_error(-99, None), "Raw(-99) (unknown)");
}
