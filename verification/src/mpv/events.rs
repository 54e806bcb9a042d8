//! What is done on an event of mpv, and how its errors read.
use vstd::prelude::*;

use crate::text;

verus! {

/// An event of mpv, as far as it matters.
#[derive(Clone, Copy, Debug, PartialEq, Eq, Structural)]
pub enum MpvEvent {
    /// The file came to its end; it should start over.
    EndFile,
    /// mpv ended.
    Shutdown,
    LogMessage,
    Other,
    /// mpv reports an error instead of an event.
    Failed,
    /// No event waits.
    Nothing,
}

/// What follows an event.
#[derive(Clone, Copy, Debug, PartialEq, Eq, Structural)]
pub struct MpvReaction {
    /// Whether to look for another event.
    pub again: bool,
    /// Whether to stop the main loop.
    pub stop: bool,
}

pub open spec fn ends_round(e: MpvEvent) -> bool {
    e == MpvEvent::Shutdown || e == MpvEvent::Failed || e == MpvEvent::Nothing
}

/// What follows an event, where `main_loop` says whether there is a main loop to stop.
pub open spec fn reaction(e: MpvEvent, main_loop: bool) -> MpvReaction {
    MpvReaction { again: !ends_round(e), stop: e == MpvEvent::Shutdown && main_loop }
}

/// What follows an event: the others are looked at until none waits, mpv reports an error,
/// or mpv ends, which ends the main loop as well.
pub fn process_mpv_events(event: MpvEvent, main_loop: bool) -> (r: MpvReaction)
    ensures
        r == reaction(event, main_loop),
{
    match event {
        MpvEvent::Shutdown => MpvReaction { again: false, stop: main_loop },
        MpvEvent::Failed => MpvReaction { again: false, stop: false },
        MpvEvent::Nothing => MpvReaction { again: false, stop: false },
        _ => MpvReaction { again: true, stop: false },
    }
}

/// The number of events of a round: those up to the first that ends it.
pub open spec fn round_len(events: Seq<MpvEvent>, main_loop: bool) -> nat
    decreases events.len(),
{
    if events.len() == 0 {
        0
    } else if reaction(events[0], main_loop).again {
        1 + round_len(events.skip(1), main_loop)
    } else {
        1
    }
}

proof fn lemma_round_len(events: Seq<MpvEvent>, main_loop: bool)
    ensures
        round_len(events, main_loop) <= events.len(),
    decreases events.len(),
{
    if events.len() > 0 {
        lemma_round_len(events.skip(1), main_loop);
    }
}

/// A round stops the main loop only with its last event, and only because mpv ended.
pub proof fn law_only_shutdown_stops(events: Seq<MpvEvent>, main_loop: bool, i: int)
    requires
        0 <= i < round_len(events, main_loop),
        reaction(events[i], main_loop).stop,
    ensures
        events[i] == MpvEvent::Shutdown,
        i == round_len(events, main_loop) - 1,
    decreases events.len(),
{
    lemma_round_len(events, main_loop);
    if i > 0 {
        assert(events.skip(1)[i - 1] == events[i]);
        law_only_shutdown_stops(events.skip(1), main_loop, i - 1);
    }
}

/// An error of mpv in words, where `description` is what mpv says of the code.
pub fn fmt_mpv_error(code: i32, description: Option<String>) -> (r: String)
    ensures
        r@ == match description {
            Some(d) => "Raw("@ + text::signed_decimal(code as int) + "): "@ + d@,
            None => "Raw("@ + text::signed_decimal(code as int) + ") (unknown)"@,
        },
{
    let mut r = "Raw(".to_string();
    text::push_signed(&mut r, code);
    match description {
        Some(d) => {
            r.append("): ");
            r.append(d.as_str());
        },
        None => {
            r.append(") (unknown)");
        },
    }
    r
}

/// The main loop is stopped exactly where mpv ended and there is one; another event is looked
/// for unless mpv ended, reported an error or has none.
pub proof fn law_reactions(e: MpvEvent, main_loop: bool)
    ensures
        reaction(e, main_loop).stop <==> e == MpvEvent::Shutdown && main_loop,
        reaction(e, main_loop).again <==> e == MpvEvent::EndFile || e == MpvEvent::LogMessage || e
            == MpvEvent::Other,
{
}

} // verus!
