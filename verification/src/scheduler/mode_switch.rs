//! What a change of the mode file leads to.
use vstd::prelude::*;

use crate::config::data::{parse_mode, RuntimeMode};
use crate::scheduler::manager::Event;
use crate::scheduler::state::{mode_change_event, mode_transition};

verus! {

/// The outcome of reading the mode file.
#[derive(Debug, Clone, Copy, PartialEq, Eq)]
pub enum ModeFileOutcome {
    /// The file names no mode; the mode in use stays.
    Unknown,
    /// The file names the mode in use.
    Unchanged,
    /// The file names another mode: it becomes the mode in use, and the event,
    /// if any, applies it now.
    Switched { previous: Option<RuntimeMode>, next: RuntimeMode, event: Option<Event> },
}

/// The outcome that the mode file's text calls for, where `current` is the
/// mode in use: a new mode is taken at once, and applied at once while the
/// screen is on and no game runs.
pub open spec fn mode_file_outcome(
    current: Option<RuntimeMode>,
    content: Seq<char>,
    screen_on: bool,
    is_game: bool,
) -> ModeFileOutcome {
    match parse_mode(content) {
        None => ModeFileOutcome::Unknown,
        Some(next) => if current == Some(next) {
            ModeFileOutcome::Unchanged
        } else {
            ModeFileOutcome::Switched {
                previous: current,
                next,
                event: mode_change_event(screen_on, is_game, next),
            }
        },
    }
}

/// Decides what the mode file's text leads to.
pub fn mode_file_step(current: Option<RuntimeMode>, content: &str, screen_on: bool, is_game: bool) -> (res:
    ModeFileOutcome)
    ensures
        res == mode_file_outcome(current, content@, screen_on, is_game),
{
    let next = match RuntimeMode::parse(content) {
        Some(m) => m,
        None => {
            return ModeFileOutcome::Unknown;
        },
    };
    let same = match current {
        Some(m) => m == next,
        None => false,
    };
    if same {
        return ModeFileOutcome::Unchanged;
    }
    ModeFileOutcome::Switched {
        previous: current,
        next,
        event: mode_transition(screen_on, is_game, next),
    }
}


/// Law: a switch is reported exactly when the text names a mode other than
/// the one in use; the mode it switches to is the one the text names; the
/// only event it may carry applies that new mode, and it carries it exactly
/// when the screen is on and no game runs.
pub proof fn lemma_mode_switch_applies_new_mode(
    current: Option<RuntimeMode>,
    content: Seq<char>,
    screen_on: bool,
    is_game: bool,
)
    ensures
        (mode_file_outcome(current, content, screen_on, is_game) is Switched) <==> (parse_mode(
            content,
        ) is Some && current != parse_mode(content)),
        mode_file_outcome(current, content, screen_on, is_game) matches ModeFileOutcome::Switched {
            previous,
            next,
            event,
        } ==> {
            &&& previous == current
            &&& parse_mode(content) == Some(next)
            &&& (event matches Some(e) ==> e == Event::ApplyMode(next))
            &&& (event is Some <==> (screen_on && !is_game))
        },
        (mode_file_outcome(current, content, screen_on, is_game) is Unknown) <==> parse_mode(
            content,
        ) is None,
{
}

} // verus!
