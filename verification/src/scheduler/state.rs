//! The scheduling state machine: which event a change of screen, game or
//! mode calls for.
use vstd::prelude::*;

use crate::config::data::{
    mode_at, mode_index, parse_mode, parse_mode_chars, profile_key, profile_key_chars, GameList,
    ListValue, RuntimeMode,
};
use crate::scheduler::manager::Event;
use crate::text::{chars_of, contains, contains_chars, trim, trimmed};

verus! {

/// The profile of a game that wants its hardware range rather than a mode.
pub const HARDWARE_GAME_PROFILE: usize = 4;

/// The profile that a game list entry's mode selects: the index of the mode
/// it names, else the hardware profile.
pub open spec fn profile_of(mode: Option<String>) -> nat {
    match mode {
        Some(m) => match parse_mode(profile_key(m@)) {
            Some(md) => mode_index(md),
            None => HARDWARE_GAME_PROFILE as nat,
        },
        None => HARDWARE_GAME_PROFILE as nat,
    }
}

/// The event that applies a game profile.
pub open spec fn profile_event(profile: int) -> Event {
    match mode_at(profile) {
        Some(m) => Event::ApplyMode(m),
        None => Event::RestoreHardware,
    }
}

/// Whether an entry matches the window in front: its trimmed package name is
/// not empty and stands in the window's description.
pub open spec fn entry_matches(window: Seq<char>, e: ListValue) -> bool {
    trim(e.pkg@).len() > 0 && contains(window, trim(e.pkg@))
}

/// The event that a state calls for: the screen-off ranges while the screen
/// is off, the game's profile during a game, the mode otherwise.
pub open spec fn state_event(screen_on: bool, is_game: bool, mode: RuntimeMode, profile: int) -> Event {
    if !screen_on {
        Event::ApplySleep(mode)
    } else if is_game {
        profile_event(profile)
    } else {
        Event::ApplyMode(mode)
    }
}

/// The event of a game check: none while the screen is off or when neither
/// the game state nor the profile changed; else the game's profile on
/// entering or switching a game, the mode on leaving one.
pub open spec fn game_change_event(
    previous: bool,
    current: bool,
    screen_on: bool,
    mode: RuntimeMode,
    profile: int,
    profile_changed: bool,
) -> Option<Event> {
    if (previous == current && !profile_changed) || !screen_on {
        None
    } else if current {
        Some(profile_event(profile))
    } else {
        Some(Event::ApplyMode(mode))
    }
}

/// The event of a screen sample: none while the screen state is the one last
/// seen, else the event of the new state.
pub open spec fn screen_change_event(
    previous: Option<bool>,
    current: bool,
    is_game: bool,
    mode: RuntimeMode,
    profile: int,
) -> Option<Event> {
    if previous == Some(current) {
        None
    } else {
        Some(state_event(current, is_game, mode, profile))
    }
}

/// The event of a mode change: the mode while the screen is on and no game
/// runs; otherwise the change waits.
pub open spec fn mode_change_event(screen_on: bool, is_game: bool, mode: RuntimeMode) -> Option<Event> {
    if screen_on && !is_game {
        Some(Event::ApplyMode(mode))
    } else {
        None
    }
}

/// The profile of the entry that matched the window in front, if any did.
pub fn game_profile_index(entry: Option<&ListValue>) -> (res: usize)
    ensures
        res == match entry {
            Some(e) => profile_of(e.mode),
            None => HARDWARE_GAME_PROFILE as nat,
        },
{
    match entry {
        Some(e) => match &e.mode {
            Some(m) => match parse_mode_chars(&profile_key_chars(m.as_str())) {
                Some(md) => md.index(),
                None => HARDWARE_GAME_PROFILE,
            },
            None => HARDWARE_GAME_PROFILE,
        },
        None => HARDWARE_GAME_PROFILE,
    }
}

/// The event that applies a game profile.
pub fn game_profile_event(profile: usize) -> (res: Event)
    ensures
        res == profile_event(profile as int),
{
    match RuntimeMode::from_index(profile) {
        Some(m) => Event::ApplyMode(m),
        None => Event::RestoreHardware,
    }
}

/// The position of the first entry of the game list that matches the window in front.
pub fn whitelist_position(current_window: &str, list: &GameList) -> (res: Option<usize>)
    ensures
        match res {
            Some(i) => i < list.listvalue@.len() && entry_matches(
                current_window@,
                list.listvalue@[i as int],
            ) && forall|j: int|
                0 <= j < i ==> !entry_matches(current_window@, #[trigger] list.listvalue@[j]),
            None => forall|i: int|
                0 <= i < list.listvalue@.len() ==> !entry_matches(
                    current_window@,
                    #[trigger] list.listvalue@[i],
                ),
        },
{
    let window = chars_of(current_window);
    let mut i: usize = 0;
    while i < list.listvalue.len()
        invariant
            i <= list.listvalue.len(),
            window@ == current_window@,
            forall|j: int|
                0 <= j < i ==> !entry_matches(current_window@, #[trigger] list.listvalue@[j]),
        decreases list.listvalue.len() - i,
    {
        let package = trimmed(&chars_of(list.listvalue[i].pkg.as_str()));
        if package.len() > 0 && contains_chars(&window, &package) {
            return Some(i);
        }
        i = i + 1;
    }
    None
}

/// The first entry of the game list that matches the window in front.
pub fn is_whitelisted<'a>(current_window: &str, list: &'a GameList) -> (res: Option<&'a ListValue>)
    ensures
        match res {
            Some(e) => exists|i: int|
                0 <= i < list.listvalue@.len() && list.listvalue@[i] == *e && entry_matches(
                    current_window@,
                    list.listvalue@[i],
                ) && forall|j: int|
                    0 <= j < i ==> !entry_matches(current_window@, #[trigger] list.listvalue@[j]),
            None => forall|i: int|
                0 <= i < list.listvalue@.len() ==> !entry_matches(
                    current_window@,
                    #[trigger] list.listvalue@[i],
                ),
        },
{
    match whitelist_position(current_window, list) {
        Some(i) => Some(&list.listvalue[i]),
        None => None,
    }
}

/// The event for the current state.
pub fn event_for_state(screen_on: bool, is_game: bool, mode: RuntimeMode, game_profile: usize) -> (res: Event)
    ensures
        res == state_event(screen_on, is_game, mode, game_profile as int),
{
    if !screen_on {
        Event::ApplySleep(mode)
    } else if is_game {
        game_profile_event(game_profile)
    } else {
        Event::ApplyMode(mode)
    }
}

/// The event that a game check calls for: none while the screen is off or
/// when neither the game state nor the profile changed; else the game's
/// profile on entering or switching a game, the mode on leaving one.
pub fn game_transition(
    previous: bool,
    current: bool,
    screen_on: bool,
    mode: RuntimeMode,
    game_profile: usize,
    profile_changed: bool,
) -> (res: Option<Event>)
    ensures
        res == game_change_event(
            previous,
            current,
            screen_on,
            mode,
            game_profile as int,
            profile_changed,
        ),
{
    if (previous == current && !profile_changed) || !screen_on {
        None
    } else if current {
        Some(game_profile_event(game_profile))
    } else {
        Some(Event::ApplyMode(mode))
    }
}

/// The event that a screen sample calls for: none while the screen state is
/// the one last seen, else the event of the new state.
pub fn screen_transition(
    previous: Option<bool>,
    current: bool,
    is_game: bool,
    mode: RuntimeMode,
    game_profile: usize,
) -> (res: Option<Event>)
    ensures
        res == screen_change_event(previous, current, is_game, mode, game_profile as int),
{
    if previous == Some(current) {
        None
    } else {
        Some(event_for_state(current, is_game, mode, game_profile))
    }
}

/// The event that a mode change calls for: the mode while the screen is on
/// and no game runs; otherwise the change waits.
pub fn mode_transition(screen_on: bool, is_game: bool, mode: RuntimeMode) -> (res: Option<Event>)
    ensures
        res == mode_change_event(screen_on, is_game, mode),
{
    if screen_on && !is_game {
        Some(Event::ApplyMode(mode))
    } else {
        None
    }
}

/// Law: the event that a game, screen or mode change sends is always the
/// event of the state it leads to, so that whatever came last, the hardware
/// ends up as the current state asks.
pub proof fn lemma_transitions_follow_state(
    previous_game: bool,
    current_game: bool,
    previous_screen: Option<bool>,
    screen_on: bool,
    mode: RuntimeMode,
    profile: int,
    profile_changed: bool,
)
    ensures
        game_change_event(previous_game, current_game, screen_on, mode, profile, profile_changed)
            matches Some(e) ==> e == state_event(screen_on, current_game, mode, profile),
        screen_change_event(previous_screen, screen_on, current_game, mode, profile) matches Some(
            e,
        ) ==> e == state_event(screen_on, current_game, mode, profile),
        mode_change_event(screen_on, current_game, mode) matches Some(e) ==> e == state_event(
            screen_on,
            current_game,
            mode,
            profile,
        ),
{
}

/// Law: while the screen is off, no game or mode change touches the
/// hardware and the state's event is the mode's sleep range; during a game a
/// mode change waits; a change to a new screen state always acts.
pub proof fn lemma_screen_off_and_game_hold(
    previous_game: bool,
    current_game: bool,
    previous_screen: Option<bool>,
    screen_on: bool,
    mode: RuntimeMode,
    profile: int,
    profile_changed: bool,
)
    ensures
        game_change_event(previous_game, current_game, false, mode, profile, profile_changed) is None,
        mode_change_event(false, current_game, mode) is None,
        mode_change_event(screen_on, true, mode) is None,
        state_event(false, current_game, mode, profile) == Event::ApplySleep(mode),
        previous_screen != Some(screen_on) ==> screen_change_event(
            previous_screen,
            screen_on,
            current_game,
            mode,
            profile,
        ) is Some,
{
}

/// Law: a game whose entry names a mode runs under that mode, and one whose
/// entry names none (or `hardware`, or anything else) gets the hardware range.
pub proof fn lemma_profile_events(mode: RuntimeMode, entry_mode: Option<String>)
    ensures
        profile_event(mode_index(mode) as int) == Event::ApplyMode(mode),
        profile_event(HARDWARE_GAME_PROFILE as int) == Event::RestoreHardware,
        profile_event(profile_of(entry_mode) as int) == match entry_mode {
            Some(m) => match parse_mode(profile_key(m@)) {
                Some(md) => Event::ApplyMode(md),
                None => Event::RestoreHardware,
            },
            None => Event::RestoreHardware,
        },
{
}

} // verus!
