//! What a look at the window in front leads to.
use vstd::prelude::*;

use crate::config::data::{game_list_issue_from, game_list_message, GameList, RuntimeMode};
use crate::scheduler::manager::Event;
use crate::scheduler::state::{
    entry_matches, game_change_event, game_profile_index, game_transition, profile_of,
    whitelist_position, HARDWARE_GAME_PROFILE,
};

verus! {

/// What one look at the window in front finds and calls for.
pub struct GameObservation {
    /// The position of the game list entry that matched, if one did.
    pub matched: Option<usize>,
    /// Whether a game is in front now.
    pub is_game: bool,
    /// The profile that the matched entry selects, or the hardware profile.
    pub profile: usize,
    /// Whether a game stayed in front under another profile.
    pub profile_changed: bool,
    /// The event to send, if any.
    pub event: Option<Event>,
}

/// Finds the game in front, if any, and decides what follows from the game
/// state and profile seen last time (`previous_is_game`, `previous_profile`).
pub fn observe_window(
    window: &str,
    list: &GameList,
    previous_is_game: bool,
    previous_profile: usize,
    screen_on: bool,
    mode: RuntimeMode,
) -> (res: GameObservation)
    ensures
        res.matched matches Some(i) ==> i < list.listvalue@.len() && entry_matches(
            window@,
            list.listvalue@[i as int],
        ) && forall|j: int| 0 <= j < i ==> !entry_matches(window@, #[trigger] list.listvalue@[j]),
        res.matched is None ==> forall|i: int|
            0 <= i < list.listvalue@.len() ==> !entry_matches(window@, #[trigger] list.listvalue@[i]),
        res.is_game == res.matched is Some,
        res.profile == match res.matched {
            Some(i) => profile_of(list.listvalue@[i as int].mode),
            None => HARDWARE_GAME_PROFILE as nat,
        },
        res.profile_changed == (res.is_game && previous_profile != res.profile),
        res.event == game_change_event(
            previous_is_game,
            res.is_game,
            screen_on,
            mode,
            res.profile as int,
            res.profile_changed,
        ),
{
    let matched = whitelist_position(window, list);
    let entry = match matched {
        Some(k) => Some(&list.listvalue[k]),
        None => None,
    };
    let is_game = matched.is_some();
    let profile = game_profile_index(entry);
    let profile_changed = is_game && previous_profile != profile;
    let event = game_transition(previous_is_game, is_game, screen_on, mode, profile, profile_changed);
    GameObservation { matched, is_game, profile, profile_changed, event }
}

/// Takes a newly read game list in place of the one in use, where it passes
/// validation; a list that fails keeps the one in use and gives the reason.
pub fn replace_game_list(current: &mut GameList, candidate: GameList) -> (res: Result<(), String>)
    ensures
        game_list_issue_from(candidate.listvalue@, 0) is None ==> res is Ok && *final(current)
            == candidate,
        game_list_issue_from(candidate.listvalue@, 0) is Some ==> *final(current) == *old(current),
        game_list_issue_from(candidate.listvalue@, 0) is Some ==> (res matches Err(message)
            && message@ == game_list_message(game_list_issue_from(candidate.listvalue@, 0)->0)),
{
    match candidate.validate() {
        Ok(()) => {
            *current = candidate;
            Ok(())
        },
        Err(message) => Err(message),
    }
}

} // verus!
