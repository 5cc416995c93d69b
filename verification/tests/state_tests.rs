use finalizer::config::data::{GameList, ListValue, RuntimeMode};
use finalizer::scheduler::manager::Event;
use finalizer::scheduler::state::{
    event_for_state, game_profile_event, game_profile_index, game_transition, is_whitelisted,
    mode_transition, screen_transition, HARDWARE_GAME_PROFILE,
};

fn entry(pkg: &str, name: &str, mode: Option<&str>) -> ListValue {
    ListValue {
        pkg: pkg.to_string(),
        name: name.to_string(),
        mode: mode.map(|m| m.to_string()),
    }
}

#[test]
fn whitelist_matches_any_entry_regardless_of_order() {
    let list = GameList {
        listvalue: vec![
            entry("first.pkg", "First", None),
            entry("target.pkg", "Target", None),
            entry("last.pkg", "Last", None),
        ],
    };
    assert!(is_whitelisted("Window{ target.pkg/Main }", &list).is_some());
}

#[test]
fn whitelist_ignores_empty_package_names() {
    let list = GameList {
        listvalue: vec![entry("   ", "Empty", None)],
    };
    assert!(is_whitelisted("Window{ regular.pkg/Main }", &list).is_none());
}

#[test]
fn game_entry_restores_hardware_only_when_screen_is_on() {
    assert_eq!(
        game_transition(false, true, true, RuntimeMode::Balance, HARDWARE_GAME_PROFILE, false),
        Some(Event::RestoreHardware)
    );
    assert_eq!(
        game_transition(false, true, false, RuntimeMode::Balance, HARDWARE_GAME_PROFILE, false),
        None
    );
}

#[test]
fn game_exit_applies_latest_mode() {
    assert_eq!(
        game_transition(true, false, true, RuntimeMode::Fast, HARDWARE_GAME_PROFILE, false),
        Some(Event::ApplyMode(RuntimeMode::Fast))
    );
}

#[test]
fn wake_restores_hardware_for_game() {
    assert_eq!(
        screen_transition(Some(false), true, true, RuntimeMode::Power, HARDWARE_GAME_PROFILE),
        Some(Event::RestoreHardware)
    );
}

#[test]
fn first_off_sample_applies_sleep() {
    assert_eq!(
        screen_transition(None, false, false, RuntimeMode::Performance, HARDWARE_GAME_PROFILE),
        Some(Event::ApplySleep(RuntimeMode::Performance))
    );
}

#[test]
fn mode_change_is_deferred_during_game() {
    assert_eq!(mode_transition(true, true, RuntimeMode::Fast), None);
    assert_eq!(
        mode_transition(true, false, RuntimeMode::Fast),
        Some(Event::ApplyMode(RuntimeMode::Fast))
    );
}

#[test]
fn configured_game_profile_applies_selected_mode() {
    assert_eq!(
        game_transition(false, true, true, RuntimeMode::Power, RuntimeMode::Performance.index(), false),
        Some(Event::ApplyMode(RuntimeMode::Performance))
    );
}

#[test]
fn game_profile_is_trimmed_and_case_insensitive() {
    let e = entry("example.game", "Example", Some(" Performance "));
    assert_eq!(game_profile_index(Some(&e)), RuntimeMode::Performance.index());
}

#[test]
fn whitelist_returns_first_matching_entry() {
    let list = GameList {
        listvalue: vec![
            entry("other.pkg", "Other", None),
            entry("game", "Short", None),
            entry("game.pkg", "Long", None),
        ],
    };
    let found = is_whitelisted("Window{ u0 game.pkg/Main }", &list).unwrap();
    assert_eq!(found.name, "Short");
    assert!(is_whitelisted("Window{ u0 launcher/Main }", &list).is_none());
}

#[test]
fn whitelist_trims_package_names() {
    let list = GameList {
        listvalue: vec![entry("  target.pkg \n", "Target", None)],
    };
    assert!(is_whitelisted("Window{ target.pkg/Main }", &list).is_some());
}

#[test]
fn game_profile_defaults_to_hardware() {
    assert_eq!(game_profile_index(None), HARDWARE_GAME_PROFILE);
    assert_eq!(game_profile_index(Some(&entry("a", "A", None))), HARDWARE_GAME_PROFILE);
    assert_eq!(game_profile_index(Some(&entry("a", "A", Some("hardware")))), HARDWARE_GAME_PROFILE);
    assert_eq!(game_profile_index(Some(&entry("a", "A", Some("turbo")))), HARDWARE_GAME_PROFILE);
    assert_eq!(game_profile_index(Some(&entry("a", "A", Some("FAST")))), RuntimeMode::Fast.index());
    assert_eq!(game_profile_index(Some(&entry("a", "A", Some("\tpowersave")))), 0);
}

#[test]
fn game_profile_events() {
    assert_eq!(game_profile_event(0), Event::ApplyMode(RuntimeMode::Power));
    assert_eq!(game_profile_event(1), Event::ApplyMode(RuntimeMode::Balance));
    assert_eq!(game_profile_event(2), Event::ApplyMode(RuntimeMode::Performance));
    assert_eq!(game_profile_event(3), Event::ApplyMode(RuntimeMode::Fast));
    assert_eq!(game_profile_event(HARDWARE_GAME_PROFILE), Event::RestoreHardware);
    assert_eq!(game_profile_event(99), Event::RestoreHardware);
}

#[test]
fn event_for_each_state() {
    assert_eq!(event_for_state(false, true, RuntimeMode::Fast, 2), Event::ApplySleep(RuntimeMode::Fast));
    assert_eq!(event_for_state(true, true, RuntimeMode::Fast, 2), Event::ApplyMode(RuntimeMode::Performance));
    assert_eq!(event_for_state(true, true, RuntimeMode::Fast, 4), Event::RestoreHardware);
    assert_eq!(event_for_state(true, false, RuntimeMode::Balance, 2), Event::ApplyMode(RuntimeMode::Balance));
}

#[test]
fn repeated_states_send_nothing() {
    assert_eq!(screen_transition(Some(true), true, false, RuntimeMode::Power, 4), None);
    assert_eq!(game_transition(true, true, true, RuntimeMode::Power, 4, false), None);
    assert_eq!(
        game_transition(true, true, true, RuntimeMode::Power, 1, true),
        Some(Event::ApplyMode(RuntimeMode::Balance))
    );
    assert_eq!(mode_transition(false, false, RuntimeMode::Power), None);
}
