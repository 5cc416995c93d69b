use finalizer::config::data::{
    Blan, Config, Fast, GameList, ListValue, Log, MPolicy, Mode, Name, Perf, Policy, Power,
    RuntimeMode,
};
use finalizer::logger::{format_record, LogLevel, Logger};
use finalizer::scheduler::game_moniter::{observe_window, replace_game_list};
use finalizer::scheduler::log_config::{level_update, report_is_new, LevelUpdate};
use finalizer::scheduler::manager::{plan_event, reports_success, Event, HardwareAction};
use finalizer::scheduler::mode_switch::{mode_file_step, ModeFileOutcome};

fn tuning(max_freq: u32, governor: &str) -> MPolicy {
    MPolicy {
        delay: 100,
        max_freq,
        min_freq: 384_000,
        can_boost_freq: 1_000_000,
        boost_freq: 1_996_800,
        margin_bits: 2.0f32.to_bits(),
        diff: 70_000,
        governor: governor.to_string(),
        sleep_freq: 960_000,
    }
}

fn config() -> Config {
    Config {
        name: Name { name: "n".to_string(), version: "1".to_string(), author: "a".to_string() },
        log: Log { level: "info".to_string() },
        policy: vec![Policy { from: 0, to: 5 }, Policy { from: 6, to: 7 }],
        mode: Mode {
            power: Power { idle_governor: "menu".to_string(), policy: vec![tuning(2_400_000, "p0"), tuning(2_400_000, "p6")] },
            blan: Blan { idle_governor: "teo".to_string(), policy: vec![tuning(2_918_400, "b0"), tuning(3_072_000, "b6")] },
            perf: Perf { idle_governor: "menu".to_string(), policy: vec![tuning(3_321_600, "x0")] },
            fast: Fast { idle_governor: "ladder".to_string(), policy: vec![tuning(3_321_600, "f0"), tuning(3_532_800, "f6")] },
        },
    }
}

fn describe(actions: &[HardwareAction]) -> Vec<String> {
    actions
        .iter()
        .map(|a| match a {
            HardwareAction::SetGovernor(p, g) => format!("gov {p} {g}"),
            HardwareAction::SetLimits(p, (lo, hi)) => format!("lim {p} {lo} {hi}"),
            HardwareAction::SetIdleGovernor(g) => format!("idle {g}"),
            HardwareAction::RestoreHardwareLimits => "restore".to_string(),
        })
        .collect()
}

#[test]
fn apply_mode_pairs_clusters_with_the_modes_tunings() {
    let c = config();
    assert_eq!(
        describe(&plan_event(&c, Event::ApplyMode(RuntimeMode::Fast))),
        vec!["gov 0 f0", "lim 0 384000 3321600", "gov 6 f6", "lim 6 384000 3532800", "idle ladder"]
    );
    assert_eq!(
        describe(&plan_event(&c, Event::EndBoost(RuntimeMode::Balance))),
        vec!["gov 0 b0", "lim 0 384000 2918400", "gov 6 b6", "lim 6 384000 3072000", "idle teo"]
    );
    assert_eq!(
        describe(&plan_event(&c, Event::ApplyMode(RuntimeMode::Performance))),
        vec!["gov 0 x0", "lim 0 384000 3321600", "idle menu"]
    );
}

#[test]
fn other_events_plan_single_writes() {
    let c = config();
    assert_eq!(describe(&plan_event(&c, Event::ApplySleep(RuntimeMode::Power))), vec!["lim 0 384000 960000", "lim 6 384000 960000"]);
    assert_eq!(describe(&plan_event(&c, Event::RestoreHardware)), vec!["restore"]);
    assert_eq!(describe(&plan_event(&c, Event::Boost((6, (1, 2))))), vec!["lim 6 1 2"]);
    assert_eq!(describe(&plan_event(&c, Event::SetFreq((0, (3, 4))))), vec!["lim 0 3 4"]);
    assert!(reports_success(&Event::ApplyMode(RuntimeMode::Power)));
    assert!(reports_success(&Event::RestoreHardware));
    assert!(reports_success(&Event::ApplySleep(RuntimeMode::Power)));
    assert!(!reports_success(&Event::SetFreq((0, (3, 4)))));
    assert!(!reports_success(&Event::Boost((0, (3, 4)))));
}

fn written(logger: &mut Logger) -> String {
    logger
        .take_pending()
        .iter()
        .map(|r| format_record("2026-01-01 00:00:00", r) + "\n")
        .collect()
}

#[test]
fn default_level_writes_info_and_above() {
    let mut logger = Logger::new("/tmp/finalizer-logger-levels.log");
    assert_eq!(logger.level(), LogLevel::Info);
    assert_eq!(logger.path(), "/tmp/finalizer-logger-levels.log");
    logger.info("started".to_string());
    logger.warn("limited".to_string());
    logger.error("failed".to_string());
    logger.debug("details".to_string());
    let content = written(&mut logger);
    assert!(content.contains("[INFO] started"));
    assert!(content.contains("[WARN] limited"));
    assert!(content.contains("[ERROR] failed"));
    assert!(!content.contains("[DEBUG] details"));
    assert!(written(&mut logger).is_empty());
}

#[test]
fn debug_level_writes_debug_messages() {
    let mut logger = Logger::new("/tmp/finalizer-logger-debug.log");
    logger.set_level(LogLevel::Debug);
    logger.debug("details".to_string());
    assert!(written(&mut logger).contains("[DEBUG] details"));
}

#[test]
fn configured_level_filters_less_important_messages() {
    let mut logger = Logger::new("/tmp/finalizer-logger-filter.log");
    logger.set_level(LogLevel::Warn);
    logger.debug("debug".to_string());
    logger.info("info".to_string());
    logger.warn("warn".to_string());
    logger.error("error".to_string());
    let content = written(&mut logger);
    assert!(!content.contains("[DEBUG]"));
    assert!(!content.contains("[INFO]"));
    assert!(content.contains("[WARN] warn"));
    assert!(content.contains("[ERROR] error"));
}

#[test]
fn log_lines_are_stamped_and_tagged() {
    let mut logger = Logger::new("log");
    logger.error("boom".to_string());
    assert_eq!(written(&mut logger), "[2026-01-01 00:00:00] [ERROR] boom\n");
}

#[test]
fn level_names_and_labels() {
    for level in [LogLevel::Error, LogLevel::Warn, LogLevel::Info, LogLevel::Debug] {
        assert_eq!(LogLevel::parse(level.name()), Some(level));
    }
    assert_eq!(LogLevel::Debug.label(), "DEBUG");
    assert_eq!(LogLevel::Warn.name(), "warn");
}

#[test]
fn mode_file_changes() {
    assert_eq!(mode_file_step(None, "fast\n", true, false), ModeFileOutcome::Switched {
        previous: None,
        next: RuntimeMode::Fast,
        event: Some(Event::ApplyMode(RuntimeMode::Fast)),
    });
    assert_eq!(mode_file_step(Some(RuntimeMode::Fast), "fast", true, false), ModeFileOutcome::Unchanged);
    assert_eq!(mode_file_step(Some(RuntimeMode::Fast), "turbo", true, false), ModeFileOutcome::Unknown);
    assert_eq!(mode_file_step(Some(RuntimeMode::Fast), "balance", true, true), ModeFileOutcome::Switched {
        previous: Some(RuntimeMode::Fast),
        next: RuntimeMode::Balance,
        event: None,
    });
    assert_eq!(mode_file_step(Some(RuntimeMode::Fast), "balance", false, false), ModeFileOutcome::Switched {
        previous: Some(RuntimeMode::Fast),
        next: RuntimeMode::Balance,
        event: None,
    });
}

fn list() -> GameList {
    GameList {
        listvalue: vec![
            ListValue { pkg: "com.a".to_string(), name: "A".to_string(), mode: Some("performance".to_string()) },
            ListValue { pkg: "com.b".to_string(), name: "B".to_string(), mode: None },
        ],
    }
}

#[test]
fn window_observations() {
    let l = list();
    let o = observe_window("Window{ com.a/.Main }", &l, false, 4, true, RuntimeMode::Power);
    assert_eq!((o.matched, o.is_game, o.profile, o.profile_changed), (Some(0), true, 2, true));
    assert_eq!(o.event, Some(Event::ApplyMode(RuntimeMode::Performance)));

    let o = observe_window("Window{ com.b/.Main }", &l, true, 2, true, RuntimeMode::Power);
    assert_eq!((o.matched, o.profile, o.profile_changed), (Some(1), 4, true));
    assert_eq!(o.event, Some(Event::RestoreHardware));

    let o = observe_window("Window{ com.b/.Main }", &l, true, 4, true, RuntimeMode::Power);
    assert_eq!(o.event, None);

    let o = observe_window("Launcher", &l, true, 4, true, RuntimeMode::Fast);
    assert_eq!((o.matched, o.is_game, o.profile), (None, false, 4));
    assert_eq!(o.event, Some(Event::ApplyMode(RuntimeMode::Fast)));

    let o = observe_window("Window{ com.a }", &l, false, 4, false, RuntimeMode::Fast);
    assert!(o.is_game);
    assert_eq!(o.event, None);
}

#[test]
fn log_level_updates() {
    assert_eq!(level_update(LogLevel::Info, "info"), LevelUpdate::Unchanged);
    assert_eq!(level_update(LogLevel::Info, " debug "), LevelUpdate::Changed(LogLevel::Debug));
    assert_eq!(level_update(LogLevel::Info, "trace"), LevelUpdate::Invalid);
    assert!(report_is_new(&None, "x"));
    assert!(!report_is_new(&Some("x".to_string()), "x"));
    assert!(report_is_new(&Some("x".to_string()), "y"));
}

#[test]
fn getters_copy_the_configuration() {
    let c = config();
    assert_eq!(c.get_name().author, "a");
    assert_eq!(c.get_policy(), vec![Policy { from: 0, to: 5 }, Policy { from: 6, to: 7 }]);
    assert_eq!(c.get_power().policy[1].governor, "p6");
    assert_eq!(c.get_blan().idle_governor, "teo");
    assert_eq!(c.get_perf().policy.len(), 1);
    assert_eq!(c.get_fast().policy[0].max_freq, 3_321_600);
    assert_eq!(c.get_mode().fast.idle_governor, "ladder");
    let copy = c.clone();
    assert_eq!(copy.mode.blan.policy[1].max_freq, 3_072_000);
    let l = list().clone();
    assert_eq!(l.listvalue[0].mode.as_deref(), Some("performance"));
}

#[test]
fn failed_reload_keeps_the_list_in_use() {
    let mut current = list();
    let bad = GameList {
        listvalue: vec![ListValue { pkg: "com.c".to_string(), name: "C".to_string(), mode: Some("turbo".to_string()) }],
    };
    assert!(replace_game_list(&mut current, bad).is_err());
    assert_eq!(current.listvalue.len(), 2);
    assert_eq!(current.listvalue[0].pkg, "com.a");
    let good = GameList {
        listvalue: vec![ListValue { pkg: "com.c".to_string(), name: "C".to_string(), mode: Some("fast".to_string()) }],
    };
    assert_eq!(replace_game_list(&mut current, good), Ok(()));
    assert_eq!(current.listvalue.len(), 1);
    assert_eq!(current.listvalue[0].pkg, "com.c");
}
