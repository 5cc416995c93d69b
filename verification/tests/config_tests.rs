use finalizer::config::data::{
    Blan, Config, ConfigIssue, Fast, GameList, ListValue, Log, MPolicy, Mode, Name, Perf, Policy,
    Power, RuntimeMode,
};

fn tuning(delay: u64, max_freq: u32, boost_freq: u32, margin: f32) -> MPolicy {
    MPolicy {
        delay,
        max_freq,
        min_freq: 384_000,
        can_boost_freq: 1_000_000,
        boost_freq,
        margin_bits: margin.to_bits(),
        diff: 70_000,
        governor: "walt".to_string(),
        sleep_freq: 960_000,
    }
}

fn sd8e_config() -> Config {
    Config {
        name: Name {
            name: "SD8e".to_string(),
            version: "1.0".to_string(),
            author: "pikario".to_string(),
        },
        log: Log { level: "info".to_string() },
        policy: vec![Policy { from: 0, to: 5 }, Policy { from: 6, to: 7 }],
        mode: Mode {
            power: Power {
                idle_governor: "menu".to_string(),
                policy: vec![
                    tuning(600, 2_400_000, 1_996_800, 2.1),
                    tuning(600, 2_400_000, 1_996_800, 2.0),
                ],
            },
            blan: Blan {
                idle_governor: "menu".to_string(),
                policy: vec![
                    tuning(400, 2_918_400, 2_400_000, 2.3),
                    tuning(400, 3_072_000, 2_400_000, 2.3),
                ],
            },
            perf: Perf {
                idle_governor: "menu".to_string(),
                policy: vec![
                    tuning(200, 3_321_600, 2_745_600, 2.8),
                    tuning(200, 3_532_800, 2_745_600, 2.8),
                ],
            },
            fast: Fast {
                idle_governor: "menu".to_string(),
                policy: vec![
                    tuning(100, 3_321_600, 2_745_600, 3.0),
                    tuning(100, 3_532_800, 2_745_600, 3.0),
                ],
            },
        },
    }
}

#[test]
fn parses_runtime_modes() {
    assert_eq!(RuntimeMode::parse("powersave"), Some(RuntimeMode::Power));
    assert_eq!(RuntimeMode::parse("balance\n"), Some(RuntimeMode::Balance));
    assert_eq!(RuntimeMode::parse("performance"), Some(RuntimeMode::Performance));
    assert_eq!(RuntimeMode::parse("fast"), Some(RuntimeMode::Fast));
    assert_eq!(RuntimeMode::parse("unknown"), None);
}

#[test]
fn validates_sd8e_config() {
    sd8e_config().validate().expect("SD8e config must validate");
}

#[test]
fn rejects_unknown_log_level() {
    let mut config = sd8e_config();
    config.log.level = "trace".to_string();
    assert!(config.validate().unwrap_err().contains("invalid log level"));
}

#[test]
fn rejects_mismatched_mode_policy_count() {
    let mut config = sd8e_config();
    config.mode.fast.policy.pop();
    let error = config.validate().unwrap_err();
    assert!(error.contains("fast policy count"));
}

#[test]
fn rejects_overlapping_cpu_ranges() {
    let mut config = sd8e_config();
    config.policy[1].from = 5;
    let error = config.validate().unwrap_err();
    assert!(error.contains("overlap"));
}

#[test]
fn rejects_invalid_frequency_bounds() {
    let mut config = sd8e_config();
    config.mode.power.policy[0].min_freq = 3_000_000;
    let error = config.validate().unwrap_err();
    assert!(error.contains("powersave policy 0"));
}

#[test]
fn runtime_mode_indices_and_names() {
    for (i, mode) in [RuntimeMode::Power, RuntimeMode::Balance, RuntimeMode::Performance, RuntimeMode::Fast]
        .into_iter()
        .enumerate()
    {
        assert_eq!(mode.index(), i);
        assert_eq!(RuntimeMode::from_index(i), Some(mode));
        assert_eq!(RuntimeMode::parse(mode.name()), Some(mode));
    }
    assert_eq!(RuntimeMode::from_index(4), None);
    assert_eq!(RuntimeMode::parse("  fast \r\n"), Some(RuntimeMode::Fast));
    assert_eq!(RuntimeMode::parse("Fast"), None);
    assert_eq!(RuntimeMode::parse(""), None);
}

#[test]
fn validation_messages_are_exact() {
    let mut config = sd8e_config();
    config.log.level = "trace".to_string();
    assert_eq!(
        config.validate().unwrap_err(),
        "invalid log level 'trace'; expected error, warn, info, or debug"
    );
    assert_eq!(config.check(), Err(ConfigIssue::InvalidLogLevel));

    let mut config = sd8e_config();
    config.policy.clear();
    assert_eq!(config.validate().unwrap_err(), "at least one CPU policy is required");

    let mut config = sd8e_config();
    config.policy[1] = Policy { from: 7, to: 6 };
    assert_eq!(config.validate().unwrap_err(), "CPU policy 1 has from > to");

    let mut config = sd8e_config();
    config.policy[1].from = 5;
    assert_eq!(config.validate().unwrap_err(), "CPU policies 0 and 1 overlap");

    let mut config = sd8e_config();
    config.mode.fast.policy.pop();
    assert_eq!(
        config.validate().unwrap_err(),
        "fast policy count 1 does not match CPU policy count 2"
    );

    let mut config = sd8e_config();
    config.mode.perf.policy[1].delay = 0;
    assert_eq!(config.validate().unwrap_err(), "performance policy 1 has invalid limits");
    assert_eq!(config.check(), Err(ConfigIssue::InvalidLimits(RuntimeMode::Performance, 1)));
}

#[test]
fn rejects_each_kind_of_inconsistent_limits() {
    let cases: Vec<Box<dyn Fn(&mut MPolicy)>> = vec![
        Box::new(|p| p.boost_freq = 100_000),
        Box::new(|p| p.boost_freq = 4_000_000),
        Box::new(|p| p.sleep_freq = 100),
        Box::new(|p| p.sleep_freq = 3_000_000),
        Box::new(|p| p.can_boost_freq = 2_500_000),
        Box::new(|p| p.delay = 0),
        Box::new(|p| p.margin_bits = 0.0f32.to_bits()),
        Box::new(|p| p.margin_bits = (-1.0f32).to_bits()),
        Box::new(|p| p.margin_bits = f32::NAN.to_bits()),
        Box::new(|p| p.margin_bits = f32::INFINITY.to_bits()),
        Box::new(|p| p.margin_bits = (-0.0f32).to_bits()),
    ];
    for change in cases {
        let mut config = sd8e_config();
        change(&mut config.mode.blan.policy[0]);
        assert_eq!(config.check(), Err(ConfigIssue::InvalidLimits(RuntimeMode::Balance, 0)));
    }
    let mut config = sd8e_config();
    config.mode.blan.policy[0].margin_bits = f32::MIN_POSITIVE.to_bits();
    assert_eq!(config.check(), Ok(()));
}

#[test]
fn mode_policy_selects_each_mode() {
    let config = sd8e_config();
    assert_eq!(config.mode_policy(RuntimeMode::Power).policy[0].delay, 600);
    assert_eq!(config.mode_policy(RuntimeMode::Balance).policy[1].max_freq, 3_072_000);
    assert_eq!(config.mode_policy(RuntimeMode::Performance).policy[0].delay, 200);
    assert_eq!(config.mode_policy(RuntimeMode::Fast).policy[0].delay, 100);
    assert_eq!(config.mode_policy(RuntimeMode::Fast).idle_governor, "menu");
}

#[test]
fn log_section_defaults_to_info() {
    let log: Log = Default::default();
    assert_eq!(log.level, "info");
}

fn game(pkg: &str, mode: Option<&str>) -> ListValue {
    ListValue {
        pkg: pkg.to_string(),
        name: "Example".to_string(),
        mode: mode.map(|m| m.to_string()),
    }
}

#[test]
fn loads_and_validates_reloaded_game_list() {
    let loaded = GameList {
        listvalue: vec![ListValue {
            pkg: "com.example.game".to_string(),
            name: "Example".to_string(),
            mode: Some("performance".to_string()),
        }],
    };
    assert!(loaded.validate().is_ok());
    assert_eq!(loaded.listvalue.len(), 1);
    let reloaded = GameList {
        listvalue: vec![ListValue {
            pkg: "com.example.game".to_string(),
            name: "Example".to_string(),
            mode: Some("turbo".to_string()),
        }],
    };
    assert!(reloaded.validate().is_err());
}

#[test]
fn validates_game_list_modes() {
    let ok = GameList {
        listvalue: vec![
            game("com.example.game", Some("performance")),
            game("com.example.other", Some(" Hardware ")),
            game("com.example.third", None),
        ],
    };
    assert_eq!(ok.validate(), Ok(()));
    let bad = GameList {
        listvalue: vec![game("com.example.game", Some("performance")), game("com.example.b", Some("turbo"))],
    };
    assert_eq!(
        bad.validate().unwrap_err(),
        "game list entry 1 has an unknown mode; expected powersave, balance, performance, fast, or hardware"
    );
    let empty = GameList {
        listvalue: vec![game("  ", None)],
    };
    assert_eq!(empty.validate().unwrap_err(), "game list entry 0 has an empty package name");
}
