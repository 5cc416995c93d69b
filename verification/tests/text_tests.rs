use finalizer::cpu_handle::cpu_freq::{parse_frequency, plan_limit_writes, InvertedLimits, LimitWrite};
use finalizer::logger::LogLevel;
use finalizer::utils::{parse_current_focus, parse_screen_status};

#[test]
fn raises_max_before_min_when_target_exceeds_current_max() {
    assert_eq!(
        plan_limit_writes((384_000, 960_000), (1_996_800, 1_996_800)).unwrap(),
        vec![LimitWrite::Max(1_996_800), LimitWrite::Min(1_996_800)]
    );
}

#[test]
fn lowers_min_before_max_when_reducing_range() {
    assert_eq!(
        plan_limit_writes((1_996_800, 1_996_800), (384_000, 960_000)).unwrap(),
        vec![LimitWrite::Min(384_000), LimitWrite::Max(960_000)]
    );
}

#[test]
fn rejects_inverted_target_limits() {
    assert!(plan_limit_writes((384_000, 960_000), (960_000, 384_000)).is_err());
}

#[test]
fn plans_only_changed_limits() {
    assert_eq!(plan_limit_writes((384_000, 960_000), (384_000, 960_000)).unwrap(), vec![]);
    assert_eq!(
        plan_limit_writes((384_000, 960_000), (500_000, 960_000)).unwrap(),
        vec![LimitWrite::Min(500_000)]
    );
    assert_eq!(
        plan_limit_writes((384_000, 960_000), (384_000, 1_200_000)).unwrap(),
        vec![LimitWrite::Max(1_200_000)]
    );
    assert_eq!(
        plan_limit_writes((384_000, 960_000), (500_000, 900_000)).unwrap(),
        vec![LimitWrite::Min(500_000), LimitWrite::Max(900_000)]
    );
    assert_eq!(
        plan_limit_writes((1, 2), (9, 3)),
        Err(InvertedLimits { min: 9, max: 3 })
    );
}

#[test]
fn parses_supported_levels() {
    assert_eq!(LogLevel::parse("error"), Some(LogLevel::Error));
    assert_eq!(LogLevel::parse("warn"), Some(LogLevel::Warn));
    assert_eq!(LogLevel::parse("info"), Some(LogLevel::Info));
    assert_eq!(LogLevel::parse("debug\n"), Some(LogLevel::Debug));
    assert_eq!(LogLevel::parse("trace"), None);
}

#[test]
fn parses_legacy_screen_state() {
    assert_eq!(
        parse_screen_status("mHoldingDisplaySuspendBlocker=false\n  mScreenOn=true\n"),
        Some(true)
    );
    assert_eq!(
        parse_screen_status("mHoldingDisplaySuspendBlocker=false\n  mScreenOn=false\n"),
        Some(false)
    );
}

#[test]
fn parses_modern_screen_state() {
    assert_eq!(parse_screen_status("mWakefulness=Awake\n"), Some(true));
    assert_eq!(parse_screen_status("mWakefulness=Asleep\n"), Some(false));
}

#[test]
fn extracts_current_focus_line() {
    let output = "other data\n  mCurrentFocus=Window{abc u0 com.example/.Main}\n";
    assert_eq!(
        parse_current_focus(output),
        "mCurrentFocus=Window{abc u0 com.example/.Main}"
    );
}

#[test]
fn screen_state_edge_cases() {
    assert_eq!(parse_screen_status(""), None);
    assert_eq!(parse_screen_status("nothing here\n"), None);
    assert_eq!(parse_screen_status("Display Power: state=ON\n"), Some(true));
    assert_eq!(parse_screen_status("Display Power: state= OFF\n"), Some(false));
    assert_eq!(parse_screen_status("mWakefulness=Asleep\nmScreenOn=true"), Some(true));
    assert_eq!(
        parse_screen_status("Display Power: state=OFF\nmWakefulness=Awake\n"),
        Some(false)
    );
    assert_eq!(parse_screen_status("  mScreenOn=  true\r\n"), Some(true));
}

#[test]
fn focus_falls_back_to_focused_app() {
    let output = "mCurrentFocus=null\n  mFocusedApp=ActivityRecord{x u0 com.game/.Main}  \n";
    assert_eq!(parse_current_focus(output), "mFocusedApp=ActivityRecord{x u0 com.game/.Main}");
    assert_eq!(parse_current_focus("nothing\n"), "");
    assert_eq!(parse_current_focus("中文 mCurrentFocus=窗口 \n"), "中文 mCurrentFocus=窗口");
}

#[test]
fn reads_frequency_values() {
    assert_eq!(parse_frequency("1996800\n"), Some(1_996_800));
    assert_eq!(parse_frequency(" +42 "), Some(42));
    assert_eq!(parse_frequency("4294967295"), Some(u32::MAX));
    assert_eq!(parse_frequency("4294967296"), None);
    assert_eq!(parse_frequency("-1"), None);
    assert_eq!(parse_frequency("12a"), None);
    assert_eq!(parse_frequency(""), None);
    assert_eq!(parse_frequency("+"), None);
}
