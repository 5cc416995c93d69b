use finalizer::config::data::{MPolicy, Policy as Cluster};
use finalizer::cpu_handle::cpu_freq::{available_frequencies, Policy};
use finalizer::cpu_handle::cpu_stat::{
    clear_history, debounce_limits, new_history, sample_cpu_load, settle_target_limits,
    CounterOverflow,
};
use finalizer::devices::touch::{boost_event, touch_boost_allowed};
use finalizer::scheduler::manager::Event;

fn test_policy() -> MPolicy {
    MPolicy {
        delay: 400,
        max_freq: 3_000_000,
        min_freq: 384_000,
        can_boost_freq: 1_000_000,
        boost_freq: 2_400_000,
        margin_bits: 2.0f32.to_bits(),
        diff: 70_000,
        governor: "walt".to_string(),
        sleep_freq: 960_000,
    }
}

fn no_table() -> Policy {
    Policy::from_readings(0, u32::MAX, "walt".to_string(), "")
}

#[test]
fn available_frequencies_are_sorted_filtered_and_unique() {
    let text = "1996800 384000 960000 junk 960000 +556800 4000000 100\n";
    assert_eq!(
        available_frequencies(text, 300_000, 3_000_000),
        vec![384_000, 556_800, 960_000, 1_996_800]
    );
    assert_eq!(available_frequencies("", 0, 10), Vec::<u32>::new());
}

#[test]
fn rounds_up_in_the_frequency_table() {
    let table = Policy::from_readings(384_000, 1_996_800, "walt".to_string(), "384000 960000 1996800");
    assert_eq!(table.round_up_frequency(1_500_000), 1_996_800);
    assert_eq!(table.round_up_frequency(960_000), 960_000);
    assert_eq!(table.round_up_frequency(100), 384_000);
    assert_eq!(table.round_up_frequency(2_500_000), 1_996_800);
    assert_eq!(no_table().round_up_frequency(1_234), 1_234);
    assert_eq!(table.hardware_limits(), (384_000, 1_996_800));
    assert_eq!(table.original_governor(), "walt");
}

#[test]
fn target_keeps_mode_range_and_skips_small_changes() {
    let policy = test_policy();
    // 50 % load with margin 2 asks for the mode's maximum.
    assert_eq!(
        settle_target_limits(3_000_000, 960_000, &policy, &no_table()),
        Some((384_000, 3_000_000))
    );
    let mut policy = test_policy();
    policy.diff = 100_000;
    assert_eq!(settle_target_limits(1_500_000, 1_550_000, &policy, &no_table()), None);
    assert_eq!(
        settle_target_limits(100, 3_000_000, &test_policy(), &no_table()),
        Some((384_000, 384_000))
    );
}

#[test]
fn target_rounds_to_available_frequency() {
    let mut policy = test_policy();
    policy.diff = 0;
    let table = Policy::from_readings(0, u32::MAX, "walt".to_string(), "384000 960000 1996800");
    assert_eq!(
        settle_target_limits(1_500_000, 960_000, &policy, &table),
        Some((384_000, 1_996_800))
    );
}

#[test]
fn lowering_waits_for_three_samples() {
    let lower = Some((384_000, 960_000));
    let (s1, e1) = debounce_limits(lower, 2_000_000, 0, 6);
    assert_eq!((s1, e1), (1, None));
    let (s2, e2) = debounce_limits(lower, 2_000_000, s1, 6);
    assert_eq!((s2, e2), (2, None));
    let (s3, e3) = debounce_limits(lower, 2_000_000, s2, 6);
    assert_eq!((s3, e3), (0, Some(Event::SetFreq((6, (384_000, 960_000))))));
    assert_eq!(
        debounce_limits(Some((384_000, 3_000_000)), 2_000_000, 2, 0),
        (0, Some(Event::SetFreq((0, (384_000, 3_000_000)))))
    );
    assert_eq!(debounce_limits(None, 2_000_000, 2, 0), (0, None));
    assert_eq!(debounce_limits(lower, 2_000_000, u8::MAX, 0), (0, Some(Event::SetFreq((0, (384_000, 960_000))))));
}

#[test]
fn history_starts_and_resets_empty() {
    assert_eq!(new_history(0, 5), vec![(0, 0); 6]);
    assert_eq!(new_history(6, 5), vec![]);
    let mut h = vec![(5, 1), (7, 2)];
    clear_history(&mut h);
    assert_eq!(h, vec![(0, 0), (0, 0)]);
}

const FIRST: &str = "cpu  100 0 100 800 0 0 0 0 0 0\ncpu0 100 0 100 800 0 0 0\ncpu1 50 0 50 900 0\ncpu2 10 10 10 10\nintr 1 2 3\n";
const SECOND: &str = "cpu  0 0 0 0\ncpu0 200 0 200 1600 0 0 0\ncpu1 150 0 150 900 0\ncpu2 20 20 20 20\n";

#[test]
fn samples_cpu_load_between_two_reads() {
    let mut history = new_history(0, 1);
    assert_eq!(sample_cpu_load(FIRST, 0, 1, &mut history), Ok(None));
    assert_eq!(history, vec![(1000, 800), (1000, 900)]);
    // cpu0: 2000-1000 total, 800 idle → 20 %; cpu1: 200 busy of 200 → 100 %.
    assert_eq!(sample_cpu_load(SECOND, 0, 1, &mut history), Ok(Some(60)));
    assert_eq!(history, vec![(2000, 1600), (1200, 900)]);
}

#[test]
fn sample_skips_foreign_and_short_lines() {
    let mut history = vec![(0, 0)];
    let text = "cpu3 1 2 3 4\ncpux 1 2 3 4\ncpu2 1 2 3\ncpu2 1 x 2 3 4\n";
    assert_eq!(sample_cpu_load(text, 2, 2, &mut history), Ok(None));
    assert_eq!(history, vec![(10, 4)]);
    let mut history = vec![(5, 0)];
    assert_eq!(sample_cpu_load("cpu2 1 1 1 1\r\n", 2, 2, &mut history), Ok(None));
    assert_eq!(history, vec![(4, 1)]);
}

#[test]
fn sample_reports_counter_overflow() {
    let mut history = vec![(0, 0)];
    let text = "cpu0 18446744073709551615 1 0 0\n";
    assert_eq!(sample_cpu_load(text, 0, 0, &mut history), Err(CounterOverflow));
    assert_eq!(history, vec![(0, 0)]);
}

#[test]
fn touch_boosts_only_slow_clusters() {
    let cluster = Cluster { from: 6, to: 7 };
    let policy = test_policy();
    assert_eq!(
        boost_event(&cluster, &policy, 960_000),
        Some(Event::Boost((6, (2_400_000, 2_400_000))))
    );
    assert_eq!(boost_event(&cluster, &policy, 1_000_000), None);
    assert!(touch_boost_allowed(true, false));
    assert!(!touch_boost_allowed(false, false));
    assert!(!touch_boost_allowed(true, true));
}
