//! Per-cluster load sampling from the kernel's `/proc/stat` counters.
use vstd::prelude::*;

use crate::config::data::MPolicy;
use crate::cpu_handle::cpu_freq::{rounds_to, Policy};
use crate::scheduler::manager::Event;
use crate::text::{
    chars_eq, chars_of, copy_range, line_bounds, lines, matches_at, parse_bounded,
    parse_unsigned, split_words, starts_with, words,
};

verus! {

/// The text `cpu` that starts each per-CPU line of `/proc/stat`.
pub open spec fn cpu_prefix() -> Seq<char> {
    seq!['c', 'p', 'u']
}

/// The number of history slots of the CPUs `from..=to`.
pub open spec fn history_len(from: u32, to: u32) -> nat {
    if to >= from {
        (to - from + 1) as nat
    } else {
        0
    }
}

/// The history slot of a `/proc/stat` line: the line must start with `cpu`,
/// its first word must not be the aggregate `cpu`, and the rest of that word
/// must name a CPU in `from..=to`.
pub open spec fn stat_slot(line: Seq<char>, from: u32, to: u32) -> Option<int> {
    let w = words(line);
    if starts_with(line, cpu_prefix()) && w.len() > 0 && w[0] != cpu_prefix() && w[0].len() >= 3 {
        match parse_unsigned(w[0].skip(3), u32::MAX as nat) {
            Some(n) => if from <= n <= to {
                Some(n - from)
            } else {
                None
            },
            None => None,
        }
    } else {
        None
    }
}

/// The words that parse as `u64`, in order; the others are dropped.
pub open spec fn parsed_u64s(ws: Seq<Seq<char>>) -> Seq<u64>
    decreases ws.len(),
{
    if ws.len() == 0 {
        seq![]
    } else {
        let rest = parsed_u64s(ws.drop_last());
        match parse_unsigned(ws.last(), u64::MAX as nat) {
            Some(n) => rest.push(n as u64),
            None => rest,
        }
    }
}

/// The sum of the values of `s`.
pub open spec fn seq_sum(s: Seq<u64>) -> int
    decreases s.len(),
{
    if s.len() == 0 {
        0
    } else {
        seq_sum(s.drop_last()) + s.last()
    }
}

/// The running state of a load sample: the per-CPU `(total, idle)` history,
/// the sum of the loads counted so far and how many there were, and whether
/// every counter stayed within its machine type so far.
pub ghost struct LoadTally {
    pub history: Seq<(u64, u64)>,
    pub load_sum: int,
    pub counted: int,
    pub fits: bool,
}

/// The effect of one line of `/proc/stat` on a load sample.
///
/// A line of a CPU in range with at least four counters records the CPU's
/// `(total, idle)` in its slot, where `total` sums all counters and `idle`
/// adds the fourth and (if any) the fifth. Where the slot held an earlier
/// nonzero total that the new total exceeds, the busy share of the time
/// between the two, in whole percent, is counted.
pub open spec fn tally_line(t: LoadTally, line: Seq<char>, from: u32, to: u32) -> LoadTally {
    match stat_slot(line, from, to) {
        None => t,
        Some(slot) => {
            let parts = parsed_u64s(words(line).skip(1));
            if parts.len() < 4 {
                t
            } else {
                let total = seq_sum(parts);
                let idle = parts[3] + if parts.len() > 4 {
                    parts[4] as int
                } else {
                    0
                };
                let prev = t.history[slot];
                let counts = prev.0 != 0 && total > prev.0;
                let total_diff = total - prev.0;
                let idle_diff = if idle >= prev.1 {
                    idle - prev.1
                } else {
                    0
                };
                let busy = if total_diff >= idle_diff {
                    total_diff - idle_diff
                } else {
                    0
                };
                let load = busy * 100 / total_diff;
                LoadTally {
                    history: t.history.update(slot, (total as u64, idle as u64)),
                    load_sum: if counts {
                        t.load_sum + load
                    } else {
                        t.load_sum
                    },
                    counted: if counts {
                        t.counted + 1
                    } else {
                        t.counted
                    },
                    fits: t.fits && total <= u64::MAX && idle <= u64::MAX && (counts ==> busy
                        * 100 <= u64::MAX && t.load_sum + load <= u64::MAX && t.counted + 1
                        <= u32::MAX),
                }
            }
        },
    }
}

/// The effect of a run of lines on a load sample, line by line.
pub open spec fn tally_lines(t: LoadTally, ls: Seq<Seq<char>>, from: u32, to: u32) -> LoadTally
    decreases ls.len(),
{
    if ls.len() == 0 {
        t
    } else {
        tally_line(tally_lines(t, ls.drop_last(), from, to), ls.last(), from, to)
    }
}

/// The load sample that the text of `/proc/stat` gives, from a history.
pub open spec fn stat_tally(stat: Seq<char>, history: Seq<(u64, u64)>, from: u32, to: u32) -> LoadTally {
    tally_lines(
        LoadTally { history, load_sum: 0, counted: 0, fits: true },
        lines(stat),
        from,
        to,
    )
}

/// The average of the loads counted, if any were.
pub open spec fn average_load(t: LoadTally) -> Option<u32> {
    if t.counted > 0 {
        Some((t.load_sum / t.counted) as u32)
    } else {
        None
    }
}

/// A counter of `/proc/stat` left its machine type while a load was computed.
#[derive(Debug, Clone, Copy, PartialEq, Eq, Structural)]
pub struct CounterOverflow;

proof fn lemma_sum_prefix_le(s: Seq<u64>, k: int)
    requires
        0 <= k <= s.len(),
    ensures
        seq_sum(s.take(k)) <= seq_sum(s),
        0 <= seq_sum(s),
    decreases s.len(),
{
    if s.len() > 0 {
        lemma_sum_prefix_le(s.drop_last(), if k < s.len() { k } else { 0 });
    }
    if k < s.len() {
        assert(s.drop_last().take(k) =~= s.take(k));
    } else {
        assert(s.take(k) =~= s);
    }
}

/// The sample state before a line: the history and the counts so far.
pub open spec fn tally_of(history: Seq<(u64, u64)>, load_sum: u64, counted: u32) -> LoadTally {
    LoadTally { history, load_sum: load_sum as int, counted: counted as int, fits: true }
}

/// The values of the words `ws[1..]` of a line that parse as `u64`.
fn parse_counters(ws: &Vec<Vec<char>>) -> (res: Vec<u64>)
    requires
        ws.len() >= 1,
    ensures
        res@ == parsed_u64s(ws@.map_values(|w: Vec<char>| w@).skip(1)),
{
    let ghost views = ws@.map_values(|w: Vec<char>| w@);
    let mut res: Vec<u64> = Vec::new();
    let mut k: usize = 1;
    while k < ws.len()
        invariant
            1 <= k <= ws.len(),
            views == ws@.map_values(|w: Vec<char>| w@),
            res@ == parsed_u64s(views.subrange(1, k as int)),
        decreases ws.len() - k,
    {
        assert(views.subrange(1, k + 1).drop_last() =~= views.subrange(1, k as int));
        assert(views.subrange(1, k + 1).last() == ws@[k as int]@);
        match parse_bounded(&ws[k], u64::MAX) {
            Some(n) => res.push(n),
            None => {},
        }
        k = k + 1;
    }
    assert(views.subrange(1, ws.len() as int) =~= views.skip(1));
    res
}

/// The sum of `parts`, where it fits in `u64`.
fn checked_sum(parts: &Vec<u64>) -> (res: Option<u64>)
    ensures
        res is Some <==> seq_sum(parts@) <= u64::MAX,
        res matches Some(n) ==> n == seq_sum(parts@),
{
    let mut acc: u64 = 0;
    let mut j: usize = 0;
    while j < parts.len()
        invariant
            j <= parts.len(),
            acc == seq_sum(parts@.take(j as int)),
        decreases parts.len() - j,
    {
        assert(parts@.take(j + 1).drop_last() =~= parts@.take(j as int));
        match acc.checked_add(parts[j]) {
            Some(n) => acc = n,
            None => {
                proof {
                    lemma_sum_prefix_le(parts@, j + 1);
                }
                return None;
            },
        }
        j = j + 1;
    }
    assert(parts@.take(parts.len() as int) =~= parts@);
    proof {
        lemma_sum_prefix_le(parts@, 0);
    }
    Some(acc)
}

/// Applies one line of `/proc/stat` to the sample state; `false` where a
/// counter would leave its machine type, and the state is then meaningless.
fn tally_stat_line(
    line: &Vec<char>,
    from: u32,
    to: u32,
    history: &mut Vec<(u64, u64)>,
    load_sum: &mut u64,
    counted: &mut u32,
) -> (ok: bool)
    requires
        old(history).len() == history_len(from, to),
    ensures
        final(history).len() == old(history).len(),
        ok == tally_line(tally_of(old(history)@, *old(load_sum), *old(counted)), line@, from, to).fits,
        ok ==> tally_of(final(history)@, *final(load_sum), *final(counted)) == tally_line(
            tally_of(old(history)@, *old(load_sum), *old(counted)),
            line@,
            from,
            to,
        ),
{
    let ghost t = tally_of(old(history)@, *old(load_sum), *old(counted));
    let cpu = chars_of("cpu");
    proof {
        reveal_strlit("cpu");
    }
    assert(cpu@ =~= cpu_prefix());
    if !matches_at(line, &cpu, 0) {
        return true;
    }
    let ws = split_words(line);
    if ws.len() == 0 {
        return true;
    }
    if chars_eq(&ws[0], &cpu) || ws[0].len() < 3 {
        return true;
    }
    let number = copy_range(&ws[0], 3, ws[0].len());
    assert(number@ =~= words(line@)[0].skip(3));
    let index = match parse_bounded(&number, u32::MAX as u64) {
        Some(n) => n,
        None => {
            return true;
        },
    };
    if index < from as u64 || index > to as u64 {
        return true;
    }
    let slot = (index - from as u64) as usize;
    assert(stat_slot(line@, from, to) == Some(slot as int));
    assert(ws@.map_values(|w: Vec<char>| w@) =~= words(line@));
    let parts = parse_counters(&ws);
    if parts.len() < 4 {
        return true;
    }
    let total = match checked_sum(&parts) {
        Some(n) => n,
        None => {
            return false;
        },
    };
    let fifth: u64 = if parts.len() > 4 {
        parts[4]
    } else {
        0
    };
    let idle = match parts[3].checked_add(fifth) {
        Some(n) => n,
        None => {
            return false;
        },
    };
    let (prev_total, prev_idle) = history[slot];
    if prev_total != 0 && total > prev_total {
        let total_diff = total - prev_total;
        let idle_diff = idle.saturating_sub(prev_idle);
        let busy = total_diff.saturating_sub(idle_diff);
        let scaled = match busy.checked_mul(100) {
            Some(n) => n,
            None => {
                return false;
            },
        };
        let load = scaled / total_diff;
        let new_sum = match load_sum.checked_add(load) {
            Some(n) => n,
            None => {
                return false;
            },
        };
        let new_count = match counted.checked_add(1) {
            Some(n) => n,
            None => {
                return false;
            },
        };
        *load_sum = new_sum;
        *counted = new_count;
    }
    history.set(slot, (total, idle));
    true
}

proof fn lemma_tally_bounds(t: LoadTally, ls: Seq<Seq<char>>, from: u32, to: u32)
    requires
        0 <= t.load_sum <= 100 * t.counted,
        t.history.len() == history_len(from, to),
    ensures
        0 <= tally_lines(t, ls, from, to).load_sum <= 100 * tally_lines(t, ls, from, to).counted,
        tally_lines(t, ls, from, to).history.len() == history_len(from, to),
    decreases ls.len(),
{
    if ls.len() > 0 {
        lemma_tally_bounds(t, ls.drop_last(), from, to);
        let u = tally_lines(t, ls.drop_last(), from, to);
        let line = ls.last();
        match stat_slot(line, from, to) {
            None => {},
            Some(slot) => {
                let parts = parsed_u64s(words(line).skip(1));
                if parts.len() >= 4 {
                    let total = seq_sum(parts);
                    let idle = parts[3] + if parts.len() > 4 {
                        parts[4] as int
                    } else {
                        0
                    };
                    let prev = u.history[slot];
                    let total_diff = total - prev.0;
                    let idle_diff = if idle >= prev.1 {
                        idle - prev.1
                    } else {
                        0
                    };
                    let busy = if total_diff >= idle_diff {
                        total_diff - idle_diff
                    } else {
                        0
                    };
                    if prev.0 != 0 && total > prev.0 {
                        assert(0 <= busy <= total_diff);
                        assert(busy * 100 <= total_diff * 100) by (nonlinear_arith)
                            requires
                                0 <= busy <= total_diff,
                        ;
                        assert(0 <= busy * 100 / total_diff <= 100) by (nonlinear_arith)
                            requires
                                0 <= busy * 100 <= total_diff * 100,
                                total_diff > 0,
                        ;
                    }
                }
            },
        }
    }
}

proof fn lemma_tally_unfit_stays(t: LoadTally, line: Seq<char>, from: u32, to: u32)
    requires
        !t.fits,
    ensures
        !tally_line(t, line, from, to).fits,
{
}

/// Samples the load of the CPUs `from..=to` from the text of `/proc/stat`.
///
/// Each line of a CPU in range updates that CPU's slot in `history` (see
/// `tally_line`); the result is the average of the loads counted, or `None`
/// where none was. Where a counter would leave its machine type the result
/// is `Err` and `history` stays as it was.
pub fn sample_cpu_load(stat: &str, from: u32, to: u32, history: &mut Vec<(u64, u64)>) -> (res:
    Result<Option<u32>, CounterOverflow>)
    requires
        old(history).len() == history_len(from, to),
    ensures
        stat_tally(stat@, old(history)@, from, to).fits ==> {
            &&& res == Ok::<Option<u32>, CounterOverflow>(
                average_load(stat_tally(stat@, old(history)@, from, to)),
            )
            &&& final(history)@ == stat_tally(stat@, old(history)@, from, to).history
        },
        !stat_tally(stat@, old(history)@, from, to).fits ==> {
            &&& res == Err::<Option<u32>, CounterOverflow>(CounterOverflow)
            &&& final(history)@ == old(history)@
        },
        res matches Ok(Some(load)) ==> load <= 100,
{
    let text = chars_of(stat);
    let bounds = line_bounds(&text);
    let ghost ls = lines(stat@);
    let ghost init = LoadTally { history: old(history)@, load_sum: 0, counted: 0, fits: true };
    let mut work: Vec<(u64, u64)> = Vec::new();
    let mut c: usize = 0;
    while c < history.len()
        invariant
            c <= history.len(),
            work@ == history@.take(c as int),
        decreases history.len() - c,
    {
        work.push(history[c]);
        assert(work@ =~= history@.take(c + 1));
        c = c + 1;
    }
    assert(work@ =~= history@);
    let mut load_sum: u64 = 0;
    let mut counted: u32 = 0;
    let mut ok = true;
    let mut k: usize = 0;
    while k < bounds.len()
        invariant
            k <= bounds.len(),
            bounds.len() == ls.len(),
            ls == lines(text@),
            text@ == stat@,
            forall|j: int|
                0 <= j < bounds.len() ==> {
                    &&& (#[trigger] bounds@[j]).0 <= bounds@[j].1 <= text.len()
                    &&& text@.subrange(bounds@[j].0 as int, bounds@[j].1 as int) == ls[j]
                },
            work.len() == history_len(from, to),
            ok ==> tally_of(work@, load_sum, counted) == tally_lines(init, ls.take(k as int), from, to),
            !ok ==> !tally_lines(init, ls.take(k as int), from, to).fits,
        decreases bounds.len() - k,
    {
        assert(ls.take(k + 1).drop_last() =~= ls.take(k as int));
        if ok {
            let line = copy_range(&text, bounds[k].0, bounds[k].1);
            ok = tally_stat_line(&line, from, to, &mut work, &mut load_sum, &mut counted);
        } else {
            proof {
                lemma_tally_unfit_stays(tally_lines(init, ls.take(k as int), from, to), ls[k as int], from, to);
            }
        }
        k = k + 1;
    }
    assert(ls.take(bounds.len() as int) =~= ls);
    proof {
        lemma_tally_bounds(init, ls, from, to);
    }
    if !ok {
        return Err(CounterOverflow);
    }
    *history = work;
    if counted > 0 {
        assert(load_sum / (counted as u64) <= 100) by (nonlinear_arith)
            requires
                load_sum <= 100 * counted,
                counted > 0,
        ;
        Ok(Some((load_sum / counted as u64) as u32))
    } else {
        Ok(None)
    }
}

/// A fresh history for the CPUs `from..=to`: one empty `(total, idle)` slot each.
pub fn new_history(from: u32, to: u32) -> (res: Vec<(u64, u64)>)
    requires
        to >= from ==> to - from < u32::MAX,
    ensures
        res.len() == history_len(from, to),
        forall|k: int| 0 <= k < res.len() ==> res@[k] == (0u64, 0u64),
{
    let n: u32 = if to >= from {
        to - from + 1
    } else {
        0
    };
    let mut res: Vec<(u64, u64)> = Vec::new();
    let mut k: u32 = 0;
    while k < n
        invariant
            k <= n,
            n == history_len(from, to),
            res.len() == k,
            forall|j: int| 0 <= j < res.len() ==> res@[j] == (0u64, 0u64),
        decreases n - k,
    {
        res.push((0, 0));
        k = k + 1;
    }
    res
}

/// Forgets every sample: each slot becomes empty again.
pub fn clear_history(history: &mut Vec<(u64, u64)>)
    ensures
        final(history).len() == old(history).len(),
        forall|k: int| 0 <= k < final(history).len() ==> final(history)@[k] == (0u64, 0u64),
{
    let mut k: usize = 0;
    while k < history.len()
        invariant
            k <= history.len(),
            history.len() == old(history).len(),
            forall|j: int| 0 <= j < k ==> history@[j] == (0u64, 0u64),
        decreases history.len() - k,
    {
        history.set(k, (0, 0));
        k = k + 1;
    }
}

/// `v` kept within `lo..=hi`, as `Ord::clamp` does.
pub open spec fn clamp(v: u32, lo: u32, hi: u32) -> u32 {
    if v < lo {
        lo
    } else if v > hi {
        hi
    } else {
        v
    }
}

/// The distance between two frequencies.
pub open spec fn freq_distance(a: u32, b: u32) -> int {
    if a >= b {
        a - b
    } else {
        b - a
    }
}

/// The limits that a load target calls for: the rounded target kept within
/// the tuning's range becomes the maximum over the tuning's minimum, unless
/// it lies within `diff` of the current maximum.
pub open spec fn target_limits(rounded: u32, current_max: u32, tuning: MPolicy) -> Option<(u32, u32)> {
    let target = clamp(rounded, tuning.min_freq, tuning.max_freq);
    if freq_distance(target, current_max) < tuning.diff {
        None
    } else {
        Some((tuning.min_freq, target))
    }
}

/// The limits that the raw load target `raw_target` calls for, once rounded
/// up in the cluster's frequency table.
pub fn settle_target_limits(raw_target: u32, current_max: u32, tuning: &MPolicy, table: &Policy) -> (res:
    Option<(u32, u32)>)
    requires
        tuning.min_freq <= tuning.max_freq,
    ensures
        exists|rounded: u32|
            rounds_to(table.spec_table(), raw_target, rounded) && res == target_limits(
                rounded,
                current_max,
                *tuning,
            ),
{
    let rounded = table.round_up_frequency(raw_target);
    let target = if rounded < tuning.min_freq {
        tuning.min_freq
    } else if rounded > tuning.max_freq {
        tuning.max_freq
    } else {
        rounded
    };
    let distance = if target >= current_max {
        target - current_max
    } else {
        current_max - target
    };
    let res = if distance < tuning.diff {
        None
    } else {
        Some((tuning.min_freq, target))
    };
    assert(rounds_to(table.spec_table(), raw_target, rounded) && res == target_limits(
        rounded,
        current_max,
        *tuning,
    ));
    res
}

/// How many lowering samples in a row it takes before a lower maximum is sent.
pub open spec fn downshift_threshold() -> nat {
    3
}

/// The load loop's decision on new limits: a rise or an equal maximum is sent
/// at once and resets the count of lowering samples; a lower maximum counts
/// one more lowering sample and is sent only once three came in a row; no
/// new limits reset the count.
pub open spec fn downshift_step(limits: Option<(u32, u32)>, current_max: u32, samples: u8, policy: u8) -> (
    u8,
    Option<Event>,
) {
    match limits {
        None => (0, None),
        Some(l) => if l.1 < current_max {
            let counted = if samples < u8::MAX {
                (samples + 1) as u8
            } else {
                samples
            };
            if counted < 3 {
                (counted, None)
            } else {
                (0, Some(Event::SetFreq((policy, l))))
            }
        } else {
            (0, Some(Event::SetFreq((policy, l))))
        },
    }
}

/// The load loop's decision on new limits for the policy named `policy`:
/// the new count of lowering samples, and the event to send, if any.
pub fn debounce_limits(limits: Option<(u32, u32)>, current_max: u32, samples: u8, policy: u8) -> (res: (
    u8,
    Option<Event>,
))
    ensures
        res == downshift_step(limits, current_max, samples, policy),
{
    match limits {
        None => (0, None),
        Some(l) => {
            if l.1 < current_max {
                let counted = samples.saturating_add(1);
                if counted < 3 {
                    return (counted, None);
                }
            }
            (0, Some(Event::SetFreq((policy, l))))
        },
    }
}

/// Law: new limits keep the tuning's minimum and put the maximum within the
/// tuning's range, whatever the load target was.
pub proof fn lemma_target_within_range(rounded: u32, current_max: u32, tuning: MPolicy)
    requires
        tuning.min_freq <= tuning.max_freq,
    ensures
        target_limits(rounded, current_max, tuning) matches Some(l) ==> l.0 == tuning.min_freq
            && tuning.min_freq <= l.1 <= tuning.max_freq,
        target_limits(rounded, current_max, tuning) matches Some(l) ==> freq_distance(
            l.1,
            current_max,
        ) >= tuning.diff,
{
}

/// Law: from a reset count, a lower maximum is held back on the first and the
/// second sample that ask for it and sent on the third; a rise is sent at once.
pub proof fn lemma_downshift_needs_three_samples(limits: (u32, u32), current_max: u32, policy: u8)
    ensures
        limits.1 < current_max ==> {
            let first = downshift_step(Some(limits), current_max, 0, policy);
            let second = downshift_step(Some(limits), current_max, first.0, policy);
            let third = downshift_step(Some(limits), current_max, second.0, policy);
            &&& first.1 is None
            &&& second.1 is None
            &&& third.1 == Some(Event::SetFreq((policy, limits)))
            &&& third.0 == 0
        },
        limits.1 >= current_max ==> downshift_step(Some(limits), current_max, 0, policy) == (
            0u8,
            Some(Event::SetFreq((policy, limits))),
        ),
        downshift_step(None, current_max, 2, policy) == (0u8, None::<Event>),
{
}


/// Law: the rounded target, kept within the tuning's `min_freq..=max_freq`,
/// becomes the new maximum over `min_freq` exactly when it lies at least
/// `diff` away from the current maximum; otherwise nothing changes. In
/// particular a target above the range asks for the range's maximum.
pub proof fn lemma_target_limits_exact(rounded: u32, current_max: u32, tuning: MPolicy)
    requires
        tuning.min_freq <= tuning.max_freq,
    ensures
        ({
            let kept: u32 = if rounded < tuning.min_freq {
                tuning.min_freq
            } else if rounded > tuning.max_freq {
                tuning.max_freq
            } else {
                rounded
            };
            let distance: int = if kept >= current_max {
                kept - current_max
            } else {
                current_max - kept
            };
            &&& target_limits(rounded, current_max, tuning) is None <==> distance < tuning.diff
            &&& distance >= tuning.diff ==> target_limits(rounded, current_max, tuning) == Some(
                (tuning.min_freq, kept),
            )
        }),
        rounded > tuning.max_freq && current_max + tuning.diff <= tuning.max_freq
            ==> target_limits(rounded, current_max, tuning) == Some(
            (tuning.min_freq, tuning.max_freq),
        ),
{
}

/// Law: a `/proc/stat` line of a CPU in range with at least four counters
/// records in that CPU's slot the sum of all its counters and, as idle time,
/// its fourth counter plus its fifth (the iowait time) where there is one;
/// where the slot held an earlier nonzero total below the new one, it counts
/// one load: the share of the elapsed time that was not idle, in percent.
pub proof fn lemma_line_records_idle_with_iowait(t: LoadTally, line: Seq<char>, from: u32, to: u32)
    requires
        stat_slot(line, from, to) is Some,
        parsed_u64s(words(line).skip(1)).len() >= 4,
        t.history.len() == history_len(from, to),
    ensures
        ({
            let slot = stat_slot(line, from, to)->0;
            let parts = parsed_u64s(words(line).skip(1));
            let total = seq_sum(parts);
            let idle: int = if parts.len() >= 5 {
                parts[3] + parts[4]
            } else {
                parts[3] as int
            };
            let prev = t.history[slot];
            let after = tally_line(t, line, from, to);
            &&& after.fits ==> after.history == t.history.update(slot, (total as u64, idle as u64))
            &&& after.fits ==> after.history[slot].0 == total && after.history[slot].1 == idle
            &&& (prev.0 != 0 && total > prev.0 && idle >= prev.1 && total - prev.0 >= idle - prev.1)
                ==> after.counted == t.counted + 1 && after.load_sum == t.load_sum + ((total
                - prev.0) - (idle - prev.1)) * 100 / (total - prev.0)
            &&& !(prev.0 != 0 && total > prev.0) ==> after.counted == t.counted && after.load_sum
                == t.load_sum
        }),
{
    let slot = stat_slot(line, from, to)->0;
    assert(0 <= slot < t.history.len());
    let parts = parsed_u64s(words(line).skip(1));
    let total = seq_sum(parts);
    lemma_sum_prefix_le(parts, 0);
    let idle: int = if parts.len() >= 5 {
        parts[3] + parts[4]
    } else {
        parts[3] as int
    };
    let prev = t.history[slot];
    let after = tally_line(t, line, from, to);
    assert(after.fits ==> after.history == t.history.update(slot, (total as u64, idle as u64)));
    assert(after.fits ==> after.history[slot].0 == total && after.history[slot].1 == idle);
    assert((prev.0 != 0 && total > prev.0 && idle >= prev.1 && total - prev.0 >= idle - prev.1)
                ==> after.counted == t.counted + 1 && after.load_sum == t.load_sum + ((total
                - prev.0) - (idle - prev.1)) * 100 / (total - prev.0));
    assert(!(prev.0 != 0 && total > prev.0) ==> after.counted == t.counted && after.load_sum
                == t.load_sum);
}


/// Law: sampling a report that consists of a single line applies that line
/// to the history with nothing counted yet.
pub proof fn lemma_single_line_sample(stat: Seq<char>, history: Seq<(u64, u64)>, from: u32, to: u32)
    requires
        lines(stat).len() == 1,
    ensures
        stat_tally(stat, history, from, to) == tally_line(
            LoadTally { history, load_sum: 0, counted: 0, fits: true },
            lines(stat)[0],
            from,
            to,
        ),
{
    let ls = lines(stat);
    let init = LoadTally { history, load_sum: 0, counted: 0, fits: true };
    assert(ls.drop_last() =~= Seq::<Seq<char>>::empty());
    assert(tally_lines(init, ls.drop_last(), from, to) == init);
    assert(ls.last() == ls[0]);
    assert(tally_lines(init, ls, from, to) == tally_line(init, ls[0], from, to));
}

} // verus!
