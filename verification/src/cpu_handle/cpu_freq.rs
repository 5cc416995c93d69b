//! The cpufreq limits of a cluster: the order in which new limits are
//! written, and the frequency table that targets are rounded to.
use vstd::prelude::*;

use crate::text::{chars_of, parse_bounded, parse_unsigned, split_words, trim, trimmed, words};

verus! {

/// One write to a cluster's cpufreq limits.
#[derive(Debug, Clone, Copy, PartialEq, Eq, Structural)]
pub enum LimitWrite {
    /// Write `scaling_min_freq`.
    Min(u32),
    /// Write `scaling_max_freq`.
    Max(u32),
}

/// New limits whose minimum exceeds their maximum.
#[derive(Debug, Clone, Copy, PartialEq, Eq, Structural)]
pub struct InvertedLimits {
    pub min: u32,
    pub max: u32,
}

/// The writes that take the limits from `current` to `target`, both given as
/// `(min, max)`: where the maximum rises it is written first, otherwise the
/// minimum is; a limit that does not change is not written.
pub open spec fn limit_plan(current: (u32, u32), target: (u32, u32)) -> Seq<LimitWrite> {
    let max_write = if target.1 != current.1 {
        seq![LimitWrite::Max(target.1)]
    } else {
        seq![]
    };
    let min_write = if target.0 != current.0 {
        seq![LimitWrite::Min(target.0)]
    } else {
        seq![]
    };
    if target.1 > current.1 {
        max_write + min_write
    } else {
        min_write + max_write
    }
}

/// The limits after one write.
pub open spec fn apply_write(limits: (u32, u32), write: LimitWrite) -> (u32, u32) {
    match write {
        LimitWrite::Min(v) => (v, limits.1),
        LimitWrite::Max(v) => (limits.0, v),
    }
}

/// The limits after the writes `ws`, in order.
pub open spec fn apply_writes(limits: (u32, u32), ws: Seq<LimitWrite>) -> (u32, u32)
    decreases ws.len(),
{
    if ws.len() == 0 {
        limits
    } else {
        apply_write(apply_writes(limits, ws.drop_last()), ws.last())
    }
}

/// Plans the writes from the `current` limits to the `target` ones, both
/// given as `(min, max)`; an inverted target is refused.
pub fn plan_limit_writes(current: (u32, u32), target: (u32, u32)) -> (res: Result<
    Vec<LimitWrite>,
    InvertedLimits,
>)
    ensures
        target.0 > target.1 ==> res == Err::<Vec<LimitWrite>, InvertedLimits>(
            InvertedLimits { min: target.0, max: target.1 },
        ),
        target.0 <= target.1 ==> (res matches Ok(ws) && ws@ == limit_plan(current, target)),
{
    if target.0 > target.1 {
        return Err(InvertedLimits { min: target.0, max: target.1 });
    }
    let mut writes: Vec<LimitWrite> = Vec::new();
    if target.1 > current.1 {
        if target.1 != current.1 {
            writes.push(LimitWrite::Max(target.1));
        }
        if target.0 != current.0 {
            writes.push(LimitWrite::Min(target.0));
        }
    } else {
        if target.0 != current.0 {
            writes.push(LimitWrite::Min(target.0));
        }
        if target.1 != current.1 {
            writes.push(LimitWrite::Max(target.1));
        }
    }
    assert(writes@ =~= limit_plan(current, target));
    Ok(writes)
}

/// Law: from valid limits to a valid target, the planned writes reach the
/// target, every limits in between keep the minimum no greater than the
/// maximum, and each limit is written at most once and only if it changes.
pub proof fn lemma_limit_plan_safe(current: (u32, u32), target: (u32, u32))
    requires
        current.0 <= current.1,
        target.0 <= target.1,
    ensures
        apply_writes(current, limit_plan(current, target)) == target,
        forall|k: int|
            0 <= k <= limit_plan(current, target).len() ==> #[trigger] apply_writes(
                current,
                limit_plan(current, target).take(k),
            ).0 <= apply_writes(current, limit_plan(current, target).take(k)).1,
        limit_plan(current, target).len() <= 2,
        (exists|k: int|
            0 <= k < limit_plan(current, target).len() && limit_plan(current, target)[k] is Min)
            <==> target.0 != current.0,
        (exists|k: int|
            0 <= k < limit_plan(current, target).len() && limit_plan(current, target)[k] is Max)
            <==> target.1 != current.1,
{
    reveal_with_fuel(apply_writes, 3);
    let plan = limit_plan(current, target);
    assert(plan.take(0) =~= Seq::<LimitWrite>::empty());
    if plan.len() >= 1 {
        assert(plan.take(1) =~= seq![plan[0]]);
        assert(seq![plan[0]].drop_last() =~= Seq::<LimitWrite>::empty());
    }
    if plan.len() == 2 {
        assert(plan.take(2) =~= seq![plan[0], plan[1]]);
        assert(seq![plan[0], plan[1]].drop_last() =~= seq![plan[0]]);
    }
    assert(plan.take(plan.len() as int) =~= plan);
    assert forall|k: int| 0 <= k <= plan.len() implies #[trigger] apply_writes(
        current,
        plan.take(k),
    ).0 <= apply_writes(current, plan.take(k)).1 by {}
    if target.0 != current.0 {
        if target.1 > current.1 {
            assert(plan[plan.len() - 1] is Min);
        } else {
            assert(plan[0] is Min);
        }
    }
    if target.1 != current.1 {
        if target.1 > current.1 {
            assert(plan[0] is Max);
        } else {
            assert(plan[plan.len() - 1] is Max);
        }
    }
}

/// The frequency that a sysfs value holds: its trimmed text as a `u32`.
pub open spec fn frequency_value(text: Seq<char>) -> Option<u32> {
    match parse_unsigned(trim(text), u32::MAX as nat) {
        Some(n) => Some(n as u32),
        None => None,
    }
}

/// Reads the frequency that the text of a sysfs file holds.
pub fn parse_frequency(text: &str) -> (res: Option<u32>)
    ensures
        res == frequency_value(text@),
{
    match parse_bounded(&trimmed(&chars_of(text)), u32::MAX as u64) {
        Some(n) => Some(n as u32),
        None => None,
    }
}

/// Whether the values of `s` strictly increase.
pub open spec fn strictly_increasing(s: Seq<u32>) -> bool {
    forall|i: int, j: int| 0 <= i < j < s.len() ==> s[i] < s[j]
}

/// Whether the text of `scaling_available_frequencies` offers `f` within the
/// hardware bounds: some word of it spells `f`, and `lo <= f <= hi`.
pub open spec fn offers(text: Seq<char>, lo: u32, hi: u32, f: u32) -> bool {
    &&& lo <= f <= hi
    &&& exists|k: int|
        0 <= k < words(text).len() && parse_unsigned(#[trigger] words(text)[k], u32::MAX as nat)
            == Some(f as nat)
}

/// Adds `x` to a strictly increasing vector, where it is not there yet.
fn insert_sorted(v: &mut Vec<u32>, x: u32)
    requires
        strictly_increasing(old(v)@),
    ensures
        strictly_increasing(final(v)@),
        final(v)@.to_set() == old(v)@.to_set().insert(x),
{
    let mut i: usize = 0;
    while i < v.len() && v[i] < x
        invariant
            i <= v.len(),
            v@ == old(v)@,
            forall|k: int| 0 <= k < i ==> v@[k] < x,
        decreases v.len() - i,
    {
        i = i + 1;
    }
    if i < v.len() && v[i] == x {
        assert(v@.to_set() =~= old(v)@.to_set().insert(x));
        return;
    }
    let ghost before = v@;
    assert(before == old(v)@);
    v.insert(i, x);
    assert(v@ == before.insert(i as int, x));
    assert forall|f: u32| #[trigger] v@.contains(f) <==> (before.contains(f) || f == x) by {
        if v@.contains(f) {
            let k = choose|k: int| 0 <= k < v@.len() && v@[k] == f;
            if k < i {
                assert(before[k] == f);
            } else if k > i {
                assert(before[k - 1] == f);
            }
        }
        if before.contains(f) {
            let k = choose|k: int| 0 <= k < before.len() && before[k] == f;
            if k < i {
                assert(v@[k] == f);
            } else {
                assert(v@[k + 1] == f);
            }
        }
        if f == x {
            assert(v@[i as int] == x);
        }
    }
    assert(v@.to_set() =~= before.to_set().insert(x));
}

/// The frequencies that the text of `scaling_available_frequencies` offers
/// within `lo..=hi`, in increasing order and each once.
pub fn available_frequencies(text: &str, lo: u32, hi: u32) -> (res: Vec<u32>)
    ensures
        strictly_increasing(res@),
        forall|f: u32| res@.contains(f) <==> offers(text@, lo, hi, f),
{
    let ws = split_words(&chars_of(text));
    let mut res: Vec<u32> = Vec::new();
    let mut k: usize = 0;
    while k < ws.len()
        invariant
            k <= ws.len(),
            ws.len() == words(text@).len(),
            forall|j: int| 0 <= j < ws.len() ==> (#[trigger] ws@[j])@ == words(text@)[j],
            strictly_increasing(res@),
            forall|f: u32|
                res@.contains(f) <==> (lo <= f <= hi && exists|j: int|
                    0 <= j < k && parse_unsigned(#[trigger] words(text@)[j], u32::MAX as nat)
                        == Some(f as nat)),
        decreases ws.len() - k,
    {
        let parsed = parse_bounded(&ws[k], u32::MAX as u64);
        assert(ws@[k as int]@ == words(text@)[k as int]);
        let ghost before = res@;
        let mut added = false;
        match parsed {
            Some(n) => {
                let f = n as u32;
                if lo <= f && f <= hi {
                    insert_sorted(&mut res, f);
                    added = true;
                }
            },
            None => {},
        }
        assert forall|f: u32|
            res@.contains(f) <==> (lo <= f <= hi && exists|j: int|
                0 <= j < k + 1 && parse_unsigned(#[trigger] words(text@)[j], u32::MAX as nat)
                    == Some(f as nat)) by {
            assert(res@.to_set().contains(f) == res@.contains(f));
            assert(before.to_set().contains(f) == before.contains(f));
            if added {
                assert(res@.to_set() == before.to_set().insert(parsed->0 as u32));
            } else {
                assert(res@ == before);
            }
            if lo <= f <= hi && parse_unsigned(words(text@)[k as int], u32::MAX as nat) == Some(
                f as nat,
            ) {
                assert(parsed == Some(f as u64));
            }
        }
        k = k + 1;
    }
    res
}

/// The frequency that a target rounds up to in a table: the smallest entry
/// no lower than the target, else the highest entry, else the target itself.
pub open spec fn rounds_to(table: Seq<u32>, target: u32, res: u32) -> bool {
    if exists|i: int| 0 <= i < table.len() && table[i] >= target {
        &&& table.contains(res)
        &&& res >= target
        &&& forall|i: int| 0 <= i < table.len() && table[i] >= target ==> res <= table[i]
    } else if table.len() > 0 {
        res == table.last()
    } else {
        res == target
    }
}

/// What a cluster's cpufreq policy offers: its hardware bounds, the governor
/// it had at start, and its frequency table.
pub struct Policy {
    hardware_min: u32,
    hardware_max: u32,
    original_governor: String,
    available_frequencies: Vec<u32>,
}

impl Policy {
    #[verifier::type_invariant]
    spec fn table_sorted(self) -> bool {
        &&& strictly_increasing(self.available_frequencies@)
        &&& forall|i: int|
            0 <= i < self.available_frequencies@.len() ==> self.hardware_min
                <= #[trigger] self.available_frequencies@[i] <= self.hardware_max
    }

    /// The hardware bounds `(cpuinfo_min_freq, cpuinfo_max_freq)`.
    pub closed spec fn spec_hardware_limits(&self) -> (u32, u32) {
        (self.hardware_min, self.hardware_max)
    }

    /// The governor that the cluster had at start.
    pub closed spec fn spec_original_governor(&self) -> Seq<char> {
        self.original_governor@
    }

    /// The frequency table, in increasing order.
    pub closed spec fn spec_table(&self) -> Seq<u32> {
        self.available_frequencies@
    }

    /// The policy that the cluster's sysfs readings describe: its hardware
    /// bounds, its governor at start, and the text of its available frequencies.
    pub fn from_readings(
        hardware_min: u32,
        hardware_max: u32,
        original_governor: String,
        available_text: &str,
    ) -> (res: Policy)
        ensures
            res.spec_hardware_limits() == (hardware_min, hardware_max),
            res.spec_original_governor() == original_governor@,
            strictly_increasing(res.spec_table()),
            forall|f: u32|
                res.spec_table().contains(f) <==> offers(
                    available_text@,
                    hardware_min,
                    hardware_max,
                    f,
                ),
    {
        let available_frequencies = available_frequencies(available_text, hardware_min, hardware_max);
        assert forall|i: int| 0 <= i < available_frequencies@.len() implies hardware_min
            <= #[trigger] available_frequencies@[i] <= hardware_max by {
            assert(available_frequencies@.contains(available_frequencies@[i]));
        }
        Policy { hardware_min, hardware_max, original_governor, available_frequencies }
    }

    pub fn hardware_limits(&self) -> (res: (u32, u32))
        ensures
            res == self.spec_hardware_limits(),
    {
        (self.hardware_min, self.hardware_max)
    }

    pub fn original_governor(&self) -> (res: &str)
        ensures
            res@ == self.spec_original_governor(),
    {
        self.original_governor.as_str()
    }

    pub fn available(&self) -> (res: &[u32])
        ensures
            res@ == self.spec_table(),
            strictly_increasing(res@),
            forall|i: int|
                0 <= i < res@.len() ==> self.spec_hardware_limits().0 <= #[trigger] res@[i]
                    <= self.spec_hardware_limits().1,
    {
        proof {
            use_type_invariant(self);
        }
        self.available_frequencies.as_slice()
    }

    /// The table frequency that `target` rounds up to.
    pub fn round_up_frequency(&self, target: u32) -> (res: u32)
        ensures
            rounds_to(self.spec_table(), target, res),
            self.spec_table().len() > 0 ==> self.spec_hardware_limits().0 <= res
                <= self.spec_hardware_limits().1,
    {
        proof {
            use_type_invariant(self);
        }
        let res = self.round_up_in_table(target);
        proof {
            if self.spec_table().len() > 0 {
                lemma_rounded_within_hardware(
                    self.spec_table(),
                    self.hardware_min,
                    self.hardware_max,
                    target,
                    res,
                );
            }
        }
        res
    }

    fn round_up_in_table(&self, target: u32) -> (res: u32)
        requires
            strictly_increasing(self.spec_table()),
        ensures
            rounds_to(self.spec_table(), target, res),
    {
        let table = &self.available_frequencies;
        let mut i: usize = 0;
        while i < table.len()
            invariant
                i <= table.len(),
                table@ == self.spec_table(),
                strictly_increasing(table@),
                forall|k: int| 0 <= k < i ==> table@[k] < target,
            decreases table.len() - i,
        {
            if table[i] >= target {
                assert(table@.contains(table@[i as int]));
                assert(exists|k: int| 0 <= k < table@.len() && table@[k] >= target);
                assert forall|k: int| 0 <= k < table@.len() && table@[k] >= target implies table@[i as int] <= table@[k] by {
                    if k < i {
                    } else if k > i {
                        assert(table@[i as int] < table@[k]);
                    }
                }
                return table[i];
            }
            i = i + 1;
        }
        if table.len() > 0 {
            table[table.len() - 1]
        } else {
            target
        }
    }
}

/// Law: a target rounded in a non-empty table of a cluster is a frequency of
/// that table, and so within the cluster's hardware bounds.
pub proof fn lemma_rounded_within_hardware(table: Seq<u32>, lo: u32, hi: u32, target: u32, res: u32)
    requires
        table.len() > 0,
        forall|i: int| 0 <= i < table.len() ==> lo <= #[trigger] table[i] <= hi,
        rounds_to(table, target, res),
    ensures
        table.contains(res),
        lo <= res <= hi,
{
    if exists|i: int| 0 <= i < table.len() && table[i] >= target {
        let k = choose|k: int| 0 <= k < table.len() && table[k] == res;
        assert(lo <= table[k] <= hi);
    } else {
        assert(table[table.len() - 1] == res);
    }
}

} // verus!
