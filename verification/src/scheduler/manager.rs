//! The scheduling events, and the hardware writes that each one takes.
use vstd::prelude::*;

use crate::config::data::{
    first_invalid_limits, first_issue, limits_invalid, mode_idle_governor, mode_issue, mode_policies,
    Config, MPolicy, Policy, RuntimeMode,
};

verus! {

/// A request to the manager, the only writer of the cpufreq files.
#[derive(Debug, Clone, Copy, PartialEq, Eq)]
pub enum Event {
    /// Touch boost: set the limits `(min, max)` of the policy named.
    Boost((u8, (u32, u32))),
    /// Load tracking: set the limits `(min, max)` of the policy named.
    SetFreq((u8, (u32, u32))),
    /// Apply a mode's governors, frequency ranges and idle governor.
    ApplyMode(RuntimeMode),
    /// Give every policy back its hardware frequency range.
    RestoreHardware,
    /// Apply a mode's screen-off ranges.
    ApplySleep(RuntimeMode),
    /// A touch boost is over: apply the mode again.
    EndBoost(RuntimeMode),
}

/// One write to the cpufreq or cpuidle files.
pub enum HardwareAction {
    /// Write the scaling governor of the policy named.
    SetGovernor(u8, String),
    /// Write the limits `(min, max)` of the policy named.
    SetLimits(u8, (u32, u32)),
    /// Write the cpuidle governor.
    SetIdleGovernor(String),
    /// Write every policy's hardware range.
    RestoreHardwareLimits,
}

/// The abstract form of a hardware write.
pub ghost enum ActionView {
    SetGovernor(u8, Seq<char>),
    SetLimits(u8, (u32, u32)),
    SetIdleGovernor(Seq<char>),
    RestoreHardwareLimits,
}

pub open spec fn action_view(a: HardwareAction) -> ActionView {
    match a {
        HardwareAction::SetGovernor(p, g) => ActionView::SetGovernor(p, g@),
        HardwareAction::SetLimits(p, l) => ActionView::SetLimits(p, l),
        HardwareAction::SetIdleGovernor(g) => ActionView::SetIdleGovernor(g@),
        HardwareAction::RestoreHardwareLimits => ActionView::RestoreHardwareLimits,
    }
}

/// The number of clusters that a mode's tunings pair with: clusters and
/// tunings go together by position, as far as both reach.
pub open spec fn paired(c: Config, mode: RuntimeMode) -> nat {
    if c.policy@.len() <= mode_policies(c, mode).len() {
        c.policy@.len()
    } else {
        mode_policies(c, mode).len()
    }
}

/// The writes that apply the first `k` pairs of a mode: each cluster gets
/// the tuning's governor, then its range `(min_freq, max_freq)`.
pub open spec fn mode_writes(cpus: Seq<Policy>, ps: Seq<MPolicy>, k: int) -> Seq<ActionView>
    decreases k,
{
    if k <= 0 {
        seq![]
    } else {
        mode_writes(cpus, ps, k - 1) + seq![
            ActionView::SetGovernor(cpus[k - 1].from as u8, ps[k - 1].governor@),
            ActionView::SetLimits(cpus[k - 1].from as u8, (ps[k - 1].min_freq, ps[k - 1].max_freq)),
        ]
    }
}

/// The writes that apply the first `k` pairs of a mode's screen-off ranges
/// `(min_freq, sleep_freq)`.
pub open spec fn sleep_writes(cpus: Seq<Policy>, ps: Seq<MPolicy>, k: int) -> Seq<ActionView>
    decreases k,
{
    if k <= 0 {
        seq![]
    } else {
        sleep_writes(cpus, ps, k - 1) + seq![
            ActionView::SetLimits(cpus[k - 1].from as u8, (ps[k - 1].min_freq, ps[k - 1].sleep_freq)),
        ]
    }
}

/// The writes that an event takes, in order.
pub open spec fn event_writes(c: Config, e: Event) -> Seq<ActionView> {
    match e {
        Event::Boost((p, limits)) => seq![ActionView::SetLimits(p, limits)],
        Event::SetFreq((p, limits)) => seq![ActionView::SetLimits(p, limits)],
        Event::ApplyMode(m) => mode_writes(c.policy@, mode_policies(c, m), paired(c, m) as int)
            + seq![ActionView::SetIdleGovernor(mode_idle_governor(c, m))],
        Event::EndBoost(m) => mode_writes(c.policy@, mode_policies(c, m), paired(c, m) as int)
            + seq![ActionView::SetIdleGovernor(mode_idle_governor(c, m))],
        Event::RestoreHardware => seq![ActionView::RestoreHardwareLimits],
        Event::ApplySleep(m) => sleep_writes(c.policy@, mode_policies(c, m), paired(c, m) as int),
    }
}

fn plan_mode(config: &Config, mode: RuntimeMode) -> (res: Vec<HardwareAction>)
    ensures
        res@.map_values(|a: HardwareAction| action_view(a)) == event_writes(
            *config,
            Event::ApplyMode(mode),
        ),
{
    let set = config.mode_policy(mode);
    let n = if config.policy.len() <= set.policy.len() {
        config.policy.len()
    } else {
        set.policy.len()
    };
    let mut res: Vec<HardwareAction> = Vec::new();
    let mut k: usize = 0;
    while k < n
        invariant
            k <= n,
            n == paired(*config, mode),
            n <= config.policy@.len(),
            n <= set.policy@.len(),
            set.policy@ == mode_policies(*config, mode),
            res@.map_values(|a: HardwareAction| action_view(a)) == mode_writes(
                config.policy@,
                set.policy@,
                k as int,
            ),
        decreases n - k,
    {
        let p = config.policy[k].from as u8;
        let tuning = &set.policy[k];
        let ghost before = res@;
        res.push(HardwareAction::SetGovernor(p, tuning.governor.clone()));
        res.push(HardwareAction::SetLimits(p, (tuning.min_freq, tuning.max_freq)));
        assert(res@.map_values(|a: HardwareAction| action_view(a)) =~= before.map_values(
            |a: HardwareAction| action_view(a),
        ) + seq![
            ActionView::SetGovernor(p, set.policy@[k as int].governor@),
            ActionView::SetLimits(p, (tuning.min_freq, tuning.max_freq)),
        ]);
        k = k + 1;
    }
    let ghost before = res@;
    res.push(HardwareAction::SetIdleGovernor(set.idle_governor.to_owned()));
    assert(res@.map_values(|a: HardwareAction| action_view(a)) =~= before.map_values(
        |a: HardwareAction| action_view(a),
    ) + seq![ActionView::SetIdleGovernor(mode_idle_governor(*config, mode))]);
    res
}

fn plan_sleep(config: &Config, mode: RuntimeMode) -> (res: Vec<HardwareAction>)
    ensures
        res@.map_values(|a: HardwareAction| action_view(a)) == event_writes(
            *config,
            Event::ApplySleep(mode),
        ),
{
    let set = config.mode_policy(mode);
    let n = if config.policy.len() <= set.policy.len() {
        config.policy.len()
    } else {
        set.policy.len()
    };
    let mut res: Vec<HardwareAction> = Vec::new();
    let mut k: usize = 0;
    while k < n
        invariant
            k <= n,
            n == paired(*config, mode),
            n <= config.policy@.len(),
            n <= set.policy@.len(),
            set.policy@ == mode_policies(*config, mode),
            res@.map_values(|a: HardwareAction| action_view(a)) == sleep_writes(
                config.policy@,
                set.policy@,
                k as int,
            ),
        decreases n - k,
    {
        let p = config.policy[k].from as u8;
        let tuning = &set.policy[k];
        let ghost before = res@;
        res.push(HardwareAction::SetLimits(p, (tuning.min_freq, tuning.sleep_freq)));
        assert(res@.map_values(|a: HardwareAction| action_view(a)) =~= before.map_values(
            |a: HardwareAction| action_view(a),
        ) + seq![ActionView::SetLimits(p, (tuning.min_freq, tuning.sleep_freq))]);
        k = k + 1;
    }
    res
}

/// The hardware writes that `event` takes under `config`, in the order the
/// manager performs them; the manager stops at the first that fails.
pub fn plan_event(config: &Config, event: Event) -> (res: Vec<HardwareAction>)
    ensures
        res@.map_values(|a: HardwareAction| action_view(a)) == event_writes(*config, event),
{
    match event {
        Event::Boost((p, limits)) | Event::SetFreq((p, limits)) => {
            let res = vec![HardwareAction::SetLimits(p, limits)];
            assert(res@.map_values(|a: HardwareAction| action_view(a)) =~= event_writes(
                *config,
                event,
            ));
            res
        },
        Event::ApplyMode(m) | Event::EndBoost(m) => plan_mode(config, m),
        Event::RestoreHardware => {
            let res = vec![HardwareAction::RestoreHardwareLimits];
            assert(res@.map_values(|a: HardwareAction| action_view(a)) =~= event_writes(
                *config,
                event,
            ));
            res
        },
        Event::ApplySleep(m) => plan_sleep(config, m),
    }
}

/// Whether the manager reports an event in the log once it succeeded: the
/// mode, hardware and sleep events are, the frequency updates are not.
pub fn reports_success(event: &Event) -> (res: bool)
    ensures
        res == (event is ApplyMode || event is RestoreHardware || event is ApplySleep),
{
    match event {
        Event::ApplyMode(_) | Event::RestoreHardware | Event::ApplySleep(_) => true,
        _ => false,
    }
}

proof fn lemma_no_invalid_from(ps: Seq<MPolicy>, j: int)
    requires
        0 <= j,
        first_invalid_limits(ps, j) is None,
    ensures
        forall|k: int| j <= k < ps.len() ==> !limits_invalid(#[trigger] ps[k]),
    decreases ps.len() - j,
{
    if j < ps.len() {
        lemma_no_invalid_from(ps, j + 1);
    }
}

/// Whether every range that a list of writes sets has its minimum no greater
/// than its maximum.
pub open spec fn ranges_ordered(ws: Seq<ActionView>) -> bool {
    forall|k: int|
        0 <= k < ws.len() ==> (#[trigger] ws[k] matches ActionView::SetLimits(_, l) ==> l.0 <= l.1)
}

proof fn lemma_mode_writes_ordered(cpus: Seq<Policy>, ps: Seq<MPolicy>, n: int)
    requires
        0 <= n <= cpus.len(),
        n <= ps.len(),
        forall|k: int| 0 <= k < n ==> !limits_invalid(#[trigger] ps[k]),
    ensures
        ranges_ordered(mode_writes(cpus, ps, n)),
        ranges_ordered(sleep_writes(cpus, ps, n)),
    decreases n,
{
    if n > 0 {
        lemma_mode_writes_ordered(cpus, ps, n - 1);
        assert(!limits_invalid(ps[n - 1]));
        let a = mode_writes(cpus, ps, n - 1);
        let b = mode_writes(cpus, ps, n);
        assert forall|k: int| 0 <= k < b.len() implies (#[trigger] b[k] matches ActionView::SetLimits(
            _,
            l,
        ) ==> l.0 <= l.1) by {
            if k < a.len() {
                assert(b[k] == a[k]);
            }
        }
        let c = sleep_writes(cpus, ps, n - 1);
        let d = sleep_writes(cpus, ps, n);
        assert forall|k: int| 0 <= k < d.len() implies (#[trigger] d[k] matches ActionView::SetLimits(
            _,
            l,
        ) ==> l.0 <= l.1) by {
            if k < c.len() {
                assert(d[k] == c[k]);
            }
        }
    }
}

/// Law: under a configuration that passes validation, applying a mode, ending
/// a boost or applying a sleep range never asks for a range whose minimum
/// exceeds its maximum, so the limit planner never refuses one of them.
pub proof fn lemma_validated_writes_ordered(c: Config, m: RuntimeMode)
    requires
        first_issue(c) is None,
    ensures
        ranges_ordered(event_writes(c, Event::ApplyMode(m))),
        ranges_ordered(event_writes(c, Event::EndBoost(m))),
        ranges_ordered(event_writes(c, Event::ApplySleep(m))),
{
    assert(mode_issue(c, m) is None);
    let ps = mode_policies(c, m);
    lemma_no_invalid_from(ps, 0);
    let n = paired(c, m) as int;
    lemma_mode_writes_ordered(c.policy@, ps, n);
    let w = mode_writes(c.policy@, ps, n);
    let all = w + seq![ActionView::SetIdleGovernor(mode_idle_governor(c, m))];
    assert forall|k: int| 0 <= k < all.len() implies (#[trigger] all[k] matches ActionView::SetLimits(
        _,
        l,
    ) ==> l.0 <= l.1) by {
        if k < w.len() {
            assert(all[k] == w[k]);
        }
    }
}


proof fn lemma_sleep_writes_shape(cpus: Seq<Policy>, ps: Seq<MPolicy>, n: int)
    requires
        0 <= n <= cpus.len(),
        n <= ps.len(),
    ensures
        sleep_writes(cpus, ps, n).len() == n,
        forall|k: int|
            0 <= k < n ==> #[trigger] sleep_writes(cpus, ps, n)[k] == ActionView::SetLimits(
                cpus[k].from as u8,
                (ps[k].min_freq, ps[k].sleep_freq),
            ),
    decreases n,
{
    if n > 0 {
        lemma_sleep_writes_shape(cpus, ps, n - 1);
        let a = sleep_writes(cpus, ps, n - 1);
        assert forall|k: int| 0 <= k < n implies #[trigger] sleep_writes(cpus, ps, n)[k]
            == ActionView::SetLimits(cpus[k].from as u8, (ps[k].min_freq, ps[k].sleep_freq)) by {
            if k < n - 1 {
                assert(sleep_writes(cpus, ps, n)[k] == a[k]);
            }
        }
    }
}

proof fn lemma_mode_writes_shape(cpus: Seq<Policy>, ps: Seq<MPolicy>, n: int)
    requires
        0 <= n <= cpus.len(),
        n <= ps.len(),
    ensures
        mode_writes(cpus, ps, n).len() == 2 * n,
        forall|k: int|
            0 <= k < n ==> #[trigger] mode_writes(cpus, ps, n)[2 * k] == ActionView::SetGovernor(
                cpus[k].from as u8,
                ps[k].governor@,
            ) && mode_writes(cpus, ps, n)[2 * k + 1] == ActionView::SetLimits(
                cpus[k].from as u8,
                (ps[k].min_freq, ps[k].max_freq),
            ),
    decreases n,
{
    if n > 0 {
        lemma_mode_writes_shape(cpus, ps, n - 1);
        let a = mode_writes(cpus, ps, n - 1);
        let b = mode_writes(cpus, ps, n);
        assert forall|k: int| 0 <= k < n implies #[trigger] b[2 * k] == ActionView::SetGovernor(
            cpus[k].from as u8,
            ps[k].governor@,
        ) && b[2 * k + 1] == ActionView::SetLimits(
            cpus[k].from as u8,
            (ps[k].min_freq, ps[k].max_freq),
        ) by {
            if k < n - 1 {
                assert(b[2 * k] == a[2 * k]);
                assert(b[2 * k + 1] == a[2 * k + 1]);
            }
        }
    }
}

/// Law: the screen-off event gives each paired cluster, in order, its own
/// tuning's range `(min_freq, sleep_freq)` of the mode, and writes nothing else.
pub proof fn lemma_sleep_event_writes(c: Config, m: RuntimeMode)
    ensures
        event_writes(c, Event::ApplySleep(m)).len() == paired(c, m),
        forall|k: int|
            0 <= k < paired(c, m) ==> #[trigger] event_writes(c, Event::ApplySleep(m))[k]
                == ActionView::SetLimits(
                c.policy@[k].from as u8,
                (mode_policies(c, m)[k].min_freq, mode_policies(c, m)[k].sleep_freq),
            ),
{
    lemma_sleep_writes_shape(c.policy@, mode_policies(c, m), paired(c, m) as int);
}

/// Law: applying a mode gives each paired cluster, in order, its own tuning's
/// governor and then its range `(min_freq, max_freq)`, and ends with the
/// mode's idle governor; ending a boost writes the same.
pub proof fn lemma_mode_event_writes(c: Config, m: RuntimeMode)
    ensures
        event_writes(c, Event::ApplyMode(m)).len() == 2 * paired(c, m) + 1,
        forall|k: int|
            0 <= k < paired(c, m) ==> #[trigger] event_writes(c, Event::ApplyMode(m))[2 * k]
                == ActionView::SetGovernor(c.policy@[k].from as u8, mode_policies(c, m)[k].governor@)
                && event_writes(c, Event::ApplyMode(m))[2 * k + 1] == ActionView::SetLimits(
                c.policy@[k].from as u8,
                (mode_policies(c, m)[k].min_freq, mode_policies(c, m)[k].max_freq),
            ),
        event_writes(c, Event::ApplyMode(m))[2 * paired(c, m) as int] == ActionView::SetIdleGovernor(
            mode_idle_governor(c, m),
        ),
        event_writes(c, Event::EndBoost(m)) == event_writes(c, Event::ApplyMode(m)),
{
    let n = paired(c, m) as int;
    let w = mode_writes(c.policy@, mode_policies(c, m), n);
    lemma_mode_writes_shape(c.policy@, mode_policies(c, m), n);
    let all = event_writes(c, Event::ApplyMode(m));
    assert forall|k: int| 0 <= k < n implies #[trigger] all[2 * k] == ActionView::SetGovernor(
        c.policy@[k].from as u8,
        mode_policies(c, m)[k].governor@,
    ) && all[2 * k + 1] == ActionView::SetLimits(
        c.policy@[k].from as u8,
        (mode_policies(c, m)[k].min_freq, mode_policies(c, m)[k].max_freq),
    ) by {
        assert(all[2 * k] == w[2 * k]);
        assert(all[2 * k + 1] == w[2 * k + 1]);
    }
}

} // verus!
