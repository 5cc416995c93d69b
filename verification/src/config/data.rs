//! The configuration: modes, clusters, per-mode tunings and the game list,
//! with the checks that a configuration must pass before it is used.
use vstd::prelude::*;

use crate::logger::{parse_level, LogLevel};
use crate::text::{
    ascii_lowercase, chars_eq, chars_of, decimal, push_decimal, to_ascii_lowercase, trim, trim_end,
    trim_start, trimmed,
};

verus! {

/// The scheduling mode selected by the user.
#[derive(Debug, Clone, Copy, PartialEq, Eq, Structural)]
pub enum RuntimeMode {
    Power,
    Balance,
    Performance,
    Fast,
}

/// Position of a mode in the fixed order powersave, balance, performance, fast.
pub open spec fn mode_index(mode: RuntimeMode) -> nat {
    match mode {
        RuntimeMode::Power => 0,
        RuntimeMode::Balance => 1,
        RuntimeMode::Performance => 2,
        RuntimeMode::Fast => 3,
    }
}

/// The mode at a position of that order, if there is one.
pub open spec fn mode_at(value: int) -> Option<RuntimeMode> {
    if value == 0 {
        Some(RuntimeMode::Power)
    } else if value == 1 {
        Some(RuntimeMode::Balance)
    } else if value == 2 {
        Some(RuntimeMode::Performance)
    } else if value == 3 {
        Some(RuntimeMode::Fast)
    } else {
        None
    }
}

/// The name of a mode in the mode file and the log.
pub open spec fn mode_name(mode: RuntimeMode) -> Seq<char> {
    match mode {
        RuntimeMode::Power => "powersave"@,
        RuntimeMode::Balance => "balance"@,
        RuntimeMode::Performance => "performance"@,
        RuntimeMode::Fast => "fast"@,
    }
}

/// The mode that a text names, once trimmed.
pub open spec fn parse_mode(value: Seq<char>) -> Option<RuntimeMode> {
    let t = trim(value);
    if t == "powersave"@ {
        Some(RuntimeMode::Power)
    } else if t == "balance"@ {
        Some(RuntimeMode::Balance)
    } else if t == "performance"@ {
        Some(RuntimeMode::Performance)
    } else if t == "fast"@ {
        Some(RuntimeMode::Fast)
    } else {
        None
    }
}

/// The mode that the characters `value` name, once trimmed.
pub fn parse_mode_chars(value: &Vec<char>) -> (res: Option<RuntimeMode>)
    ensures
        res == parse_mode(value@),
{
    let t = trimmed(value);
    if chars_eq(&t, &chars_of("powersave")) {
        Some(RuntimeMode::Power)
    } else if chars_eq(&t, &chars_of("balance")) {
        Some(RuntimeMode::Balance)
    } else if chars_eq(&t, &chars_of("performance")) {
        Some(RuntimeMode::Performance)
    } else if chars_eq(&t, &chars_of("fast")) {
        Some(RuntimeMode::Fast)
    } else {
        None
    }
}

impl RuntimeMode {
    pub fn parse(value: &str) -> (res: Option<RuntimeMode>)
        ensures
            res == parse_mode(value@),
    {
        parse_mode_chars(&chars_of(value))
    }

    pub fn name(self) -> (res: &'static str)
        ensures
            res@ == mode_name(self),
    {
        match self {
            RuntimeMode::Power => "powersave",
            RuntimeMode::Balance => "balance",
            RuntimeMode::Performance => "performance",
            RuntimeMode::Fast => "fast",
        }
    }

    pub fn index(self) -> (res: usize)
        ensures
            res == mode_index(self),
    {
        match self {
            RuntimeMode::Power => 0,
            RuntimeMode::Balance => 1,
            RuntimeMode::Performance => 2,
            RuntimeMode::Fast => 3,
        }
    }

    pub fn from_index(value: usize) -> (res: Option<RuntimeMode>)
        ensures
            res == mode_at(value as int),
    {
        match value {
            0 => Some(RuntimeMode::Power),
            1 => Some(RuntimeMode::Balance),
            2 => Some(RuntimeMode::Performance),
            3 => Some(RuntimeMode::Fast),
            _ => None,
        }
    }
}

/// Law: a mode's position and its name each lead back to the mode.
pub proof fn lemma_mode_round_trip(mode: RuntimeMode)
    ensures
        mode_at(mode_index(mode) as int) == Some(mode),
        parse_mode(mode_name(mode)) == Some(mode),
{
    reveal_strlit("powersave");
    reveal_strlit("balance");
    reveal_strlit("performance");
    reveal_strlit("fast");
    let n = mode_name(mode);
    assert(trim_start(n) == n);
    assert(trim_end(n) == n);
}

/// The log section of the configuration.
pub struct Log {
    pub level: String,
}

impl Default for Log {
    fn default() -> (res: Log)
        ensures
            res.level@ == "info"@,
    {
        Log { level: String::from_str("info") }
    }
}

/// Who made a configuration, and which version it is.
pub struct Name {
    pub name: String,
    pub version: String,
    pub author: String,
}

/// A CPU cluster: the CPUs `from..=to`, whose cpufreq policy is named after `from`.
#[derive(Debug, Clone, Copy, PartialEq, Eq, Structural)]
pub struct Policy {
    pub from: u32,
    pub to: u32,
}

/// The tuning of one cluster in one mode.
///
/// `margin_bits` holds the IEEE-754 single-precision bit pattern of the
/// load margin; the library only tests it for being finite and positive.
pub struct MPolicy {
    pub delay: u64,
    pub max_freq: u32,
    pub min_freq: u32,
    pub can_boost_freq: u32,
    pub boost_freq: u32,
    pub margin_bits: u32,
    pub diff: u32,
    pub governor: String,
    pub sleep_freq: u32,
}

/// The powersave mode's settings.
pub struct Power {
    pub idle_governor: String,
    pub policy: Vec<MPolicy>,
}

/// The balance mode's settings.
pub struct Blan {
    pub idle_governor: String,
    pub policy: Vec<MPolicy>,
}

/// The performance mode's settings.
pub struct Perf {
    pub idle_governor: String,
    pub policy: Vec<MPolicy>,
}

/// The fast mode's settings.
pub struct Fast {
    pub idle_governor: String,
    pub policy: Vec<MPolicy>,
}

/// The settings of the four modes.
pub struct Mode {
    pub power: Power,
    pub blan: Blan,
    pub perf: Perf,
    pub fast: Fast,
}

/// The scheduler configuration.
pub struct Config {
    pub name: Name,
    pub log: Log,
    pub policy: Vec<Policy>,
    pub mode: Mode,
}

/// The idle governor and per-cluster tunings of one mode, borrowed from a configuration.
pub struct ModePolicyRef<'a> {
    pub idle_governor: &'a str,
    pub policy: &'a [MPolicy],
}

/// The idle governor that `mode` sets.
pub open spec fn mode_idle_governor(c: Config, mode: RuntimeMode) -> Seq<char> {
    match mode {
        RuntimeMode::Power => c.mode.power.idle_governor@,
        RuntimeMode::Balance => c.mode.blan.idle_governor@,
        RuntimeMode::Performance => c.mode.perf.idle_governor@,
        RuntimeMode::Fast => c.mode.fast.idle_governor@,
    }
}

/// The per-cluster tunings of `mode`.
pub open spec fn mode_policies(c: Config, mode: RuntimeMode) -> Seq<MPolicy> {
    match mode {
        RuntimeMode::Power => c.mode.power.policy@,
        RuntimeMode::Balance => c.mode.blan.policy@,
        RuntimeMode::Performance => c.mode.perf.policy@,
        RuntimeMode::Fast => c.mode.fast.policy@,
    }
}

impl Config {
    pub fn mode_policy(&self, mode: RuntimeMode) -> (res: ModePolicyRef<'_>)
        ensures
            res.idle_governor@ == mode_idle_governor(*self, mode),
            res.policy@ == mode_policies(*self, mode),
    {
        match mode {
            RuntimeMode::Power => ModePolicyRef {
                idle_governor: self.mode.power.idle_governor.as_str(),
                policy: self.mode.power.policy.as_slice(),
            },
            RuntimeMode::Balance => ModePolicyRef {
                idle_governor: self.mode.blan.idle_governor.as_str(),
                policy: self.mode.blan.policy.as_slice(),
            },
            RuntimeMode::Performance => ModePolicyRef {
                idle_governor: self.mode.perf.idle_governor.as_str(),
                policy: self.mode.perf.policy.as_slice(),
            },
            RuntimeMode::Fast => ModePolicyRef {
                idle_governor: self.mode.fast.idle_governor.as_str(),
                policy: self.mode.fast.policy.as_slice(),
            },
        }
    }
}

/// The first problem that `Config::validate` finds in a configuration.
#[derive(Debug, Clone, Copy, PartialEq, Eq, Structural)]
pub enum ConfigIssue {
    /// The log level names none of the four levels.
    InvalidLogLevel,
    /// There is no CPU cluster.
    NoPolicies,
    /// Cluster `i` ends before it begins.
    FromAfterTo(usize),
    /// Clusters `i` and `j` share a CPU.
    Overlap(usize, usize),
    /// A mode tunes a different number of clusters (first) than there are (second).
    PolicyCountMismatch(RuntimeMode, usize, usize),
    /// A mode's tuning of cluster `i` has inconsistent limits.
    InvalidLimits(RuntimeMode, usize),
}

/// Whether two clusters share a CPU.
pub open spec fn overlaps(a: Policy, b: Policy) -> bool {
    a.from <= b.to && b.from <= a.to
}

/// The first cluster at or after `j` that shares a CPU with cluster `i`.
pub open spec fn first_overlap(ps: Seq<Policy>, i: int, j: int) -> Option<int>
    decreases ps.len() - j,
{
    if j >= ps.len() {
        None
    } else if overlaps(ps[i], ps[j]) {
        Some(j)
    } else {
        first_overlap(ps, i, j + 1)
    }
}

/// The first problem of the clusters from cluster `i` on: a cluster is
/// checked for its own bounds, then against every later cluster.
pub open spec fn cluster_issue_from(ps: Seq<Policy>, i: int) -> Option<ConfigIssue>
    decreases ps.len() - i,
{
    if i < 0 || i >= ps.len() {
        None
    } else if ps[i].from > ps[i].to {
        Some(ConfigIssue::FromAfterTo(i as usize))
    } else {
        match first_overlap(ps, i, i + 1) {
            Some(j) => Some(ConfigIssue::Overlap(i as usize, j as usize)),
            None => cluster_issue_from(ps, i + 1),
        }
    }
}

/// Whether an IEEE-754 single-precision bit pattern is a finite number
/// greater than zero.
pub open spec fn positive_finite_bits(bits: u32) -> bool {
    0 < bits < 0x7f80_0000
}

/// Whether a tuning's limits are inconsistent: the minimum above the maximum,
/// the boost or sleep frequency outside them, the boost threshold above the
/// boost frequency, no delay, or a margin that is not a positive finite number.
pub open spec fn limits_invalid(p: MPolicy) -> bool {
    ||| p.min_freq > p.max_freq
    ||| !(p.min_freq <= p.boost_freq <= p.max_freq)
    ||| !(p.min_freq <= p.sleep_freq <= p.max_freq)
    ||| p.can_boost_freq > p.boost_freq
    ||| p.delay == 0
    ||| !positive_finite_bits(p.margin_bits)
}

/// The first tuning at or after `k` whose limits are inconsistent.
pub open spec fn first_invalid_limits(ps: Seq<MPolicy>, k: int) -> Option<int>
    decreases ps.len() - k,
{
    if k < 0 || k >= ps.len() {
        None
    } else if limits_invalid(ps[k]) {
        Some(k)
    } else {
        first_invalid_limits(ps, k + 1)
    }
}

/// The first problem of one mode's tunings.
pub open spec fn mode_issue(c: Config, mode: RuntimeMode) -> Option<ConfigIssue> {
    let set = mode_policies(c, mode);
    if set.len() != c.policy@.len() {
        Some(ConfigIssue::PolicyCountMismatch(mode, set.len() as usize, c.policy@.len() as usize))
    } else {
        match first_invalid_limits(set, 0) {
            Some(k) => Some(ConfigIssue::InvalidLimits(mode, k as usize)),
            None => None,
        }
    }
}

/// The first problem of a configuration, in the order: log level, clusters,
/// then the powersave, balance, performance and fast modes.
pub open spec fn first_issue(c: Config) -> Option<ConfigIssue> {
    if parse_level(c.log.level@) is None {
        Some(ConfigIssue::InvalidLogLevel)
    } else if c.policy@.len() == 0 {
        Some(ConfigIssue::NoPolicies)
    } else if cluster_issue_from(c.policy@, 0) is Some {
        cluster_issue_from(c.policy@, 0)
    } else if mode_issue(c, RuntimeMode::Power) is Some {
        mode_issue(c, RuntimeMode::Power)
    } else if mode_issue(c, RuntimeMode::Balance) is Some {
        mode_issue(c, RuntimeMode::Balance)
    } else if mode_issue(c, RuntimeMode::Performance) is Some {
        mode_issue(c, RuntimeMode::Performance)
    } else {
        mode_issue(c, RuntimeMode::Fast)
    }
}

/// The message that reports an issue; `level` is the configured log level.
pub open spec fn issue_message(issue: ConfigIssue, level: Seq<char>) -> Seq<char> {
    match issue {
        ConfigIssue::InvalidLogLevel => "invalid log level '"@ + level
            + "'; expected error, warn, info, or debug"@,
        ConfigIssue::NoPolicies => "at least one CPU policy is required"@,
        ConfigIssue::FromAfterTo(i) => "CPU policy "@ + decimal(i as nat) + " has from > to"@,
        ConfigIssue::Overlap(i, j) => "CPU policies "@ + decimal(i as nat) + " and "@ + decimal(
            j as nat,
        ) + " overlap"@,
        ConfigIssue::PolicyCountMismatch(mode, n, k) => mode_name(mode) + " policy count "@
            + decimal(n as nat) + " does not match CPU policy count "@ + decimal(k as nat),
        ConfigIssue::InvalidLimits(mode, i) => mode_name(mode) + " policy "@ + decimal(i as nat)
            + " has invalid limits"@,
    }
}

/// Whether a tuning's limits are inconsistent.
fn check_limits(p: &MPolicy) -> (res: bool)
    ensures
        res == limits_invalid(*p),
{
    p.min_freq > p.max_freq || !(p.min_freq <= p.boost_freq && p.boost_freq <= p.max_freq) || !(
    p.min_freq <= p.sleep_freq && p.sleep_freq <= p.max_freq) || p.can_boost_freq > p.boost_freq
        || p.delay == 0 || !(0 < p.margin_bits && p.margin_bits < 0x7f80_0000)
}

proof fn lemma_first_overlap_none(ps: Seq<Policy>, i: int, j: int)
    requires
        0 <= i < ps.len(),
        i < j <= ps.len(),
        forall|k: int| j <= k < ps.len() ==> !overlaps(ps[i], ps[k]),
    ensures
        first_overlap(ps, i, j) is None,
    decreases ps.len() - j,
{
    if j < ps.len() {
        lemma_first_overlap_none(ps, i, j + 1);
    }
}

proof fn lemma_first_overlap_at(ps: Seq<Policy>, i: int, j: int, m: int)
    requires
        0 <= i < ps.len(),
        i < j <= m < ps.len(),
        overlaps(ps[i], ps[m]),
        forall|k: int| j <= k < m ==> !overlaps(ps[i], ps[k]),
    ensures
        first_overlap(ps, i, j) == Some(m),
    decreases m - j,
{
    if j < m {
        lemma_first_overlap_at(ps, i, j + 1, m);
    }
}

proof fn lemma_invalid_none(ps: Seq<MPolicy>, k: int)
    requires
        0 <= k <= ps.len(),
        forall|n: int| k <= n < ps.len() ==> !limits_invalid(ps[n]),
    ensures
        first_invalid_limits(ps, k) is None,
    decreases ps.len() - k,
{
    if k < ps.len() {
        lemma_invalid_none(ps, k + 1);
    }
}

proof fn lemma_invalid_at(ps: Seq<MPolicy>, k: int, m: int)
    requires
        0 <= k <= m < ps.len(),
        limits_invalid(ps[m]),
        forall|n: int| k <= n < m ==> !limits_invalid(ps[n]),
    ensures
        first_invalid_limits(ps, k) == Some(m),
    decreases m - k,
{
    if k < m {
        lemma_invalid_at(ps, k + 1, m);
    }
}

/// The first problem of the clusters.
fn check_clusters(ps: &Vec<Policy>) -> (res: Option<ConfigIssue>)
    ensures
        res == cluster_issue_from(ps@, 0),
{
    let mut i: usize = 0;
    while i < ps.len()
        invariant
            i <= ps.len(),
            cluster_issue_from(ps@, 0) == cluster_issue_from(ps@, i as int),
        decreases ps.len() - i,
    {
        if ps[i].from > ps[i].to {
            return Some(ConfigIssue::FromAfterTo(i));
        }
        let mut j: usize = i + 1;
        while j < ps.len()
            invariant
                i < j <= ps.len(),
                ps@[i as int].from <= ps@[i as int].to,
                cluster_issue_from(ps@, 0) == cluster_issue_from(ps@, i as int),
                forall|k: int| i < k < j ==> !overlaps(ps@[i as int], ps@[k]),
            decreases ps.len() - j,
        {
            if ps[i].from <= ps[j].to && ps[j].from <= ps[i].to {
                proof {
                    lemma_first_overlap_at(ps@, i as int, i + 1, j as int);
                }
                return Some(ConfigIssue::Overlap(i, j));
            }
            j = j + 1;
        }
        proof {
            lemma_first_overlap_none(ps@, i as int, i + 1);
        }
        i = i + 1;
    }
    None
}

/// The first problem of one mode's tunings, given the number of clusters.
fn check_mode(set: &[MPolicy], mode: RuntimeMode, clusters: usize) -> (res: Option<ConfigIssue>)
    ensures
        res == (if set@.len() != clusters {
            Some(ConfigIssue::PolicyCountMismatch(mode, set@.len() as usize, clusters))
        } else {
            match first_invalid_limits(set@, 0) {
                Some(k) => Some(ConfigIssue::InvalidLimits(mode, k as usize)),
                None => None,
            }
        }),
{
    if set.len() != clusters {
        return Some(ConfigIssue::PolicyCountMismatch(mode, set.len(), clusters));
    }
    let mut k: usize = 0;
    while k < set.len()
        invariant
            k <= set@.len(),
            set@.len() == clusters,
            forall|n: int| 0 <= n < k ==> !limits_invalid(set@[n]),
        decreases set@.len() - k,
    {
        if check_limits(&set[k]) {
            proof {
                lemma_invalid_at(set@, 0, k as int);
            }
            return Some(ConfigIssue::InvalidLimits(mode, k));
        }
        k = k + 1;
    }
    proof {
        lemma_invalid_none(set@, 0);
    }
    None
}

impl Config {
    /// The first problem of the configuration, if it has one.
    pub fn check(&self) -> (res: Result<(), ConfigIssue>)
        ensures
            res == match first_issue(*self) {
                Some(issue) => Err(issue),
                None => Ok::<(), ConfigIssue>(()),
            },
    {
        if LogLevel::parse(self.log.level.as_str()).is_none() {
            return Err(ConfigIssue::InvalidLogLevel);
        }
        if self.policy.len() == 0 {
            return Err(ConfigIssue::NoPolicies);
        }
        if let Some(issue) = check_clusters(&self.policy) {
            return Err(issue);
        }
        let clusters = self.policy.len();
        if let Some(issue) = check_mode(self.mode_policy(RuntimeMode::Power).policy, RuntimeMode::Power, clusters) {
            return Err(issue);
        }
        if let Some(issue) = check_mode(self.mode_policy(RuntimeMode::Balance).policy, RuntimeMode::Balance, clusters) {
            return Err(issue);
        }
        if let Some(issue) = check_mode(self.mode_policy(RuntimeMode::Performance).policy, RuntimeMode::Performance, clusters) {
            return Err(issue);
        }
        if let Some(issue) = check_mode(self.mode_policy(RuntimeMode::Fast).policy, RuntimeMode::Fast, clusters) {
            return Err(issue);
        }
        Ok(())
    }

    /// Checks the configuration before any hardware is touched; the error
    /// names the first problem found.
    pub fn validate(&self) -> (res: Result<(), String>)
        ensures
            res is Ok <==> first_issue(*self) is None,
            res matches Err(message) ==> message@ == issue_message(
                first_issue(*self)->0,
                self.log.level@,
            ),
    {
        match self.check() {
            Ok(()) => Ok(()),
            Err(issue) => Err(issue_text(issue, self.log.level.as_str())),
        }
    }
}

proof fn lemma_first_overlap_none_iff(ps: Seq<Policy>, i: int, j: int)
    requires
        0 <= i < ps.len(),
        0 <= j <= ps.len(),
    ensures
        first_overlap(ps, i, j) is None <==> forall|b: int| j <= b < ps.len() ==> !overlaps(
            ps[i],
            #[trigger] ps[b],
        ),
    decreases ps.len() - j,
{
    if j < ps.len() {
        lemma_first_overlap_none_iff(ps, i, j + 1);
    }
}

proof fn lemma_cluster_issue_none_iff(ps: Seq<Policy>, i: int)
    requires
        0 <= i <= ps.len(),
    ensures
        cluster_issue_from(ps, i) is None <==> forall|a: int|
            i <= a < ps.len() ==> (#[trigger] ps[a]).from <= ps[a].to && forall|b: int|
                a < b < ps.len() ==> !overlaps(ps[a], #[trigger] ps[b]),
    decreases ps.len() - i,
{
    if i < ps.len() {
        lemma_cluster_issue_none_iff(ps, i + 1);
        if ps[i].from <= ps[i].to {
            lemma_first_overlap_none_iff(ps, i, i + 1);
        }
    }
}

proof fn lemma_invalid_limits_none_iff(ps: Seq<MPolicy>, k: int)
    requires
        0 <= k <= ps.len(),
    ensures
        first_invalid_limits(ps, k) is None <==> forall|n: int| k <= n < ps.len() ==> !limits_invalid(
            #[trigger] ps[n],
        ),
    decreases ps.len() - k,
{
    if k < ps.len() {
        lemma_invalid_limits_none_iff(ps, k + 1);
    }
}

/// Whether every tuning of a mode is consistent: the minimum no greater than
/// the maximum, the boost and sleep frequencies within them, the boost
/// threshold no greater than the boost frequency, a nonzero delay and a
/// positive finite margin.
pub open spec fn mode_tunings_sound(c: Config, mode: RuntimeMode) -> bool {
    &&& mode_policies(c, mode).len() == c.policy@.len()
    &&& forall|k: int|
        0 <= k < mode_policies(c, mode).len() ==> {
            let p = #[trigger] mode_policies(c, mode)[k];
            &&& p.min_freq <= p.max_freq
            &&& p.min_freq <= p.boost_freq <= p.max_freq
            &&& p.min_freq <= p.sleep_freq <= p.max_freq
            &&& p.can_boost_freq <= p.boost_freq
            &&& p.delay > 0
            &&& 0 < p.margin_bits < 0x7f80_0000
        }
}

/// Law: a configuration passes validation exactly when its log level names a
/// level, it has at least one cluster, every cluster's range runs upward and
/// no two clusters share a CPU, and every mode tunes each cluster once with
/// consistent limits.
pub proof fn lemma_validation_characterized(c: Config)
    ensures
        first_issue(c) is None <==> {
            &&& parse_level(c.log.level@) is Some
            &&& c.policy@.len() > 0
            &&& forall|a: int|
                0 <= a < c.policy@.len() ==> (#[trigger] c.policy@[a]).from <= c.policy@[a].to
            &&& forall|a: int, b: int|
                0 <= a < b < c.policy@.len() ==> !(c.policy@[a].from <= c.policy@[b].to
                    && c.policy@[b].from <= c.policy@[a].to)
            &&& mode_tunings_sound(c, RuntimeMode::Power)
            &&& mode_tunings_sound(c, RuntimeMode::Balance)
            &&& mode_tunings_sound(c, RuntimeMode::Performance)
            &&& mode_tunings_sound(c, RuntimeMode::Fast)
        },
{
    let ps = c.policy@;
    lemma_cluster_issue_none_iff(ps, 0);
    lemma_invalid_limits_none_iff(mode_policies(c, RuntimeMode::Power), 0);
    lemma_invalid_limits_none_iff(mode_policies(c, RuntimeMode::Balance), 0);
    lemma_invalid_limits_none_iff(mode_policies(c, RuntimeMode::Performance), 0);
    lemma_invalid_limits_none_iff(mode_policies(c, RuntimeMode::Fast), 0);
    assert((forall|a: int|
        0 <= a < ps.len() ==> (#[trigger] ps[a]).from <= ps[a].to && forall|b: int|
            a < b < ps.len() ==> !overlaps(ps[a], #[trigger] ps[b])) <==> ((forall|a: int|
        0 <= a < ps.len() ==> (#[trigger] ps[a]).from <= ps[a].to) && (forall|a: int, b: int|
        0 <= a < b < ps.len() ==> !(ps[a].from <= ps[b].to && ps[b].from <= ps[a].to))));
}

/// The message that reports `issue`; `level` is the configured log level.
pub fn issue_text(issue: ConfigIssue, level: &str) -> (res: String)
    ensures
        res@ == issue_message(issue, level@),
{
    match issue {
        ConfigIssue::InvalidLogLevel => {
            let mut m = String::from_str("invalid log level '");
            m.append(level);
            m.append("'; expected error, warn, info, or debug");
            m
        },
        ConfigIssue::NoPolicies => String::from_str("at least one CPU policy is required"),
        ConfigIssue::FromAfterTo(i) => {
            let mut m = String::from_str("CPU policy ");
            push_decimal(&mut m, i as u64);
            m.append(" has from > to");
            m
        },
        ConfigIssue::Overlap(i, j) => {
            let mut m = String::from_str("CPU policies ");
            push_decimal(&mut m, i as u64);
            m.append(" and ");
            push_decimal(&mut m, j as u64);
            m.append(" overlap");
            m
        },
        ConfigIssue::PolicyCountMismatch(mode, n, k) => {
            let mut m = String::from_str(mode.name());
            m.append(" policy count ");
            push_decimal(&mut m, n as u64);
            m.append(" does not match CPU policy count ");
            push_decimal(&mut m, k as u64);
            m
        },
        ConfigIssue::InvalidLimits(mode, i) => {
            let mut m = String::from_str(mode.name());
            m.append(" policy ");
            push_decimal(&mut m, i as u64);
            m.append(" has invalid limits");
            m
        },
    }
}

/// An application that the game list names: its package, the name shown in
/// the log, and the profile to apply while it is in front.
pub struct ListValue {
    pub pkg: String,
    pub name: String,
    pub mode: Option<String>,
}

/// The game list.
pub struct GameList {
    pub listvalue: Vec<ListValue>,
}

/// The form in which a profile name is compared: trimmed, in ASCII lowercase.
pub open spec fn profile_key(text: Seq<char>) -> Seq<char> {
    ascii_lowercase(trim(text))
}

/// Whether a game list entry's mode names a profile: one of the four modes,
/// or `hardware`.
pub open spec fn known_profile(text: Seq<char>) -> bool {
    parse_mode(profile_key(text)) is Some || profile_key(text) == "hardware"@
}

/// The first problem that `GameList::validate` finds in a game list.
#[derive(Debug, Clone, Copy, PartialEq, Eq, Structural)]
pub enum GameListIssue {
    /// Entry `i` has no package name.
    EmptyPackage(usize),
    /// Entry `i` names no known profile.
    UnknownMode(usize),
}

/// The problem of one entry, at position `i`.
pub open spec fn entry_issue(e: ListValue, i: int) -> Option<GameListIssue> {
    if trim(e.pkg@).len() == 0 {
        Some(GameListIssue::EmptyPackage(i as usize))
    } else if e.mode matches Some(m) && !known_profile(m@) {
        Some(GameListIssue::UnknownMode(i as usize))
    } else {
        None
    }
}

/// The first problem of the entries from position `i` on.
pub open spec fn game_list_issue_from(es: Seq<ListValue>, i: int) -> Option<GameListIssue>
    decreases es.len() - i,
{
    if i < 0 || i >= es.len() {
        None
    } else if entry_issue(es[i], i) is Some {
        entry_issue(es[i], i)
    } else {
        game_list_issue_from(es, i + 1)
    }
}

/// The message that reports a game list issue.
pub open spec fn game_list_message(issue: GameListIssue) -> Seq<char> {
    match issue {
        GameListIssue::EmptyPackage(i) => "game list entry "@ + decimal(i as nat)
            + " has an empty package name"@,
        GameListIssue::UnknownMode(i) => "game list entry "@ + decimal(i as nat)
            + " has an unknown mode; expected powersave, balance, performance, fast, or hardware"@,
    }
}

/// The comparison form of a profile name.
pub fn profile_key_chars(text: &str) -> (res: Vec<char>)
    ensures
        res@ == profile_key(text@),
{
    to_ascii_lowercase(&trimmed(&chars_of(text)))
}

/// Whether a profile name is known.
fn check_profile(text: &str) -> (res: bool)
    ensures
        res == known_profile(text@),
{
    let key = profile_key_chars(text);
    parse_mode_chars(&key).is_some() || chars_eq(&key, &chars_of("hardware"))
}

proof fn lemma_game_list_issue_skip(es: Seq<ListValue>, i: int)
    requires
        0 <= i < es.len(),
        entry_issue(es[i], i) is None,
    ensures
        game_list_issue_from(es, i) == game_list_issue_from(es, i + 1),
{
}

impl GameList {
    /// The first problem of the game list, if it has one.
    pub fn check(&self) -> (res: Result<(), GameListIssue>)
        ensures
            res == match game_list_issue_from(self.listvalue@, 0) {
                Some(issue) => Err(issue),
                None => Ok::<(), GameListIssue>(()),
            },
    {
        let mut i: usize = 0;
        while i < self.listvalue.len()
            invariant
                i <= self.listvalue.len(),
                game_list_issue_from(self.listvalue@, 0) == game_list_issue_from(
                    self.listvalue@,
                    i as int,
                ),
            decreases self.listvalue.len() - i,
        {
            let entry = &self.listvalue[i];
            let pkg = trimmed(&chars_of(entry.pkg.as_str()));
            if pkg.len() == 0 {
                return Err(GameListIssue::EmptyPackage(i));
            }
            match &entry.mode {
                Some(m) => {
                    if !check_profile(m.as_str()) {
                        return Err(GameListIssue::UnknownMode(i));
                    }
                },
                None => {},
            }
            proof {
                lemma_game_list_issue_skip(self.listvalue@, i as int);
            }
            i = i + 1;
        }
        Ok(())
    }

    /// Checks a game list before it replaces the one in use; the error names
    /// the first problem found.
    pub fn validate(&self) -> (res: Result<(), String>)
        ensures
            res is Ok <==> game_list_issue_from(self.listvalue@, 0) is None,
            res matches Err(message) ==> message@ == game_list_message(
                game_list_issue_from(self.listvalue@, 0)->0,
            ),
    {
        match self.check() {
            Ok(()) => Ok(()),
            Err(GameListIssue::EmptyPackage(i)) => {
                let mut m = String::from_str("game list entry ");
                push_decimal(&mut m, i as u64);
                m.append(" has an empty package name");
                Err(m)
            },
            Err(GameListIssue::UnknownMode(i)) => {
                let mut m = String::from_str("game list entry ");
                push_decimal(&mut m, i as u64);
                m.append(
                    " has an unknown mode; expected powersave, balance, performance, fast, or hardware",
                );
                Err(m)
            },
        }
    }
}

impl Clone for Log {
    fn clone(&self) -> (res: Log)
        ensures
            res == *self,
    {
        Log { level: self.level.clone() }
    }
}

impl Clone for Name {
    fn clone(&self) -> (res: Name)
        ensures
            res == *self,
    {
        Name { name: self.name.clone(), version: self.version.clone(), author: self.author.clone() }
    }
}

impl Clone for MPolicy {
    fn clone(&self) -> (res: MPolicy)
        ensures
            res == *self,
    {
        MPolicy {
            delay: self.delay,
            max_freq: self.max_freq,
            min_freq: self.min_freq,
            can_boost_freq: self.can_boost_freq,
            boost_freq: self.boost_freq,
            margin_bits: self.margin_bits,
            diff: self.diff,
            governor: self.governor.clone(),
            sleep_freq: self.sleep_freq,
        }
    }
}

/// Whether two mode settings hold the same values.
pub open spec fn same_modes(a: Mode, b: Mode) -> bool {
    &&& a.power.idle_governor == b.power.idle_governor
    &&& a.power.policy@ == b.power.policy@
    &&& a.blan.idle_governor == b.blan.idle_governor
    &&& a.blan.policy@ == b.blan.policy@
    &&& a.perf.idle_governor == b.perf.idle_governor
    &&& a.perf.policy@ == b.perf.policy@
    &&& a.fast.idle_governor == b.fast.idle_governor
    &&& a.fast.policy@ == b.fast.policy@
}

/// Whether two configurations hold the same values.
pub open spec fn same_config(a: Config, b: Config) -> bool {
    &&& a.name == b.name
    &&& a.log == b.log
    &&& a.policy@ == b.policy@
    &&& same_modes(a.mode, b.mode)
}

/// A copy of a list of tunings.
fn clone_tunings(v: &Vec<MPolicy>) -> (res: Vec<MPolicy>)
    ensures
        res@ == v@,
{
    let mut res: Vec<MPolicy> = Vec::new();
    let mut i: usize = 0;
    while i < v.len()
        invariant
            i <= v.len(),
            res@ == v@.take(i as int),
        decreases v.len() - i,
    {
        res.push(v[i].clone());
        assert(res@ =~= v@.take(i + 1));
        i = i + 1;
    }
    assert(v@.take(v.len() as int) =~= v@);
    res
}

/// A copy of a list of clusters.
fn clone_clusters(v: &Vec<Policy>) -> (res: Vec<Policy>)
    ensures
        res@ == v@,
{
    let mut res: Vec<Policy> = Vec::new();
    let mut i: usize = 0;
    while i < v.len()
        invariant
            i <= v.len(),
            res@ == v@.take(i as int),
        decreases v.len() - i,
    {
        res.push(v[i]);
        assert(res@ =~= v@.take(i + 1));
        i = i + 1;
    }
    assert(v@.take(v.len() as int) =~= v@);
    res
}

impl Clone for Power {
    fn clone(&self) -> (res: Power)
        ensures
            res.idle_governor == self.idle_governor,
            res.policy@ == self.policy@,
    {
        Power { idle_governor: self.idle_governor.clone(), policy: clone_tunings(&self.policy) }
    }
}

impl Clone for Blan {
    fn clone(&self) -> (res: Blan)
        ensures
            res.idle_governor == self.idle_governor,
            res.policy@ == self.policy@,
    {
        Blan { idle_governor: self.idle_governor.clone(), policy: clone_tunings(&self.policy) }
    }
}

impl Clone for Perf {
    fn clone(&self) -> (res: Perf)
        ensures
            res.idle_governor == self.idle_governor,
            res.policy@ == self.policy@,
    {
        Perf { idle_governor: self.idle_governor.clone(), policy: clone_tunings(&self.policy) }
    }
}

impl Clone for Fast {
    fn clone(&self) -> (res: Fast)
        ensures
            res.idle_governor == self.idle_governor,
            res.policy@ == self.policy@,
    {
        Fast { idle_governor: self.idle_governor.clone(), policy: clone_tunings(&self.policy) }
    }
}

impl Clone for Mode {
    fn clone(&self) -> (res: Mode)
        ensures
            same_modes(res, *self),
    {
        Mode {
            power: self.power.clone(),
            blan: self.blan.clone(),
            perf: self.perf.clone(),
            fast: self.fast.clone(),
        }
    }
}

impl Clone for Config {
    fn clone(&self) -> (res: Config)
        ensures
            same_config(res, *self),
    {
        Config {
            name: self.name.clone(),
            log: self.log.clone(),
            policy: clone_clusters(&self.policy),
            mode: self.mode.clone(),
        }
    }
}

impl Clone for ListValue {
    fn clone(&self) -> (res: ListValue)
        ensures
            res == *self,
    {
        let mode = match &self.mode {
            Some(m) => Some(m.clone()),
            None => None,
        };
        ListValue { pkg: self.pkg.clone(), name: self.name.clone(), mode }
    }
}

impl Clone for GameList {
    fn clone(&self) -> (res: GameList)
        ensures
            res.listvalue@ == self.listvalue@,
    {
        let mut listvalue: Vec<ListValue> = Vec::new();
        let mut i: usize = 0;
        while i < self.listvalue.len()
            invariant
                i <= self.listvalue.len(),
                listvalue@ == self.listvalue@.take(i as int),
            decreases self.listvalue.len() - i,
        {
            listvalue.push(self.listvalue[i].clone());
            assert(listvalue@ =~= self.listvalue@.take(i + 1));
            i = i + 1;
        }
        assert(self.listvalue@.take(self.listvalue.len() as int) =~= self.listvalue@);
        GameList { listvalue }
    }
}

impl Config {
    pub fn get_name(&self) -> (res: Name)
        ensures
            res == self.name,
    {
        self.name.clone()
    }

    pub fn get_policy(&self) -> (res: Vec<Policy>)
        ensures
            res@ == self.policy@,
    {
        clone_clusters(&self.policy)
    }

    pub fn get_power(&self) -> (res: Power)
        ensures
            res.idle_governor == self.mode.power.idle_governor,
            res.policy@ == self.mode.power.policy@,
    {
        self.mode.power.clone()
    }

    pub fn get_blan(&self) -> (res: Blan)
        ensures
            res.idle_governor == self.mode.blan.idle_governor,
            res.policy@ == self.mode.blan.policy@,
    {
        self.mode.blan.clone()
    }

    pub fn get_perf(&self) -> (res: Perf)
        ensures
            res.idle_governor == self.mode.perf.idle_governor,
            res.policy@ == self.mode.perf.policy@,
    {
        self.mode.perf.clone()
    }

    pub fn get_fast(&self) -> (res: Fast)
        ensures
            res.idle_governor == self.mode.fast.idle_governor,
            res.policy@ == self.mode.fast.policy@,
    {
        self.mode.fast.clone()
    }

    pub fn get_mode(&self) -> (res: Mode)
        ensures
            same_modes(res, self.mode),
    {
        self.mode.clone()
    }
}

} // verus!
