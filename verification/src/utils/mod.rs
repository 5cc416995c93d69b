//! Reading the screen state and the focused window out of `dumpsys` reports.
use vstd::prelude::*;

use crate::text::{
    chars_of, contains, contains_chars, copy_range, line_bounds, lines, split_after,
    split_once_after, starts_after_whitespace, starts_with, trim, trim_bounds, trim_start,
};

verus! {

/// Whether a line holds `key` and the text after its first `key` begins,
/// past any whitespace, with `prefix`; `None` where the line lacks `key`.
#[verifier::opaque]
pub open spec fn key_flag(line: Seq<char>, key: Seq<char>, prefix: Seq<char>) -> Option<bool> {
    match split_after(line, key) {
        Some(value) => Some(starts_with(trim_start(value), prefix)),
        None => None,
    }
}

/// Whether a line holds one of the older screen keys.
#[verifier::opaque]
pub open spec fn legacy_hit(line: Seq<char>) -> bool {
    key_flag(line, "mHoldingDisplaySuspendBlocker="@, "true"@) is Some || key_flag(
        line,
        "mScreenOn="@,
        "true"@,
    ) is Some
}

/// Whether one of the older screen keys of a line says `true`.
#[verifier::opaque]
pub open spec fn legacy_true(line: Seq<char>) -> bool {
    key_flag(line, "mHoldingDisplaySuspendBlocker="@, "true"@) == Some(true) || key_flag(
        line,
        "mScreenOn="@,
        "true"@,
    ) == Some(true)
}

/// Whether some line holds one of the older screen keys.
pub open spec fn legacy_found(ls: Seq<Seq<char>>) -> bool {
    exists|k: int| 0 <= k < ls.len() && legacy_hit(#[trigger] ls[k])
}

/// Whether some older screen key says `true`.
pub open spec fn legacy_on(ls: Seq<Seq<char>>) -> bool {
    exists|k: int| 0 <= k < ls.len() && legacy_true(#[trigger] ls[k])
}

proof fn lemma_legacy_extend(ls: Seq<Seq<char>>, k: int)
    requires
        0 <= k < ls.len(),
    ensures
        legacy_found(ls.take(k + 1)) == (legacy_found(ls.take(k)) || legacy_hit(ls[k])),
        legacy_on(ls.take(k + 1)) == (legacy_on(ls.take(k)) || legacy_true(ls[k])),
{
    let p = ls.take(k + 1);
    let q = ls.take(k);
    assert(p[k] == ls[k]);
    if legacy_found(p) {
        let j = choose|j: int| 0 <= j < p.len() && legacy_hit(#[trigger] p[j]);
        if j < k {
            assert(q[j] == p[j]);
        }
    }
    if legacy_found(q) {
        let j = choose|j: int| 0 <= j < q.len() && legacy_hit(#[trigger] q[j]);
        assert(p[j] == q[j]);
    }
    if legacy_on(p) {
        let j = choose|j: int| 0 <= j < p.len() && legacy_true(#[trigger] p[j]);
        if j < k {
            assert(q[j] == p[j]);
        }
    }
    if legacy_on(q) {
        let j = choose|j: int| 0 <= j < q.len() && legacy_true(#[trigger] q[j]);
        assert(p[j] == q[j]);
    }
}

/// The newer screen state of one line: from `mWakefulness=` (awake when it
/// says `Awake`) or else `Display Power: state=` (on when it says `ON`).
pub open spec fn modern_line(line: Seq<char>) -> Option<bool> {
    if key_flag(line, "mWakefulness="@, "Awake"@) is Some {
        key_flag(line, "mWakefulness="@, "Awake"@)
    } else {
        key_flag(line, "Display Power: state="@, "ON"@)
    }
}

/// The newer screen state, from the first line on or after `k` that holds
/// one of the newer keys.
pub open spec fn modern_status(ls: Seq<Seq<char>>, k: int) -> Option<bool>
    decreases ls.len() - k,
{
    if k < 0 || k >= ls.len() {
        None
    } else if modern_line(ls[k]) is Some {
        modern_line(ls[k])
    } else {
        modern_status(ls, k + 1)
    }
}

/// The screen state that a `dumpsys power` report gives: where an older key
/// appears, on if any of them says `true`; else the newer keys decide.
pub open spec fn screen_status(output: Seq<char>) -> Option<bool> {
    if legacy_found(lines(output)) {
        Some(legacy_on(lines(output)))
    } else {
        modern_status(lines(output), 0)
    }
}

/// Whether `line` holds `key` and what follows it begins with `prefix`.
fn flag_of(line: &Vec<char>, key: &Vec<char>, prefix: &Vec<char>) -> (res: Option<bool>)
    ensures
        res == key_flag(line@, key@, prefix@),
{
    proof {
        reveal(key_flag);
    }
    match split_once_after(line, key) {
        Some(value) => Some(starts_after_whitespace(&value, prefix)),
        None => None,
    }
}

/// Whether a line holds an older screen key, and whether one of them says `true`.
fn legacy_flags(line: &Vec<char>) -> (res: (bool, bool))
    ensures
        res == (legacy_hit(line@), legacy_true(line@)),
{
    let on = chars_of("true");
    let a = flag_of(line, &chars_of("mHoldingDisplaySuspendBlocker="), &on);
    let b = flag_of(line, &chars_of("mScreenOn="), &on);
    proof {
        reveal(legacy_hit);
        reveal(legacy_true);
    }
    (a.is_some() || b.is_some(), a == Some(true) || b == Some(true))
}

/// The newer screen state of one line, if it holds a newer key.
fn modern_flag(line: &Vec<char>) -> (res: Option<bool>)
    ensures
        res == modern_line(line@),
{
    let w = flag_of(line, &chars_of("mWakefulness="), &chars_of("Awake"));
    if w.is_some() {
        return w;
    }
    flag_of(line, &chars_of("Display Power: state="), &chars_of("ON"))
}

/// Reads the screen state out of a `dumpsys power` report.
pub fn parse_screen_status(output: &str) -> (res: Option<bool>)
    ensures
        res == screen_status(output@),
{
    let text = chars_of(output);
    let bounds = line_bounds(&text);
    let ghost ls = lines(output@);
    let mut found = false;
    let mut any_on = false;
    let mut k: usize = 0;
    assert(ls.take(0) =~= Seq::<Seq<char>>::empty());
    while k < bounds.len()
        invariant
            k <= bounds.len(),
            bounds.len() == ls.len(),
            ls == lines(text@),
            text@ == output@,
            forall|j: int|
                0 <= j < bounds.len() ==> {
                    &&& (#[trigger] bounds@[j]).0 <= bounds@[j].1 <= text.len()
                    &&& text@.subrange(bounds@[j].0 as int, bounds@[j].1 as int) == ls[j]
                },
            found == legacy_found(ls.take(k as int)),
            any_on == legacy_on(ls.take(k as int)),
        decreases bounds.len() - k,
    {
        let line = copy_range(&text, bounds[k].0, bounds[k].1);
        let (hit, on) = legacy_flags(&line);
        proof {
            lemma_legacy_extend(ls, k as int);
        }
        found = found || hit;
        any_on = any_on || on;
        k = k + 1;
    }
    assert(ls.take(ls.len() as int) =~= ls);
    if found {
        return Some(any_on);
    }
    let mut k: usize = 0;
    while k < bounds.len()
        invariant
            k <= bounds.len(),
            bounds.len() == ls.len(),
            text@ == output@,
            forall|j: int|
                0 <= j < bounds.len() ==> {
                    &&& (#[trigger] bounds@[j]).0 <= bounds@[j].1 <= text.len()
                    &&& text@.subrange(bounds@[j].0 as int, bounds@[j].1 as int) == ls[j]
                },
            modern_status(ls, 0) == modern_status(ls, k as int),
            ls == lines(output@),
            !legacy_found(ls),
        decreases bounds.len() - k,
    {
        let line = copy_range(&text, bounds[k].0, bounds[k].1);
        let m = modern_flag(&line);
        if m.is_some() {
            return m;
        }
        k = k + 1;
    }
    None
}

/// Whether a line names the focused window: it holds `mCurrentFocus=` but
/// not `mCurrentFocus=null`.
pub open spec fn names_focus(line: Seq<char>) -> bool {
    contains(line, "mCurrentFocus="@) && !contains(line, "mCurrentFocus=null"@)
}

/// Whether a line names the focused application.
pub open spec fn names_focused_app(line: Seq<char>) -> bool {
    contains(line, "mFocusedApp="@)
}

/// The first line from position `k` on that names the focused window.
pub open spec fn first_focus_line(ls: Seq<Seq<char>>, k: int) -> Option<int>
    decreases ls.len() - k,
{
    if k < 0 || k >= ls.len() {
        None
    } else if names_focus(ls[k]) {
        Some(k)
    } else {
        first_focus_line(ls, k + 1)
    }
}

/// The first line from position `k` on that names the focused application.
pub open spec fn first_app_line(ls: Seq<Seq<char>>, k: int) -> Option<int>
    decreases ls.len() - k,
{
    if k < 0 || k >= ls.len() {
        None
    } else if names_focused_app(ls[k]) {
        Some(k)
    } else {
        first_app_line(ls, k + 1)
    }
}

/// The focus line of a `dumpsys window` report, trimmed: the first line that
/// names the focused window, else the first that names the focused
/// application, else nothing.
pub open spec fn current_focus(output: Seq<char>) -> Seq<char> {
    let ls = lines(output);
    match first_focus_line(ls, 0) {
        Some(k) => trim(ls[k]),
        None => match first_app_line(ls, 0) {
            Some(k) => trim(ls[k]),
            None => seq![],
        },
    }
}

/// The first line that names the focused window.
fn find_focus_line(text: &Vec<char>, bounds: &Vec<(usize, usize)>, ls: Ghost<Seq<Seq<char>>>) -> (res: Option<usize>)
    requires
        bounds.len() == ls@.len(),
        forall|j: int|
            0 <= j < bounds.len() ==> {
                &&& (#[trigger] bounds@[j]).0 <= bounds@[j].1 <= text.len()
                &&& text@.subrange(bounds@[j].0 as int, bounds@[j].1 as int) == ls@[j]
            },
    ensures
        res matches Some(k) ==> first_focus_line(ls@, 0) == Some(k as int),
        res is None ==> first_focus_line(ls@, 0) is None,
        res matches Some(k) ==> k < bounds.len(),
{
    let focus = chars_of("mCurrentFocus=");
    let null_focus = chars_of("mCurrentFocus=null");
    let mut k: usize = 0;
    while k < bounds.len()
        invariant
            k <= bounds.len(),
            focus@ == "mCurrentFocus="@,
            null_focus@ == "mCurrentFocus=null"@,
            first_focus_line(ls@, 0) == first_focus_line(ls@, k as int),
            bounds.len() == ls@.len(),
            forall|j: int|
                0 <= j < bounds.len() ==> {
                    &&& (#[trigger] bounds@[j]).0 <= bounds@[j].1 <= text.len()
                    &&& text@.subrange(bounds@[j].0 as int, bounds@[j].1 as int) == ls@[j]
                },
        decreases bounds.len() - k,
    {
        let line = copy_range(text, bounds[k].0, bounds[k].1);
        if contains_chars(&line, &focus) && !contains_chars(&line, &null_focus) {
            return Some(k);
        }
        k = k + 1;
    }
    None
}

/// The first line that names the focused application.
fn find_app_line(text: &Vec<char>, bounds: &Vec<(usize, usize)>, ls: Ghost<Seq<Seq<char>>>) -> (res: Option<usize>)
    requires
        bounds.len() == ls@.len(),
        forall|j: int|
            0 <= j < bounds.len() ==> {
                &&& (#[trigger] bounds@[j]).0 <= bounds@[j].1 <= text.len()
                &&& text@.subrange(bounds@[j].0 as int, bounds@[j].1 as int) == ls@[j]
            },
    ensures
        res matches Some(k) ==> first_app_line(ls@, 0) == Some(k as int),
        res is None ==> first_app_line(ls@, 0) is None,
        res matches Some(k) ==> k < bounds.len(),
{
    let app = chars_of("mFocusedApp=");
    let mut k: usize = 0;
    while k < bounds.len()
        invariant
            k <= bounds.len(),
            app@ == "mFocusedApp="@,
            first_app_line(ls@, 0) == first_app_line(ls@, k as int),
            bounds.len() == ls@.len(),
            forall|j: int|
                0 <= j < bounds.len() ==> {
                    &&& (#[trigger] bounds@[j]).0 <= bounds@[j].1 <= text.len()
                    &&& text@.subrange(bounds@[j].0 as int, bounds@[j].1 as int) == ls@[j]
                },
        decreases bounds.len() - k,
    {
        let line = copy_range(text, bounds[k].0, bounds[k].1);
        if contains_chars(&line, &app) {
            return Some(k);
        }
        k = k + 1;
    }
    None
}

/// Reads the focus line out of a `dumpsys window` report.
pub fn parse_current_focus(output: &str) -> (res: String)
    ensures
        res@ == current_focus(output@),
{
    let text = chars_of(output);
    let bounds = line_bounds(&text);
    let ghost ls = lines(output@);
    let chosen = match find_focus_line(&text, &bounds, Ghost(ls)) {
        Some(k) => Some(k),
        None => find_app_line(&text, &bounds, Ghost(ls)),
    };
    match chosen {
        Some(k) => {
            let (a, b) = trim_bounds(&text, bounds[k].0, bounds[k].1);
            assert(text@.subrange(bounds@[k as int].0 as int, bounds@[k as int].1 as int) == ls[k as int]);
            let focus = output.substring_char(a, b);
            assert(focus@ == trim(ls[k as int]));
            let res = focus.to_owned();
            assert(res@ == focus@);
            res
        },
        None => String::new(),
    }
}


/// Law: a report in which some line says `mHoldingDisplaySuspendBlocker=true`
/// or `mScreenOn=true` (past any whitespace after the key) reads as screen
/// on, whatever its other lines say.
pub proof fn lemma_legacy_true_key_means_on(output: Seq<char>, k: int)
    requires
        0 <= k < lines(output).len(),
        key_flag(lines(output)[k], "mHoldingDisplaySuspendBlocker="@, "true"@) == Some(true)
            || key_flag(lines(output)[k], "mScreenOn="@, "true"@) == Some(true),
    ensures
        screen_status(output) == Some(true),
{
    reveal(legacy_hit);
    reveal(legacy_true);
    let ls = lines(output);
    assert(legacy_hit(ls[k]));
    assert(legacy_true(ls[k]));
    assert(legacy_found(ls));
    assert(legacy_on(ls));
}

/// Law: a report that holds an older screen key but in which none of them
/// says `true` reads as screen off, whatever the newer keys say.
pub proof fn lemma_legacy_keys_without_true_mean_off(output: Seq<char>, k: int)
    requires
        0 <= k < lines(output).len(),
        key_flag(lines(output)[k], "mHoldingDisplaySuspendBlocker="@, "true"@) is Some
            || key_flag(lines(output)[k], "mScreenOn="@, "true"@) is Some,
        forall|j: int|
            0 <= j < lines(output).len() ==> key_flag(
                #[trigger] lines(output)[j],
                "mHoldingDisplaySuspendBlocker="@,
                "true"@,
            ) != Some(true) && key_flag(lines(output)[j], "mScreenOn="@, "true"@) != Some(true),
    ensures
        screen_status(output) == Some(false),
{
    reveal(legacy_hit);
    reveal(legacy_true);
    let ls = lines(output);
    assert(legacy_hit(ls[k]));
    assert(legacy_found(ls));
    if legacy_on(ls) {
        let j = choose|j: int| 0 <= j < ls.len() && legacy_true(#[trigger] ls[j]);
        assert(key_flag(ls[j], "mHoldingDisplaySuspendBlocker="@, "true"@) != Some(true));
    }
}


proof fn lemma_modern_status_at(ls: Seq<Seq<char>>, j: int, k: int)
    requires
        0 <= j <= k < ls.len(),
        forall|i: int|
            j <= i < k ==> key_flag(#[trigger] ls[i], "mWakefulness="@, "Awake"@) is None
                && key_flag(ls[i], "Display Power: state="@, "ON"@) is None,
        key_flag(ls[k], "mWakefulness="@, "Awake"@) is Some || key_flag(
            ls[k],
            "Display Power: state="@,
            "ON"@,
        ) is Some,
    ensures
        modern_status(ls, j) == if key_flag(ls[k], "mWakefulness="@, "Awake"@) is Some {
            key_flag(ls[k], "mWakefulness="@, "Awake"@)
        } else {
            key_flag(ls[k], "Display Power: state="@, "ON"@)
        },
    decreases k - j,
{
    if j < k {
        lemma_modern_status_at(ls, j + 1, k);
    }
}

/// Law: in a report without any of the older keys, the first line that holds
/// `mWakefulness=` or `Display Power: state=` decides: awake when the text after
/// `mWakefulness=` begins with `Awake`, else on when the text after
/// `Display Power: state=` begins with `ON`.
pub proof fn lemma_first_modern_line_decides(output: Seq<char>, k: int)
    requires
        0 <= k < lines(output).len(),
        forall|i: int|
            0 <= i < lines(output).len() ==> key_flag(
                #[trigger] lines(output)[i],
                "mHoldingDisplaySuspendBlocker="@,
                "true"@,
            ) is None && key_flag(lines(output)[i], "mScreenOn="@, "true"@) is None,
        forall|i: int|
            0 <= i < k ==> key_flag(#[trigger] lines(output)[i], "mWakefulness="@, "Awake"@)
                is None && key_flag(lines(output)[i], "Display Power: state="@, "ON"@) is None,
        key_flag(lines(output)[k], "mWakefulness="@, "Awake"@) is Some || key_flag(
            lines(output)[k],
            "Display Power: state="@,
            "ON"@,
        ) is Some,
    ensures
        screen_status(output) == if key_flag(lines(output)[k], "mWakefulness="@, "Awake"@) is Some {
            key_flag(lines(output)[k], "mWakefulness="@, "Awake"@)
        } else {
            key_flag(lines(output)[k], "Display Power: state="@, "ON"@)
        },
{
    reveal(legacy_hit);
    let ls = lines(output);
    if legacy_found(ls) {
        let j = choose|j: int| 0 <= j < ls.len() && legacy_hit(#[trigger] ls[j]);
        assert(key_flag(ls[j], "mHoldingDisplaySuspendBlocker="@, "true"@) is None);
    }
    lemma_modern_status_at(ls, 0, k);
}

proof fn lemma_focus_at(ls: Seq<Seq<char>>, j: int, k: int)
    requires
        0 <= j <= k < ls.len(),
        forall|i: int| j <= i < k ==> !names_focus(#[trigger] ls[i]),
        names_focus(ls[k]),
    ensures
        first_focus_line(ls, j) == Some(k),
    decreases k - j,
{
    if j < k {
        lemma_focus_at(ls, j + 1, k);
    }
}

/// Law: the focus read out of a report is the first line that holds
/// `mCurrentFocus=` but not `mCurrentFocus=null`, trimmed.
pub proof fn lemma_first_focus_line_wins(output: Seq<char>, k: int)
    requires
        0 <= k < lines(output).len(),
        contains(lines(output)[k], "mCurrentFocus="@),
        !contains(lines(output)[k], "mCurrentFocus=null"@),
        forall|i: int|
            0 <= i < k ==> !contains(#[trigger] lines(output)[i], "mCurrentFocus="@) || contains(
                lines(output)[i],
                "mCurrentFocus=null"@,
            ),
    ensures
        current_focus(output) == trim(lines(output)[k]),
{
    lemma_focus_at(lines(output), 0, k);
}

} // verus!
