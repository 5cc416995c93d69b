//! Character-level text handling: the views of `&str` as `Seq<char>`, and
//! the trimming, line splitting, word splitting, searching and number
//! parsing that the rest of the library is specified with.
use vstd::prelude::*;

verus! {

/// The characters of `s`, in order.
pub fn chars_of(s: &str) -> (res: Vec<char>)
    ensures
        res@ == s@,
{
    let mut res: Vec<char> = Vec::new();
    for c in it: s.chars()
        invariant
            res@ == it.seq().take(it.index()),
            it.seq() == s@,
    {
        res.push(c);
    }
    res
}

/// Unicode `White_Space`, the set that `char::is_whitespace` tests.
pub open spec fn is_ws(c: char) -> bool {
    let u = c as u32;
    ||| 0x9 <= u <= 0xd
    ||| u == 0x20
    ||| u == 0x85
    ||| u == 0xa0
    ||| u == 0x1680
    ||| 0x2000 <= u <= 0x200a
    ||| u == 0x2028
    ||| u == 0x2029
    ||| u == 0x202f
    ||| u == 0x205f
    ||| u == 0x3000
}

pub fn is_whitespace(c: char) -> (res: bool)
    ensures
        res == is_ws(c),
{
    let u = c as u32;
    (0x9 <= u && u <= 0xd) || u == 0x20 || u == 0x85 || u == 0xa0 || u == 0x1680 || (0x2000 <= u
        && u <= 0x200a) || u == 0x2028 || u == 0x2029 || u == 0x202f || u == 0x205f || u == 0x3000
}

/// `s` without its leading whitespace.
pub open spec fn trim_start(s: Seq<char>) -> Seq<char>
    decreases s.len(),
{
    if s.len() > 0 && is_ws(s[0]) {
        trim_start(s.drop_first())
    } else {
        s
    }
}

/// `s` without its trailing whitespace.
pub open spec fn trim_end(s: Seq<char>) -> Seq<char>
    decreases s.len(),
{
    if s.len() > 0 && is_ws(s.last()) {
        trim_end(s.drop_last())
    } else {
        s
    }
}

/// `s` without whitespace at either end, as `str::trim` gives it.
pub open spec fn trim(s: Seq<char>) -> Seq<char> {
    trim_end(trim_start(s))
}

/// The bounds, within `lo..hi`, of the trimmed part of `v[lo..hi]`.
pub fn trim_bounds(v: &Vec<char>, lo: usize, hi: usize) -> (res: (usize, usize))
    requires
        lo <= hi <= v.len(),
    ensures
        lo <= res.0 <= res.1 <= hi,
        v@.subrange(res.0 as int, res.1 as int) == trim(v@.subrange(lo as int, hi as int)),
{
    let mut a = lo;
    while a < hi && is_whitespace(v[a])
        invariant
            lo <= a <= hi <= v.len(),
            trim_start(v@.subrange(lo as int, hi as int)) == trim_start(
                v@.subrange(a as int, hi as int),
            ),
        decreases hi - a,
    {
        assert(v@.subrange(a as int, hi as int).drop_first() =~= v@.subrange(
            a + 1,
            hi as int,
        ));
        a = a + 1;
    }
    let mut b = hi;
    while b > a && is_whitespace(v[b - 1])
        invariant
            lo <= a <= b <= hi <= v.len(),
            trim(v@.subrange(lo as int, hi as int)) == trim_end(v@.subrange(a as int, b as int)),
        decreases b - a,
    {
        assert(v@.subrange(a as int, b as int).drop_last() =~= v@.subrange(a as int, b - 1));
        b = b - 1;
    }
    (a, b)
}

/// The characters of `v[lo..hi]` as a vector of their own.
pub fn copy_range(v: &Vec<char>, lo: usize, hi: usize) -> (res: Vec<char>)
    requires
        lo <= hi <= v.len(),
    ensures
        res@ == v@.subrange(lo as int, hi as int),
{
    let mut res: Vec<char> = Vec::new();
    let mut i = lo;
    while i < hi
        invariant
            lo <= i <= hi <= v.len(),
            res@ == v@.subrange(lo as int, i as int),
        decreases hi - i,
    {
        res.push(v[i]);
        assert(res@ =~= v@.subrange(lo as int, i + 1));
        i = i + 1;
    }
    res
}

/// The trimmed characters of `v`.
pub fn trimmed(v: &Vec<char>) -> (res: Vec<char>)
    ensures
        res@ == trim(v@),
{
    let (a, b) = trim_bounds(v, 0, v.len());
    assert(v@.subrange(0, v.len() as int) =~= v@);
    copy_range(v, a, b)
}

/// Whether two character sequences are equal.
pub fn chars_eq(a: &Vec<char>, b: &Vec<char>) -> (res: bool)
    ensures
        res == (a@ == b@),
{
    if a.len() != b.len() {
        return false;
    }
    let mut i: usize = 0;
    while i < a.len()
        invariant
            a.len() == b.len(),
            i <= a.len(),
            forall|k: int| 0 <= k < i ==> a@[k] == b@[k],
        decreases a.len() - i,
    {
        if a[i] != b[i] {
            return false;
        }
        i = i + 1;
    }
    assert(a@ =~= b@);
    true
}

/// Whether `n` stands in `h` starting at position `i`.
pub open spec fn occurs_at(h: Seq<char>, n: Seq<char>, i: int) -> bool {
    0 <= i && i + n.len() <= h.len() && h.subrange(i, i + n.len()) == n
}

/// Whether `n` is a substring of `h`, as `str::contains` tests it.
pub open spec fn contains(h: Seq<char>, n: Seq<char>) -> bool {
    exists|i: int| occurs_at(h, n, i)
}

/// Whether `h` begins with `n`.
pub open spec fn starts_with(h: Seq<char>, n: Seq<char>) -> bool {
    occurs_at(h, n, 0)
}

/// Whether `n` stands in `h` at position `i`.
pub fn matches_at(h: &Vec<char>, n: &Vec<char>, i: usize) -> (res: bool)
    ensures
        res == occurs_at(h@, n@, i as int),
{
    if i > h.len() || n.len() > h.len() - i {
        return false;
    }
    let mut k: usize = 0;
    while k < n.len()
        invariant
            i + n.len() <= h.len(),
            k <= n.len(),
            forall|j: int| 0 <= j < k ==> h@[i + j] == n@[j],
        decreases n.len() - k,
    {
        if h[i + k] != n[k] {
            assert(h@.subrange(i as int, i + n.len())[k as int] != n@[k as int]);
            return false;
        }
        k = k + 1;
    }
    assert(h@.subrange(i as int, i + n.len()) =~= n@);
    true
}

/// The first position at which `n` stands in `h`.
pub fn find(h: &Vec<char>, n: &Vec<char>) -> (res: Option<usize>)
    ensures
        match res {
            Some(i) => occurs_at(h@, n@, i as int) && forall|j: int|
                0 <= j < i ==> !occurs_at(h@, n@, j),
            None => !contains(h@, n@),
        },
{
    if n.len() > h.len() {
        return None;
    }
    let last = h.len() - n.len();
    let mut i: usize = 0;
    while i < last
        invariant
            last + n.len() == h.len(),
            i <= last,
            forall|j: int| 0 <= j < i ==> !occurs_at(h@, n@, j),
        decreases last - i,
    {
        if matches_at(h, n, i) {
            return Some(i);
        }
        i = i + 1;
    }
    if matches_at(h, n, last) {
        Some(last)
    } else {
        None
    }
}

/// Whether `n` is a substring of `h`.
pub fn contains_chars(h: &Vec<char>, n: &Vec<char>) -> (res: bool)
    ensures
        res == contains(h@, n@),
{
    find(h, n).is_some()
}

/// A line's text: a line that a `'\n'` ended also loses a `'\r'` just before it.
pub open spec fn strip_cr(line: Seq<char>) -> Seq<char> {
    if line.len() > 0 && line.last() == '\r' {
        line.drop_last()
    } else {
        line
    }
}

/// The lines of `s` that remain when the current line began at `start` and
/// the scan has reached `i`.
pub open spec fn lines_from(s: Seq<char>, start: int, i: int) -> Seq<Seq<char>>
    decreases s.len() - i,
{
    if i >= s.len() {
        if 0 <= start < s.len() {
            seq![s.subrange(start, s.len() as int)]
        } else {
            seq![]
        }
    } else if s[i] == '\n' {
        seq![strip_cr(s.subrange(start, i))] + lines_from(s, i + 1, i + 1)
    } else {
        lines_from(s, start, i + 1)
    }
}

/// The lines of `s`, as `str::lines` yields them: split at `'\n'`, a `'\r'`
/// before the `'\n'` dropped, and no empty line after a final `'\n'`.
pub open spec fn lines(s: Seq<char>) -> Seq<Seq<char>> {
    lines_from(s, 0, 0)
}

/// The bounds of each line of `v`, in order.
pub fn line_bounds(v: &Vec<char>) -> (res: Vec<(usize, usize)>)
    ensures
        res.len() == lines(v@).len(),
        forall|k: int|
            0 <= k < res.len() ==> {
                &&& (#[trigger] res@[k]).0 <= res@[k].1 <= v.len()
                &&& v@.subrange(res@[k].0 as int, res@[k].1 as int) == lines(v@)[k]
            },
{
    let mut res: Vec<(usize, usize)> = Vec::new();
    let ghost mut done: Seq<Seq<char>> = seq![];
    let mut start: usize = 0;
    let mut i: usize = 0;
    while i < v.len()
        invariant
            start <= i <= v.len(),
            lines(v@) == done + lines_from(v@, start as int, i as int),
            res.len() == done.len(),
            forall|k: int|
                0 <= k < res.len() ==> {
                    &&& (#[trigger] res@[k]).0 <= res@[k].1 <= v.len()
                    &&& v@.subrange(res@[k].0 as int, res@[k].1 as int) == done[k]
                },
        decreases v.len() - i,
    {
        if v[i] == '\n' {
            let end = if i > start && v[i - 1] == '\r' {
                i - 1
            } else {
                i
            };
            assert(v@.subrange(start as int, end as int) == strip_cr(
                v@.subrange(start as int, i as int),
            )) by {
                if i > start && v@[i - 1] == '\r' {
                    assert(v@.subrange(start as int, i as int).drop_last() =~= v@.subrange(
                        start as int,
                        end as int,
                    ));
                }
            }
            let ghost before = done;
            proof {
                done = done.push(v@.subrange(start as int, end as int));
            }
            res.push((start, end));
            assert(lines(v@) == done + lines_from(v@, i + 1, i + 1)) by {
                assert(before + (seq![done.last()] + lines_from(v@, i + 1, i + 1)) =~= done
                    + lines_from(v@, i + 1, i + 1));
            }
            start = i + 1;
        }
        i = i + 1;
    }
    if start < v.len() {
        let ghost before = done;
        proof {
            done = done.push(v@.subrange(start as int, v.len() as int));
        }
        res.push((start, v.len()));
        assert(lines(v@) == done) by {
            assert(before + seq![done.last()] =~= done);
        }
    } else {
        assert(lines(v@) =~= done);
    }
    res
}

/// The word `s[start..i]` as a list of one word, or no word where it is empty.
pub open spec fn word_if_any(s: Seq<char>, start: int, i: int) -> Seq<Seq<char>> {
    if start < i {
        seq![s.subrange(start, i)]
    } else {
        seq![]
    }
}

/// The words of `s` that remain when the current word began at `start` and
/// the scan has reached `i`.
pub open spec fn words_from(s: Seq<char>, start: int, i: int) -> Seq<Seq<char>>
    decreases s.len() - i,
{
    if i >= s.len() {
        word_if_any(s, start, s.len() as int)
    } else if is_ws(s[i]) {
        word_if_any(s, start, i) + words_from(s, i + 1, i + 1)
    } else {
        words_from(s, start, i + 1)
    }
}

/// The words of `s`, as `str::split_whitespace` yields them.
pub open spec fn words(s: Seq<char>) -> Seq<Seq<char>> {
    words_from(s, 0, 0)
}

/// The words of `v`, each as a vector of its own.
pub fn split_words(v: &Vec<char>) -> (res: Vec<Vec<char>>)
    ensures
        res.len() == words(v@).len(),
        forall|k: int| 0 <= k < res.len() ==> (#[trigger] res@[k])@ == words(v@)[k],
{
    let mut res: Vec<Vec<char>> = Vec::new();
    let ghost mut done: Seq<Seq<char>> = seq![];
    let mut start: usize = 0;
    let mut i: usize = 0;
    while i < v.len()
        invariant
            start <= i <= v.len(),
            words(v@) == done + words_from(v@, start as int, i as int),
            res.len() == done.len(),
            forall|k: int| 0 <= k < res.len() ==> (#[trigger] res@[k])@ == done[k],
        decreases v.len() - i,
    {
        if is_whitespace(v[i]) {
            let ghost before = done;
            if start < i {
                let w = copy_range(v, start, i);
                proof {
                    done = done.push(w@);
                }
                res.push(w);
            }
            assert(words(v@) == done + words_from(v@, i + 1, i + 1)) by {
                assert(before + (word_if_any(v@, start as int, i as int) + words_from(
                    v@,
                    i + 1,
                    i + 1,
                )) =~= done + words_from(v@, i + 1, i + 1));
            }
            start = i + 1;
        }
        i = i + 1;
    }
    let ghost before = done;
    if start < v.len() {
        let w = copy_range(v, start, v.len());
        proof {
            done = done.push(w@);
        }
        res.push(w);
    }
    assert(words(v@) =~= done) by {
        assert(before + word_if_any(v@, start as int, v.len() as int) =~= done);
    }
    res
}

/// Whether `c` is one of the ASCII digits `0` to `9`.
pub open spec fn is_digit(c: char) -> bool {
    48 <= c as u32 <= 57
}

/// The value of the digit `c`.
pub open spec fn digit_value(c: char) -> nat {
    (c as u32 - 48) as nat
}

/// The value of a run of decimal digits.
pub open spec fn digits_value(d: Seq<char>) -> nat
    decreases d.len(),
{
    if d.len() == 0 {
        0
    } else {
        digits_value(d.drop_last()) * 10 + digit_value(d.last())
    }
}

/// Whether every character of `d` is a decimal digit.
pub open spec fn all_digits(d: Seq<char>) -> bool {
    forall|k: int| 0 <= k < d.len() ==> is_digit(#[trigger] d[k])
}

/// The digits of an unsigned number: the text without one leading `'+'`.
pub open spec fn unsigned_digits(s: Seq<char>) -> Seq<char> {
    if s.len() > 0 && s[0] == '+' {
        s.drop_first()
    } else {
        s
    }
}

/// What `from_str` of an unsigned integer type whose greatest value is `max`
/// gives for `s`: an optional `'+'`, then at least one decimal digit and
/// nothing else, of a value no greater than `max`.
pub open spec fn parse_unsigned(s: Seq<char>, max: nat) -> Option<nat> {
    let d = unsigned_digits(s);
    if d.len() > 0 && all_digits(d) && digits_value(d) <= max {
        Some(digits_value(d))
    } else {
        None
    }
}

pub proof fn lemma_digits_prefix_le(d: Seq<char>, k: int)
    requires
        0 <= k <= d.len(),
        all_digits(d),
    ensures
        digits_value(d.take(k)) <= digits_value(d),
    decreases d.len(),
{
    if k < d.len() {
        assert(d.drop_last().take(k) =~= d.take(k));
        lemma_digits_prefix_le(d.drop_last(), k);
    } else {
        assert(d.take(k) =~= d);
    }
}

/// The unsigned number that `s` spells, no greater than `max`.
pub fn parse_bounded(s: &Vec<char>, max: u64) -> (res: Option<u64>)
    ensures
        res is Some <==> parse_unsigned(s@, max as nat) is Some,
        res matches Some(n) ==> n == parse_unsigned(s@, max as nat)->0,
{
    let first: usize = if s.len() > 0 && s[0] == '+' {
        1
    } else {
        0
    };
    let ghost d = unsigned_digits(s@);
    assert(d =~= s@.subrange(first as int, s.len() as int));
    if first == s.len() {
        return None;
    }
    let mut acc: u64 = 0;
    let mut i: usize = first;
    while i < s.len()
        invariant
            first <= i <= s.len(),
            first < s.len(),
            d == s@.subrange(first as int, s.len() as int),
            d == unsigned_digits(s@),
            all_digits(d.take(i - first)),
            acc == digits_value(d.take(i - first)),
            acc <= max,
        decreases s.len() - i,
    {
        let c = s[i];
        let u = c as u32;
        assert(d[i - first] == c);
        if u < 48 || u > 57 {
            assert(!is_digit(c));
            assert(!all_digits(d));
            return None;
        }
        let next: u128 = acc as u128 * 10 + (u - 48) as u128;
        assert(d.take(i + 1 - first).drop_last() =~= d.take(i - first));
        if next > max as u128 {
            proof {
                if all_digits(d) {
                    assert(all_digits(d.take(i + 1 - first)));
                    assert(digits_value(d.take(i + 1 - first)) == next);
                    lemma_digits_prefix_le(d, i + 1 - first);
                }
            }
            return None;
        }
        acc = next as u64;
        i = i + 1;
    }
    assert(d.take(s.len() - first) =~= d);
    Some(acc)
}

/// The ASCII lowercase form of `c`: `A` to `Z` become `a` to `z`, every
/// other character stays.
pub open spec fn ascii_lower(c: char) -> char {
    if 65 <= c as u32 <= 90 {
        ((c as u32) + 32) as char
    } else {
        c
    }
}

/// `s` with each character in ASCII lowercase, as `str::to_ascii_lowercase` gives it.
pub open spec fn ascii_lowercase(s: Seq<char>) -> Seq<char> {
    s.map_values(|c: char| ascii_lower(c))
}

pub fn to_ascii_lowercase(v: &Vec<char>) -> (res: Vec<char>)
    ensures
        res@ == ascii_lowercase(v@),
{
    let mut res: Vec<char> = Vec::new();
    let mut i: usize = 0;
    while i < v.len()
        invariant
            i <= v.len(),
            res@ == ascii_lowercase(v@.take(i as int)),
        decreases v.len() - i,
    {
        let c = v[i];
        let u = c as u32;
        let lower = if 65 <= u && u <= 90 {
            ((u + 32) as u8) as char
        } else {
            c
        };
        assert(lower == ascii_lower(c));
        res.push(lower);
        assert(ascii_lowercase(v@.take(i + 1)) =~= ascii_lowercase(v@.take(i as int)).push(
            ascii_lower(c),
        ));
        i = i + 1;
    }
    assert(v@.take(v.len() as int) =~= v@);
    res
}

/// The character of the decimal digit `d`.
pub open spec fn digit_char(d: nat) -> char {
    (d + 48) as char
}

/// The decimal notation of `n`, without sign or leading zeros.
pub open spec fn decimal(n: nat) -> Seq<char>
    decreases n,
{
    if n < 10 {
        seq![digit_char(n)]
    } else {
        decimal(n / 10) + seq![digit_char(n % 10)]
    }
}

fn digit_str(d: u64) -> (res: &'static str)
    requires
        d < 10,
    ensures
        res@ == seq![digit_char(d as nat)],
{
    proof {
        reveal_strlit("0");
        reveal_strlit("1");
        reveal_strlit("2");
        reveal_strlit("3");
        reveal_strlit("4");
        reveal_strlit("5");
        reveal_strlit("6");
        reveal_strlit("7");
        reveal_strlit("8");
        reveal_strlit("9");
    }
    let res = match d {
        0 => "0",
        1 => "1",
        2 => "2",
        3 => "3",
        4 => "4",
        5 => "5",
        6 => "6",
        7 => "7",
        8 => "8",
        _ => "9",
    };
    assert(res@ =~= seq![digit_char(d as nat)]);
    res
}

/// Appends the decimal notation of `n` to `out`.
pub fn push_decimal(out: &mut String, n: u64)
    ensures
        final(out)@ == old(out)@ + decimal(n as nat),
    decreases n,
{
    if n >= 10 {
        push_decimal(out, n / 10);
    }
    out.append(digit_str(n % 10));
    assert(old(out)@ + decimal(n as nat) =~= (if n >= 10 {
        old(out)@ + decimal((n / 10) as nat)
    } else {
        old(out)@
    }) + seq![digit_char((n % 10) as nat)]);
}

/// The first position at which `n` stands in `h`; meaningful where `h` contains `n`.
pub open spec fn first_occurrence(h: Seq<char>, n: Seq<char>) -> int {
    choose|i: int| occurs_at(h, n, i) && forall|j: int| 0 <= j < i ==> !occurs_at(h, n, j)
}

/// What follows the first `n` in `h`, as the second half of `str::split_once`.
pub open spec fn split_after(h: Seq<char>, n: Seq<char>) -> Option<Seq<char>> {
    if contains(h, n) {
        Some(h.skip(first_occurrence(h, n) + n.len()))
    } else {
        None
    }
}

/// What follows the first `n` in `h`, if `n` stands in `h`.
pub fn split_once_after(h: &Vec<char>, n: &Vec<char>) -> (res: Option<Vec<char>>)
    ensures
        match res {
            Some(v) => split_after(h@, n@) == Some(v@),
            None => split_after(h@, n@) is None,
        },
{
    match find(h, n) {
        Some(i) => {
            let ghost c = first_occurrence(h@, n@);
            assert(occurs_at(h@, n@, i as int));
            assert(contains(h@, n@));
            assert(i + n.len() <= h.len());
            assert(c == i) by {
                if c < i {
                } else if c > i {
                }
            }
            let v = copy_range(h, i + n.len(), h.len());
            assert(v@ =~= h@.skip(i + n.len()));
            Some(v)
        },
        None => None,
    }
}

/// Whether the text of `h` after its leading whitespace begins with `p`.
pub fn starts_after_whitespace(h: &Vec<char>, p: &Vec<char>) -> (res: bool)
    ensures
        res == starts_with(trim_start(h@), p@),
{
    let mut a: usize = 0;
    assert(h@.subrange(0, h.len() as int) =~= h@);
    while a < h.len() && is_whitespace(h[a])
        invariant
            a <= h.len(),
            trim_start(h@) == trim_start(h@.subrange(a as int, h.len() as int)),
        decreases h.len() - a,
    {
        assert(h@.subrange(a as int, h.len() as int).drop_first() =~= h@.subrange(
            a + 1,
            h.len() as int,
        ));
        a = a + 1;
    }
    assert(h@.subrange(0, h.len() as int) =~= h@);
    let rest = copy_range(h, a, h.len());
    matches_at(&rest, p, 0)
}

} // verus!
