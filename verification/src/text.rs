//! Character-level text utilities for parsing listing output and rendering
//! durations: separator splitting, whitespace splitting, trimming, suffix
//! stripping, fixed-point decimal parsing and decimal rendering.
//!
//! All functions work on the character sequences behind `&str` / `String` and
//! are specified against recursive spec functions over `Seq<char>`.

use vstd::prelude::*;

verus! {

/// ASCII whitespace, the separator set for column-oriented listings.
pub open spec fn is_space(c: char) -> bool {
    c == ' ' || c == '\t' || c == '\r' || c == '\n'
}

/// Executable twin of [`is_space`].
pub fn is_space_char(c: char) -> (b: bool)
    ensures
        b == is_space(c),
{
    c == ' ' || c == '\t' || c == '\r' || c == '\n'
}

/// Index of the first occurrence of `sep` in `s`, or -1 when absent.
pub open spec fn first_index_of(s: Seq<char>, sep: char) -> int
    decreases s.len(),
{
    if s.len() == 0 {
        -1
    } else if s[0] == sep {
        0
    } else {
        let r = first_index_of(s.subrange(1, s.len() as int), sep);
        if r < 0 {
            -1
        } else {
            r + 1
        }
    }
}

/// `first_index_of` finds exactly the position whose prefix is clean and
/// which holds `sep` itself.
proof fn lemma_first_index_of_at(s: Seq<char>, sep: char, k: int)
    requires
        0 <= k < s.len(),
        s[k] == sep,
        forall|j: int| 0 <= j < k ==> s[j] != sep,
    ensures
        first_index_of(s, sep) == k,
    decreases s.len(),
{
    if k == 0 {
    } else {
        let t = s.subrange(1, s.len() as int);
        lemma_first_index_of_at(t, sep, k - 1);
    }
}

/// When `sep` occurs nowhere in `s`, `first_index_of` reports -1.
proof fn lemma_first_index_of_none(s: Seq<char>, sep: char)
    requires
        forall|j: int| 0 <= j < s.len() ==> s[j] != sep,
    ensures
        first_index_of(s, sep) == -1,
    decreases s.len(),
{
    if s.len() > 0 {
        lemma_first_index_of_none(s.subrange(1, s.len() as int), sep);
    }
}

/// The segments of `s` between occurrences of `sep`, in order. An empty
/// input yields one empty segment, as `str::split` does.
pub open spec fn spec_split(s: Seq<char>, sep: char) -> Seq<Seq<char>>
    decreases s.len(),
{
    let i = first_index_of(s, sep);
    if 0 <= i && i < s.len() {
        seq![s.subrange(0, i)] + spec_split(s.subrange(i + 1, s.len() as int), sep)
    } else {
        seq![s]
    }
}

/// Splits `s` at every occurrence of `sep`, keeping empty segments.
pub fn split_str(s: &str, sep: char) -> (parts: Vec<String>)
    ensures
        parts.deep_view() == spec_split(s@, sep),
{
    let len = s.unicode_len();
    let mut parts: Vec<String> = Vec::new();
    let mut start: usize = 0;
    let mut i: usize = 0;
    proof {
        assert(s@.subrange(0, len as int) =~= s@);
        assert(parts.deep_view() + spec_split(s@, sep) =~= spec_split(s@, sep));
    }
    while i < len
        invariant
            start <= i <= len,
            len == s@.len(),
            spec_split(s@, sep) == parts.deep_view() + spec_split(
                s@.subrange(start as int, len as int),
                sep,
            ),
            forall|j: int| start <= j < i ==> s@[j] != sep,
        decreases len - i,
    {
        if s.get_char(i) == sep {
            let ghost old_parts = parts.deep_view();
            let piece = s.substring_char(start, i).to_owned();
            parts.push(piece);
            proof {
                let t = s@.subrange(start as int, len as int);
                lemma_first_index_of_at(t, sep, i - start);
                assert(t.subrange(0, i - start) =~= s@.subrange(start as int, i as int));
                assert(t.subrange(i - start + 1, t.len() as int) =~= s@.subrange(
                    i + 1,
                    len as int,
                ));
                assert(parts.deep_view() =~= old_parts.push(piece@));
                assert(parts.deep_view() + spec_split(s@.subrange(i + 1, len as int), sep)
                    =~= old_parts + spec_split(t, sep));
            }
            start = i + 1;
        }
        i = i + 1;
    }
    let ghost old_parts = parts.deep_view();
    let piece = s.substring_char(start, len).to_owned();
    parts.push(piece);
    proof {
        let t = s@.subrange(start as int, len as int);
        lemma_first_index_of_none(t, sep);
        assert(parts.deep_view() =~= old_parts.push(piece@));
        assert(parts.deep_view() =~= old_parts + spec_split(t, sep));
    }
    parts
}

/// Index of the first whitespace character of `s`, or `s.len()` when none.
pub open spec fn first_space_index(s: Seq<char>) -> int
    decreases s.len(),
{
    if s.len() == 0 {
        0
    } else if is_space(s[0]) {
        0
    } else {
        1 + first_space_index(s.subrange(1, s.len() as int))
    }
}

/// `first_space_index` finds exactly the position with a clean prefix that is
/// either the end or holds whitespace.
proof fn lemma_first_space_index_at(s: Seq<char>, k: int)
    requires
        0 <= k <= s.len(),
        forall|j: int| 0 <= j < k ==> !is_space(s[j]),
        k < s.len() ==> is_space(s[k]),
    ensures
        first_space_index(s) == k,
    decreases s.len(),
{
    if s.len() == 0 {
    } else if k == 0 {
    } else {
        let t = s.subrange(1, s.len() as int);
        lemma_first_space_index_at(t, k - 1);
    }
}

/// The whitespace-separated words of `s`, in order, with no empty words, as
/// `str::split_whitespace` yields them.
pub open spec fn spec_split_ws(s: Seq<char>) -> Seq<Seq<char>>
    decreases s.len(),
{
    if s.len() == 0 {
        Seq::empty()
    } else if is_space(s[0]) {
        spec_split_ws(s.subrange(1, s.len() as int))
    } else {
        let k = first_space_index(s);
        if 1 <= k && k <= s.len() {
            seq![s.subrange(0, k)] + spec_split_ws(s.subrange(k, s.len() as int))
        } else {
            seq![s]
        }
    }
}

/// Splits `s` into its whitespace-separated words.
pub fn split_whitespace_str(s: &str) -> (parts: Vec<String>)
    ensures
        parts.deep_view() == spec_split_ws(s@),
{
    let len = s.unicode_len();
    let mut parts: Vec<String> = Vec::new();
    let mut i: usize = 0;
    proof {
        assert(s@.subrange(0, len as int) =~= s@);
        assert(parts.deep_view() + spec_split_ws(s@) =~= spec_split_ws(s@));
    }
    while i < len
        invariant
            i <= len,
            len == s@.len(),
            spec_split_ws(s@) == parts.deep_view() + spec_split_ws(
                s@.subrange(i as int, len as int),
            ),
        decreases len - i,
    {
        if is_space_char(s.get_char(i)) {
            proof {
                let t = s@.subrange(i as int, len as int);
                assert(t.subrange(1, t.len() as int) =~= s@.subrange(i + 1, len as int));
            }
            i = i + 1;
        } else {
            let mut j: usize = i + 1;
            while j < len && !is_space_char(s.get_char(j))
                invariant
                    i < j <= len,
                    len == s@.len(),
                    forall|m: int| i <= m < j ==> !is_space(s@[m]),
                decreases len - j,
            {
                j = j + 1;
            }
            let ghost old_parts = parts.deep_view();
            let piece = s.substring_char(i, j).to_owned();
            parts.push(piece);
            proof {
                let t = s@.subrange(i as int, len as int);
                lemma_first_space_index_at(t, j - i);
                assert(t.subrange(0, j - i) =~= s@.subrange(i as int, j as int));
                assert(t.subrange(j - i, t.len() as int) =~= s@.subrange(j as int, len as int));
                assert(parts.deep_view() =~= old_parts.push(piece@));
                assert(parts.deep_view() + spec_split_ws(s@.subrange(j as int, len as int))
                    =~= old_parts + spec_split_ws(t));
            }
            i = j;
        }
    }
    proof {
        assert(s@.subrange(len as int, len as int).len() == 0);
        assert(parts.deep_view() + spec_split_ws(s@.subrange(len as int, len as int))
            =~= parts.deep_view());
    }
    parts
}

/// `s` without leading whitespace.
pub open spec fn spec_trim_start(s: Seq<char>) -> Seq<char>
    decreases s.len(),
{
    if s.len() > 0 && is_space(s[0]) {
        spec_trim_start(s.subrange(1, s.len() as int))
    } else {
        s
    }
}

/// `s` without trailing whitespace.
pub open spec fn spec_trim_end(s: Seq<char>) -> Seq<char>
    decreases s.len(),
{
    if s.len() > 0 && is_space(s[s.len() - 1]) {
        spec_trim_end(s.subrange(0, s.len() - 1))
    } else {
        s
    }
}

/// `s` without leading or trailing whitespace, as `str::trim` returns it for
/// ASCII input.
pub open spec fn spec_trim(s: Seq<char>) -> Seq<char> {
    spec_trim_end(spec_trim_start(s))
}

/// Trimming from the start keeps exactly the suffix from the first non-space.
proof fn lemma_trim_start_at(s: Seq<char>, lo: int)
    requires
        0 <= lo <= s.len(),
        forall|j: int| 0 <= j < lo ==> is_space(s[j]),
        lo < s.len() ==> !is_space(s[lo]),
    ensures
        spec_trim_start(s) == s.subrange(lo, s.len() as int),
    decreases s.len(),
{
    if s.len() == 0 {
        assert(spec_trim_start(s) =~= s.subrange(lo, s.len() as int));
    } else if lo == 0 {
        assert(spec_trim_start(s) =~= s.subrange(0, s.len() as int));
    } else {
        let t = s.subrange(1, s.len() as int);
        lemma_trim_start_at(t, lo - 1);
        assert(t.subrange(lo - 1, t.len() as int) =~= s.subrange(lo, s.len() as int));
    }
}

/// Trimming from the end keeps exactly the prefix up to the last non-space.
proof fn lemma_trim_end_at(s: Seq<char>, hi: int)
    requires
        0 <= hi <= s.len(),
        forall|j: int| hi <= j < s.len() ==> is_space(s[j]),
        hi > 0 ==> !is_space(s[hi - 1]),
    ensures
        spec_trim_end(s) == s.subrange(0, hi),
    decreases s.len(),
{
    if s.len() == 0 {
        assert(spec_trim_end(s) =~= s.subrange(0, hi));
    } else if hi == s.len() {
        assert(spec_trim_end(s) =~= s.subrange(0, hi));
    } else {
        let t = s.subrange(0, s.len() - 1);
        lemma_trim_end_at(t, hi);
        assert(t.subrange(0, hi) =~= s.subrange(0, hi));
    }
}

/// Removes leading and trailing ASCII whitespace.
pub fn trim_str(s: &str) -> (r: String)
    ensures
        r@ == spec_trim(s@),
{
    let len = s.unicode_len();
    let mut lo: usize = 0;
    while lo < len && is_space_char(s.get_char(lo))
        invariant
            lo <= len,
            len == s@.len(),
            forall|j: int| 0 <= j < lo ==> is_space(s@[j]),
        decreases len - lo,
    {
        lo = lo + 1;
    }
    let mut hi: usize = len;
    while hi > lo && is_space_char(s.get_char(hi - 1))
        invariant
            lo <= hi <= len,
            len == s@.len(),
            forall|j: int| hi <= j < len ==> is_space(s@[j]),
        decreases hi,
    {
        hi = hi - 1;
    }
    let r = s.substring_char(lo, hi).to_owned();
    proof {
        lemma_trim_start_at(s@, lo as int);
        let t = s@.subrange(lo as int, len as int);
        if hi == lo {
            lemma_trim_end_at(t, 0);
        } else {
            lemma_trim_end_at(t, hi - lo);
        }
        assert(t.subrange(0, hi - lo) =~= s@.subrange(lo as int, hi as int));
    }
    r
}

/// `s` with every trailing occurrence of `c` removed, as
/// `str::trim_end_matches` does for a single-character pattern.
pub open spec fn spec_strip_trailing(s: Seq<char>, c: char) -> Seq<char>
    decreases s.len(),
{
    if s.len() > 0 && s[s.len() - 1] == c {
        spec_strip_trailing(s.subrange(0, s.len() - 1), c)
    } else {
        s
    }
}

/// Stripping keeps exactly the prefix up to the last character that is not
/// `c`.
proof fn lemma_strip_trailing_at(s: Seq<char>, c: char, hi: int)
    requires
        0 <= hi <= s.len(),
        forall|j: int| hi <= j < s.len() ==> s[j] == c,
        hi > 0 ==> s[hi - 1] != c,
    ensures
        spec_strip_trailing(s, c) == s.subrange(0, hi),
    decreases s.len(),
{
    if s.len() == 0 {
        assert(spec_strip_trailing(s, c) =~= s.subrange(0, hi));
    } else if hi == s.len() {
        assert(spec_strip_trailing(s, c) =~= s.subrange(0, hi));
    } else {
        let t = s.subrange(0, s.len() - 1);
        lemma_strip_trailing_at(t, c, hi);
        assert(t.subrange(0, hi) =~= s.subrange(0, hi));
    }
}

/// Removes every trailing occurrence of `c`.
pub fn strip_trailing(s: &str, c: char) -> (r: String)
    ensures
        r@ == spec_strip_trailing(s@, c),
{
    let len = s.unicode_len();
    let mut hi: usize = len;
    while hi > 0 && s.get_char(hi - 1) == c
        invariant
            hi <= len,
            len == s@.len(),
            forall|j: int| hi <= j < len ==> s@[j] == c,
        decreases hi,
    {
        hi = hi - 1;
    }
    let r = s.substring_char(0, hi).to_owned();
    proof {
        lemma_strip_trailing_at(s@, c, hi as int);
    }
    r
}

/// Character-for-character equality of two strings.
pub fn str_eq(a: &str, b: &str) -> (r: bool)
    ensures
        r == (a@ == b@),
{
    let la = a.unicode_len();
    let lb = b.unicode_len();
    if la != lb {
        return false;
    }
    let mut i: usize = 0;
    while i < la
        invariant
            i <= la,
            la == a@.len() == b@.len(),
            forall|j: int| 0 <= j < i ==> a@[j] == b@[j],
        decreases la - i,
    {
        if a.get_char(i) != b.get_char(i) {
            return false;
        }
        i = i + 1;
    }
    proof {
        assert(a@ =~= b@);
    }
    true
}

/// ASCII decimal digit.
pub open spec fn is_digit(c: char) -> bool {
    48 <= c as u32 && c as u32 <= 57
}

/// Executable twin of [`is_digit`].
pub fn is_digit_char(c: char) -> (b: bool)
    ensures
        b == is_digit(c),
{
    let u = c as u32;
    48 <= u && u <= 57
}

/// Numeric value of a digit character.
pub open spec fn digit_val(c: char) -> int {
    c as u32 - 48
}

fn digit_of(c: char) -> (d: u64)
    requires
        is_digit(c),
    ensures
        d == digit_val(c),
        d <= 9,
{
    (c as u32 - 48) as u64
}

/// Every character of `s` is a decimal digit.
pub open spec fn all_digits(s: Seq<char>) -> bool {
    forall|i: int| 0 <= i < s.len() ==> is_digit(s[i])
}

/// Base-ten value of a digit string; the empty string counts as zero.
pub open spec fn digits_val(s: Seq<char>) -> int
    decreases s.len(),
{
    if s.len() == 0 {
        0
    } else {
        digits_val(s.subrange(0, s.len() - 1)) * 10 + digit_val(s[s.len() - 1])
    }
}

proof fn lemma_digits_val_nonneg(s: Seq<char>)
    requires
        all_digits(s),
    ensures
        digits_val(s) >= 0,
    decreases s.len(),
{
    if s.len() > 0 {
        let t = s.subrange(0, s.len() - 1);
        assert(all_digits(t));
        lemma_digits_val_nonneg(t);
    }
}

/// Clamps a non-negative mathematical value into `u64`.
pub open spec fn clamp_u64(v: int) -> u64 {
    if v > u64::MAX {
        u64::MAX
    } else if v < 0 {
        0
    } else {
        v as u64
    }
}

/// Hundredths contributed by a fraction part: its first two digits; further
/// digits are dropped.
pub open spec fn frac_centi(s: Seq<char>) -> int {
    if s.len() == 0 {
        0
    } else if s.len() == 1 {
        digit_val(s[0]) * 10
    } else {
        digit_val(s[0]) * 10 + digit_val(s[1])
    }
}

/// The value of a plain decimal literal in hundredths of a unit, saturated at
/// `u64::MAX`. Accepted forms are `digits`, `digits.digits`, `digits.` and
/// `.digits`; anything else (including a sign or an exponent) yields zero, as
/// the callers treat unparseable columns as zero.
pub open spec fn spec_centi(s: Seq<char>) -> u64 {
    let dot = first_index_of(s, '.');
    if dot < 0 {
        if s.len() > 0 && all_digits(s) {
            clamp_u64(digits_val(s) * 100)
        } else {
            0
        }
    } else if 0 <= dot && dot < s.len() {
        let ip = s.subrange(0, dot);
        let fp = s.subrange(dot + 1, s.len() as int);
        if s.len() > 1 && all_digits(ip) && all_digits(fp) {
            clamp_u64(digits_val(ip) * 100 + frac_centi(fp))
        } else {
            0
        }
    } else {
        0
    }
}

/// Checks that `s[from..to]` consists of digits only.
fn digits_in_range(s: &str, from: usize, to: usize) -> (b: bool)
    requires
        from <= to <= s@.len(),
    ensures
        b == all_digits(s@.subrange(from as int, to as int)),
{
    let mut i = from;
    while i < to
        invariant
            from <= i <= to <= s@.len(),
            forall|j: int| from <= j < i ==> is_digit(s@[j]),
        decreases to - i,
    {
        if !is_digit_char(s.get_char(i)) {
            proof {
                assert(!is_digit(s@.subrange(from as int, to as int)[i - from]));
            }
            return false;
        }
        i = i + 1;
    }
    proof {
        assert forall|j: int| 0 <= j < to - from implies is_digit(
            s@.subrange(from as int, to as int)[j],
        ) by {
            assert(s@.subrange(from as int, to as int)[j] == s@[from + j]);
        }
    }
    true
}

/// Base-ten value of the digit range `s[from..to]`; `None` reports a value
/// above `u64::MAX`.
fn digits_value_in(s: &str, from: usize, to: usize) -> (r: Option<u64>)
    requires
        from <= to <= s@.len(),
        all_digits(s@.subrange(from as int, to as int)),
    ensures
        match r {
            Some(v) => v == digits_val(s@.subrange(from as int, to as int)),
            None => digits_val(s@.subrange(from as int, to as int)) > u64::MAX,
        },
{
    let mut acc: u64 = 0;
    let mut sat = false;
    let mut i = from;
    while i < to
        invariant
            from <= i <= to <= s@.len(),
            all_digits(s@.subrange(from as int, to as int)),
            !sat ==> acc == digits_val(s@.subrange(from as int, i as int)),
            sat ==> digits_val(s@.subrange(from as int, i as int)) > u64::MAX,
        decreases to - i,
    {
        proof {
            assert(s@.subrange(from as int, to as int)[i - from] == s@[i as int]);
        }
        let d = digit_of(s.get_char(i));
        let ghost pre = s@.subrange(from as int, i as int);
        let ghost ext = s@.subrange(from as int, (i + 1) as int);
        proof {
            assert(all_digits(pre)) by {
                assert forall|j: int| 0 <= j < pre.len() implies is_digit(pre[j]) by {
                    assert(pre[j] == s@.subrange(from as int, to as int)[j]);
                }
            }
            assert(ext.subrange(0, ext.len() - 1) =~= pre);
            assert(ext[ext.len() - 1] == s@[i as int]);
            assert(digits_val(ext) == digits_val(pre) * 10 + d);
            lemma_digits_val_nonneg(pre);
        }
        if sat {
            proof {
                assert(digits_val(pre) > u64::MAX);
                assert(digits_val(pre) * 10 >= digits_val(pre));
                assert(digits_val(ext) > u64::MAX);
            }
        } else if acc > (u64::MAX - d) / 10 {
            proof {
                let q = (u64::MAX - d) / 10;
                assert(q * 10 <= u64::MAX - d < (q + 1) * 10);
                assert(acc >= q + 1);
                assert(acc * 10 >= (q + 1) * 10) by (nonlinear_arith)
                    requires
                        acc >= q + 1,
                        q >= 0,
                ;
                assert(digits_val(ext) > u64::MAX);
            }
            sat = true;
        } else {
            proof {
                let q = (u64::MAX - d) / 10;
                assert(q * 10 <= u64::MAX - d);
                assert(acc * 10 <= q * 10) by (nonlinear_arith)
                    requires
                        acc <= q,
                        0 <= acc,
                ;
            }
            acc = acc * 10 + d;
        }
        i = i + 1;
    }
    proof {
        assert(s@.subrange(from as int, i as int) =~= s@.subrange(from as int, to as int));
    }
    if sat {
        None
    } else {
        Some(acc)
    }
}

/// Parses a decimal literal into hundredths of a unit; unparseable input
/// yields zero. See [`spec_centi`] for the accepted forms.
pub fn parse_centi(s: &str) -> (r: u64)
    ensures
        r == spec_centi(s@),
{
    let len = s.unicode_len();
    let mut dot: usize = 0;
    while dot < len && s.get_char(dot) != '.'
        invariant
            dot <= len,
            len == s@.len(),
            forall|j: int| 0 <= j < dot ==> s@[j] != '.',
        decreases len - dot,
    {
        dot = dot + 1;
    }
    if dot == len {
        proof {
            lemma_first_index_of_none(s@, '.');
        }
        if len == 0 {
            return 0;
        }
        proof {
            assert(s@.subrange(0, len as int) =~= s@);
        }
        if !digits_in_range(s, 0, len) {
            return 0;
        }
        match digits_value_in(s, 0, len) {
            Some(v) => {
                proof {
                    lemma_digits_val_nonneg(s@);
                }
                let w: u128 = (v as u128) * 100;
                if w > u64::MAX as u128 {
                    u64::MAX
                } else {
                    w as u64
                }
            },
            None => {
                proof {
                    lemma_digits_val_nonneg(s@);
                    assert(digits_val(s@) * 100 >= digits_val(s@));
                }
                u64::MAX
            },
        }
    } else {
        proof {
            lemma_first_index_of_at(s@, '.', dot as int);
        }
        let ghost ip = s@.subrange(0, dot as int);
        let ghost fp = s@.subrange(dot + 1, len as int);
        let ip_ok = digits_in_range(s, 0, dot);
        let fp_ok = digits_in_range(s, dot + 1, len);
        if !ip_ok || !fp_ok {
            return 0;
        }
        if len <= 1 {
            return 0;
        }
        let mut frac: u64 = 0;
        if dot + 1 < len {
            proof {
                assert(fp[0] == s@[dot + 1]);
                assert(is_digit(fp[0]));
            }
            frac = digit_of(s.get_char(dot + 1)) * 10;
            if dot + 2 < len {
                proof {
                    assert(fp[1] == s@[dot + 2]);
                    assert(is_digit(fp[1]));
                }
                frac = frac + digit_of(s.get_char(dot + 2));
            }
        }
        proof {
            assert(frac == frac_centi(fp));
        }
        match digits_value_in(s, 0, dot) {
            Some(v) => {
                proof {
                    lemma_digits_val_nonneg(ip);
                }
                let w: u128 = (v as u128) * 100 + (frac as u128);
                if w > u64::MAX as u128 {
                    u64::MAX
                } else {
                    w as u64
                }
            },
            None => {
                proof {
                    lemma_digits_val_nonneg(ip);
                    assert(digits_val(ip) * 100 >= digits_val(ip));
                }
                u64::MAX
            },
        }
    }
}

/// The character for one digit value.
pub open spec fn digit_char(d: int) -> char {
    if d == 0 {
        '0'
    } else if d == 1 {
        '1'
    } else if d == 2 {
        '2'
    } else if d == 3 {
        '3'
    } else if d == 4 {
        '4'
    } else if d == 5 {
        '5'
    } else if d == 6 {
        '6'
    } else if d == 7 {
        '7'
    } else if d == 8 {
        '8'
    } else {
        '9'
    }
}

/// Base-ten rendering of `n`, without leading zeroes.
pub open spec fn dec_str(n: nat) -> Seq<char>
    decreases n,
{
    if n < 10 {
        seq![digit_char(n as int)]
    } else {
        dec_str(n / 10).push(digit_char((n % 10) as int))
    }
}

fn digit_str(d: u64) -> (r: &'static str)
    requires
        d < 10,
    ensures
        r@ == seq![digit_char(d as int)],
{
    proof {
        reveal_strlit("0");
        reveal_strlit("1");
        reveal_strlit("2");
        reveal_strlit("3");
        reveal_strlit("4");
        reveal_strlit("5");
        reveal_strlit("6");
        reveal_strlit("7");
        reveal_strlit("8");
        reveal_strlit("9");
    }
    let r = if d == 0 {
        "0"
    } else if d == 1 {
        "1"
    } else if d == 2 {
        "2"
    } else if d == 3 {
        "3"
    } else if d == 4 {
        "4"
    } else if d == 5 {
        "5"
    } else if d == 6 {
        "6"
    } else if d == 7 {
        "7"
    } else if d == 8 {
        "8"
    } else {
        "9"
    };
    proof {
        assert(r@ =~= seq![digit_char(d as int)]);
    }
    r
}

/// Renders `n` in base ten.
pub fn u64_to_dec_string(n: u64) -> (r: String)
    ensures
        r@ == dec_str(n as nat),
    decreases n,
{
    if n < 10 {
        digit_str(n).to_owned()
    } else {
        let mut r = u64_to_dec_string(n / 10);
        r.append(digit_str(n % 10));
        proof {
            assert(r@ =~= dec_str((n / 10) as nat).push(digit_char((n % 10) as int)));
        }
        r
    }
}

/// Base-ten rendering padded with a leading zero to at least two characters.
pub open spec fn pad2_str(n: nat) -> Seq<char> {
    if n < 10 {
        seq!['0', digit_char(n as int)]
    } else {
        dec_str(n)
    }
}

/// Renders `n` padded to at least two characters.
pub fn pad2_string(n: u64) -> (r: String)
    ensures
        r@ == pad2_str(n as nat),
{
    if n < 10 {
        proof {
            reveal_strlit("0");
        }
        let mut r = String::from_str("0");
        r.append(digit_str(n));
        proof {
            assert(r@ =~= pad2_str(n as nat));
        }
        r
    } else {
        u64_to_dec_string(n)
    }
}

/// An uptime rendered for the summary line: `3d 04h 05m` once days are on the
/// clock, `04h 05m` within the first day, `05m 06s` within the first hour and
/// `06s` within the first minute.
pub open spec fn spec_format_duration(total_seconds: nat) -> Seq<char> {
    let days = total_seconds / 86400;
    let hours = (total_seconds % 86400) / 3600;
    let minutes = (total_seconds % 3600) / 60;
    let seconds = total_seconds % 60;
    if days > 0 {
        dec_str(days) + seq!['d', ' '] + pad2_str(hours) + seq!['h', ' '] + pad2_str(minutes)
            + seq!['m']
    } else if hours > 0 {
        pad2_str(hours) + seq!['h', ' '] + pad2_str(minutes) + seq!['m']
    } else if minutes > 0 {
        pad2_str(minutes) + seq!['m', ' '] + pad2_str(seconds) + seq!['s']
    } else {
        pad2_str(seconds) + seq!['s']
    }
}

/// Renders a duration of whole seconds as the dashboard's uptime text; always
/// succeeds.
pub fn format_duration(total_seconds: u64) -> (r: Option<String>)
    ensures
        r matches Some(out) && out@ == spec_format_duration(total_seconds as nat),
{
    proof {
        reveal_strlit("d ");
        reveal_strlit("h ");
        reveal_strlit("m");
        reveal_strlit("m ");
        reveal_strlit("s");
    }
    let days = total_seconds / 86_400;
    let hours = (total_seconds % 86_400) / 3600;
    let minutes = (total_seconds % 3600) / 60;
    let seconds = total_seconds % 60;
    let mut out: String;
    if days > 0 {
        out = u64_to_dec_string(days);
        out.append("d ");
        let h = pad2_string(hours);
        out.append(h.as_str());
        out.append("h ");
        let m = pad2_string(minutes);
        out.append(m.as_str());
        out.append("m");
    } else if hours > 0 {
        out = pad2_string(hours);
        out.append("h ");
        let m = pad2_string(minutes);
        out.append(m.as_str());
        out.append("m");
    } else if minutes > 0 {
        out = pad2_string(minutes);
        out.append("m ");
        let sec = pad2_string(seconds);
        out.append(sec.as_str());
        out.append("s");
    } else {
        out = pad2_string(seconds);
        out.append("s");
    }
    proof {
        assert(out@ =~= spec_format_duration(total_seconds as nat));
    }
    Some(out)
}

} // verus!
