//! Small verified string routines used by the parsers and the state store.

use vstd::prelude::*;

verus! {

/// Character-for-character equality of two string slices.
pub fn str_eq(a: &str, b: &str) -> (r: bool)
    ensures
        r == (a@ == b@),
{
    let alen = a.unicode_len();
    let blen = b.unicode_len();
    if alen != blen {
        assert(a@ != b@) by {
            assert(a@.len() != b@.len());
        }
        return false;
    }
    let mut i: usize = 0;
    while i < alen
        invariant
            alen == a@.len(),
            alen == b@.len(),
            i <= alen,
            forall|j: int| 0 <= j < i ==> a@[j] == b@[j],
        decreases alen - i,
    {
        if a.get_char(i) != b.get_char(i) {
            assert(a@ != b@);
            return false;
        }
        i += 1;
    }
    assert(a@ =~= b@);
    true
}

/// A decimal digit.
pub open spec fn spec_is_digit(c: char) -> bool {
    '0' <= c && c <= '9'
}

pub open spec fn spec_all_digits(s: Seq<char>) -> bool {
    forall|i: int| 0 <= i < s.len() ==> spec_is_digit(#[trigger] s[i])
}

/// The number denoted by a digit sequence, most significant digit first.
pub open spec fn spec_digits_value(s: Seq<char>) -> int
    decreases s.len(),
{
    if s.len() == 0 {
        0
    } else {
        spec_digits_value(s.drop_last()) * 10 + (s.last() as int - '0' as int)
    }
}

/// The value a decimal string denotes: defined for non-empty all-digit
/// strings whose value fits in a `u64`.
pub open spec fn spec_parse_u64(s: Seq<char>) -> Option<u64> {
    if s.len() > 0 && spec_all_digits(s) && spec_digits_value(s) <= u64::MAX {
        Some(spec_digits_value(s) as u64)
    } else {
        None
    }
}

proof fn lemma_digits_value_nonneg(s: Seq<char>)
    requires
        spec_all_digits(s),
    ensures
        spec_digits_value(s) >= 0,
    decreases s.len(),
{
    if s.len() > 0 {
        assert(spec_all_digits(s.drop_last())) by {
            assert(forall|i: int|
                0 <= i < s.len() - 1 ==> spec_is_digit(#[trigger] s.drop_last()[i]));
        }
        lemma_digits_value_nonneg(s.drop_last());
    }
}

/// Appending digits never decreases the denoted value.
proof fn lemma_digits_value_prefix(s: Seq<char>, j: int)
    requires
        spec_all_digits(s),
        0 <= j <= s.len(),
    ensures
        spec_digits_value(s.take(j)) <= spec_digits_value(s),
    decreases s.len() - j,
{
    if j < s.len() {
        let t = s.take(j + 1);
        assert(t.drop_last() =~= s.take(j));
        assert(spec_all_digits(t)) by {
            assert(forall|i: int| 0 <= i < t.len() ==> spec_is_digit(#[trigger] t[i]));
        }
        assert(spec_all_digits(s.take(j))) by {
            assert(forall|i: int|
                0 <= i < j ==> spec_is_digit(#[trigger] s.take(j)[i]));
        }
        lemma_digits_value_nonneg(s.take(j));
        assert(spec_digits_value(t) == spec_digits_value(s.take(j)) * 10 + (t.last() as int
            - '0' as int));
        assert(spec_digits_value(s.take(j)) <= spec_digits_value(t));
        lemma_digits_value_prefix(s, j + 1);
    } else {
        assert(s.take(j) =~= s);
    }
}

/// Parses a non-empty, all-digit decimal string into a `u64`; anything else,
/// including a value too large for `u64`, yields `None`.
pub fn parse_u64(s: &str) -> (r: Option<u64>)
    ensures
        r == spec_parse_u64(s@),
{
    let n = s.unicode_len();
    if n == 0 {
        return None;
    }
    let mut value: u64 = 0;
    let mut i: usize = 0;
    while i < n
        invariant
            n == s@.len(),
            0 < n,
            i <= n,
            spec_all_digits(s@.take(i as int)),
            value == spec_digits_value(s@.take(i as int)),
        decreases n - i,
    {
        let c = s.get_char(i);
        if !('0' <= c && c <= '9') {
            assert(!spec_is_digit(s@[i as int]));
            return None;
        }
        let d: u64 = (c as u32 - '0' as u32) as u64;
        let ghost prefix = s@.take(i as int);
        let ghost next = s@.take(i + 1 as int);
        assert(next.drop_last() =~= prefix);
        assert(next.last() == s@[i as int]);
        if value > (u64::MAX - d) / 10 {
            // The prefix already denotes more than fits; the whole string can
            // only denote more.
            proof {
                assert(spec_all_digits(next));
                assert(spec_digits_value(next) == value * 10 + d);
                assert(spec_digits_value(next) > u64::MAX);
                if spec_all_digits(s@) {
                    lemma_digits_value_prefix(s@, i + 1);
                    assert(spec_digits_value(s@) > u64::MAX);
                }
            }
            return None;
        }
        value = value * 10 + d;
        i += 1;
    }
    assert(s@.take(n as int) =~= s@);
    Some(value)
}

/// First index at or after `from` holding `c`, if any.
pub open spec fn spec_find_from(s: Seq<char>, c: char, from: int) -> Option<int>
    decreases s.len() - from
        when 0 <= from <= s.len()
{
    if from >= s.len() {
        None
    } else if s[from] == c {
        Some(from)
    } else {
        spec_find_from(s, c, from + 1)
    }
}

/// The piece between the first occurrence of `sep` and the next occurrence
/// (or the end); empty when `sep` does not occur at all. This is the second
/// piece of the string split on `sep`.
pub open spec fn spec_second_piece(s: Seq<char>, sep: char) -> Seq<char> {
    match spec_find_from(s, sep, 0) {
        None => Seq::<char>::empty(),
        Some(first) => {
            let end = match spec_find_from(s, sep, first + 1) {
                None => s.len() as int,
                Some(second) => second,
            };
            s.subrange(first + 1, end)
        },
    }
}

/// First position at or after `from` holding `c`, if any.
pub fn find_from(s: &str, c: char, from: usize) -> (r: Option<usize>)
    requires
        from <= s@.len(),
    ensures
        match r {
            Some(i) => from <= i < s@.len() && spec_find_from(s@, c, from as int) == Some(i as int),
            None => spec_find_from(s@, c, from as int).is_none(),
        },
{
    let n = s.unicode_len();
    let mut i: usize = from;
    while i < n
        invariant
            n == s@.len(),
            from <= i <= n,
            spec_find_from(s@, c, from as int) == spec_find_from(s@, c, i as int),
        decreases n - i,
    {
        if s.get_char(i) == c {
            return Some(i);
        }
        i += 1;
    }
    None
}

/// ASCII whitespace as far as table rows are concerned: blanks, tabs and a
/// carriage return left by a Windows line ending.
pub open spec fn spec_is_space(c: char) -> bool {
    c == ' ' || c == '\t' || c == '\r'
}

/// First index at or after `i` holding a non-space, or the length.
pub open spec fn spec_skip_spaces(s: Seq<char>, i: int) -> int
    decreases s.len() - i
        when 0 <= i <= s.len()
{
    if i < s.len() && spec_is_space(s[i]) {
        spec_skip_spaces(s, i + 1)
    } else {
        i
    }
}

/// Last position at or before `j` such that everything from it up to `j` is
/// spaces.
pub open spec fn spec_rskip_spaces(s: Seq<char>, j: int) -> int
    decreases j
        when 0 <= j <= s.len()
{
    if j > 0 && spec_is_space(s[j - 1]) {
        spec_rskip_spaces(s, j - 1)
    } else {
        j
    }
}

/// The string with leading and trailing whitespace removed.
pub open spec fn spec_trim(s: Seq<char>) -> Seq<char> {
    let lo = spec_skip_spaces(s, 0);
    if lo == s.len() {
        Seq::<char>::empty()
    } else {
        s.subrange(lo, spec_rskip_spaces(s, s.len() as int))
    }
}

proof fn lemma_rskip_spaces_above(s: Seq<char>, j: int, k: int)
    requires
        0 <= k < j <= s.len(),
        !spec_is_space(s[k]),
    ensures
        k < spec_rskip_spaces(s, j) <= j,
    decreases j,
{
    if j > 0 && spec_is_space(s[j - 1]) {
        lemma_rskip_spaces_above(s, j - 1, k);
    }
}

/// Whether `c` counts as whitespace for trimming.
fn is_space_char(c: char) -> (r: bool)
    ensures
        r == spec_is_space(c),
{
    c == ' ' || c == '\t' || c == '\r'
}

/// Removes leading and trailing whitespace.
pub fn trim<'a>(s: &'a str) -> (r: &'a str)
    ensures
        r@ == spec_trim(s@),
{
    let n = s.unicode_len();
    let mut lo: usize = 0;
    while lo < n && is_space_char(s.get_char(lo))
        invariant
            n == s@.len(),
            0 <= lo <= n,
            spec_skip_spaces(s@, 0) == spec_skip_spaces(s@, lo as int),
        decreases n - lo,
    {
        lo += 1;
    }
    assert(spec_skip_spaces(s@, lo as int) == lo);
    if lo == n {
        proof {
            reveal_strlit("");
            assert(""@ =~= Seq::<char>::empty());
        }
        return "";
    }
    let mut hi: usize = n;
    while hi > 0 && is_space_char(s.get_char(hi - 1))
        invariant
            n == s@.len(),
            0 <= hi <= n,
            spec_rskip_spaces(s@, n as int) == spec_rskip_spaces(s@, hi as int),
        decreases hi,
    {
        hi -= 1;
    }
    assert(spec_rskip_spaces(s@, hi as int) == hi);
    proof {
        lemma_rskip_spaces_above(s@, n as int, lo as int);
    }
    s.substring_char(lo, hi)
}

/// First index at or after `i` not holding `c`, or the length.
pub open spec fn spec_skip_char(s: Seq<char>, c: char, i: int) -> int
    decreases s.len() - i
        when 0 <= i <= s.len()
{
    if i < s.len() && s[i] == c {
        spec_skip_char(s, c, i + 1)
    } else {
        i
    }
}

/// Last position at or before `j` such that everything from it up to `j` is
/// `c`.
pub open spec fn spec_rskip_char(s: Seq<char>, c: char, j: int) -> int
    decreases j
        when 0 <= j <= s.len()
{
    if j > 0 && s[j - 1] == c {
        spec_rskip_char(s, c, j - 1)
    } else {
        j
    }
}

/// The string with every leading and trailing occurrence of `c` removed.
pub open spec fn spec_trim_matches(s: Seq<char>, c: char) -> Seq<char> {
    let lo = spec_skip_char(s, c, 0);
    if lo == s.len() {
        Seq::<char>::empty()
    } else {
        s.subrange(lo, spec_rskip_char(s, c, s.len() as int))
    }
}

proof fn lemma_rskip_char_above(s: Seq<char>, c: char, j: int, k: int)
    requires
        0 <= k < j <= s.len(),
        s[k] != c,
    ensures
        k < spec_rskip_char(s, c, j) <= j,
    decreases j,
{
    if j > 0 && s[j - 1] == c {
        lemma_rskip_char_above(s, c, j - 1, k);
    }
}

/// Removes every leading and trailing occurrence of `c`.
pub fn trim_matches<'a>(s: &'a str, c: char) -> (r: &'a str)
    ensures
        r@ == spec_trim_matches(s@, c),
{
    let n = s.unicode_len();
    let mut lo: usize = 0;
    while lo < n && s.get_char(lo) == c
        invariant
            n == s@.len(),
            0 <= lo <= n,
            spec_skip_char(s@, c, 0) == spec_skip_char(s@, c, lo as int),
        decreases n - lo,
    {
        lo += 1;
    }
    assert(spec_skip_char(s@, c, lo as int) == lo);
    if lo == n {
        proof {
            reveal_strlit("");
            assert(""@ =~= Seq::<char>::empty());
        }
        return "";
    }
    let mut hi: usize = n;
    while hi > 0 && s.get_char(hi - 1) == c
        invariant
            n == s@.len(),
            0 <= hi <= n,
            spec_rskip_char(s@, c, n as int) == spec_rskip_char(s@, c, hi as int),
        decreases hi,
    {
        hi -= 1;
    }
    assert(spec_rskip_char(s@, c, hi as int) == hi);
    proof {
        lemma_rskip_char_above(s@, c, n as int, lo as int);
    }
    s.substring_char(lo, hi)
}

/// `p` is a prefix of `s`.
pub open spec fn spec_starts_with(s: Seq<char>, p: Seq<char>) -> bool {
    p.len() <= s.len() && s.subrange(0, p.len() as int) == p
}

/// Whether `s` starts with the prefix `p`.
pub fn starts_with(s: &str, p: &str) -> (r: bool)
    ensures
        r == spec_starts_with(s@, p@),
{
    let n = s.unicode_len();
    let m = p.unicode_len();
    if m > n {
        assert(!spec_starts_with(s@, p@));
        return false;
    }
    let mut i: usize = 0;
    while i < m
        invariant
            n == s@.len(),
            m == p@.len(),
            m <= n,
            i <= m,
            forall|j: int| 0 <= j < i ==> s@[j] == p@[j],
        decreases m - i,
    {
        if s.get_char(i) != p.get_char(i) {
            assert(s@.subrange(0, m as int)[i as int] != p@[i as int]);
            return false;
        }
        i += 1;
    }
    assert(s@.subrange(0, m as int) =~= p@);
    true
}

/// `p` is a suffix of `s`.
pub open spec fn spec_ends_with(s: Seq<char>, p: Seq<char>) -> bool {
    p.len() <= s.len() && s.subrange(s.len() - p.len(), s.len() as int) == p
}

/// Whether `s` ends with the suffix `p`.
pub fn ends_with(s: &str, p: &str) -> (r: bool)
    ensures
        r == spec_ends_with(s@, p@),
{
    let n = s.unicode_len();
    let m = p.unicode_len();
    if m > n {
        assert(!spec_ends_with(s@, p@));
        return false;
    }
    let base = n - m;
    let mut i: usize = 0;
    while i < m
        invariant
            n == s@.len(),
            m == p@.len(),
            m <= n,
            base == n - m,
            i <= m,
            forall|j: int| 0 <= j < i ==> s@[base + j] == p@[j],
        decreases m - i,
    {
        if s.get_char(base + i) != p.get_char(i) {
            assert(s@.subrange(base as int, n as int)[i as int] != p@[i as int]);
            return false;
        }
        i += 1;
    }
    assert(s@.subrange(base as int, n as int) =~= p@);
    true
}

/// The pieces of `s` split on `sep`: always at least one piece, with an
/// empty piece between adjacent separators and at each boundary occurrence.
pub open spec fn spec_split(s: Seq<char>, sep: char) -> Seq<Seq<char>>
    decreases s.len(),
{
    match spec_find_from(s, sep, 0) {
        Some(i) => if 0 <= i < s.len() {
            seq![s.subrange(0, i)] + spec_split(s.subrange(i + 1, s.len() as int), sep)
        } else {
            seq![s]
        },
        None => seq![s],
    }
}

/// The views of a sequence of owned strings.
pub open spec fn spec_views(v: Seq<String>) -> Seq<Seq<char>> {
    v.map_values(|x: String| x@)
}

/// Searching within a suffix finds the same occurrence, shifted.
proof fn lemma_find_from_shift(s: Seq<char>, c: char, start: int, j: int)
    requires
        0 <= start <= s.len(),
        0 <= j <= s.len() - start,
    ensures
        spec_find_from(s.subrange(start, s.len() as int), c, j) == match spec_find_from(
            s,
            c,
            start + j,
        ) {
            Some(i) => Some(i - start),
            None => None::<int>,
        },
    decreases s.len() - start - j,
{
    let t = s.subrange(start, s.len() as int);
    if start + j < s.len() {
        assert(t[j] == s[start + j]);
        if s[start + j] != c {
            lemma_find_from_shift(s, c, start, j + 1);
        }
    }
}

/// Splits `s` on every occurrence of `sep`.
pub fn split_char(s: &str, sep: char) -> (r: Vec<String>)
    ensures
        spec_views(r@) == spec_split(s@, sep),
{
    let n = s.unicode_len();
    let mut out: Vec<String> = Vec::new();
    let mut start: usize = 0;
    proof {
        assert(s@.subrange(0, n as int) =~= s@);
        assert(spec_views(out@) =~= Seq::<Seq<char>>::empty());
        assert(spec_split(s@, sep) =~~= spec_views(out@) + spec_split(
            s@.subrange(start as int, n as int),
            sep,
        ));
    }
    loop
        invariant
            n == s@.len(),
            0 <= start <= n,
            spec_split(s@, sep) =~~= spec_views(out@) + spec_split(
                s@.subrange(start as int, n as int),
                sep,
            ),
        decreases n - start,
    {
        let ghost t = s@.subrange(start as int, n as int);
        let ghost prev = out@;
        match find_from(s, sep, start) {
            Some(i) => {
                proof {
                    lemma_find_from_shift(s@, sep, start as int, 0);
                    assert(spec_find_from(t, sep, 0) == Some(i - start));
                    assert(t.subrange(0, i - start) =~= s@.subrange(start as int, i as int));
                    assert(t.subrange(i - start + 1, t.len() as int) =~= s@.subrange(
                        i + 1 as int,
                        n as int,
                    ));
                }
                let piece = s.substring_char(start, i).to_owned();
                out.push(piece);
                proof {
                    assert(spec_views(out@) =~~= spec_views(prev) + seq![
                        s@.subrange(start as int, i as int)]);
                    assert(spec_split(s@, sep) =~~= spec_views(out@) + spec_split(
                        s@.subrange(i + 1 as int, n as int),
                        sep,
                    ));
                }
                start = i + 1;
            },
            None => {
                proof {
                    lemma_find_from_shift(s@, sep, start as int, 0);
                    assert(spec_find_from(t, sep, 0) is None);
                    assert(spec_split(t, sep) =~~= seq![t]);
                }
                let piece = s.substring_char(start, n).to_owned();
                out.push(piece);
                proof {
                    assert(spec_views(out@) =~~= spec_views(prev) + seq![t]);
                    assert(spec_views(out@) =~~= spec_split(s@, sep));
                }
                return out;
            },
        }
    }
}

/// `s` with every occurrence of `from` replaced by `-`.
pub open spec fn spec_dashed(s: Seq<char>, from: char) -> Seq<char> {
    s.map_values(|c: char| if c == from { '-' } else { c })
}

/// Replaces every occurrence of `from` with a dash.
pub fn replace_with_dash(s: &str, from: char) -> (r: String)
    ensures
        r@ == spec_dashed(s@, from),
{
    let n = s.unicode_len();
    let mut out = String::new();
    let mut i: usize = 0;
    proof {
        reveal_strlit("-");
    }
    while i < n
        invariant
            n == s@.len(),
            0 <= i <= n,
            "-"@ =~= seq!['-'],
            out@ =~= spec_dashed(s@.subrange(0, i as int), from),
        decreases n - i,
    {
        let c = s.get_char(i);
        if c == from {
            out.append("-");
        } else {
            let piece = s.substring_char(i, i + 1);
            assert(piece@ =~= seq![s@[i as int]]);
            out.append(piece);
        }
        proof {
            assert(s@.subrange(0, i + 1 as int) =~= s@.subrange(0, i as int).push(s@[i as int]));
            assert(out@ =~= spec_dashed(s@.subrange(0, i + 1 as int), from));
        }
        i += 1;
    }
    assert(s@.subrange(0, n as int) =~= s@);
    out
}

/// `s` with every non-overlapping run of two dashes collapsed, left to
/// right, into one.
pub open spec fn spec_collapse_double_dash(s: Seq<char>) -> Seq<char>
    decreases s.len(),
{
    if s.len() >= 2 && s[0] == '-' && s[1] == '-' {
        seq!['-'] + spec_collapse_double_dash(s.skip(2))
    } else if s.len() >= 1 {
        seq![s[0]] + spec_collapse_double_dash(s.skip(1))
    } else {
        Seq::<char>::empty()
    }
}

/// Collapses each pair of adjacent dashes into a single dash, scanning left
/// to right.
pub fn collapse_double_dash(s: &str) -> (r: String)
    ensures
        r@ == spec_collapse_double_dash(s@),
{
    let n = s.unicode_len();
    let mut out = String::new();
    let mut i: usize = 0;
    proof {
        reveal_strlit("-");
        assert(s@.skip(0) =~= s@);
    }
    while i < n
        invariant
            n == s@.len(),
            0 <= i <= n,
            "-"@ =~= seq!['-'],
            spec_collapse_double_dash(s@) =~= out@ + spec_collapse_double_dash(
                s@.skip(i as int),
            ),
        decreases n - i,
    {
        let ghost t = s@.skip(i as int);
        if i + 1 < n && s.get_char(i) == '-' && s.get_char(i + 1) == '-' {
            proof {
                assert(t[0] == s@[i as int] && t[1] == s@[i + 1 as int]);
                assert(t.skip(2) =~= s@.skip(i + 2 as int));
            }
            out.append("-");
            i += 2;
        } else {
            proof {
                assert(t[0] == s@[i as int]);
                assert(t.skip(1) =~= s@.skip(i + 1 as int));
                if t.len() >= 2 {
                    assert(t[1] == s@[i + 1 as int]);
                }
            }
            let piece = s.substring_char(i, i + 1);
            assert(piece@ =~= seq![s@[i as int]]);
            out.append(piece);
            i += 1;
        }
    }
    assert(s@.skip(n as int) =~= Seq::<char>::empty());
    out
}

/// The piece between the first occurrence of `sep` and the next occurrence
/// or the end; empty when `sep` does not occur.
pub fn second_piece(s: &str, sep: char) -> (r: String)
    ensures
        r@ == spec_second_piece(s@, sep),
{
    match find_from(s, sep, 0) {
        None => String::new(),
        Some(first) => {
            let n = s.unicode_len();
            let end = match find_from(s, sep, first + 1) {
                None => n,
                Some(second) => second,
            };
            s.substring_char(first + 1, end).to_owned()
        },
    }
}

} // verus!
