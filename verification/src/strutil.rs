//! Verified string helpers: padding, path basenames, substring search,
//! trimming and decimal parsing.

use vstd::prelude::*;
use crate::formatter::{char_repeat, push_spaces};

verus! {

/// `s` padded on the left with spaces up to width `w`; a longer string is
/// kept as it is.
pub open spec fn pad_left_spec(s: Seq<char>, w: int) -> Seq<char> {
    if s.len() >= w {
        s
    } else {
        char_repeat(' ', w - s.len()) + s
    }
}

/// `s` padded on the right with spaces up to width `w`; a longer string is
/// kept as it is.
pub open spec fn pad_right_spec(s: Seq<char>, w: int) -> Seq<char> {
    if s.len() >= w {
        s
    } else {
        s + char_repeat(' ', w - s.len())
    }
}

/// Append `s` padded on the left with spaces to width `w`.
pub fn push_pad_left(out: &mut String, s: &str, w: usize)
    ensures
        final(out)@ == old(out)@ + pad_left_spec(s@, w as int),
{
    let n = s.unicode_len();
    if n < w {
        push_spaces(out, w - n);
    }
    out.append(s);
    proof {
        assert(final(out)@ =~= old(out)@ + pad_left_spec(s@, w as int));
    }
}

/// Append `s` padded on the right with spaces to width `w`.
pub fn push_pad_right(out: &mut String, s: &str, w: usize)
    ensures
        final(out)@ == old(out)@ + pad_right_spec(s@, w as int),
{
    let n = s.unicode_len();
    out.append(s);
    if n < w {
        push_spaces(out, w - n);
    }
    proof {
        assert(final(out)@ =~= old(out)@ + pad_right_spec(s@, w as int));
    }
}

/// The largest index at which `c` occurs in `s`, or -1 when it does not.
pub open spec fn last_index_of(s: Seq<char>, c: char) -> int
    decreases s.len(),
{
    if s.len() == 0 {
        -1
    } else if s[s.len() - 1] == c {
        s.len() - 1
    } else {
        last_index_of(s.drop_last(), c)
    }
}

/// `last_index_of` points at an occurrence of `c` and nothing after it is
/// an occurrence; -1 means `c` does not occur at all.
pub proof fn lemma_last_index_of(s: Seq<char>, c: char)
    ensures
        -1 <= last_index_of(s, c) < s.len(),
        last_index_of(s, c) >= 0 ==> s[last_index_of(s, c)] == c,
        forall|i: int| last_index_of(s, c) < i < s.len() ==> s[i] != c,
    decreases s.len(),
{
    if s.len() > 0 && s[s.len() - 1] != c {
        lemma_last_index_of(s.drop_last(), c);
        if last_index_of(s, c) >= 0 {
            assert(s[last_index_of(s, c)] == s.drop_last()[last_index_of(s, c)]);
        }
        assert forall|i: int| last_index_of(s, c) < i < s.len() implies s[i] != c by {
            if i < s.len() - 1 {
                assert(s[i] == s.drop_last()[i]);
            }
        }
    }
}

/// The part of `s` after its last occurrence of `c`; all of `s` when `c`
/// does not occur.
pub open spec fn suffix_after_last(s: Seq<char>, c: char) -> Seq<char> {
    s.subrange(last_index_of(s, c) + 1, s.len() as int)
}

/// The part of `path` after its last slash: the plain file name of a
/// path-like string, or the whole string when it holds no slash.
pub fn basename(path: &str) -> (r: String)
    ensures
        r@ == suffix_after_last(path@, '/'),
{
    proof {
        lemma_last_index_of(path@, '/');
    }
    let n = path.unicode_len();
    let mut j: usize = n;
    while j > 0
        invariant
            j <= n,
            n == path@.len(),
            forall|i: int| j <= i < n ==> path@[i] != '/',
        ensures
            0 <= j <= n,
            forall|i: int| j <= i < n ==> path@[i] != '/',
            j > 0 ==> path@[j - 1] == '/',
        decreases j,
    {
        if path.get_char(j - 1) == '/' {
            break ;
        }
        j = j - 1;
    }
    proof {
        lemma_last_index_of(path@, '/');
        if j > 0 {
            assert(last_index_of(path@, '/') == j - 1);
        }
    }
    let r = path.substring_char(j, n).to_owned();
    r
}

/// The smallest index at which `c` occurs in `s`, or -1 when it does not.
pub open spec fn first_index_of(s: Seq<char>, c: char) -> int
    decreases s.len(),
{
    if s.len() == 0 {
        -1
    } else if s[0] == c {
        0
    } else if first_index_of(s.skip(1), c) == -1 {
        -1
    } else {
        1 + first_index_of(s.skip(1), c)
    }
}

/// `first_index_of` points at an occurrence of `c` and nothing before it is
/// an occurrence; -1 means `c` does not occur at all.
pub proof fn lemma_first_index_of(s: Seq<char>, c: char)
    ensures
        -1 <= first_index_of(s, c) < s.len(),
        first_index_of(s, c) >= 0 ==> s[first_index_of(s, c)] == c,
        forall|i: int| 0 <= i < first_index_of(s, c) ==> s[i] != c,
        first_index_of(s, c) == -1 ==> forall|i: int| 0 <= i < s.len() ==> s[i] != c,
    decreases s.len(),
{
    if s.len() > 0 && s[0] != c {
        lemma_first_index_of(s.skip(1), c);
        let r = first_index_of(s, c);
        if r >= 0 {
            assert(s[r] == s.skip(1)[r - 1]);
        }
        assert forall|i: int| 0 <= i < r implies s[i] != c by {
            if i >= 1 {
                assert(s[i] == s.skip(1)[i - 1]);
            }
        }
        if r == -1 {
            assert forall|i: int| 0 <= i < s.len() implies s[i] != c by {
                if i >= 1 {
                    assert(s[i] == s.skip(1)[i - 1]);
                }
            }
        }
    }
}

/// The smallest index at which `c` occurs in `s`, as an index, or nothing
/// when it does not occur.
pub fn find_char(s: &str, c: char) -> (r: Option<usize>)
    ensures
        first_index_of(s@, c) >= 0 ==> r == Some(first_index_of(s@, c) as usize),
        first_index_of(s@, c) == -1 ==> r is None,
{
    proof {
        lemma_first_index_of(s@, c);
    }
    let n = s.unicode_len();
    let mut j: usize = 0;
    while j < n
        invariant
            j <= n,
            n == s@.len(),
            forall|i: int| 0 <= i < j ==> s@[i] != c,
        ensures
            0 <= j <= n,
            forall|i: int| 0 <= i < j ==> s@[i] != c,
            j < n ==> s@[j as int] == c,
        decreases n - j,
    {
        if s.get_char(j) == c {
            break ;
        }
        j = j + 1;
    }
    proof {
        lemma_first_index_of(s@, c);
    }
    if j < n {
        proof {
            assert(first_index_of(s@, c) == j);
        }
        Some(j)
    } else {
        None
    }
}

/// Whether characters are equal on two string slices.
pub fn str_eq(a: &str, b: &str) -> (r: bool)
    ensures
        r == (a@ == b@),
{
    let x = a.to_owned();
    let y = b.to_owned();
    x.eq(&y)
}

/// Whether `pat` occurs in `s` starting at index `i`.
pub open spec fn contains_at(s: Seq<char>, pat: Seq<char>, i: int) -> bool {
    0 <= i && i + pat.len() <= s.len() && s.subrange(i, i + pat.len()) == pat
}

/// Whether `pat` occurs anywhere in `s`.
pub open spec fn contains_substr_spec(s: Seq<char>, pat: Seq<char>) -> bool {
    exists|i: int| contains_at(s, pat, i)
}

/// Whether `pat` matches the characters of `s` at position `i`.
fn matches_at(s: &str, pat: &str, i: usize) -> (r: bool)
    requires
        i + pat@.len() <= s@.len(),
        s@.len() <= usize::MAX,
    ensures
        r == contains_at(s@, pat@, i as int),
{
    let m = pat.unicode_len();
    let mut j: usize = 0;
    while j < m
        invariant
            j <= m,
            m == pat@.len(),
            i + m <= s@.len(),
            s@.len() <= usize::MAX,
            forall|t: int| 0 <= t < j ==> s@[i + t] == pat@[t],
        ensures
            0 <= j <= m,
            forall|t: int| 0 <= t < j ==> s@[i + t] == pat@[t],
            j < m ==> s@[i + j] != pat@[j as int],
        decreases m - j,
    {
        if s.get_char(i + j) != pat.get_char(j) {
            break ;
        }
        j = j + 1;
    }
    if j == m {
        proof {
            assert(s@.subrange(i as int, i + pat@.len()) =~= pat@);
        }
        true
    } else {
        proof {
            if contains_at(s@, pat@, i as int) {
                assert(s@.subrange(i as int, i + pat@.len())[j as int] == pat@[j as int]);
            }
        }
        false
    }
}

/// Whether the string `pat` occurs as a contiguous substring of `s`.
pub fn contains_substr(s: &str, pat: &str) -> (r: bool)
    ensures
        r == contains_substr_spec(s@, pat@),
{
    let n = s.unicode_len();
    let m = pat.unicode_len();
    if m > n {
        return false;
    }
    if m == 0 {
        proof {
            assert(s@.subrange(0, 0) =~= pat@);
            assert(contains_at(s@, pat@, 0));
        }
        return true;
    }
    let mut i: usize = 0;
    while i <= n - m
        invariant
            1 <= m <= n,
            n == s@.len(),
            m == pat@.len(),
            i <= n - m + 1,
            forall|j: int| 0 <= j < i ==> !contains_at(s@, pat@, j),
        decreases n - i,
    {
        if matches_at(s, pat, i) {
            proof {
                assert(contains_at(s@, pat@, i as int));
            }
            return true;
        }
        i = i + 1;
    }
    proof {
        assert forall|j: int| !contains_at(s@, pat@, j) by {
            if 0 <= j < i {
            }
        }
    }
    false
}

/// Whether `s` ends with the characters of `pat`.
pub open spec fn ends_with_spec(s: Seq<char>, pat: Seq<char>) -> bool {
    s.len() >= pat.len() && s.subrange(s.len() - pat.len(), s.len() as int) == pat
}

/// Whether the string `s` ends with the string `pat`.
pub fn ends_with(s: &str, pat: &str) -> (r: bool)
    ensures
        r == ends_with_spec(s@, pat@),
{
    let n = s.unicode_len();
    let m = pat.unicode_len();
    if m > n {
        false
    } else {
        matches_at(s, pat, n - m)
    }
}

/// ASCII whitespace: space, tab, carriage return or line feed.
pub open spec fn is_ws(c: char) -> bool {
    c == ' ' || c == '\t' || c == '\r' || c == '\n'
}

/// `s` without its leading whitespace.
pub open spec fn trim_start_spec(s: Seq<char>) -> Seq<char>
    decreases s.len(),
{
    if s.len() > 0 && is_ws(s[0]) {
        trim_start_spec(s.skip(1))
    } else {
        s
    }
}

/// `s` without its trailing whitespace.
pub open spec fn trim_end_spec(s: Seq<char>) -> Seq<char>
    decreases s.len(),
{
    if s.len() > 0 && is_ws(s[s.len() - 1]) {
        trim_end_spec(s.drop_last())
    } else {
        s
    }
}

/// `s` without leading and trailing whitespace.
pub open spec fn trim_spec(s: Seq<char>) -> Seq<char> {
    trim_end_spec(trim_start_spec(s))
}

/// Whether `c` is ASCII whitespace.
fn is_ws_char(c: char) -> (r: bool)
    ensures
        r == is_ws(c),
{
    c == ' ' || c == '\t' || c == '\r' || c == '\n'
}

/// Strip leading and trailing whitespace from `s`.
pub fn trim_str(s: &str) -> (r: String)
    ensures
        r@ == trim_spec(s@),
{
    let n = s.unicode_len();
    let mut a: usize = 0;
    proof {
        assert(s@.skip(0) =~= s@);
    }
    while a < n && is_ws_char(s.get_char(a))
        invariant
            a <= n,
            n == s@.len(),
            trim_start_spec(s@) == trim_start_spec(s@.skip(a as int)),
        decreases n - a,
    {
        proof {
            assert(s@.skip(a as int)[0] == s@[a as int]);
            assert(s@.skip(a as int).skip(1) =~= s@.skip(a + 1));
        }
        a = a + 1;
    }
    proof {
        assert(trim_start_spec(s@) == s@.skip(a as int));
    }
    let mut b: usize = n;
    proof {
        assert(s@.skip(a as int).take(n - a) =~= s@.skip(a as int));
    }
    while b > a && is_ws_char(s.get_char(b - 1))
        invariant
            a <= b <= n,
            n == s@.len(),
            trim_end_spec(s@.skip(a as int)) == trim_end_spec(
                s@.skip(a as int).take(b - a),
            ),
        decreases b,
    {
        proof {
            let t = s@.skip(a as int).take(b - a);
            assert(t[t.len() - 1] == s@[b - 1]);
            assert(t.drop_last() =~= s@.skip(a as int).take(b - 1 - a));
        }
        b = b - 1;
    }
    proof {
        let t = s@.skip(a as int).take(b - a);
        if t.len() > 0 {
            assert(t[t.len() - 1] == s@[b - 1]);
        }
        assert(trim_end_spec(s@.skip(a as int)) == t);
    }
    let r = s.substring_char(a, b).to_owned();
    proof {
        assert(r@ =~= s@.skip(a as int).take(b - a));
    }
    r
}

/// Decimal digit characters.
pub open spec fn is_digit(c: char) -> bool {
    c == '0' || c == '1' || c == '2' || c == '3' || c == '4' || c == '5' || c == '6' || c == '7'
        || c == '8' || c == '9'
}

/// Numeric value of a decimal digit character; -1 for any other character.
pub open spec fn digit_val(c: char) -> int {
    if c == '0' {
        0
    } else if c == '1' {
        1
    } else if c == '2' {
        2
    } else if c == '3' {
        3
    } else if c == '4' {
        4
    } else if c == '5' {
        5
    } else if c == '6' {
        6
    } else if c == '7' {
        7
    } else if c == '8' {
        8
    } else if c == '9' {
        9
    } else {
        -1
    }
}

/// Value of a string of decimal digits, most significant first.
pub open spec fn digits_val(s: Seq<char>) -> int
    decreases s.len(),
{
    if s.len() == 0 {
        0
    } else {
        digits_val(s.drop_last()) * 10 + digit_val(s[s.len() - 1])
    }
}

/// Whether every character of `s` is a decimal digit.
pub open spec fn all_digits(s: Seq<char>) -> bool {
    forall|i: int| 0 <= i < s.len() ==> is_digit(#[trigger] s[i])
}

/// A digit string's value is non-negative.
proof fn lemma_digits_val_nonneg(s: Seq<char>)
    requires
        all_digits(s),
    ensures
        digits_val(s) >= 0,
    decreases s.len(),
{
    if s.len() > 0 {
        assert(all_digits(s.drop_last())) by {
            assert(forall|i: int|
                0 <= i < s.len() - 1 ==> #[trigger] s.drop_last()[i] == s[i]);
        }
        lemma_digits_val_nonneg(s.drop_last());
    }
}

/// Extending a digit string never lowers its value.
proof fn lemma_digits_val_prefix(s: Seq<char>, j: int)
    requires
        all_digits(s),
        0 <= j <= s.len(),
    ensures
        digits_val(s.take(j)) <= digits_val(s),
    decreases s.len(),
{
    if j == s.len() {
        assert(s.take(j) =~= s);
    } else {
        assert(all_digits(s.drop_last())) by {
            assert(forall|i: int|
                0 <= i < s.len() - 1 ==> #[trigger] s.drop_last()[i] == s[i]);
        }
        lemma_digits_val_prefix(s.drop_last(), j);
        assert(s.drop_last().take(j) =~= s.take(j));
        lemma_digits_val_nonneg(s.drop_last());
    }
}

/// What parsing an unsigned decimal number returns: the digits' value when
/// the string (after one optional leading plus sign) is non-empty, all
/// digits, and in range of a 64-bit count; nothing otherwise.
pub open spec fn parse_u64_spec(s: Seq<char>) -> Option<u64> {
    let t = if s.len() > 0 && s[0] == '+' {
        s.skip(1)
    } else {
        s
    };
    if t.len() > 0 && all_digits(t) && digits_val(t) <= u64::MAX {
        Some(digits_val(t) as u64)
    } else {
        None
    }
}

/// Numeric value of a digit character.
fn digit_value(c: char) -> (d: u64)
    requires
        is_digit(c),
    ensures
        d as int == digit_val(c),
{
    if c == '0' {
        0
    } else if c == '1' {
        1
    } else if c == '2' {
        2
    } else if c == '3' {
        3
    } else if c == '4' {
        4
    } else if c == '5' {
        5
    } else if c == '6' {
        6
    } else if c == '7' {
        7
    } else if c == '8' {
        8
    } else {
        9
    }
}

/// Whether `c` is a decimal digit.
fn is_digit_char(c: char) -> (r: bool)
    ensures
        r == is_digit(c),
{
    c == '0' || c == '1' || c == '2' || c == '3' || c == '4' || c == '5' || c == '6' || c == '7'
        || c == '8' || c == '9'
}

/// Parse an unsigned decimal number, accepting one optional leading plus
/// sign, rejecting empty input, non-digit characters and values that do not
/// fit in 64 bits.
pub fn parse_u64(s: &str) -> (r: Option<u64>)
    ensures
        r == parse_u64_spec(s@),
{
    let n = s.unicode_len();
    let start: usize = if n > 0 && s.get_char(0) == '+' {
        1
    } else {
        0
    };
    let ghost t = if s@.len() > 0 && s@[0] == '+' {
        s@.skip(1)
    } else {
        s@
    };
    proof {
        assert(t =~= s@.subrange(start as int, n as int));
    }
    if start == n {
        return None;
    }
    let mut acc: u64 = 0;
    let mut i: usize = start;
    while i < n
        invariant
            start <= i <= n,
            n == s@.len(),
            start <= 1,
            start == 1 ==> n > 0 && s@[0] == '+',
            start == 0 ==> n == 0 || s@[0] != '+',
            t == s@.subrange(start as int, n as int),
            t == (if s@.len() > 0 && s@[0] == '+' {
                s@.skip(1)
            } else {
                s@
            }),
            all_digits(s@.subrange(start as int, i as int)),
            acc as int == digits_val(s@.subrange(start as int, i as int)),
        decreases n - i,
    {
        let c = s.get_char(i);
        let ghost prefix = s@.subrange(start as int, i as int);
        let ghost prefix1 = s@.subrange(start as int, i + 1);
        proof {
            assert(prefix1.drop_last() =~= prefix);
            assert(prefix1[prefix1.len() - 1] == s@[i as int]);
        }
        if !is_digit_char(c) {
            proof {
                assert(t[i - start] == s@[i as int]);
            }
            return None;
        }
        let d = digit_value(c);
        let wide: u128 = (acc as u128) * 10 + (d as u128);
        if wide > u64::MAX as u128 {
            proof {
                if all_digits(t) {
                    lemma_digits_val_prefix(t, i + 1 - start);
                    assert(t.take(i + 1 - start) =~= prefix1);
                    assert(digits_val(t) > u64::MAX);
                }
            }
            return None;
        }
        acc = wide as u64;
        i = i + 1;
        proof {
            assert forall|k: int| 0 <= k < i - start implies is_digit(
                #[trigger] s@.subrange(start as int, i as int)[k],
            ) by {
                assert(s@.subrange(start as int, i as int)[k] == prefix1[k]);
            }
            assert(s@.subrange(start as int, i as int) =~= prefix1);
        }
    }
    proof {
        assert(t =~= s@.subrange(start as int, n as int));
    }
    Some(acc)
}

} // verus!
