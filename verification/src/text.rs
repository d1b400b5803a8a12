//! Building terminal strings: characters, decimal numbers and escape codes.
use vstd::prelude::*;

verus! {

/// Appends one character to a `String`.
///
/// Trusted: calls `String::push`, which std documents as appending the
/// character to the end of the string.
#[verifier::external_body]
pub(crate) fn push_char(s: &mut String, c: char)
    ensures
        final(s)@ == old(s)@.push(c),
{
    s.push(c);
}

/// The ASCII digit for `d` in 0–9.
pub open spec fn digit_char(d: int) -> char {
    ((d + 48) as u8) as char
}

/// Decimal representation of `n`, most significant digit first, no leading zeros.
pub open spec fn decimal(n: nat) -> Seq<char>
    decreases n,
{
    if n < 10 {
        seq![digit_char(n as int)]
    } else {
        decimal(n / 10).push(digit_char((n % 10) as int))
    }
}

/// Numbers from 10 up take at least two digits.
pub proof fn lemma_decimal_len_at_least_two(n: nat)
    requires
        n >= 10,
    ensures
        decimal(n).len() >= 2,
    decreases n,
{
    if n / 10 >= 10 {
        lemma_decimal_len_at_least_two(n / 10);
    } else {
        reveal_with_fuel(decimal, 2);
    }
}

/// ASCII digit for a value 0–9.
pub fn digit(d: u32) -> (c: char)
    requires
        d < 10,
    ensures
        c == digit_char(d as int),
{
    ((48 + d) as u8) as char
}

/// Appends the decimal representation of `n`.
pub fn push_decimal(s: &mut String, n: u32)
    ensures
        final(s)@ == old(s)@ + decimal(n as nat),
    decreases n,
{
    if n >= 10 {
        push_decimal(s, n / 10);
    }
    let d = digit(n % 10);
    push_char(s, d);
    proof {
        if n >= 10 {
            assert(decimal(n as nat) == decimal((n / 10) as nat).push(digit_char((n % 10) as int)));
            assert(old(s)@ + decimal((n / 10) as nat).push(digit_char((n % 10) as int))
                =~= (old(s)@ + decimal((n / 10) as nat)).push(d));
        } else {
            assert(old(s)@ + decimal(n as nat) =~= old(s)@.push(d));
        }
    }
}

/// Appends the decimal representation of a count.
pub fn push_count(s: &mut String, n: usize)
    ensures
        final(s)@ == old(s)@ + decimal(n as nat),
    decreases n,
{
    if n >= 10 {
        push_count(s, n / 10);
    }
    let d = digit((n % 10) as u32);
    push_char(s, d);
    proof {
        if n >= 10 {
            assert(decimal(n as nat) == decimal((n / 10) as nat).push(digit_char((n % 10) as int)));
            assert(old(s)@ + decimal((n / 10) as nat).push(digit_char((n % 10) as int))
                =~= (old(s)@ + decimal((n / 10) as nat)).push(d));
        } else {
            assert(old(s)@ + decimal(n as nat) =~= old(s)@.push(d));
        }
    }
}

/// `n` spaces.
pub open spec fn spaces(n: int) -> Seq<char> {
    Seq::new(if n > 0 { n as nat } else { 0 }, |i: int| ' ')
}

/// `s` right-aligned in `w` columns.
pub open spec fn pad_left(s: Seq<char>, w: int) -> Seq<char> {
    spaces(w - s.len()) + s
}

/// `s` left-aligned in `w` columns.
pub open spec fn pad_right(s: Seq<char>, w: int) -> Seq<char> {
    s + spaces(w - s.len())
}

/// Appends `n` spaces.
pub fn push_spaces(s: &mut String, n: usize)
    ensures
        final(s)@ == old(s)@ + spaces(n as int),
{
    let ghost start = s@;
    let mut k: usize = 0;
    while k < n
        invariant
            k <= n,
            s@ == start + spaces(k as int),
        decreases n - k,
    {
        push_char(s, ' ');
        assert(start + spaces(k + 1) =~= (start + spaces(k as int)).push(' '));
        k = k + 1;
    }
}

/// Appends a string slice.
pub fn push_str(s: &mut String, t: &str)
    ensures
        final(s)@ == old(s)@ + t@,
{
    s.append(t);
}

/// A one-character string.
pub fn char_string(c: char) -> (s: String)
    ensures
        s@ == seq![c],
{
    let mut s = String::new();
    push_char(&mut s, c);
    proof {
        assert(Seq::<char>::empty().push(c) =~= seq![c]);
    }
    s
}

/// An owned copy of a string slice.
pub fn string_from(t: &str) -> (s: String)
    ensures
        s@ == t@,
{
    String::from_str(t)
}

/// `t` occurs in `s` starting at position `i`.
pub open spec fn occurs_at(s: Seq<char>, t: Seq<char>, i: int) -> bool {
    0 <= i && i + t.len() <= s.len() && s.subrange(i, i + t.len()) == t
}

/// `t` occurs somewhere in `s`.
pub open spec fn seq_contains(s: Seq<char>, t: Seq<char>) -> bool {
    exists|i: int| occurs_at(s, t, i)
}

/// `s` begins with `t`.
pub open spec fn seq_starts_with(s: Seq<char>, t: Seq<char>) -> bool {
    occurs_at(s, t, 0)
}

/// ASCII lower-casing of one character (`A`–`Z` only).
pub open spec fn ascii_lower_char(c: char) -> char {
    if 'A' <= c && c <= 'Z' { ((c as u32) + 32) as char } else { c }
}

/// ASCII lower-casing of a string.
pub open spec fn ascii_lower(s: Seq<char>) -> Seq<char> {
    s.map_values(|c: char| ascii_lower_char(c))
}

/// Does `t` occur in `s` at position `i`?
fn matches_at(s: &str, t: &str, i: usize) -> (b: bool)
    requires
        i + t@.len() <= s@.len(),
        s@.len() <= usize::MAX,
    ensures
        b == occurs_at(s@, t@, i as int),
{
    let n = t.unicode_len();
    let mut j: usize = 0;
    while j < n
        invariant
            n == t@.len(),
            i + n <= s@.len(),
            s@.len() <= usize::MAX,
            j <= n,
            forall|k: int| 0 <= k < j ==> s@[i + k] == t@[k],
        decreases n - j,
    {
        if s.get_char(i + j) != t.get_char(j) {
            proof {
                assert(s@.subrange(i as int, i + n)[j as int] != t@[j as int]);
            }
            return false;
        }
        j = j + 1;
    }
    proof {
        assert(s@.subrange(i as int, i + n) =~= t@);
    }
    true
}

/// Substring search.
pub fn contains_str(s: &str, t: &str) -> (b: bool)
    ensures
        b == seq_contains(s@, t@),
{
    let n = s.unicode_len();
    let m = t.unicode_len();
    if m > n {
        return false;
    }
    if m == 0 {
        proof {
            assert(s@.subrange(0, 0) =~= t@);
            assert(occurs_at(s@, t@, 0));
        }
        return true;
    }
    let mut i: usize = 0;
    while i <= n - m
        invariant
            n == s@.len(),
            m == t@.len(),
            1 <= m <= n,
            i <= n - m + 1,
            forall|k: int| 0 <= k < i ==> !occurs_at(s@, t@, k),
        decreases n - m + 1 - i,
    {
        if matches_at(s, t, i) {
            return true;
        }
        i = i + 1;
    }
    false
}

/// Prefix test.
pub fn starts_with_str(s: &str, t: &str) -> (b: bool)
    ensures
        b == seq_starts_with(s@, t@),
{
    let n = s.unicode_len();
    let m = t.unicode_len();
    if m > n {
        return false;
    }
    matches_at(s, t, 0)
}

/// String equality.
pub fn str_equal(s: &str, t: &str) -> (b: bool)
    ensures
        b == (s@ == t@),
{
    let n = s.unicode_len();
    let m = t.unicode_len();
    if m != n {
        return false;
    }
    let r = matches_at(s, t, 0);
    proof {
        assert(s@.subrange(0, n as int) =~= s@);
    }
    r
}

/// ASCII-case-insensitive equality: `s` lower-cased equals `t` (`t` given in
/// lower case).
pub fn lower_equals(s: &str, t: &str) -> (b: bool)
    ensures
        b == (ascii_lower(s@) == t@),
{
    let n = s.unicode_len();
    let m = t.unicode_len();
    if m != n {
        return false;
    }
    let mut j: usize = 0;
    while j < n
        invariant
            n == s@.len(),
            n == t@.len(),
            j <= n,
            forall|k: int| 0 <= k < j ==> ascii_lower_char(s@[k]) == t@[k],
        decreases n - j,
    {
        let c = s.get_char(j);
        let lc = if 'A' <= c && c <= 'Z' { ((c as u32) + 32) as u8 as char } else { c };
        assert(lc == ascii_lower_char(c)) by {
            if 'A' <= c && c <= 'Z' {
                assert(((c as u32) + 32) as u8 as char == ((c as u32) + 32) as char);
            }
        }
        if lc != t.get_char(j) {
            proof {
                assert(ascii_lower(s@)[j as int] != t@[j as int]);
            }
            return false;
        }
        j = j + 1;
    }
    proof {
        assert(ascii_lower(s@) =~= t@);
    }
    true
}

/// Removes the last character of a `String` and returns it; `None`, with the
/// string unchanged, when it is empty.
pub fn pop_char(s: &mut String) -> (c: Option<char>)
    ensures
        old(s)@.len() == 0 ==> c is None && final(s)@ == old(s)@,
        old(s)@.len() > 0 ==> c == Some(old(s)@.last()) && final(s)@ == old(s)@.drop_last(),
{
    let n = s.as_str().unicode_len();
    if n == 0 {
        return None;
    }
    let c = s.as_str().get_char(n - 1);
    let t = string_from(s.as_str().substring_char(0, n - 1));
    *s = t;
    Some(c)
}

/// Control characters (general category Cc): U+0000–U+001F and
/// U+007F–U+009F, as `char::is_control` documents them.
pub open spec fn is_control_char(c: char) -> bool {
    (c as u32) < 0x20 || (0x7f <= (c as u32) && (c as u32) <= 0x9f)
}

/// Is `c` a control character?
pub fn is_control(c: char) -> (b: bool)
    ensures
        b == is_control_char(c),
{
    let u = c as u32;
    u < 0x20 || (0x7f <= u && u <= 0x9f)
}

/// Unicode White_Space (`char::is_whitespace`): U+0009–U+000D, U+0020,
/// U+0085, U+00A0, U+1680, U+2000–U+200A, U+2028, U+2029, U+202F, U+205F,
/// U+3000.
pub open spec fn is_white_space(c: char) -> bool {
    let u = c as u32;
    (0x09 <= u && u <= 0x0d) || u == 0x20 || u == 0x85 || u == 0xa0 || u == 0x1680 || (0x2000 <= u
        && u <= 0x200a) || u == 0x2028 || u == 0x2029 || u == 0x202f || u == 0x205f || u == 0x3000
}

/// `s` without leading and trailing white space (`str::trim`).
#[verifier::opaque]
pub open spec fn trimmed(s: Seq<char>) -> Seq<char> {
    if exists|k: int| 0 <= k < s.len() && !is_white_space(#[trigger] s[k]) {
        let a = choose|a: int|
            0 <= a < s.len() && !is_white_space(s[a]) && forall|k: int|
                0 <= k < a ==> is_white_space(#[trigger] s[k]);
        let b = choose|b: int|
            0 <= b < s.len() && !is_white_space(s[b]) && forall|k: int|
                b < k < s.len() ==> is_white_space(#[trigger] s[k]);
        s.subrange(a, b + 1)
    } else {
        Seq::empty()
    }
}

/// Is `c` white space?
pub fn is_whitespace(c: char) -> (b: bool)
    ensures
        b == is_white_space(c),
{
    let u = c as u32;
    (0x09 <= u && u <= 0x0d) || u == 0x20 || u == 0x85 || u == 0xa0 || u == 0x1680 || (0x2000 <= u
        && u <= 0x200a) || u == 0x2028 || u == 0x2029 || u == 0x202f || u == 0x205f || u == 0x3000
}

/// The bounds `[a, b)` of `s` without leading and trailing white space.
pub fn trim_bounds(s: &str) -> (r: (usize, usize))
    ensures
        r.0 <= r.1 <= s@.len(),
        s@.subrange(r.0 as int, r.1 as int) == trimmed(s@),
{
    let n = s.unicode_len();
    let mut a: usize = 0;
    while a < n && is_whitespace(s.get_char(a))
        invariant
            n == s@.len(),
            a <= n,
            forall|k: int| 0 <= k < a ==> is_white_space(#[trigger] s@[k]),
        decreases n - a,
    {
        a = a + 1;
    }
    if a == n {
        proof {
            reveal(trimmed);
        }
        assert(!exists|k: int| 0 <= k < s@.len() && !is_white_space(#[trigger] s@[k]));
        return (n, n);
    }
    let mut b: usize = n;
    while b > a && is_whitespace(s.get_char(b - 1))
        invariant
            n == s@.len(),
            a < n,
            !is_white_space(s@[a as int]),
            a < b <= n,
            forall|k: int| b <= k < n ==> is_white_space(#[trigger] s@[k]),
        decreases b,
    {
        b = b - 1;
    }
    proof {
        reveal(trimmed);
        let q = s@;
        assert(!is_white_space(q[b - 1]));
        assert(0 <= a < q.len() && !is_white_space(q[a as int]));
        let ca = choose|x: int|
            0 <= x < q.len() && !is_white_space(q[x]) && forall|k: int|
                0 <= k < x ==> is_white_space(#[trigger] q[k]);
        let cb = choose|y: int|
            0 <= y < q.len() && !is_white_space(q[y]) && forall|k: int|
                y < k < q.len() ==> is_white_space(#[trigger] q[k]);
        assert(0 <= a < q.len() && !is_white_space(q[a as int]) && forall|k: int|
            0 <= k < a ==> is_white_space(#[trigger] q[k]));
        assert(0 <= b - 1 < q.len() && !is_white_space(q[b - 1]) && forall|k: int|
            b - 1 < k < q.len() ==> is_white_space(#[trigger] q[k]));
        if ca < a {
            assert(is_white_space(q[ca]));
        }
        if ca > a {
            assert(is_white_space(q[a as int]));
        }
        if cb < b - 1 {
            assert(is_white_space(q[b - 1]));
        }
        if cb > b - 1 {
            assert(is_white_space(q[cb]));
        }
    }
    (a, b)
}

/// Is `c` an ASCII digit?
pub open spec fn is_digit(c: char) -> bool {
    '0' <= c && c <= '9'
}

/// Value of a run of decimal digits, most significant first.
pub open spec fn digits_value(d: Seq<char>) -> nat
    decreases d.len(),
{
    if d.len() == 0 {
        0
    } else {
        digits_value(d.drop_last()) * 10 + ((d.last() as u32) - 48) as nat
    }
}

/// `s` without a leading `+`.
pub open spec fn without_plus(s: Seq<char>) -> Seq<char> {
    if s.len() > 0 && s[0] == '+' {
        s.drop_first()
    } else {
        s
    }
}

/// Is every character of `d` an ASCII digit?
pub open spec fn all_digits(d: Seq<char>) -> bool {
    forall|i: int| 0 <= i < d.len() ==> is_digit(#[trigger] d[i])
}

/// The digits of an unsigned number as `str::parse` reads it: an optional
/// `+`, then one or more ASCII digits and nothing else.
pub open spec fn unsigned_digits(s: Seq<char>) -> Option<Seq<char>> {
    if without_plus(s).len() > 0 && all_digits(without_plus(s)) {
        Some(without_plus(s))
    } else {
        None
    }
}

/// The unsigned number `s` spells, when it is one no larger than `max`.
pub open spec fn parsed_unsigned(s: Seq<char>, max: nat) -> Option<nat> {
    match unsigned_digits(s) {
        Some(d) => if digits_value(d) <= max {
            Some(digits_value(d))
        } else {
            None
        },
        None => None,
    }
}

/// A longer run of digits is worth at least as much as its start.
proof fn lemma_digits_value_grows(d: Seq<char>, i: int)
    requires
        0 <= i <= d.len(),
    ensures
        digits_value(d.take(i)) <= digits_value(d),
    decreases d.len() - i,
{
    if i < d.len() {
        lemma_digits_value_grows(d, i + 1);
        assert(d.take(i + 1).drop_last() =~= d.take(i));
    } else {
        assert(d.take(i) =~= d);
    }
}

/// Reads an unsigned decimal number no larger than `max`, as `str::parse`
/// does for unsigned integers.
pub fn parse_unsigned(s: &str, max: u64) -> (r: Option<u64>)
    ensures
        r == match parsed_unsigned(s@, max as nat) {
            Some(v) => Some(v as u64),
            None => None::<u64>,
        },
{
    let n = s.unicode_len();
    let start: usize = if n > 0 && s.get_char(0) == '+' { 1 } else { 0 };
    let ghost d = without_plus(s@);
    proof {
        assert(d =~= s@.subrange(start as int, n as int));
    }
    if start == n {
        return None;
    }
    let mut v: u64 = 0;
    let mut i: usize = start;
    while i < n
        invariant
            n == s@.len(),
            start <= i <= n,
            d == s@.subrange(start as int, n as int),
            d == without_plus(s@),
            forall|k: int| 0 <= k < i - start ==> is_digit(#[trigger] d[k]),
            v == digits_value(d.take(i - start)),
            v <= max,
        decreases n - i,
    {
        let c = s.get_char(i);
        if c < '0' || c > '9' {
            proof {
                assert(!is_digit(d[i - start]));
                assert(!all_digits(d));
                assert(unsigned_digits(s@) is None);
            }
            return None;
        }
        let digit = (c as u32 - 48) as u64;
        assert(d.take(i + 1 - start).drop_last() =~= d.take(i - start));
        assert(d.take(i + 1 - start).last() == c);
        if digit > max || v > (max - digit) / 10 {
            proof {
                if digit <= max {
                    let q = (max - digit) / 10;
                    assert(v * 10 + digit > max) by (nonlinear_arith)
                        requires
                            v > q,
                            q == (max - digit) / 10,
                            digit <= max,
                    ;
                }
                lemma_digits_value_grows(d, i + 1 - start);
                if unsigned_digits(s@) is Some {
                    assert(unsigned_digits(s@) == Some(d));
                    assert(digits_value(d) > max);
                }
            }
            return None;
        }
        assert(v * 10 + digit <= max) by (nonlinear_arith)
            requires
                v <= (max - digit) / 10,
                digit <= max,
        ;
        v = v * 10 + digit;
        i = i + 1;
    }
    assert(d.take(n - start) =~= d);
    Some(v)
}

} // verus!
