//! Numbers: the value of a run of digits in a radix, signed integers, and the floating-point
//! syntax.
use vstd::prelude::*;
use crate::chars::hex_value;

verus! {

/// The value of `c` as a digit in base `radix` (2 to 16), if it is one.
pub open spec fn digit_value(c: char, radix: nat) -> Option<nat> {
    match hex_value(c) {
        Some(d) => if (d as nat) < radix {
            Some(d as nat)
        } else {
            None
        },
        None => None,
    }
}

/// The value of the digits `s` in base `radix` (zero for no digits), if every character is a
/// digit in that base.
pub open spec fn digits_value(s: Seq<char>, radix: nat) -> Option<nat>
    decreases s.len(),
{
    if s.len() == 0 {
        Some(0)
    } else {
        match (digits_value(s.drop_last(), radix), digit_value(s.last(), radix)) {
            (Some(v), Some(d)) => Some(v * radix + d),
            _ => None,
        }
    }
}

/// An unsigned 64-bit integer written with the digits `s` in base `radix` (`u64::from_str_radix`
/// on text without a sign).
pub open spec fn parse_unsigned(s: Seq<char>, radix: nat) -> Option<u64> {
    if s.len() == 0 {
        None
    } else {
        match digits_value(s, radix) {
            Some(v) => if v <= u64::MAX {
                Some(v as u64)
            } else {
                None
            },
            None => None,
        }
    }
}

/// A signed 64-bit integer written in decimal with an optional sign (`i64::from_str`).
pub open spec fn parse_signed(s: Seq<char>) -> Option<i64> {
    let neg = s.len() > 0 && s[0] == '-';
    let body = if s.len() > 0 && (s[0] == '-' || s[0] == '+') {
        s.drop_first()
    } else {
        s
    };
    if body.len() == 0 {
        None
    } else {
        match digits_value(body, 10) {
            Some(v) => {
                let i: int = if neg {
                    -v
                } else {
                    v as int
                };
                if i64::MIN <= i <= i64::MAX {
                    Some(i as i64)
                } else {
                    None
                }
            },
            None => None,
        }
    }
}

/// The number of decimal digits at the start of `s`.
pub open spec fn digit_run(s: Seq<char>) -> nat
    decreases s.len(),
{
    if s.len() > 0 && '0' <= s[0] && s[0] <= '9' {
        1 + digit_run(s.drop_first())
    } else {
        0
    }
}

/// Is every character of `s` a decimal digit?
pub open spec fn all_digits(s: Seq<char>) -> bool {
    forall|i: int| 0 <= i < s.len() ==> '0' <= #[trigger] s[i] && s[i] <= '9'
}

/// An exponent: `e` or `E`, an optional sign, and at least one digit.
pub open spec fn is_exponent(s: Seq<char>) -> bool {
    s.len() >= 2 && (s[0] == 'e' || s[0] == 'E') && {
        let r = s.drop_first();
        let d = if r[0] == '+' || r[0] == '-' {
            r.drop_first()
        } else {
            r
        };
        d.len() > 0 && all_digits(d)
    }
}

/// A decimal number: digits with an optional fraction (at least one digit on either side of
/// the point), then an optional exponent.
pub open spec fn is_decimal_number(s: Seq<char>) -> bool {
    let lead = digit_run(s);
    let after = s.skip(lead as int);
    if after.len() > 0 && after[0] == '.' {
        let frac = after.drop_first();
        let f = digit_run(frac);
        let tail = frac.skip(f as int);
        (lead > 0 || f > 0) && (tail.len() == 0 || is_exponent(tail))
    } else {
        lead > 0 && (after.len() == 0 || is_exponent(after))
    }
}

/// Is `c` the character `w`, or its upper-case form when `w` is a lower-case ASCII letter?
pub open spec fn same_ignoring_case(c: char, w: char) -> bool {
    c == w || ('A' <= c && c <= 'Z' && (c as u32) + 32 == (w as u32))
}

/// Is `s` equal to the lower-case word `w`, ignoring the case of ASCII letters?
pub open spec fn is_word_ignoring_case(s: Seq<char>, w: Seq<char>) -> bool {
    s.len() == w.len() && forall|i: int| 0 <= i < s.len() ==> same_ignoring_case(#[trigger] s[i], w[i])
}

/// Is `s` the text of a floating-point number, as `f64::from_str` accepts it: an optional sign,
/// then `inf`, `infinity`, `nan` (in any case) or a decimal number?
pub open spec fn is_float_text(s: Seq<char>) -> bool {
    let body = if s.len() > 0 && (s[0] == '-' || s[0] == '+') {
        s.drop_first()
    } else {
        s
    };
    is_word_ignoring_case(body, seq!['i', 'n', 'f']) || is_word_ignoring_case(
        body,
        seq!['i', 'n', 'f', 'i', 'n', 'i', 't', 'y'],
    ) || is_word_ignoring_case(body, seq!['n', 'a', 'n']) || is_decimal_number(body)
}


/// The value of a digit in a radix.
pub fn digit_value_of(c: char, radix: u32) -> (r: Option<u32>)
    ensures
        match r {
            Some(d) => digit_value(c, radix as nat) == Some(d as nat),
            None => digit_value(c, radix as nat) is None,
        },
{
    match crate::chars::hex_digit_value(c) {
        Some(d) => if d < radix {
            Some(d)
        } else {
            None
        },
        None => None,
    }
}

/// A prefix of digits has a value, no larger than that of all the digits.
pub proof fn lemma_digits_prefix(s: Seq<char>, radix: nat, i: int)
    requires
        radix >= 1,
        0 <= i <= s.len(),
        digits_value(s, radix) is Some,
    ensures
        digits_value(s.take(i), radix) is Some,
        digits_value(s.take(i), radix)->0 <= digits_value(s, radix)->0,
    decreases s.len(),
{
    if i == s.len() {
        assert(s.take(i) =~= s);
    } else {
        let v = digits_value(s.drop_last(), radix)->0;
        let d = digit_value(s.last(), radix)->0;
        lemma_digits_prefix(s.drop_last(), radix, i);
        assert(s.drop_last().take(i) =~= s.take(i));
        assert(v <= v * radix + d) by (nonlinear_arith)
            requires
                radix >= 1,
        ;
    }
}

/// The value of the digits of `s` from index `start` on, in base `radix`, when it fits in 64
/// bits.
pub fn digits_from(s: &[char], start: usize, radix: u32) -> (r: Option<u64>)
    requires
        start <= s@.len(),
        2 <= radix <= 16,
    ensures
        match digits_value(s@.skip(start as int), radix as nat) {
            Some(v) => if v <= u64::MAX {
                r == Some(v as u64)
            } else {
                r is None
            },
            None => r is None,
        },
{
    let ghost all = s@.skip(start as int);
    let mut v: u64 = 0;
    let mut i: usize = start;
    assert(all.take(0) =~= seq![]);
    while i < s.len()
        invariant
            start <= i <= s@.len(),
            all == s@.skip(start as int),
            2 <= radix <= 16,
            digits_value(all.take(i - start), radix as nat) == Some(v as nat),
        decreases s.len() - i,
    {
        assert(all.take(i + 1 - start).drop_last() =~= all.take(i - start));
        assert(all.take(i + 1 - start).last() == s@[i as int]);
        let d = match digit_value_of(s[i], radix) {
            Some(d) => d,
            None => {
                proof {
                    if digits_value(all, radix as nat) is Some {
                        lemma_digits_prefix(all, radix as nat, i + 1 - start);
                    }
                }
                return None;
            },
        };
        let m = v.checked_mul(radix as u64);
        let next = match m {
            Some(m) => m.checked_add(d as u64),
            None => None,
        };
        match next {
            Some(n) => {
                v = n;
            },
            None => {
                proof {
                    assert(v as nat * radix as nat + d as nat > u64::MAX);
                    if digits_value(all, radix as nat) is Some {
                        lemma_digits_prefix(all, radix as nat, i + 1 - start);
                    }
                }
                return None;
            },
        }
        i = i + 1;
    }
    assert(all.take(i - start) =~= all);
    Some(v)
}

/// `u64::from_str_radix` on text without a sign.
pub fn parse_unsigned_chars(s: &[char], radix: u32) -> (r: Option<u64>)
    requires
        2 <= radix <= 16,
    ensures
        r == parse_unsigned(s@, radix as nat),
{
    if s.len() == 0 {
        return None;
    }
    assert(s@.skip(0) =~= s@);
    digits_from(s, 0, radix)
}

/// `i64::from_str`: a decimal number with an optional sign, when it fits in 64 bits.
pub fn parse_signed_chars(s: &[char]) -> (r: Option<i64>)
    ensures
        r == parse_signed(s@),
{
    let neg = s.len() > 0 && s[0] == '-';
    let start: usize = if s.len() > 0 && (s[0] == '-' || s[0] == '+') {
        1
    } else {
        0
    };
    if start >= s.len() {
        return None;
    }
    proof {
        if start == 1 {
            assert(s@.skip(1) =~= s@.drop_first());
        } else {
            assert(s@.skip(0) =~= s@);
        }
    }
    match digits_from(s, start, 10) {
        Some(v) => {
            if neg {
                if v <= 9223372036854775807u64 {
                    Some(-(v as i64))
                } else if v == 9223372036854775808u64 {
                    Some(i64::MIN)
                } else {
                    None
                }
            } else {
                if v <= 9223372036854775807u64 {
                    Some(v as i64)
                } else {
                    None
                }
            }
        },
        None => None,
    }
}


proof fn lemma_skip_step(s: Seq<char>, i: int)
    requires
        0 <= i < s.len(),
    ensures
        s.skip(i).drop_first() =~= s.skip(i + 1),
        s.skip(i)[0] == s[i],
{
}

/// The number of decimal digits of `s` from index `start` on.
fn digit_run_at(s: &[char], start: usize) -> (r: usize)
    requires
        start <= s@.len(),
    ensures
        start + r <= s.len(),
        r == digit_run(s@.skip(start as int)),
{
    let mut i = start;
    while i < s.len() && '0' <= s[i] && s[i] <= '9'
        invariant
            start <= i <= s@.len(),
            digit_run(s@.skip(start as int)) == (i - start) + digit_run(s@.skip(i as int)),
        decreases s.len() - i,
    {
        proof {
            lemma_skip_step(s@, i as int);
        }
        i = i + 1;
    }
    i - start
}

/// All characters are digits exactly when the run of digits covers them all.
proof fn lemma_digit_run_all(t: Seq<char>)
    ensures
        all_digits(t) <==> digit_run(t) == t.len(),
        digit_run(t) <= t.len(),
    decreases t.len(),
{
    if t.len() > 0 {
        lemma_digit_run_all(t.drop_first());
        if '0' <= t[0] && t[0] <= '9' {
            if all_digits(t.drop_first()) {
                assert forall|i: int| 0 <= i < t.len() implies '0' <= #[trigger] t[i] && t[i] <= '9' by {
                    if i > 0 {
                        assert(t[i] == t.drop_first()[i - 1]);
                    }
                }
            }
            if all_digits(t) {
                assert forall|i: int| 0 <= i < t.drop_first().len() implies '0' <= #[trigger] t.drop_first()[i] && t.drop_first()[i] <= '9' by {
                    assert(t.drop_first()[i] == t[i + 1]);
                }
            }
        } else {
            assert(!('0' <= t[0] && t[0] <= '9'));
        }
    }
}

/// Is the text of `s` from index `start` on an exponent?
fn is_exponent_at(s: &[char], start: usize) -> (r: bool)
    requires
        start <= s@.len(),
    ensures
        r == is_exponent(s@.skip(start as int)),
{
    let ghost t = s@.skip(start as int);
    if s.len() - start < 2 {
        return false;
    }
    if s[start] != 'e' && s[start] != 'E' {
        return false;
    }
    let mut j = start + 1;
    proof {
        lemma_skip_step(s@, start as int);
    }
    if s[j] == '+' || s[j] == '-' {
        proof {
            lemma_skip_step(s@, j as int);
        }
        j = j + 1;
    }
    if j >= s.len() {
        return false;
    }
    let n = digit_run_at(s, j);
    proof {
        lemma_digit_run_all(s@.skip(j as int));
    }
    n == s.len() - j
}

/// Is the text of `s` from index `start` on a decimal number?
fn is_decimal_number_at(s: &[char], start: usize) -> (r: bool)
    requires
        start <= s@.len(),
    ensures
        r == is_decimal_number(s@.skip(start as int)),
{
    let ghost t = s@.skip(start as int);
    let lead = digit_run_at(s, start);
    let a = start + lead;
    assert(t.skip(lead as int) =~= s@.skip(a as int));
    if a < s.len() && s[a] == '.' {
        proof {
            lemma_skip_step(s@, a as int);
        }
        let f = digit_run_at(s, a + 1);
        let b = a + 1 + f;
        assert(s@.skip(a + 1).skip(f as int) =~= s@.skip(b as int));
        (lead > 0 || f > 0) && (b == s.len() || is_exponent_at(s, b))
    } else {
        lead > 0 && (a == s.len() || is_exponent_at(s, a))
    }
}

/// Is the text of `s` from index `start` on the lower-case word `w`, ignoring case?
fn is_word_at(s: &[char], start: usize, w: &[char]) -> (r: bool)
    requires
        start <= s@.len(),
    ensures
        r == is_word_ignoring_case(s@.skip(start as int), w@),
{
    if s.len() - start != w.len() {
        return false;
    }
    let mut i: usize = 0;
    while i < w.len()
        invariant
            s@.len() - start == w@.len(),
            s.len() - start == w.len(),
            start <= s.len(),
            i <= w@.len(),
            forall|k: int| 0 <= k < i ==> same_ignoring_case(#[trigger] s@.skip(start as int)[k], w@[k]),
        decreases w.len() - i,
    {
        let c = s[start + i];
        let d = w[i];
        assert(s@.skip(start as int)[i as int] == c);
        if !(c == d || ('A' <= c && c <= 'Z' && (c as u32) + 32 == (d as u32))) {
            return false;
        }
        i = i + 1;
    }
    true
}

/// Is `s` the text of a floating-point number (see `is_float_text`)?
pub fn is_float_text_chars(s: &[char]) -> (r: bool)
    ensures
        r == is_float_text(s@),
{
    let start: usize = if s.len() > 0 && (s[0] == '-' || s[0] == '+') {
        1
    } else {
        0
    };
    proof {
        if start == 1 {
            assert(s@.skip(1) =~= s@.drop_first());
        } else {
            assert(s@.skip(0) =~= s@);
        }
    }
    let inf = is_word_at(s, start, &['i', 'n', 'f']);
    let infinity = is_word_at(s, start, &['i', 'n', 'f', 'i', 'n', 'i', 't', 'y']);
    let nan = is_word_at(s, start, &['n', 'a', 'n']);
    assert(['i', 'n', 'f']@ =~= seq!['i', 'n', 'f']);
    assert(['i', 'n', 'f', 'i', 'n', 'i', 't', 'y']@ =~= seq!['i', 'n', 'f', 'i', 'n', 'i', 't', 'y']);
    assert(['n', 'a', 'n']@ =~= seq!['n', 'a', 'n']);
    inf || infinity || nan || is_decimal_number_at(s, start)
}

} // verus!
