//! Reading the numbers that parameters carry.
//!
//! A box is the text of an array of JSON numbers, `[x1,y1,x2,y2]`. Each
//! number is `-?(0|[1-9][0-9]*)(\.[0-9]+)?([eE][+-]?[0-9]+)?`; commands use
//! the integer part (the value truncated toward zero), held to the range of
//! `i32`. A box is read only where serde_json also accepts its text, which
//! leaves out numbers beyond the range of a double.
use vstd::prelude::*;

use crate::text::{json_trim, json_trim_chars, slice, split, split_chars, to_chars};

verus! {

/// The magnitude past which every value reads as the bound of `i32`.
pub const MAGNITUDE_CAP: u64 = 2147483648;

pub open spec fn is_digit(c: char) -> bool {
    '0' <= c && c <= '9'
}

pub open spec fn digit_value(c: char) -> nat {
    ((c as u32) - 48) as nat
}

/// The value of a run of decimal digits.
pub open spec fn digits_value(ds: Seq<char>) -> nat
    decreases ds.len(),
{
    if ds.len() == 0 {
        0
    } else {
        digits_value(ds.drop_last()) * 10 + digit_value(ds.last())
    }
}

/// End of the run of digits that starts at `i`.
pub open spec fn digits_end(s: Seq<char>, i: int) -> int
    decreases s.len() - i,
{
    if 0 <= i < s.len() && is_digit(s[i]) {
        digits_end(s, i + 1)
    } else {
        i
    }
}

pub open spec fn sign_len(t: Seq<char>) -> int {
    if t.len() > 0 && t[0] == '-' {
        1
    } else {
        0
    }
}

pub open spec fn is_exp_mark(c: char) -> bool {
    c == 'e' || c == 'E'
}

/// End of the integer digits of number text `t`.
pub open spec fn int_end(t: Seq<char>) -> int {
    digits_end(t, sign_len(t))
}

pub open spec fn has_fraction(t: Seq<char>) -> bool {
    int_end(t) < t.len() && t[int_end(t)] == '.'
}

/// End of the digits before any exponent.
pub open spec fn mantissa_end(t: Seq<char>) -> int {
    if has_fraction(t) {
        digits_end(t, int_end(t) + 1)
    } else {
        int_end(t)
    }
}

pub open spec fn exp_sign_len(t: Seq<char>) -> int {
    let c = mantissa_end(t);
    if c + 1 < t.len() && (t[c + 1] == '+' || t[c + 1] == '-') {
        1
    } else {
        0
    }
}

pub open spec fn exp_digits_start(t: Seq<char>) -> int {
    mantissa_end(t) + 1 + exp_sign_len(t)
}

/// `t` is a JSON number: an optional minus, an integer part without leading
/// zeros, an optional fraction and an optional exponent, each with digits.
pub open spec fn is_number(t: Seq<char>) -> bool {
    let a = sign_len(t);
    let b = int_end(t);
    let c = mantissa_end(t);
    &&& b > a
    &&& (t[a] != '0' || b == a + 1)
    &&& (has_fraction(t) ==> c > b + 1)
    &&& (c == t.len() || (is_exp_mark(t[c]) && exp_digits_start(t) < t.len() && digits_end(
        t,
        exp_digits_start(t),
    ) == t.len()))
}

/// The digits of the integer part and the fraction, in order.
pub open spec fn mantissa(t: Seq<char>) -> Seq<char> {
    t.subrange(sign_len(t), int_end(t)) + if has_fraction(t) {
        t.subrange(int_end(t) + 1, mantissa_end(t))
    } else {
        Seq::empty()
    }
}

/// The power of ten the number's exponent gives (0 without one).
pub open spec fn exponent(t: Seq<char>) -> int {
    let c = mantissa_end(t);
    if c < t.len() {
        let m = digits_value(t.subrange(exp_digits_start(t), t.len() as int)) as int;
        if exp_sign_len(t) == 1 && t[c + 1] == '-' {
            -m
        } else {
            m
        }
    } else {
        0
    }
}

/// How many mantissa digits stand before the decimal point once the
/// exponent is applied.
pub open spec fn point_shift(t: Seq<char>) -> int {
    int_end(t) - sign_len(t) + exponent(t)
}

/// The value of digit `k` of `m`, with zeros past its end.
pub open spec fn digit_at(m: Seq<char>, k: int) -> nat {
    if 0 <= k < m.len() {
        digit_value(m[k])
    } else {
        0
    }
}

/// The value of the first `n` digits of `m`, padded with zeros.
pub open spec fn prefix_value(m: Seq<char>, n: int) -> nat
    decreases n,
{
    if n <= 0 {
        0
    } else {
        prefix_value(m, n - 1) * 10 + digit_at(m, n - 1)
    }
}

/// The integer part of number `t`, without its sign.
pub open spec fn integer_magnitude(t: Seq<char>) -> nat {
    prefix_value(mantissa(t), point_shift(t))
}

/// Number `t` truncated toward zero, held to the range of `i32`.
pub open spec fn truncate_i32(t: Seq<char>) -> i32 {
    let m = integer_magnitude(t);
    if sign_len(t) == 1 {
        if m >= 2147483648 {
            i32::MIN
        } else {
            (-m) as i32
        }
    } else {
        if m >= 2147483647 {
            i32::MAX
        } else {
            m as i32
        }
    }
}

/// The numbers of an array text `[n, n, ...]`, each truncated; `None` where
/// the text is no such array. Only JSON white space may surround the
/// brackets and the numbers.
pub open spec fn number_array(s: Seq<char>) -> Option<Seq<i32>> {
    let t = json_trim(s);
    if t.len() >= 2 && t[0] == '[' && t.last() == ']' {
        let inner = t.subrange(1, t.len() - 1);
        let toks = split(inner, seq![',']).map_values(|p: Seq<char>| json_trim(p));
        if json_trim(inner).len() == 0 {
            Some(Seq::empty())
        } else if forall|i: int| 0 <= i < toks.len() ==> is_number(#[trigger] toks[i]) {
            Some(toks.map_values(|p: Seq<char>| truncate_i32(p)))
        } else {
            None
        }
    } else {
        None
    }
}

/// The leading point of a box text: its first two numbers.
pub open spec fn box_point(s: Seq<char>) -> Option<(i32, i32)> {
    match number_array(s) {
        Some(ns) => if ns.len() >= 2 {
            Some((ns[0], ns[1]))
        } else {
            None
        },
        None => None,
    }
}

/// `s` is one JSON value as serde_json reads it; among other things, every
/// number in it lies within the range of a double.
pub uninterp spec fn json_parses(s: Seq<char>) -> bool;

/// Relies on `serde_json::from_str` into `serde_json::Value`: whether the
/// text is accepted as one JSON value.
#[verifier::external_body]
fn parses_as_json(s: &str) -> (r: bool)
    ensures
        r == json_parses(s@),
{
    serde_json::from_str::<serde_json::Value>(s).is_ok()
}

/// The leading point of a box text that is also JSON to serde_json; `None`
/// where it is not.
pub open spec fn json_box_point(s: Seq<char>) -> Option<(i32, i32)> {
    if json_parses(s) {
        box_point(s)
    } else {
        None
    }
}

/// `str::parse::<u64>`: an optional `+`, then one or more digits whose
/// value fits in `u64`.
pub open spec fn parse_u64(s: Seq<char>) -> Option<u64> {
    let a: int = if s.len() > 0 && s[0] == '+' {
        1
    } else {
        0
    };
    if s.len() > a && digits_end(s, a) == s.len() && digits_value(s.subrange(a, s.len() as int))
        <= u64::MAX {
        Some(digits_value(s.subrange(a, s.len() as int)) as u64)
    } else {
        None
    }
}

fn is_digit_exec(c: char) -> (r: bool)
    ensures
        r == is_digit(c),
{
    '0' <= c && c <= '9'
}

proof fn lemma_digits_step(s: Seq<char>, a: int, b: int)
    requires
        0 <= a <= b < s.len(),
    ensures
        digits_value(s.subrange(a, b + 1)) == digits_value(s.subrange(a, b)) * 10 + digit_value(
            s[b],
        ),
{
    assert(s.subrange(a, b + 1).drop_last() =~= s.subrange(a, b));
}

/// The largest exponent magnitude kept exactly; larger ones read as it.
pub const EXPONENT_CAP: u128 = 1267650600228229401496703205376;

pub open spec fn capped(v: nat, cap: int) -> int {
    if v >= cap {
        cap
    } else {
        v as int
    }
}

pub open spec fn pow10(n: int) -> nat
    decreases n,
{
    if n <= 0 {
        1
    } else {
        10 * pow10(n - 1)
    }
}

proof fn lemma_pow10_eleven()
    ensures
        pow10(11) > MAGNITUDE_CAP,
{
    assert(pow10(0) == 1);
    assert(pow10(1) == 10);
    assert(pow10(2) == 100);
    assert(pow10(3) == 1000);
    assert(pow10(4) == 10000);
    assert(pow10(5) == 100000);
    assert(pow10(6) == 1000000);
    assert(pow10(7) == 10000000);
    assert(pow10(8) == 100000000);
    assert(pow10(9) == 1000000000);
    assert(pow10(10) == 10000000000);
    assert(pow10(11) == 100000000000);
}

proof fn lemma_prefix_monotone(m: Seq<char>, k: int, n: int)
    requires
        0 <= k <= n,
    ensures
        prefix_value(m, k) <= prefix_value(m, n),
    decreases n - k,
{
    if k < n {
        lemma_prefix_monotone(m, k, n - 1);
    }
}

proof fn lemma_prefix_zero_tail(m: Seq<char>, k: int, n: int)
    requires
        m.len() <= k <= n,
        prefix_value(m, k) == 0,
    ensures
        prefix_value(m, n) == 0,
    decreases n - k,
{
    if k < n {
        lemma_prefix_zero_tail(m, k, n - 1);
    }
}

/// End of the run of digits that starts at `from`.
fn scan_digits(t: &Vec<char>, from: usize) -> (r: usize)
    requires
        from <= t@.len(),
    ensures
        from <= r <= t@.len(),
        r as int == digits_end(t@, from as int),
        forall|k: int| from <= k < r ==> is_digit(#[trigger] t@[k]),
{
    let mut k: usize = from;
    while k < t.len() && is_digit_exec(t[k])
        invariant
            from <= k <= t@.len(),
            digits_end(t@, k as int) == digits_end(t@, from as int),
            forall|i: int| from <= i < k ==> is_digit(#[trigger] t@[i]),
        decreases t.len() - k,
    {
        k += 1;
    }
    k
}

/// The value of the digits from `from` up to `to`, held to `EXPONENT_CAP`.
fn digits_capped(t: &Vec<char>, from: usize, to: usize) -> (r: u128)
    requires
        from <= to <= t@.len(),
        forall|k: int| from <= k < to ==> is_digit(#[trigger] t@[k]),
    ensures
        r as int == capped(digits_value(t@.subrange(from as int, to as int)), EXPONENT_CAP as int),
{
    let mut r: u128 = 0;
    let mut k: usize = from;
    proof {
        assert(t@.subrange(from as int, from as int) =~= Seq::<char>::empty());
    }
    while k < to
        invariant
            from <= k <= to <= t@.len(),
            forall|i: int| from <= i < to ==> is_digit(#[trigger] t@[i]),
            r as int == capped(digits_value(t@.subrange(from as int, k as int)), EXPONENT_CAP as int),
        decreases to - k,
    {
        proof {
            lemma_digits_step(t@, from as int, k as int);
        }
        assert(is_digit(t@[k as int]));
        let d = (t[k] as u32 - 48) as u128;
        if r < EXPONENT_CAP {
            r = r * 10 + d;
            if r > EXPONENT_CAP {
                r = EXPONENT_CAP;
            }
        }
        k += 1;
    }
    r
}

/// The value of the first `shift` digits of `m` (padded with zeros), held
/// to `MAGNITUDE_CAP`; past `m`'s digits by eleven, the same for any longer
/// shift.
fn shifted_magnitude(m: &Vec<char>, shift: i128) -> (r: u64)
    requires
        forall|i: int| 0 <= i < m@.len() ==> is_digit(#[trigger] m@[i]),
    ensures
        r as int == capped(prefix_value(m@, shift as int), MAGNITUDE_CAP as int),
        forall|n: int|
            n >= shift && shift >= m@.len() + 11 ==> r as int == capped(
                #[trigger] prefix_value(m@, n),
                MAGNITUDE_CAP as int,
            ),
{
    let ml = m.len() as u128;
    let mut mag: u64 = 0;
    let mut k: u128 = 0;
    while (k as i128) < shift && k < ml + 11 && mag < MAGNITUDE_CAP
        invariant
            ml == m@.len(),
            ml <= usize::MAX,
            forall|i: int| 0 <= i < m@.len() ==> is_digit(#[trigger] m@[i]),
            k <= ml + 11,
            k == 0 || k as int <= shift,
            mag as int == capped(prefix_value(m@, k as int), MAGNITUDE_CAP as int),
            (k >= ml && 0 < mag && mag < MAGNITUDE_CAP) ==> mag as int >= pow10(k - ml),
        decreases ml + 11 - k,
    {
        let d: u64 = if k < ml {
            assert(is_digit(m@[k as int]));
            (m[k as usize] as u32 - 48) as u64
        } else {
            0
        };
        assert(d as int == digit_at(m@, k as int));
        mag = mag * 10 + d;
        if mag > MAGNITUDE_CAP {
            mag = MAGNITUDE_CAP;
        }
        k += 1;
    }
    proof {
        lemma_pow10_eleven();
        if mag >= MAGNITUDE_CAP {
            assert forall|n: int| n >= shift implies capped(
                #[trigger] prefix_value(m@, n),
                MAGNITUDE_CAP as int,
            ) == MAGNITUDE_CAP as int by {
                lemma_prefix_monotone(m@, k as int, n);
            }
            lemma_prefix_monotone(m@, k as int, shift as int);
        } else if (k as i128) < shift {
            assert(k == ml + 11);
            assert(mag == 0);
            assert forall|n: int| n >= shift implies prefix_value(m@, n) == 0 by {
                lemma_prefix_zero_tail(m@, k as int, n);
            }
            lemma_prefix_zero_tail(m@, k as int, shift as int);
        } else {
            if shift >= ml + 11 {
                assert(k == ml + 11);
                assert(mag == 0);
                assert forall|n: int| n >= shift implies prefix_value(m@, n) == 0 by {
                    lemma_prefix_zero_tail(m@, k as int, n);
                }
            }
        }
    }
    mag
}

/// Reads a JSON number, truncated toward zero and held to `i32`.
#[verifier::rlimit(80)]
pub fn read_number(t: &Vec<char>) -> (r: Option<i32>)
    ensures
        match r {
            Some(v) => is_number(t@) && v == truncate_i32(t@),
            None => !is_number(t@),
        },
{
    let n = t.len();
    let a: usize = if n > 0 && t[0] == '-' {
        1
    } else {
        0
    };
    let b = scan_digits(t, a);
    if b == a || (t[a] == '0' && b != a + 1) {
        return None;
    }
    let mut m = slice(t, a, b);
    let mut c = b;
    if b < n && t[b] == '.' {
        let f = scan_digits(t, b + 1);
        if f == b + 1 {
            return None;
        }
        let mut frac = slice(t, b + 1, f);
        m.append(&mut frac);
        c = f;
    }
    assert(c as int == mantissa_end(t@));
    assert(m@ =~= mantissa(t@));
    let mut e: i128 = 0;
    let ghost saturated = false;
    if c < n {
        if !(t[c] == 'e' || t[c] == 'E') {
            return None;
        }
        let sl: usize = if c + 1 < n && (t[c + 1] == '+' || t[c + 1] == '-') {
            1
        } else {
            0
        };
        let d = c + 1 + sl;
        if d >= n {
            return None;
        }
        let end = scan_digits(t, d);
        if end != n {
            return None;
        }
        let ev = digits_capped(t, d, n);
        proof {
            saturated = ev == EXPONENT_CAP;
        }
        e = if sl == 1 && t[c + 1] == '-' {
            -(ev as i128)
        } else {
            ev as i128
        };
    }
    assert(is_number(t@));
    let shift: i128 = (b - a) as i128 + e;
    assert(!saturated ==> shift as int == point_shift(t@));
    assert(saturated ==> (shift < 0 && point_shift(t@) <= 0) || (shift as int <= point_shift(t@)
        && shift >= m@.len() + 11));
    let mag = shifted_magnitude(&m, shift);
    proof {
        if saturated && shift < 0 {
            assert(prefix_value(m@, point_shift(t@)) == 0);
        }
    }
    assert(mag as int == capped(integer_magnitude(t@), MAGNITUDE_CAP as int));
    if a == 1 {
        if mag >= MAGNITUDE_CAP {
            Some(i32::MIN)
        } else {
            Some(-(mag as i32))
        }
    } else {
        if mag >= 2147483647 {
            Some(i32::MAX)
        } else {
            Some(mag as i32)
        }
    }
}

/// Reads an array text `[n, n, ...]` of decimal numbers, each truncated.
pub fn read_number_array(s: &Vec<char>) -> (r: Option<Vec<i32>>)
    ensures
        match number_array(s@) {
            Some(ns) => r matches Some(v) && v@ == ns,
            None => r is None,
        },
{
    let t = json_trim_chars(s);
    let n = t.len();
    if n < 2 || t[0] != '[' || t[n - 1] != ']' {
        return None;
    }
    let inner = slice(&t, 1, n - 1);
    if json_trim_chars(&inner).len() == 0 {
        return Some(Vec::new());
    }
    let comma: Vec<char> = vec![','];
    proof {
        assert(comma@ =~= seq![',']);
    }
    let pieces = split_chars(&inner, &comma);
    let ghost toks = split(inner@, seq![',']).map_values(|p: Seq<char>| json_trim(p));
    let mut out: Vec<i32> = Vec::new();
    let mut i: usize = 0;
    while i < pieces.len()
        invariant
            t@ == json_trim(s@),
            n == t@.len(),
            n >= 2 && t@[0] == '[' && t@.last() == ']',
            inner@ == t@.subrange(1, n - 1),
            json_trim(inner@).len() != 0,
            toks == split(inner@, seq![',']).map_values(|p: Seq<char>| json_trim(p)),
            i <= pieces@.len(),
            toks.len() == pieces@.len(),
            forall|j: int| 0 <= j < toks.len() ==> #[trigger] toks[j] == json_trim(pieces@[j]@),
            forall|j: int| 0 <= j < i ==> is_number(#[trigger] toks[j]),
            out@ == toks.subrange(0, i as int).map_values(|p: Seq<char>| truncate_i32(p)),
        decreases pieces.len() - i,
    {
        let tok = json_trim_chars(&pieces[i]);
        assert(tok@ == toks[i as int]);
        match read_number(&tok) {
            Some(v) => {
                out.push(v);
            },
            None => {
                assert(!is_number(toks[i as int]));
                return None;
            },
        }
        i += 1;
        proof {
            assert(out@ =~= toks.subrange(0, i as int).map_values(|p: Seq<char>| truncate_i32(p)));
        }
    }
    proof {
        assert(toks.subrange(0, i as int) =~= toks);
    }
    Some(out)
}

/// Reads the leading point of a box text.
pub fn read_box_point(s: &Vec<char>) -> (r: Option<(i32, i32)>)
    ensures
        r == box_point(s@),
{
    match read_number_array(s) {
        Some(ns) => if ns.len() >= 2 {
            Some((ns[0], ns[1]))
        } else {
            None
        },
        None => None,
    }
}

/// Reads the leading point of a box text, which serde_json must accept too.
pub fn read_json_box_point(s: &str) -> (r: Option<(i32, i32)>)
    ensures
        r == json_box_point(s@),
{
    if !parses_as_json(s) {
        return None;
    }
    read_box_point(&to_chars(s))
}

/// Reads an unsigned count as `str::parse::<u64>` does.
pub fn read_u64(s: &Vec<char>) -> (r: Option<u64>)
    ensures
        r == parse_u64(s@),
{
    let n = s.len();
    let a: usize = if n > 0 && s[0] == '+' {
        1
    } else {
        0
    };
    if n <= a {
        return None;
    }
    let mut b: usize = a;
    let mut value: u64 = 0;
    proof {
        assert(s@.subrange(a as int, a as int) =~= Seq::<char>::empty());
    }
    while b < n
        invariant
            n == s@.len(),
            a <= b <= n,
            a == (if s@.len() > 0 && s@[0] == '+' {
                1int
            } else {
                0int
            }),
            digits_end(s@, b as int) == digits_end(s@, a as int),
            value as int == digits_value(s@.subrange(a as int, b as int)),
        decreases n - b,
    {
        if !is_digit_exec(s[b]) {
            assert(digits_end(s@, b as int) == b);
            return None;
        }
        proof {
            lemma_digits_step(s@, a as int, b as int);
        }
        let d = (s[b] as u32 - 48) as u64;
        if value > (u64::MAX - d) / 10 {
            proof {
                let m = u64::MAX - d;
                assert(value * 10 + d > u64::MAX) by (nonlinear_arith)
                    requires
                        value > m / 10,
                        m == u64::MAX - d,
                        0 <= d <= 9,
                ;
                lemma_digits_grow(s@, a as int, b + 1);
            }
            return None;
        }
        value = value * 10 + d;
        b += 1;
    }
    Some(value)
}

/// Digits appended after a prefix never make its value smaller.
proof fn lemma_digits_grow(s: Seq<char>, a: int, b: int)
    requires
        0 <= a <= b <= s.len(),
    ensures
        digits_value(s.subrange(a, s.len() as int)) >= digits_value(s.subrange(a, b)),
    decreases s.len() - b,
{
    if b < s.len() {
        lemma_digits_step(s, a, b);
        lemma_digits_grow(s, a, b + 1);
    }
}

} // verus!
