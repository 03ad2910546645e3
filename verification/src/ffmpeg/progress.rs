//! Reading times out of ffmpeg's and ffprobe's text output.
//!
//! A time is written as a number of seconds, `[+|-]digits[.digits]` with at
//! least one digit, optionally followed by an exponent `e[+|-]digits` (or
//! `E`); it is read into whole nanoseconds, digits below a nanosecond
//! dropped. Infinities and NaN have no value in nanoseconds and read as none.

use vstd::prelude::*;
use crate::scan::{
    split_seq, split_chars, first_occurrence, occurs_at, find_chars, first_word, first_word_chars,
    trim_seq, trim_chars,
};
use crate::text::chars_of;

verus! {

pub open spec fn is_digit(c: char) -> bool {
    '0' <= c && c <= '9'
}

pub open spec fn only_digits(s: Seq<char>) -> bool {
    forall|i: int| 0 <= i < s.len() ==> is_digit(#[trigger] s[i])
}

/// The number a run of decimal digits denotes.
pub open spec fn digits_value(s: Seq<char>) -> int
    decreases s.len(),
{
    if s.len() == 0 {
        0
    } else {
        digits_value(s.drop_last()) * 10 + ((s.last() as int) - 48)
    }
}

pub open spec fn pow10(n: nat) -> int
    decreases n,
{
    if n == 0 {
        1
    } else {
        10 * pow10((n - 1) as nat)
    }
}

/// Fractional digits read as nanoseconds, digits past the ninth dropped.
pub open spec fn frac_nanos(f: Seq<char>) -> int {
    if f.len() >= 9 {
        digits_value(f.take(9))
    } else {
        digits_value(f) * pow10((9 - f.len()) as nat)
    }
}

/// The text after an optional sign.
pub open spec fn unsigned_part(s: Seq<char>) -> Seq<char> {
    if s.len() > 0 && (s[0] == '-' || s[0] == '+') {
        s.drop_first()
    } else {
        s
    }
}

pub open spec fn is_negative(s: Seq<char>) -> bool {
    s.len() > 0 && s[0] == '-'
}

/// `body` is digits, a point at `p`, and digits.
pub open spec fn point_at(body: Seq<char>, p: int) -> bool {
    &&& 0 <= p < body.len()
    &&& body[p] == '.'
    &&& only_digits(body.take(p))
    &&& only_digits(body.skip(p + 1))
}

/// The magnitude, in nanoseconds, that an unsigned decimal number of seconds denotes.
pub open spec fn magnitude_ns(body: Seq<char>) -> Option<int> {
    if body.len() > 0 && only_digits(body) {
        Some(digits_value(body) * 1_000_000_000)
    } else if body.len() >= 2 && exists|p: int| point_at(body, p) {
        let p = choose|p: int| point_at(body, p);
        Some(digits_value(body.take(p)) * 1_000_000_000 + frac_nanos(body.skip(p + 1)))
    } else {
        None
    }
}

pub open spec fn is_exp_mark(c: char) -> bool {
    c == 'e' || c == 'E'
}

/// `x` is where the first exponent mark of `body` stands.
pub open spec fn exp_at(body: Seq<char>, x: int) -> bool {
    &&& 0 <= x < body.len()
    &&& is_exp_mark(body[x])
    &&& forall|i: int| 0 <= i < x ==> !is_exp_mark(#[trigger] body[i])
}

/// The integer an exponent `[+|-]digits` denotes.
pub open spec fn exponent_value(t: Seq<char>) -> Option<int> {
    let u = unsigned_part(t);
    if u.len() > 0 && only_digits(u) {
        Some(
            if is_negative(t) {
                -digits_value(u)
            } else {
                digits_value(u)
            },
        )
    } else {
        None
    }
}

/// The digits of a mantissa (digits, or digits around a point with at least
/// one digit), together with how many of them follow the point.
pub open spec fn mantissa_digits(m: Seq<char>) -> Option<(Seq<char>, int)> {
    if m.len() > 0 && only_digits(m) {
        Some((m, 0))
    } else if m.len() >= 2 && exists|p: int| point_at(m, p) {
        let p = choose|p: int| point_at(m, p);
        Some((m.take(p) + m.skip(p + 1), m.len() - p - 1))
    } else {
        None
    }
}

/// The number the digits `d` denote times ten to the `k`, the digits that
/// fall below the units dropped.
pub open spec fn scaled_digits(d: Seq<char>, k: int) -> int {
    if k >= 0 {
        digits_value(d) * pow10(k as nat)
    } else if -k >= d.len() {
        0
    } else {
        digits_value(d.take(d.len() + k))
    }
}

/// The magnitude, in nanoseconds, of an unsigned number of seconds that may
/// carry an exponent: the mantissa's digits scaled by the exponent.
pub open spec fn number_ns(body: Seq<char>) -> Option<int> {
    if exists|x: int| exp_at(body, x) {
        let x = choose|x: int| exp_at(body, x);
        match (mantissa_digits(body.take(x)), exponent_value(body.skip(x + 1))) {
            (Some(md), Some(e)) => Some(scaled_digits(md.0, e + 9 - md.1)),
            _ => None,
        }
    } else {
        magnitude_ns(body)
    }
}

/// The nanoseconds that a number of seconds denotes, if it is one.
pub open spec fn seconds_ns(s: Seq<char>) -> Option<int> {
    match number_ns(unsigned_part(s)) {
        Some(m) => Some(
            if is_negative(s) {
                -m
            } else {
                m
            },
        ),
        None => None,
    }
}

pub open spec fn fits_i64(v: int) -> bool {
    i64::MIN <= v <= i64::MAX
}

/// A decimal number of seconds as nanoseconds, when it is one and fits an `i64`.
pub open spec fn parsed_seconds(s: Seq<char>) -> Option<i64> {
    match seconds_ns(s) {
        Some(v) => if fits_i64(v) {
            Some(v as i64)
        } else {
            None
        },
        None => None,
    }
}

proof fn lemma_digits_value_nonneg(s: Seq<char>)
    requires
        only_digits(s),
    ensures
        digits_value(s) >= 0,
    decreases s.len(),
{
    if s.len() > 0 {
        lemma_digits_value_nonneg(s.drop_last());
    }
}

proof fn lemma_point_unique(body: Seq<char>, p: int, q: int)
    requires
        point_at(body, p),
        point_at(body, q),
    ensures
        p == q,
{
    if p < q {
        assert(body.take(q)[p] == body[p]);
        assert(is_digit(body.take(q)[p]));
    } else if q < p {
        assert(body.take(p)[q] == body[q]);
        assert(is_digit(body.take(p)[q]));
    }
}

proof fn lemma_pow10_small(n: nat)
    requires
        n <= 9,
    ensures
        1 <= pow10(n) <= 1_000_000_000,
        n == 9 ==> pow10(n) == 1_000_000_000,
{
    reveal_with_fuel(pow10, 10);
}

/// The digits of a character slice `s[lo..hi]`, read while they are digits.
/// Returns where the run stops and its value; a value above `cap` is
/// reported as `None`.
fn read_digits(s: &Vec<char>, lo: usize, cap: u64) -> (r: (usize, Option<u64>))
    requires
        lo <= s@.len(),
        cap <= 1_000_000_000_000_000,
    ensures
        lo <= r.0 <= s@.len(),
        only_digits(s@.subrange(lo as int, r.0 as int)),
        r.0 < s@.len() ==> !is_digit(s@[r.0 as int]),
        r.1 matches Some(v) ==> v == digits_value(s@.subrange(lo as int, r.0 as int)) && v <= cap,
        r.1 is None ==> digits_value(s@.subrange(lo as int, r.0 as int)) > cap,
{
    let mut j = lo;
    let mut val: Option<u64> = Some(0);
    while j < s.len() && '0' <= s[j] && s[j] <= '9'
        invariant
            lo <= j <= s@.len(),
            cap <= 1_000_000_000_000_000,
            only_digits(s@.subrange(lo as int, j as int)),
            val matches Some(v) ==> v == digits_value(s@.subrange(lo as int, j as int)) && v
                <= cap,
            val is None ==> digits_value(s@.subrange(lo as int, j as int)) > cap,
        decreases s.len() - j,
    {
        let c = s[j];
        let d = (c as u32 - 48) as u64;
        proof {
            let pre = s@.subrange(lo as int, j as int);
            let post = s@.subrange(lo as int, j + 1);
            assert(post.drop_last() =~= pre);
            assert(post.last() == c);
            assert(only_digits(post)) by {
                assert forall|i: int| 0 <= i < post.len() implies is_digit(#[trigger] post[i]) by {
                    if i < pre.len() {
                        assert(post[i] == pre[i]);
                    }
                }
            }
            lemma_digits_value_nonneg(pre);
        }
        val = match val {
            Some(v) => {
                if v * 10 + d <= cap {
                    Some(v * 10 + d)
                } else {
                    None
                }
            },
            None => None,
        };
        j = j + 1;
    }
    (j, val)
}

/// Fractional digits `s[lo..hi]` read as nanoseconds.
fn frac_value(s: &Vec<char>, lo: usize, hi: usize) -> (f: u64)
    requires
        lo <= hi <= s@.len(),
        only_digits(s@.subrange(lo as int, hi as int)),
    ensures
        f == frac_nanos(s@.subrange(lo as int, hi as int)),
        f < 1_000_000_000,
{
    let ghost frac = s@.subrange(lo as int, hi as int);
    let fk: usize = if hi - lo >= 9 {
        lo + 9
    } else {
        hi
    };
    let mut f: u64 = 0;
    let mut q: usize = lo;
    while q < fk
        invariant
            lo <= q <= fk <= hi <= s@.len(),
            fk - lo <= 9,
            frac == s@.subrange(lo as int, hi as int),
            only_digits(frac),
            f == digits_value(s@.subrange(lo as int, q as int)),
            f < pow10((q - lo) as nat),
        decreases fk - q,
    {
        let c = s[q];
        proof {
            let pre = s@.subrange(lo as int, q as int);
            let post = s@.subrange(lo as int, q + 1);
            assert(post.drop_last() =~= pre);
            assert(frac[q - lo] == c);
            lemma_pow10_small((q - lo) as nat);
            lemma_pow10_small((q + 1 - lo) as nat);
        }
        f = f * 10 + (c as u32 - 48) as u64;
        q = q + 1;
    }
    let mut pad: usize = fk - lo;
    let ghost fd = f;
    proof {
        reveal_with_fuel(pow10, 2);
        assert(pow10(0) == 1);
        assert(fd * 1 == fd);
    }
    while pad < 9
        invariant
            fk - lo <= pad <= 9,
            fd < pow10((fk - lo) as nat),
            f == fd * pow10((pad - (fk - lo)) as nat),
            f < pow10(pad as nat),
        decreases 9 - pad,
    {
        proof {
            lemma_pow10_small(pad as nat);
            lemma_pow10_small((pad + 1) as nat);
            let a = pow10((pad - (fk - lo)) as nat);
            assert(pow10(((pad + 1) - (fk - lo)) as nat) == 10 * a);
            assert(f * 10 == fd * (10 * a)) by (nonlinear_arith)
                requires
                    f == fd * a,
            ;
        }
        f = f * 10;
        pad = pad + 1;
    }
    proof {
        lemma_pow10_small(9);
        if hi - lo >= 9 {
            assert(frac.take(9) =~= s@.subrange(lo as int, fk as int));
        } else {
            assert(frac =~= s@.subrange(lo as int, fk as int));
        }
    }
    f
}

/// A body of digits, a point, and digits has that point as its only one.
proof fn lemma_point_case(body: Seq<char>, p: int)
    requires
        point_at(body, p),
        body.len() >= 2,
    ensures
        magnitude_ns(body) == Some(
            digits_value(body.take(p)) * 1_000_000_000 + frac_nanos(body.skip(p + 1)),
        ),
{
    assert(!only_digits(body)) by {
        assert(body[p] == '.');
    }
    assert forall|q: int| point_at(body, q) implies q == p by {
        lemma_point_unique(body, p, q);
    }
}

/// Digits up to `j`, then a character that is neither a digit nor a point:
/// not a number.
proof fn lemma_stray_char(body: Seq<char>, j: int)
    requires
        0 <= j < body.len(),
        only_digits(body.take(j)),
        !is_digit(body[j]),
        body[j] != '.',
    ensures
        magnitude_ns(body) is None,
{
    assert(!only_digits(body));
    assert forall|p: int| !point_at(body, p) by {
        if point_at(body, p) {
            if p < j {
                assert(body.take(j)[p] == body[p]);
            } else if p > j {
                assert(body.take(p)[j] == body[j]);
            }
        }
    }
}

/// Digits, a point at `j`, digits up to `k`, then a non-digit: not a number.
proof fn lemma_stray_after_point(body: Seq<char>, j: int, k: int)
    requires
        0 <= j < k < body.len(),
        only_digits(body.take(j)),
        body[j] == '.',
        !is_digit(body[k]),
    ensures
        magnitude_ns(body) is None,
{
    assert(!only_digits(body)) by {
        assert(!is_digit(body[j]));
    }
    assert forall|p: int| !point_at(body, p) by {
        if point_at(body, p) {
            if p < j {
                assert(body.take(j)[p] == body[p]);
            } else if p > j {
                assert(body.take(p)[j] == body[j]);
            } else {
                assert(body.skip(p + 1)[k - j - 1] == body[k]);
            }
        }
    }
}

/// Reads the magnitude of the unsigned number `s[b..]`; `None` also when it
/// is at least 10^20 nanoseconds.
fn read_magnitude(s: &Vec<char>, b: usize) -> (r: Option<u128>)
    requires
        b <= s@.len(),
    ensures
        r matches Some(m) ==> magnitude_ns(s@.skip(b as int)) == Some(m as int) && m
            < 200_000_000_000_000_000_000,
        r is None ==> match magnitude_ns(s@.skip(b as int)) {
            Some(m) => m >= 100_000_000_000_000_000_000,
            None => true,
        },
{
    let n = s.len();
    let ghost body = s@.skip(b as int);
    let (j, int_val) = read_digits(s, b, 100_000_000_000);
    let ghost int_part = s@.subrange(b as int, j as int);
    assert(int_part =~= body.take(j - b));
    proof {
        lemma_digits_value_nonneg(int_part);
    }
    if j == n {
        if j == b {
            assert(magnitude_ns(body) is None) by {
                assert(body.len() == 0);
            }
            return None;
        }
        assert(body =~= int_part);
        return match int_val {
            Some(v) => Some(v as u128 * 1_000_000_000),
            None => None,
        };
    }
    if s[j] != '.' {
        proof {
            assert(body[j - b] == s@[j as int]);
            lemma_stray_char(body, j - b);
        }
        return None;
    }
    let (k, _rest) = read_digits(s, j + 1, 0);
    if k != n {
        proof {
            assert(body[k - b] == s@[k as int]);
            lemma_stray_after_point(body, j - b, k - b);
        }
        return None;
    }
    if j == b && k == j + 1 {
        proof {
            assert(body.len() == 1);
        }
        return None;
    }
    let ghost frac = s@.subrange(j + 1, k as int);
    proof {
        assert(body.take(j - b) =~= int_part);
        assert(body.skip(j - b + 1) =~= frac);
        assert(point_at(body, j - b));
        lemma_point_case(body, j - b);
    }
    let f = frac_value(s, j + 1, k);
    match int_val {
        Some(v) => Some(v as u128 * 1_000_000_000 + f as u128),
        None => None,
    }
}

proof fn lemma_pow10_pos(n: nat)
    ensures
        pow10(n) >= 1,
    decreases n,
{
    if n > 0 {
        lemma_pow10_pos((n - 1) as nat);
    }
}

proof fn lemma_pow10_mono(a: nat, b: nat)
    requires
        a <= b,
    ensures
        pow10(a) <= pow10(b),
    decreases b - a,
{
    if a < b {
        lemma_pow10_mono(a, (b - 1) as nat);
        lemma_pow10_pos((b - 1) as nat);
    }
}

proof fn lemma_pow10_upto(n: nat)
    requires
        n <= 19,
    ensures
        pow10(n) <= 10_000_000_000_000_000_000,
{
    lemma_pow10_mono(n, 19);
    reveal_with_fuel(pow10, 20);
}

proof fn lemma_pow10_big(n: nat)
    requires
        n >= 20,
    ensures
        pow10(n) >= 100_000_000_000_000_000_000,
    decreases n,
{
    if n == 20 {
        reveal_with_fuel(pow10, 21);
    } else {
        lemma_pow10_big((n - 1) as nat);
        lemma_pow10_pos((n - 1) as nat);
    }
}

/// The characters `s[lo..hi]`.
fn copy_range(s: &Vec<char>, lo: usize, hi: usize) -> (r: Vec<char>)
    requires
        lo <= hi <= s@.len(),
    ensures
        r@ == s@.subrange(lo as int, hi as int),
{
    let mut r: Vec<char> = Vec::new();
    let mut i = lo;
    while i < hi
        invariant
            lo <= i <= hi <= s@.len(),
            r@ == s@.subrange(lo as int, i as int),
        decreases hi - i,
    {
        r.push(s[i]);
        i = i + 1;
        assert(r@ =~= s@.subrange(lo as int, i as int));
    }
    r
}

/// Like `read_digits`, with room for values up to 10^20.
fn read_digits_wide(s: &Vec<char>, lo: usize, cap: u128) -> (r: (usize, Option<u128>))
    requires
        lo <= s@.len(),
        cap <= 100_000_000_000_000_000_000,
    ensures
        lo <= r.0 <= s@.len(),
        only_digits(s@.subrange(lo as int, r.0 as int)),
        r.0 < s@.len() ==> !is_digit(s@[r.0 as int]),
        r.1 matches Some(v) ==> v == digits_value(s@.subrange(lo as int, r.0 as int)) && v <= cap,
        r.1 is None ==> digits_value(s@.subrange(lo as int, r.0 as int)) > cap,
{
    let mut j = lo;
    let mut val: Option<u128> = Some(0);
    while j < s.len() && '0' <= s[j] && s[j] <= '9'
        invariant
            lo <= j <= s@.len(),
            cap <= 100_000_000_000_000_000_000,
            only_digits(s@.subrange(lo as int, j as int)),
            val matches Some(v) ==> v == digits_value(s@.subrange(lo as int, j as int)) && v
                <= cap,
            val is None ==> digits_value(s@.subrange(lo as int, j as int)) > cap,
        decreases s.len() - j,
    {
        let c = s[j];
        let d = (c as u32 - 48) as u128;
        proof {
            let pre = s@.subrange(lo as int, j as int);
            let post = s@.subrange(lo as int, j + 1);
            assert(post.drop_last() =~= pre);
            assert(post.last() == c);
            assert(only_digits(post)) by {
                assert forall|i: int| 0 <= i < post.len() implies is_digit(#[trigger] post[i]) by {
                    if i < pre.len() {
                        assert(post[i] == pre[i]);
                    }
                }
            }
            lemma_digits_value_nonneg(pre);
        }
        val = match val {
            Some(v) => {
                if v * 10 + d <= cap {
                    Some(v * 10 + d)
                } else {
                    None
                }
            },
            None => None,
        };
        j = j + 1;
    }
    (j, val)
}

proof fn lemma_mantissa_point(m: Seq<char>, p: int)
    requires
        point_at(m, p),
        m.len() >= 2,
    ensures
        mantissa_digits(m) == Some((m.take(p) + m.skip(p + 1), m.len() - p - 1)),
{
    assert(!only_digits(m)) by {
        assert(m[p] == '.');
    }
    assert forall|q: int| point_at(m, q) implies q == p by {
        lemma_point_unique(m, p, q);
    }
}

/// The digits of a mantissa and how many follow its point.
fn read_mantissa(m: &Vec<char>) -> (r: Option<(Vec<char>, usize)>)
    ensures
        mantissa_digits(m@) is None ==> r is None,
        mantissa_digits(m@) matches Some(md) ==> (r matches Some(x) && x.0@ == md.0 && x.1 as int
            == md.1 && only_digits(x.0@)),
{
    let n = m.len();
    let (j, _iv) = read_digits(m, 0, 0);
    assert(m@.subrange(0, j as int) =~= m@.take(j as int));
    if j == n {
        if n == 0 {
            return None;
        }
        assert(m@.take(n as int) =~= m@);
        return Some((copy_range(m, 0, n), 0));
    }
    if m[j] != '.' {
        proof {
            lemma_stray_char(m@, j as int);
        }
        return None;
    }
    let (k, _fv) = read_digits(m, j + 1, 0);
    if k != n {
        proof {
            lemma_stray_after_point(m@, j as int, k as int);
        }
        return None;
    }
    if j == 0 && k == 1 {
        return None;
    }
    proof {
        assert(m@.skip(j + 1) =~= m@.subrange(j + 1, k as int));
        assert(point_at(m@, j as int));
        lemma_mantissa_point(m@, j as int);
    }
    let mut d = copy_range(m, 0, j);
    let mut rest = copy_range(m, j + 1, n);
    d.append(&mut rest);
    proof {
        let dd = m@.take(j as int) + m@.skip(j + 1);
        assert(d@ =~= dd);
        assert forall|i: int| 0 <= i < dd.len() implies is_digit(#[trigger] dd[i]) by {
            if i < j {
                assert(dd[i] == m@.take(j as int)[i]);
            } else {
                assert(dd[i] == m@.skip(j + 1)[i - j]);
            }
        }
    }
    Some((d, n - j - 1))
}

/// The sign and digits of an exponent `s[lo..]`; the digits' value is kept
/// when it is at most 10^20.
fn read_exponent(s: &Vec<char>, lo: usize) -> (r: Option<(bool, Option<u128>)>)
    requires
        lo <= s@.len(),
    ensures
        exponent_value(s@.skip(lo as int)) is None <==> r is None,
        r matches Some(x) ==> {
            let t = s@.skip(lo as int);
            let dv = digits_value(unsigned_part(t));
            &&& x.0 == is_negative(t)
            &&& exponent_value(t) == Some(
                if x.0 {
                    -dv
                } else {
                    dv
                },
            )
            &&& dv >= 0
            &&& (x.1 matches Some(v) ==> v == dv && v <= 100_000_000_000_000_000_000)
            &&& (x.1 is None ==> dv > 100_000_000_000_000_000_000)
        },
{
    let n = s.len();
    let ghost t = s@.skip(lo as int);
    let signed = lo < n && (s[lo] == '-' || s[lo] == '+');
    let neg = lo < n && s[lo] == '-';
    let u0: usize = if signed {
        lo + 1
    } else {
        lo
    };
    assert(unsigned_part(t) =~= s@.skip(u0 as int));
    let (j, val) = read_digits_wide(s, u0, 100_000_000_000_000_000_000);
    if j != n || j == u0 {
        proof {
            if j != n {
                assert(unsigned_part(t)[j - u0] == s@[j as int]);
            }
        }
        return None;
    }
    assert(s@.subrange(u0 as int, j as int) =~= unsigned_part(t));
    proof {
        lemma_digits_value_nonneg(unsigned_part(t));
    }
    Some((neg, val))
}

/// Reads the magnitude of the unsigned number `s[b..]`, which may carry an
/// exponent; `None` also when it is above 2^63 nanoseconds.
fn read_number(s: &Vec<char>, b: usize) -> (r: Option<u128>)
    requires
        b <= s@.len(),
    ensures
        r matches Some(m) ==> number_ns(s@.skip(b as int)) == Some(m as int) && m
            < 200_000_000_000_000_000_000,
        r is None ==> match number_ns(s@.skip(b as int)) {
            Some(m) => m > 9_223_372_036_854_775_808,
            None => true,
        },
{
    let n = s.len();
    let ghost body = s@.skip(b as int);
    let mut x = b;
    while x < n && !(s[x] == 'e' || s[x] == 'E')
        invariant
            b <= x <= n,
            n == s@.len(),
            forall|i: int| b <= i < x ==> !is_exp_mark(#[trigger] s@[i]),
        decreases n - x,
    {
        x = x + 1;
    }
    if x == n {
        proof {
            assert forall|y: int| !exp_at(body, y) by {
                if exp_at(body, y) {
                    assert(body[y] == s@[b + y]);
                }
            }
        }
        return read_magnitude(s, b);
    }
    let ghost xb = x - b;
    proof {
        assert forall|i: int| 0 <= i < xb implies !is_exp_mark(#[trigger] body[i]) by {
            assert(body[i] == s@[b + i]);
        }
        assert(body[xb] == s@[x as int]);
        assert(exp_at(body, xb));
        assert forall|y: int| exp_at(body, y) implies y == xb by {
            if y < xb {
                assert(body[y] == s@[b + y]);
            } else if y > xb {
                assert(!is_exp_mark(body[xb]));
            }
        }
    }
    let mant = copy_range(s, b, x);
    assert(mant@ =~= body.take(xb));
    assert(s@.skip(x + 1) =~= body.skip(xb + 1));
    let (digits, f) = match read_mantissa(&mant) {
        Some(v) => v,
        None => {
            return None;
        },
    };
    let (neg, mag) = match read_exponent(s, x + 1) {
        Some(v) => v,
        None => {
            return None;
        },
    };
    let ghost dd = digits@;
    let ghost dv = digits_value(unsigned_part(s@.skip(x + 1)));
    let ghost e: int = if neg {
        -dv
    } else {
        dv
    };
    let ghost k: int = e + 9 - f;
    assert(number_ns(body) == Some(scaled_digits(dd, k)));
    let (dj, dcap) = read_digits_wide(&digits, 0, 9_223_372_036_854_775_808);
    assert(dj == digits@.len());
    assert(digits@.subrange(0, dj as int) =~= dd);
    proof {
        lemma_digits_value_nonneg(dd);
    }
    match mag {
        None => {
            if neg {
                assert(-k >= dd.len());
                return Some(0);
            } else {
                assert(f <= usize::MAX);
                assert(k > 20);
                match dcap {
                    Some(dv0) => {
                        if dv0 == 0 {
                            assert(digits_value(dd) == 0);
                            assert(digits_value(dd) * pow10(k as nat) == 0) by (nonlinear_arith)
                                requires
                                    digits_value(dd) == 0,
                            ;
                            assert(scaled_digits(dd, k) == 0);
                            return Some(0);
                        }
                        proof {
                            lemma_pow10_big(k as nat);
                            assert(digits_value(dd) * pow10(k as nat) >= pow10(k as nat)) by (
                            nonlinear_arith)
                                requires
                                    digits_value(dd) >= 1,
                                    pow10(k as nat) >= 0,
                            ;
                        }
                        return None;
                    },
                    None => {
                        proof {
                            lemma_pow10_pos(k as nat);
                            assert(digits_value(dd) * pow10(k as nat) >= digits_value(dd)) by (
                            nonlinear_arith)
                                requires
                                    digits_value(dd) >= 0,
                                    pow10(k as nat) >= 1,
                            ;
                        }
                        return None;
                    },
                }
            }
        },
        Some(ev) => {
            let kk: i128 = (if neg {
                -(ev as i128)
            } else {
                ev as i128
            }) + 9 - f as i128;
            assert(kk == k);
            if kk >= 0 {
                match dcap {
                    None => {
                        proof {
                            lemma_pow10_pos(k as nat);
                            assert(digits_value(dd) * pow10(k as nat) >= digits_value(dd)) by (
                            nonlinear_arith)
                                requires
                                    digits_value(dd) >= 0,
                                    pow10(k as nat) >= 1,
                            ;
                        }
                        return None;
                    },
                    Some(dv0) => {
                        if dv0 == 0 {
                            assert(digits_value(dd) == 0);
                            assert(digits_value(dd) * pow10(k as nat) == 0) by (nonlinear_arith)
                                requires
                                    digits_value(dd) == 0,
                            ;
                            assert(scaled_digits(dd, k) == 0);
                            return Some(0);
                        }
                        if kk > 19 {
                            proof {
                                lemma_pow10_big(k as nat);
                                assert(digits_value(dd) * pow10(k as nat) >= pow10(k as nat)) by (
                                nonlinear_arith)
                                    requires
                                        digits_value(dd) >= 1,
                                        pow10(k as nat) >= 0,
                                ;
                            }
                            return None;
                        }
                        let mut acc: u128 = dv0;
                        let mut i: i128 = 0;
                        while i < kk
                            invariant
                                0 <= i <= kk <= 19,
                                1 <= dv0 <= 9_223_372_036_854_775_808,
                                acc == dv0 * pow10(i as nat),
                            decreases kk - i,
                        {
                            proof {
                                lemma_pow10_upto((i + 1) as nat);
                                assert(pow10((i + 1) as nat) == 10 * pow10(i as nat));
                                assert(dv0 * pow10((i + 1) as nat) <= 9_223_372_036_854_775_808
                                    * 10_000_000_000_000_000_000) by (nonlinear_arith)
                                    requires
                                        1 <= dv0 <= 9_223_372_036_854_775_808,
                                        pow10((i + 1) as nat) <= 10_000_000_000_000_000_000,
                                ;
                                assert(acc * 10 == dv0 * pow10((i + 1) as nat)) by (nonlinear_arith)
                                    requires
                                        acc == dv0 * pow10(i as nat),
                                        pow10((i + 1) as nat) == 10 * pow10(i as nat),
                                ;
                            }
                            acc = acc * 10;
                            i = i + 1;
                        }
                        if acc > 9_223_372_036_854_775_808 {
                            return None;
                        }
                        return Some(acc);
                    },
                }
            } else {
                let mm: i128 = -kk;
                if mm >= digits.len() as i128 {
                    return Some(0);
                }
                let keep: usize = digits.len() - mm as usize;
                let pre = copy_range(&digits, 0, keep);
                assert(pre@ =~= dd.take(dd.len() + k));
                let (pj, pv) = read_digits_wide(&pre, 0, 9_223_372_036_854_775_808);
                assert(pj == pre@.len()) by {
                    if pj < pre@.len() {
                        assert(pre@[pj as int] == dd[pj as int]);
                    }
                }
                assert(pre@.subrange(0, pj as int) =~= pre@);
                return pv;
            }
        },
    }
}

/// Reads a decimal number of seconds into nanoseconds (see the module
/// documentation); `None` when the text is not such a number or the value
/// does not fit an `i64`.
pub fn parse_seconds(s: &Vec<char>) -> (r: Option<i64>)
    ensures
        r == parsed_seconds(s@),
{
    let n = s.len();
    let signed = n > 0 && (s[0] == '-' || s[0] == '+');
    let b: usize = if signed {
        1
    } else {
        0
    };
    let neg = n > 0 && s[0] == '-';
    assert(unsigned_part(s@) =~= s@.skip(b as int));
    let total = match read_number(s, b) {
        Some(t) => t,
        None => {
            return None;
        },
    };
    if neg {
        if total > 9_223_372_036_854_775_808u128 {
            return None;
        }
        if total == 9_223_372_036_854_775_808u128 {
            return Some(i64::MIN);
        }
        Some(-(total as i64))
    } else {
        if total > 9_223_372_036_854_775_807u128 {
            return None;
        }
        Some(total as i64)
    }
}

/// Hours, minutes and seconds `H:M:S` (each a decimal number, pieces past the
/// third ignored) as nanoseconds.
pub open spec fn ffmpeg_time_ns(raw: Seq<char>) -> Option<i64> {
    let parts = split_seq(raw, ':');
    if parts.len() < 3 {
        None
    } else {
        match (parsed_seconds(parts[0]), parsed_seconds(parts[1]), parsed_seconds(parts[2])) {
            (Some(h), Some(m), Some(s)) => {
                let t = h * 3600 + m * 60 + s;
                if fits_i64(t) {
                    Some(t as i64)
                } else {
                    None
                }
            },
            _ => None,
        }
    }
}

/// Reads ffmpeg's `HH:MM:SS.ss` clock into nanoseconds.
pub fn parse_ffmpeg_time_to_seconds(raw: &str) -> (r: Option<i64>)
    ensures
        r == ffmpeg_time_ns(raw@),
{
    let chars = chars_of(raw);
    parse_time_chars(&chars)
}

fn parse_time_chars(raw: &Vec<char>) -> (r: Option<i64>)
    ensures
        r == ffmpeg_time_ns(raw@),
{
    let parts = split_chars(raw, ':');
    if parts.len() < 3 {
        return None;
    }
    let h = match parse_seconds(&parts[0]) {
        Some(v) => v,
        None => {
            return None;
        },
    };
    let m = match parse_seconds(&parts[1]) {
        Some(v) => v,
        None => {
            return None;
        },
    };
    let s = match parse_seconds(&parts[2]) {
        Some(v) => v,
        None => {
            return None;
        },
    };
    let t: i128 = h as i128 * 3600 + m as i128 * 60 + s as i128;
    if t < i64::MIN as i128 || t > i64::MAX as i128 {
        return None;
    }
    Some(t as i64)
}

/// What a progress line reports: the clock after its first `time=`.
pub open spec fn progress_time_ns(line: Seq<char>) -> Option<i64> {
    if exists|i: int| occurs_at(line, "time="@, i) {
        let i = choose|i: int| first_occurrence(line, "time="@, i);
        let value = trim_seq(first_word(line.skip(i + 5)));
        if value.len() == 0 {
            None
        } else {
            ffmpeg_time_ns(value)
        }
    } else {
        None
    }
}

/// The time that an ffmpeg progress line reports after `time=`, in nanoseconds.
pub fn extract_time_seconds(line: &str) -> (r: Option<i64>)
    ensures
        r == progress_time_ns(line@),
{
    let chars = chars_of(line);
    let marker = chars_of("time=");
    proof {
        reveal_strlit("time=");
    }
    assert(marker@.len() == 5);
    let at = match find_chars(&chars, &marker) {
        Some(i) => i,
        None => {
            return None;
        },
    };
    proof {
        assert forall|i: int| first_occurrence(chars@, "time="@, i) implies i == at by {
            if i < at {
            } else if at < i {
            }
        }
    }
    let total = chars.len();
    assert(at + 5 <= total);
    let mut after: Vec<char> = Vec::new();
    let mut k: usize = at + 5;
    while k < chars.len()
        invariant
            at + 5 <= k <= chars@.len(),
            after@ == chars@.subrange(at + 5, k as int),
        decreases chars.len() - k,
    {
        after.push(chars[k]);
        k = k + 1;
        assert(after@ =~= chars@.subrange(at + 5, k as int));
    }
    assert(after@ =~= chars@.skip(at + 5));
    let word = first_word_chars(&after);
    let value = trim_chars(&word);
    if value.len() == 0 {
        return None;
    }
    parse_time_chars(&value)
}

} // verus!
