use vstd::arithmetic::power::{lemma_pow_adds, lemma_pow_increases, lemma_pow_positive, pow};
use vstd::prelude::*;

use crate::limit::lemma_limit_digits_value;

verus! {

pub open spec fn is_digit(c: char) -> bool {
    '0' <= c && c <= '9'
}

/// How many decimal digits follow one another from position `i` on.
pub open spec fn digits_len(s: Seq<char>, i: int) -> nat
    decreases s.len() - i,
{
    if i < 0 || i >= s.len() || !is_digit(s[i]) {
        0
    } else {
        1 + digits_len(s, i + 1)
    }
}

/// Where the digits of an exponent start, when its `e` or `E` stands at
/// position `j`: after the sign, if there is one.
pub open spec fn exponent_start(s: Seq<char>, j: int) -> int {
    if j + 1 < s.len() && (s[j + 1] == '+' || s[j + 1] == '-') {
        j + 2
    } else {
        j + 1
    }
}

/// Whether an exponent (`e` or `E`, an optional sign, one digit or more) runs
/// from position `j` to the end of `s`.
pub open spec fn is_exponent_at(s: Seq<char>, j: int) -> bool {
    let k = exponent_start(s, j);
    &&& 0 <= j < s.len()
    &&& (s[j] == 'e' || s[j] == 'E')
    &&& digits_len(s, k) > 0
    &&& k + digits_len(s, k) == s.len()
}

/// The end of the integer digits that open a numeral.
pub open spec fn int_end(s: Seq<char>) -> int {
    digits_len(s, 0) as int
}

/// The end of the integer digits, the point and the fraction digits.
pub open spec fn mantissa_end(s: Seq<char>) -> int {
    let a = int_end(s);
    if a < s.len() && s[a] == '.' {
        a + 1 + digits_len(s, a + 1)
    } else {
        a
    }
}

/// Whether `s` is written as a decimal numeral that starts with a digit:
/// digits, then optionally a point and more digits, then optionally an
/// exponent.
pub open spec fn is_decimal_numeral(s: Seq<char>) -> bool {
    int_end(s) > 0 && (mantissa_end(s) == s.len() || is_exponent_at(s, mantissa_end(s)))
}

/// The integer and fraction digits of a numeral, without the point.
pub open spec fn mantissa_digits(s: Seq<char>) -> Seq<char> {
    let a = int_end(s);
    let j = mantissa_end(s);
    if j > a {
        s.subrange(0, a) + s.subrange(a + 1, j)
    } else {
        s.subrange(0, a)
    }
}

/// The number of fraction digits of a numeral.
pub open spec fn fraction_len(s: Seq<char>) -> int {
    let a = int_end(s);
    let j = mantissa_end(s);
    if j > a {
        j - a - 1
    } else {
        0
    }
}

/// The exponent of a numeral, 0 where it has none.
pub open spec fn exponent_value(s: Seq<char>) -> int {
    let j = mantissa_end(s);
    if j >= s.len() {
        0
    } else {
        let v = digits_value(s.subrange(exponent_start(s, j), s.len() as int));
        if j + 1 < s.len() && s[j + 1] == '-' {
            -v
        } else {
            v
        }
    }
}

pub open spec fn pos_part(x: int) -> nat {
    if x > 0 {
        x as nat
    } else {
        0
    }
}

/// Whether the value `m * 10^scale`, where `m` is the integer that the digits
/// `m` write, is below 2^1024 - 2^970.
pub open spec fn below_f64_limit(m: Seq<char>, scale: int) -> bool {
    digits_value(m) * pow(10, pos_part(scale)) < f64_limit() * pow(10, pos_part(-scale))
}

/// Whether `s` is a decimal numeral, starting with a digit, that reads as a
/// finite 64-bit float: its value is below 2^1024 - 2^970, from which on a
/// 64-bit float rounds to infinity.
pub open spec fn is_float_numeral(s: Seq<char>) -> bool {
    &&& is_decimal_numeral(s)
    &&& below_f64_limit(mantissa_digits(s), exponent_value(s) - fraction_len(s))
}

proof fn lemma_digits_len_bound(s: Seq<char>, i: int)
    requires
        0 <= i <= s.len(),
    ensures
        i + digits_len(s, i) <= s.len(),
        forall|j: int| i <= j < i + digits_len(s, i) ==> is_digit(#[trigger] s[j]),
    decreases s.len() - i,
{
    if i < s.len() && is_digit(s[i]) {
        lemma_digits_len_bound(s, i + 1);
    }
}

/// The position after the digits that start at position `i`.
fn skip_digits(s: &Vec<char>, i: usize) -> (r: usize)
    requires
        i <= s.len(),
    ensures
        r == i + digits_len(s@, i as int),
        r <= s.len(),
{
    proof {
        lemma_digits_len_bound(s@, i as int);
    }
    let mut k: usize = i;
    while k < s.len() && '0' <= s[k] && s[k] <= '9'
        invariant
            i <= k <= s.len(),
            digits_len(s@, i as int) == (k - i) + digits_len(s@, k as int),
        decreases s.len() - k,
    {
        k = k + 1;
    }
    k
}

/// Exponents from this magnitude on make every numeral with a nonzero digit
/// either infinite or finite, whatever its length.
const EXPONENT_CAP: i128 = 73786976294838206464;

/// The value of the digits from position `k` to the end, or `EXPONENT_CAP`
/// or more where that value is at least as large.
fn exponent_magnitude(s: &Vec<char>, k: usize) -> (r: i128)
    requires
        k <= s.len(),
        forall|j: int| k <= j < s.len() ==> is_digit(#[trigger] s@[j]),
    ensures
        0 <= r,
        r < EXPONENT_CAP ==> r == digits_value(s@.subrange(k as int, s.len() as int)),
        r >= EXPONENT_CAP ==> digits_value(s@.subrange(k as int, s.len() as int)) >= EXPONENT_CAP,
{
    let mut r: i128 = 0;
    let mut i: usize = k;
    while i < s.len()
        invariant
            k <= i <= s.len(),
            forall|j: int| k <= j < s.len() ==> is_digit(#[trigger] s@[j]),
            0 <= r < EXPONENT_CAP * 10,
            r < EXPONENT_CAP ==> r == digits_value(s@.subrange(k as int, i as int)),
            r >= EXPONENT_CAP ==> digits_value(s@.subrange(k as int, i as int)) >= EXPONENT_CAP,
        decreases s.len() - i,
    {
        let ghost before = digits_value(s@.subrange(k as int, i as int));
        assert(s@.subrange(k as int, i + 1).drop_last() =~= s@.subrange(k as int, i as int));
        assert(is_digit(s@[i as int]));
        proof {
            lemma_all_digits_subrange(s@, k as int, i as int);
            lemma_value_bounds(s@.subrange(k as int, i as int));
        }
        if r < EXPONENT_CAP {
            r = r * 10 + (s[i] as u32 as i128 - 48);
        }
        i = i + 1;
    }
    r
}

/// The integer and fraction digits of a numeral whose integer digits end at
/// `a` and whose fraction digits end at `j`.
fn mantissa_of(run: &Vec<char>, a: usize, j: usize) -> (m: Vec<char>)
    requires
        a == int_end(run@),
        j == mantissa_end(run@),
        j <= run.len(),
    ensures
        m@ == mantissa_digits(run@),
{
    let mut m: Vec<char> = Vec::new();
    let mut i: usize = 0;
    while i < a
        invariant
            i <= a <= j <= run@.len(),
            m@ == run@.subrange(0, i as int),
        decreases a - i,
    {
        m.push(run[i]);
        i = i + 1;
        assert(m@ =~= run@.subrange(0, i as int));
    }
    if j > a {
        let mut i: usize = a + 1;
        while i < j
            invariant
                a + 1 <= i <= j <= run.len(),
                m@ == run@.subrange(0, a as int) + run@.subrange(a + 1, i as int),
            decreases j - i,
        {
            m.push(run[i]);
            i = i + 1;
            assert(m@ =~= run@.subrange(0, a as int) + run@.subrange(a + 1, i as int));
        }
    }
    assert(m@ =~= mantissa_digits(run@));
    m
}

/// Whether `run` reads as a finite 64-bit float.
pub fn is_number(run: &Vec<char>) -> (r: bool)
    ensures
        r == is_float_numeral(run@),
{
    let n = run.len();
    let a = skip_digits(run, 0);
    if a == 0 {
        return false;
    }
    let j = if a < n && run[a] == '.' {
        skip_digits(run, a + 1)
    } else {
        a
    };
    proof {
        lemma_digits_len_bound(run@, 0);
        if a < n && run@[a as int] == '.' {
            lemma_digits_len_bound(run@, a + 1);
        }
    }
    let mut e_mag: i128 = 0;
    let mut neg = false;
    if j < n {
        if run[j] != 'e' && run[j] != 'E' {
            return false;
        }
        let k = if j + 1 < n && (run[j + 1] == '+' || run[j + 1] == '-') {
            j + 2
        } else {
            j + 1
        };
        let e = skip_digits(run, k);
        if !(e > k && e == n) {
            return false;
        }
        proof {
            lemma_digits_len_bound(run@, k as int);
        }
        neg = j + 1 < n && run[j + 1] == '-';
        e_mag = exponent_magnitude(run, k);
    }
    let m = mantissa_of(run, a, j);
    let fraction = if j > a {
        j - a - 1
    } else {
        0
    };
    proof {
        assert forall|t: int| 0 <= t < m@.len() implies is_digit(#[trigger] m@[t]) by {
            if t < a {
                assert(m@[t] == run@[t]);
            } else {
                assert(m@[t] == run@[t + 1]);
            }
        }
    }
    below_limit(&m, fraction, e_mag, neg, Ghost(exponent_value(run@)))
}

/// The value of a decimal digit.
pub open spec fn digit_value(c: char) -> int {
    (c as u32) as int - 48
}

pub open spec fn all_digits(d: Seq<char>) -> bool {
    forall|j: int| 0 <= j < d.len() ==> is_digit(#[trigger] d[j])
}

/// The integer that a sequence of decimal digits writes.
pub open spec fn digits_value(d: Seq<char>) -> int
    decreases d.len(),
{
    if d.len() == 0 {
        0
    } else {
        digits_value(d.drop_last()) * 10 + digit_value(d.last())
    }
}

/// `n` zeros.
pub open spec fn zeros(n: int) -> Seq<char> {
    Seq::new(if n > 0 { n as nat } else { 0 }, |j: int| '0')
}

/// The decimal digits of `f64_limit()`.
pub open spec fn limit_digits() -> Seq<char> {
    seq!['1', '7', '9', '7', '6', '9', '3', '1', '3', '4', '8', '6', '2', '3', '1', '5', '8', '0', '7', '9', '3', '7', '2', '8', '9', '7', '1', '4', '0', '5', '3', '0', '3', '4', '1', '5', '0', '7', '9', '9', '3', '4', '1', '3', '2', '7', '1', '0', '0', '3', '7', '8', '2', '6', '9', '3', '6', '1', '7', '3', '7', '7', '8', '9', '8', '0', '4', '4', '4', '9', '6', '8', '2', '9', '2', '7', '6', '4', '7', '5', '0', '9', '4', '6', '6', '4', '9', '0', '1', '7', '9', '7', '7', '5', '8', '7', '2', '0', '7', '0', '9', '6', '3', '3', '0', '2', '8', '6', '4', '1', '6', '6', '9', '2', '8', '8', '7', '9', '1', '0', '9', '4', '6', '5', '5', '5', '5', '4', '7', '8', '5', '1', '9', '4', '0', '4', '0', '2', '6', '3', '0', '6', '5', '7', '4', '8', '8', '6', '7', '1', '5', '0', '5', '8', '2', '0', '6', '8', '1', '9', '0', '8', '9', '0', '2', '0', '0', '0', '7', '0', '8', '3', '8', '3', '6', '7', '6', '2', '7', '3', '8', '5', '4', '8', '4', '5', '8', '1', '7', '7', '1', '1', '5', '3', '1', '7', '6', '4', '4', '7', '5', '7', '3', '0', '2', '7', '0', '0', '6', '9', '8', '5', '5', '5', '7', '1', '3', '6', '6', '9', '5', '9', '6', '2', '2', '8', '4', '2', '9', '1', '4', '8', '1', '9', '8', '6', '0', '8', '3', '4', '9', '3', '6', '4', '7', '5', '2', '9', '2', '7', '1', '9', '0', '7', '4', '1', '6', '8', '4', '4', '4', '3', '6', '5', '5', '1', '0', '7', '0', '4', '3', '4', '2', '7', '1', '1', '5', '5', '9', '6', '9', '9', '5', '0', '8', '0', '9', '3', '0', '4', '2', '8', '8', '0', '1', '7', '7', '9', '0', '4', '1', '7', '4', '4', '9', '7', '7', '9', '2']
}

/// 2^1024 - 2^970: the least value that a 64-bit float rounds to infinity,
/// halfway between the largest finite float and 2^1024.
pub open spec fn f64_limit() -> int {
    pow(2, 1024) - pow(2, 970)
}

pub proof fn lemma_value_append(x: Seq<char>, y: Seq<char>)
    ensures
        digits_value(x + y) == digits_value(x) * pow(10, y.len()) + digits_value(y),
    decreases y.len(),
{
    if y.len() == 0 {
        assert(x + y =~= x);
        assert(pow(10, 0) == 1) by {
            reveal(pow);
        }
    } else {
        let y2 = y.drop_last();
        assert((x + y).drop_last() =~= x + y2);
        lemma_value_append(x, y2);
        assert(pow(10, y.len()) == 10 * pow(10, y2.len())) by {
            reveal(pow);
        }
        let a = digits_value(x);
        let b = digits_value(y2);
        let p = pow(10, y2.len());
        assert((a * p + b) * 10 == a * (10 * p) + b * 10) by (nonlinear_arith);
    }
}

proof fn lemma_value_bounds(x: Seq<char>)
    requires
        all_digits(x),
    ensures
        0 <= digits_value(x) < pow(10, x.len()),
    decreases x.len(),
{
    if x.len() == 0 {
        assert(pow(10, 0) == 1) by {
            reveal(pow);
        }
    } else {
        let x2 = x.drop_last();
        assert(all_digits(x2)) by {
            assert forall|j: int| 0 <= j < x2.len() implies is_digit(#[trigger] x2[j]) by {
                assert(x2[j] == x[j]);
            }
        }
        assert(is_digit(x[x.len() - 1]));
        lemma_value_bounds(x2);
        assert(pow(10, x.len()) == 10 * pow(10, x2.len())) by {
            reveal(pow);
        }
        let a = digits_value(x2);
        let p = pow(10, x2.len());
        let d = digit_value(x.last());
        assert(0 <= d <= 9);
        assert(a * 10 + d < 10 * p) by (nonlinear_arith)
            requires
                0 <= a < p,
                0 <= d <= 9,
        ;
    }
}

proof fn lemma_value_lower(x: Seq<char>)
    requires
        all_digits(x),
        x.len() >= 1,
        x[0] != '0',
    ensures
        digits_value(x) >= pow(10, (x.len() - 1) as nat),
{
    let h = x.subrange(0, 1);
    let r = x.subrange(1, x.len() as int);
    assert(h + r =~= x);
    lemma_value_append(h, r);
    assert(h.drop_last() =~= Seq::<char>::empty());
    assert(digits_value(Seq::<char>::empty()) == 0);
    assert(digits_value(h) == digit_value(x[0]));
    assert(all_digits(r)) by {
        assert forall|j: int| 0 <= j < r.len() implies is_digit(#[trigger] r[j]) by {
            assert(r[j] == x[j + 1]);
        }
    }
    lemma_value_bounds(r);
    lemma_pow_positive(10, r.len());
    let d = digit_value(x[0]);
    let p = pow(10, r.len());
    assert(d * p >= p) by (nonlinear_arith)
        requires
            d >= 1,
            p > 0,
    ;
}

proof fn lemma_zeros_value(n: int)
    ensures
        digits_value(zeros(n)) == 0,
        all_digits(zeros(n)),
    decreases n,
{
    if n > 0 {
        assert(zeros(n).drop_last() =~= zeros(n - 1));
        lemma_zeros_value(n - 1);
    } else {
        assert(zeros(n).len() == 0);
    }
}

/// Of two digit sequences of one length that agree before position `t`, the
/// one with the smaller digit at `t` has the smaller value.
proof fn lemma_value_lex(x: Seq<char>, y: Seq<char>, t: int)
    requires
        all_digits(x),
        all_digits(y),
        x.len() == y.len(),
        0 <= t < x.len(),
        x.subrange(0, t) == y.subrange(0, t),
        digit_value(x[t]) < digit_value(y[t]),
    ensures
        digits_value(x) < digits_value(y),
{
    let hx = x.subrange(0, t + 1);
    let hy = y.subrange(0, t + 1);
    let rx = x.subrange(t + 1, x.len() as int);
    let ry = y.subrange(t + 1, y.len() as int);
    assert(hx + rx =~= x);
    assert(hy + ry =~= y);
    lemma_value_append(hx, rx);
    lemma_value_append(hy, ry);
    assert(hx.drop_last() =~= x.subrange(0, t));
    assert(hy.drop_last() =~= y.subrange(0, t));
    assert(all_digits(rx)) by {
        assert forall|j: int| 0 <= j < rx.len() implies is_digit(#[trigger] rx[j]) by {
            assert(rx[j] == x[j + t + 1]);
        }
    }
    assert(all_digits(ry)) by {
        assert forall|j: int| 0 <= j < ry.len() implies is_digit(#[trigger] ry[j]) by {
            assert(ry[j] == y[j + t + 1]);
        }
    }
    lemma_value_bounds(rx);
    lemma_value_bounds(ry);
    let p = pow(10, rx.len());
    let vx = digits_value(hx);
    let vy = digits_value(hy);
    assert(vx + 1 <= vy);
    assert(vx * p + digits_value(rx) < vy * p + digits_value(ry)) by (nonlinear_arith)
        requires
            vx + 1 <= vy,
            0 <= digits_value(rx) < p,
            0 <= digits_value(ry),
    ;
}


proof fn lemma_all_digits_subrange(s: Seq<char>, lo: int, hi: int)
    requires
        0 <= lo <= hi <= s.len(),
        forall|j: int| lo <= j < hi ==> is_digit(#[trigger] s[j]),
    ensures
        all_digits(s.subrange(lo, hi)),
{
    assert forall|j: int| 0 <= j < hi - lo implies is_digit(#[trigger] s.subrange(lo, hi)[j]) by {
        assert(s.subrange(lo, hi)[j] == s[lo + j]);
    }
}

proof fn lemma_limit_shape()
    ensures
        limit_digits().len() == 309,
        all_digits(limit_digits()),
        digits_value(limit_digits()) == f64_limit(),
        pow(10, 308) <= f64_limit() < pow(10, 309),
{
    lemma_limit_digits_value();
    lemma_value_bounds(limit_digits());
    lemma_value_lower(limit_digits());
}

/// A sequence of digits followed by zeros, `n` characters in all.
pub open spec fn padded(x: Seq<char>, n: int) -> Seq<char> {
    x + zeros(n - x.len())
}

proof fn lemma_padded_value(x: Seq<char>, n: int)
    requires
        all_digits(x),
        x.len() <= n,
    ensures
        digits_value(padded(x, n)) == digits_value(x) * pow(10, (n - x.len()) as nat),
        all_digits(padded(x, n)),
        padded(x, n).len() == n,
{
    lemma_value_append(x, zeros(n - x.len()));
    lemma_zeros_value(n - x.len());
    let p = padded(x, n);
    assert forall|j: int| 0 <= j < p.len() implies is_digit(#[trigger] p[j]) by {
        if j < x.len() {
            assert(p[j] == x[j]);
        } else {
            assert(p[j] == zeros(n - x.len())[j - x.len()]);
        }
    }
}

/// A value written with `L` significant digits and scaled by `10^scale` is
/// below the limit where `L + scale <= 308`, and not below it where
/// `L + scale >= 310`.
proof fn lemma_magnitude(d: Seq<char>, scale: int)
    requires
        all_digits(d),
        d.len() >= 1,
        d[0] != '0',
    ensures
        d.len() + scale <= 308 ==> below_f64_limit(d, scale),
        d.len() + scale >= 310 ==> !below_f64_limit(d, scale),
{
    lemma_limit_shape();
    lemma_value_bounds(d);
    lemma_value_lower(d);
    let dv = digits_value(d);
    let l = d.len();
    let p = pos_part(scale);
    let q = pos_part(-scale);
    lemma_pow_positive(10, p);
    lemma_pow_positive(10, q);
    lemma_pow_adds(10, l, p);
    lemma_pow_adds(10, (l - 1) as nat, p);
    lemma_pow_adds(10, 308, q);
    lemma_pow_adds(10, 309, q);
    let pp = pow(10, p);
    let pq = pow(10, q);
    let lim = f64_limit();
    if l + scale <= 308 {
        lemma_pow_increases(10, l + p, 308 + q);
        let a = pow(10, l);
        let b = pow(10, 308);
        assert(dv * pp < a * pp) by (nonlinear_arith)
            requires
                dv < a,
                pp > 0,
        ;
        assert(b * pq <= lim * pq) by (nonlinear_arith)
            requires
                b <= lim,
                pq > 0,
        ;
    }
    if l + scale >= 310 {
        lemma_pow_increases(10, 309 + q, (l - 1) as nat + p);
        let a = pow(10, (l - 1) as nat);
        let b = pow(10, 309);
        assert(dv * pp >= a * pp) by (nonlinear_arith)
            requires
                dv >= a,
                pp > 0,
        ;
        assert(lim * pq < b * pq) by (nonlinear_arith)
            requires
                lim < b,
                pq > 0,
        ;
    }
}

/// The digits of the limit, in order.
fn limit_vec() -> (v: Vec<char>)
    ensures
        v@ == limit_digits(),
{
    let v = vec!['1', '7', '9', '7', '6', '9', '3', '1', '3', '4', '8', '6', '2', '3', '1', '5', '8', '0', '7', '9', '3', '7', '2', '8', '9', '7', '1', '4', '0', '5', '3', '0', '3', '4', '1', '5', '0', '7', '9', '9', '3', '4', '1', '3', '2', '7', '1', '0', '0', '3', '7', '8', '2', '6', '9', '3', '6', '1', '7', '3', '7', '7', '8', '9', '8', '0', '4', '4', '4', '9', '6', '8', '2', '9', '2', '7', '6', '4', '7', '5', '0', '9', '4', '6', '6', '4', '9', '0', '1', '7', '9', '7', '7', '5', '8', '7', '2', '0', '7', '0', '9', '6', '3', '3', '0', '2', '8', '6', '4', '1', '6', '6', '9', '2', '8', '8', '7', '9', '1', '0', '9', '4', '6', '5', '5', '5', '5', '4', '7', '8', '5', '1', '9', '4', '0', '4', '0', '2', '6', '3', '0', '6', '5', '7', '4', '8', '8', '6', '7', '1', '5', '0', '5', '8', '2', '0', '6', '8', '1', '9', '0', '8', '9', '0', '2', '0', '0', '0', '7', '0', '8', '3', '8', '3', '6', '7', '6', '2', '7', '3', '8', '5', '4', '8', '4', '5', '8', '1', '7', '7', '1', '1', '5', '3', '1', '7', '6', '4', '4', '7', '5', '7', '3', '0', '2', '7', '0', '0', '6', '9', '8', '5', '5', '5', '7', '1', '3', '6', '6', '9', '5', '9', '6', '2', '2', '8', '4', '2', '9', '1', '4', '8', '1', '9', '8', '6', '0', '8', '3', '4', '9', '3', '6', '4', '7', '5', '2', '9', '2', '7', '1', '9', '0', '7', '4', '1', '6', '8', '4', '4', '4', '3', '6', '5', '5', '1', '0', '7', '0', '4', '3', '4', '2', '7', '1', '1', '5', '5', '9', '6', '9', '9', '5', '0', '8', '0', '9', '3', '0', '4', '2', '8', '8', '0', '1', '7', '7', '9', '0', '4', '1', '7', '4', '4', '9', '7', '7', '9', '2'];
    assert(v@ =~= limit_digits());
    v
}

/// Whether `m * 10^(exponent - fraction)` is below the limit, where `m` is
/// the integer that the digits `m` write, and the exponent is `e_mag` with a
/// minus where `neg` holds, or one beyond `EXPONENT_CAP` with that sign.
fn below_limit(m: &Vec<char>, fraction: usize, e_mag: i128, neg: bool, Ghost(exponent): Ghost<int>) -> (r: bool)
    requires
        all_digits(m@),
        0 <= e_mag,
        e_mag < EXPONENT_CAP ==> exponent == if neg {
            -e_mag
        } else {
            e_mag as int
        },
        e_mag >= EXPONENT_CAP ==> if neg {
            exponent <= -EXPONENT_CAP
        } else {
            exponent >= EXPONENT_CAP
        },
    ensures
        r == below_f64_limit(m@, exponent - fraction),
{
    let ghost scale = exponent - fraction;
    let len = m.len();
    let mut z: usize = 0;
    while z < len && m[z] == '0'
        invariant
            z <= len == m@.len(),
            forall|j: int| 0 <= j < z ==> m@[j] == '0',
        decreases len - z,
    {
        z = z + 1;
    }
    let ghost d = m@.subrange(z as int, len as int);
    proof {
        assert(m@ =~= zeros(z as int) + d);
        lemma_value_append(zeros(z as int), d);
        lemma_zeros_value(z as int);
        lemma_all_digits_subrange(m@, z as int, len as int);
        lemma_limit_shape();
        lemma_pow_positive(10, pos_part(scale));
        lemma_pow_positive(10, pos_part(-scale));
    }
    if z == len {
        assert(d.len() == 0);
        assert(digits_value(d) == 0);
        proof {
            lemma_value_bounds(limit_digits());
            lemma_value_lower(limit_digits());
            lemma_pow_positive(10, 308);
            let pq = pow(10, pos_part(-scale));
            let lim = f64_limit();
            assert(lim * pq > 0) by (nonlinear_arith)
                requires
                    lim > 0,
                    pq > 0,
            ;
        }
        return true;
    }
    let sig = len - z;
    proof {
        lemma_magnitude(d, scale);
    }
    if e_mag >= EXPONENT_CAP {
        return neg;
    }
    let e: i128 = if neg {
        -e_mag
    } else {
        e_mag
    };
    let t: i128 = sig as i128 + e - fraction as i128;
    if t <= 308 {
        return true;
    }
    if t >= 310 {
        return false;
    }
    let limit = limit_vec();
    let total: usize = if sig <= 309 {
        309
    } else {
        sig
    };
    let ghost px = padded(d, total as int);
    let ghost py = padded(limit_digits(), total as int);
    proof {
        lemma_padded_value(d, total as int);
        lemma_padded_value(limit_digits(), total as int);
        assert(sig + scale == 309);
        if sig <= 309 {
            assert(pos_part(scale) == total - sig);
            assert(pos_part(-scale) == 0);
            assert(pow(10, 0) == 1) by {
                reveal(pow);
            }
        } else {
            assert(pos_part(scale) == 0);
            assert(pos_part(-scale) == total - 309);
            assert(pow(10, 0) == 1) by {
                reveal(pow);
            }
        }
        assert(below_f64_limit(m@, scale) == (digits_value(px) < digits_value(py)));
    }
    let mut i: usize = 0;
    while i < total
        invariant
            i <= total,
            z + sig == len == m@.len(),
            d == m@.subrange(z as int, len as int),
            limit@ == limit_digits(),
            px == padded(d, total as int),
            py == padded(limit_digits(), total as int),
            px.len() == total,
            py.len() == total,
            d.len() == sig,
            limit_digits().len() == 309,
            all_digits(px),
            all_digits(py),
            scale == exponent - fraction,
            below_f64_limit(m@, scale) == (digits_value(px) < digits_value(py)),
            forall|j: int| 0 <= j < i ==> px[j] == py[j],
        decreases total - i,
    {
        let x = if i < sig {
            m[z + i]
        } else {
            '0'
        };
        let y = if i < 309 {
            limit[i]
        } else {
            '0'
        };
        assert(x == px[i as int]);
        assert(y == py[i as int]);
        if x != y {
            proof {
                assert(px.subrange(0, i as int) =~= py.subrange(0, i as int));
                if x < y {
                    lemma_value_lex(px, py, i as int);
                } else {
                    lemma_value_lex(py, px, i as int);
                }
            }
            return x < y;
        }
        i = i + 1;
    }
    assert(px =~= py);
    false
}

} // verus!
