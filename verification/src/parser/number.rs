//! Numeric literals as the command line accepts them.
//!
//! The accepted text is the standard floating-point literal syntax: an
//! optional sign, then `inf`, `infinity` or `nan` (any letter case), or a
//! decimal number `digits[.digits][e[sign]digits]` with at least one digit
//! before or after the point. A finite literal denotes the exact rational
//! value `mantissa * 10^exponent`; a range check asks whether the f64
//! nearest that value (ties to even) lies between whole-number bounds,
//! which it decides exactly from the value's distance to each bound.
use vstd::prelude::*;
use vstd::arithmetic::div_mod::*;
use vstd::arithmetic::mul::*;
use crate::text::{
    eq_ignoring_ascii_case, chars_of, tail_eq_ignore_ascii_case, decimal_text, digit_char, int_text,
};
use crate::parser::binary::{two_to, half_gap, half_gap_of, compare_with_power_of_two, lemma_half_gap_range};
use crate::parser::digits::{
    is_digit, digit_value, all_digits, digits_value, pow10, lemma_pow10_positive,
    lemma_pow10_monotone, lemma_pow10_add, lemma_digits_push, lemma_digits_split,
    lemma_digits_bound, lemma_digits_zero, lemma_digits_lower_bound,
};

verus! {

/// End of the run of decimal digits that starts at `i`.
pub open spec fn run_end(s: Seq<char>, i: int) -> int
    decreases s.len() - i,
{
    if 0 <= i < s.len() && is_digit(s[i]) {
        run_end(s, i + 1)
    } else {
        i
    }
}

/// Length (0 or 1) of an optional sign at `i`.
pub open spec fn sign_len(s: Seq<char>, i: int) -> int {
    if 0 <= i < s.len() && (s[i] == '+' || s[i] == '-') {
        1
    } else {
        0
    }
}

pub open spec fn int_start(s: Seq<char>) -> int {
    sign_len(s, 0)
}

pub open spec fn int_end(s: Seq<char>) -> int {
    run_end(s, int_start(s))
}

pub open spec fn has_point(s: Seq<char>) -> bool {
    int_end(s) < s.len() && s[int_end(s)] == '.'
}

pub open spec fn frac_start(s: Seq<char>) -> int {
    if has_point(s) {
        int_end(s) + 1
    } else {
        int_end(s)
    }
}

pub open spec fn frac_end(s: Seq<char>) -> int {
    if has_point(s) {
        run_end(s, frac_start(s))
    } else {
        int_end(s)
    }
}

/// Where the digits of the exponent start, after `e` and its optional sign.
pub open spec fn exp_digits_start(s: Seq<char>) -> int {
    frac_end(s) + 1 + sign_len(s, frac_end(s) + 1)
}

pub open spec fn exponent_ok(s: Seq<char>) -> bool {
    let e = frac_end(s);
    ||| e == s.len()
    ||| {
        &&& e < s.len()
        &&& (s[e] == 'e' || s[e] == 'E')
        &&& exp_digits_start(s) < s.len()
        &&& run_end(s, exp_digits_start(s)) == s.len()
    }
}

/// A finite decimal literal: at least one digit, an optional point, and an
/// optional exponent, with nothing left over.
pub open spec fn is_finite_literal(s: Seq<char>) -> bool {
    &&& (int_end(s) - int_start(s)) + (frac_end(s) - frac_start(s)) > 0
    &&& exponent_ok(s)
}

pub open spec fn literal_negative(s: Seq<char>) -> bool {
    s.len() > 0 && s[0] == '-'
}

/// The literal's digits with the point removed.
pub open spec fn mantissa_digits(s: Seq<char>) -> Seq<char> {
    s.subrange(int_start(s), int_end(s)) + s.subrange(frac_start(s), frac_end(s))
}

pub open spec fn literal_mantissa(s: Seq<char>) -> nat {
    digits_value(mantissa_digits(s))
}

pub open spec fn exponent_negative(s: Seq<char>) -> bool {
    frac_end(s) + 1 < s.len() && s[frac_end(s) + 1] == '-'
}

pub open spec fn exponent_magnitude(s: Seq<char>) -> nat {
    if frac_end(s) >= s.len() {
        0
    } else {
        digits_value(s.subrange(exp_digits_start(s), s.len() as int))
    }
}

/// The power of ten the mantissa is scaled by.
pub open spec fn literal_exponent(s: Seq<char>) -> int {
    (if exponent_negative(s) {
        -exponent_magnitude(s)
    } else {
        exponent_magnitude(s) as int
    }) - (frac_end(s) - frac_start(s))
}

/// The literal without its sign.
pub open spec fn literal_body(s: Seq<char>) -> Seq<char> {
    s.skip(sign_len(s, 0))
}

pub open spec fn is_infinite_literal(s: Seq<char>) -> bool {
    ||| eq_ignoring_ascii_case(literal_body(s), seq!['i', 'n', 'f'])
    ||| eq_ignoring_ascii_case(
        literal_body(s),
        seq!['i', 'n', 'f', 'i', 'n', 'i', 't', 'y'],
    )
}

pub open spec fn is_nan_literal(s: Seq<char>) -> bool {
    eq_ignoring_ascii_case(literal_body(s), seq!['n', 'a', 'n'])
}

/// Text the command line reads as a number.
pub open spec fn is_number_literal(s: Seq<char>) -> bool {
    is_finite_literal(s) || is_infinite_literal(s) || is_nan_literal(s)
}

pub open spec fn signed(negative: bool, m: nat) -> int {
    if negative {
        -(m as int)
    } else {
        m as int
    }
}

/// `m * 10^e` as a whole number of `10^-places(e)` units.
pub open spec fn whole_of(m: nat, e: int) -> nat {
    if e >= 0 {
        m * pow10(e as nat)
    } else {
        m
    }
}

/// How many decimal places `m * 10^e` has.
pub open spec fn places(e: int) -> nat {
    if e >= 0 {
        0
    } else {
        (-e) as nat
    }
}

/// `(-1)^negative * m * 10^e >= c - 2^-p`, compared exactly.
pub open spec fn near_at_least(negative: bool, m: nat, e: int, c: int, p: nat) -> bool {
    signed(negative, whole_of(m, e)) * two_to(p) >= (c * two_to(p) - 1) * pow10(places(e))
}

/// `(-1)^negative * m * 10^e <= c + 2^-p`, compared exactly.
pub open spec fn near_at_most(negative: bool, m: nat, e: int, c: int, p: nat) -> bool {
    signed(negative, whole_of(m, e)) * two_to(p) <= (c * two_to(p) + 1) * pow10(places(e))
}

/// The literal is finite and the f64 nearest its exact value (ties to
/// even) lies in `low..=high`. The bounds are whole numbers below `2^52`
/// in magnitude, each an f64 with an even significand, so this is the
/// exact value lying within half the f64 gap below `low` and above
/// `high`, halfway points included.
pub open spec fn literal_in_range(s: Seq<char>, low: int, high: int) -> bool {
    &&& is_finite_literal(s)
    &&& near_at_least(
        literal_negative(s),
        literal_mantissa(s),
        literal_exponent(s),
        low,
        half_gap(low, false),
    )
    &&& near_at_most(
        literal_negative(s),
        literal_mantissa(s),
        literal_exponent(s),
        high,
        half_gap(high, true),
    )
}

/// Whole part of `m * 10^e`.
pub open spec fn floor_of(m: nat, e: int) -> nat {
    if e >= 0 {
        m * pow10(e as nat)
    } else {
        m / pow10((-e) as nat)
    }
}

/// `m * 10^e` is a whole number.
pub open spec fn exact_of(m: nat, e: int) -> bool {
    e >= 0 || m % pow10((-e) as nat) == 0
}

/// How a checked numeric argument relates to its allowed range.
#[derive(PartialEq, Eq, Structural, Clone, Copy, Debug)]
pub enum RangeCheck {
    NotANumber,
    OutOfRange,
    InRange,
}

/// `M * P <= (c * P + 1) * T`, with `M = F * T + R`, comes down to the
/// whole part `F` and, at the bound, `R * P <= T`.
proof fn lemma_near_below(m: nat, t: nat, p: nat, c: int)
    requires
        t >= 1,
        p >= 2,
    ensures
        (m * p <= (c * p + 1) * t) == ((m / t) < c || ((m / t) == c && (m % t) * p <= t)),
{
    let f = (m / t) as int;
    let r = (m % t) as int;
    lemma_fundamental_div_mod(m as int, t as int);
    lemma_mod_pos_bound(m as int, t as int);
    let mi = m as int;
    let ti = t as int;
    let pi = p as int;
    assert(mi == ti * f + r);
    if f < c {
        assert(mi * pi <= (c * pi + 1) * ti) by (nonlinear_arith)
            requires
                mi == ti * f + r,
                0 <= r < ti,
                f <= c - 1,
                pi >= 2,
                ti >= 1,
        ;
    } else if f == c {
        assert((mi * pi <= (c * pi + 1) * ti) == (r * pi <= ti)) by (nonlinear_arith)
            requires
                mi == ti * f + r,
                f == c,
        ;
    } else {
        assert(mi * pi > (c * pi + 1) * ti) by (nonlinear_arith)
            requires
                mi == ti * f + r,
                0 <= r,
                f >= c + 1,
                pi >= 2,
                ti >= 1,
        ;
    }
}

/// `M * P >= (c * P - 1) * T`, with `M = F * T + R`, comes down to the
/// whole part `F` and, just below the bound, `R * P >= (P - 1) * T`.
proof fn lemma_near_above(m: nat, t: nat, p: nat, c: int)
    requires
        t >= 1,
        p >= 2,
    ensures
        (m * p >= (c * p - 1) * t) == ((m / t) >= c || ((m / t) == c - 1 && (m % t) * p >= (p - 1)
            * t)),
{
    let f = (m / t) as int;
    let r = (m % t) as int;
    lemma_fundamental_div_mod(m as int, t as int);
    lemma_mod_pos_bound(m as int, t as int);
    let mi = m as int;
    let ti = t as int;
    let pi = p as int;
    assert(mi == ti * f + r);
    if f >= c {
        assert(mi * pi >= (c * pi - 1) * ti) by (nonlinear_arith)
            requires
                mi == ti * f + r,
                0 <= r,
                f >= c,
                pi >= 2,
                ti >= 1,
        ;
    } else if f == c - 1 {
        assert((mi * pi >= (c * pi - 1) * ti) == (r * pi >= (pi - 1) * ti)) by (nonlinear_arith)
            requires
                mi == ti * f + r,
                f == c - 1,
        ;
    } else {
        assert(mi * pi < (c * pi - 1) * ti) by (nonlinear_arith)
            requires
                mi == ti * f + r,
                0 <= r < ti,
                f <= c - 2,
                pi >= 2,
                ti >= 1,
        ;
    }
}

/// The range tests on a signed value, reduced to its whole part `F` and
/// the two comparisons of its fraction with `2^-p` and `1 - 2^-p`.
proof fn lemma_decide_near(negative: bool, m: nat, e: int, c: int, p: nat)
    requires
        two_to(p) >= 2,
    ensures
        ({
            let t = pow10(places(e));
            let w = whole_of(m, e);
            let f = w / t;
            let a = (w % t) * two_to(p) <= t;
            let b = (w % t) * two_to(p) >= (two_to(p) - 1) * t;
            &&& near_at_least(negative, m, e, c, p) == if !negative {
                f >= c || (f == c - 1 && b)
            } else {
                f < -c || (f == -c && a)
            }
            &&& near_at_most(negative, m, e, c, p) == if !negative {
                f < c || (f == c && a)
            } else {
                f >= -c || (f == -c - 1 && b)
            }
        }),
{
    let t = pow10(places(e));
    let w = whole_of(m, e);
    let pp = two_to(p);
    lemma_pow10_positive(places(e));
    lemma_near_below(w, t, pp, c);
    lemma_near_above(w, t, pp, c);
    lemma_near_below(w, t, pp, -c);
    lemma_near_above(w, t, pp, -c);
    if negative {
        assert(signed(negative, w) * pp == -((w * pp) as int)) by (nonlinear_arith)
            requires
                signed(negative, w) == -(w as int),
        ;
        assert(((-c) * pp + 1) * t == -((c * pp - 1) * t)) by (nonlinear_arith);
        assert(((-c) * pp - 1) * t == -((c * pp + 1) * t)) by (nonlinear_arith);
    } else {
        assert(signed(negative, w) * pp == (w * pp) as int);
    }
}

/// Ten to the nineteenth: every whole-number bound fits below it.
pub open spec fn huge() -> nat {
    10000000000000000000
}

proof fn lemma_pow10_19()
    ensures
        pow10(19) == huge(),
{
    reveal_with_fuel(pow10, 20);
}

/// A saturated exponent agrees with the true one, or both are far beyond
/// anything a digit string held in memory can offset.
pub open spec fn exponent_agrees(e: int, e_true: int) -> bool {
    ||| e == e_true
    ||| (e >= 0x8000_0000_0000_0000_0000 && e_true >= 0x8000_0000_0000_0000_0000)
    ||| (e <= -0x8000_0000_0000_0000_0000 && e_true <= -0x8000_0000_0000_0000_0000)
}

pub fn is_digit_char(c: char) -> (r: bool)
    ensures
        r == is_digit(c),
{
    '0' <= c && c <= '9'
}

fn digit_of(c: char) -> (r: u64)
    requires
        is_digit(c),
    ensures
        r == digit_value(c),
        r <= 9,
{
    let code: u32 = c as u32;
    (code - 48) as u64
}

/// Value of the digits `d[from..to]`, at most nineteen of them.
pub(crate) fn value_of_digits(d: &Vec<char>, from: usize, to: usize) -> (r: u64)
    requires
        from <= to <= d@.len(),
        to - from <= 19,
        all_digits(d@),
    ensures
        r == digits_value(d@.subrange(from as int, to as int)),
{
    let mut q: u64 = 0;
    let mut j: usize = from;
    while j < to
        invariant
            from <= j <= to <= d@.len(),
            to - from <= 19,
            all_digits(d@),
            q == digits_value(d@.subrange(from as int, j as int)),
            q < pow10((j - from) as nat),
        decreases to - j,
    {
        let c = d[j];
        assert(is_digit(d@[j as int]));
        let dv = digit_of(c);
        proof {
            lemma_pow10_monotone((j - from) as nat, 18);
            reveal_with_fuel(pow10, 19);
            assert(d@.subrange(from as int, j + 1) =~= d@.subrange(from as int, j as int).push(c));
            lemma_digits_push(d@.subrange(from as int, j as int), c);
            assert(pow10((j + 1 - from) as nat) == 10 * pow10((j - from) as nat));
        }
        q = q * 10 + dv;
        j = j + 1;
    }
    q
}

/// Whether `d[from..to]` is all zeros.
fn zeros_only(d: &Vec<char>, from: usize, to: usize) -> (r: bool)
    requires
        from <= to <= d@.len(),
    ensures
        r == (forall|i: int| from <= i < to ==> #[trigger] d@[i] == '0'),
{
    let mut j: usize = from;
    while j < to
        invariant
            from <= j <= to <= d@.len(),
            forall|i: int| from <= i < j ==> #[trigger] d@[i] == '0',
        decreases to - j,
    {
        if d[j] != '0' {
            return false;
        }
        j = j + 1;
    }
    true
}

/// Facts about `m = value(d)` once leading zeros up to `k` are set aside.
proof fn lemma_strip_zeros(d: Seq<char>, k: int)
    requires
        all_digits(d),
        0 <= k < d.len(),
        forall|i: int| 0 <= i < k ==> #[trigger] d[i] == '0',
        d[k] != '0',
    ensures
        digits_value(d) == digits_value(d.skip(k)),
        digits_value(d.skip(k)) >= pow10((d.len() - k - 1) as nat),
        digits_value(d.skip(k)) < pow10((d.len() - k) as nat),
        all_digits(d.skip(k)),
{
    let z = d.take(k);
    let dz = d.skip(k);
    assert(d =~= z + dz);
    assert(all_digits(z));
    assert(all_digits(dz)) by {
        assert forall|i: int| 0 <= i < dz.len() implies #[trigger] is_digit(dz[i]) by {
            assert(is_digit(d[i + k]));
        }
    }
    lemma_digits_zero(z);
    assert forall|i: int| 0 <= i < z.len() implies #[trigger] z[i] == '0' by {
        assert(d[i] == '0');
    }
    lemma_digits_split(z, dz);
    lemma_digits_lower_bound(dz);
    lemma_digits_bound(dz);
}

/// Splitting `dz` after `p` digits gives the whole part and remainder of
/// `value(dz) / 10^(len - p)`.
proof fn lemma_split_point(dz: Seq<char>, p: int)
    requires
        all_digits(dz),
        0 <= p <= dz.len(),
    ensures
        digits_value(dz) / pow10((dz.len() - p) as nat) == digits_value(dz.take(p)),
        digits_value(dz) % pow10((dz.len() - p) as nat) == digits_value(dz.skip(p)),
        all_digits(dz.take(p)),
        all_digits(dz.skip(p)),
{
    let a = dz.take(p);
    let b = dz.skip(p);
    assert(dz =~= a + b);
    assert(all_digits(a)) by {
        assert forall|i: int| 0 <= i < a.len() implies #[trigger] is_digit(a[i]) by {
            assert(is_digit(dz[i]));
        }
    }
    assert(all_digits(b)) by {
        assert forall|i: int| 0 <= i < b.len() implies #[trigger] is_digit(b[i]) by {
            assert(is_digit(dz[i + p]));
        }
    }
    lemma_digits_split(a, b);
    lemma_digits_bound(b);
    assert(b.len() == dz.len() - p);
    let t = pow10((dz.len() - p) as nat);
    lemma_pow10_positive((dz.len() - p) as nat);
    assert(digits_value(dz) == digits_value(a) * t + digits_value(b));
    lemma_fundamental_div_mod_converse(
        digits_value(dz) as int,
        t as int,
        digits_value(a) as int,
        digits_value(b) as int,
    );
}

/// Whole part and exactness of `value(d) * 10^e_true`, where `e` is the
/// exponent as held in memory. The first component reports a whole part
/// of at least ten to the nineteenth, too large to hold.
fn magnitude(d: &Vec<char>, e: i128, Ghost(e_true): Ghost<int>) -> (r: (bool, u64, bool))
    requires
        all_digits(d@),
        exponent_agrees(e as int, e_true),
        -0x1_0000_0000_0000_0000_0000_0000 < e < 0x1_0000_0000_0000_0000_0000_0000,
    ensures
        r.0 ==> floor_of(digits_value(d@), e_true) >= huge(),
        !r.0 ==> r.1 == floor_of(digits_value(d@), e_true) && r.2 == exact_of(
            digits_value(d@),
            e_true,
        ),
{
    let n = d.len();
    let mut k: usize = 0;
    while k < n && d[k] == '0'
        invariant
            k <= n == d@.len(),
            forall|i: int| 0 <= i < k ==> #[trigger] d@[i] == '0',
        decreases n - k,
    {
        k = k + 1;
    }
    let ghost m = digits_value(d@);
    if k == n {
        proof {
            lemma_digits_zero(d@);
            assert(m == 0);
            if e_true >= 0 {
                assert(0 * pow10(e_true as nat) == 0);
            } else {
                lemma_pow10_positive((-e_true) as nat);
                lemma_fundamental_div_mod_converse(0, pow10((-e_true) as nat) as int, 0, 0);
            }
        }
        return (false, 0, true);
    }
    let ghost dz = d@.skip(k as int);
    proof {
        lemma_strip_zeros(d@, k as int);
    }
    let nz: usize = n - k;
    let p: i128 = nz as i128 + e;
    if e >= 0 {
        if p > 19 {
            proof {
                assert(e_true >= 0 && nz + e_true >= 20);
                lemma_pow10_add((nz - 1) as nat, e_true as nat);
                lemma_pow10_monotone(19, (nz - 1 + e_true) as nat);
                lemma_pow10_19();
                let lo = pow10((nz - 1) as nat);
                let pe = pow10(e_true as nat);
                lemma_pow10_positive(e_true as nat);
                lemma_mul_inequality(lo as int, m as int, pe as int);
            }
            return (true, 0, false);
        }
        assert(e as int == e_true);
        let mut q: u64 = value_of_digits(d, k, n);
        assert(d@.subrange(k as int, n as int) =~= dz);
        let mut i: i128 = 0;
        proof {
            assert(pow10(0) == 1);
            assert(digits_value(dz) * 1 == digits_value(dz));
        }
        while i < e
            invariant
                0 <= i <= e,
                nz + e <= 19,
                q == digits_value(dz) * pow10(i as nat),
                q < pow10((nz + i) as nat),
            decreases e - i,
        {
            proof {
                lemma_pow10_monotone((nz + i) as nat, 18);
                reveal_with_fuel(pow10, 19);
                assert(pow10((i + 1) as nat) == 10 * pow10(i as nat));
                assert(pow10((nz + i + 1) as nat) == 10 * pow10((nz + i) as nat));
                let v = digits_value(dz);
                let pi = pow10(i as nat);
                assert(v * (10 * pi) == (v * pi) * 10) by (nonlinear_arith);
            }
            q = q * 10;
            i = i + 1;
        }
        proof {
            assert(m == digits_value(dz));
        }
        return (false, q, true);
    } else {
        if p <= 0 {
            proof {
                assert(e_true < 0 && nz + e_true <= 0);
                let t = (-e_true) as nat;
                lemma_pow10_monotone(nz as nat, t);
                lemma_pow10_positive((nz - 1) as nat);
                lemma_fundamental_div_mod_converse(m as int, pow10(t) as int, 0, m as int);
            }
            return (false, 0, false);
        }
        assert(e as int == e_true);
        let t: usize = (-e) as usize;
        let pu: usize = p as usize;
        assert(pu + t == nz);
        proof {
            lemma_split_point(dz, pu as int);
        }
        if p > 19 {
            proof {
                let a = dz.take(pu as int);
                assert(a[0] == dz[0]);
                lemma_digits_lower_bound(a);
                lemma_pow10_monotone(19, (pu - 1) as nat);
                lemma_pow10_19();
            }
            return (true, 0, false);
        }
        let q = value_of_digits(d, k, k + pu);
        let exact = zeros_only(d, k + pu, n);
        proof {
            assert(d@.subrange(k as int, (k + pu) as int) =~= dz.take(pu as int));
            let b = dz.skip(pu as int);
            lemma_digits_zero(b);
            if exact {
                assert forall|i: int| 0 <= i < b.len() implies #[trigger] b[i] == '0' by {
                    assert(d@[k + pu + i] == '0');
                }
            } else {
                if forall|i: int| 0 <= i < b.len() ==> #[trigger] b[i] == '0' {
                    assert forall|i: int| k + pu <= i < n implies #[trigger] d@[i] == '0' by {
                        assert(b[i - k - pu] == '0');
                    }
                }
            }
        }
        return (false, q, exact);
    }
}

/// End of the digit run in `v` starting at `from`.
fn scan_digits(v: &Vec<char>, from: usize) -> (r: usize)
    requires
        from <= v@.len(),
    ensures
        r == run_end(v@, from as int),
        from <= r <= v@.len(),
        forall|i: int| from <= i < r ==> #[trigger] is_digit(v@[i]),
{
    let n = v.len();
    let mut j: usize = from;
    while j < n && is_digit_char(v[j])
        invariant
            from <= j <= n == v@.len(),
            run_end(v@, from as int) == run_end(v@, j as int),
            forall|i: int| from <= i < j ==> #[trigger] is_digit(v@[i]),
        decreases n - j,
    {
        j = j + 1;
    }
    j
}

/// Largest exponent magnitude held exactly; anything larger is held as
/// one more than this.
pub open spec fn exponent_cap() -> nat {
    0x1_0000_0000_0000_0000_0000
}

/// Value of the digits `v[from..to]`, held exactly up to the cap.
fn saturated_value(v: &Vec<char>, from: usize, to: usize) -> (r: u128)
    requires
        from <= to <= v@.len(),
        all_digits(v@.subrange(from as int, to as int)),
    ensures
        digits_value(v@.subrange(from as int, to as int)) <= exponent_cap() ==> r == digits_value(
            v@.subrange(from as int, to as int),
        ),
        digits_value(v@.subrange(from as int, to as int)) > exponent_cap() ==> r == exponent_cap()
            + 1,
{
    let cap: u128 = 0x1_0000_0000_0000_0000_0000;
    let mut x: u128 = 0;
    let mut j: usize = from;
    while j < to
        invariant
            from <= j <= to <= v@.len(),
            cap == exponent_cap(),
            all_digits(v@.subrange(from as int, to as int)),
            digits_value(v@.subrange(from as int, j as int)) <= exponent_cap() ==> x
                == digits_value(v@.subrange(from as int, j as int)),
            digits_value(v@.subrange(from as int, j as int)) > exponent_cap() ==> x
                == exponent_cap() + 1,
        decreases to - j,
    {
        let c = v[j];
        assert(is_digit(v@.subrange(from as int, to as int)[j - from]));
        let dv = digit_of(c) as u128;
        proof {
            assert(v@.subrange(from as int, j + 1) =~= v@.subrange(from as int, j as int).push(c));
            lemma_digits_push(v@.subrange(from as int, j as int), c);
        }
        if x <= cap {
            let y = x * 10 + dv;
            if y <= cap {
                x = y;
            } else {
                x = cap + 1;
            }
        }
        j = j + 1;
    }
    x
}

/// Positions of the literal's parts: integer digits `v[i0..ie]`, fraction
/// digits `v[fs..fe]`, and whether the whole text is a finite literal.
pub(crate) fn layout(v: &Vec<char>) -> (r: (usize, usize, usize, usize, bool))
    ensures
        r.0 == int_start(v@),
        r.1 == int_end(v@),
        r.2 == frac_start(v@),
        r.3 == frac_end(v@),
        r.4 == is_finite_literal(v@),
        r.0 <= r.1 <= r.2 <= r.3 <= v@.len(),
{
    let ghost s = v@;
    let n = v.len();
    let i0: usize = if n > 0 && (v[0] == '+' || v[0] == '-') {
        1
    } else {
        0
    };
    let ie = scan_digits(v, i0);
    let point = ie < n && v[ie] == '.';
    let fs: usize = if point {
        ie + 1
    } else {
        ie
    };
    let fe: usize = if point {
        scan_digits(v, fs)
    } else {
        ie
    };
    assert(int_start(s) == i0 && int_end(s) == ie && has_point(s) == point);
    assert(frac_start(s) == fs && frac_end(s) == fe);
    let digit_count_ok = (ie - i0) + (fe - fs) > 0;
    let mut exp_ok = fe == n;
    if fe < n && (v[fe] == 'e' || v[fe] == 'E') {
        let ds: usize = if fe + 1 < n && (v[fe + 1] == '+' || v[fe + 1] == '-') {
            fe + 2
        } else {
            fe + 1
        };
        assert(ds == exp_digits_start(s));
        if ds < n {
            let de = scan_digits(v, ds);
            exp_ok = de == n;
        }
    }
    assert(exp_ok == exponent_ok(s));
    (i0, ie, fs, fe, digit_count_ok && exp_ok)
}

/// The mantissa digits of a finite literal, point removed.
pub(crate) fn mantissa_of(v: &Vec<char>, i0: usize, ie: usize, fs: usize, fe: usize) -> (md: Vec<char>)
    requires
        i0 == int_start(v@),
        ie == int_end(v@),
        fs == frac_start(v@),
        fe == frac_end(v@),
        i0 <= ie <= fs <= fe <= v@.len(),
    ensures
        md@ == mantissa_digits(v@),
        all_digits(md@),
{
    let ghost s = v@;
    let n = v.len();
    let mut md: Vec<char> = Vec::new();
    let mut j: usize = i0;
    while j < ie
        invariant
            i0 <= j <= ie <= n == s.len(),
            s == v@,
            md@ == s.subrange(i0 as int, j as int),
        decreases ie - j,
    {
        md.push(v[j]);
        j = j + 1;
        assert(md@ =~= s.subrange(i0 as int, j as int));
    }
    let mut j: usize = fs;
    while j < fe
        invariant
            fs <= j <= fe <= n == s.len(),
            s == v@,
            md@ == s.subrange(i0 as int, ie as int) + s.subrange(fs as int, j as int),
        decreases fe - j,
    {
        md.push(v[j]);
        j = j + 1;
        assert(md@ =~= s.subrange(i0 as int, ie as int) + s.subrange(fs as int, j as int));
    }
    proof {
        lemma_run_digits(s, i0 as int);
        if has_point(s) {
            lemma_run_digits(s, fs as int);
        }
    }
    assert(all_digits(md@)) by {
        assert forall|i: int| 0 <= i < md@.len() implies #[trigger] is_digit(md@[i]) by {
            if i < ie - i0 {
                assert(is_digit(s[i0 + i]));
            } else {
                assert(is_digit(s[fs + i - (ie - i0)]));
            }
        }
    }
    md
}

/// Every character from `i` up to the end of its digit run is a digit.
proof fn lemma_run_digits(s: Seq<char>, i: int)
    requires
        0 <= i <= s.len(),
    ensures
        i <= run_end(s, i) <= s.len(),
        forall|j: int| i <= j < run_end(s, i) ==> #[trigger] is_digit(s[j]),
    decreases s.len() - i,
{
    if i < s.len() && is_digit(s[i]) {
        lemma_run_digits(s, i + 1);
    }
}

/// A run of digits reaching the end of `s` ends there.
proof fn lemma_run_to_end(s: Seq<char>, i: int)
    requires
        0 <= i <= s.len(),
        forall|j: int| i <= j < s.len() ==> #[trigger] is_digit(s[j]),
    ensures
        run_end(s, i) == s.len(),
    decreases s.len() - i,
{
    if i < s.len() {
        lemma_run_to_end(s, i + 1);
    }
}

/// The decimal text of `n` is a non-empty string of digits worth `n`.
pub(crate) proof fn lemma_decimal_text(n: nat)
    ensures
        decimal_text(n).len() > 0,
        all_digits(decimal_text(n)),
        digits_value(decimal_text(n)) == n,
    decreases n,
{
    if n < 10 {
        let c = digit_char(n);
        assert(c as u32 == n + 48);
        assert(('0' as u32) == 48);
        assert(digit_value(c) == n);
        assert(decimal_text(n) == seq![c]);
        assert(seq![c].drop_last() =~= Seq::<char>::empty());
        assert(seq![c].last() == c);
        assert(digits_value(Seq::<char>::empty()) == 0);
        assert(digits_value(seq![c]) == digits_value(seq![c].drop_last()) * 10 + digit_value(c));
        assert(digits_value(seq![c]) == n);
    } else {
        lemma_decimal_text(n / 10);
        let head = decimal_text(n / 10);
        let c = digit_char(n % 10);
        assert(c as u32 == n % 10 + 48);
        assert(('0' as u32) == 48);
        assert(digit_value(c) == n % 10);
        lemma_digits_push(head, c);
        assert((n / 10) * 10 + n % 10 == n) by (nonlinear_arith);
        assert(decimal_text(n) == head.push(c));
        assert(digits_value(head.push(c)) == n);
        assert forall|i: int| 0 <= i < head.push(c).len() implies #[trigger] is_digit(
            head.push(c)[i],
        ) by {
            if i < head.len() {
                assert(head.push(c)[i] == head[i]);
            }
        }
    }
}

/// The text `d`, all digits, optionally after a sign, read as a literal.
pub(crate) proof fn lemma_signed_digits(s: Seq<char>, k: int, d: Seq<char>)
    requires
        k == 0 || k == 1,
        k == 1 ==> s[0] == '-',
        s.len() == d.len() + k,
        d.len() > 0,
        all_digits(d),
        s.skip(k) == d,
    ensures
        is_finite_literal(s),
        mantissa_digits(s) == d,
        literal_negative(s) == (k == 1),
        literal_mantissa(s) == digits_value(d),
        literal_exponent(s) == 0,
{
    assert forall|j: int| k <= j < s.len() implies #[trigger] is_digit(s[j]) by {
        assert(s[j] == d[j - k]);
    }
    assert(is_digit(s[k]));
    if k == 0 {
        assert(!(s[0] == '+' || s[0] == '-'));
    }
    assert(sign_len(s, 0) == k);
    lemma_run_to_end(s, k);
    assert(int_end(s) == s.len());
    assert(!has_point(s));
    assert(s.subrange(k, s.len() as int) =~= d);
    assert(mantissa_digits(s) =~= d);
}

/// A whole number written in decimal, with a `-` when negative, is a
/// number whose exact value is that whole number; so it lies in a range
/// exactly when the number does.
pub proof fn law_whole_numbers_read_exactly(v: int, low: int, high: int)
    requires
        -0x10_0000_0000_0000 < low < 0x10_0000_0000_0000,
        -0x10_0000_0000_0000 < high < 0x10_0000_0000_0000,
    ensures
        is_finite_literal(int_text(v)),
        is_number_literal(int_text(v)),
        literal_in_range(int_text(v), low, high) <==> low <= v <= high,
{
    let s = int_text(v);
    if v < 0 {
        let d = decimal_text((-v) as nat);
        lemma_decimal_text((-v) as nat);
        assert(s.skip(1) =~= d);
        lemma_signed_digits(s, 1, d);
    } else {
        let d = decimal_text(v as nat);
        lemma_decimal_text(v as nat);
        assert(s.skip(0) =~= d);
        lemma_signed_digits(s, 0, d);
    }
    let neg = literal_negative(s);
    let m = literal_mantissa(s);
    assert(pow10(0) == 1);
    assert(whole_of(m, 0) == m * pow10(0));
    assert(m * 1 == m);
    assert(whole_of(m, 0) == m);
    assert(signed(neg, m) == v);
    lemma_half_gap_range(low, false);
    lemma_half_gap_range(high, true);
    let pl = two_to(half_gap(low, false));
    let ph = two_to(half_gap(high, true));
    assert((v * pl >= (low * pl - 1) * 1) == (v >= low)) by (nonlinear_arith)
        requires
            pl >= 2,
    ;
    assert((v * ph <= (high * ph + 1) * 1) == (v <= high)) by (nonlinear_arith)
        requires
            ph >= 2,
    ;
}

/// The exponent of a finite literal as held in memory.
pub(crate) fn exponent_of(v: &Vec<char>, fs: usize, fe: usize) -> (e: i128)
    requires
        is_finite_literal(v@),
        fs == frac_start(v@),
        fe == frac_end(v@),
        fs <= fe <= v@.len(),
    ensures
        exponent_agrees(e as int, literal_exponent(v@)),
        -0x1_0000_0000_0000_0000_0000_0000 < e < 0x1_0000_0000_0000_0000_0000_0000,
{
    let ghost s = v@;
    let n = v.len();
    let flen: i128 = (fe - fs) as i128;
    if fe == n {
        return 0 - flen;
    }
    let neg_exp = fe + 1 < n && v[fe + 1] == '-';
    let ds: usize = if fe + 1 < n && (v[fe + 1] == '+' || v[fe + 1] == '-') {
        fe + 2
    } else {
        fe + 1
    };
    assert(ds == exp_digits_start(s));
    proof {
        lemma_run_digits(s, ds as int);
    }
    assert(all_digits(s.subrange(ds as int, n as int))) by {
        assert forall|i: int| 0 <= i < n - ds implies #[trigger] is_digit(
            s.subrange(ds as int, n as int)[i],
        ) by {
            assert(is_digit(s[ds + i]));
        }
    }
    let mag = saturated_value(v, ds, n);
    if neg_exp {
        0 - (mag as i128) - flen
    } else {
        (mag as i128) - flen
    }
}

/// The decimal places of `value(d) * 10^e_true`: for `e_true >= 0` none;
/// otherwise the last `-e_true` digits, zero-padded on the left. When the
/// value is so small that it lies below `10^-1100`, reports that instead.
fn fraction_of(d: &Vec<char>, e: i128, Ghost(e_true): Ghost<int>) -> (r: (bool, Vec<char>))
    requires
        all_digits(d@),
        exponent_agrees(e as int, e_true),
        -0x1_0000_0000_0000_0000_0000_0000 < e < 0x1_0000_0000_0000_0000_0000_0000,
    ensures
        r.0 ==> e_true < 0 && digits_value(d@) * pow10(1100) < pow10(places(e_true)),
        !r.0 ==> all_digits(r.1@) && r.1@.len() == places(e_true) && digits_value(r.1@)
            == whole_of(digits_value(d@), e_true) % pow10(places(e_true)),
{
    let ghost m = digits_value(d@);
    if e >= 0 {
        proof {
            assert(e_true >= 0);
            assert(pow10(0) == 1);
            assert(digits_value(Seq::<char>::empty()) == 0);
        }
        let empty: Vec<char> = Vec::new();
        assert(empty@ =~= Seq::<char>::empty());
        return (false, empty);
    }
    let n = d.len();
    proof {
        lemma_digits_bound(d@);
    }
    if e <= -(n as i128) - 1100 {
        proof {
            let t = places(e_true);
            assert(t >= n + 1100);
            lemma_pow10_add(n as nat, 1100);
            lemma_pow10_monotone((n + 1100) as nat, t);
            lemma_pow10_positive(1100);
            assert(m * pow10(1100) < pow10(n as nat) * pow10(1100)) by (nonlinear_arith)
                requires
                    m < pow10(n as nat),
                    pow10(1100) >= 1,
            ;
        }
        return (true, Vec::new());
    }
    assert(e as int == e_true);
    let ne: i128 = 0 - e;
    let ghost t = ne as nat;
    assert(places(e_true) == t);
    let mut out: Vec<char> = Vec::new();
    if ne <= n as i128 {
        let start = n - (ne as usize);
        let mut j: usize = start;
        while j < n
            invariant
                start <= j <= n == d@.len(),
                out@ == d@.subrange(start as int, j as int),
            decreases n - j,
        {
            out.push(d[j]);
            j = j + 1;
            assert(out@ =~= d@.subrange(start as int, j as int));
        }
        proof {
            lemma_split_point(d@, start as int);
            assert(d@.skip(start as int) =~= out@);
            assert(d@.len() - start == t);
            assert(whole_of(m, e_true) == m);
        }
        assert(all_digits(out@)) by {
            assert forall|i: int| 0 <= i < out@.len() implies #[trigger] is_digit(out@[i]) by {
                assert(out@[i] == d@[start + i]);
            }
        }
    } else {
        let pad = (ne - (n as i128)) as usize;
        let mut j: usize = 0;
        while j < pad
            invariant
                j <= pad,
                out@ == Seq::new(j as nat, |i: int| '0'),
            decreases pad - j,
        {
            out.push('0');
            j = j + 1;
            assert(out@ =~= Seq::new(j as nat, |i: int| '0'));
        }
        let ghost zeros = out@;
        let mut k: usize = 0;
        while k < n
            invariant
                k <= n == d@.len(),
                zeros.len() == pad,
                forall|i: int| 0 <= i < pad ==> #[trigger] zeros[i] == '0',
                out@ == zeros + d@.subrange(0, k as int),
            decreases n - k,
        {
            out.push(d[k]);
            k = k + 1;
            assert(out@ =~= zeros + d@.subrange(0, k as int));
        }
        proof {
            assert(d@.subrange(0, n as int) =~= d@);
            assert(all_digits(zeros)) by {
                assert forall|i: int| 0 <= i < zeros.len() implies #[trigger] is_digit(zeros[i]) by {
                    assert(zeros[i] == '0');
                }
            }
            lemma_digits_zero(zeros);
            assert(digits_value(zeros) == 0);
            lemma_digits_split(zeros, d@);
            assert(digits_value(out@) == m);
            lemma_pow10_monotone(n as nat, t);
            lemma_pow10_positive(t);
            lemma_small_mod(m, pow10(t));
            assert(whole_of(m, e_true) == m);
        }
        assert(all_digits(out@)) by {
            assert forall|i: int| 0 <= i < out@.len() implies #[trigger] is_digit(out@[i]) by {
                if i < pad {
                    assert(out@[i] == zeros[i]);
                } else {
                    assert(out@[i] == d@[i - pad]);
                }
            }
        }
    }
    (false, out)
}

/// Whether the f64 nearest a finite literal lies in `low..=high`.
fn finite_in_range(v: &Vec<char>, low: i64, high: i64) -> (r: bool)
    requires
        is_finite_literal(v@),
        -0x10_0000_0000_0000 < low < 0x10_0000_0000_0000,
        -0x10_0000_0000_0000 < high < 0x10_0000_0000_0000,
    ensures
        r == literal_in_range(v@, low as int, high as int),
{
    let ghost s = v@;
    let (i0, ie, fs, fe, _finite) = layout(v);
    let md = mantissa_of(v, i0, ie, fs, fe);
    let e = exponent_of(v, fs, fe);
    let ghost e_true = literal_exponent(s);
    let (large, q, _exact) = magnitude(&md, e, Ghost(e_true));
    let (tiny, frac) = fraction_of(&md, e, Ghost(e_true));
    let negative = v.len() > 0 && v[0] == '-';
    let p_lo = half_gap_of(low, false);
    let p_hi = half_gap_of(high, true);
    let (a_lo, b_lo) = if tiny {
        (true, false)
    } else {
        compare_with_power_of_two(&frac, p_lo)
    };
    let (a_hi, b_hi) = if tiny {
        (true, false)
    } else {
        compare_with_power_of_two(&frac, p_hi)
    };
    let ghost m = literal_mantissa(s);
    proof {
        lemma_half_gap_range(low as int, false);
        lemma_half_gap_range(high as int, true);
        lemma_decide_near(negative, m, e_true, low as int, p_lo as nat);
        lemma_decide_near(negative, m, e_true, high as int, p_hi as nat);
        let t = pow10(places(e_true));
        let w = whole_of(m, e_true);
        lemma_pow10_positive(places(e_true));
        if e_true >= 0 {
            assert(pow10(0) == 1);
            assert(t == 1);
            lemma_fundamental_div_mod_converse(w as int, 1, w as int, 0);
            assert(floor_of(m, e_true) == w / t);
        } else {
            assert(floor_of(m, e_true) == w / t);
        }
        lemma_pow10_19();
        if tiny {
            lemma_small_div_mod_tiny(m, t);
            lemma_tiny_fraction(m, t, two_to(p_lo as nat), p_lo as nat);
            lemma_tiny_fraction(m, t, two_to(p_hi as nat), p_hi as nat);
        }
    }
    let lo = low as i128;
    let hi = high as i128;
    let f = q as i128;
    let at_least: bool = if large {
        !negative
    } else if !negative {
        f >= lo || (f == lo - 1 && b_lo)
    } else {
        f < -lo || (f == -lo && a_lo)
    };
    let at_most: bool = if large {
        negative
    } else if !negative {
        f < hi || (f == hi && a_hi)
    } else {
        f >= -hi || (f == -hi - 1 && b_hi)
    };
    at_least && at_most
}

/// A value below `10^-1100` has no whole part and is its own fraction.
proof fn lemma_small_div_mod_tiny(m: nat, t: nat)
    requires
        m * pow10(1100) < t,
    ensures
        m / t == 0,
        m % t == m,
{
    lemma_pow10_positive(1100);
    assert(m <= m * pow10(1100)) by (nonlinear_arith)
        requires
            pow10(1100) >= 1,
    ;
    lemma_fundamental_div_mod_converse(m as int, t as int, 0, m as int);
}

/// A value below `10^-1100` is within `2^-p` of zero and not within it of
/// one, for any `p` up to 1100.
proof fn lemma_tiny_fraction(m: nat, t: nat, pp: nat, p: nat)
    requires
        m * pow10(1100) < t,
        pp == two_to(p),
        1 <= p <= 1100,
    ensures
        m * pp <= t,
        !(m * pp >= (pp - 1) * t),
{
    crate::parser::binary::lemma_two_to_below_pow10(p);
    lemma_pow10_monotone(p, 1100);
    assert(pp >= 2) by {
        lemma_two_at_least(p);
    }
    assert(m * pp <= m * pow10(1100)) by (nonlinear_arith)
        requires
            pp <= pow10(1100),
    ;
    assert((pp - 1) * t >= t) by (nonlinear_arith)
        requires
            pp >= 2,
    ;
}

proof fn lemma_two_at_least(p: nat)
    requires
        p >= 1,
    ensures
        two_to(p) >= 2,
    decreases p,
{
    assert(two_to(p) == 2 * two_to((p - 1) as nat));
    if p > 1 {
        lemma_two_at_least((p - 1) as nat);
    } else {
        assert(two_to(0) == 1);
    }
}

/// How the text `text` relates to the whole-number range `low..=high`:
/// not a number at all, a number outside the range (including infinities
/// and NaN), or a finite number whose nearest f64 lies inside it.
pub fn check_number(text: &str, low: i64, high: i64) -> (r: RangeCheck)
    requires
        -0x10_0000_0000_0000 < low < 0x10_0000_0000_0000,
        -0x10_0000_0000_0000 < high < 0x10_0000_0000_0000,
    ensures
        (r == RangeCheck::NotANumber) == !is_number_literal(text@),
        (r == RangeCheck::InRange) == literal_in_range(text@, low as int, high as int),
{
    let v = chars_of(text);
    let (i0, _ie, _fs, _fe, finite) = layout(&v);
    if finite {
        if finite_in_range(&v, low, high) {
            RangeCheck::InRange
        } else {
            RangeCheck::OutOfRange
        }
    } else {
        let inf = vec!['i', 'n', 'f'];
        let infinity = vec!['i', 'n', 'f', 'i', 'n', 'i', 't', 'y'];
        let nan = vec!['n', 'a', 'n'];
        assert(literal_body(v@) == v@.skip(i0 as int));
        if tail_eq_ignore_ascii_case(&v, i0, &inf) || tail_eq_ignore_ascii_case(&v, i0, &infinity)
            || tail_eq_ignore_ascii_case(&v, i0, &nan) {
            RangeCheck::OutOfRange
        } else {
            RangeCheck::NotANumber
        }
    }
}

} // verus!
