//! Powers of two against decimal digit strings: the gaps between
//! neighbouring f64 values at whole numbers, and how a decimal fraction
//! compares with a power of two.
use vstd::prelude::*;
use crate::parser::digits::{
    is_digit, digit_value, all_digits, digits_value, pow10, lemma_pow10_positive,
    lemma_digits_split, lemma_digits_bound, lemma_digits_zero,
};

verus! {

/// Two to the power `k`.
pub open spec fn two_to(k: nat) -> nat
    decreases k,
{
    if k == 0 {
        1
    } else {
        2 * two_to((k - 1) as nat)
    }
}

/// The exponent of the highest power of two not above `n` (0 for 0 and 1).
pub open spec fn log2(n: nat) -> nat
    decreases n,
{
    if n < 2 {
        0
    } else {
        1 + log2(n / 2)
    }
}

/// For a whole number `b` with `|b| < 2^52`, the `p` for which `2^-p` is
/// half the distance from `b` to the next f64 above it (`up`) or below it.
/// Whole numbers that small are f64 values with an even significand, so a
/// value exactly halfway rounds to `b`.
pub open spec fn half_gap(b: int, up: bool) -> nat {
    if b == 0 {
        1075
    } else {
        let a = if b < 0 {
            -b
        } else {
            b
        };
        let e = log2(a as nat);
        if (b > 0) != up && a == two_to(e) {
            (54 - e) as nat
        } else {
            (53 - e) as nat
        }
    }
}

proof fn lemma_two_to_positive(k: nat)
    ensures
        two_to(k) >= 1,
    decreases k,
{
    if k > 0 {
        lemma_two_to_positive((k - 1) as nat);
    }
}

proof fn lemma_two_to_52()
    ensures
        two_to(52) == 0x10_0000_0000_0000,
{
    reveal_with_fuel(two_to, 53);
}

/// `log2(n) < k` when `n < 2^k`.
proof fn lemma_log2_below(n: nat, k: nat)
    requires
        n < two_to(k),
        k >= 1,
    ensures
        log2(n) < k,
    decreases k,
{
    if n >= 2 {
        assert(n / 2 < two_to((k - 1) as nat));
        if k >= 2 {
            lemma_log2_below(n / 2, (k - 1) as nat);
        } else {
            assert(two_to(1) == 2);
        }
    }
}

/// The half gap of a whole number below `2^52` in magnitude is between
/// `2^-1` and `2^-1075`.
pub proof fn lemma_half_gap_range(b: int, up: bool)
    requires
        -0x10_0000_0000_0000 < b < 0x10_0000_0000_0000,
    ensures
        1 <= half_gap(b, up) <= 1075,
        two_to(half_gap(b, up)) >= 2,
{
    if b != 0 {
        let a = if b < 0 {
            -b
        } else {
            b
        };
        lemma_two_to_52();
        lemma_log2_below(a as nat, 52);
    }
    lemma_two_to_at_least_two(half_gap(b, up));
}

proof fn lemma_two_to_at_least_two(k: nat)
    requires
        k >= 1,
    ensures
        two_to(k) >= 2,
{
    lemma_two_to_positive((k - 1) as nat);
}

/// Two to a power never exceeds ten to it.
pub proof fn lemma_two_to_below_pow10(k: nat)
    ensures
        two_to(k) <= pow10(k),
    decreases k,
{
    if k > 0 {
        lemma_two_to_below_pow10((k - 1) as nat);
    }
}

/// The half gap of a whole number below `2^52` in magnitude, as the
/// bit-level search computes it.
pub fn half_gap_of(b: i64, up: bool) -> (p: u64)
    requires
        -0x10_0000_0000_0000 < b < 0x10_0000_0000_0000,
    ensures
        p == half_gap(b as int, up),
        1 <= p <= 1075,
{
    if b == 0 {
        return 1075;
    }
    let a: u64 = if b < 0 {
        (0 - (b as i128)) as u64
    } else {
        b as u64
    };
    let mut x: u64 = a;
    let mut e: u64 = 0;
    let mut pw: u64 = 1;
    while x >= 2
        invariant
            1 <= x <= a < 0x10_0000_0000_0000,
            log2(a as nat) == e + log2(x as nat),
            pw == two_to(e as nat),
            pw >= 1,
            pw * x <= a,
            e < 52,
        decreases x,
    {
        proof {
            lemma_two_to_52();
            lemma_log2_below(a as nat, 52);
        }
        assert(pw * 2 * (x / 2) <= pw * x) by (nonlinear_arith)
            requires
                pw >= 1,
        ;
        assert(pw * 2 <= pw * x) by (nonlinear_arith)
            requires
                pw >= 1,
                x >= 2,
        ;
        x = x / 2;
        e = e + 1;
        pw = pw * 2;
    }
    proof {
        lemma_two_to_52();
        lemma_log2_below(a as nat, 52);
    }
    if (b > 0) != up && a == pw {
        54 - e
    } else {
        53 - e
    }
}

/// A decimal digit as a character.
fn digit_char_of(d: u64) -> (c: char)
    requires
        d < 10,
    ensures
        is_digit(c),
        digit_value(c) == d,
{
    let b: u8 = (d as u8) + 48;
    b as char
}

fn digit_of(c: char) -> (r: u64)
    requires
        is_digit(c),
    ensures
        r == digit_value(c),
        r <= 9,
{
    let code: u32 = c as u32;
    (code - 48) as u64
}

/// Doubles the decimal number held in `v` in place, returning the carry
/// out of its most significant place.
fn double_digits(v: &mut Vec<char>) -> (carry: u64)
    requires
        all_digits(old(v)@),
    ensures
        all_digits(final(v)@),
        final(v)@.len() == old(v)@.len(),
        carry <= 1,
        digits_value(final(v)@) + carry * pow10(old(v)@.len()) == 2 * digits_value(old(v)@),
{
    let ghost o = v@;
    let n = v.len();
    let mut i: usize = n;
    let mut carry: u64 = 0;
    proof {
        assert(v@.subrange(n as int, n as int) =~= Seq::<char>::empty());
        assert(pow10(0) == 1);
    }
    while i > 0
        invariant
            n == v@.len() == o.len(),
            i <= n,
            carry <= 1,
            all_digits(v@),
            v@.subrange(0, i as int) == o.subrange(0, i as int),
            digits_value(v@.subrange(i as int, n as int)) + carry * pow10((n - i) as nat) == 2
                * digits_value(o.subrange(i as int, n as int)),
        decreases i,
    {
        let j = i - 1;
        assert(is_digit(v@[j as int]));
        let od = digit_of(v[j]);
        assert(o[j as int] == v@[j as int]) by {
            assert(o.subrange(0, i as int)[j as int] == v@.subrange(0, i as int)[j as int]);
        }
        let d = od * 2 + carry;
        let nd = d % 10;
        let nc = d / 10;
        let c = digit_char_of(nd);
        let ghost before = v@;
        v.set(j, c);
        proof {
            let len = (n - i) as nat;
            let p = pow10(len);
            let rest_old = o.subrange(i as int, n as int);
            let rest_new = v@.subrange(i as int, n as int);
            assert(rest_new =~= before.subrange(i as int, n as int));
            assert(o.subrange(j as int, n as int) =~= seq![o[j as int]] + rest_old);
            assert(v@.subrange(j as int, n as int) =~= seq![c] + rest_new);
            lemma_digits_split(seq![o[j as int]], rest_old);
            lemma_digits_split(seq![c], rest_new);
            assert(seq![c].drop_last() =~= Seq::<char>::empty());
            assert(seq![o[j as int]].drop_last() =~= Seq::<char>::empty());
            assert(digits_value(Seq::<char>::empty()) == 0);
            assert(seq![c].last() == c);
            assert(seq![o[j as int]].last() == o[j as int]);
            assert(digits_value(seq![c]) == nd);
            assert(digits_value(seq![o[j as int]]) == od);
            assert(pow10((len + 1) as nat) == 10 * p);
            let vn = digits_value(rest_new);
            let vo = digits_value(rest_old);
            assert(nd * p + vn + nc * (10 * p) == 2 * (od * p + vo)) by (nonlinear_arith)
                requires
                    nd + 10 * nc == 2 * od + carry,
                    vn + carry * p == 2 * vo,
            ;
            assert(v@.subrange(0, j as int) =~= o.subrange(0, j as int)) by {
                assert(before.subrange(0, j as int) =~= o.subrange(0, j as int)) by {
                    assert forall|k: int| 0 <= k < j implies before[k] == o[k] by {
                        assert(before.subrange(0, i as int)[k] == o.subrange(0, i as int)[k]);
                    }
                }
            }
            assert(all_digits(v@)) by {
                assert forall|k: int| 0 <= k < v@.len() implies #[trigger] is_digit(v@[k]) by {
                    if k != j {
                        assert(is_digit(before[k]));
                    }
                }
            }
        }
        carry = nc;
        i = j;
    }
    assert(v@.subrange(0, n as int) =~= v@);
    assert(o.subrange(0, n as int) =~= o);
    carry
}

/// With `f` the digits of a decimal fraction `value(f) / 10^len(f)` and
/// `p >= 1`: whether the fraction is at most `2^-p`, and whether it is at
/// least `1 - 2^-p`. Computed by reading the fraction's first `p` binary
/// digits, one doubling at a time.
pub fn compare_with_power_of_two(f: &Vec<char>, p: u64) -> (r: (bool, bool))
    requires
        all_digits(f@),
        p >= 1,
    ensures
        r.0 == (digits_value(f@) * two_to(p as nat) <= pow10(f@.len())),
        r.1 == (digits_value(f@) * two_to(p as nat) >= (two_to(p as nat) - 1) * pow10(f@.len())),
{
    let mut cur = f.clone();
    assert(cur@ =~= f@);
    let ghost t = pow10(f@.len());
    let ghost r0 = digits_value(f@);
    let ghost mut whole: nat = 0;
    let mut capped: u64 = 0;
    let mut ones = true;
    let mut k: u64 = 0;
    proof {
        lemma_pow10_positive(f@.len());
        lemma_digits_bound(f@);
        assert(two_to(0) == 1);
    }
    while k < p
        invariant
            k <= p,
            all_digits(cur@),
            cur@.len() == f@.len(),
            t == pow10(f@.len()),
            t >= 1,
            r0 == digits_value(f@),
            r0 < t,
            r0 * two_to(k as nat) == whole * t + digits_value(cur@),
            digits_value(cur@) < t,
            whole + 1 <= two_to(k as nat),
            capped == if whole < 2 {
                whole
            } else {
                2
            },
            ones == (whole + 1 == two_to(k as nat)),
        decreases p - k,
    {
        let ghost before = digits_value(cur@);
        let carry = double_digits(&mut cur);
        proof {
            lemma_digits_bound(cur@);
            let tk = two_to(k as nat);
            assert(two_to((k + 1) as nat) == 2 * tk);
            assert(r0 * (2 * tk) == (2 * whole + carry) * t + digits_value(cur@)) by (nonlinear_arith)
                requires
                    r0 * tk == whole * t + before,
                    digits_value(cur@) + carry * t == 2 * before,
            ;
            whole = (2 * whole + carry) as nat;
        }
        capped = if capped >= 1 {
            2
        } else {
            carry
        };
        ones = ones && carry == 1;
        k = k + 1;
    }
    let zero = cur.len() == 0 || all_zero(&cur);
    proof {
        lemma_digits_zero(cur@);
        let tp = two_to(p as nat);
        let c = digits_value(cur@);
        if whole >= 2 {
            assert(whole * t + c > t) by (nonlinear_arith)
                requires
                    whole >= 2,
                    t >= 1,
            ;
        }
        if whole == 1 {
            assert(whole * t + c == t + c);
        }
        if whole + 1 == tp {
            assert(whole * t + c >= (tp - 1) * t);
        } else {
            assert(whole * t + c < (tp - 1) * t) by (nonlinear_arith)
                requires
                    whole + 2 <= tp,
                    c < t,
            ;
        }
    }
    (capped == 0 || (capped == 1 && zero), ones)
}

/// Whether every character of `v` is `'0'`.
fn all_zero(v: &Vec<char>) -> (r: bool)
    ensures
        r == (forall|i: int| 0 <= i < v@.len() ==> #[trigger] v@[i] == '0'),
{
    let mut j: usize = 0;
    while j < v.len()
        invariant
            j <= v@.len(),
            forall|i: int| 0 <= i < j ==> #[trigger] v@[i] == '0',
        decreases v@.len() - j,
    {
        if v[j] != '0' {
            return false;
        }
        j = j + 1;
    }
    true
}

} // verus!
