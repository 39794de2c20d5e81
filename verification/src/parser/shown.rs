//! How a number literal is shown: as std's `Display` shows the `f64` the
//! literal reads as, wherever that follows from the literal's digits
//! alone.
//!
//! `Display` writes an `f64` as the shortest decimal that reads back as the
//! same value, in positional notation. Any decimal with at most fifteen
//! significant digits in the normal range reads back from its nearest
//! `f64` unchanged, and no shorter decimal reads as that `f64`, so for such
//! a literal the shown text is its own significant digits, placed by its
//! exponent. A literal whose value reaches the largest `f64` plus half its
//! gap reads as infinity.
use vstd::prelude::*;
use crate::text::{chars_of, tail_eq_ignore_ascii_case, push_char};
use crate::parser::digits::{
    all_digits, digits_value, pow10, lemma_digits_bound, lemma_digits_lower_bound, lemma_pow10_monotone,
};
use crate::parser::number::{
    is_nan_literal, is_infinite_literal, is_finite_literal, literal_negative, literal_body,
    mantissa_digits, literal_exponent, exponent_agrees, layout, mantissa_of, exponent_of,
    value_of_digits, lemma_signed_digits, lemma_decimal_text,
};
use crate::text::{decimal_text, digit_char, int_text};

verus! {

/// End of the run of `'0'`s in `d` that starts at `i`.
pub open spec fn zeros_end(d: Seq<char>, i: int) -> int
    decreases d.len() - i,
{
    if 0 <= i < d.len() && d[i] == '0' {
        zeros_end(d, i + 1)
    } else {
        i
    }
}

/// Start of the run of `'0'`s in `d` that ends at `j`.
pub open spec fn zeros_start(d: Seq<char>, j: int) -> int
    decreases j,
{
    if 0 < j <= d.len() && d[j - 1] == '0' {
        zeros_start(d, j - 1)
    } else {
        j
    }
}

/// Where the significant digits of the literal's mantissa start.
pub open spec fn sig_start(s: Seq<char>) -> int {
    zeros_end(mantissa_digits(s), 0)
}

/// Where the significant digits of the literal's mantissa end.
pub open spec fn sig_end(s: Seq<char>) -> int {
    zeros_start(mantissa_digits(s), mantissa_digits(s).len() as int)
}

/// The mantissa without its leading and trailing zeros.
pub open spec fn sig_digits(s: Seq<char>) -> Seq<char> {
    mantissa_digits(s).subrange(sig_start(s), sig_end(s))
}

/// How many significant digits the literal has.
pub open spec fn sig_count(s: Seq<char>) -> int {
    sig_end(s) - sig_start(s)
}

/// The power of ten the last significant digit stands for.
pub open spec fn sig_exponent(s: Seq<char>) -> int {
    literal_exponent(s) + (mantissa_digits(s).len() - sig_end(s))
}

/// How many digits the whole part has (when it is not zero).
pub open spec fn whole_digits(s: Seq<char>) -> int {
    sig_count(s) + sig_exponent(s)
}

/// The literal reads as an infinite `f64`: its value is at least
/// `2^1024 - 2^970`, which is `1.797693134862315807...e308`.
pub open spec fn reads_as_infinity(s: Seq<char>) -> bool {
    &&& sig_start(s) < sig_end(s)
    &&& (whole_digits(s) >= 310 || (sig_count(s) <= 15 && whole_digits(s) == 309 && digits_value(
        sig_digits(s),
    ) * pow10((15 - sig_count(s)) as nat) >= 179_769_313_486_232))
}

/// The literal is at least `10^-307` in magnitude (inside the normal
/// range of `f64`), below `10^309`, and has at most fifteen significant
/// digits.
pub open spec fn shown_exactly(s: Seq<char>) -> bool {
    &&& sig_start(s) < sig_end(s)
    &&& sig_count(s) <= 15
    &&& -306 <= whole_digits(s) <= 309
}

/// The digits `d` placed so that the last stands for `10^e`, in
/// positional notation.
pub open spec fn placed(d: Seq<char>, e: int) -> Seq<char> {
    if e >= 0 {
        d + Seq::new(e as nat, |i: int| '0')
    } else if d.len() + e >= 1 {
        d.take(d.len() + e) + "."@ + d.skip(d.len() + e)
    } else {
        "0."@ + Seq::new((-(d.len() + e)) as nat, |i: int| '0') + d
    }
}

/// The significant digits placed by their exponent, without a sign.
pub open spec fn plain_decimal(s: Seq<char>) -> Seq<char> {
    placed(sig_digits(s), sig_exponent(s))
}

/// `-` for a negative literal.
pub open spec fn sign_text(s: Seq<char>) -> Seq<char> {
    if literal_negative(s) {
        "-"@
    } else {
        ""@
    }
}

/// The text shown for the number literal `s`: what `Display` writes for
/// its `f64` (`NaN`, `inf`, `-inf`, `0`, `-0`, or the plain decimal) where
/// that follows from the digits as above, and otherwise `s` as typed.
pub open spec fn shown_text(s: Seq<char>) -> Seq<char> {
    if is_finite_literal(s) {
        if sig_start(s) >= sig_end(s) {
            sign_text(s) + "0"@
        } else if reads_as_infinity(s) {
            sign_text(s) + "inf"@
        } else if shown_exactly(s) {
            sign_text(s) + plain_decimal(s)
        } else {
            s
        }
    } else if is_nan_literal(s) {
        "NaN"@
    } else if is_infinite_literal(s) {
        sign_text(s) + "inf"@
    } else {
        s
    }
}

/// Appends `d[from..to]` to `out`.
fn push_range(out: &mut String, d: &Vec<char>, from: usize, to: usize)
    requires
        from <= to <= d@.len(),
    ensures
        final(out)@ == old(out)@ + d@.subrange(from as int, to as int),
{
    let mut j: usize = from;
    while j < to
        invariant
            from <= j <= to <= d@.len(),
            out@ == old(out)@ + d@.subrange(from as int, j as int),
        decreases to - j,
    {
        push_char(out, d[j]);
        j = j + 1;
        assert(out@ =~= old(out)@ + d@.subrange(from as int, j as int));
    }
}

/// Appends `count` zeros to `out`.
fn push_zeros(out: &mut String, count: usize)
    ensures
        final(out)@ == old(out)@ + Seq::new(count as nat, |i: int| '0'),
{
    let mut j: usize = 0;
    while j < count
        invariant
            j <= count,
            out@ == old(out)@ + Seq::new(j as nat, |i: int| '0'),
        decreases count - j,
    {
        push_char(out, '0');
        j = j + 1;
        assert(out@ =~= old(out)@ + Seq::new(j as nat, |i: int| '0'));
    }
}

/// `d * 10^(15 - k)` for a value `d` of `k <= 15` digits.
fn scale_to_fifteen(d: u64, k: usize) -> (r: u64)
    requires
        k <= 15,
        d < pow10(k as nat),
    ensures
        r == d * pow10((15 - k) as nat),
{
    let mut r: u64 = d;
    let mut j: usize = k;
    proof {
        reveal_with_fuel(pow10, 17);
        assert(pow10((j - k) as nat) == 1);
        assert(d * pow10((j - k) as nat) == d * 1);
    }
    while j < 15
        invariant
            k <= j <= 15,
            r == d * pow10((j - k) as nat),
            r < pow10(j as nat),
            pow10(15) == 1_000_000_000_000_000,
        decreases 15 - j,
    {
        proof {
            assert(pow10((j + 1 - k) as nat) == 10 * pow10((j - k) as nat));
            assert(pow10((j + 1) as nat) == 10 * pow10(j as nat));
            lemma_pow10_monotone(j as nat, 14);
            assert(d * pow10((j + 1 - k) as nat) == (d * pow10((j - k) as nat)) * 10) by (nonlinear_arith)
                requires
                    pow10((j + 1 - k) as nat) == 10 * pow10((j - k) as nat),
            ;
        }
        r = r * 10;
        j = j + 1;
    }
    r
}

/// Where the significant digits of `md` start and end: past its leading
/// zeros, and before its trailing ones.
fn significant_bounds(md: &Vec<char>) -> (r: (usize, usize))
    ensures
        r.0 == zeros_end(md@, 0),
        r.1 == zeros_start(md@, md@.len() as int),
        r.0 <= md@.len(),
        r.1 <= md@.len(),
{
    let n = md.len();
    let mut b: usize = n;
    while b > 0 && md[b - 1] == '0'
        invariant
            b <= n,
            n == md@.len(),
            zeros_start(md@, n as int) == zeros_start(md@, b as int),
        decreases b,
    {
        b = b - 1;
    }
    let mut a: usize = 0;
    while a < n && md[a] == '0'
        invariant
            a <= n,
            n == md@.len(),
            zeros_end(md@, 0) == zeros_end(md@, a as int),
        decreases n - a,
    {
        a = a + 1;
    }
    (a, b)
}

/// Appends the digits `md[a..b]` placed so that the last stands for
/// `10^e`.
fn push_placed(out: &mut String, md: &Vec<char>, a: usize, b: usize, e: i128)
    requires
        a < b <= md@.len(),
        -306 <= (b - a) + e <= 309,
    ensures
        final(out)@ == old(out)@ + placed(md@.subrange(a as int, b as int), e as int),
{
    proof {
        reveal_strlit(".");
        reveal_strlit("0.");
    }
    let ghost d = md@.subrange(a as int, b as int);
    let wd: i128 = ((b - a) as i128) + e;
    if e >= 0 {
        push_range(out, md, a, b);
        push_zeros(out, e as usize);
    } else if wd >= 1 {
        let split: usize = ((b as i128) + e) as usize;
        push_range(out, md, a, split);
        out.append(".");
        push_range(out, md, split, b);
        assert(d.take(d.len() + e) =~= md@.subrange(a as int, split as int));
        assert(d.skip(d.len() + e) =~= md@.subrange(split as int, b as int));
    } else {
        out.append("0.");
        push_zeros(out, (0 - wd) as usize);
        push_range(out, md, a, b);
    }
    assert(out@ =~= old(out)@ + placed(d, e as int));
}

/// Whether `d * 10^(15 - k)`, for the `k <= 15` digits `md[a..b]`, reaches
/// the leading fifteen digits of the `f64` overflow threshold rounded up.
fn top_digits_overflow(md: &Vec<char>, a: usize, b: usize) -> (r: bool)
    requires
        a <= b <= md@.len(),
        b - a <= 15,
        all_digits(md@),
    ensures
        r == (digits_value(md@.subrange(a as int, b as int)) * pow10((15 - (b - a)) as nat)
            >= 179_769_313_486_232),
{
    proof {
        assert(all_digits(md@.subrange(a as int, b as int)));
        lemma_digits_bound(md@.subrange(a as int, b as int));
    }
    let d = value_of_digits(md, a, b);
    let scaled = scale_to_fifteen(d, b - a);
    scaled >= 179_769_313_486_232
}

/// The text shown for a finite literal with mantissa digits `md` and
/// exponent `e` as held in memory.
fn shown_finite(text: &str, v: &Vec<char>, md: &Vec<char>, e: i128, out: String) -> (r: String)
    requires
        v@ == text@,
        is_finite_literal(v@),
        md@ == mantissa_digits(v@),
        all_digits(md@),
        exponent_agrees(e as int, literal_exponent(v@)),
        -0x1_0000_0000_0000_0000_0000_0000 < e < 0x1_0000_0000_0000_0000_0000_0000,
        out@ == sign_text(v@),
    ensures
        r@ == shown_text(v@),
{
    let ghost s = v@;
    proof {
        reveal_strlit("0");
        reveal_strlit("inf");
    }
    let mut out = out;
    let n = md.len();
    let (a, b) = significant_bounds(md);
    assert(sig_start(s) == a && sig_end(s) == b);
    if a >= b {
        out.append("0");
        return out;
    }
    let k: usize = b - a;
    let se: i128 = e + ((n - b) as i128);
    let wd: i128 = (k as i128) + se;
    let ghost true_wd = whole_digits(s);
    assert(true_wd == k + literal_exponent(s) + (n - b));
    assert(wd >= 310 <==> true_wd >= 310);
    if wd >= 310 {
        out.append("inf");
        return out;
    }
    assert(wd >= -306 ==> e == literal_exponent(s));
    assert(wd < -306 <==> true_wd < -306);
    if k > 15 || wd < -306 {
        return String::from_str(text);
    }
    assert(e == literal_exponent(s) && wd == true_wd && se == sig_exponent(s));
    assert(md@.subrange(a as int, b as int) == sig_digits(s));
    if wd == 309 && top_digits_overflow(md, a, b) {
        out.append("inf");
        return out;
    }
    push_placed(&mut out, md, a, b, se);
    out
}

/// The text shown for the number literal `text`.
pub fn shown_number(text: &str) -> (r: String)
    ensures
        r@ == shown_text(text@),
{
    let v = chars_of(text);
    let ghost s = v@;
    let (i0, ie, fs, fe, finite) = layout(&v);
    let negative = v.len() > 0 && v[0] == '-';
    assert(negative == literal_negative(s));
    let mut out = if negative {
        String::from_str("-")
    } else {
        String::from_str("")
    };
    proof {
        reveal_strlit("-");
        reveal_strlit("");
        reveal_strlit("inf");
        reveal_strlit("NaN");
    }
    assert(out@ == sign_text(s));
    if finite {
        let md = mantissa_of(&v, i0, ie, fs, fe);
        let e = exponent_of(&v, fs, fe);
        return shown_finite(text, &v, &md, e, out);
    }
    let inf = vec!['i', 'n', 'f'];
    let infinity = vec!['i', 'n', 'f', 'i', 'n', 'i', 't', 'y'];
    let nan = vec!['n', 'a', 'n'];
    assert(literal_body(s) == s.skip(i0 as int));
    if tail_eq_ignore_ascii_case(&v, i0, &nan) {
        return String::from_str("NaN");
    }
    if tail_eq_ignore_ascii_case(&v, i0, &inf) || tail_eq_ignore_ascii_case(&v, i0, &infinity) {
        out.append("inf");
        return out;
    }
    String::from_str(text)
}

/// The decimal text of a positive number starts with a nonzero digit.
proof fn lemma_decimal_text_leads(n: nat)
    requires
        n >= 1,
    ensures
        decimal_text(n)[0] != '0',
    decreases n,
{
    if n >= 10 {
        lemma_decimal_text_leads(n / 10);
        assert(decimal_text(n) == decimal_text(n / 10).push(digit_char(n % 10)));
    }
}

/// The run of zeros that ends at `j` lies in `d[zeros_start(d, j)..j]`,
/// and reaches back no further than the first character that is not a
/// zero.
proof fn lemma_zeros_start(d: Seq<char>, j: int)
    requires
        0 <= j <= d.len(),
    ensures
        0 <= zeros_start(d, j) <= j,
        forall|i: int| zeros_start(d, j) <= i < j ==> #[trigger] d[i] == '0',
        d.len() > 0 && d[0] != '0' && j >= 1 ==> zeros_start(d, j) >= 1,
    decreases j,
{
    if 0 < j && d[j - 1] == '0' {
        lemma_zeros_start(d, j - 1);
    }
}

/// A whole number of at most fifteen digits, written in decimal with a
/// `-` when negative, is shown exactly as written.
pub proof fn law_whole_numbers_shown_as_written(v: int)
    requires
        -1_000_000_000_000_000 < v < 1_000_000_000_000_000,
    ensures
        shown_text(int_text(v)) == int_text(v),
{
    let s = int_text(v);
    let n: nat = if v < 0 {
        (-v) as nat
    } else {
        v as nat
    };
    let d = decimal_text(n);
    lemma_decimal_text(n);
    if v < 0 {
        assert(s.skip(1) =~= d);
        lemma_signed_digits(s, 1, d);
    } else {
        assert(s.skip(0) =~= d);
        lemma_signed_digits(s, 0, d);
    }
    reveal_strlit("-");
    reveal_strlit("");
    reveal_strlit("0");
    assert(sign_text(s) + d =~= s);
    if n == 0 {
        assert(d == seq!['0']);
        assert(zeros_end(d, 1) == 1);
        assert(zeros_end(d, 0) == 1);
        assert(zeros_start(d, 0) == 0);
        assert(sign_text(s) + "0"@ =~= s);
    } else {
        lemma_decimal_text_leads(n);
        assert(zeros_end(d, 0) == 0);
        lemma_zeros_start(d, d.len() as int);
        let b = zeros_start(d, d.len() as int);
        lemma_digits_lower_bound(d);
        if d.len() > 15 {
            lemma_pow10_monotone(15, (d.len() - 1) as nat);
            reveal_with_fuel(pow10, 16);
            assert(false);
        }
        assert(sig_digits(s) == d.subrange(0, b));
        assert(sig_exponent(s) == d.len() - b);
        assert(whole_digits(s) == d.len());
        assert(placed(d.subrange(0, b), d.len() - b) =~= d);
    }
}

} // verus!
