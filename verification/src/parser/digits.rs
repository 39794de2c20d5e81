//! Decimal digit strings and their values, with the facts the numeric
//! literal reader relies on.
use vstd::prelude::*;

verus! {

pub open spec fn is_digit(c: char) -> bool {
    '0' <= c && c <= '9'
}

pub open spec fn digit_value(c: char) -> nat {
    ((c as u32) - ('0' as u32)) as nat
}

pub open spec fn all_digits(s: Seq<char>) -> bool {
    forall|i: int| 0 <= i < s.len() ==> #[trigger] is_digit(s[i])
}

/// The value of a string of decimal digits, most significant first.
pub open spec fn digits_value(s: Seq<char>) -> nat
    decreases s.len(),
{
    if s.len() == 0 {
        0
    } else {
        digits_value(s.drop_last()) * 10 + digit_value(s.last())
    }
}

pub open spec fn pow10(k: nat) -> nat
    decreases k,
{
    if k == 0 {
        1
    } else {
        10 * pow10((k - 1) as nat)
    }
}

pub proof fn lemma_pow10_positive(k: nat)
    ensures
        pow10(k) >= 1,
    decreases k,
{
    if k > 0 {
        lemma_pow10_positive((k - 1) as nat);
    }
}

pub proof fn lemma_pow10_monotone(a: nat, b: nat)
    requires
        a <= b,
    ensures
        pow10(a) <= pow10(b),
    decreases b,
{
    if a < b {
        lemma_pow10_monotone(a, (b - 1) as nat);
        lemma_pow10_positive((b - 1) as nat);
    }
}

pub proof fn lemma_pow10_add(a: nat, b: nat)
    ensures
        pow10(a + b) == pow10(a) * pow10(b),
    decreases b,
{
    if b > 0 {
        lemma_pow10_add(a, (b - 1) as nat);
        assert(pow10(a + b) == 10 * pow10((a + b - 1) as nat));
        assert((a + b - 1) as nat == a + (b - 1) as nat);
        let x = pow10(a);
        let y = pow10((b - 1) as nat);
        assert(pow10(b) == 10 * y);
        assert(pow10((a + (b - 1) as nat) as nat) == x * y);
        assert(10 * (x * y) == x * (10 * y)) by (nonlinear_arith);
    } else {
        assert(pow10(b) == 1);
        assert(a + b == a);
        assert(pow10(a) * 1 == pow10(a));
    }
}

/// Appending a digit multiplies by ten and adds it.
pub proof fn lemma_digits_push(s: Seq<char>, c: char)
    ensures
        digits_value(s.push(c)) == digits_value(s) * 10 + digit_value(c),
{
    assert(s.push(c).drop_last() =~= s);
}

/// A digit string read as a prefix and a suffix.
pub proof fn lemma_digits_split(a: Seq<char>, b: Seq<char>)
    ensures
        digits_value(a + b) == digits_value(a) * pow10(b.len()) + digits_value(b),
    decreases b.len(),
{
    if b.len() == 0 {
        assert(a + b =~= a);
        assert(pow10(0) == 1);
        assert(digits_value(b) == 0);
        assert(digits_value(a) * 1 == digits_value(a));
    } else {
        let b1 = b.drop_last();
        lemma_digits_split(a, b1);
        assert((a + b).drop_last() =~= a + b1);
        assert((a + b).last() == b.last());
        assert(digits_value(a + b) == digits_value(a + b1) * 10 + digit_value(b.last()));
        assert(digits_value(b) == digits_value(b1) * 10 + digit_value(b.last()));
        let va = digits_value(a);
        let p = pow10(b1.len());
        let vb = digits_value(b1);
        let d = digit_value(b.last());
        assert(pow10(b.len()) == 10 * p);
        assert((va * p + vb) * 10 + d == va * (10 * p) + (vb * 10 + d)) by (nonlinear_arith);
    }
}

pub proof fn lemma_digits_bound(s: Seq<char>)
    requires
        all_digits(s),
    ensures
        digits_value(s) < pow10(s.len()),
    decreases s.len(),
{
    if s.len() > 0 {
        let s1 = s.drop_last();
        assert(all_digits(s1)) by {
            assert forall|i: int| 0 <= i < s1.len() implies #[trigger] is_digit(s1[i]) by {
                assert(is_digit(s[i]));
            }
        }
        lemma_digits_bound(s1);
        assert(is_digit(s[s.len() - 1]));
        let v = digits_value(s1);
        let p = pow10(s1.len());
        let d = digit_value(s.last());
        assert(d <= 9);
        assert(v + 1 <= p);
        assert(v * 10 + d < 10 * p) by (nonlinear_arith)
            requires
                v + 1 <= p,
                d <= 9,
        ;
    }
}

/// A digit string made only of zeros is worth zero, and conversely.
pub proof fn lemma_digits_zero(s: Seq<char>)
    requires
        all_digits(s),
    ensures
        (digits_value(s) == 0) <==> (forall|i: int| 0 <= i < s.len() ==> #[trigger] s[i] == '0'),
    decreases s.len(),
{
    if s.len() > 0 {
        let s1 = s.drop_last();
        assert(all_digits(s1)) by {
            assert forall|i: int| 0 <= i < s1.len() implies #[trigger] is_digit(s1[i]) by {
                assert(is_digit(s[i]));
            }
        }
        lemma_digits_zero(s1);
        assert(is_digit(s[s.len() - 1]));
        if digits_value(s) == 0 {
            assert(digits_value(s1) == 0);
            assert(digit_value(s.last()) == 0);
            assert forall|i: int| 0 <= i < s.len() implies #[trigger] s[i] == '0' by {
                if i < s.len() - 1 {
                    assert(s1[i] == '0');
                }
            }
        }
        if forall|i: int| 0 <= i < s.len() ==> #[trigger] s[i] == '0' {
            assert forall|i: int| 0 <= i < s1.len() implies #[trigger] s1[i] == '0' by {
                assert(s[i] == '0');
            }
            assert(s[s.len() - 1] == '0');
        }
    }
}

/// A digit string that does not start with zero is at least ten to the
/// power of its length less one.
pub proof fn lemma_digits_lower_bound(s: Seq<char>)
    requires
        all_digits(s),
        s.len() > 0,
        s[0] != '0',
    ensures
        digits_value(s) >= pow10((s.len() - 1) as nat),
{
    let head = s.take(1);
    let tail = s.skip(1);
    assert(s =~= head + tail);
    lemma_digits_split(head, tail);
    assert(head.drop_last() =~= Seq::<char>::empty());
    assert(head.last() == s[0]);
    assert(digits_value(head.drop_last()) == 0);
    assert(is_digit(s[0]));
    assert(digits_value(head) == digit_value(s[0]));
    assert(digit_value(s[0]) >= 1);
    lemma_pow10_positive(tail.len());
    let p = pow10(tail.len());
    let d = digits_value(head);
    assert(d * p >= p) by (nonlinear_arith)
        requires
            d >= 1,
            p >= 1,
    ;
}

} // verus!
