//! Rounding to single precision.
//!
//! Speeds are interpolated in single precision, whose numbers have 24
//! significant bits. Here such a number is a fraction of integers: the rounding
//! of the fraction `num / den` is a fraction whose denominator is a power of
//! two. The fractions rounded here lie below two to the power of 24.

use vstd::prelude::*;

verus! {

/// The integer nearest to `num / den`; of two that are equally near the even
/// one.
pub open spec fn nearest_even(num: nat, den: nat) -> nat {
    let floor = num / den;
    let rest = num % den;
    if 2 * rest > den || (2 * rest == den && floor % 2 == 1) {
        floor + 1
    } else {
        floor
    }
}

/// How much the numerator lacks of 24 significant bits.
pub open spec fn missing(num: nat, den: nat) -> nat {
    if num < 0x80_0000 * den {
        (0x80_0000 * den - num) as nat
    } else {
        0
    }
}

/// `num / den` rounded to 24 significant bits, as a numerator and a denominator:
/// the fraction is doubled until its integral part has 24 bits, and then
/// rounded to an integer.
pub open spec fn rounded(num: nat, den: nat) -> (nat, nat)
    decreases missing(num, den),
{
    if num == 0 || den == 0 {
        (0, 1)
    } else if num < 0x80_0000 * den {
        let r = rounded(2 * num, den);
        (r.0, 2 * r.1)
    } else {
        (nearest_even(num, den), 1)
    }
}

/// Rounding keeps a fraction on its side of every integer.
pub proof fn lemma_rounded_bounds(num: nat, den: nat, c: nat)
    requires
        den > 0,
    ensures
        rounded(num, den).1 > 0,
        num <= c * den ==> rounded(num, den).0 <= c * rounded(num, den).1,
        num >= c * den ==> rounded(num, den).0 >= c * rounded(num, den).1,
    decreases missing(num, den),
{
    if num == 0 {
        if c > 0 {
            assert(c * den > 0) by (nonlinear_arith)
                requires
                    c > 0,
                    den > 0,
            ;
        }
        assert(c * 1 == c);
    } else if num < 0x80_0000 * den {
        lemma_rounded_bounds(2 * num, den, 2 * c);
        let r = rounded(2 * num, den);
        assert((2 * c) * den == 2 * (c * den)) by (nonlinear_arith);
        assert((2 * c) * r.1 == c * (2 * r.1)) by (nonlinear_arith);
    } else {
        let floor = num / den;
        let rest = num % den;
        assert(num == floor * den + rest) by {
            vstd::arithmetic::div_mod::lemma_fundamental_div_mod(num as int, den as int);
            assert(den * floor == floor * den) by (nonlinear_arith);
        }
        assert(rest < den);
        assert(c * 1 == c);
        if num <= c * den {
            assert(floor <= c && (rest > 0 ==> floor < c)) by (nonlinear_arith)
                requires
                    floor * den + rest <= c * den,
                    den > 0,
                    rest >= 0,
            ;
        }
        if num >= c * den {
            assert(floor >= c) by (nonlinear_arith)
                requires
                    floor * den + rest >= c * den,
                    rest < den,
                    den > 0,
            ;
        }
    }
}

/// Rounding moves a fraction by at most one part in two to the power of 24.
pub proof fn lemma_rounded_close(num: nat, den: nat)
    requires
        den > 0,
    ensures
        ({
            let r = rounded(num, den);
            let off = num * r.1 - r.0 * den;
            -(num * r.1) <= 0x100_0000 * off <= num * r.1
        }),
    decreases missing(num, den),
{
    let r = rounded(num, den);
    if num == 0 {
        assert(num * r.1 == 0 && r.0 * den == 0) by (nonlinear_arith)
            requires
                num == 0,
                r.0 == 0,
        ;
    } else if num < 0x80_0000 * den {
        lemma_rounded_close(2 * num, den);
        let q = rounded(2 * num, den);
        assert((2 * num) * q.1 == num * (2 * q.1)) by (nonlinear_arith);
    } else {
        let floor = num / den;
        let rest = num % den;
        assert(num == floor * den + rest) by {
            vstd::arithmetic::div_mod::lemma_fundamental_div_mod(num as int, den as int);
            assert(den * floor == floor * den) by (nonlinear_arith);
        }
        assert(rest < den);
        assert(num * 1 == num);
        assert((floor + 1) * den == floor * den + den) by (nonlinear_arith);
    }
}

proof fn lemma_half_even_bound(num: nat, den: nat)
    requires
        den > 0,
        num < 0x100_0000 * den,
    ensures
        nearest_even(num, den) <= 0x100_0000,
{
    let floor = num / den;
    assert(floor < 0x100_0000) by (nonlinear_arith)
        requires
            floor == num / den,
            num < 0x100_0000 * den,
            den > 0,
    ;
}

/// Rounds `num / den` to 24 significant bits.
pub fn round_fraction(num: u128, den: u128) -> (r: (u128, u128))
    requires
        0 < den <= 0x1_0000_0000_0000_0000,
        num < 0x100_0000 * den,
    ensures
        (r.0 as nat, r.1 as nat) == rounded(num as nat, den as nat),
        0 < r.1,
        num > 0 ==> r.1 < 0x100_0000 * den,
        num == 0 ==> r.1 == 1,
{
    if num == 0 {
        return (0, 1);
    }
    assert(0x80_0000 * den <= 0x80_0000 * 0x1_0000_0000_0000_0000);
    let least: u128 = 0x80_0000 * den;
    let mut n: u128 = num;
    let mut d: u128 = 1;
    while n < least
        invariant
            0 < num,
            0 < den <= 0x1_0000_0000_0000_0000,
            least == 0x80_0000 * den,
            0 < n < 2 * least,
            0 < d <= n,
            rounded(num as nat, den as nat).0 == rounded(n as nat, den as nat).0,
            rounded(num as nat, den as nat).1 == d * rounded(n as nat, den as nat).1,
        decreases missing(n as nat, den as nat),
    {
        let ghost before = rounded(n as nat, den as nat);
        let ghost after = rounded(2 * n as nat, den as nat);
        assert(before == (after.0, 2 * after.1));
        assert(d * (2 * after.1) == (2 * d) * after.1) by (nonlinear_arith);
        n = 2 * n;
        d = 2 * d;
    }
    assert(rounded(n as nat, den as nat) == (nearest_even(n as nat, den as nat), 1nat));
    assert(d * 1 == d);
    let floor: u128 = n / den;
    let rest: u128 = n % den;
    proof {
        lemma_half_even_bound(n as nat, den as nat);
    }
    if 2 * rest > den || (2 * rest == den && floor % 2 == 1) {
        (floor + 1, d)
    } else {
        (floor, d)
    }
}

proof fn lemma_nearest_even_monotone(num1: nat, den1: nat, num2: nat, den2: nat)
    requires
        den1 > 0,
        den2 > 0,
        num1 * den2 <= num2 * den1,
    ensures
        nearest_even(num1, den1) <= nearest_even(num2, den2),
{
    let q1 = num1 / den1;
    let r1 = num1 % den1;
    let q2 = num2 / den2;
    let r2 = num2 % den2;
    vstd::arithmetic::div_mod::lemma_fundamental_div_mod(num1 as int, den1 as int);
    vstd::arithmetic::div_mod::lemma_fundamental_div_mod(num2 as int, den2 as int);
    assert(r1 < den1 && r2 < den2);
    assert(q1 <= q2) by (nonlinear_arith)
        requires
            num1 == den1 * q1 + r1,
            num2 == den2 * q2 + r2,
            r2 < den2,
            den1 > 0,
            den2 > 0,
            num1 * den2 <= num2 * den1,
    ;
    if q1 == q2 {
        assert(r1 * den2 <= r2 * den1) by (nonlinear_arith)
            requires
                num1 == den1 * q1 + r1,
                num2 == den2 * q2 + r2,
                q1 == q2,
                num1 * den2 <= num2 * den1,
        ;
        if 2 * r1 >= den1 {
            assert(2 * r2 >= den2 && (2 * r1 > den1 ==> 2 * r2 > den2)) by (nonlinear_arith)
                requires
                    r1 * den2 <= r2 * den1,
                    2 * r1 >= den1,
                    den1 > 0,
                    den2 > 0,
            ;
        }
    }
}

/// Rounding never turns the order of two fractions round.
pub proof fn lemma_rounded_monotone(num1: nat, den1: nat, num2: nat, den2: nat)
    requires
        den1 > 0,
        den2 > 0,
        num1 * den2 <= num2 * den1,
    ensures
        rounded(num1, den1).0 * rounded(num2, den2).1 <= rounded(num2, den2).0 * rounded(
            num1,
            den1,
        ).1,
    decreases missing(num1, den1) + missing(num2, den2),
{
    let a = rounded(num1, den1);
    let b = rounded(num2, den2);
    if num1 == 0 {
        assert(0 * b.1 == 0);
        assert(b.0 * a.1 >= 0) by (nonlinear_arith)
            requires
                b.0 >= 0,
                a.1 >= 0,
        ;
    } else {
        assert(num2 > 0) by (nonlinear_arith)
            requires
                num1 > 0,
                den2 > 0,
                num1 * den2 <= num2 * den1,
        ;
        let low1 = num1 < 0x80_0000 * den1;
        let low2 = num2 < 0x80_0000 * den2;
        if low1 && low2 {
            assert((2 * num1) * den2 <= (2 * num2) * den1) by (nonlinear_arith)
                requires
                    num1 * den2 <= num2 * den1,
            ;
            lemma_rounded_monotone(2 * num1, den1, 2 * num2, den2);
            let c = rounded(2 * num1, den1);
            let d = rounded(2 * num2, den2);
            assert(c.0 * (2 * d.1) == 2 * (c.0 * d.1)) by (nonlinear_arith);
            assert(d.0 * (2 * c.1) == 2 * (d.0 * c.1)) by (nonlinear_arith);
        } else if low1 || !low2 {
            if low1 {
                lemma_rounded_bounds(num1, den1, 0x80_0000);
                lemma_rounded_bounds(num2, den2, 0x80_0000);
                assert(a.0 * b.1 <= b.0 * a.1) by (nonlinear_arith)
                    requires
                        a.0 <= 0x80_0000 * a.1,
                        b.0 >= 0x80_0000 * b.1,
                        a.1 > 0,
                        b.1 > 0,
                ;
            } else {
                lemma_nearest_even_monotone(num1, den1, num2, den2);
                assert(a.0 * 1 == a.0);
                assert(b.0 * 1 == b.0);
            }
        } else {
            assert(false) by (nonlinear_arith)
                requires
                    num1 >= 0x80_0000 * den1,
                    num2 < 0x80_0000 * den2,
                    num1 * den2 <= num2 * den1,
                    den1 > 0,
                    den2 > 0,
            ;
        }
    }
}

} // verus!
