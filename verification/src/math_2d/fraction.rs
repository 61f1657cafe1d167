use vstd::prelude::*;

verus! {

/// The greatest common divisor, by Euclid's rule; `gcd(a, 0)` is `a`.
pub open spec fn gcd(a: nat, b: nat) -> nat
    decreases b,
{
    if b == 0 {
        a
    } else {
        gcd(b, a % b)
    }
}

/// The fraction `num / den` in lowest terms, for a non-negative `num` and a
/// positive `den`.
pub open spec fn reduced(num: int, den: int) -> Fraction {
    Fraction {
        num: (num / (gcd(num as nat, den as nat) as int)) as u128,
        den: (den / (gcd(num as nat, den as nat) as int)) as u128,
    }
}

/// A non-negative fraction.
#[derive(Clone, Copy, Debug, PartialEq, Eq, Structural)]
pub struct Fraction {
    pub num: u128,
    pub den: u128,
}

/// The greatest common divisor of a pair with a positive member is positive
/// and divides both.
pub proof fn lemma_gcd_divides(a: nat, b: nat)
    requires
        a > 0 || b > 0,
    ensures
        gcd(a, b) > 0,
        a % gcd(a, b) == 0,
        b % gcd(a, b) == 0,
        gcd(a, b) <= a || a == 0,
        gcd(a, b) <= b || b == 0,
    decreases b,
{
    if b == 0 {
        assert(a % a == 0) by (nonlinear_arith)
            requires
                a > 0,
        ;
    } else {
        let r = a % b;
        lemma_gcd_divides(b, r);
        let g = gcd(b, r);
        vstd::arithmetic::div_mod::lemma_fundamental_div_mod(a as int, b as int);
        vstd::arithmetic::div_mod::lemma_fundamental_div_mod(b as int, g as int);
        vstd::arithmetic::div_mod::lemma_fundamental_div_mod(r as int, g as int);
        let k = (b as int / g as int) * (a as int / b as int) + (r as int / g as int);
        assert(a == k * g) by (nonlinear_arith)
            requires
                a == b * (a as int / b as int) + r,
                b == g * (b as int / g as int),
                r == g * (r as int / g as int),
                k == (b as int / g as int) * (a as int / b as int) + (r as int / g as int),
        ;
        vstd::arithmetic::div_mod::lemma_mod_multiples_basic(k, g as int);
        if a > 0 {
            assert(g <= a) by (nonlinear_arith)
                requires
                    a == k * g,
                    a > 0,
                    g > 0,
            ;
        }
    }
}

/// Every common divisor of two numbers divides their greatest common
/// divisor.
pub proof fn lemma_gcd_is_greatest(a: nat, b: nat, k: nat)
    requires
        k > 0,
        a % k == 0,
        b % k == 0,
    ensures
        gcd(a, b) % k == 0,
    decreases b,
{
    if b != 0 {
        let r = a % b;
        let q = a as int / b as int;
        vstd::arithmetic::div_mod::lemma_fundamental_div_mod(a as int, b as int);
        vstd::arithmetic::div_mod::lemma_fundamental_div_mod(a as int, k as int);
        vstd::arithmetic::div_mod::lemma_fundamental_div_mod(b as int, k as int);
        let x = a as int / k as int;
        let y = b as int / k as int;
        assert(r == (x - y * q) * k) by (nonlinear_arith)
            requires
                a == b * q + r,
                a == k * x,
                b == k * y,
        ;
        vstd::arithmetic::div_mod::lemma_mod_multiples_basic(x - y * q, k as int);
        lemma_gcd_is_greatest(b, r, k);
    }
}

/// A fraction made by [`reduced`] is in lowest terms: its numerator and its
/// denominator have no common divisor but one.
pub proof fn lemma_reduced_is_lowest(num: int, den: int)
    requires
        0 <= num,
        0 < den,
    ensures
        gcd(
            (num / (gcd(num as nat, den as nat) as int)) as nat,
            (den / (gcd(num as nat, den as nat) as int)) as nat,
        ) == 1,
{
    let g = gcd(num as nat, den as nat) as int;
    lemma_gcd_divides(num as nat, den as nat);
    vstd::arithmetic::div_mod::lemma_fundamental_div_mod(num, g);
    vstd::arithmetic::div_mod::lemma_fundamental_div_mod(den, g);
    let n = num / g;
    let d = den / g;
    assert(n >= 0 && d > 0) by (nonlinear_arith)
        requires
            num == g * n,
            den == g * d,
            g > 0,
            num >= 0,
            den > 0,
    ;
    let inner = gcd(n as nat, d as nat) as int;
    lemma_gcd_divides(n as nat, d as nat);
    vstd::arithmetic::div_mod::lemma_fundamental_div_mod(n, inner);
    vstd::arithmetic::div_mod::lemma_fundamental_div_mod(d, inner);
    let both = g * inner;
    assert(both > 0 && num == (n / inner) * both && den == (d / inner) * both) by (nonlinear_arith)
        requires
            both == g * inner,
            g > 0,
            inner > 0,
            num == g * n,
            den == g * d,
            n == inner * (n / inner),
            d == inner * (d / inner),
    ;
    vstd::arithmetic::div_mod::lemma_mod_multiples_basic(n / inner, both);
    vstd::arithmetic::div_mod::lemma_mod_multiples_basic(d / inner, both);
    lemma_gcd_is_greatest(num as nat, den as nat, both as nat);
    if inner > 1 {
        assert(both > g) by (nonlinear_arith)
            requires
                both == g * inner,
                g > 0,
                inner > 1,
        ;
        vstd::arithmetic::div_mod::lemma_small_mod(g as nat, both as nat);
    }
}

/// A fraction in lowest terms has the value it was made from, a positive
/// denominator, and a numerator that is no larger than the one it was made
/// from.
pub proof fn lemma_reduced_value(num: int, den: int)
    requires
        0 <= num <= u128::MAX,
        0 < den <= u128::MAX,
    ensures
        reduced(num, den).den > 0,
        reduced(num, den).num * den == num * reduced(num, den).den,
        reduced(num, den).num <= num,
        reduced(num, den).den <= den,
        num <= den <==> reduced(num, den).num <= reduced(num, den).den,
        num == 0 <==> reduced(num, den).num == 0,
        num == den <==> reduced(num, den).num == reduced(num, den).den,
{
    let g = gcd(num as nat, den as nat) as int;
    lemma_gcd_divides(num as nat, den as nat);
    vstd::arithmetic::div_mod::lemma_fundamental_div_mod(num, g);
    vstd::arithmetic::div_mod::lemma_fundamental_div_mod(den, g);
    let n = num / g;
    let d = den / g;
    assert(0 <= n <= num && 0 < d <= den && n * den == num * d && (num <= den <==> n <= d) && (num
        == den <==> n == d) && (num == 0 <==> n == 0)) by (nonlinear_arith)
        requires
            num == g * n,
            den == g * d,
            g > 0,
            num >= 0,
            den > 0,
    ;
}

impl Fraction {
    /// Zero, as `0 / 1`.
    pub open spec fn spec_zero() -> Fraction {
        Fraction { num: 0, den: 1 }
    }

    /// One, as `1 / 1`.
    pub open spec fn spec_one() -> Fraction {
        Fraction { num: 1, den: 1 }
    }

    /// The fraction is in lowest terms and has a positive denominator.
    pub open spec fn wf(&self) -> bool {
        self.den > 0 && gcd(self.num as nat, self.den as nat) == 1
    }

    /// The fraction lies between zero and one, both included.
    pub open spec fn is_parameter(&self) -> bool {
        self.den > 0 && self.num <= self.den
    }

    /// `num / den` in lowest terms.
    pub fn new(num: u128, den: u128) -> (fraction: Fraction)
        requires
            den > 0,
        ensures
            fraction == reduced(num as int, den as int),
            fraction.wf(),
    {
        let divisor = greatest_common_divisor(num, den);
        proof {
            lemma_gcd_divides(num as nat, den as nat);
            lemma_reduced_is_lowest(num as int, den as int);
            lemma_reduced_value(num as int, den as int);
        }
        Fraction { num: num / divisor, den: den / divisor }
    }

    #[verifier::when_used_as_spec(spec_zero)]
    pub fn zero() -> (fraction: Fraction)
        ensures
            fraction == Fraction::spec_zero(),
            fraction.wf(),
    {
        proof {
            reveal_with_fuel(gcd, 3);
        }
        Fraction { num: 0, den: 1 }
    }

    #[verifier::when_used_as_spec(spec_one)]
    pub fn one() -> (fraction: Fraction)
        ensures
            fraction == Fraction::spec_one(),
            fraction.wf(),
    {
        proof {
            reveal_with_fuel(gcd, 3);
        }
        Fraction { num: 1, den: 1 }
    }
}

/// Euclid's algorithm.
fn greatest_common_divisor(a: u128, b: u128) -> (divisor: u128)
    ensures
        divisor == gcd(a as nat, b as nat),
{
    let mut x: u128 = a;
    let mut y: u128 = b;
    while y != 0
        invariant
            gcd(x as nat, y as nat) == gcd(a as nat, b as nat),
        decreases y,
    {
        let r: u128 = x % y;
        x = y;
        y = r;
    }
    x
}

} // verus!
