//! Exact rates. A rate is kept as the fraction it was measured as, counter
//! units over milliseconds, so that sums and quotients of rates lose nothing.
//! Where a sum or a quotient does not fit the machine integers, the operation
//! says so instead of rounding.

use vstd::prelude::*;

verus! {

/// Greatest common divisor, by Euclid's algorithm.
pub open spec fn spec_gcd(a: nat, b: nat) -> nat
    decreases b,
{
    if b == 0 {
        a
    } else {
        spec_gcd(b, a % b)
    }
}

/// `spec_gcd(a, b)` divides both `a` and `b`, and is positive unless both
/// are zero.
pub proof fn lemma_gcd_divides(a: nat, b: nat)
    requires
        a > 0 || b > 0,
    ensures
        spec_gcd(a, b) > 0,
        a % spec_gcd(a, b) == 0,
        b % spec_gcd(a, b) == 0,
        a == spec_gcd(a, b) * (a / spec_gcd(a, b)),
        b == spec_gcd(a, b) * (b / spec_gcd(a, b)),
    decreases b,
{
    let g = spec_gcd(a, b);
    if b == 0 {
        vstd::arithmetic::div_mod::lemma_mod_self_0(a as int);
        assert(0nat % a == 0) by {
            vstd::arithmetic::div_mod::lemma_small_mod(0, a);
        }
    } else {
        let r = a % b;
        lemma_gcd_divides(b, r);
        assert(g == spec_gcd(b, r));
        vstd::arithmetic::div_mod::lemma_fundamental_div_mod(a as int, b as int);
        let gi = g as int;
        let ai = a as int;
        let bi = b as int;
        let ri = r as int;
        let q = ai / bi;
        let kb = bi / gi;
        let kr = ri / gi;
        let k = kb * q + kr;
        assert(ai == k * gi) by (nonlinear_arith)
            requires
                ai == bi * q + ri,
                bi == gi * kb,
                ri == gi * kr,
                k == kb * q + kr,
        ;
        vstd::arithmetic::div_mod::lemma_mod_multiples_basic(k, gi);
        assert(ai % gi == 0);
    }
    vstd::arithmetic::div_mod::lemma_fundamental_div_mod(a as int, g as int);
    vstd::arithmetic::div_mod::lemma_fundamental_div_mod(b as int, g as int);
}

/// Greatest common divisor of two machine integers.
pub fn gcd(a: u128, b: u128) -> (g: u128)
    ensures
        g == spec_gcd(a as nat, b as nat),
{
    let mut x: u128 = a;
    let mut y: u128 = b;
    while y != 0
        invariant
            spec_gcd(x as nat, y as nat) == spec_gcd(a as nat, b as nat),
        decreases y,
    {
        let r: u128 = x % y;
        x = y;
        y = r;
    }
    x
}

/// A rate: `amount` counter units in `millis` milliseconds.
#[derive(Clone, Copy, Debug, PartialEq, Eq)]
pub struct Rate {
    pub amount: i128,
    pub millis: u128,
}

/// A quotient of two positive rates: the fraction `num / den`.
#[derive(Clone, Copy, Debug, PartialEq, Eq)]
pub struct Ratio {
    pub num: u128,
    pub den: u128,
}

impl Ratio {
    /// A ratio is a fraction of two positive numbers.
    pub open spec fn wf(&self) -> bool {
        self.num > 0 && self.den > 0
    }

    /// The number that the ratio stands for.
    pub open spec fn value(&self) -> real {
        self.num as real / self.den as real
    }
}

/// A well-formed ratio stands for a positive number.
pub proof fn lemma_ratio_positive(r: Ratio)
    requires
        r.wf(),
    ensures
        r.value() > 0real,
{
    let n = r.num as real;
    let d = r.den as real;
    assert(n / d > 0real) by (nonlinear_arith)
        requires
            n > 0real,
            d > 0real,
    ;
}

impl Rate {
    /// A rate is measured over a positive time.
    pub open spec fn wf(&self) -> bool {
        self.millis > 0
    }

    /// The number that the rate stands for, in units per millisecond.
    pub open spec fn value(&self) -> real {
        self.amount as real / self.millis as real
    }

    /// A rate is greater than zero where its amount is.
    pub open spec fn spec_is_positive(&self) -> bool {
        self.amount > 0
    }

    /// Whether the rate is greater than zero.
    #[verifier::when_used_as_spec(spec_is_positive)]
    pub fn is_positive(&self) -> (b: bool)
        ensures
            b == self.spec_is_positive(),
    {
        self.amount > 0
    }

    /// The sum of two rates over their least common time base, or `None`
    /// where a number on the way to it does not fit.
    pub open spec fn spec_checked_add(self, other: Rate) -> Option<Rate> {
        let g = spec_gcd(self.millis as nat, other.millis as nat);
        let fa = other.millis as nat / g;
        let fb = self.millis as nat / g;
        if self.millis * fa > u128::MAX || fa > i128::MAX || fb > i128::MAX {
            None
        } else {
            match (self.amount.checked_mul(fa as i128), other.amount.checked_mul(fb as i128)) {
                (Some(pa), Some(pb)) => match pa.checked_add(pb) {
                    Some(amount) => Some(Rate { amount, millis: (self.millis * fa) as u128 }),
                    None => None,
                },
                _ => None,
            }
        }
    }

    /// Adds two rates exactly.
    pub fn checked_add(&self, other: &Rate) -> (sum: Option<Rate>)
        requires
            self.wf(),
            other.wf(),
        ensures
            sum == self.spec_checked_add(*other),
            sum matches Some(s) ==> s.wf() && s.value() == self.value() + other.value(),
    {
        let g: u128 = gcd(self.millis, other.millis);
        proof {
            lemma_gcd_divides(self.millis as nat, other.millis as nat);
        }
        let fa: u128 = other.millis / g;
        let fb: u128 = self.millis / g;
        let millis: u128 = match self.millis.checked_mul(fa) {
            Some(m) => m,
            None => {
                return None;
            },
        };
        if fa > i128::MAX as u128 || fb > i128::MAX as u128 {
            return None;
        }
        let pa: i128 = match self.amount.checked_mul(fa as i128) {
            Some(p) => p,
            None => {
                return None;
            },
        };
        let pb: i128 = match other.amount.checked_mul(fb as i128) {
            Some(p) => p,
            None => {
                return None;
            },
        };
        let amount: i128 = match pa.checked_add(pb) {
            Some(a) => a,
            None => {
                return None;
            },
        };
        proof {
            lemma_sum_value(*self, *other);
        }
        Some(Rate { amount, millis })
    }

    /// The quotient `self / other` of two positive rates, or `None` where
    /// its numerator or denominator does not fit.
    pub open spec fn spec_checked_div(self, other: Rate) -> Option<Ratio> {
        match ((self.amount as u128).checked_mul(other.millis), self.millis.checked_mul(
            other.amount as u128,
        )) {
            (Some(num), Some(den)) => Some(Ratio { num, den }),
            _ => None,
        }
    }

    /// Divides one positive rate by another exactly.
    pub fn checked_div(&self, other: &Rate) -> (quotient: Option<Ratio>)
        requires
            self.wf(),
            other.wf(),
            self.is_positive(),
            other.is_positive(),
        ensures
            quotient == self.spec_checked_div(*other),
            quotient matches Some(q) ==> q.wf() && q.value() == self.value() / other.value(),
    {
        let num: u128 = match (self.amount as u128).checked_mul(other.millis) {
            Some(n) => n,
            None => {
                return None;
            },
        };
        let den: u128 = match self.millis.checked_mul(other.amount as u128) {
            Some(d) => d,
            None => {
                return None;
            },
        };
        proof {
            lemma_quotient_value(*self, *other);
        }
        Some(Ratio { num, den })
    }
}

/// A rate is positive exactly when the number it stands for is.
pub proof fn lemma_rate_sign(r: Rate)
    requires
        r.wf(),
    ensures
        r.is_positive() <==> r.value() > 0real,
{
    let n = r.amount as real;
    let d = r.millis as real;
    assert(n > 0real <==> n / d > 0real) by (nonlinear_arith)
        requires
            d > 0real,
    ;
}

/// Where the sum of two rates fits, it stands for the sum of the numbers
/// that the two rates stand for.
pub proof fn lemma_sum_value(a: Rate, b: Rate)
    requires
        a.wf(),
        b.wf(),
    ensures
        a.spec_checked_add(b) matches Some(s) ==> s.wf() && s.value() == a.value() + b.value(),
{
    if let Some(s) = a.spec_checked_add(b) {
        lemma_gcd_divides(a.millis as nat, b.millis as nat);
        let g = spec_gcd(a.millis as nat, b.millis as nat) as int;
        let fa = b.millis as int / g;
        let fb = a.millis as int / g;
        let am = a.millis as int;
        let bm = b.millis as int;
        assert(am == g * fb);
        assert(bm == g * fa);
        assert(fa > 0 && fb > 0) by (nonlinear_arith)
            requires
                am == g * fb,
                bm == g * fa,
                am > 0,
                bm > 0,
                g > 0,
        ;
        assert(s.millis == am * fa);
        assert(s.amount == a.amount * fa + b.amount * fb);
        assert(am * fa == bm * fb) by (nonlinear_arith)
            requires
                am == g * fb,
                bm == g * fa,
        ;
        assert(am * fa > 0) by (nonlinear_arith)
            requires
                am > 0,
                fa > 0,
        ;
        let x = a.amount as real;
        let y = b.amount as real;
        let p = am as real;
        let q = bm as real;
        let u = fa as real;
        let v = fb as real;
        assert((a.amount * fa) as real == x * u) by (nonlinear_arith)
            requires
                x == a.amount as real,
                u == fa as real,
        ;
        assert((b.amount * fb) as real == y * v) by (nonlinear_arith)
            requires
                y == b.amount as real,
                v == fb as real,
        ;
        assert((am * fa) as real == p * u) by (nonlinear_arith)
            requires
                p == am as real,
                u == fa as real,
        ;
        assert((bm * fb) as real == q * v) by (nonlinear_arith)
            requires
                q == bm as real,
                v == fb as real,
        ;
        assert(p * u == q * v);
        assert((x * u + y * v) / (p * u) == x / p + y / q) by (nonlinear_arith)
            requires
                p > 0real,
                q > 0real,
                u > 0real,
                v > 0real,
                p * u == q * v,
        ;
    }
}

/// Where the quotient of two positive rates fits, it stands for the quotient
/// of the numbers that the two rates stand for, and is positive.
pub proof fn lemma_quotient_value(a: Rate, b: Rate)
    requires
        a.wf(),
        b.wf(),
        a.is_positive(),
        b.is_positive(),
    ensures
        a.spec_checked_div(b) matches Some(q) ==> q.wf() && q.value() == a.value() / b.value()
            && q.value() > 0real,
{
    if let Some(r) = a.spec_checked_div(b) {
        let an = a.amount as int;
        let am = a.millis as int;
        let bn = b.amount as int;
        let bm = b.millis as int;
        assert(r.num == an * bm);
        assert(r.den == am * bn);
        assert(an * bm > 0 && am * bn > 0) by (nonlinear_arith)
            requires
                an > 0,
                am > 0,
                bn > 0,
                bm > 0,
        ;
        let x = an as real;
        let p = am as real;
        let y = bn as real;
        let q = bm as real;
        assert((an * bm) as real == x * q) by (nonlinear_arith)
            requires
                x == an as real,
                q == bm as real,
        ;
        assert((am * bn) as real == p * y) by (nonlinear_arith)
            requires
                p == am as real,
                y == bn as real,
        ;
        assert((x * q) / (p * y) == (x / p) / (y / q)) by (nonlinear_arith)
            requires
                x > 0real,
                p > 0real,
                y > 0real,
                q > 0real,
        ;
        lemma_ratio_positive(r);
    }
}

} // verus!
