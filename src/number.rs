use vstd::prelude::*;

verus! {

/// Greatest common divisor, by Euclid's algorithm.
pub open spec fn gcd(a: nat, b: nat) -> nat
    decreases b,
{
    if b == 0 {
        a
    } else {
        gcd(b, a % b)
    }
}

pub proof fn lemma_gcd_bounds(a: nat, b: nat)
    requires
        b > 0,
    ensures
        0 < gcd(a, b) <= b,
    decreases b,
{
    assert(gcd(a, b) == gcd(b, a % b));
    assert(a % b < b);
    if a % b != 0 {
        lemma_gcd_bounds(b, a % b);
    } else {
        assert(gcd(b, 0) == b);
    }
}

/// A non-negative rational number `num / den`. The library builds each value with
/// numerator and denominator divided through by their greatest common divisor.
#[derive(Clone, Copy, Debug, PartialEq, Eq, Structural)]
pub struct Number {
    pub num: u128,
    pub den: u128,
}

/// `n / d` divided through by the greatest common divisor of `n` and `d`.
pub open spec fn reduced(n: u128, d: u128) -> Number {
    let g = gcd(n as nat, d as nat);
    Number { num: (n as nat / g) as u128, den: (d as nat / g) as u128 }
}

/// The sum `a + b`, where numerator and denominator fit in 128 bits.
pub open spec fn sum_of(a: Number, b: Number) -> Option<Number> {
    let n = a.num * b.den + b.num * a.den;
    let d = a.den * b.den;
    if n <= u128::MAX && d <= u128::MAX {
        Some(reduced(n as u128, d as u128))
    } else {
        None
    }
}

/// The quotient `a / b`, for a non-zero `b`, where numerator and denominator fit in 128 bits.
pub open spec fn quotient_of(a: Number, b: Number) -> Option<Number> {
    let n = a.num * b.den;
    let d = a.den * b.num;
    if b.num != 0 && n <= u128::MAX && d <= u128::MAX {
        Some(reduced(n as u128, d as u128))
    } else {
        None
    }
}

impl Number {
    pub open spec fn wf(self) -> bool {
        self.den > 0
    }

    /// The rational `num / den`, divided through by the greatest common divisor.
    pub fn new(num: u128, den: u128) -> (r: Number)
        requires
            den > 0,
        ensures
            r == reduced(num, den),
            r.wf(),
    {
        let g = gcd_exec(num, den);
        proof {
            lemma_gcd_bounds(num as nat, den as nat);
            assert(den as nat / g as nat >= 1) by (nonlinear_arith)
                requires g as nat <= den as nat, g > 0;
        }
        Number { num: num / g, den: den / g }
    }

    /// The whole number `n`.
    pub fn whole(n: u128) -> (r: Number)
        ensures
            r == (Number { num: n, den: 1 }),
    {
        Number { num: n, den: 1 }
    }

    pub fn add(&self, other: &Number) -> (r: Option<Number>)
        requires
            self.wf(),
            other.wf(),
        ensures
            r == sum_of(*self, *other),
            r matches Some(v) ==> v.wf(),
    {
        let x = match self.num.checked_mul(other.den) {
            Some(x) => x,
            None => {
                assert(self.num * other.den + other.num * self.den > u128::MAX) by (nonlinear_arith)
                    requires self.num * other.den > u128::MAX, other.num * self.den >= 0;
                return None;
            },
        };
        let y = match other.num.checked_mul(self.den) {
            Some(y) => y,
            None => {
                return None;
            },
        };
        let n = match x.checked_add(y) {
            Some(n) => n,
            None => {
                return None;
            },
        };
        let d = match self.den.checked_mul(other.den) {
            Some(d) => d,
            None => {
                return None;
            },
        };
        assert(d > 0) by (nonlinear_arith)
            requires d == self.den * other.den, self.den > 0, other.den > 0;
        Some(Number::new(n, d))
    }

    pub fn div(&self, other: &Number) -> (r: Option<Number>)
        requires
            self.wf(),
            other.wf(),
        ensures
            r == quotient_of(*self, *other),
            r matches Some(v) ==> v.wf(),
    {
        if other.num == 0 {
            return None;
        }
        let n = match self.num.checked_mul(other.den) {
            Some(n) => n,
            None => {
                return None;
            },
        };
        let d = match self.den.checked_mul(other.num) {
            Some(d) => d,
            None => {
                return None;
            },
        };
        assert(d > 0) by (nonlinear_arith)
            requires d == self.den * other.num, self.den > 0, other.num > 0;
        Some(Number::new(n, d))
    }
}

fn gcd_exec(a: u128, b: u128) -> (g: u128)
    ensures
        g == gcd(a as nat, b as nat),
{
    let mut x = a;
    let mut y = b;
    while y != 0
        invariant
            gcd(x as nat, y as nat) == gcd(a as nat, b as nat),
        decreases y,
    {
        let t = x % y;
        x = y;
        y = t;
    }
    x
}

} // verus!
