use vstd::prelude::*;

verus! {

/// Ten to the power `n`.
pub open spec fn pow10(n: nat) -> nat
    decreases n,
{
    if n == 0 {
        1
    } else {
        10 * pow10((n - 1) as nat)
    }
}

pub open spec fn abs(m: int) -> int {
    if m < 0 {
        -m
    } else {
        m
    }
}

/// `|m| * 10^d > 1`, stated over integers.
pub open spec fn gt_one(m: int, d: int) -> bool {
    if d >= 0 {
        abs(m) * pow10(d as nat) > 1
    } else {
        abs(m) > pow10((-d) as nat)
    }
}

/// `|m| * 10^d < 1`, stated over integers.
pub open spec fn lt_one(m: int, d: int) -> bool {
    if d >= 0 {
        abs(m) * pow10(d as nat) < 1
    } else {
        abs(m) < pow10((-d) as nat)
    }
}

pub proof fn lemma_pow10_positive(n: nat)
    ensures
        pow10(n) >= 1,
        n > 0 ==> pow10(n) >= 10,
    decreases n,
{
    if n > 0 {
        lemma_pow10_positive((n - 1) as nat);
    }
}

pub proof fn lemma_pow10_monotone(a: nat, b: nat)
    requires
        a <= b,
    ensures
        pow10(a) <= pow10(b),
    decreases b,
{
    if a < b {
        lemma_pow10_monotone(a, (b - 1) as nat);
        lemma_pow10_positive((b - 1) as nat);
    }
}

proof fn lemma_pow10_19()
    ensures
        pow10(19) == 10_000_000_000_000_000_000,
{
    reveal_with_fuel(pow10, 20);
}

proof fn lemma_pow10_19_bound(n: nat)
    requires
        n >= 19,
    ensures
        pow10(n) > 0x8000_0000_0000_0000,
{
    lemma_pow10_19();
    lemma_pow10_monotone(19, n);
}

/// An exact decimal number, `mantissa * 10^exponent`.
#[derive(Clone, Copy, Debug, PartialEq, Eq, Structural)]
pub struct Decimal {
    pub mantissa: i64,
    pub exponent: i64,
}

impl Decimal {
    /// The product of two decimals: mantissas multiply, exponents add.
    pub open spec fn times(self, o: Decimal) -> Decimal {
        Decimal { mantissa: (self.mantissa * o.mantissa) as i64, exponent: (self.exponent + o.exponent) as i64 }
    }

    /// The number one.
    pub open spec fn one() -> Decimal {
        Decimal { mantissa: 1, exponent: 0 }
    }

    /// Ten to the power `e`.
    pub open spec fn power_of_ten(e: int) -> Decimal {
        Decimal { mantissa: 1, exponent: e as i64 }
    }

    pub fn new(mantissa: i64, exponent: i64) -> (r: Decimal)
        ensures
            r.mantissa == mantissa,
            r.exponent == exponent,
    {
        Decimal { mantissa, exponent }
    }

    /// Multiplies two decimals exactly.
    pub fn mul(self, o: Decimal) -> (r: Decimal)
        requires
            i64::MIN <= self.mantissa * o.mantissa <= i64::MAX,
            i64::MIN <= self.exponent + o.exponent <= i64::MAX,
        ensures
            r == self.times(o),
    {
        Decimal { mantissa: self.mantissa * o.mantissa, exponent: self.exponent + o.exponent }
    }
}

fn pow10_exec(k: u32) -> (r: i128)
    requires
        k <= 19,
    ensures
        r == pow10(k as nat),
{
    let mut p: i128 = 1;
    let mut i: u32 = 0;
    while i < k
        invariant
            i <= k <= 19,
            p == pow10(i as nat),
        decreases k - i,
    {
        proof {
            lemma_pow10_monotone((i + 1) as nat, 19);
            lemma_pow10_19();
        }
        p = p * 10;
        i = i + 1;
    }
    p
}

/// Decides `|m| * 10^d > 1`.
pub fn exceeds_one(m: i64, d: i128) -> (r: bool)
    ensures
        r == gt_one(m as int, d as int),
{
    let a: i128 = if m < 0 { -(m as i128) } else { m as i128 };
    assert(a == abs(m as int));
    if d >= 0 {
        proof {
            lemma_pow10_positive(d as nat);
            let p = pow10(d as nat);
            if d == 0 {
                assert(p == 1);
                assert(a * p == a) by (nonlinear_arith)
                    requires p == 1;
            }
            if a >= 1 {
                assert(a * p >= p) by (nonlinear_arith)
                    requires a >= 1, p >= 1;
            }
            if a == 0 {
                assert(a * p == 0) by (nonlinear_arith)
                    requires a == 0;
            }
        }
        if a == 0 {
            false
        } else if d > 0 {
            true
        } else {
            a > 1
        }
    } else if d <= -19 {
        proof {
            lemma_pow10_19_bound((-d) as nat);
        }
        false
    } else {
        a > pow10_exec((-d) as u32)
    }
}

/// Decides `|m| * 10^d < 1`.
pub fn below_one(m: i64, d: i128) -> (r: bool)
    ensures
        r == lt_one(m as int, d as int),
{
    let a: i128 = if m < 0 { -(m as i128) } else { m as i128 };
    assert(a == abs(m as int));
    if d >= 0 {
        proof {
            lemma_pow10_positive(d as nat);
            let p = pow10(d as nat);
            if d == 0 {
                assert(p == 1);
                assert(a * p == a) by (nonlinear_arith)
                    requires p == 1;
            }
            if a >= 1 {
                assert(a * p >= p) by (nonlinear_arith)
                    requires a >= 1, p >= 1;
            }
            if a == 0 {
                assert(a * p == 0) by (nonlinear_arith)
                    requires a == 0;
            }
        }
        a == 0
    } else if d <= -19 {
        proof {
            lemma_pow10_19_bound((-d) as nat);
        }
        true
    } else {
        a < pow10_exec((-d) as u32)
    }
}

} // verus!
