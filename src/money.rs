//! Fixed-point amounts of money with four fractional digits.
use vstd::prelude::*;

verus! {

/// The largest magnitude, in ten-thousandths, that an amount may reach:
/// the range of a 96-bit mantissa.
pub const MAX_UNITS: i128 = 79228162514264337593543950335;

/// Number of ten-thousandths in one unit of currency.
pub const UNITS_PER_WHOLE: i128 = 10000;

/// An amount of money, counted in ten-thousandths.
#[derive(Clone, Copy, Debug, PartialEq, Eq, Structural)]
pub struct Money {
    pub units: i128,
}

/// Whether a number of ten-thousandths lies in the representable range.
pub open spec fn in_range(v: int) -> bool {
    -MAX_UNITS <= v <= MAX_UNITS
}

/// `10` to the power `n`.
pub open spec fn pow10(n: nat) -> nat
    decreases n,
{
    if n == 0 {
        1
    } else {
        10 * pow10((n - 1) as nat)
    }
}

/// `a / d` rounded to the nearest integer, ties to the even one.
pub open spec fn round_half_even_nat(a: nat, d: nat) -> int {
    let q: int = (a / d) as int;
    let r: int = (a % d) as int;
    if 2 * r < d {
        q
    } else if 2 * r > d {
        q + 1
    } else if q % 2 == 0 {
        q
    } else {
        q + 1
    }
}

/// `m / d` rounded to the nearest integer, ties to the even one.
pub open spec fn round_half_even(m: int, d: nat) -> int {
    if m >= 0 {
        round_half_even_nat(m as nat, d)
    } else {
        -round_half_even_nat((-m) as nat, d)
    }
}

/// The number of ten-thousandths in the decimal `mantissa / 10^scale`,
/// rounded to four fractional digits, ties to even.
pub open spec fn decimal_units(mantissa: int, scale: nat) -> int {
    if scale <= 4 {
        mantissa * pow10((4 - scale) as nat)
    } else {
        round_half_even(mantissa, pow10((scale - 4) as nat))
    }
}

proof fn lemma_pow10_grows(i: nat, j: nat)
    requires
        i <= j,
    ensures
        1 <= pow10(i) <= pow10(j),
    decreases j,
{
    if j > i {
        lemma_pow10_grows(i, (j - 1) as nat);
    } else if i > 0 {
        lemma_pow10_grows(0, (i - 1) as nat);
    }
}

/// `10^n` for the scales a decimal can have.
fn pow10_exec(n: u32) -> (r: u128)
    requires
        n <= 28,
    ensures
        r == pow10(n as nat),
        r >= 1,
{
    proof {
        reveal_with_fuel(pow10, 29);
        assert(pow10(28) == 10000000000000000000000000000nat);
    }
    let mut r: u128 = 1;
    let mut i: u32 = 0;
    while i < n
        invariant
            i <= n <= 28,
            r == pow10(i as nat),
            pow10(28) == 10000000000000000000000000000nat,
        decreases n - i,
    {
        proof {
            lemma_pow10_grows((i + 1) as nat, 28);
            assert(pow10((i + 1) as nat) == 10 * pow10(i as nat));
        }
        r = r * 10;
        i = i + 1;
    }
    proof {
        lemma_pow10_grows(0, n as nat);
    }
    r
}

/// `a / d` rounded to the nearest integer, ties to the even one.
fn round_half_even_exec(a: u128, d: u128) -> (r: u128)
    requires
        d > 0,
        a <= MAX_UNITS,
    ensures
        r == round_half_even_nat(a as nat, d as nat),
        r <= a + 1,
{
    let q = a / d;
    let rem = a % d;
    proof {
        assert(q <= a) by (nonlinear_arith)
            requires q == a / d, d > 0;
    }
    if rem < d - rem {
        q
    } else if rem > d - rem {
        q + 1
    } else if q % 2 == 0 {
        q
    } else {
        q + 1
    }
}

impl View for Money {
    type V = int;

    open spec fn view(&self) -> int {
        self.units as int
    }
}

impl Money {
    pub fn zero() -> (r: Money)
        ensures
            r@ == 0,
    {
        Money { units: 0 }
    }

    /// The amount of `units` ten-thousandths, or `None` outside the range.
    pub fn from_units(units: i128) -> (r: Option<Money>)
        ensures
            r is Some <==> in_range(units as int),
            r matches Some(m) ==> m@ == units,
    {
        if -MAX_UNITS <= units && units <= MAX_UNITS {
            Some(Money { units })
        } else {
            None
        }
    }

    /// The decimal `mantissa / 10^scale` rounded to four fractional digits,
    /// ties to even; `None` where that leaves the range.
    pub fn from_decimal(mantissa: i128, scale: u32) -> (r: Option<Money>)
        requires
            scale <= 28,
            -MAX_UNITS <= mantissa <= MAX_UNITS,
        ensures
            r is Some <==> in_range(decimal_units(mantissa as int, scale as nat)),
            r matches Some(m) ==> m@ == decimal_units(mantissa as int, scale as nat),
    {
        if scale <= 4 {
            let p = pow10_exec(4 - scale) as i128;
            proof {
                lemma_pow10_grows((4 - scale) as nat, 4);
                reveal_with_fuel(pow10, 5);
                assert(-MAX_UNITS * 10000 <= mantissa * p <= MAX_UNITS * 10000) by (nonlinear_arith)
                    requires -MAX_UNITS <= mantissa <= MAX_UNITS, 1 <= p <= 10000;
            }
            Money::from_units(mantissa * p)
        } else {
            let d = pow10_exec(scale - 4);
            if mantissa >= 0 {
                let q = round_half_even_exec(mantissa as u128, d);
                Money::from_units(q as i128)
            } else {
                let q = round_half_even_exec((-mantissa) as u128, d);
                Money::from_units(-(q as i128))
            }
        }
    }

    pub fn units(&self) -> (r: i128)
        ensures
            r == self@,
    {
        self.units
    }

    /// `self + other`, or `None` where the sum leaves the range.
    pub fn checked_add(&self, other: &Money) -> (r: Option<Money>)
        ensures
            r is Some <==> in_range(self@ + other@),
            r matches Some(m) ==> m@ == self@ + other@,
    {
        match self.units.checked_add(other.units) {
            Some(s) => Money::from_units(s),
            None => {
                proof {
                    assert(!in_range(self@ + other@));
                }
                None
            },
        }
    }

    /// `self - other`, or `None` where the difference leaves the range.
    pub fn checked_sub(&self, other: &Money) -> (r: Option<Money>)
        ensures
            r is Some <==> in_range(self@ - other@),
            r matches Some(m) ==> m@ == self@ - other@,
    {
        match self.units.checked_sub(other.units) {
            Some(s) => Money::from_units(s),
            None => None,
        }
    }

    /// `self < other`.
    pub fn lt(&self, other: &Money) -> (r: bool)
        ensures
            r == (self@ < other@),
    {
        self.units < other.units
    }

    /// The larger of `self` and zero.
    pub fn max_zero(&self) -> (r: Money)
        ensures
            r@ == if self@ < 0 { 0 } else { self@ },
    {
        if self.units < 0 {
            Money::zero()
        } else {
            *self
        }
    }
}

} // verus!
