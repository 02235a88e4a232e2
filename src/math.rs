use vstd::prelude::*;
use vstd::arithmetic::div_mod::{lemma_fundamental_div_mod, lemma_fundamental_div_mod_converse};
use crate::error::LendingError;

verus! {

/// Fixed-point scale: one whole unit is `WAD` raw units.
pub const WAD: u128 = 1_000_000_000_000_000_000;

/// The scale as a `u64`.
pub const WAD_U64: u64 = 1_000_000_000_000_000_000;

/// One percent, in raw units.
pub const PERCENT_SCALER: u128 = 10_000_000_000_000_000;

/// The outcome of a checked `Decimal` computation whose exact value is `v` raw units.
pub open spec fn decimal_of(v: int) -> Result<Decimal, LendingError> {
    if 0 <= v <= u128::MAX {
        Ok(Decimal(v as u128))
    } else {
        Err(LendingError::MathOverflow)
    }
}

/// The outcome of a checked `Rate` computation whose exact value is `v` raw units.
pub open spec fn rate_of(v: int) -> Result<Rate, LendingError> {
    if 0 <= v <= u64::MAX {
        Ok(Rate(v as u64))
    } else {
        Err(LendingError::MathOverflow)
    }
}

/// The outcome of a checked conversion of the integer `v` to `u64`.
pub open spec fn u64_of(v: int) -> Result<u64, LendingError> {
    if 0 <= v <= u64::MAX {
        Ok(v as u64)
    } else {
        Err(LendingError::MathOverflow)
    }
}

/// Smallest integer at or above `a / b`, for `a >= 0` and `b > 0`.
pub open spec fn ceil_div(a: int, b: int) -> int {
    (a + b - 1) / b
}

/// A non-negative fixed-point number: the raw `u128` divided by `WAD`.
#[derive(Clone, Copy, Debug, Default, PartialEq, Eq, Structural, PartialOrd, Ord)]
pub struct Decimal(pub u128);

/// A non-negative fixed-point ratio of narrower range: the raw `u64` divided by `WAD`.
#[derive(Clone, Copy, Debug, Default, PartialEq, Eq, Structural, PartialOrd, Ord)]
pub struct Rate(pub u64);

impl Decimal {
    /// The value `x` as a decimal.
    pub open spec fn spec_from_u64(x: u64) -> Decimal {
        Decimal((x * WAD) as u128)
    }

    /// Checked sum.
    pub open spec fn spec_add(self, rhs: Decimal) -> Result<Decimal, LendingError> {
        decimal_of(self.0 + rhs.0)
    }

    /// Checked difference; a negative result is an overflow.
    pub open spec fn spec_sub(self, rhs: Decimal) -> Result<Decimal, LendingError> {
        decimal_of(self.0 - rhs.0)
    }

    /// Checked product, rounded down.
    pub open spec fn spec_mul(self, rhs: Decimal) -> Result<Decimal, LendingError> {
        decimal_of(self.0 * rhs.0 / WAD as int)
    }

    /// Checked product with an integer.
    pub open spec fn spec_mul_u64(self, n: u64) -> Result<Decimal, LendingError> {
        decimal_of(self.0 * n)
    }

    /// Checked quotient, rounded down; a zero divisor is an overflow.
    pub open spec fn spec_div(self, rhs: Decimal) -> Result<Decimal, LendingError> {
        if rhs.0 == 0 {
            Err(LendingError::MathOverflow)
        } else {
            decimal_of(self.0 * WAD / rhs.0 as int)
        }
    }

    /// Checked quotient by an integer, rounded down.
    pub open spec fn spec_div_u64(self, n: u64) -> Result<Decimal, LendingError> {
        if n == 0 {
            Err(LendingError::MathOverflow)
        } else {
            Ok(Decimal((self.0 as int / n as int) as u128))
        }
    }

    /// The integer part, if it fits a `u64`.
    pub open spec fn spec_floor_u64(self) -> Result<u64, LendingError> {
        u64_of(self.0 as int / WAD as int)
    }

    /// The value rounded up to an integer, if that fits a `u64`.
    pub open spec fn spec_ceil_u64(self) -> Result<u64, LendingError> {
        u64_of(ceil_div(self.0 as int, WAD as int))
    }

    /// The decimal zero.
    pub fn zero() -> (r: Decimal)
        ensures
            r.0 == 0,
    {
        Decimal(0)
    }

    /// The decimal one.
    pub fn one() -> (r: Decimal)
        ensures
            r.0 == WAD,
    {
        Decimal(WAD)
    }

    /// The decimal whose raw value is `v`.
    pub fn from_scaled_val(v: u128) -> (r: Decimal)
        ensures
            r.0 == v,
    {
        Decimal(v)
    }

    /// The raw value of this decimal.
    pub fn to_scaled_val(&self) -> (r: u128)
        ensures
            r == self.0,
    {
        self.0
    }

    /// The integer `x` as a decimal; every `u64` fits.
    pub fn from_u64(x: u64) -> (r: Decimal)
        ensures
            r == Decimal::spec_from_u64(x),
            r.0 == x * WAD,
    {
        assert(x * WAD <= u128::MAX) by (nonlinear_arith)
            requires x <= u64::MAX;
        Decimal(x as u128 * WAD)
    }

    /// `p` percent as a decimal.
    pub fn from_percent(p: u8) -> (r: Decimal)
        ensures
            r.0 == p * PERCENT_SCALER,
    {
        Decimal(p as u128 * PERCENT_SCALER)
    }

    /// The rate `r` as a decimal; every rate fits.
    pub fn from_rate(r: Rate) -> (d: Decimal)
        ensures
            d.0 == r.0,
    {
        Decimal(r.0 as u128)
    }

    /// This decimal as a rate, if it fits.
    pub fn try_to_rate(self) -> (r: Result<Rate, LendingError>)
        ensures
            r == rate_of(self.0 as int),
    {
        if self.0 > u64::MAX as u128 {
            Err(LendingError::MathOverflow)
        } else {
            Ok(Rate(self.0 as u64))
        }
    }

    /// Checked sum.
    pub fn try_add(self, rhs: Decimal) -> (r: Result<Decimal, LendingError>)
        ensures
            r == self.spec_add(rhs),
    {
        match self.0.checked_add(rhs.0) {
            Some(v) => Ok(Decimal(v)),
            None => Err(LendingError::MathOverflow),
        }
    }

    /// Checked difference.
    pub fn try_sub(self, rhs: Decimal) -> (r: Result<Decimal, LendingError>)
        ensures
            r == self.spec_sub(rhs),
    {
        match self.0.checked_sub(rhs.0) {
            Some(v) => Ok(Decimal(v)),
            None => Err(LendingError::MathOverflow),
        }
    }

    /// Checked product with an integer.
    pub fn try_mul_u64(self, n: u64) -> (r: Result<Decimal, LendingError>)
        ensures
            r == self.spec_mul_u64(n),
    {
        match self.0.checked_mul(n as u128) {
            Some(v) => Ok(Decimal(v)),
            None => Err(LendingError::MathOverflow),
        }
    }

    /// Checked quotient by an integer, rounded down.
    pub fn try_div_u64(self, n: u64) -> (r: Result<Decimal, LendingError>)
        ensures
            r == self.spec_div_u64(n),
    {
        if n == 0 {
            Err(LendingError::MathOverflow)
        } else {
            Ok(Decimal(self.0 / n as u128))
        }
    }

    /// The integer part, if it fits a `u64`.
    pub fn try_floor_u64(self) -> (r: Result<u64, LendingError>)
        ensures
            r == self.spec_floor_u64(),
    {
        let q = self.0 / WAD;
        if q > u64::MAX as u128 {
            Err(LendingError::MathOverflow)
        } else {
            Ok(q as u64)
        }
    }

    /// The value rounded up to an integer, if that fits a `u64`.
    pub fn try_ceil_u64(self) -> (r: Result<u64, LendingError>)
        ensures
            r == self.spec_ceil_u64(),
    {
        let q = self.0 / WAD;
        let m = self.0 % WAD;
        proof {
            lemma_fundamental_div_mod(self.0 as int, WAD as int);
            if m == 0 {
                lemma_fundamental_div_mod_converse(self.0 + WAD - 1, WAD as int, q as int, (WAD - 1) as int);
            } else {
                lemma_fundamental_div_mod_converse(self.0 + WAD - 1, WAD as int, q + 1, m - 1);
            }
        }
        let c: u128 = if m == 0 { q } else { q + 1 };
        if c > u64::MAX as u128 {
            Err(LendingError::MathOverflow)
        } else {
            Ok(c as u64)
        }
    }

    /// Checked product, rounded down. The product is formed exactly: it fails
    /// only where the rounded result itself does not fit.
    pub fn try_mul(self, rhs: Decimal) -> (r: Result<Decimal, LendingError>)
        ensures
            r == self.spec_mul(rhs),
    {
        let a = self.0;
        let b = rhs.0;
        let aq = a / WAD;
        let ar = a % WAD;
        let bq = b / WAD;
        let br = b % WAD;
        proof {
            lemma_mul_split(a as int, b as int, WAD as int);
        }
        assert(ar * br < WAD * WAD) by (nonlinear_arith)
            requires ar < WAD, br < WAD;
        assert(aq * br <= a) by (nonlinear_arith)
            requires aq == a as int / WAD as int, br < WAD, a >= 0;
        let low = (ar * br) / WAD;
        let mid = aq * br;
        match a.checked_mul(bq) {
            None => {
                assert(a * bq <= a * (bq as int) + mid + low);
                Err(LendingError::MathOverflow)
            },
            Some(high) => {
                match high.checked_add(mid) {
                    None => Err(LendingError::MathOverflow),
                    Some(s) => match s.checked_add(low) {
                        None => Err(LendingError::MathOverflow),
                        Some(v) => Ok(Decimal(v)),
                    },
                }
            },
        }
    }

    /// Checked quotient, rounded down. The quotient is formed exactly: it
    /// fails only on a zero divisor or where the result does not fit.
    pub fn try_div(self, rhs: Decimal) -> (r: Result<Decimal, LendingError>)
        ensures
            r == self.spec_div(rhs),
    {
        let a = self.0;
        let b = rhs.0;
        if b == 0 {
            return Err(LendingError::MathOverflow);
        }
        let q = a / b;
        let rem = a % b;
        let frac = scaled_fraction(rem, b);
        proof {
            lemma_fundamental_div_mod(a as int, b as int);
            lemma_div_assemble(a as int, b as int, q as int, rem as int, frac as int, WAD as int);
        }
        match q.checked_mul(WAD) {
            None => Err(LendingError::MathOverflow),
            Some(whole) => match whole.checked_add(frac) {
                None => Err(LendingError::MathOverflow),
                Some(v) => Ok(Decimal(v)),
            },
        }
    }
}


/// Square-and-multiply with each product rounded down: `acc` times `base`
/// raised to `exp`, failing as soon as one product does not fit.
pub open spec fn pow_steps(acc: Decimal, base: Decimal, exp: nat) -> Result<Decimal, LendingError>
    decreases exp,
{
    if exp == 0 {
        Ok(acc)
    } else {
        let next = if exp % 2 == 1 {
            acc.spec_mul(base)
        } else {
            Ok(acc)
        };
        match next {
            Err(e) => Err(e),
            Ok(a) => if exp / 2 == 0 {
                Ok(a)
            } else {
                match base.spec_mul(base) {
                    Err(e) => Err(e),
                    Ok(sq) => pow_steps(a, sq, exp / 2),
                }
            },
        }
    }
}

impl Decimal {
    /// `self` raised to `exp`, by repeated squaring.
    pub open spec fn spec_pow(self, exp: nat) -> Result<Decimal, LendingError> {
        pow_steps(Decimal(WAD), self, exp)
    }

    /// `self` raised to `exp` by repeated squaring, each product rounded down.
    pub fn try_pow(self, exp: u64) -> (r: Result<Decimal, LendingError>)
        ensures
            r == self.spec_pow(exp as nat),
    {
        let mut acc = Decimal::one();
        let mut base = self;
        let mut e = exp;
        while e > 0
            invariant
                pow_steps(acc, base, e as nat) == self.spec_pow(exp as nat),
            decreases e,
        {
            if e % 2 == 1 {
                match acc.try_mul(base) {
                    Ok(a) => {
                        acc = a;
                    },
                    Err(err) => {
                        return Err(err);
                    },
                }
            }
            e = e / 2;
            if e > 0 {
                match base.try_mul(base) {
                    Ok(sq) => {
                        base = sq;
                    },
                    Err(err) => {
                        return Err(err);
                    },
                }
            }
        }
        Ok(acc)
    }
}

impl From<u64> for Decimal {
    fn from(x: u64) -> (r: Decimal) {
        Decimal::from_u64(x)
    }
}

impl vstd::std_specs::convert::FromSpecImpl<u64> for Decimal {
    open spec fn obeys_from_spec() -> bool {
        true
    }

    open spec fn from_spec(x: u64) -> Decimal {
        Decimal::spec_from_u64(x)
    }
}

impl Rate {
    /// Checked sum.
    pub open spec fn spec_add(self, rhs: Rate) -> Result<Rate, LendingError> {
        rate_of(self.0 + rhs.0)
    }

    /// Checked difference; a negative result is an overflow.
    pub open spec fn spec_sub(self, rhs: Rate) -> Result<Rate, LendingError> {
        rate_of(self.0 - rhs.0)
    }

    /// Checked product, rounded down.
    pub open spec fn spec_mul(self, rhs: Rate) -> Result<Rate, LendingError> {
        rate_of(self.0 * rhs.0 / WAD as int)
    }

    /// Checked quotient, rounded down; a zero divisor is an overflow.
    pub open spec fn spec_div(self, rhs: Rate) -> Result<Rate, LendingError> {
        if rhs.0 == 0 {
            Err(LendingError::MathOverflow)
        } else {
            rate_of(self.0 * WAD / rhs.0 as int)
        }
    }

    /// The rate zero.
    pub fn zero() -> (r: Rate)
        ensures
            r.0 == 0,
    {
        Rate(0)
    }

    /// The rate one.
    pub fn one() -> (r: Rate)
        ensures
            r.0 == WAD,
    {
        Rate(WAD_U64)
    }

    /// The rate whose raw value is `v`.
    pub fn from_scaled_val(v: u64) -> (r: Rate)
        ensures
            r.0 == v,
    {
        Rate(v)
    }

    /// The raw value of this rate.
    pub fn to_scaled_val(&self) -> (r: u64)
        ensures
            r == self.0,
    {
        self.0
    }

    /// `p` percent as a rate; every `u8` fits.
    pub fn from_percent(p: u8) -> (r: Rate)
        ensures
            r.0 == p * PERCENT_SCALER,
    {
        Rate(p as u64 * 10_000_000_000_000_000u64)
    }

    /// Checked sum.
    pub fn try_add(self, rhs: Rate) -> (r: Result<Rate, LendingError>)
        ensures
            r == self.spec_add(rhs),
    {
        match self.0.checked_add(rhs.0) {
            Some(v) => Ok(Rate(v)),
            None => Err(LendingError::MathOverflow),
        }
    }

    /// Checked difference.
    pub fn try_sub(self, rhs: Rate) -> (r: Result<Rate, LendingError>)
        ensures
            r == self.spec_sub(rhs),
    {
        match self.0.checked_sub(rhs.0) {
            Some(v) => Ok(Rate(v)),
            None => Err(LendingError::MathOverflow),
        }
    }

    /// Checked product, rounded down.
    pub fn try_mul(self, rhs: Rate) -> (r: Result<Rate, LendingError>)
        ensures
            r == self.spec_mul(rhs),
    {
        assert(self.0 * rhs.0 <= u128::MAX) by (nonlinear_arith)
            requires self.0 <= u64::MAX, rhs.0 <= u64::MAX;
        let v = (self.0 as u128 * rhs.0 as u128) / WAD;
        if v > u64::MAX as u128 {
            Err(LendingError::MathOverflow)
        } else {
            Ok(Rate(v as u64))
        }
    }

    /// Checked quotient, rounded down.
    pub fn try_div(self, rhs: Rate) -> (r: Result<Rate, LendingError>)
        ensures
            r == self.spec_div(rhs),
    {
        if rhs.0 == 0 {
            return Err(LendingError::MathOverflow);
        }
        assert(self.0 * WAD <= u128::MAX) by (nonlinear_arith)
            requires self.0 <= u64::MAX;
        let v = (self.0 as u128 * WAD) / rhs.0 as u128;
        if v > u64::MAX as u128 {
            Err(LendingError::MathOverflow)
        } else {
            Ok(Rate(v as u64))
        }
    }
}

/// A product with a factor of at least one is at least the other factor.
pub proof fn lemma_mul_at_least_one(a: Decimal, b: Decimal)
    requires
        b.0 >= WAD,
    ensures
        a.spec_mul(b) is Ok ==> a.spec_mul(b)->Ok_0.0 >= a.0,
{
    assert(a.0 * b.0 / WAD as int >= a.0) by (nonlinear_arith)
        requires b.0 >= WAD, a.0 >= 0;
}

proof fn lemma_pow_steps_at_least_one(acc: Decimal, base: Decimal, exp: nat)
    requires
        acc.0 >= WAD,
        base.0 >= WAD,
    ensures
        pow_steps(acc, base, exp) is Ok ==> pow_steps(acc, base, exp)->Ok_0.0 >= WAD,
    decreases exp,
{
    if exp > 0 {
        lemma_mul_at_least_one(acc, base);
        lemma_mul_at_least_one(base, base);
        let next = if exp % 2 == 1 { acc.spec_mul(base) } else { Ok(acc) };
        if next is Ok && exp / 2 != 0 && base.spec_mul(base) is Ok {
            lemma_pow_steps_at_least_one(next->Ok_0, base.spec_mul(base)->Ok_0, exp / 2);
        }
    }
}

/// A power of a decimal of at least one is at least one.
pub proof fn lemma_pow_at_least_one(base: Decimal, exp: nat)
    requires
        base.0 >= WAD,
    ensures
        base.spec_pow(exp) is Ok ==> base.spec_pow(exp)->Ok_0.0 >= WAD,
{
    lemma_pow_steps_at_least_one(Decimal(WAD), base, exp);
}

/// An integer turned into a decimal and back is unchanged.
pub proof fn lemma_integer_round_trip(x: u64)
    ensures
        Decimal::spec_from_u64(x).spec_floor_u64() == Ok::<u64, LendingError>(x),
{
    assert(x * WAD <= u128::MAX) by (nonlinear_arith)
        requires x <= u64::MAX;
    assert((x * WAD) / WAD as int == x) by (nonlinear_arith);
}

/// A decimal rebuilt from its raw value is the same decimal.
pub proof fn lemma_scaled_round_trip(d: Decimal, rebuilt: Decimal)
    requires
        rebuilt.0 == d.0,
    ensures
        rebuilt == d,
{
}

/// No decimal operation wraps: where the exact result leaves the `u128`
/// range the outcome is `MathOverflow`, and otherwise it is the exact result.
pub proof fn lemma_no_wrapping(a: Decimal, b: Decimal, n: u64)
    ensures
        a.0 + b.0 > u128::MAX <==> a.spec_add(b) == Err::<Decimal, LendingError>(LendingError::MathOverflow),
        a.0 * b.0 / WAD as int > u128::MAX <==> a.spec_mul(b) == Err::<Decimal, LendingError>(LendingError::MathOverflow),
        a.0 * n > u128::MAX <==> a.spec_mul_u64(n) == Err::<Decimal, LendingError>(LendingError::MathOverflow),
        b.0 != 0 ==> (a.0 * WAD / b.0 as int > u128::MAX <==> a.spec_div(b) == Err::<Decimal, LendingError>(LendingError::MathOverflow)),
        a.spec_add(b) is Ok ==> a.spec_add(b)->Ok_0.0 == a.0 + b.0,
        a.spec_mul(b) is Ok ==> a.spec_mul(b)->Ok_0.0 == a.0 * b.0 / WAD as int,
        a.spec_mul_u64(n) is Ok ==> a.spec_mul_u64(n)->Ok_0.0 == a.0 * n,
        a.spec_div(b) is Ok ==> a.spec_div(b)->Ok_0.0 == a.0 * WAD / b.0 as int,
{
    assert(a.0 * b.0 >= 0) by (nonlinear_arith);
    assert(a.0 * n >= 0) by (nonlinear_arith);
    if b.0 != 0 {
        assert(a.0 * WAD / b.0 as int >= 0) by (nonlinear_arith)
            requires b.0 > 0;
    }
    assert(a.0 * b.0 / WAD as int >= 0) by (nonlinear_arith);
}

/// `a * b / w` taken apart so that each piece can be formed without overflow.
proof fn lemma_mul_split(a: int, b: int, w: int)
    requires
        a >= 0,
        b >= 0,
        w > 0,
    ensures
        a * b / w == a * (b / w) + (a / w) * (b % w) + (a % w) * (b % w) / w,
        (a % w) * (b % w) >= 0,
        0 <= a % w < w,
        0 <= b % w < w,
{
    lemma_fundamental_div_mod(a, w);
    lemma_fundamental_div_mod(b, w);
    let aq = a / w;
    let ar = a % w;
    let bq = b / w;
    let br = b % w;
    let lo = ar * br;
    assert(lo >= 0) by (nonlinear_arith)
        requires ar >= 0, br >= 0, lo == ar * br;
    lemma_fundamental_div_mod(lo, w);
    let k = a * bq + aq * br + lo / w;
    assert(a * b == k * w + lo % w) by (nonlinear_arith)
        requires
            a == w * aq + ar,
            b == w * bq + br,
            lo == ar * br,
            lo == w * (lo / w) + lo % w,
            k == a * bq + aq * br + lo / w;
    lemma_fundamental_div_mod_converse(a * b, w, k, lo % w);
}

/// Putting a quotient back together from its whole and fractional parts.
proof fn lemma_div_assemble(a: int, b: int, q: int, rem: int, frac: int, w: int)
    requires
        b > 0,
        w > 0,
        a == b * q + rem,
        0 <= rem < b,
        frac == rem * w / b,
        rem * w >= 0,
    ensures
        a * w / b == q * w + frac,
{
    lemma_fundamental_div_mod(rem * w, b);
    let m = (rem * w) % b;
    assert(a * w == (q * w + frac) * b + m) by (nonlinear_arith)
        requires
            a == b * q + rem,
            rem * w == b * frac + m;
    lemma_fundamental_div_mod_converse(a * w, b, q * w + frac, m);
}

/// `10^n`.
pub open spec fn pow10(n: nat) -> int
    decreases n,
{
    if n == 0 {
        1
    } else {
        10 * pow10((n - 1) as nat)
    }
}

proof fn lemma_pow10_mono(i: nat, j: nat)
    requires
        i <= j,
    ensures
        1 <= pow10(i) <= pow10(j),
    decreases j,
{
    if j > 0 {
        if i < j {
            lemma_pow10_mono(i, (j - 1) as nat);
        } else {
            lemma_pow10_mono((i - 1) as nat, (j - 1) as nat);
        }
    }
}

/// The digit and remainder of `10 * r` divided by `b`, formed without overflow.
fn ten_times_div(r: u128, b: u128) -> (res: (u128, u128))
    requires
        r < b,
    ensures
        10 * r == res.0 * b + res.1,
        res.1 < b,
        res.0 < 10,
{
    let mut k: u128 = 0;
    let mut d: u128 = 0;
    let mut acc: u128 = 0;
    while k < 10
        invariant
            k <= 10,
            r < b,
            k * r == d * b + acc,
            acc < b,
            d <= k,
        decreases 10 - k,
    {
        if acc >= b - r {
            assert((k + 1) * r == (d + 1) * b + (acc - (b - r))) by (nonlinear_arith)
                requires k * r == d * b + acc;
            acc = acc - (b - r);
            d = d + 1;
        } else {
            assert((k + 1) * r == d * b + (acc + r)) by (nonlinear_arith)
                requires k * r == d * b + acc;
            acc = acc + r;
        }
        k = k + 1;
    }
    if d == 10 {
        assert(10 * r == 10 * b + acc);
        assert(false);
    }
    (d, acc)
}

/// `r * WAD / b` for `r < b`, by long division one decimal digit at a time.
fn scaled_fraction(r: u128, b: u128) -> (f: u128)
    requires
        r < b,
    ensures
        f == r * WAD / b as int,
        r * WAD >= 0,
{
    let mut acc: u128 = 0;
    let mut rem: u128 = r;
    let mut i: u64 = 0;
    proof {
        reveal_with_fuel(pow10, 19);
    }
    assert(pow10(0) == 1);
    assert(pow10(18) == WAD);
    while i < 18
        invariant
            i <= 18,
            rem < b,
            r * pow10(i as nat) == acc * b + rem,
            0 <= acc < pow10(i as nat),
            pow10(i as nat) <= pow10(18),
            pow10(18) == WAD,
        decreases 18 - i,
    {
        let (d, nrem) = ten_times_div(rem, b);
        assert(pow10((i + 1) as nat) == 10 * pow10(i as nat));
        proof {
            lemma_pow10_mono((i + 1) as nat, 18);
        }
        assert(r * pow10((i + 1) as nat) == (acc * 10 + d) * b + nrem) by (nonlinear_arith)
            requires
                r * pow10(i as nat) == acc * b + rem,
                10 * rem == d * b + nrem,
                pow10((i + 1) as nat) == 10 * pow10(i as nat);
        assert(acc * 10 + d < pow10((i + 1) as nat)) by (nonlinear_arith)
            requires
                acc < pow10(i as nat),
                d < 10,
                pow10((i + 1) as nat) == 10 * pow10(i as nat);
        acc = acc * 10 + d;
        rem = nrem;
        i = i + 1;
    }
    proof {
        lemma_fundamental_div_mod_converse(r * WAD, b as int, acc as int, rem as int);
    }
    acc
}

} // verus!
