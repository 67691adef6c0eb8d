//! Fixed-point decimal numbers with eighteen fractional digits, held as a
//! signed 192-bit count of attos (units of 10^-18), the width of the ledger's
//! own `Decimal`. Every arithmetic operation goes through that type; this
//! module states exactly what each one returns.
use vstd::prelude::*;
use scrypto::prelude::{CheckedAdd, CheckedDiv, CheckedMul, CheckedSub, I192};
use scrypto::prelude::Decimal as LedgerDecimal;

verus! {

/// Number of attos in one whole unit.
pub const ATTOS_PER_UNIT: i128 = 1_000_000_000_000_000_000;

/// 2^64, the weight of the middle word of a `Decimal`.
pub open spec fn two_64() -> int {
    18446744073709551616int
}

/// 2^128, the weight of the high word of a `Decimal`.
pub open spec fn two_128() -> int {
    340282366920938463463374607431768211456int
}

/// 2^191: counts of attos lie in `[-2^191, 2^191)`.
pub open spec fn two_191() -> int {
    3138550867693340381917894711603833208051177722232017256448int
}

/// Absolute value of an integer.
pub open spec fn abs(x: int) -> int {
    if x < 0 { -x } else { x }
}

/// Integer division rounding toward zero, as the ledger's integers divide.
pub open spec fn div_toward_zero(a: int, b: int) -> int {
    let q = abs(a) / abs(b);
    if (a < 0) != (b < 0) { -q } else { q }
}

/// Product of two decimals given in attos: `a * b / 10^18`, rounded toward zero.
pub open spec fn spec_mul(a: int, b: int) -> int {
    div_toward_zero(a * b, ATTOS_PER_UNIT as int)
}

/// Quotient of two decimals given in attos: `a * 10^18 / b`, rounded toward zero.
pub open spec fn spec_div(a: int, b: int) -> int {
    div_toward_zero(a * (ATTOS_PER_UNIT as int), b)
}

/// Whether an integer count of attos can be held by a `Decimal`: the range of
/// a signed 192-bit integer.
pub open spec fn fits(x: int) -> bool {
    -two_191() <= x < two_191()
}

/// A fixed-point decimal number: `attos() * 10^-18`. The count of attos is a
/// two's-complement 192-bit integer held in three 64-bit words, most
/// significant first.
#[derive(Clone, Copy, PartialEq, Eq, Structural, Debug)]
pub struct Decimal {
    pub hi: i64,
    pub mid: u64,
    pub lo: u64,
}

impl Decimal {
    /// The count of attos the three words stand for.
    pub open spec fn attos(self) -> int {
        self.hi * two_128() + self.mid * two_64() + self.lo
    }
}

/// The decimal holding `x` attos: its words are the quotient of `x` by 2^128
/// and the two 64-bit digits of the remainder. For `x` that fits, it is the
/// one decimal with `attos() == x` (see `lemma_dec_attos` and `lemma_attos_dec`).
pub closed spec fn dec(x: int) -> Decimal {
    Decimal {
        hi: (x / two_128()) as i64,
        mid: ((x % two_128()) / two_64()) as u64,
        lo: ((x % two_128()) % two_64()) as u64,
    }
}

/// Every decimal holds a count of attos that fits.
pub broadcast proof fn lemma_attos_fits(d: Decimal)
    ensures
        fits(#[trigger] d.attos()),
{
}

/// The decimal built from a count that fits holds that count.
pub broadcast proof fn lemma_dec_attos(x: int)
    requires
        fits(x),
    ensures
        #[trigger] dec(x).attos() == x,
{
    let h = x / two_128();
    let r = x % two_128();
    vstd::arithmetic::div_mod::lemma_fundamental_div_mod(x, two_128());
    vstd::arithmetic::div_mod::lemma_fundamental_div_mod(r, two_64());
    assert(x == two_128() * h + r);
    assert(0 <= r < two_128());
    assert(i64::MIN <= h <= i64::MAX);
    let m = r / two_64();
    let l = r % two_64();
    assert(r == two_64() * m + l);
    assert(0 <= m < two_64());
}

/// A decimal is the decimal built from its own count of attos.
pub broadcast proof fn lemma_attos_dec(d: Decimal)
    ensures
        #[trigger] dec(d.attos()) == d,
{
    let x = d.attos();
    let r = d.mid * two_64() + d.lo;
    assert(0 <= r < two_128());
    vstd::arithmetic::div_mod::lemma_fundamental_div_mod_converse_div(x, two_128(), d.hi as int, r);
    vstd::arithmetic::div_mod::lemma_fundamental_div_mod_converse_mod(x, two_128(), d.hi as int, r);
    vstd::arithmetic::div_mod::lemma_fundamental_div_mod_converse_div(r, two_64(), d.mid as int, d.lo as int);
    vstd::arithmetic::div_mod::lemma_fundamental_div_mod_converse_mod(r, two_64(), d.mid as int, d.lo as int);
}

/// Two decimals are equal exactly when they hold the same count of attos.
pub broadcast group group_decimal {
    lemma_attos_fits,
    lemma_dec_attos,
    lemma_attos_dec,
}

/// Adds two decimals with `checked_add` of scrypto's `Decimal` (from radix-common).
/// Claims: `None` exactly when the sum leaves the 192-bit range, else the sum.
#[verifier::external_body]
fn ledger_add(a: Decimal, b: Decimal) -> (r: Option<Decimal>)
    ensures
        r == (if fits(a.attos() + b.attos()) { Some(dec(a.attos() + b.attos())) } else { None::<Decimal> }),
{
    let x = LedgerDecimal::from_attos(I192::from_digits([a.lo, a.mid, a.hi as u64]));
    let y = LedgerDecimal::from_attos(I192::from_digits([b.lo, b.mid, b.hi as u64]));
    match x.checked_add(y) {
        Some(z) => {
            let w = z.attos().to_digits();
            Some(Decimal { hi: w[2] as i64, mid: w[1], lo: w[0] })
        },
        None => None,
    }
}

/// Subtracts two decimals with `checked_sub` of scrypto's `Decimal` (from radix-common).
/// Claims: `None` exactly when the difference leaves the 192-bit range, else the difference.
#[verifier::external_body]
fn ledger_sub(a: Decimal, b: Decimal) -> (r: Option<Decimal>)
    ensures
        r == (if fits(a.attos() - b.attos()) { Some(dec(a.attos() - b.attos())) } else { None::<Decimal> }),
{
    let x = LedgerDecimal::from_attos(I192::from_digits([a.lo, a.mid, a.hi as u64]));
    let y = LedgerDecimal::from_attos(I192::from_digits([b.lo, b.mid, b.hi as u64]));
    match x.checked_sub(y) {
        Some(z) => {
            let w = z.attos().to_digits();
            Some(Decimal { hi: w[2] as i64, mid: w[1], lo: w[0] })
        },
        None => None,
    }
}

/// Multiplies two decimals with `checked_mul` of scrypto's `Decimal` (from radix-common),
/// which forms the product of the counts in 256 bits and divides it by 10^18,
/// rounding toward zero. A product that overflows 256 bits would, divided,
/// leave the 192-bit range anyway.
/// Claims: `None` exactly when that result leaves the 192-bit range, else that result.
#[verifier::external_body]
fn ledger_mul(a: Decimal, b: Decimal) -> (r: Option<Decimal>)
    ensures
        r == (if fits(spec_mul(a.attos(), b.attos())) {
            Some(dec(spec_mul(a.attos(), b.attos())))
        } else {
            None::<Decimal>
        }),
{
    let x = LedgerDecimal::from_attos(I192::from_digits([a.lo, a.mid, a.hi as u64]));
    let y = LedgerDecimal::from_attos(I192::from_digits([b.lo, b.mid, b.hi as u64]));
    match x.checked_mul(y) {
        Some(z) => {
            let w = z.attos().to_digits();
            Some(Decimal { hi: w[2] as i64, mid: w[1], lo: w[0] })
        },
        None => None,
    }
}

/// Divides two decimals with `checked_div` of scrypto's `Decimal` (from radix-common),
/// which multiplies the dividend's count by 10^18 in 256 bits and divides by the
/// divisor's, rounding toward zero.
/// Claims: `None` exactly when the divisor is zero or the quotient leaves the
/// 192-bit range, else that quotient.
#[verifier::external_body]
fn ledger_div(a: Decimal, b: Decimal) -> (r: Option<Decimal>)
    ensures
        r == (if b.attos() != 0 && fits(spec_div(a.attos(), b.attos())) {
            Some(dec(spec_div(a.attos(), b.attos())))
        } else {
            None::<Decimal>
        }),
{
    let x = LedgerDecimal::from_attos(I192::from_digits([a.lo, a.mid, a.hi as u64]));
    let y = LedgerDecimal::from_attos(I192::from_digits([b.lo, b.mid, b.hi as u64]));
    match x.checked_div(y) {
        Some(z) => {
            let w = z.attos().to_digits();
            Some(Decimal { hi: w[2] as i64, mid: w[1], lo: w[0] })
        },
        None => None,
    }
}

/// Converts a whole number with `From<u32>` of scrypto's `Decimal` (from radix-common).
/// Claims: the result holds the number times 10^18.
#[verifier::external_body]
fn ledger_from_u32(x: u32) -> (r: Decimal)
    ensures
        r == dec(x as int * ATTOS_PER_UNIT as int),
{
    let w = LedgerDecimal::from(x).attos().to_digits();
    Decimal { hi: w[2] as i64, mid: w[1], lo: w[0] }
}

impl Decimal {
    /// The decimal zero.
    pub fn zero() -> (d: Decimal)
        ensures
            d.attos() == 0,
            d == dec(0),
    {
        proof {
            lemma_attos_dec(Decimal { hi: 0, mid: 0, lo: 0 });
        }
        Decimal { hi: 0, mid: 0, lo: 0 }
    }

    /// The decimal one.
    pub fn one() -> (d: Decimal)
        ensures
            d.attos() == ATTOS_PER_UNIT,
            d == dec(ATTOS_PER_UNIT as int),
    {
        let d = Decimal { hi: 0, mid: 0, lo: 1_000_000_000_000_000_000 };
        proof {
            lemma_attos_dec(d);
        }
        d
    }

    /// The decimal holding the given number of attos.
    pub fn from_attos(attos: i128) -> (d: Decimal)
        ensures
            d.attos() == attos,
            d == dec(attos as int),
    {
        let d = if attos >= 0 {
            let u: u128 = attos as u128;
            Decimal { hi: 0, mid: (u / 18446744073709551616) as u64, lo: (u % 18446744073709551616) as u64 }
        } else {
            let shifted: i128 = attos + i128::MAX + 1;
            let u: u128 = shifted as u128 + 170141183460469231731687303715884105728;
            Decimal { hi: -1, mid: (u / 18446744073709551616) as u64, lo: (u % 18446744073709551616) as u64 }
        };
        proof {
            lemma_attos_dec(d);
        }
        d
    }

    /// The decimal equal to a whole number.
    pub fn from_u32(x: u32) -> (d: Decimal)
        ensures
            d.attos() == x as int * ATTOS_PER_UNIT as int,
            d == dec(x as int * ATTOS_PER_UNIT as int),
    {
        proof {
            assert(0 <= x as int * ATTOS_PER_UNIT as int <= 4294967295 * ATTOS_PER_UNIT as int) by (nonlinear_arith);
            lemma_dec_attos(x as int * ATTOS_PER_UNIT as int);
        }
        ledger_from_u32(x)
    }

    /// Whether the value is zero.
    pub fn is_zero(&self) -> (b: bool)
        ensures
            b == (self.attos() == 0),
    {
        self.hi == 0 && self.mid == 0 && self.lo == 0
    }

    /// Whether the value is greater than zero.
    pub fn is_positive(&self) -> (b: bool)
        ensures
            b == (self.attos() > 0),
    {
        self.hi > 0 || (self.hi == 0 && (self.mid > 0 || self.lo > 0))
    }

    /// Whether the value is at most `other`.
    pub fn le(&self, other: &Decimal) -> (b: bool)
        ensures
            b == (self.attos() <= other.attos()),
    {
        if self.hi != other.hi {
            self.hi < other.hi
        } else if self.mid != other.mid {
            self.mid < other.mid
        } else {
            self.lo <= other.lo
        }
    }

    /// The sum, or `None` when it does not fit.
    pub fn checked_add(self, other: Decimal) -> (r: Option<Decimal>)
        ensures
            r == (if fits(self.attos() + other.attos()) {
                Some(dec(self.attos() + other.attos()))
            } else {
                None::<Decimal>
            }),
    {
        ledger_add(self, other)
    }

    /// The difference, or `None` when it does not fit.
    pub fn checked_sub(self, other: Decimal) -> (r: Option<Decimal>)
        ensures
            r == (if fits(self.attos() - other.attos()) {
                Some(dec(self.attos() - other.attos()))
            } else {
                None::<Decimal>
            }),
    {
        ledger_sub(self, other)
    }

    /// The product rounded toward zero, or `None` when it does not fit.
    pub fn checked_mul(self, other: Decimal) -> (r: Option<Decimal>)
        ensures
            r == (if fits(spec_mul(self.attos(), other.attos())) {
                Some(dec(spec_mul(self.attos(), other.attos())))
            } else {
                None::<Decimal>
            }),
    {
        ledger_mul(self, other)
    }

    /// The quotient rounded toward zero, or `None` when the divisor is zero or
    /// the quotient does not fit.
    pub fn checked_div(self, other: Decimal) -> (r: Option<Decimal>)
        ensures
            r == (if other.attos() != 0 && fits(spec_div(self.attos(), other.attos())) {
                Some(dec(spec_div(self.attos(), other.attos())))
            } else {
                None::<Decimal>
            }),
    {
        ledger_div(self, other)
    }
}

} // verus!
