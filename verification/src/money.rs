//! Exact decimal money values.
//!
//! A [`Money`] is a scaled integer: `mantissa / 10^scale`, mirroring the
//! 96-bit decimal type used at the parsing boundary. Arithmetic is exact
//! 128-bit integer arithmetic on aligned mantissas, saturating at the i128
//! range (far beyond any receipt amount). Display rounds to the nearest
//! whole currency unit, ties to even.

use vstd::prelude::*;
use vstd::string::StringExecFns;

verus! {

/// Largest mantissa magnitude a [`Money`] ever holds: `i128::MAX`.
/// Saturation stops at `-MAX_MANTISSA` rather than `i128::MIN` so that the
/// magnitude of every mantissa fits an `i128` itself.
pub const MAX_MANTISSA: i128 = 0x7FFFFFFFFFFFFFFFFFFFFFFFFFFFFFFF;

/// An exact decimal amount: `mantissa / 10^scale`.
#[derive(Debug, Clone, Copy, PartialEq, Eq, Structural)]
pub struct Money {
    /// Signed scaled value.
    pub mantissa: i128,
    /// Number of decimal digits to the right of the point, at most 28.
    pub scale: u32,
}

/// 10 to the power `n`.
pub open spec fn pow10(n: nat) -> int
    decreases n,
{
    if n == 0 {
        1
    } else {
        10 * pow10((n - 1) as nat)
    }
}

/// Clamp an unbounded integer into the mantissa range
/// `[-MAX_MANTISSA, MAX_MANTISSA]`.
pub open spec fn sat_mantissa(v: int) -> int {
    if v > MAX_MANTISSA as int {
        MAX_MANTISSA as int
    } else if v < -(MAX_MANTISSA as int) {
        -(MAX_MANTISSA as int)
    } else {
        v
    }
}

impl Money {
    /// Every value this library constructs satisfies this: the scale is one
    /// the decimal parser can produce, and the mantissa magnitude fits.
    pub open spec fn valid(self) -> bool {
        self.scale <= 28 && -(MAX_MANTISSA as int) <= self.mantissa as int <= MAX_MANTISSA as int
    }

    /// The amount `v` whole units.
    pub fn from_int(v: i64) -> (r: Money)
        ensures
            r.mantissa == v as int,
            r.scale == 0,
            r.valid(),
    {
        Money { mantissa: v as i128, scale: 0 }
    }

    /// Zero.
    pub fn zero() -> (r: Money)
        ensures
            r.mantissa == 0,
            r.scale == 0,
            r.valid(),
    {
        Money { mantissa: 0, scale: 0 }
    }

    /// Whether the amount is strictly positive.
    pub fn is_positive(&self) -> (r: bool)
        ensures
            r == (self.mantissa > 0),
    {
        self.mantissa > 0
    }

    /// The product with an integer quantity, keeping the scale.
    pub fn times_int(&self, q: i32) -> (r: Money)
        requires
            self.valid(),
        ensures
            r == spec_times_int(*self, q as int),
            r.valid(),
    {
        let m = match self.mantissa.checked_mul(q as i128) {
            Some(p) => {
                if p == i128::MIN {
                    -MAX_MANTISSA
                } else {
                    p
                }
            },
            None => {
                if (self.mantissa > 0) == (q > 0) {
                    MAX_MANTISSA
                } else {
                    -MAX_MANTISSA
                }
            },
        };
        proof {
            lemma_sign_of_product(self.mantissa as int, q as int);
        }
        Money { mantissa: m, scale: self.scale }
    }

    /// The difference `self - other`, on mantissas aligned to the larger
    /// scale.
    pub fn minus(&self, other: &Money) -> (r: Money)
        requires
            self.valid(),
            other.valid(),
        ensures
            r == spec_sub(*self, *other),
            r.valid(),
    {
        let (am, bm, s) = align(self, other);
        let m = sat_sub_i128(am, bm);
        Money { mantissa: m, scale: s }
    }

    /// The sum `self + other`, on mantissas aligned to the larger scale.
    pub fn plus(&self, other: &Money) -> (r: Money)
        requires
            self.valid(),
            other.valid(),
        ensures
            r == spec_add(*self, *other),
            r.valid(),
    {
        let (am, bm, s) = align(self, other);
        let m = sat_add_i128(am, bm);
        Money { mantissa: m, scale: s }
    }

    /// The amount rounded to the nearest whole unit, ties to even.
    pub fn round_units(&self) -> (r: i128)
        requires
            self.valid(),
        ensures
            r as int == spec_round_units(*self),
            -(MAX_MANTISSA as int) <= r as int <= MAX_MANTISSA as int,
    {
        let p = pow10_i128(self.scale);
        let neg = self.mantissa < 0;
        let a: u128 = if neg {
            (-self.mantissa) as u128
        } else {
            self.mantissa as u128
        };
        let pu: u128 = p as u128;
        proof {
            lemma_pow10_shape(self.scale as nat);
            lemma_round_shape(a as int, pu as int);
            lemma_half_even_bound(a as int, pu as int);
        }
        let q = a / pu;
        let rem = a % pu;
        let up: u128 = if rem > pu - rem {
            q + 1
        } else if rem < pu - rem {
            q
        } else if q % 2 == 0 {
            q
        } else {
            q + 1
        };
        if neg {
            -(up as i128)
        } else {
            up as i128
        }
    }

    /// The display characters of the amount: the rounded whole-unit value in
    /// decimal.
    pub fn display_units(&self) -> (r: String)
        requires
            self.valid(),
        ensures
            r@ == money_chars(*self),
    {
        let v = self.round_units();
        int_to_string(v)
    }
}

/// The value of `times_int`, as a spec function.
pub open spec fn spec_times_int(a: Money, q: int) -> Money {
    Money { mantissa: sat_mantissa(a.mantissa * q) as i128, scale: a.scale }
}

/// Mantissas of two amounts aligned to the common (larger) scale.
pub open spec fn spec_align(a: Money, b: Money) -> (int, int, u32) {
    if a.scale <= b.scale {
        (sat_mantissa(a.mantissa * pow10((b.scale - a.scale) as nat)), b.mantissa as int, b.scale)
    } else {
        (a.mantissa as int, sat_mantissa(b.mantissa * pow10((a.scale - b.scale) as nat)), a.scale)
    }
}

/// The value of `plus`, as a spec function.
pub open spec fn spec_add(a: Money, b: Money) -> Money {
    let (am, bm, s) = spec_align(a, b);
    Money { mantissa: sat_mantissa(am + bm) as i128, scale: s }
}

/// The value of `minus`, as a spec function.
pub open spec fn spec_sub(a: Money, b: Money) -> Money {
    let (am, bm, s) = spec_align(a, b);
    Money { mantissa: sat_mantissa(am - bm) as i128, scale: s }
}

/// The value of `round_units`, as a spec function: round half to even on the
/// magnitude, then restore the sign.
pub open spec fn spec_round_units(a: Money) -> int {
    let p = pow10(a.scale as nat);
    let m = abs_int(a.mantissa as int);
    let q = m / p;
    let rem = m % p;
    let up = if 2 * rem > p {
        q + 1
    } else if 2 * rem < p {
        q
    } else if q % 2 == 0 {
        q
    } else {
        q + 1
    };
    if a.mantissa < 0 {
        -up
    } else {
        up
    }
}

/// Absolute value.
pub open spec fn abs_int(v: int) -> int {
    if v < 0 {
        -v
    } else {
        v
    }
}

/// The decimal digit characters of a nonnegative integer, most significant
/// first.
pub open spec fn dec_digits(n: nat) -> Seq<char>
    decreases n,
{
    if n < 10 {
        seq![digit_char(n)]
    } else {
        dec_digits(n / 10).push(digit_char(n % 10))
    }
}

/// The character of one decimal digit.
pub open spec fn digit_char(d: nat) -> char {
    if d == 0 {
        '0'
    } else if d == 1 {
        '1'
    } else if d == 2 {
        '2'
    } else if d == 3 {
        '3'
    } else if d == 4 {
        '4'
    } else if d == 5 {
        '5'
    } else if d == 6 {
        '6'
    } else if d == 7 {
        '7'
    } else if d == 8 {
        '8'
    } else {
        '9'
    }
}

/// The decimal characters of an integer: a minus sign for negative values,
/// then the digits of the magnitude.
pub open spec fn int_chars(v: int) -> Seq<char> {
    if v < 0 {
        seq!['-'] + dec_digits((-v) as nat)
    } else {
        dec_digits(v as nat)
    }
}

/// The display characters of an amount: its rounded whole-unit value in
/// decimal.
pub open spec fn money_chars(a: Money) -> Seq<char> {
    int_chars(spec_round_units(a))
}

/// Saturating i128 addition clamped to the mantissa range.
fn sat_add_i128(a: i128, b: i128) -> (r: i128)
    ensures
        r as int == sat_mantissa(a + b),
{
    match a.checked_add(b) {
        Some(v) => {
            if v == i128::MIN {
                -MAX_MANTISSA
            } else {
                v
            }
        },
        None => {
            if a > 0 {
                MAX_MANTISSA
            } else {
                -MAX_MANTISSA
            }
        },
    }
}

/// Saturating i128 subtraction clamped to the mantissa range.
fn sat_sub_i128(a: i128, b: i128) -> (r: i128)
    ensures
        r as int == sat_mantissa(a - b),
{
    match a.checked_sub(b) {
        Some(v) => {
            if v == i128::MIN {
                -MAX_MANTISSA
            } else {
                v
            }
        },
        None => {
            if a > 0 || (a == 0 && b < 0) {
                MAX_MANTISSA
            } else {
                -MAX_MANTISSA
            }
        },
    }
}

/// 10 to the power `n`, as an executable value.
fn pow10_i128(n: u32) -> (r: i128)
    requires
        n <= 28,
    ensures
        r as int == pow10(n as nat),
        1 <= r as int <= pow10(28),
{
    proof {
        lemma_pow10_monotonic(n as nat, 28);
        lemma_pow10_28_value();
    }
    let mut r: i128 = 1;
    let mut i: u32 = 0;
    while i < n
        invariant
            i <= n <= 28,
            r as int == pow10(i as nat),
            1 <= r as int,
        decreases n - i,
    {
        proof {
            lemma_pow10_monotonic((i + 1) as nat, 28);
            lemma_pow10_28_value();
        }
        r = r * 10;
        i = i + 1;
    }
    proof {
        lemma_pow10_monotonic(n as nat, 28);
    }
    r
}

/// The concrete value of 10 to the 28th, used to bound executable powers.
proof fn lemma_pow10_28_value()
    ensures
        pow10(28) == 10000000000000000000000000000int,
{
    reveal_with_fuel(pow10, 29);
}

/// A power of ten is either one or at least ten.
proof fn lemma_pow10_shape(n: nat)
    ensures
        n == 0 ==> pow10(n) == 1,
        n >= 1 ==> pow10(n) >= 10,
{
    if n >= 1 {
        lemma_pow10_monotonic(0, (n - 1) as nat);
    }
}

/// Rounding half to even never grows the magnitude beyond the mantissa
/// range.
proof fn lemma_half_even_bound(m: int, p: int)
    requires
        0 <= m <= MAX_MANTISSA as int,
        p == 1 || p >= 10,
    ensures
        ({
            let q = m / p;
            let rem = m % p;
            let up = if 2 * rem > p {
                q + 1
            } else if 2 * rem < p {
                q
            } else if q % 2 == 0 {
                q
            } else {
                q + 1
            };
            0 <= up <= MAX_MANTISSA as int
        }),
{
    let q = m / p;
    let rem = m % p;
    lemma_round_shape(m, p);
    if p == 1 {
        assert(q == m);
        assert(rem == 0);
    } else {
        vstd::arithmetic::div_mod::lemma_div_is_ordered_by_denominator(m, 10, p);
        vstd::arithmetic::div_mod::lemma_div_is_ordered(m, MAX_MANTISSA as int, 10);
        assert(q <= m / 10 <= (MAX_MANTISSA as int) / 10);
    }
}

/// Larger exponents give pow10 values at least as large.
proof fn lemma_pow10_monotonic(a: nat, b: nat)
    requires
        a <= b,
    ensures
        1 <= pow10(a) <= pow10(b),
    decreases b,
{
    if b == 0 {
    } else if a == b {
        lemma_pow10_monotonic((b - 1) as nat, (b - 1) as nat);
    } else {
        lemma_pow10_monotonic(a, (b - 1) as nat);
    }
}

/// The sign of an integer product follows the signs of its factors.
proof fn lemma_sign_of_product(a: int, b: int)
    ensures
        a > 0 && b > 0 ==> a * b > 0,
        a < 0 && b < 0 ==> a * b > 0,
        a > 0 && b < 0 ==> a * b < 0,
        a < 0 && b > 0 ==> a * b < 0,
        a == 0 || b == 0 ==> a * b == 0,
{
    assert(a > 0 && b > 0 ==> a * b > 0) by (nonlinear_arith);
    assert(a < 0 && b < 0 ==> a * b > 0) by (nonlinear_arith);
    assert(a > 0 && b < 0 ==> a * b < 0) by (nonlinear_arith);
    assert(a < 0 && b > 0 ==> a * b < 0) by (nonlinear_arith);
    assert(a == 0 || b == 0 ==> a * b == 0) by (nonlinear_arith);
}

/// Division and remainder of a nonnegative value by a positive divisor stay
/// within the expected ranges.
proof fn lemma_round_shape(a: int, p: int)
    requires
        a >= 0,
        p >= 1,
    ensures
        0 <= a % p < p,
        0 <= a / p <= a,
{
    assert(0 <= a % p < p) by (nonlinear_arith)
        requires a >= 0 && p >= 1
    ;
    assert(0 <= a / p <= a) by (nonlinear_arith)
        requires a >= 0 && p >= 1
    ;
}

/// The single-character string of one decimal digit.
fn digit_str(d: u8) -> (r: &'static str)
    requires
        d < 10,
    ensures
        r@ == seq![digit_char(d as nat)],
{
    proof {
        reveal_strlit("0");
        reveal_strlit("1");
        reveal_strlit("2");
        reveal_strlit("3");
        reveal_strlit("4");
        reveal_strlit("5");
        reveal_strlit("6");
        reveal_strlit("7");
        reveal_strlit("8");
        reveal_strlit("9");
    }
    let r = match d {
        0 => "0",
        1 => "1",
        2 => "2",
        3 => "3",
        4 => "4",
        5 => "5",
        6 => "6",
        7 => "7",
        8 => "8",
        _ => "9",
    };
    assert(r@ =~= seq![digit_char(d as nat)]);
    r
}

/// Append the decimal digits of `n` to `out`, most significant first.
fn push_digits(n: u128, out: &mut String)
    ensures
        final(out)@ == old(out)@ + dec_digits(n as nat),
    decreases n,
{
    if n < 10 {
        out.append(digit_str(n as u8));
        assert(out@ =~= old(out)@ + dec_digits(n as nat));
    } else {
        push_digits(n / 10, out);
        out.append(digit_str((n % 10) as u8));
        assert(out@ =~= old(out)@ + dec_digits(n as nat));
    }
}

/// The decimal string of an integer.
pub fn int_to_string(v: i128) -> (r: String)
    requires
        v != i128::MIN,
    ensures
        r@ == int_chars(v as int),
{
    let mut out = String::new();
    if v < 0 {
        proof {
            reveal_strlit("-");
        }
        out.append("-");
        assert(out@ =~= seq!['-']);
        push_digits((-v) as u128, &mut out);
    } else {
        push_digits(v as u128, &mut out);
    }
    out
}

/// What `rust_decimal` makes of a decimal string: the mantissa and scale of
/// the parsed value, or the display text of the parse error.
pub uninterp spec fn decimal_str_value(s: Seq<char>) -> Result<(i128, u32), Seq<char>>;

/// Relies on `rust_decimal::Decimal::from_str` to parse a decimal string,
/// and on `Decimal::mantissa` / `Decimal::scale`: the mantissa is a signed
/// 96-bit value and the scale is at most 28.
#[verifier::external_body]
fn parse_decimal_raw(s: &str) -> (r: Result<(i128, u32), String>)
    ensures
        match r {
            Ok(p) => decimal_str_value(s@) == Ok::<(i128, u32), Seq<char>>(p)
                && -0x1000000000000000000000000 < p.0 < 0x1000000000000000000000000 && p.1 <= 28,
            Err(e) => decimal_str_value(s@) == Err::<(i128, u32), Seq<char>>(e@),
        },
{
    match <rust_decimal::Decimal as core::str::FromStr>::from_str(s) {
        Ok(d) => Ok((d.mantissa(), d.scale())),
        Err(e) => Err(e.to_string()),
    }
}

/// The amount a decimal string denotes, or the parse error's text.
pub open spec fn parsed_money(s: Seq<char>) -> Result<Money, Seq<char>> {
    match decimal_str_value(s) {
        Ok(p) => Ok(Money { mantissa: p.0, scale: p.1 }),
        Err(e) => Err(e),
    }
}

impl Money {
    /// Parse a decimal string (e.g. `"15000"` or `"149.99"`) into an exact
    /// amount. Fails exactly on the strings the decimal parser rejects,
    /// returning the parser's description of the cause.
    pub fn parse(s: &str) -> (r: Result<Money, String>)
        ensures
            match r {
                Ok(m) => parsed_money(s@) == Ok::<Money, Seq<char>>(m) && m.valid(),
                Err(e) => parsed_money(s@) == Err::<Money, Seq<char>>(e@),
            },
    {
        match parse_decimal_raw(s) {
            Ok((m, s)) => Ok(Money { mantissa: m, scale: s }),
            Err(e) => Err(e),
        }
    }
}

/// Align two amounts to their common scale.
fn align(a: &Money, b: &Money) -> (r: (i128, i128, u32))
    requires
        a.valid(),
        b.valid(),
    ensures
        (r.0 as int, r.1 as int, r.2) == spec_align(*a, *b),
        r.2 <= 28,
{
    if a.scale <= b.scale {
        let p = pow10_i128(b.scale - a.scale);
        let am = sat_mul_i128(a.mantissa, p);
        (am, b.mantissa, b.scale)
    } else {
        let p = pow10_i128(a.scale - b.scale);
        let bm = sat_mul_i128(b.mantissa, p);
        (a.mantissa, bm, a.scale)
    }
}

/// Saturating i128 multiplication clamped to the mantissa range.
fn sat_mul_i128(a: i128, b: i128) -> (r: i128)
    requires
        b >= 1,
    ensures
        r as int == sat_mantissa(a * b),
{
    proof {
        lemma_sign_of_product(a as int, b as int);
    }
    match a.checked_mul(b) {
        Some(v) => {
            if v == i128::MIN {
                -MAX_MANTISSA
            } else {
                v
            }
        },
        None => {
            if a > 0 {
                MAX_MANTISSA
            } else {
                -MAX_MANTISSA
            }
        },
    }
}

} // verus!
