//! Exact decimal values as the ledger reads them: a signed 96-bit mantissa
//! and a power-of-ten scale, mirrored from `rust_decimal::Decimal`.

use rust_decimal::prelude::ToPrimitive;
use rust_decimal::Decimal;
use std::str::FromStr;
use crate::text::nat_digits;
use vstd::prelude::*;

verus! {

/// Largest magnitude of a decimal mantissa (2^96 - 1).
pub const MAX_MANTISSA: i128 = 79_228_162_514_264_337_593_543_950_335;

/// Largest number of fractional digits a decimal may carry.
pub const MAX_SCALE: u32 = 28;

/// The value `mantissa / 10^scale`.
#[derive(Clone, Copy, Debug)]
pub struct Dec {
    pub mantissa: i128,
    pub scale: u32,
}

/// `10^n`.
pub open spec fn pow10(n: nat) -> int
    decreases n,
{
    if n == 0 {
        1
    } else {
        10 * pow10((n - 1) as nat)
    }
}

/// Nearest integer to `n / d` for `n >= 0` and `d > 0`; an exact half goes
/// to the even neighbour.
pub open spec fn half_even(n: int, d: int) -> int {
    let q = n / d;
    let r = n % d;
    if 2 * r > d || (2 * r == d && q % 2 == 1) {
        q + 1
    } else {
        q
    }
}

/// `half_even` applied to the magnitude, keeping the sign.
pub open spec fn signed_half_even(m: int, d: int) -> int {
    if m < 0 {
        -half_even(-m, d)
    } else {
        half_even(m, d)
    }
}

/// The integer part of a decimal, rounding toward zero.
pub open spec fn truncated(d: Dec) -> int {
    if d.mantissa < 0 {
        -((-(d.mantissa as int)) / pow10(d.scale as nat))
    } else {
        (d.mantissa as int) / pow10(d.scale as nat)
    }
}

/// The decimal rounded to at most `dp` fractional digits, halves to even;
/// a decimal with no more than `dp` digits is left as it is.
pub open spec fn rounded_to(d: Dec, dp: u32) -> Dec {
    if d.scale <= dp {
        d
    } else {
        Dec {
            mantissa: signed_half_even(d.mantissa as int, pow10((d.scale - dp) as nat)) as i128,
            scale: dp,
        }
    }
}

/// Removes trailing zero digits from the fraction.
pub open spec fn stripped(m: int, s: nat) -> (int, nat)
    decreases s,
{
    if s > 0 && m % 10 == 0 {
        stripped(m / 10, (s - 1) as nat)
    } else {
        (m, s)
    }
}

/// The same value written without trailing fractional zeros; zero becomes `0`.
pub open spec fn normalized(d: Dec) -> Dec {
    if d.mantissa == 0 {
        Dec { mantissa: 0, scale: 0 }
    } else {
        Dec {
            mantissa: stripped(d.mantissa as int, d.scale as nat).0 as i128,
            scale: stripped(d.mantissa as int, d.scale as nat).1 as u32,
        }
    }
}

impl Dec {
    /// The mantissa fits in 96 bits and the scale is at most 28.
    pub open spec fn wf(self) -> bool {
        -MAX_MANTISSA <= self.mantissa <= MAX_MANTISSA && self.scale <= MAX_SCALE
    }

    /// `self` and `other` denote the same number.
    pub open spec fn same_value_as(self, other: Dec) -> bool {
        self.mantissa * pow10(other.scale as nat) == other.mantissa * pow10(self.scale as nat)
    }

    /// The value is strictly above zero.
    pub open spec fn is_positive_spec(self) -> bool {
        self.mantissa > 0
    }

    /// A value held in micro-units: `micros / 10^6`.
    pub open spec fn of_micros(micros: int) -> Dec {
        Dec { mantissa: micros as i128, scale: 6 }
    }

    /// The decimal `micros / 10^6`, as the ledger reads a stored amount.
    pub fn from_micros(micros: i64) -> (r: Dec)
        ensures
            r == Dec::of_micros(micros as int),
            r.wf(),
    {
        Dec { mantissa: micros as i128, scale: 6 }
    }

    /// Builds `mantissa / 10^scale`; `None` where the mantissa exceeds 96
    /// bits or the scale exceeds 28.
    pub fn try_from_parts(mantissa: i128, scale: u32) -> (r: Option<Dec>)
        ensures
            r == (if (Dec { mantissa, scale }).wf() {
                Some(Dec { mantissa, scale })
            } else {
                None
            }),
    {
        if -MAX_MANTISSA <= mantissa && mantissa <= MAX_MANTISSA && scale <= MAX_SCALE {
            Some(Dec { mantissa, scale })
        } else {
            None
        }
    }

    /// True when the value is above zero.
    pub fn is_positive(&self) -> (r: bool)
        ensures
            r == self.is_positive_spec(),
    {
        self.mantissa > 0
    }

    /// The value with its sign flipped.
    pub fn negated(&self) -> (r: Dec)
        requires
            self.wf(),
        ensures
            r == (Dec { mantissa: (-self.mantissa) as i128, scale: self.scale }),
            r.wf(),
    {
        Dec { mantissa: -self.mantissa, scale: self.scale }
    }

    /// True when both decimals denote the same number, whatever their scales.
    pub fn same_value(&self, other: &Dec) -> (r: bool)
        requires
            self.wf(),
            other.wf(),
        ensures
            r == self.same_value_as(*other),
    {
        if self.scale <= other.scale {
            let p = pow10_exec(other.scale - self.scale);
            proof {
                lemma_pow10_positive((other.scale - self.scale) as nat);
                lemma_pow10_add(self.scale as nat, (other.scale - self.scale) as nat);
                lemma_pow10_positive(self.scale as nat);
                lemma_scaled_equal(self.mantissa as int, other.mantissa as int, p as int,
                    pow10(self.scale as nat));
            }
            divides_to(other.mantissa, p, self.mantissa)
        } else {
            let p = pow10_exec(self.scale - other.scale);
            proof {
                lemma_pow10_positive((self.scale - other.scale) as nat);
                lemma_pow10_add(other.scale as nat, (self.scale - other.scale) as nat);
                lemma_pow10_positive(other.scale as nat);
                lemma_scaled_equal(other.mantissa as int, self.mantissa as int, p as int,
                    pow10(other.scale as nat));
            }
            divides_to(self.mantissa, p, other.mantissa)
        }
    }
}

proof fn lemma_scaled_equal(a: int, b: int, p: int, q: int)
    requires
        p > 0,
        q > 0,
    ensures
        (a * (q * p) == b * q) <==> (a * p == b),
{
    assert(a * (q * p) == (a * p) * q) by (nonlinear_arith);
    assert((a * p) * q == b * q <==> a * p == b) by (nonlinear_arith)
        requires
            q > 0,
    ;
}

/// `|x|`.
pub open spec fn abs(x: int) -> int {
    if x < 0 {
        -x
    } else {
        x
    }
}

/// Whether `b == a * p`, decided without forming the product.
fn divides_to(b: i128, p: i128, a: i128) -> (r: bool)
    requires
        p > 0,
        -MAX_MANTISSA <= a <= MAX_MANTISSA,
        -MAX_MANTISSA <= b <= MAX_MANTISSA,
    ensures
        r == (a * p == b),
{
    let mb: u128 = if b < 0 { (-b) as u128 } else { b as u128 };
    let ma: u128 = if a < 0 { (-a) as u128 } else { a as u128 };
    let pu = p as u128;
    let same_sign = (a < 0) == (b < 0) || a == 0 || b == 0;
    let r = same_sign && mb % pu == 0 && mb / pu == ma;
    proof {
        let ai = a as int;
        let bi = b as int;
        let pi = p as int;
        vstd::arithmetic::div_mod::lemma_fundamental_div_mod(mb as int, pi);
        if r {
            assert(mb as int == pi * (mb as int / pi));
            assert(abs(bi) == abs(ai) * pi) by (nonlinear_arith)
                requires
                    mb as int == pi * (mb as int / pi),
                    mb as int / pi == ma as int,
                    mb as int == abs(bi),
                    ma as int == abs(ai),
            ;
            assert(ai * pi == bi) by (nonlinear_arith)
                requires
                    abs(bi) == abs(ai) * pi,
                    pi > 0,
                    (ai < 0) == (bi < 0) || ai == 0 || bi == 0,
            ;
        }
        if ai * pi == bi {
            assert(abs(bi) == abs(ai) * pi) by (nonlinear_arith)
                requires
                    ai * pi == bi,
                    pi > 0,
            ;
            assert((ai < 0) == (bi < 0) || ai == 0 || bi == 0) by (nonlinear_arith)
                requires
                    ai * pi == bi,
                    pi > 0,
            ;
            vstd::arithmetic::div_mod::lemma_fundamental_div_mod_converse(
                abs(bi),
                pi,
                abs(ai),
                0,
            );
        }
    }
    r
}

pub proof fn lemma_pow10_positive(n: nat)
    ensures
        pow10(n) > 0,
    decreases n,
{
    if n > 0 {
        lemma_pow10_positive((n - 1) as nat);
    }
}

pub proof fn lemma_pow10_add(a: nat, b: nat)
    ensures
        pow10(a + b) == pow10(a) * pow10(b),
    decreases b,
{
    if b > 0 {
        lemma_pow10_add(a, (b - 1) as nat);
        assert(pow10(a + b) == 10 * pow10((a + b - 1) as nat));
        assert(pow10(a) * pow10(b) == pow10(a) * (10 * pow10((b - 1) as nat)));
        assert(pow10(a) * (10 * pow10((b - 1) as nat)) == 10 * (pow10(a) * pow10(
            (b - 1) as nat,
        ))) by (nonlinear_arith);
    }
}

pub proof fn lemma_pow10_monotone(a: nat, b: nat)
    requires
        a <= b,
    ensures
        pow10(a) <= pow10(b),
    decreases b,
{
    if a < b {
        lemma_pow10_monotone(a, (b - 1) as nat);
        lemma_pow10_positive((b - 1) as nat);
    }
}

pub proof fn lemma_pow10_28()
    ensures
        pow10(6) == 1_000_000,
        pow10(12) == 1_000_000_000_000,
        pow10(18) == 1_000_000_000_000_000_000,
        pow10(28) == 10_000_000_000_000_000_000_000_000_000,
{
    reveal_with_fuel(pow10, 29);
}

pub proof fn lemma_pow10_bound(n: nat)
    requires
        n <= 28,
    ensures
        0 < pow10(n) <= pow10(28),
{
    lemma_pow10_positive(n);
    lemma_pow10_monotone(n, 28);
}

/// `10^n` as an exact integer.
pub fn pow10_exec(n: u32) -> (r: i128)
    requires
        n <= 28,
    ensures
        r == pow10(n as nat),
{
    let mut r: i128 = 1;
    let mut i: u32 = 0;
    while i < n
        invariant
            i <= n <= 28,
            r == pow10(i as nat),
        decreases n - i,
    {
        proof {
            lemma_pow10_bound((i + 1) as nat);
            lemma_pow10_28();
        }
        r = r * 10;
        i = i + 1;
    }
    r
}

/// What `rust_decimal` gives for the product of two decimals, `None` on overflow.
pub uninterp spec fn decimal_product(a: Dec, b: Dec) -> Option<Dec>;

/// What `rust_decimal` gives for the quotient of two decimals, `None` on
/// overflow or a zero divisor.
pub uninterp spec fn decimal_quotient(a: Dec, b: Dec) -> Option<Dec>;

/// What `rust_decimal` gives for the sum of two decimals, `None` on overflow.
pub uninterp spec fn decimal_sum(a: Dec, b: Dec) -> Option<Dec>;

/// The digits of the mantissa's magnitude, none for zero, padded with
/// leading zeros to at least `scale` digits.
pub open spec fn padded_digits(d: Dec) -> Seq<char> {
    let n = abs(d.mantissa as int);
    let digits = if n == 0 {
        Seq::<char>::empty()
    } else {
        nat_digits(n as nat)
    };
    if digits.len() < d.scale {
        Seq::new((d.scale - digits.len()) as nat, |_i: int| '0') + digits
    } else {
        digits
    }
}

/// The text `rust_decimal` writes for a decimal (its `Display`, through
/// `str::to_str_internal`): a `-` for a negative mantissa, the whole digits
/// (`0` when there are none), and, for a positive scale, a point followed by
/// exactly `scale` fractional digits.
pub open spec fn decimal_display(d: Dec) -> Seq<char> {
    let digits = padded_digits(d);
    let cut = digits.len() - d.scale;
    let whole = digits.take(cut);
    let fraction = digits.skip(cut);
    (if d.mantissa < 0 {
        "-"@
    } else {
        ""@
    }) + (if whole.len() == 0 {
        "0"@
    } else {
        whole
    }) + (if d.scale > 0 {
        "."@ + fraction
    } else {
        ""@
    })
}

/// The decimal `rust_decimal` reads from a text (its `FromStr`), `None` when
/// the text is not a decimal it accepts.
pub uninterp spec fn parsed_decimal(s: Seq<char>) -> Option<Dec>;

/// `q` denotes the exact product of `a` and `b`.
pub open spec fn is_product(a: Dec, b: Dec, q: Dec) -> bool {
    q.mantissa * pow10((a.scale + b.scale) as nat) == (a.mantissa * b.mantissa) * pow10(
        q.scale as nat,
    )
}

/// `q` denotes the exact sum of `a` and `b`.
pub open spec fn is_sum(a: Dec, b: Dec, q: Dec) -> bool {
    q.mantissa * (pow10(a.scale as nat) * pow10(b.scale as nat)) == (a.mantissa * pow10(
        b.scale as nat,
    ) + b.mantissa * pow10(a.scale as nat)) * pow10(q.scale as nat)
}

/// `q` denotes the exact quotient of `a` by `b`.
pub open spec fn is_quotient(a: Dec, b: Dec, q: Dec) -> bool {
    q.mantissa * b.mantissa * pow10(a.scale as nat) == a.mantissa * pow10(b.scale as nat) * pow10(
        q.scale as nat,
    )
}

/// Wherever some decimal denotes the exact product, `r` holds one that does.
pub open spec fn exact_where_representable_product(a: Dec, b: Dec, r: Option<Dec>) -> bool {
    forall|q: Dec| #[trigger]
        is_product(a, b, q) && q.wf() ==> (r matches Some(p) && is_product(a, b, p))
}

/// With a divisor other than zero: wherever some decimal denotes the exact
/// quotient, `r` holds one that does.
pub open spec fn exact_where_representable_quotient(a: Dec, b: Dec, r: Option<Dec>) -> bool {
    b.mantissa != 0 ==> forall|q: Dec| #[trigger]
        is_quotient(a, b, q) && q.wf() ==> (r matches Some(p) && is_quotient(a, b, p))
}

/// `d` denotes the number `n / 10^s`.
pub open spec fn denotes(d: Dec, n: int, s: nat) -> bool {
    d.mantissa * pow10(s) == n * pow10(d.scale as nat)
}

/// Where the exact sum fits in 96 bits at the larger scale, `r` holds a
/// decimal that denotes it.
pub open spec fn exact_where_aligned_sum_fits(a: Dec, b: Dec, r: Option<Dec>) -> bool {
    abs(aligned_sum(a, b)) <= MAX_MANTISSA ==> (r matches Some(p) && is_sum(a, b, p))
}

/// The mantissa of the exact sum of `a` and `b` at the larger of their scales.
pub open spec fn aligned_sum(a: Dec, b: Dec) -> int {
    if a.scale <= b.scale {
        a.mantissa * pow10((b.scale - a.scale) as nat) + b.mantissa
    } else {
        a.mantissa + b.mantissa * pow10((a.scale - b.scale) as nat)
    }
}

/// `Decimal::checked_mul`: the product is exact when the exact mantissa fits
/// in 96 bits and the scales add up to at most 28, and a zero factor gives
/// zero at scale 0 (`ops::mul::mul_impl`). What it gives where it must round
/// is left to the name. Where the product can be written as a decimal at
/// all, `ops::mul::finish_mul` only drops trailing zeros of the exact
/// mantissa (`Buf24::rescale`), so the value is exact.
#[verifier::external_body]
pub(crate) fn checked_mul(a: &Dec, b: &Dec) -> (r: Option<Dec>)
    requires
        a.wf(),
        b.wf(),
    ensures
        r == decimal_product(*a, *b),
        r matches Some(p) ==> p.wf(),
        a.mantissa == 0 || b.mantissa == 0 ==> r == Some(Dec { mantissa: 0, scale: 0 }),
        a.mantissa * b.mantissa != 0 && abs(a.mantissa * b.mantissa) <= MAX_MANTISSA && a.scale
            + b.scale <= MAX_SCALE ==> r == Some(
            Dec { mantissa: (a.mantissa * b.mantissa) as i128, scale: (a.scale + b.scale) as u32 },
        ),
        exact_where_representable_product(*a, *b, r),
{
    let x = Decimal::from_i128_with_scale(a.mantissa, a.scale);
    let y = Decimal::from_i128_with_scale(b.mantissa, b.scale);
    match x.checked_mul(y) {
        Some(v) => Some(Dec { mantissa: v.mantissa(), scale: v.scale() }),
        None => None,
    }
}

/// `Decimal::checked_div`: `None` for a zero divisor (`ops::div::div_impl`).
/// Where the quotient can be written as a decimal, the division's remainder
/// runs out before the mantissa fills, so the value is exact; where it must
/// round, the quotient is left to the name.
#[verifier::external_body]
pub(crate) fn checked_div(a: &Dec, b: &Dec) -> (r: Option<Dec>)
    requires
        a.wf(),
        b.wf(),
    ensures
        r == decimal_quotient(*a, *b),
        r matches Some(q) ==> q.wf(),
        b.mantissa == 0 ==> r is None,
        exact_where_representable_quotient(*a, *b, r),
{
    let x = Decimal::from_i128_with_scale(a.mantissa, a.scale);
    let y = Decimal::from_i128_with_scale(b.mantissa, b.scale);
    match x.checked_div(y) {
        Some(v) => Some(Dec { mantissa: v.mantissa(), scale: v.scale() }),
        None => None,
    }
}

/// `Decimal::checked_add` (`ops::add::add_impl`): where the sum, written at
/// the larger of the two scales, fits in 96 bits, its value is exact (a
/// zero operand gives the other one back); otherwise it is left to the name.
#[verifier::external_body]
pub(crate) fn checked_add(a: &Dec, b: &Dec) -> (r: Option<Dec>)
    requires
        a.wf(),
        b.wf(),
    ensures
        r == decimal_sum(*a, *b),
        r matches Some(q) ==> q.wf(),
        exact_where_aligned_sum_fits(*a, *b, r),
{
    let x = Decimal::from_i128_with_scale(a.mantissa, a.scale);
    let y = Decimal::from_i128_with_scale(b.mantissa, b.scale);
    match x.checked_add(y) {
        Some(v) => Some(Dec { mantissa: v.mantissa(), scale: v.scale() }),
        None => None,
    }
}

/// `Decimal::round_dp`: rounds to `dp` fractional digits with halves going to
/// the even neighbour, and leaves a decimal with at most `dp` digits alone
/// (`Decimal::round_dp_with_strategy` with `MidpointNearestEven`).
#[verifier::external_body]
pub(crate) fn round_dp(d: &Dec, dp: u32) -> (r: Dec)
    requires
        d.wf(),
    ensures
        r == rounded_to(*d, dp),
        r.wf(),
{
    let v = Decimal::from_i128_with_scale(d.mantissa, d.scale).round_dp(dp);
    Dec { mantissa: v.mantissa(), scale: v.scale() }
}

/// `ToPrimitive::to_i64` for `Decimal`: the integer part, rounded toward
/// zero, when it lies in the `i64` range, else `None`.
#[verifier::external_body]
pub(crate) fn to_i64(d: &Dec) -> (r: Option<i64>)
    requires
        d.wf(),
    ensures
        r == (if i64::MIN <= truncated(*d) <= i64::MAX {
            Some(truncated(*d) as i64)
        } else {
            None
        }),
{
    Decimal::from_i128_with_scale(d.mantissa, d.scale).to_i64()
}

/// `Decimal::normalize`: strips trailing fractional zeros, zero becomes `0`.
#[verifier::external_body]
pub(crate) fn normalize(d: &Dec) -> (r: Dec)
    requires
        d.wf(),
    ensures
        r == normalized(*d),
        r.wf(),
{
    let v = Decimal::from_i128_with_scale(d.mantissa, d.scale).normalize();
    Dec { mantissa: v.mantissa(), scale: v.scale() }
}

/// `Decimal`'s `Display`: the mantissa's digits with the point set `scale`
/// digits from the right.
#[verifier::external_body]
pub(crate) fn display(d: &Dec) -> (r: String)
    requires
        d.wf(),
    ensures
        r@ == decimal_display(*d),
{
    Decimal::from_i128_with_scale(d.mantissa, d.scale).to_string()
}

/// `Decimal`'s `FromStr`, by name; what it accepts fits the decimal bounds.
#[verifier::external_body]
pub(crate) fn parse(s: &str) -> (r: Option<Dec>)
    ensures
        r == parsed_decimal(s@),
        r matches Some(d) ==> d.wf(),
{
    match Decimal::from_str(s) {
        Ok(v) => Some(Dec { mantissa: v.mantissa(), scale: v.scale() }),
        Err(_) => None,
    }
}

} // verus!
