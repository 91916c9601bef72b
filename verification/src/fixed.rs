//! Six-decimal fixed point: every amount and quantity is stored as an
//! integer count of millionths ("micro-units").

use crate::decimal::{
    abs, checked_mul, decimal_display, denotes, display, half_even, is_product, lemma_pow10_28,
    lemma_pow10_add, lemma_pow10_bound, lemma_pow10_monotone, lemma_pow10_positive, pow10,
    pow10_exec, round_dp, rounded_to, signed_half_even, to_i64, truncated, Dec, MAX_MANTISSA,
};
use vstd::prelude::*;
use vstd::string::*;

verus! {

/// Micro-units per unit.
pub const DECIMAL_SCALE: i64 = 1_000_000;

/// One million, the factor between a value and its micro-units.
pub open spec fn million() -> Dec {
    Dec { mantissa: 1_000_000, scale: 0 }
}

/// The value has no more than six fractional digits.
pub open spec fn has_six_places(v: Dec) -> bool {
    v.scale <= 6 || (v.mantissa as int) % pow10((v.scale - 6) as nat) == 0
}

/// The exact count of micro-units of a value with at most six places.
pub open spec fn micros_of(v: Dec) -> int {
    if v.scale <= 6 {
        v.mantissa * pow10((6 - v.scale) as nat)
    } else {
        (v.mantissa as int) / pow10((v.scale - 6) as nat)
    }
}

pub open spec fn fits_i64(x: int) -> bool {
    i64::MIN <= x <= i64::MAX
}

pub open spec fn too_precise_message(v: Dec) -> Seq<char> {
    "value "@ + decimal_display(v) + " has more than 6 decimal places"@
}

pub open spec fn out_of_range_message(v: Dec) -> Seq<char> {
    "value "@ + decimal_display(v) + " is outside the fixed-point range"@
}

/// The micro-units of a value with six places, refused when they do not fit
/// an `i64`; errors name `shown`.
pub open spec fn micro_units(v: Dec, shown: Dec) -> Result<i64, Seq<char>> {
    if fits_i64(micros_of(v)) {
        Ok(micros_of(v) as i64)
    } else {
        Err(out_of_range_message(shown))
    }
}

/// Conversion of an input value: refused beyond six places.
pub open spec fn scaled_spec(v: Dec) -> Result<i64, Seq<char>> {
    if !has_six_places(v) {
        Err(too_precise_message(v))
    } else {
        micro_units(v, v)
    }
}

/// Conversion of a computed value: rounded to six places (halves to even) first.
pub open spec fn scaled_round_spec(v: Dec) -> Result<i64, Seq<char>> {
    micro_units(rounded_to(v, 6), v)
}

pub open spec fn text_result<T>(r: Result<T, String>) -> Result<T, Seq<char>> {
    match r {
        Ok(x) => Ok(x),
        Err(e) => Err(e@),
    }
}

/// The conversion of an input value in exact arithmetic.
pub open spec fn exact_scaled(v: Dec) -> Result<i64, Seq<char>> {
    if !has_six_places(v) {
        Err(too_precise_message(v))
    } else if fits_i64(micros_of(v)) {
        Ok(micros_of(v) as i64)
    } else {
        Err(out_of_range_message(v))
    }
}

/// The conversion of a computed value in exact arithmetic.
pub open spec fn exact_scaled_round(v: Dec) -> Result<i64, Seq<char>> {
    if fits_i64(micros_of(rounded_to(v, 6))) {
        Ok(micros_of(rounded_to(v, 6)) as i64)
    } else {
        Err(out_of_range_message(v))
    }
}

/// Converts a value to the six-decimal fixed-point micro-units the ledger
/// stores; a value with more than six places is refused.
pub fn scaled(value: &Dec) -> (r: Result<i64, String>)
    requires
        value.wf(),
    ensures
        text_result(r) == scaled_spec(*value),
        text_result(r) == exact_scaled(*value),
{
    let rounded = round_dp(value, 6);
    proof {
        lemma_six_places_iff_round_unchanged(*value);
    }
    if !rounded.same_value(value) {
        let mut msg = String::from_str("value ");
        msg.append(display(value).as_str());
        msg.append(" has more than 6 decimal places");
        return Err(msg);
    }
    to_micro_units(value, value)
}

/// Converts a computed value to micro-units, rounding it to six places
/// (halves to even) first.
pub fn scaled_round(value: &Dec) -> (r: Result<i64, String>)
    requires
        value.wf(),
    ensures
        text_result(r) == scaled_round_spec(*value),
        text_result(r) == exact_scaled_round(*value),
{
    let rounded = round_dp(value, 6);
    proof {
        lemma_rounded_has_six_places(*value);
    }
    to_micro_units(&rounded, value)
}

fn to_micro_units(v: &Dec, shown: &Dec) -> (r: Result<i64, String>)
    requires
        v.wf(),
        shown.wf(),
        has_six_places(*v),
    ensures
        text_result(r) == micro_units(*v, *shown),
{
    if v.scale <= 6 {
        // Up to six places the micro-units may exceed what the decimal
        // product can hold: refuse those outside the `i64` range first.
        let k = pow10_exec(6 - v.scale);
        proof {
            lemma_pow10_28();
            lemma_pow10_bound((6 - v.scale) as nat);
            lemma_pow10_monotone((6 - v.scale) as nat, 6);
            assert(-MAX_MANTISSA * 1_000_000 <= v.mantissa * k <= MAX_MANTISSA * 1_000_000)
                by (nonlinear_arith)
                requires
                    -MAX_MANTISSA <= v.mantissa <= MAX_MANTISSA,
                    0 < k <= 1_000_000,
            ;
        }
        let micros: i128 = v.mantissa * k;
        if micros < -9_223_372_036_854_775_808i128 || micros > 9_223_372_036_854_775_807i128 {
            return Err(out_of_range(shown));
        }
        assert(abs(micros_of(*v)) <= MAX_MANTISSA);
    } else {
        proof {
            let p = pow10((v.scale - 6) as nat);
            lemma_pow10_positive((v.scale - 6) as nat);
            let mi = v.mantissa as int;
            vstd::arithmetic::div_mod::lemma_fundamental_div_mod(mi, p);
            assert(abs(mi / p) <= abs(mi)) by (nonlinear_arith)
                requires
                    mi == p * (mi / p) + mi % p,
                    mi % p == 0,
                    p > 0,
            ;
        }
        assert(abs(micros_of(*v)) <= MAX_MANTISSA);
    }
    let m = Dec { mantissa: 1_000_000, scale: 0 };
    let product = checked_mul(v, &m);
    proof {
        if abs(micros_of(*v)) <= MAX_MANTISSA {
            let w = Dec { mantissa: micros_of(*v) as i128, scale: 0 };
            match product {
                Some(p) => {
                    lemma_million_product(*v, p);
                    assert(is_product(*v, m, w));
                },
                None => {
                    lemma_million_product(*v, *v);
                    assert(is_product(*v, m, w));
                },
            }
        }
    }
    match product {
        Some(p) => match to_i64(&p) {
            Some(x) => Ok(x),
            None => Err(out_of_range(shown)),
        },
        None => Err(out_of_range(shown)),
    }
}

fn out_of_range(v: &Dec) -> (r: String)
    requires
        v.wf(),
    ensures
        r@ == out_of_range_message(*v),
{
    let mut msg = String::from_str("value ");
    msg.append(display(v).as_str());
    msg.append(" is outside the fixed-point range");
    msg
}

proof fn lemma_six_places_iff_round_unchanged(v: Dec)
    requires
        v.wf(),
    ensures
        rounded_to(v, 6).same_value_as(v) <==> has_six_places(v),
{
    if v.scale > 6 {
        let k = (v.scale - 6) as nat;
        let p = pow10(k);
        lemma_pow10_positive(k);
        lemma_pow10_add(6, k);
        assert(6 + k == v.scale as nat);
        assert(pow10(v.scale as nat) == pow10(6) * p);
        let m = v.mantissa as int;
        lemma_pow10_28();
        lemma_pow10_bound(k);
        lemma_half_even_bounds(abs(m), p);
        let r = signed_half_even(m, p);
        assert(abs(r) <= abs(m)) by {
            assert(abs(r) == half_even(abs(m), p));
            if abs(m) > 0 {
                crate::decimal::lemma_pow10_monotone(1, k);
                assert(pow10(1) == 10) by {
                    reveal_with_fuel(pow10, 2);
                }
                vstd::arithmetic::div_mod::lemma_div_decreases(abs(m), p);
                assert(abs(m) / p < abs(m));
            } else {
                vstd::arithmetic::div_mod::lemma_fundamental_div_mod_converse(0, p, 0, 0);
            }
        }
        assert(rounded_to(v, 6).mantissa as int == r);
        assert(r * pow10(v.scale as nat) == m * pow10(6) <==> r * p == m) by (nonlinear_arith)
            requires
                pow10(v.scale as nat) == pow10(6) * p,
                pow10(6) > 0,
        ;
        if m % p == 0 {
            lemma_half_even_exact(m, p);
        } else {
            if r * p == m {
                vstd::arithmetic::div_mod::lemma_mod_multiples_basic(r, p);
                assert((r * p) % p == 0);
                assert(false);
            }
        }
    }
}

/// Rounding a multiple of `p` recovers the exact quotient.
proof fn lemma_half_even_exact(m: int, p: int)
    requires
        p > 0,
        m % p == 0,
    ensures
        signed_half_even(m, p) * p == m,
        signed_half_even(m, p) == m / p,
{
    vstd::arithmetic::div_mod::lemma_fundamental_div_mod(m, p);
    let q = m / p;
    if m < 0 {
        assert(-m == (-q) * p) by (nonlinear_arith)
            requires
                m == p * q,
        ;
        vstd::arithmetic::div_mod::lemma_fundamental_div_mod_converse(-m, p, -q, 0);
        assert(half_even(-m, p) == -q);
    } else {
        assert(m == q * p) by (nonlinear_arith)
            requires
                m == p * q,
        ;
    }
    assert(signed_half_even(m, p) == q);
    assert(q * p == m) by (nonlinear_arith)
        requires
            m == p * q,
    ;
}

pub proof fn lemma_half_even_bounds(n: int, p: int)
    requires
        n >= 0,
        p > 0,
    ensures
        0 <= half_even(n, p) <= n / p + 1,
        half_even(n, p) * p <= n + p,
        n <= half_even(n, p) * p + p,
{
    vstd::arithmetic::div_mod::lemma_fundamental_div_mod(n, p);
    vstd::arithmetic::div_mod::lemma_mod_pos_bound(n, p);
    vstd::arithmetic::div_mod::lemma_div_pos_is_pos(n, p);
    let q = n / p;
    assert(q * p <= n) by (nonlinear_arith)
        requires
            n == p * q + n % p,
            n % p >= 0,
    ;
    assert(n <= q * p + p) by (nonlinear_arith)
        requires
            n == p * q + n % p,
            n % p < p,
    ;
    assert((q + 1) * p == q * p + p) by (nonlinear_arith);
}

proof fn lemma_abs_div_bound(m: int, p: int)
    requires
        p > 0,
    ensures
        abs(m) / p <= abs(m),
{
    if p > 1 {
        if abs(m) > 0 {
            vstd::arithmetic::div_mod::lemma_div_decreases(abs(m), p);
        }
    }
}

/// A value rounded to six places has six places.
proof fn lemma_rounded_has_six_places(v: Dec)
    ensures
        has_six_places(rounded_to(v, 6)),
{
}

/// The micro-unit count of a value with six places, times `10^scale`, is
/// its mantissa times one million.
proof fn lemma_micros_scaled_back(v: Dec)
    requires
        v.wf(),
        has_six_places(v),
    ensures
        micros_of(v) * pow10(v.scale as nat) == v.mantissa * 1_000_000,
{
    let m = v.mantissa as int;
    let s = v.scale as nat;
    lemma_pow10_28();
    if s <= 6 {
        let q = pow10((6 - s) as nat);
        lemma_pow10_add((6 - s) as nat, s);
        assert((m * q) * pow10(s) == m * pow10(6)) by (nonlinear_arith)
            requires
                pow10(6) == q * pow10(s),
        ;
    } else {
        let p = pow10((s - 6) as nat);
        lemma_pow10_positive((s - 6) as nat);
        lemma_pow10_add(6, (s - 6) as nat);
        vstd::arithmetic::div_mod::lemma_fundamental_div_mod(m, p);
        assert((m / p) * pow10(s) == m * pow10(6)) by (nonlinear_arith)
            requires
                pow10(s) == pow10(6) * p,
                m == p * (m / p) + m % p,
                m % p == 0,
        ;
    }
}

/// A decimal that denotes the integer `n` has `n` as its integer part.
proof fn lemma_truncated_of_integer(p: Dec, n: int)
    requires
        p.mantissa == n * pow10(p.scale as nat),
    ensures
        truncated(p) == n,
{
    let d = pow10(p.scale as nat);
    lemma_pow10_positive(p.scale as nat);
    if p.mantissa < 0 {
        assert(-(p.mantissa as int) == (-n) * d) by (nonlinear_arith)
            requires
                p.mantissa == n * d,
        ;
        vstd::arithmetic::div_mod::lemma_div_by_multiple(-n, d);
        assert(-n >= 0) by (nonlinear_arith)
            requires
                -(p.mantissa as int) == (-n) * d,
                p.mantissa < 0,
                d > 0,
        ;
    } else {
        assert(n >= 0) by (nonlinear_arith)
            requires
                p.mantissa == n * d,
                p.mantissa >= 0,
                d > 0,
        ;
        vstd::arithmetic::div_mod::lemma_div_by_multiple(n, d);
    }
}

/// Where `v` has six places and its micro-unit count fits a decimal
/// mantissa, that count denotes the exact product with one million, and
/// any decimal denoting that product has it as its integer part.
proof fn lemma_million_product(v: Dec, p: Dec)
    requires
        v.wf(),
        has_six_places(v),
        abs(micros_of(v)) <= MAX_MANTISSA,
    ensures
        is_product(v, million(), (Dec { mantissa: micros_of(v) as i128, scale: 0 })),
        (Dec { mantissa: micros_of(v) as i128, scale: 0 }).wf(),
        is_product(v, million(), p) ==> truncated(p) == micros_of(v),
{
    lemma_micros_scaled_back(v);
    let n = micros_of(v);
    let vs = pow10(v.scale as nat);
    lemma_pow10_positive(v.scale as nat);
    reveal_with_fuel(pow10, 1);
    assert((v.scale + 0) as nat == v.scale as nat);
    if is_product(v, million(), p) {
        let ps = pow10(p.scale as nat);
        assert(p.mantissa * vs == (v.mantissa * 1_000_000) * ps);
        assert(p.mantissa * vs == (n * ps) * vs) by (nonlinear_arith)
            requires
                p.mantissa * vs == (v.mantissa * 1_000_000) * ps,
                n * vs == v.mantissa * 1_000_000,
        ;
        assert(vs * p.mantissa == vs * (n * ps)) by (nonlinear_arith)
            requires
                p.mantissa * vs == (n * ps) * vs,
        ;
        vstd::arithmetic::mul::lemma_mul_equality_converse(vs, p.mantissa as int, n * ps);
        lemma_truncated_of_integer(p, n);
    }
}

/// A decimal that denotes `m` millionths rounds, at six places, to exactly
/// `m` micro-units.
pub proof fn lemma_rounds_to_micros(p: Dec, m: int)
    requires
        p.wf(),
        denotes(p, m, 6),
    ensures
        micros_of(rounded_to(p, 6)) == m,
{
    let ps = p.scale as nat;
    lemma_pow10_28();
    if ps <= 6 {
        let k = (6 - ps) as nat;
        lemma_pow10_add(k, ps);
        lemma_pow10_positive(ps);
        assert(k + ps == 6);
        assert(p.mantissa * pow10(k) * pow10(ps) == m * pow10(ps)) by (nonlinear_arith)
            requires
                p.mantissa * pow10(6) == m * pow10(ps),
                pow10(6) == pow10(k) * pow10(ps),
        ;
        assert(pow10(ps) * (p.mantissa * pow10(k)) == pow10(ps) * m) by (nonlinear_arith)
            requires
                p.mantissa * pow10(k) * pow10(ps) == m * pow10(ps),
        ;
        vstd::arithmetic::mul::lemma_mul_equality_converse(pow10(ps), p.mantissa * pow10(k), m);
    } else {
        let k = (ps - 6) as nat;
        let d = pow10(k);
        lemma_pow10_add(6, k);
        lemma_pow10_positive(k);
        assert(6 + k == ps);
        assert(pow10(6) * p.mantissa == pow10(6) * (m * d)) by (nonlinear_arith)
            requires
                p.mantissa * pow10(6) == m * pow10(ps),
                pow10(ps) == pow10(6) * d,
        ;
        vstd::arithmetic::mul::lemma_mul_equality_converse(pow10(6), p.mantissa as int, m * d);
        vstd::arithmetic::div_mod::lemma_mod_multiples_basic(m, d);
        lemma_half_even_exact(p.mantissa as int, d);
        vstd::arithmetic::div_mod::lemma_div_multiples_vanish(m, d);
        assert((m * d) / d == m) by {
            assert(m * d == d * m) by (nonlinear_arith);
        }
        reveal_with_fuel(pow10, 1);
    }
}

/// A stored micro-unit amount, read back as a decimal and converted again,
/// gives the same amount: the conversion is exact for it, and the exact
/// conversion returns it.
pub proof fn lemma_stored_amount_round_trip(k: i64)
    ensures
        Dec::of_micros(k as int).wf(),
        abs(micros_of(Dec::of_micros(k as int))) <= MAX_MANTISSA,
        exact_scaled(Dec::of_micros(k as int)) == Ok::<i64, Seq<char>>(k),
{
    reveal_with_fuel(pow10, 2);
    assert(micros_of(Dec::of_micros(k as int)) == k * 1);
}

/// An input value accepted by the conversion, read back from its stored
/// micro-units, is the same number.
pub proof fn lemma_scaled_amount_reads_back(v: Dec, k: i64)
    requires
        v.wf(),
        exact_scaled(v) == Ok::<i64, Seq<char>>(k),
    ensures
        Dec::of_micros(k as int).same_value_as(v),
{
    let m = v.mantissa as int;
    let s = v.scale as nat;
    lemma_pow10_28();
    if s <= 6 {
        let q = pow10((6 - s) as nat);
        lemma_pow10_add((6 - s) as nat, s);
        assert(k == m * q);
        assert((m * q) * pow10(s) == m * pow10(6)) by (nonlinear_arith)
            requires
                pow10(6) == q * pow10(s),
        ;
    } else {
        let p = pow10((s - 6) as nat);
        lemma_pow10_positive((s - 6) as nat);
        lemma_pow10_add(6, (s - 6) as nat);
        vstd::arithmetic::div_mod::lemma_fundamental_div_mod(m, p);
        assert(k == m / p);
        assert((m / p) * pow10(s) == m * pow10(6)) by (nonlinear_arith)
            requires
                pow10(s) == pow10(6) * p,
                m == p * (m / p),
        ;
    }
}

/// For a value that already has six places the rounding conversion agrees
/// with the input conversion.
pub proof fn lemma_rounding_agrees_on_six_places(v: Dec)
    requires
        v.wf(),
        has_six_places(v),
    ensures
        micros_of(rounded_to(v, 6)) == micros_of(v),
        exact_scaled_round(v) == exact_scaled(v),
{
    if v.scale > 6 {
        let p = pow10((v.scale - 6) as nat);
        lemma_pow10_positive((v.scale - 6) as nat);
        lemma_half_even_exact(v.mantissa as int, p);
        lemma_abs_div_bound(v.mantissa as int, p);
        let q = (v.mantissa as int) / p;
        assert(abs(q) <= abs(v.mantissa as int)) by (nonlinear_arith)
            requires
                q * p == v.mantissa as int,
                p > 0,
        ;
        reveal_with_fuel(pow10, 1);
        assert(micros_of(rounded_to(v, 6)) == q * pow10(0));
    }
}

} // verus!
