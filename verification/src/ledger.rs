//! How a simulated fill moves the ledger: the order is filled for its whole
//! remaining quantity, the position rolls up with an average-cost rule, and
//! cash moves by the traded notional.

use crate::decimal::{
    abs, aligned_sum, checked_add, checked_div, checked_mul, decimal_product, decimal_quotient,
    decimal_sum, denotes, exact_where_representable_quotient, half_even, is_quotient, is_sum,
    lemma_pow10_add, lemma_pow10_positive, lemma_pow10_28, pow10, rounded_to, signed_half_even, Dec, MAX_MANTISSA,
};
use crate::fixed::{
    exact_scaled_round, fits_i64, lemma_rounds_to_micros, micros_of, scaled_round,
    scaled_round_spec, text_result,
};
use crate::fixed::{exact_scaled, scaled, scaled_spec};
use crate::models::NewFill;
use crate::text::{concat, str_eq};
use vstd::prelude::*;
use vstd::string::*;
use vstd::utf8::encode_utf8;

verus! {

/// `-1`, `0` or `1` after the sign of `x`.
pub open spec fn sign(x: int) -> int {
    if x > 0 {
        1
    } else if x < 0 {
        -1
    } else {
        0
    }
}

/// A fill on this side adds to the position; any other side takes from it.
pub open spec fn is_buy(side: Seq<char>) -> bool {
    side == "BUY"@
}

/// The signed quantity a fill moves the position by.
pub open spec fn fill_delta(side: Seq<char>, quantity: int) -> int {
    if is_buy(side) {
        quantity
    } else {
        -quantity
    }
}

pub open spec fn overflow_message() -> Seq<char> {
    "position arithmetic overflow"@
}

pub open spec fn cash_overflow_message() -> Seq<char> {
    "cash arithmetic overflow"@
}

/// The new position is on the other side of zero from the old one, or the
/// old one was flat: the fill price becomes the average cost.
pub open spec fn takes_fill_price(old: int, delta: int) -> bool {
    old == 0 || (sign(old) != sign(delta) && sign(old + delta) != sign(old))
}

/// Average cost after adding `delta` at `price` to `old` held at `old_avg`
/// (the fill price when no cost was recorded): the quantity-weighted mean,
/// computed in `rust_decimal` and rounded to six places.
pub open spec fn blended_cost(old: int, old_avg: Option<i64>, delta: int, price: int) -> Result<
    i64,
    Seq<char>,
> {
    let cost = match old_avg {
        Some(a) => Dec::of_micros(a as int),
        None => Dec::of_micros(price),
    };
    if !fits_i64(abs(old)) || !fits_i64(abs(old) + abs(delta)) {
        Err(overflow_message())
    } else {
        match decimal_product(Dec::of_micros(abs(old)), cost) {
            None => Err(overflow_message()),
            Some(held) => match decimal_product(Dec::of_micros(abs(delta)), Dec::of_micros(price)) {
                None => Err(overflow_message()),
                Some(added) => match decimal_sum(held, added) {
                    None => Err(overflow_message()),
                    Some(total) => match decimal_quotient(
                        total,
                        Dec::of_micros(abs(old) + abs(delta)),
                    ) {
                        None => Err(overflow_message()),
                        Some(avg) => scaled_round_spec(avg),
                    },
                },
            },
        }
    }
}

/// The quantity of a stored position row; flat when there is none.
pub open spec fn held_quantity(row: Option<(i64, Option<i64>)>) -> int {
    match row {
        Some(r) => r.0 as int,
        None => 0,
    }
}

/// The recorded average cost of a stored position row.
pub open spec fn held_cost(row: Option<(i64, Option<i64>)>) -> Option<i64> {
    match row {
        Some(r) => r.1,
        None => None,
    }
}

/// The cost basis a same-side add starts from: the recorded average cost,
/// or the fill price when none was recorded.
pub open spec fn base_cost(old_avg: Option<i64>, price: int) -> int {
    match old_avg {
        Some(a) => a as int,
        None => price,
    }
}

/// The total cost after adding `delta` at `price` to `old`, in millionths of
/// micro-units.
pub open spec fn blended_total(old: int, old_avg: Option<i64>, delta: int, price: int) -> int {
    abs(old) * base_cost(old_avg, price) + abs(delta) * price
}

/// The blend can be carried out without rounding: both costs and their sum
/// fit a decimal mantissa, and the weighted mean is a whole number of
/// micro-units.
pub open spec fn blend_is_exact(old: int, old_avg: Option<i64>, delta: int, price: int) -> bool {
    &&& abs(old) + abs(delta) > 0
    &&& abs(abs(old) * base_cost(old_avg, price)) <= MAX_MANTISSA
    &&& abs(abs(delta) * price) <= MAX_MANTISSA
    &&& abs(blended_total(old, old_avg, delta, price)) <= MAX_MANTISSA
    &&& blended_total(old, old_avg, delta, price) % (abs(old) + abs(delta)) == 0
}

/// The position and average cost after a fill of `quantity` at `price`
/// (micro-units) on `side`, from the stored row (none: flat, no cost).
/// Clearing the position resets the cost; opening, or crossing to the other
/// side, takes the fill price; adding on the same side blends; a partial
/// reduction keeps the old cost.
pub open spec fn rolled_up(
    row: Option<(i64, Option<i64>)>,
    side: Seq<char>,
    quantity: int,
    price: int,
) -> Result<(i64, Option<i64>), Seq<char>> {
    let old = match row {
        Some(r) => r.0 as int,
        None => 0,
    };
    let old_avg = match row {
        Some(r) => r.1,
        None => None,
    };
    let delta = fill_delta(side, quantity);
    let new = old + delta;
    if !fits_i64(new) {
        Err(overflow_message())
    } else if new == 0 {
        Ok((0, None))
    } else if takes_fill_price(old, delta) {
        Ok((new as i64, Some(price as i64)))
    } else if sign(old) == sign(delta) {
        match blended_cost(old, old_avg, delta, price) {
            Ok(c) => Ok((new as i64, Some(c))),
            Err(e) => Err(e),
        }
    } else {
        Ok((new as i64, old_avg))
    }
}

/// Folds a fill into a position row.
pub fn roll_up_position(
    row: Option<(i64, Option<i64>)>,
    side: &str,
    fill_qty: i64,
    price_scaled: i64,
) -> (r: Result<(i64, Option<i64>), String>)
    requires
        fill_qty > 0,
    ensures
        text_result(r) == rolled_up(row, side@, fill_qty as int, price_scaled as int),
        ({
            let old = held_quantity(row);
            let avg = held_cost(row);
            let delta = fill_delta(side@, fill_qty as int);
            let w = abs(old) + abs(delta);
            old != 0 && sign(old) == sign(delta) && fits_i64(w) && blend_is_exact(
                old,
                avg,
                delta,
                price_scaled as int,
            ) ==> r == Ok::<(i64, Option<i64>), String>(
                (
                    (old + delta) as i64,
                    Some((blended_total(old, avg, delta, price_scaled as int) / w) as i64),
                ),
            )
        }),
{
    let (old_position, old_avg) = match row {
        Some(found) => found,
        None => (0i64, None),
    };
    let buy = str_eq(side, "BUY");
    let delta: i64 = if buy {
        fill_qty
    } else {
        -fill_qty
    };
    let new_position = match old_position.checked_add(delta) {
        Some(p) => p,
        None => return Err(String::from_str("position arithmetic overflow")),
    };
    if new_position == 0 {
        Ok((0, None))
    } else if old_position == 0 || (signum(old_position) != signum(delta) && signum(new_position)
        != signum(old_position)) {
        Ok((new_position, Some(price_scaled)))
    } else if signum(old_position) == signum(delta) {
        match blend(old_position, old_avg, delta, price_scaled) {
            Ok(c) => Ok((new_position, Some(c))),
            Err(e) => Err(e),
        }
    } else {
        Ok((new_position, old_avg))
    }
}

fn signum(x: i64) -> (r: i64)
    ensures
        r == sign(x as int),
{
    if x > 0 {
        1
    } else if x < 0 {
        -1
    } else {
        0
    }
}

fn blend(old: i64, old_avg: Option<i64>, delta: i64, price: i64) -> (r: Result<i64, String>)
    ensures
        text_result(r) == blended_cost(old as int, old_avg, delta as int, price as int),
        fits_i64(abs(old as int) + abs(delta as int)) && blend_is_exact(
            old as int,
            old_avg,
            delta as int,
            price as int,
        ) ==> r == Ok::<i64, String>(
            (blended_total(old as int, old_avg, delta as int, price as int) / (abs(old as int) + abs(
                delta as int,
            ))) as i64,
        ),
{
    let ghost exact = fits_i64(abs(old as int) + abs(delta as int)) && blend_is_exact(
        old as int,
        old_avg,
        delta as int,
        price as int,
    );
    if old == i64::MIN || delta == i64::MIN {
        return Err(String::from_str("position arithmetic overflow"));
    }
    let old_abs: i64 = if old < 0 {
        -old
    } else {
        old
    };
    let delta_abs: i64 = if delta < 0 {
        -delta
    } else {
        delta
    };
    let weight = match old_abs.checked_add(delta_abs) {
        Some(w) => w,
        None => return Err(String::from_str("position arithmetic overflow")),
    };
    let cost = match old_avg {
        Some(a) => Dec::from_micros(a),
        None => Dec::from_micros(price),
    };
    let ghost c = base_cost(old_avg, price as int);
    let ghost x = old_abs * c;
    let ghost y = delta_abs * price;
    let held_r = checked_mul(&Dec::from_micros(old_abs), &cost);
    proof {
        if exact {
            lemma_micro_product(old_abs as int, c, held_r);
        }
    }
    let held = match held_r {
        Some(v) => v,
        None => return Err(String::from_str("position arithmetic overflow")),
    };
    let added_r = checked_mul(&Dec::from_micros(delta_abs), &Dec::from_micros(price));
    proof {
        if exact {
            lemma_micro_product(delta_abs as int, price as int, added_r);
        }
    }
    let added = match added_r {
        Some(v) => v,
        None => return Err(String::from_str("position arithmetic overflow")),
    };
    let total_r = checked_add(&held, &added);
    proof {
        if exact {
            lemma_exact_total(held, added, x, y, total_r);
        }
    }
    let total = match total_r {
        Some(v) => v,
        None => return Err(String::from_str("position arithmetic overflow")),
    };
    let divisor = Dec::from_micros(weight);
    let avg_r = checked_div(&total, &divisor);
    proof {
        if exact {
            lemma_exact_mean(total, weight as int, x + y, c, price as int, old_abs as int,
                delta_abs as int, avg_r);
        }
    }
    let avg = match avg_r {
        Some(v) => v,
        None => return Err(String::from_str("position arithmetic overflow")),
    };
    proof {
        if exact {
            lemma_rounds_to_micros(avg, (x + y) / (weight as int));
        }
    }
    scaled_round(&avg)
}

/// The product of two micro-unit amounts, where it fits a mantissa, is held
/// exactly at twelve places, or as zero.
proof fn lemma_micro_product(a: int, c: int, r: Option<Dec>)
    requires
        fits_i64(a),
        fits_i64(c),
        a >= 0,
        abs(a * c) <= MAX_MANTISSA,
        Dec::of_micros(a).wf(),
        Dec::of_micros(c).wf(),
        a * c != 0 ==> r == Some(Dec { mantissa: (a * c) as i128, scale: 12 }),
        a == 0 || c == 0 ==> r == Some(Dec { mantissa: 0, scale: 0 }),
    ensures
        r matches Some(h) && h.wf() && denotes(h, a * c, 12) && (h.scale == 12 || (h.mantissa
            == 0 && h.scale == 0)) && (h.scale == 12 ==> h.mantissa == a * c),
{
    lemma_pow10_28();
    reveal_with_fuel(pow10, 1);
    if a * c == 0 {
        assert(a == 0 || c == 0) by (nonlinear_arith)
            requires
                a * c == 0,
        ;
    }
}

/// Two such products add up exactly.
proof fn lemma_exact_total(h: Dec, a: Dec, x: int, y: int, r: Option<Dec>)
    requires
        h.wf(),
        a.wf(),
        denotes(h, x, 12),
        denotes(a, y, 12),
        h.scale == 12 || (h.mantissa == 0 && h.scale == 0),
        a.scale == 12 || (a.mantissa == 0 && a.scale == 0),
        h.scale == 12 ==> h.mantissa == x,
        a.scale == 12 ==> a.mantissa == y,
        h.scale == 0 ==> x == 0,
        a.scale == 0 ==> y == 0,
        abs(x + y) <= MAX_MANTISSA,
        abs(aligned_sum(h, a)) <= MAX_MANTISSA ==> (r matches Some(p) && is_sum(h, a, p)),
    ensures
        r matches Some(t) && denotes(t, x + y, 12),
{
    lemma_pow10_28();
    reveal_with_fuel(pow10, 1);
    assert(aligned_sum(h, a) == x + y);
    let t = r->Some_0;
    let ph = pow10(h.scale as nat);
    let pa = pow10(a.scale as nat);
    let pt = pow10(t.scale as nat);
    let e = pow10(12);
    lemma_pow10_positive(t.scale as nat);
    assert(t.mantissa * (ph * pa) == (h.mantissa * pa + a.mantissa * ph) * pt);
    assert(h.mantissa * e == x * ph);
    assert(a.mantissa * e == y * pa);
    let tm = t.mantissa as int;
    let hm = h.mantissa as int;
    let am = a.mantissa as int;
    assert((ph * pa) * (tm * e) == (tm * (ph * pa)) * e) by (nonlinear_arith);
    let k = hm * pa + am * ph;
    assert((k * pt) * e == (k * e) * pt) by (nonlinear_arith);
    vstd::arithmetic::mul::lemma_mul_is_distributive_add_other_way(e, hm * pa, am * ph);
    assert((hm * pa) * e == (hm * e) * pa) by (nonlinear_arith);
    assert((am * ph) * e == (am * e) * ph) by (nonlinear_arith);
    assert(k * e == (hm * e) * pa + (am * e) * ph);
    assert(((hm * pa + am * ph) * pt) * e == ((hm * e) * pa + (am * e) * ph) * pt);
    assert((ph * pa) * (tm * e) == ((x * ph) * pa + (y * pa) * ph) * pt);
    assert(((x * ph) * pa + (y * pa) * ph) * pt == (ph * pa) * ((x + y) * pt))
        by (nonlinear_arith);
    assert(ph * pa != 0) by (nonlinear_arith)
        requires
            ph > 0,
            pa > 0,
    ;
    vstd::arithmetic::mul::lemma_mul_equality_converse(ph * pa, t.mantissa * e, (x + y) * pt);
}

/// The weighted mean, a whole number of micro-units, comes out of the
/// division exactly.
proof fn lemma_exact_mean(
    t: Dec,
    w: int,
    total: int,
    c: int,
    price: int,
    qa: int,
    qd: int,
    r: Option<Dec>,
)
    requires
        t.wf(),
        denotes(t, total, 12),
        w == qa + qd,
        w > 0,
        fits_i64(w),
        qa >= 0,
        qd >= 0,
        fits_i64(c),
        fits_i64(price),
        total == qa * c + qd * price,
        total % w == 0,
        exact_where_representable_quotient(t, Dec::of_micros(w), r),
        r matches Some(p) ==> p.wf(),
    ensures
        r matches Some(p) && p.wf() && denotes(p, total / w, 6),
        fits_i64(total / w),
{
    let m = total / w;
    let e6 = pow10(6);
    let pt = pow10(t.scale as nat);
    lemma_pow10_28();
    lemma_pow10_add(6, 6);
    lemma_pow10_positive(t.scale as nat);
    vstd::arithmetic::div_mod::lemma_fundamental_div_mod(total, w);
    assert(m * w == total) by (nonlinear_arith)
        requires
            total == w * m + total % w,
            total % w == 0,
    ;
    // the mean lies between the two costs
    let lo = if c < price { c } else { price };
    let hi = if c < price { price } else { c };
    assert(lo * w <= total <= hi * w) by (nonlinear_arith)
        requires
            total == qa * c + qd * price,
            w == qa + qd,
            qa >= 0,
            qd >= 0,
            lo <= c <= hi,
            lo <= price <= hi,
    ;
    assert(lo <= m <= hi) by (nonlinear_arith)
        requires
            lo * w <= m * w <= hi * w,
            w > 0,
    ;
    let q = Dec { mantissa: m as i128, scale: 6 };
    assert(q.wf());
    let tm = t.mantissa as int;
    assert(tm * (e6 * e6) == total * pt);
    assert(tm * e6 * e6 == tm * (e6 * e6)) by (nonlinear_arith);
    assert(m * w * pt == (m * w) * pt) by (nonlinear_arith);
    assert(is_quotient(t, Dec::of_micros(w), q));
    let p = r->Some_0;
    let pm = p.mantissa as int;
    let pp = pow10(p.scale as nat);
    assert(pm * w * pt == tm * e6 * pp);
    assert((w * pt) * (pm * e6) == (pm * w * pt) * e6) by (nonlinear_arith);
    assert((tm * e6 * pp) * e6 == (tm * (e6 * e6)) * pp) by (nonlinear_arith);
    assert(((m * w) * pt) * pp == (w * pt) * (m * pp)) by (nonlinear_arith);
    assert((w * pt) * (pm * e6) == (w * pt) * (m * pp));
    assert(w * pt != 0) by (nonlinear_arith)
        requires
            w > 0,
            pt > 0,
    ;
    vstd::arithmetic::mul::lemma_mul_equality_converse(w * pt, pm * e6, m * pp);
}

/// The cash a fill moves, computed in `rust_decimal` as the product of the
/// quantity, the price and the contract multiplier (all in micro-units),
/// negative for a purchase, rounded to six places.
pub open spec fn cash_delta_spec(side: Seq<char>, quantity: int, price: int, multiplier: int) -> Result<
    i64,
    Seq<char>,
> {
    match decimal_product(Dec::of_micros(quantity), Dec::of_micros(price)) {
        None => Err(cash_overflow_message()),
        Some(notional) => match decimal_product(notional, Dec::of_micros(multiplier)) {
            None => Err(cash_overflow_message()),
            Some(value) => scaled_round_spec(
                if is_buy(side) {
                    Dec { mantissa: (-value.mantissa) as i128, scale: value.scale }
                } else {
                    value
                },
            ),
        },
    }
}

/// The traded notional in micro-units, rounded half to even: a purchase
/// pays it, a sale receives it.
pub open spec fn exact_cash_delta(side: Seq<char>, quantity: int, price: int, multiplier: int) -> int {
    let n = signed_half_even(quantity * price * multiplier, pow10(12));
    if is_buy(side) {
        -n
    } else {
        n
    }
}

/// The products stay within 96 bits, so `rust_decimal` computes them exactly.
pub open spec fn notional_exact(quantity: int, price: int, multiplier: int) -> bool {
    abs(quantity * price) <= MAX_MANTISSA && abs(quantity * price * multiplier) <= MAX_MANTISSA
}

/// The change of cash for a fill of `quantity` at `price` on a contract with
/// `multiplier`, all in micro-units.
pub fn cash_delta(side: &str, quantity: i64, price: i64, multiplier: i64) -> (r: Result<
    i64,
    String,
>)
    ensures
        text_result(r) == cash_delta_spec(side@, quantity as int, price as int, multiplier as int),
        notional_exact(quantity as int, price as int, multiplier as int) ==> r == Ok::<
            i64,
            String,
        >(exact_cash_delta(side@, quantity as int, price as int, multiplier as int) as i64),
{
    let q = Dec::from_micros(quantity);
    let p = Dec::from_micros(price);
    let m = Dec::from_micros(multiplier);
    let ghost exact = notional_exact(quantity as int, price as int, multiplier as int);
    let notional_opt = checked_mul(&q, &p);
    proof {
        assert((quantity as int) * (price as int) == 0 ==> quantity == 0 || price == 0)
            by (nonlinear_arith);
    }
    let notional = match notional_opt {
        Some(v) => v,
        None => return Err(String::from_str("cash arithmetic overflow")),
    };
    let value_opt = checked_mul(&notional, &m);
    proof {
        if exact && notional.mantissa != 0 && multiplier != 0 {
            assert(notional.mantissa * multiplier != 0) by (nonlinear_arith)
                requires
                    notional.mantissa != 0,
                    multiplier != 0,
            ;
            assert(notional.mantissa * multiplier == (quantity as int) * (price as int) * (
            multiplier as int));
        }
    }
    let value = match value_opt {
        Some(v) => v,
        None => return Err(String::from_str("cash arithmetic overflow")),
    };
    let signed = if str_eq(side, "BUY") {
        value.negated()
    } else {
        value
    };
    let r = scaled_round(&signed);
    proof {
        if exact {
            lemma_cash_exact(
                side@,
                quantity as int,
                price as int,
                multiplier as int,
                notional,
                value,
                signed,
            );
        }
    }
    r
}

proof fn lemma_half_even_zero(d: int)
    requires
        d > 0,
    ensures
        half_even(0, d) == 0,
        signed_half_even(0, d) == 0,
{
    vstd::arithmetic::div_mod::lemma_fundamental_div_mod_converse(0, d, 0, 0);
}

/// Rounding of the notional: the value reaching the final conversion is
/// exact, and its conversion is the rounded notional.
proof fn lemma_cash_exact(side: Seq<char>, q: int, p: int, m: int, notional: Dec, value: Dec, signed: Dec)
    requires
        notional_exact(q, p, m),
        -9_223_372_036_854_775_808 <= q <= 9_223_372_036_854_775_807,
        -9_223_372_036_854_775_808 <= p <= 9_223_372_036_854_775_807,
        -9_223_372_036_854_775_808 <= m <= 9_223_372_036_854_775_807,
        q * p == 0 ==> notional == (Dec { mantissa: 0, scale: 0 }),
        q * p != 0 ==> notional == (Dec { mantissa: (q * p) as i128, scale: 12 }),
        notional.mantissa == 0 || m == 0 ==> value == (Dec { mantissa: 0, scale: 0 }),
        notional.mantissa * m != 0 && abs(notional.mantissa * m) <= MAX_MANTISSA
            && notional.scale + 6 <= 28 ==> value == (Dec {
            mantissa: (notional.mantissa * m) as i128,
            scale: (notional.scale + 6) as u32,
        }),
        signed == (if is_buy(side) {
            (Dec { mantissa: (-value.mantissa) as i128, scale: value.scale })
        } else {
            value
        }),
    ensures
        exact_scaled_round(signed) == Ok::<i64, Seq<char>>(
            exact_cash_delta(side, q, p, m) as i64,
        ),
{
    lemma_pow10_28();
    let x = q * p * m;
    let big = pow10(12);
    lemma_half_even_zero(big);
    if x == 0 {
        assert(q * p == 0 || m == 0) by (nonlinear_arith)
            requires
                x == q * p * m,
                x == 0,
        ;
        assert(value == Dec { mantissa: 0, scale: 0 });
        assert(signed.mantissa == 0 && signed.scale == 0);
        reveal_with_fuel(pow10, 7);
        assert(micros_of(rounded_to(signed, 6)) == 0);
    } else {
        assert(q * p != 0 && m != 0) by (nonlinear_arith)
            requires
                x == q * p * m,
                x != 0,
        ;
        assert(notional.mantissa * m == x);
        assert(value == Dec { mantissa: x as i128, scale: 18 });
        let y = if is_buy(side) {
            -x
        } else {
            x
        };
        assert(signed == Dec { mantissa: y as i128, scale: 18 });
        assert((18 - 6) as nat == 12nat);
        let k = signed_half_even(y, big);
        assert(rounded_to(signed, 6) == Dec { mantissa: k as i128, scale: 6 });
        // |k| <= |y| / 10^12 + 1
        crate::fixed::lemma_half_even_bounds(abs(y), big);
        assert(abs(y) <= MAX_MANTISSA);
        assert(abs(y) / big <= (MAX_MANTISSA as int) / big) by {
            vstd::arithmetic::div_mod::lemma_div_is_ordered(abs(y), MAX_MANTISSA as int, big);
        }
        vstd::arithmetic::div_mod::lemma_fundamental_div_mod_converse(
            MAX_MANTISSA as int,
            big,
            79_228_162_514_264_337,
            593_543_950_335,
        );
        assert(abs(k) == half_even(abs(y), big));
        assert(abs(k) <= 79_228_162_514_264_338);
        assert(abs(k) * 1_000_000 <= MAX_MANTISSA);
        reveal_with_fuel(pow10, 1);
        assert(micros_of(Dec { mantissa: k as i128, scale: 6 }) == k * pow10(0));
        if is_buy(side) {
            assert(signed_half_even(-x, big) == -signed_half_even(x, big));
        }
    }
}


/// A fill that passed its checks: the price is in micro-units.
pub struct FillRequest {
    pub exec_id: String,
    pub order_id: i64,
    pub account_id: String,
    pub price: i64,
}

/// The checks a fill passes before its transaction begins: a positive
/// price, an execution ID of 1 to 24 bytes, and a price with at most six
/// places that fits the fixed-point range.
pub open spec fn fill_request_outcome(f: NewFill) -> Result<i64, Seq<char>> {
    let len = vstd::utf8::encode_utf8(f.exec_id@).len() as usize;
    if !f.price.is_positive_spec() {
        Err("fill failed: fill price must be positive"@)
    } else if f.exec_id@.len() == 0 || len > 24 {
        Err("fill failed: execution ID must contain 1 to 24 bytes"@)
    } else {
        match scaled_spec(f.price) {
            Ok(p) => Ok(p),
            Err(e) => Err("fill failed: "@ + e),
        }
    }
}

/// Checks a fill and prepares its transaction.
pub fn start_fill(f: &NewFill) -> (r: Result<FillRequest, String>)
    requires
        f.price.wf(),
    ensures
        match r {
            Ok(req) => fill_request_outcome(*f) == Ok::<i64, Seq<char>>(req.price) && req.exec_id@
                == f.exec_id@ && req.order_id == f.order_id && req.account_id@ == f.account_id@,
            Err(e) => fill_request_outcome(*f) == Err::<i64, Seq<char>>(e@),
        },
{
    if !f.price.is_positive() {
        return Err(String::from_str("fill failed: fill price must be positive"));
    }
    if f.exec_id.as_str().is_empty() || f.exec_id.as_str().len() > 24 {
        return Err(String::from_str("fill failed: execution ID must contain 1 to 24 bytes"));
    }
    match scaled(&f.price) {
        Ok(price) => Ok(
            FillRequest {
                exec_id: f.exec_id.clone(),
                order_id: f.order_id,
                account_id: f.account_id.clone(),
                price,
            },
        ),
        Err(e) => Err(concat("fill failed: ", e.as_str())),
    }
}

/// The order row a fill reads: contract, side, total and filled quantity.
pub struct OrderTerms {
    pub conid: i64,
    pub side: String,
    pub total: i64,
    pub filled: i64,
}

/// Where a fill's transaction stands: each step names the database work
/// the caller does next and reports back as a `FillEvent`.
pub enum FillStep {
    /// Count fills with this execution ID, order, account and price.
    CountSameFill,
    /// Count fills with this execution ID.
    CountExecId,
    /// Read the order, if it is still submitted, as `OrderTerms`.
    LoadOrder,
    /// Insert the fill for `quantity` at the request's price.
    InsertFill { conid: i64, side: String, quantity: i64, total: i64 },
    /// Set the order's filled quantity to `total`, its average fill price to
    /// the request's price and its status to filled.
    MarkFilled { conid: i64, side: String, quantity: i64, total: i64 },
    /// Read the account's position row for `conid`.
    LoadPosition { conid: i64, side: String, quantity: i64 },
    /// Write the position row.
    StorePosition { conid: i64, side: String, quantity: i64, position: i64, avg_cost: Option<i64> },
    /// Read the contract's currency and multiplier.
    LoadContract { conid: i64, side: String, quantity: i64 },
    /// Read the account's cash in `currency`.
    LoadCash { currency: String, delta: i64 },
    /// Write the cash balance.
    StoreCash { currency: String, balance: i64 },
    /// Commit the transaction.
    Commit,
    /// Done: the fill is recorded, or was already.
    Finished,
    /// Roll the transaction back and report `message`.
    Failed { message: String },
}

/// What the database answered.
pub enum FillEvent {
    Written,
    Count(i64),
    OrderRow(Option<OrderTerms>),
    PositionRow(Option<(i64, Option<i64>)>),
    ContractRow(String, i64),
    CashRow(Option<i64>),
    DbError(String),
}

pub enum FillStepView {
    CountSameFill,
    CountExecId,
    LoadOrder,
    InsertFill { conid: i64, side: Seq<char>, quantity: i64, total: i64 },
    MarkFilled { conid: i64, side: Seq<char>, quantity: i64, total: i64 },
    LoadPosition { conid: i64, side: Seq<char>, quantity: i64 },
    StorePosition {
        conid: i64,
        side: Seq<char>,
        quantity: i64,
        position: i64,
        avg_cost: Option<i64>,
    },
    LoadContract { conid: i64, side: Seq<char>, quantity: i64 },
    LoadCash { currency: Seq<char>, delta: i64 },
    StoreCash { currency: Seq<char>, balance: i64 },
    Commit,
    Finished,
    Failed { message: Seq<char> },
}

pub enum FillEventView {
    Written,
    Count(i64),
    OrderRow(Option<(i64, Seq<char>, i64, i64)>),
    PositionRow(Option<(i64, Option<i64>)>),
    ContractRow(Seq<char>, i64),
    CashRow(Option<i64>),
    DbError(Seq<char>),
}

impl View for FillStep {
    type V = FillStepView;

    open spec fn view(&self) -> FillStepView {
        match self {
            FillStep::CountSameFill => FillStepView::CountSameFill,
            FillStep::CountExecId => FillStepView::CountExecId,
            FillStep::LoadOrder => FillStepView::LoadOrder,
            FillStep::InsertFill { conid, side, quantity, total } => FillStepView::InsertFill {
                conid: *conid,
                side: side@,
                quantity: *quantity,
                total: *total,
            },
            FillStep::MarkFilled { conid, side, quantity, total } => FillStepView::MarkFilled {
                conid: *conid,
                side: side@,
                quantity: *quantity,
                total: *total,
            },
            FillStep::LoadPosition { conid, side, quantity } => FillStepView::LoadPosition {
                conid: *conid,
                side: side@,
                quantity: *quantity,
            },
            FillStep::StorePosition { conid, side, quantity, position, avg_cost } =>
                FillStepView::StorePosition {
                conid: *conid,
                side: side@,
                quantity: *quantity,
                position: *position,
                avg_cost: *avg_cost,
            },
            FillStep::LoadContract { conid, side, quantity } => FillStepView::LoadContract {
                conid: *conid,
                side: side@,
                quantity: *quantity,
            },
            FillStep::LoadCash { currency, delta } => FillStepView::LoadCash {
                currency: currency@,
                delta: *delta,
            },
            FillStep::StoreCash { currency, balance } => FillStepView::StoreCash {
                currency: currency@,
                balance: *balance,
            },
            FillStep::Commit => FillStepView::Commit,
            FillStep::Finished => FillStepView::Finished,
            FillStep::Failed { message } => FillStepView::Failed { message: message@ },
        }
    }
}

impl View for FillEvent {
    type V = FillEventView;

    open spec fn view(&self) -> FillEventView {
        match self {
            FillEvent::Written => FillEventView::Written,
            FillEvent::Count(n) => FillEventView::Count(*n),
            FillEvent::OrderRow(row) => FillEventView::OrderRow(
                match row {
                    Some(t) => Some((t.conid, t.side@, t.total, t.filled)),
                    None => None,
                },
            ),
            FillEvent::PositionRow(row) => FillEventView::PositionRow(*row),
            FillEvent::ContractRow(currency, multiplier) => FillEventView::ContractRow(
                currency@,
                *multiplier,
            ),
            FillEvent::CashRow(cash) => FillEventView::CashRow(*cash),
            FillEvent::DbError(e) => FillEventView::DbError(e@),
        }
    }
}

pub open spec fn failed(message: Seq<char>) -> FillStepView {
    FillStepView::Failed { message: "fill failed: "@ + message }
}

/// The cash balance after adding `delta` to what is stored (none: zero).
pub open spec fn next_balance(current: Option<i64>, delta: int) -> Option<int> {
    let b = match current {
        Some(c) => c as int,
        None => 0,
    } + delta;
    if fits_i64(b) {
        Some(b)
    } else {
        None
    }
}

/// One move of a fill's transaction on the database's answer.
pub open spec fn fill_next(
    exec_id: Seq<char>,
    price: i64,
    step: FillStepView,
    event: FillEventView,
) -> FillStepView {
    match (step, event) {
        (FillStepView::Finished, _) => FillStepView::Finished,
        (FillStepView::Failed { message }, _) => FillStepView::Failed { message },
        (FillStepView::Commit, FillEventView::Written) => FillStepView::Finished,
        (FillStepView::Commit, FillEventView::DbError(e)) => FillStepView::Failed {
            message: "fill commit failed: "@ + e,
        },
        (_, FillEventView::DbError(e)) => failed(e),
        (FillStepView::CountSameFill, FillEventView::Count(n)) => if n > 0 {
            FillStepView::Commit
        } else {
            FillStepView::CountExecId
        },
        (FillStepView::CountExecId, FillEventView::Count(n)) => if n > 0 {
            failed("execution ID "@ + exec_id + " belongs to another fill"@)
        } else {
            FillStepView::LoadOrder
        },
        (FillStepView::LoadOrder, FillEventView::OrderRow(row)) => match row {
            None => failed("order not found or not submittable"@),
            Some(t) => {
                let remaining = t.2 - t.3;
                if !fits_i64(remaining) {
                    failed(overflow_message())
                } else if remaining <= 0 {
                    failed("order already fully filled"@)
                } else {
                    FillStepView::InsertFill {
                        conid: t.0,
                        side: t.1,
                        quantity: remaining as i64,
                        total: t.2,
                    }
                }
            },
        },
        (
            FillStepView::InsertFill { conid, side, quantity, total },
            FillEventView::Written,
        ) => FillStepView::MarkFilled { conid, side, quantity, total },
        (
            FillStepView::MarkFilled { conid, side, quantity, total },
            FillEventView::Written,
        ) => FillStepView::LoadPosition { conid, side, quantity },
        (
            FillStepView::LoadPosition { conid, side, quantity },
            FillEventView::PositionRow(row),
        ) => if quantity > 0 {
            match rolled_up(row, side, quantity as int, price as int) {
                Ok(rolled) => FillStepView::StorePosition {
                    conid,
                    side,
                    quantity,
                    position: rolled.0,
                    avg_cost: rolled.1,
                },
                Err(e) => failed(e),
            }
        } else {
            failed(overflow_message())
        },
        (
            FillStepView::StorePosition { conid, side, quantity, position, avg_cost },
            FillEventView::Written,
        ) => FillStepView::LoadContract { conid, side, quantity },
        (
            FillStepView::LoadContract { conid, side, quantity },
            FillEventView::ContractRow(currency, multiplier),
        ) => match cash_delta_spec(side, quantity as int, price as int, multiplier as int) {
            Ok(delta) => FillStepView::LoadCash { currency, delta },
            Err(e) => failed(e),
        },
        (FillStepView::LoadCash { currency, delta }, FillEventView::CashRow(current)) => match next_balance(current, delta as int) {
            Some(b) => FillStepView::StoreCash { currency, balance: b as i64 },
            None => failed(cash_overflow_message()),
        },
        (FillStepView::StoreCash { currency, balance }, FillEventView::Written) =>
            FillStepView::Commit,
        _ => failed("unexpected database reply"@),
    }
}

fn fail(message: &str) -> (r: FillStep)
    ensures
        r@ == failed(message@),
{
    FillStep::Failed { message: concat("fill failed: ", message) }
}

/// Moves a fill's transaction on the database's answer to its current step.
pub fn advance_fill(req: &FillRequest, step: FillStep, event: FillEvent) -> (r: FillStep)
    ensures
        r@ == fill_next(req.exec_id@, req.price, step@, event@),
        step@ is LoadContract && event@ is ContractRow && notional_exact(
            step@->LoadContract_quantity as int,
            req.price as int,
            event@->ContractRow_1 as int,
        ) ==> r@ == (FillStepView::LoadCash {
            currency: event@->ContractRow_0,
            delta: exact_cash_delta(
                step@->LoadContract_side,
                step@->LoadContract_quantity as int,
                req.price as int,
                event@->ContractRow_1 as int,
            ) as i64,
        }),
{
    match step {
        FillStep::Finished => FillStep::Finished,
        FillStep::Failed { message } => FillStep::Failed { message },
        FillStep::Commit => match event {
            FillEvent::Written => FillStep::Finished,
            FillEvent::DbError(e) => FillStep::Failed {
                message: concat("fill commit failed: ", e.as_str()),
            },
            _ => fail("unexpected database reply"),
        },
        FillStep::CountSameFill => match event {
            FillEvent::Count(n) => if n > 0 {
                FillStep::Commit
            } else {
                FillStep::CountExecId
            },
            FillEvent::DbError(e) => fail(e.as_str()),
            _ => fail("unexpected database reply"),
        },
        FillStep::CountExecId => match event {
            FillEvent::Count(n) => if n > 0 {
                let m = concat("execution ID ", req.exec_id.as_str());
                let m = concat(m.as_str(), " belongs to another fill");
                fail(m.as_str())
            } else {
                FillStep::LoadOrder
            },
            FillEvent::DbError(e) => fail(e.as_str()),
            _ => fail("unexpected database reply"),
        },
        FillStep::LoadOrder => match event {
            FillEvent::OrderRow(row) => match row {
                None => fail("order not found or not submittable"),
                Some(t) => match t.total.checked_sub(t.filled) {
                    None => fail("position arithmetic overflow"),
                    Some(remaining) => if remaining <= 0 {
                        fail("order already fully filled")
                    } else {
                        FillStep::InsertFill {
                            conid: t.conid,
                            side: t.side,
                            quantity: remaining,
                            total: t.total,
                        }
                    },
                },
            },
            FillEvent::DbError(e) => fail(e.as_str()),
            _ => fail("unexpected database reply"),
        },
        FillStep::InsertFill { conid, side, quantity, total } => match event {
            FillEvent::Written => FillStep::MarkFilled { conid, side, quantity, total },
            FillEvent::DbError(e) => fail(e.as_str()),
            _ => fail("unexpected database reply"),
        },
        FillStep::MarkFilled { conid, side, quantity, total } => match event {
            FillEvent::Written => FillStep::LoadPosition { conid, side, quantity },
            FillEvent::DbError(e) => fail(e.as_str()),
            _ => fail("unexpected database reply"),
        },
        FillStep::LoadPosition { conid, side, quantity } => match event {
            FillEvent::PositionRow(row) => if quantity > 0 {
                match roll_up_position(row, side.as_str(), quantity, req.price) {
                    Ok(rolled) => FillStep::StorePosition {
                        conid,
                        side,
                        quantity,
                        position: rolled.0,
                        avg_cost: rolled.1,
                    },
                    Err(e) => fail(e.as_str()),
                }
            } else {
                fail("position arithmetic overflow")
            },
            FillEvent::DbError(e) => fail(e.as_str()),
            _ => fail("unexpected database reply"),
        },
        FillStep::StorePosition { conid, side, quantity, position, avg_cost } => match event {
            FillEvent::Written => FillStep::LoadContract { conid, side, quantity },
            FillEvent::DbError(e) => fail(e.as_str()),
            _ => fail("unexpected database reply"),
        },
        FillStep::LoadContract { conid, side, quantity } => match event {
            FillEvent::ContractRow(currency, multiplier) => match cash_delta(
                side.as_str(),
                quantity,
                req.price,
                multiplier,
            ) {
                Ok(delta) => FillStep::LoadCash { currency, delta },
                Err(e) => fail(e.as_str()),
            },
            FillEvent::DbError(e) => fail(e.as_str()),
            _ => fail("unexpected database reply"),
        },
        FillStep::LoadCash { currency, delta } => match event {
            FillEvent::CashRow(current) => {
                let base: i64 = match current {
                    Some(c) => c,
                    None => 0,
                };
                match base.checked_add(delta) {
                    Some(b) => FillStep::StoreCash { currency, balance: b },
                    None => fail("cash arithmetic overflow"),
                }
            },
            FillEvent::DbError(e) => fail(e.as_str()),
            _ => fail("unexpected database reply"),
        },
        FillStep::StoreCash { currency, balance } => match event {
            FillEvent::Written => FillStep::Commit,
            FillEvent::DbError(e) => fail(e.as_str()),
            _ => fail("unexpected database reply"),
        },
    }
}

/// A retried fill that is already recorded (same execution ID, order,
/// account and price) writes nothing: the transaction goes straight to its
/// commit, and a commit that succeeds finishes it.
pub proof fn lemma_repeated_fill_writes_nothing(exec_id: Seq<char>, price: i64, n: i64)
    requires
        n > 0,
    ensures
        fill_next(exec_id, price, FillStepView::CountSameFill, FillEventView::Count(n))
            == FillStepView::Commit,
        fill_next(exec_id, price, FillStepView::Commit, FillEventView::Written)
            == FillStepView::Finished,
{
}

/// An execution ID that belongs to another fill is refused.
pub proof fn lemma_execution_id_of_another_fill_is_refused(
    exec_id: Seq<char>,
    price: i64,
    n: i64,
)
    requires
        n > 0,
    ensures
        fill_next(exec_id, price, FillStepView::CountExecId, FillEventView::Count(n))
            == (FillStepView::Failed {
            message: "fill failed: "@ + ("execution ID "@ + exec_id + " belongs to another fill"@),
        }),
{
}

/// Once finished or failed, a fill's transaction does not move again.
pub proof fn lemma_outcome_is_final(
    exec_id: Seq<char>,
    price: i64,
    message: Seq<char>,
    event: FillEventView,
)
    ensures
        fill_next(exec_id, price, FillStepView::Finished, event) == FillStepView::Finished,
        fill_next(exec_id, price, FillStepView::Failed { message }, event)
            == (FillStepView::Failed { message }),
{
}

/// A database error before the commit fails the fill with that error; at the
/// commit it fails the commit.
pub proof fn lemma_database_error_fails_the_fill(
    exec_id: Seq<char>,
    price: i64,
    step: FillStepView,
    e: Seq<char>,
)
    requires
        !(step is Finished),
        !(step is Failed),
    ensures
        fill_next(exec_id, price, step, FillEventView::DbError(e)) == (if step is Commit {
            FillStepView::Failed { message: "fill commit failed: "@ + e }
        } else {
            FillStepView::Failed { message: "fill failed: "@ + e }
        }),
{
}

/// A fill that is new, on an order still submitted with quantity left,
/// records exactly this: the fill for the whole remaining quantity, the order
/// filled up to its total, the position rolled up by the average-cost rule,
/// and the cash moved by the traded notional; then it commits.
pub proof fn lemma_new_fill_records_the_remainder(
    exec_id: Seq<char>,
    price: i64,
    conid: i64,
    side: Seq<char>,
    total: i64,
    filled: i64,
    row: Option<(i64, Option<i64>)>,
    position: i64,
    avg_cost: Option<i64>,
    currency: Seq<char>,
    multiplier: i64,
    delta: i64,
    current: Option<i64>,
    balance: i64,
)
    requires
        filled < total,
        fits_i64(total - filled),
        rolled_up(row, side, total - filled, price as int) == Ok::<
            (i64, Option<i64>),
            Seq<char>,
        >((position, avg_cost)),
        cash_delta_spec(side, total - filled, price as int, multiplier as int) == Ok::<
            i64,
            Seq<char>,
        >(delta),
        next_balance(current, delta as int) == Some(balance as int),
    ensures
        ({
            let q = (total - filled) as i64;
            let s1 = fill_next(exec_id, price, FillStepView::CountSameFill, FillEventView::Count(0));
            let s2 = fill_next(exec_id, price, s1, FillEventView::Count(0));
            let s3 = fill_next(
                exec_id,
                price,
                s2,
                FillEventView::OrderRow(Some((conid, side, total, filled))),
            );
            let s4 = fill_next(exec_id, price, s3, FillEventView::Written);
            let s5 = fill_next(exec_id, price, s4, FillEventView::Written);
            let s6 = fill_next(exec_id, price, s5, FillEventView::PositionRow(row));
            let s7 = fill_next(exec_id, price, s6, FillEventView::Written);
            let s8 = fill_next(exec_id, price, s7, FillEventView::ContractRow(currency, multiplier));
            let s9 = fill_next(exec_id, price, s8, FillEventView::CashRow(current));
            let s10 = fill_next(exec_id, price, s9, FillEventView::Written);
            let s11 = fill_next(exec_id, price, s10, FillEventView::Written);
            &&& s1 == FillStepView::CountExecId
            &&& s2 == FillStepView::LoadOrder
            &&& s3 == (FillStepView::InsertFill { conid, side, quantity: q, total })
            &&& s4 == (FillStepView::MarkFilled { conid, side, quantity: q, total })
            &&& s5 == (FillStepView::LoadPosition { conid, side, quantity: q })
            &&& s6 == (FillStepView::StorePosition { conid, side, quantity: q, position, avg_cost })
            &&& s7 == (FillStepView::LoadContract { conid, side, quantity: q })
            &&& s8 == (FillStepView::LoadCash { currency, delta })
            &&& s9 == (FillStepView::StoreCash { currency, balance })
            &&& s10 == FillStepView::Commit
            &&& s11 == FillStepView::Finished
        }),
{
}

/// The average-cost rule: the position moves by the signed fill quantity;
/// clearing it resets the cost; opening it, or crossing to the other side,
/// takes the fill price; a partial reduction keeps the old cost; adding on
/// the same side blends the old cost with the fill price.
pub proof fn lemma_average_cost_rule(
    row: Option<(i64, Option<i64>)>,
    side: Seq<char>,
    quantity: int,
    price: i64,
)
    requires
        quantity > 0,
    ensures
        ({
            let old = match row {
                Some(r) => r.0 as int,
                None => 0,
            };
            let old_avg = match row {
                Some(r) => r.1,
                None => None,
            };
            let delta = fill_delta(side, quantity);
            let r = rolled_up(row, side, quantity, price as int);
            &&& r matches Ok(p) ==> p.0 == old + delta
            &&& fits_i64(old + delta) && old + delta == 0 ==> r == Ok::<
                (i64, Option<i64>),
                Seq<char>,
            >((0, None))
            &&& fits_i64(old + delta) && old + delta != 0 && (old == 0 || sign(old + delta) == sign(
                delta,
            ) && sign(old) != sign(delta)) ==> r == Ok::<(i64, Option<i64>), Seq<char>>(
                ((old + delta) as i64, Some(price)),
            )
            &&& fits_i64(old + delta) && old != 0 && old + delta != 0 && sign(old) != sign(delta)
                && sign(old + delta) == sign(old) ==> r == Ok::<(i64, Option<i64>), Seq<char>>(
                ((old + delta) as i64, old_avg),
            )
            &&& fits_i64(old + delta) && old != 0 && sign(old) == sign(delta) ==> r == match blended_cost(
                old,
                old_avg,
                delta,
                price as int,
            ) {
                Ok(c) => Ok::<(i64, Option<i64>), Seq<char>>(((old + delta) as i64, Some(c))),
                Err(e) => Err(e),
            }
        }),
{
}

/// The step a fill's transaction reaches from `step` on the database's
/// answers `events`, in order.
pub open spec fn fill_run(
    exec_id: Seq<char>,
    price: i64,
    step: FillStepView,
    events: Seq<FillEventView>,
) -> FillStepView
    decreases events.len(),
{
    if events.len() == 0 {
        step
    } else {
        fill_run(exec_id, price, fill_next(exec_id, price, step, events[0]), events.drop_first())
    }
}

/// A step that writes to the database.
pub open spec fn is_write(step: FillStepView) -> bool {
    step is InsertFill || step is MarkFilled || step is StorePosition || step is StoreCash
}

/// Each write must be answered `Written` or the fill fails; the commit is
/// asked for only after the last write (the cash balance) was written, or
/// at once for a fill that is already recorded, which writes nothing; the
/// fill is done only once the commit was written.
pub proof fn lemma_commit_follows_every_write(
    exec_id: Seq<char>,
    price: i64,
    step: FillStepView,
    event: FillEventView,
)
    ensures
        is_write(step) && !(event is Written) ==> fill_next(exec_id, price, step, event) is Failed,
        fill_next(exec_id, price, step, event) is Commit ==> (step is StoreCash && event is Written)
            || (step is CountSameFill && (event matches FillEventView::Count(n) && n > 0)),
        fill_next(exec_id, price, step, event) is Finished ==> step is Finished || (step is Commit
            && event is Written),
{
}

proof fn lemma_fill_run_split(
    exec_id: Seq<char>,
    price: i64,
    step: FillStepView,
    events: Seq<FillEventView>,
    i: int,
)
    requires
        0 <= i <= events.len(),
    ensures
        fill_run(exec_id, price, step, events) == fill_run(
            exec_id,
            price,
            fill_run(exec_id, price, step, events.take(i)),
            events.skip(i),
        ),
    decreases i,
{
    if i > 0 {
        let next = fill_next(exec_id, price, step, events[0]);
        lemma_fill_run_split(exec_id, price, next, events.drop_first(), i - 1);
        assert(events.take(i).drop_first() =~= events.drop_first().take(i - 1));
        assert(events.drop_first().skip(i - 1) =~= events.skip(i));
        assert(events.take(i)[0] == events[0]);
    } else {
        assert(events.skip(0) =~= events);
    }
}

proof fn lemma_failed_stays_failed(
    exec_id: Seq<char>,
    price: i64,
    message: Seq<char>,
    events: Seq<FillEventView>,
)
    ensures
        fill_run(exec_id, price, FillStepView::Failed { message }, events)
            == (FillStepView::Failed { message }),
    decreases events.len(),
{
    if events.len() > 0 {
        lemma_failed_stays_failed(exec_id, price, message, events.drop_first());
    }
}

/// All or nothing: wherever along a fill's run a write is not answered
/// `Written`, the run ends failed, and the caller rolls the transaction
/// back; a run that ends anywhere else had every write it made written.
pub proof fn lemma_fill_is_all_or_nothing(
    exec_id: Seq<char>,
    price: i64,
    step: FillStepView,
    events: Seq<FillEventView>,
    i: int,
)
    requires
        0 <= i < events.len(),
        is_write(fill_run(exec_id, price, step, events.take(i))),
        !(events[i] is Written),
    ensures
        fill_run(exec_id, price, step, events) is Failed,
{
    lemma_fill_run_split(exec_id, price, step, events, i);
    let mid = fill_run(exec_id, price, step, events.take(i));
    let rest = events.skip(i);
    assert(rest[0] == events[i]);
    let after = fill_next(exec_id, price, mid, rest[0]);
    assert(after is Failed);
    lemma_failed_stays_failed(exec_id, price, after->Failed_message, rest.drop_first());
}

/// A fill request is accepted whenever its price is above zero and
/// converts to micro-units, and its execution ID holds 1 to 24 UTF-8 bytes
/// (every ID the web API makes holds exactly 24); the request then carries
/// the price's micro-units. An ID outside that range is refused.
pub proof fn lemma_fill_request_accepts_ids_up_to_24_bytes(f: NewFill, micros: i64)
    requires
        f.price.mantissa > 0,
        exact_scaled(f.price) == Ok::<i64, Seq<char>>(micros),
    ensures
        1 <= encode_utf8(f.exec_id@).len() <= 24 ==> fill_request_outcome(f) == Ok::<
            i64,
            Seq<char>,
        >(micros),
        !(1 <= encode_utf8(f.exec_id@).len() <= 24) && encode_utf8(f.exec_id@).len()
            <= usize::MAX ==> fill_request_outcome(f) == Err::<
            i64,
            Seq<char>,
        >("fill failed: execution ID must contain 1 to 24 bytes"@),
{
    let s = f.exec_id@;
    if s.len() > 0 {
        assert(encode_utf8(s) == vstd::utf8::encode_scalar(s[0] as u32) + encode_utf8(
            s.drop_first(),
        ));
        assert(vstd::utf8::encode_scalar(s[0] as u32).len() >= 1);
    }
    assert(f.price.is_positive_spec());
}

} // verus!
