//! The rules an order, a contract and a cash entry pass before they are stored.

use crate::decimal::{parse, parsed_decimal, Dec};
use crate::fixed::{scaled, scaled_spec, text_result};
use crate::models::{Contract, NewOrder, Order};
use crate::text::{concat, int_text, int_to_text, str_eq, to_uppercase, trim, trimmed, uppercased};
use vstd::prelude::*;
use vstd::string::*;

verus! {

pub open spec fn is_order_type(t: Seq<char>) -> bool {
    t == "MKT"@ || t == "LMT"@ || t == "STP"@ || t == "STP_LMT"@
}

/// Limit and stop-limit orders carry a limit price.
pub open spec fn needs_limit_price(t: Seq<char>) -> bool {
    t == "LMT"@ || t == "STP_LMT"@
}

/// Stop and stop-limit orders carry a stop (aux) price.
pub open spec fn needs_aux_price(t: Seq<char>) -> bool {
    t == "STP"@ || t == "STP_LMT"@
}

pub open spec fn is_side(s: Seq<char>) -> bool {
    s == "BUY"@ || s == "SELL"@
}

/// The first rule an order breaks, in the order they are checked; none for
/// a valid order.
pub open spec fn order_problem(o: NewOrder) -> Option<Seq<char>> {
    let t = o.order_type@;
    if !is_order_type(t) {
        Some("unsupported order type: "@ + t)
    } else if !o.quantity.is_positive_spec() {
        Some("quantity must be positive"@)
    } else if needs_limit_price(t) && o.lmt_price is None {
        Some(t + " requires LMT_PRICE"@)
    } else if needs_aux_price(t) && o.aux_price is None {
        Some(t + " requires AUX_PRICE"@)
    } else if !is_side(o.side@) {
        Some("side must be BUY or SELL"@)
    } else if o.lmt_price matches Some(p) && !p.is_positive_spec() {
        Some("limit price must be positive"@)
    } else if o.aux_price matches Some(p) && !p.is_positive_spec() {
        Some("aux price must be positive"@)
    } else {
        None
    }
}

/// Checks an order against the order rules.
pub fn validate_order(o: &NewOrder) -> (r: Result<(), String>)
    ensures
        match r {
            Ok(_) => order_problem(*o) is None,
            Err(e) => order_problem(*o) == Some(e@),
        },
{
    let t = o.order_type.as_str();
    let mkt = str_eq(t, "MKT");
    let lmt = str_eq(t, "LMT");
    let stp = str_eq(t, "STP");
    let stp_lmt = str_eq(t, "STP_LMT");
    if !(mkt || lmt || stp || stp_lmt) {
        return Err(concat("unsupported order type: ", t));
    }
    if !o.quantity.is_positive() {
        return Err(String::from_str("quantity must be positive"));
    }
    if (lmt || stp_lmt) && o.lmt_price.is_none() {
        return Err(concat(t, " requires LMT_PRICE"));
    }
    if (stp || stp_lmt) && o.aux_price.is_none() {
        return Err(concat(t, " requires AUX_PRICE"));
    }
    let side = o.side.as_str();
    if !(str_eq(side, "BUY") || str_eq(side, "SELL")) {
        return Err(String::from_str("side must be BUY or SELL"));
    }
    match &o.lmt_price {
        Some(p) => if !p.is_positive() {
            return Err(String::from_str("limit price must be positive"));
        },
        None => {},
    }
    match &o.aux_price {
        Some(p) => if !p.is_positive() {
            return Err(String::from_str("aux price must be positive"));
        },
        None => {},
    }
    Ok(())
}

/// Micro-unit quantity and prices of an order as stored.
pub struct OrderAmounts {
    pub quantity: i64,
    pub lmt_price: Option<i64>,
    pub aux_price: Option<i64>,
}

pub open spec fn optional_scaled(p: Option<Dec>) -> Result<Option<i64>, Seq<char>> {
    match p {
        None => Ok(None),
        Some(v) => match scaled_spec(v) {
            Ok(x) => Ok(Some(x)),
            Err(e) => Err(e),
        },
    }
}

/// An order as it is written: valid, with its quantity and prices in
/// micro-units (each refused beyond six places or outside the range).
pub open spec fn prepared_order(o: NewOrder) -> Result<(i64, Option<i64>, Option<i64>), Seq<char>> {
    match order_problem(o) {
        Some(e) => Err(e),
        None => match scaled_spec(o.quantity) {
            Err(e) => Err(e),
            Ok(q) => match optional_scaled(o.lmt_price) {
                Err(e) => Err(e),
                Ok(l) => match optional_scaled(o.aux_price) {
                    Err(e) => Err(e),
                    Ok(a) => Ok((q, l, a)),
                },
            },
        },
    }
}

fn scale_optional(p: &Option<Dec>) -> (r: Result<Option<i64>, String>)
    requires
        p matches Some(v) ==> v.wf(),
    ensures
        text_result(r) == optional_scaled(*p),
{
    match p {
        None => Ok(None),
        Some(v) => match scaled(v) {
            Ok(x) => Ok(Some(x)),
            Err(e) => Err(e),
        },
    }
}

/// Checks an order and converts its amounts for storage.
pub fn prepare_order(o: &NewOrder) -> (r: Result<OrderAmounts, String>)
    requires
        o.quantity.wf(),
        o.lmt_price matches Some(p) ==> p.wf(),
        o.aux_price matches Some(p) ==> p.wf(),
    ensures
        match r {
            Ok(a) => prepared_order(*o) == Ok::<(i64, Option<i64>, Option<i64>), Seq<char>>(
                (a.quantity, a.lmt_price, a.aux_price),
            ),
            Err(e) => prepared_order(*o) == Err::<(i64, Option<i64>, Option<i64>), Seq<char>>(
                e@,
            ),
        },
{
    match validate_order(o) {
        Ok(_) => {},
        Err(e) => return Err(e),
    }
    let quantity = match scaled(&o.quantity) {
        Ok(q) => q,
        Err(e) => return Err(e),
    };
    let lmt_price = match scale_optional(&o.lmt_price) {
        Ok(l) => l,
        Err(e) => return Err(e),
    };
    let aux_price = match scale_optional(&o.aux_price) {
        Ok(a) => a,
        Err(e) => return Err(e),
    };
    Ok(OrderAmounts { quantity, lmt_price, aux_price })
}

/// Reads a decimal field of a request; an unreadable one is refused as
/// "invalid <field>".
pub fn parse_decimal(value: &str, field: &str) -> (r: Result<Dec, String>)
    ensures
        match r {
            Ok(d) => parsed_decimal(value@) == Some(d) && d.wf(),
            Err(e) => parsed_decimal(value@) is None && e@ == "invalid "@ + field@,
        },
{
    match parse(value) {
        Some(d) => Ok(d),
        None => Err(concat("invalid ", field)),
    }
}

pub open spec fn text_of(s: Option<&str>) -> Option<Seq<char>> {
    match s {
        Some(t) => Some(t@),
        None => None,
    }
}

pub open spec fn optional_parsed(value: Option<Seq<char>>) -> Option<Option<Dec>> {
    match value {
        None => Some(None),
        Some(v) => match parsed_decimal(v) {
            Some(d) => Some(Some(d)),
            None => None,
        },
    }
}

/// Reads an order request of the web API into an order of this account:
/// quantity, limit and stop prices parsed, side and type upper-cased. The
/// order ID is allocated later.
pub fn read_order_request(
    account_id: String,
    conid: i64,
    side: &str,
    order_type: &str,
    quantity: &str,
    lmt_price: Option<&str>,
    aux_price: Option<&str>,
) -> (r: Result<NewOrder, String>)
    ensures
        match r {
            Ok(o) => {
                &&& parsed_decimal(quantity@) == Some(o.quantity)
                &&& optional_parsed(text_of(lmt_price)) == Some(o.lmt_price)
                &&& optional_parsed(text_of(aux_price)) == Some(o.aux_price)
                &&& o.order_id == 0
                &&& o.account_id == account_id
                &&& o.conid == conid
                &&& o.side@ == uppercased(side@)
                &&& o.order_type@ == uppercased(order_type@)
                &&& o.quantity.wf()
                &&& o.lmt_price matches Some(p) ==> p.wf()
                &&& o.aux_price matches Some(p) ==> p.wf()
            },
            Err(e) => {
                ||| parsed_decimal(quantity@) is None && e@ == "invalid quantity"@
                ||| parsed_decimal(quantity@) is Some && (lmt_price matches Some(l)
                    && parsed_decimal(l@) is None) && e@ == "invalid limit price"@
                ||| parsed_decimal(quantity@) is Some && optional_parsed(
                    text_of(lmt_price),
                ) is Some && (aux_price matches Some(a) && parsed_decimal(a@) is None) && e@
                    == "invalid stop price"@
            },
        },
{
    proof {
        reveal_strlit("invalid ");
        reveal_strlit("quantity");
        reveal_strlit("limit price");
        reveal_strlit("stop price");
        reveal_strlit("invalid quantity");
        reveal_strlit("invalid limit price");
        reveal_strlit("invalid stop price");
        assert("invalid "@ + "quantity"@ =~= "invalid quantity"@);
        assert("invalid "@ + "limit price"@ =~= "invalid limit price"@);
        assert("invalid "@ + "stop price"@ =~= "invalid stop price"@);
    }
    let q = match parse_decimal(quantity, "quantity") {
        Ok(d) => d,
        Err(e) => return Err(e),
    };
    let lmt = match lmt_price {
        Some(v) => match parse_decimal(v, "limit price") {
            Ok(d) => Some(d),
            Err(e) => return Err(e),
        },
        None => None,
    };
    let aux = match aux_price {
        Some(v) => match parse_decimal(v, "stop price") {
            Ok(d) => Some(d),
            Err(e) => return Err(e),
        },
        None => None,
    };
    Ok(
        NewOrder {
            order_id: 0,
            account_id,
            conid,
            side: to_uppercase(side),
            order_type: to_uppercase(order_type),
            quantity: q,
            lmt_price: lmt,
            aux_price: aux,
        },
    )
}

/// The order as reported right after it is placed: nothing filled yet,
/// status `Submitted`.
pub fn submitted_order(order: NewOrder) -> (r: Order)
    ensures
        r.order_id == order.order_id,
        r.perm_id is None,
        r.account_id == order.account_id,
        r.conid == order.conid,
        r.side == order.side,
        r.order_type == order.order_type,
        r.total_quantity == order.quantity,
        r.filled_quantity == (Dec { mantissa: 0, scale: 0 }),
        r.lmt_price == order.lmt_price,
        r.aux_price == order.aux_price,
        r.status@ == "Submitted"@,
{
    Order {
        order_id: order.order_id,
        perm_id: None,
        account_id: order.account_id,
        conid: order.conid,
        side: order.side,
        order_type: order.order_type,
        total_quantity: order.quantity,
        filled_quantity: Dec { mantissa: 0, scale: 0 },
        lmt_price: order.lmt_price,
        aux_price: order.aux_price,
        status: String::from_str("Submitted"),
    }
}

/// The answer to a cancellation that changed `changed` orders: none changed
/// means the order is unknown in the account, already filled or cancelled.
pub fn cancel_outcome(changed: usize, order_id: i64, account_id: &str) -> (r: Result<(), String>)
    ensures
        changed > 0 ==> r is Ok,
        changed == 0 ==> (r matches Err(e) && e@ == "order "@ + int_text(order_id as int)
            + " not cancellable in account "@ + account_id@),
{
    if changed == 0 {
        let m = concat("order ", int_to_text(order_id).as_str());
        let m = concat(m.as_str(), " not cancellable in account ");
        Err(concat(m.as_str(), account_id))
    } else {
        Ok(())
    }
}

/// Trimmed and upper-cased, as the web API stores contract fields.
pub open spec fn contract_field(s: Seq<char>) -> Seq<char> {
    uppercased(trimmed(s))
}

/// A contract of the web API: fields trimmed and upper-cased; refused when
/// the ID is not positive, the symbol is empty or the currency is not three
/// bytes long.
pub fn prepare_contract(
    conid: i64,
    symbol: &str,
    sec_type: &str,
    exchange: &str,
    currency: &str,
) -> (r: Result<Contract, String>)
    ensures
        ({
            let sym = contract_field(symbol@);
            let cur = contract_field(currency@);
            let ok = conid > 0 && sym.len() > 0 && vstd::utf8::encode_utf8(cur).len() as usize == 3;
            match r {
                Ok(c) => ok && c.conid == conid && c.symbol@ == sym && c.sec_type@
                    == contract_field(sec_type@) && c.exchange@ == contract_field(exchange@)
                    && c.currency@ == cur,
                Err(e) => !ok && e@ == "invalid contract"@,
            }
        }),
{
    let symbol = to_uppercase(trim(symbol));
    let sec_type = to_uppercase(trim(sec_type));
    let exchange = to_uppercase(trim(exchange));
    let currency = to_uppercase(trim(currency));
    if conid <= 0 || symbol.as_str().is_empty() || currency.as_str().len() != 3 {
        return Err(String::from_str("invalid contract"));
    }
    Ok(Contract { conid, symbol, sec_type, exchange, currency })
}

/// A contract as the ledger stores it: security type, exchange and currency
/// upper-cased; the ID and symbol as given.
pub fn stored_contract(c: &Contract) -> (r: Contract)
    ensures
        r.conid == c.conid,
        r.symbol@ == c.symbol@,
        r.sec_type@ == uppercased(c.sec_type@),
        r.exchange@ == uppercased(c.exchange@),
        r.currency@ == uppercased(c.currency@),
{
    Contract {
        conid: c.conid,
        symbol: c.symbol.clone(),
        sec_type: to_uppercase(c.sec_type.as_str()),
        exchange: to_uppercase(c.exchange.as_str()),
        currency: to_uppercase(c.currency.as_str()),
    }
}

/// An account type as the ledger stores it: upper-cased.
pub fn stored_account_type(account_type: &str) -> (r: String)
    ensures
        r@ == uppercased(account_type@),
{
    to_uppercase(account_type)
}

/// A cash balance as the ledger stores it: the currency upper-cased and the
/// amount in micro-units; an amount the fixed-point conversion refuses is
/// refused with its message.
pub fn stored_cash(currency: &str, amount: &Dec) -> (r: Result<(String, i64), String>)
    requires
        amount.wf(),
    ensures
        match scaled_spec(*amount) {
            Ok(k) => r matches Ok(v) && v.0@ == uppercased(currency@) && v.1 == k,
            Err(e) => r matches Err(m) && m@ == e,
        },
{
    let k = match scaled(amount) {
        Ok(k) => k,
        Err(e) => return Err(e),
    };
    Ok((to_uppercase(currency), k))
}

pub open spec fn is_ascii_letter(c: char) -> bool {
    ('a' <= c && c <= 'z') || ('A' <= c && c <= 'Z')
}

/// A cash currency of the web API: trimmed, upper-cased, and then three
/// bytes, all ASCII letters.
pub fn cash_currency(raw: &str) -> (r: Result<String, String>)
    ensures
        ({
            let cur = contract_field(raw@);
            let ok = vstd::utf8::encode_utf8(cur).len() as usize == 3 && forall|i: int|
                0 <= i < cur.len() ==> is_ascii_letter(#[trigger] cur[i]);
            match r {
                Ok(c) => ok && c@ == cur,
                Err(e) => !ok && e@ == "currency must be a 3-letter code"@,
            }
        }),
{
    let currency = to_uppercase(trim(raw));
    if currency.as_str().len() != 3 || !all_ascii_letters(currency.as_str()) {
        return Err(String::from_str("currency must be a 3-letter code"));
    }
    Ok(currency)
}

fn all_ascii_letters(s: &str) -> (r: bool)
    ensures
        r == forall|i: int| 0 <= i < s@.len() ==> is_ascii_letter(#[trigger] s@[i]),
{
    let n = s.unicode_len();
    let mut i: usize = 0;
    while i < n
        invariant
            n == s@.len(),
            i <= n,
            forall|j: int| 0 <= j < i ==> is_ascii_letter(#[trigger] s@[j]),
        decreases n - i,
    {
        let c = s.get_char(i);
        if !(('a' <= c && c <= 'z') || ('A' <= c && c <= 'Z')) {
            return false;
        }
        i = i + 1;
    }
    true
}

/// An order that passes the checks has a supported type, a positive
/// quantity, a side of BUY or SELL, the prices its type needs, and only
/// positive prices.
pub proof fn lemma_accepted_orders_follow_the_rules(o: NewOrder)
    requires
        order_problem(o) is None,
    ensures
        is_order_type(o.order_type@),
        o.quantity.is_positive_spec(),
        is_side(o.side@),
        needs_limit_price(o.order_type@) ==> o.lmt_price is Some,
        needs_aux_price(o.order_type@) ==> o.aux_price is Some,
        o.lmt_price matches Some(p) ==> p.is_positive_spec(),
        o.aux_price matches Some(p) ==> p.is_positive_spec(),
{
}

} // verus!
