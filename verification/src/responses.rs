//! What the web API reports of the ledger: each record with its amounts
//! written as normalized decimal text.

use crate::decimal::{decimal_display, display, normalize, normalized, Dec};
use crate::models::{Account, CashBalance, Contract, Fill, Order, Position};
use vstd::prelude::*;

verus! {

pub struct AccountResponse {
    pub account_id: String,
    pub account_type: String,
    pub currency: String,
    pub status: String,
}

pub struct ContractResponse {
    pub conid: i64,
    pub symbol: String,
    pub sec_type: String,
    pub exchange: String,
    pub currency: String,
}

pub struct OrderResponse {
    pub order_id: i64,
    pub perm_id: Option<i64>,
    pub account_id: String,
    pub conid: i64,
    pub side: String,
    pub order_type: String,
    pub total_quantity: String,
    pub filled_quantity: String,
    pub lmt_price: Option<String>,
    pub aux_price: Option<String>,
    pub status: String,
}

pub struct PositionResponse {
    pub account_id: String,
    pub conid: i64,
    pub position: String,
    pub avg_cost: Option<String>,
}

pub struct CashResponse {
    pub account_id: String,
    pub currency: String,
    pub cash: String,
}

pub struct FillResponse {
    pub exec_id: String,
    pub order_id: i64,
    pub account_id: String,
    pub conid: i64,
    pub side: String,
    pub quantity: String,
    pub price: String,
}

/// A decimal as reported: without trailing fractional zeros.
pub open spec fn decimal_text(d: Dec) -> Seq<char> {
    decimal_display(normalized(d))
}

pub open spec fn optional_text(d: Option<Dec>) -> Option<Seq<char>> {
    match d {
        Some(v) => Some(decimal_text(v)),
        None => None,
    }
}

pub open spec fn optional_view(s: Option<String>) -> Option<Seq<char>> {
    match s {
        Some(v) => Some(v@),
        None => None,
    }
}

pub open spec fn optional_wf(d: Option<Dec>) -> bool {
    d matches Some(v) ==> v.wf()
}

/// Writes a decimal as reported.
pub fn decimal(value: &Dec) -> (r: String)
    requires
        value.wf(),
    ensures
        r@ == decimal_text(*value),
{
    display(&normalize(value))
}

/// Writes an optional decimal as reported.
pub fn optional_decimal(value: &Option<Dec>) -> (r: Option<String>)
    requires
        optional_wf(*value),
    ensures
        optional_view(r) == optional_text(*value),
{
    match value {
        Some(v) => Some(decimal(v)),
        None => None,
    }
}

pub fn account_response(account: Account) -> (r: AccountResponse)
    ensures
        r.account_id == account.account_id,
        r.account_type == account.account_type,
        r.currency == account.currency,
        r.status == account.status,
{
    AccountResponse {
        account_id: account.account_id,
        account_type: account.account_type,
        currency: account.currency,
        status: account.status,
    }
}

pub fn contract_response(contract: Contract) -> (r: ContractResponse)
    ensures
        r.conid == contract.conid,
        r.symbol == contract.symbol,
        r.sec_type == contract.sec_type,
        r.exchange == contract.exchange,
        r.currency == contract.currency,
{
    ContractResponse {
        conid: contract.conid,
        symbol: contract.symbol,
        sec_type: contract.sec_type,
        exchange: contract.exchange,
        currency: contract.currency,
    }
}

pub fn order_response(order: Order) -> (r: OrderResponse)
    requires
        order.total_quantity.wf(),
        order.filled_quantity.wf(),
        optional_wf(order.lmt_price),
        optional_wf(order.aux_price),
    ensures
        r.order_id == order.order_id,
        r.perm_id == order.perm_id,
        r.account_id == order.account_id,
        r.conid == order.conid,
        r.side == order.side,
        r.order_type == order.order_type,
        r.total_quantity@ == decimal_text(order.total_quantity),
        r.filled_quantity@ == decimal_text(order.filled_quantity),
        optional_view(r.lmt_price) == optional_text(order.lmt_price),
        optional_view(r.aux_price) == optional_text(order.aux_price),
        r.status == order.status,
{
    OrderResponse {
        order_id: order.order_id,
        perm_id: order.perm_id,
        total_quantity: decimal(&order.total_quantity),
        filled_quantity: decimal(&order.filled_quantity),
        lmt_price: optional_decimal(&order.lmt_price),
        aux_price: optional_decimal(&order.aux_price),
        account_id: order.account_id,
        conid: order.conid,
        side: order.side,
        order_type: order.order_type,
        status: order.status,
    }
}

pub fn position_response(position: Position) -> (r: PositionResponse)
    requires
        position.position.wf(),
        optional_wf(position.avg_cost),
    ensures
        r.account_id == position.account_id,
        r.conid == position.conid,
        r.position@ == decimal_text(position.position),
        optional_view(r.avg_cost) == optional_text(position.avg_cost),
{
    PositionResponse {
        position: decimal(&position.position),
        avg_cost: optional_decimal(&position.avg_cost),
        account_id: position.account_id,
        conid: position.conid,
    }
}

pub fn cash_response(balance: CashBalance) -> (r: CashResponse)
    requires
        balance.cash.wf(),
    ensures
        r.account_id == balance.account_id,
        r.currency == balance.currency,
        r.cash@ == decimal_text(balance.cash),
{
    CashResponse {
        cash: decimal(&balance.cash),
        account_id: balance.account_id,
        currency: balance.currency,
    }
}

pub fn fill_response(fill: Fill) -> (r: FillResponse)
    requires
        fill.quantity.wf(),
        fill.price.wf(),
    ensures
        r.exec_id == fill.exec_id,
        r.order_id == fill.order_id,
        r.account_id == fill.account_id,
        r.conid == fill.conid,
        r.side == fill.side,
        r.quantity@ == decimal_text(fill.quantity),
        r.price@ == decimal_text(fill.price),
{
    FillResponse {
        quantity: decimal(&fill.quantity),
        price: decimal(&fill.price),
        exec_id: fill.exec_id,
        order_id: fill.order_id,
        account_id: fill.account_id,
        conid: fill.conid,
        side: fill.side,
    }
}

} // verus!
