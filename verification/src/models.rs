//! The records the ledger stores and reports.

use crate::decimal::Dec;
use vstd::prelude::*;

verus! {

/// A tradable instrument.
#[derive(Debug, Clone)]
pub struct Contract {
    pub conid: i64,
    pub symbol: String,
    pub sec_type: String,
    pub exchange: String,
    pub currency: String,
}

/// A simulation account.
#[derive(Debug)]
pub struct Account {
    pub account_id: String,
    pub account_type: String,
    pub currency: String,
    pub status: String,
}

/// An order as submitted, before it is stored.
#[derive(Debug)]
pub struct NewOrder {
    pub order_id: i64,
    pub account_id: String,
    pub conid: i64,
    pub side: String,
    pub order_type: String,
    pub quantity: Dec,
    pub lmt_price: Option<Dec>,
    pub aux_price: Option<Dec>,
}

/// A stored order.
#[derive(Debug)]
pub struct Order {
    pub order_id: i64,
    pub perm_id: Option<i64>,
    pub account_id: String,
    pub conid: i64,
    pub side: String,
    pub order_type: String,
    pub total_quantity: Dec,
    pub filled_quantity: Dec,
    pub lmt_price: Option<Dec>,
    pub aux_price: Option<Dec>,
    pub status: String,
}

/// A simulated execution to record against an order.
#[derive(Debug)]
pub struct NewFill {
    pub exec_id: String,
    pub order_id: i64,
    pub account_id: String,
    pub price: Dec,
}

/// A recorded execution.
#[derive(Debug)]
pub struct Fill {
    pub exec_id: String,
    pub order_id: i64,
    pub account_id: String,
    pub conid: i64,
    pub side: String,
    pub quantity: Dec,
    pub price: Dec,
}

/// Holding of one contract in one account.
#[derive(Debug)]
pub struct Position {
    pub account_id: String,
    pub conid: i64,
    pub position: Dec,
    pub avg_cost: Option<Dec>,
}

/// Cash of one account in one currency.
#[derive(Debug)]
pub struct CashBalance {
    pub account_id: String,
    pub currency: String,
    pub cash: Dec,
}

} // verus!
