use ib::decimal::Dec;
use ib::models::{Account, CashBalance, Contract, Fill, NewOrder};
use ib::orders::{
    cancel_outcome, cash_currency, parse_decimal, prepare_contract, prepare_order,
    read_order_request, stored_account_type, stored_cash, stored_contract, submitted_order,
    validate_order,
};
use ib::responses::{account_response, cash_response, contract_response, decimal, fill_response};

fn dec(text: &str) -> Dec {
    parse_decimal(text, "value").unwrap()
}

fn order(order_type: &str, side: &str, qty: &str, lmt: Option<&str>, aux: Option<&str>) -> NewOrder {
    NewOrder {
        order_id: 1,
        account_id: "U1".into(),
        conid: 1,
        side: side.into(),
        order_type: order_type.into(),
        quantity: dec(qty),
        lmt_price: lmt.map(dec),
        aux_price: aux.map(dec),
    }
}

#[test]
fn order_rules_in_order() {
    assert_eq!(
        validate_order(&order("FOO", "BUY", "1", None, None)).unwrap_err(),
        "unsupported order type: FOO"
    );
    assert_eq!(
        validate_order(&order("MKT", "BUY", "0", None, None)).unwrap_err(),
        "quantity must be positive"
    );
    assert_eq!(
        validate_order(&order("LMT", "BUY", "1", None, None)).unwrap_err(),
        "LMT requires LMT_PRICE"
    );
    assert_eq!(
        validate_order(&order("STP_LMT", "BUY", "1", Some("1"), None)).unwrap_err(),
        "STP_LMT requires AUX_PRICE"
    );
    assert_eq!(
        validate_order(&order("MKT", "HOLD", "1", None, None)).unwrap_err(),
        "side must be BUY or SELL"
    );
    assert_eq!(
        validate_order(&order("MKT", "BUY", "1", Some("-1"), None)).unwrap_err(),
        "limit price must be positive"
    );
    assert_eq!(
        validate_order(&order("STP", "SELL", "1", None, Some("0"))).unwrap_err(),
        "aux price must be positive"
    );
    assert!(validate_order(&order("STP_LMT", "SELL", "1", Some("2"), Some("3"))).is_ok());
}

#[test]
fn order_amounts_are_stored_in_micro_units() {
    let a = prepare_order(&order("LMT", "BUY", "100", Some("185.50"), None)).ok().unwrap();
    assert_eq!(a.quantity, 100_000_000);
    assert_eq!(a.lmt_price, Some(185_500_000));
    assert_eq!(a.aux_price, None);
    assert_eq!(
        prepare_order(&order("LMT", "BUY", "1", Some("1.0000001"), None)).err().unwrap(),
        "value 1.0000001 has more than 6 decimal places"
    );
}

#[test]
fn order_requests_are_read_and_upper_cased() {
    let o = read_order_request("U1".into(), 7, "buy", "lmt", "10", Some("1.5"), None)
        .ok()
        .unwrap();
    assert_eq!((o.side.as_str(), o.order_type.as_str()), ("BUY", "LMT"));
    assert_eq!(o.order_id, 0);
    assert!(o.quantity.same_value(&dec("10")));
    assert_eq!(
        read_order_request("U1".into(), 7, "buy", "lmt", "ten", None, None).err().unwrap(),
        "invalid quantity"
    );
    assert_eq!(
        read_order_request("U1".into(), 7, "buy", "lmt", "1", Some("x"), None).err().unwrap(),
        "invalid limit price"
    );
    assert_eq!(
        read_order_request("U1".into(), 7, "buy", "stp", "1", None, Some("x")).err().unwrap(),
        "invalid stop price"
    );
}

#[test]
fn placed_order_is_reported_submitted() {
    let o = submitted_order(order("MKT", "BUY", "10", None, None));
    assert_eq!(o.status, "Submitted");
    assert_eq!(decimal(&o.filled_quantity), "0");
    assert_eq!(decimal(&o.total_quantity), "10");
}

#[test]
fn cancellation_outcome_names_the_order() {
    assert_eq!(cancel_outcome(1, 5, "U1"), Ok(()));
    assert_eq!(
        cancel_outcome(0, 5, "U1"),
        Err("order 5 not cancellable in account U1".to_string())
    );
    assert_eq!(
        cancel_outcome(0, -12, "U2"),
        Err("order -12 not cancellable in account U2".to_string())
    );
}

#[test]
fn contract_fields_are_trimmed_and_upper_cased() {
    let c = prepare_contract(265598, " aapl ", "stk", " smart", "usd ").ok().unwrap();
    assert_eq!(
        (c.symbol.as_str(), c.sec_type.as_str(), c.exchange.as_str(), c.currency.as_str()),
        ("AAPL", "STK", "SMART", "USD")
    );
    assert_eq!(prepare_contract(0, "A", "", "", "USD").err().unwrap(), "invalid contract");
    assert_eq!(prepare_contract(1, "  ", "", "", "USD").err().unwrap(), "invalid contract");
    assert_eq!(prepare_contract(1, "A", "", "", "US").err().unwrap(), "invalid contract");
}

#[test]
fn cash_currency_is_three_letters() {
    assert_eq!(cash_currency(" usd "), Ok("USD".to_string()));
    assert_eq!(
        cash_currency("US1"),
        Err("currency must be a 3-letter code".to_string())
    );
    assert!(cash_currency("EURO").is_err());
}

#[test]
fn reported_amounts_drop_trailing_zeros() {
    assert_eq!(decimal(&Dec::from_micros(185_520_000)), "185.52");
    assert_eq!(decimal(&Dec::from_micros(-1_000_000)), "-1");
    assert_eq!(decimal(&Dec::from_micros(0)), "0");
    let fill = fill_response(Fill {
        exec_id: "EX".into(),
        order_id: 1,
        account_id: "U1".into(),
        conid: 2,
        side: "BUY".into(),
        quantity: Dec::from_micros(100_000_000),
        price: Dec::from_micros(185_500_000),
    });
    assert_eq!((fill.quantity.as_str(), fill.price.as_str()), ("100", "185.5"));
    let cash = cash_response(CashBalance {
        account_id: "U1".into(),
        currency: "USD".into(),
        cash: Dec::from_micros(81_448_000_000),
    });
    assert_eq!(cash.cash, "81448");
    let account = account_response(Account {
        account_id: "U1".into(),
        account_type: "MARGIN".into(),
        currency: "USD".into(),
        status: "ACTIVE".into(),
    });
    assert_eq!(account.account_type, "MARGIN");
    let contract = contract_response(Contract {
        conid: 3,
        symbol: "AAPL".into(),
        sec_type: "STK".into(),
        exchange: "SMART".into(),
        currency: "USD".into(),
    });
    assert_eq!(contract.conid, 3);
}

#[test]
fn stored_rows_are_upper_cased() {
    let c = stored_contract(&Contract {
        conid: 7,
        symbol: "aapl".into(),
        sec_type: "stk".into(),
        exchange: "smart".into(),
        currency: "usd".into(),
    });
    assert_eq!(
        (c.conid, c.symbol.as_str(), c.sec_type.as_str(), c.exchange.as_str(), c.currency.as_str()),
        (7, "aapl", "STK", "SMART", "USD")
    );
    assert_eq!(stored_account_type("margin"), "MARGIN");
    assert_eq!(stored_cash("eur", &dec("12.5")), Ok(("EUR".to_string(), 12_500_000)));
    assert_eq!(
        stored_cash("eur", &dec("0.0000001")),
        Err("value 0.0000001 has more than 6 decimal places".to_string())
    );
}

#[test]
fn reported_text_keeps_the_point_and_sign() {
    assert_eq!(decimal(&Dec::from_micros(-5_000)), "-0.005");
    assert_eq!(decimal(&Dec::from_micros(1_000)), "0.001");
}
