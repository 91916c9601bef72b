use ib::decimal::Dec;
use ib::ledger::{
    advance_fill, cash_delta, roll_up_position, start_fill, FillEvent, FillRequest, FillStep,
    OrderTerms,
};
use ib::models::NewFill;
use ib::orders::parse_decimal;

fn dec(text: &str) -> Dec {
    parse_decimal(text, "value").unwrap()
}

fn fill(exec_id: &str, price: &str) -> NewFill {
    NewFill {
        exec_id: exec_id.into(),
        order_id: 1,
        account_id: "U1234567".into(),
        price: dec(price),
    }
}

/// A small stand-in for the tables a fill touches.
struct Store {
    fills: Vec<(String, i64, String, i64, i64)>,
    order: (i64, String, i64, i64, String),
    position: Option<(i64, Option<i64>)>,
    multiplier: i64,
    cash: Option<i64>,
    commits: usize,
}

fn run(store: &mut Store, req: &FillRequest) -> Result<(), String> {
    let mut step = FillStep::CountSameFill;
    loop {
        let event = match &step {
            FillStep::CountSameFill => FillEvent::Count(
                store
                    .fills
                    .iter()
                    .filter(|f| f.0 == req.exec_id && f.1 == req.order_id && f.2 == req.account_id && f.4 == req.price)
                    .count() as i64,
            ),
            FillStep::CountExecId => {
                FillEvent::Count(store.fills.iter().filter(|f| f.0 == req.exec_id).count() as i64)
            }
            FillStep::LoadOrder => {
                if store.order.4 == "Submitted" {
                    FillEvent::OrderRow(Some(OrderTerms {
                        conid: store.order.0,
                        side: store.order.1.clone(),
                        total: store.order.2,
                        filled: store.order.3,
                    }))
                } else {
                    FillEvent::OrderRow(None)
                }
            }
            FillStep::InsertFill { quantity, .. } => {
                store.fills.push((
                    req.exec_id.clone(),
                    req.order_id,
                    req.account_id.clone(),
                    *quantity,
                    req.price,
                ));
                FillEvent::Written
            }
            FillStep::MarkFilled { total, .. } => {
                store.order.3 = *total;
                store.order.4 = "Filled".into();
                FillEvent::Written
            }
            FillStep::LoadPosition { .. } => FillEvent::PositionRow(store.position),
            FillStep::StorePosition {
                position, avg_cost, ..
            } => {
                store.position = Some((*position, *avg_cost));
                FillEvent::Written
            }
            FillStep::LoadContract { .. } => FillEvent::ContractRow("USD".into(), store.multiplier),
            FillStep::LoadCash { .. } => FillEvent::CashRow(store.cash),
            FillStep::StoreCash { balance, .. } => {
                store.cash = Some(*balance);
                FillEvent::Written
            }
            FillStep::Commit => {
                store.commits += 1;
                FillEvent::Written
            }
            FillStep::Finished => return Ok(()),
            FillStep::Failed { message } => return Err(message.clone()),
        };
        step = advance_fill(req, step, event);
    }
}

fn submitted_buy_of_100() -> Store {
    Store {
        fills: Vec::new(),
        order: (265598, "BUY".into(), 100_000_000, 0, "Submitted".into()),
        position: None,
        multiplier: 1_000_000,
        cash: Some(100_000_000_000),
        commits: 0,
    }
}

#[test]
fn sqlite_round_trip_covers_order_fill_position_and_cash() {
    let mut store = submitted_buy_of_100();
    let req = start_fill(&fill("EX-TEST-0001", "185.52")).unwrap();
    run(&mut store, &req).unwrap();
    // Idempotent retry with the same execution ID is a no-op.
    let retry = start_fill(&fill("EX-TEST-0001", "185.52")).unwrap();
    run(&mut store, &retry).unwrap();

    assert_eq!(store.order.4, "Filled");
    assert_eq!(store.order.3, 100_000_000);
    assert_eq!(store.position, Some((100_000_000, Some(185_520_000))));
    assert_eq!(store.cash, Some(100_000_000_000 - 18_552_000_000));
    assert_eq!(store.fills.len(), 1);
    assert_eq!(store.fills[0].4, 185_520_000);
    assert_eq!(store.commits, 2);
}

#[test]
fn execution_id_of_another_fill_is_refused() {
    let mut store = submitted_buy_of_100();
    run(&mut store, &start_fill(&fill("EX-1", "185.52")).unwrap()).unwrap();
    store.order = (265598, "BUY".into(), 100_000_000, 0, "Submitted".into());
    let other = start_fill(&fill("EX-1", "190")).unwrap();
    assert_eq!(
        run(&mut store, &other).unwrap_err(),
        "fill failed: execution ID EX-1 belongs to another fill"
    );
}

#[test]
fn filled_or_unknown_order_is_refused() {
    let mut store = submitted_buy_of_100();
    store.order.4 = "Filled".into();
    let req = start_fill(&fill("EX-2", "1")).unwrap();
    assert_eq!(
        run(&mut store, &req).unwrap_err(),
        "fill failed: order not found or not submittable"
    );
    let mut store = submitted_buy_of_100();
    store.order.3 = store.order.2;
    assert_eq!(
        run(&mut store, &req).unwrap_err(),
        "fill failed: order already fully filled"
    );
}

#[test]
fn fill_requests_are_checked_before_the_transaction() {
    assert_eq!(
        start_fill(&fill("EX-3", "0")).err().unwrap(),
        "fill failed: fill price must be positive"
    );
    assert_eq!(
        start_fill(&fill("", "1")).err().unwrap(),
        "fill failed: execution ID must contain 1 to 24 bytes"
    );
    assert_eq!(
        start_fill(&fill("1234567890123456789012345", "1")).err().unwrap(),
        "fill failed: execution ID must contain 1 to 24 bytes"
    );
    assert_eq!(
        start_fill(&fill("EX-4", "1.0000001")).err().unwrap(),
        "fill failed: value 1.0000001 has more than 6 decimal places"
    );
    assert_eq!(start_fill(&fill("EX-5", "2.5")).ok().unwrap().price, 2_500_000);
}

#[test]
fn database_errors_fail_the_fill_and_the_commit() {
    let req = start_fill(&fill("EX-6", "1")).unwrap();
    match advance_fill(&req, FillStep::LoadOrder, FillEvent::DbError("disk I/O error".into())) {
        FillStep::Failed { message } => assert_eq!(message, "fill failed: disk I/O error"),
        _ => panic!("expected a failure"),
    }
    match advance_fill(&req, FillStep::Commit, FillEvent::DbError("busy".into())) {
        FillStep::Failed { message } => assert_eq!(message, "fill commit failed: busy"),
        _ => panic!("expected a failure"),
    }
    match advance_fill(&req, FillStep::LoadOrder, FillEvent::Written) {
        FillStep::Failed { message } => {
            assert_eq!(message, "fill failed: unexpected database reply")
        }
        _ => panic!("expected a failure"),
    }
}

#[test]
fn opening_a_position_takes_the_fill_price() {
    assert_eq!(
        roll_up_position(None, "BUY", 10_000_000, 5_000_000).unwrap(),
        (10_000_000, Some(5_000_000))
    );
    assert_eq!(
        roll_up_position(None, "SELL", 10_000_000, 5_000_000).unwrap(),
        (-10_000_000, Some(5_000_000))
    );
}

#[test]
fn adding_on_the_same_side_blends_the_cost() {
    assert_eq!(
        roll_up_position(Some((100_000_000, Some(10_000_000))), "BUY", 100_000_000, 20_000_000)
            .unwrap(),
        (200_000_000, Some(15_000_000))
    );
    // One third of the way from 1 to 2, rounded half to even at six places.
    assert_eq!(
        roll_up_position(Some((2_000_000, Some(1_000_000))), "BUY", 1_000_000, 2_000_000).unwrap(),
        (3_000_000, Some(1_333_333))
    );
    // A position without a recorded cost blends from the fill price.
    assert_eq!(
        roll_up_position(Some((5_000_000, None)), "BUY", 5_000_000, 7_000_000).unwrap(),
        (10_000_000, Some(7_000_000))
    );
}

#[test]
fn reducing_keeps_the_cost_and_clearing_resets_it() {
    assert_eq!(
        roll_up_position(Some((100_000_000, Some(10_000_000))), "SELL", 40_000_000, 30_000_000)
            .unwrap(),
        (60_000_000, Some(10_000_000))
    );
    assert_eq!(
        roll_up_position(Some((100_000_000, Some(10_000_000))), "SELL", 100_000_000, 30_000_000)
            .unwrap(),
        (0, None)
    );
}

#[test]
fn crossing_zero_takes_the_fill_price() {
    assert_eq!(
        roll_up_position(Some((100_000_000, Some(10_000_000))), "SELL", 150_000_000, 30_000_000)
            .unwrap(),
        (-50_000_000, Some(30_000_000))
    );
}

#[test]
fn position_overflow_is_refused() {
    assert_eq!(
        roll_up_position(Some((i64::MAX, Some(1))), "BUY", 1, 1).unwrap_err(),
        "position arithmetic overflow"
    );
}

#[test]
fn purchase_pays_and_sale_receives_the_notional() {
    assert_eq!(
        cash_delta("BUY", 100_000_000, 185_520_000, 1_000_000).unwrap(),
        -18_552_000_000
    );
    assert_eq!(
        cash_delta("SELL", 3_000_000, 1_500_000, 100_000_000).unwrap(),
        450_000_000
    );
    // 0.000001 * 0.5 = 0.0000005, rounded half to even.
    assert_eq!(cash_delta("SELL", 1, 500_000, 1_000_000).unwrap(), 0);
    assert_eq!(cash_delta("SELL", 3, 500_000, 1_000_000).unwrap(), 2);
    assert_eq!(cash_delta("BUY", 3, 500_000, 1_000_000).unwrap(), -2);
}
