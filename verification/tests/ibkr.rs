use schwab_bot::clock::UtcTime;
use schwab_bot::decimal::Decimal;
use schwab_bot::ibkr::{
    fetch_ib_balance, fetch_ib_positions, finish_ib_balance, finish_ib_positions,
    ib_order_balances, populate_order_history_from_ibkr, AccountUpdate, FeedAction, Holding,
    IbBalance, OrderNews,
};
use schwab_bot::table::Table;

fn d(x: f64) -> Decimal {
    Decimal::from_binary64(x.to_bits()).unwrap()
}

fn holding(symbol: &str, position: f64, cost: f64, value: f64, pnl: f64) -> AccountUpdate {
    AccountUpdate::PortfolioValue(Holding {
        symbol: symbol.to_string(),
        description: String::new(),
        security_type: "STK".to_string(),
        position: d(position),
        average_cost: d(cost),
        market_value: d(value),
        unrealized_pnl: d(pnl),
    })
}

fn amount(key: &str, value: Option<f64>) -> AccountUpdate {
    AccountUpdate::AccountValue { key: key.to_string(), amount: value.map(d) }
}

#[test]
fn holdings_become_positions() {
    let mut known = Table::new();
    assert_eq!(
        fetch_ib_positions(&mut known, &holding("AAPL", 10.0, 150.5, 1900.0, 395.0)),
        FeedAction::Continue
    );
    fetch_ib_positions(&mut known, &holding("F", -4.0, 12.25, 0.0, 0.0));
    fetch_ib_positions(&mut known, &holding("GE", 3.0, 0.0, 300.0, -1.0));
    let (list, cancel) = finish_ib_positions(known);
    assert!(!cancel);
    assert_eq!(list.len(), 3);
    assert_eq!(list[0].symbol, "AAPL");
    assert_eq!(list[0].description, None);
    assert_eq!(list[0].asset_type.as_deref(), Some("STK"));
    assert_eq!(list[0].quantity, d(10.0));
    assert!(!list[0].is_short);
    assert_eq!(list[0].average_price, Some(d(150.5)));
    assert_eq!(list[0].market_value, Some(d(1900.0)));
    assert_eq!(list[0].cost_basis, Some(d(1505.0)));
    assert_eq!(list[0].profit_loss, Some(d(395.0)));
    assert!(list[1].is_short);
    assert_eq!(list[1].quantity, d(-4.0));
    assert_eq!(list[1].cost_basis, Some(d(49.0)));
    assert_eq!(list[1].market_value, None);
    assert_eq!(list[1].profit_loss, None);
    assert_eq!(list[2].average_price, None);
    assert_eq!(list[2].cost_basis, None);
}

#[test]
fn a_described_holding_keeps_its_description() {
    let mut known = Table::new();
    fetch_ib_positions(
        &mut known,
        &AccountUpdate::PortfolioValue(Holding {
            symbol: "AAPL".to_string(),
            description: "Apple Inc".to_string(),
            security_type: "STK".to_string(),
            position: d(1.0),
            average_cost: d(0.0),
            market_value: d(0.0),
            unrealized_pnl: d(0.0),
        }),
    );
    let (list, _) = finish_ib_positions(known);
    assert_eq!(list[0].description.as_deref(), Some("Apple Inc"));
}

#[test]
fn the_last_holding_of_a_symbol_stands_and_empty_ones_are_passed_over() {
    let mut known = Table::new();
    fetch_ib_positions(&mut known, &holding("AAPL", 10.0, 1.0, 1.0, 1.0));
    fetch_ib_positions(&mut known, &holding("F", 5.0, 1.0, 1.0, 1.0));
    fetch_ib_positions(&mut known, &holding("AAPL", 11.0, 1.0, 1.0, 1.0));
    fetch_ib_positions(&mut known, &holding("F", 0.0, 1.0, 1.0, 1.0));
    assert_eq!(known.get("AAPL").unwrap().quantity, d(11.0));
    assert_eq!(known.get("F").unwrap().quantity, d(5.0));
}

#[test]
fn the_stream_ends_on_its_end_or_a_failure() {
    let mut known = Table::new();
    assert_eq!(fetch_ib_positions(&mut known, &AccountUpdate::End), FeedAction::CancelAndStop);
    assert_eq!(fetch_ib_positions(&mut known, &AccountUpdate::Failed), FeedAction::Stop);
    assert_eq!(fetch_ib_positions(&mut known, &AccountUpdate::Other), FeedAction::Continue);
    assert_eq!(
        fetch_ib_positions(&mut known, &amount("NetLiquidation", Some(1.0))),
        FeedAction::Continue
    );
    let (list, cancel) = finish_ib_positions(known);
    assert!(list.is_empty());
    assert!(cancel);
}

fn balance(updates: &[AccountUpdate]) -> Result<Decimal, String> {
    let mut known = IbBalance { net_liquidation: None, total_cash: None };
    for update in updates {
        fetch_ib_balance(&mut known, update);
    }
    finish_ib_balance(&known, "DU1")
}

#[test]
fn the_balance_is_the_net_liquidation_or_else_the_cash() {
    assert_eq!(
        balance(&[amount("TotalCashValue", Some(5.0)), amount("NetLiquidation", Some(9.0))]),
        Ok(d(9.0))
    );
    assert_eq!(balance(&[amount("TotalCashValue", Some(5.0))]), Ok(d(5.0)));
    assert_eq!(balance(&[amount("NetLiquidation", None)]), Ok(d(0.0)));
    assert_eq!(
        balance(&[amount("NetLiquidation", Some(9.0)), amount("NetLiquidation", Some(8.0))]),
        Ok(d(8.0))
    );
}

#[test]
fn an_account_without_balance_says_so() {
    assert_eq!(
        balance(&[amount("BuyingPower", Some(5.0)), holding("F", 1.0, 1.0, 1.0, 1.0)]),
        Err("No account balance data received for DU1".to_string())
    );
    let mut known = IbBalance { net_liquidation: None, total_cash: None };
    assert_eq!(fetch_ib_balance(&mut known, &AccountUpdate::End), FeedAction::CancelAndStop);
    assert_eq!(fetch_ib_balance(&mut known, &AccountUpdate::Failed), FeedAction::Stop);
    assert_eq!(fetch_ib_balance(&mut known, &AccountUpdate::Other), FeedAction::Continue);
}

#[test]
fn orders_are_measured_by_cash_and_net_liquidation() {
    let known = |net: Option<f64>, cash: Option<f64>| IbBalance {
        net_liquidation: net.map(d),
        total_cash: cash.map(d),
    };
    assert_eq!(ib_order_balances(&known(Some(9.0), Some(5.0)), "DU1"), Ok(vec![d(5.0), d(9.0)]));
    assert_eq!(ib_order_balances(&known(None, Some(5.0)), "DU1"), Ok(vec![d(5.0), d(5.0)]));
    assert_eq!(ib_order_balances(&known(Some(9.0), None), "DU1"), Ok(vec![d(0.0), d(9.0)]));
    assert_eq!(
        ib_order_balances(&known(None, None), "DU1"),
        Err("No account balance data received for DU1".to_string())
    );
}

// 2024-02-29T12:00:00Z
const NOON: i64 = 1_709_208_000;

fn traded(symbol: &str, at: Option<i64>) -> OrderNews {
    OrderNews::Traded {
        symbol: symbol.to_string(),
        at: at.map(|secs| UtcTime::new(secs, 0).unwrap()),
    }
}

#[test]
fn trades_are_noted_at_their_time() {
    let now = UtcTime::new(NOON, 0).unwrap();
    let mut history = Table::new();
    assert_eq!(
        populate_order_history_from_ibkr(&mut history, &traded("AAPL", Some(NOON - 86_400)), now),
        FeedAction::Continue
    );
    populate_order_history_from_ibkr(&mut history, &traded("F", None), now);
    assert_eq!(
        populate_order_history_from_ibkr(&mut history, &OrderNews::Other, now),
        FeedAction::Continue
    );
    assert_eq!(
        populate_order_history_from_ibkr(&mut history, &OrderNews::Failed, now),
        FeedAction::Stop
    );
    assert_eq!(history.len(), 2);
    assert_eq!(history.get("AAPL").unwrap().date(), "2024-02-28");
    assert_eq!(history.get("F").unwrap().date(), "2024-02-29");
}

#[test]
fn the_latest_trade_of_a_symbol_stands() {
    let now = UtcTime::new(NOON, 0).unwrap();
    let mut history = Table::new();
    populate_order_history_from_ibkr(&mut history, &traded("AAPL", Some(NOON + 43_200)), now);
    assert_eq!(history.get("AAPL").unwrap().parts(), (NOON, 0));
    for times in [[NOON - 10, NOON - 86_400], [NOON - 86_400, NOON - 10]] {
        let mut history = Table::new();
        for time in times {
            populate_order_history_from_ibkr(&mut history, &traded("AAPL", Some(time)), now);
        }
        assert_eq!(history.len(), 1);
        assert_eq!(history.get("AAPL").unwrap().parts(), (NOON - 10, 0));
    }
}
