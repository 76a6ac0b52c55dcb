use schwab_bot::bot::TradingBot;
use schwab_bot::decimal::Decimal;
use schwab_bot::models::Symbol;
use schwab_bot::quotes::QuoteReply;
use schwab_bot::signals::SignalPlan;
use schwab_bot::strategy::{
    execute_strategy_internal, failed_orders, short_key, strategy_message, OrderFailure,
    PlannedSignal, StrategyEvent, StrategyStep,
};
use schwab_bot::update::{AccountBalance, AccountPositions, UpdateError};

fn d(x: f64) -> Decimal {
    Decimal::from_binary64(x.to_bits()).unwrap()
}

fn symbol(name: &str, account: &str) -> Symbol {
    Symbol {
        symbol: name.to_string(),
        api: None,
        account_hash: account.to_string(),
        entry_amount: d(1000.0),
        exit_amount: d(1000.0),
        entry_threshold: d(-2.0),
        exit_threshold: d(2.0),
    }
}

fn bot() -> TradingBot {
    TradingBot::new(vec![symbol("VTI", "A"), symbol("F", "A")], None, None, None).unwrap()
}

fn equity(price: f64, change: f64) -> QuoteReply {
    QuoteReply::Equity {
        regular: None,
        last_price: d(price),
        net_percent_change: Some(d(change)),
        total_volume: 1,
        avg_10_days_volume: None,
    }
}

#[test]
fn a_run_goes_through_balances_positions_and_quotes_to_orders() {
    let mut b = bot();
    assert!(matches!(
        execute_strategy_internal(&mut b, &StrategyEvent::Start),
        StrategyStep::FetchBalances
    ));
    let answers = vec![AccountBalance::Schwab(Ok(vec![d(1.0), d(2.0)]))];
    assert!(matches!(
        execute_strategy_internal(&mut b, &StrategyEvent::Balances(answers)),
        StrategyStep::FetchPositions
    ));
    let answers = vec![AccountPositions::Schwab(Ok(Vec::new()))];
    assert!(matches!(
        execute_strategy_internal(&mut b, &StrategyEvent::Positions(answers)),
        StrategyStep::FetchQuotes
    ));
    let quotes = vec![equity(300.0, -2.5), equity(12.0, 0.5)];
    match execute_strategy_internal(&mut b, &StrategyEvent::Quotes(quotes)) {
        StrategyStep::Act(list) => {
            assert_eq!(list.len(), 2);
            assert_eq!(
                list[0].line,
                "Signal for VTI@A: BUY (last_price: $300.00, quantity: 3.00)"
            );
            assert!(matches!(list[0].plan, SignalPlan::Send { .. }));
            assert_eq!(list[1].line, "Signal for F@A: HOLD (last_price: $12.00, quantity: 0.00)");
            assert!(matches!(list[1].plan, SignalPlan::Nothing));
        }
        _ => panic!("no orders"),
    }
    assert_eq!(b.account_balances.get("A"), Some(&d(2.0)));
}

#[test]
fn a_failed_update_stops_the_run() {
    let mut b = bot();
    let answers = vec![AccountBalance::Schwab(Err("down".to_string()))];
    assert!(matches!(
        execute_strategy_internal(&mut b, &StrategyEvent::Balances(answers)),
        StrategyStep::Stop(UpdateError::NoBalances)
    ));
    let replies = vec![AccountPositions::Schwab(Err("down".to_string()))];
    assert!(matches!(
        execute_strategy_internal(&mut b, &StrategyEvent::Positions(replies)),
        StrategyStep::Stop(UpdateError::NoPositions)
    ));
    assert_eq!(b.account_balances.len(), 0);
    assert_eq!(b.positions.len(), 0);
}

#[test]
fn failed_quotes_do_not_stop_the_run() {
    let mut b = bot();
    let quotes = vec![QuoteReply::Failed, QuoteReply::Failed];
    match execute_strategy_internal(&mut b, &StrategyEvent::Quotes(quotes)) {
        StrategyStep::Act(list) => {
            assert_eq!(list.len(), 2);
            assert_eq!(list[0].line, "Signal for VTI@A: HOLD (last_price: N/A, quantity: 0.00)");
        }
        _ => panic!("stopped"),
    }
}

#[test]
fn keys_are_shortened_to_ten_characters() {
    assert_eq!(short_key("VTI@0123456789"), "VTI@012345");
    assert_eq!(short_key("F@A"), "F@A");
    assert_eq!(short_key("éééééééééééé"), "éééééééééé");
}

fn planned(key: &str, sends: bool) -> PlannedSignal {
    PlannedSignal {
        line: String::new(),
        plan: if sends {
            SignalPlan::Send {
                symbol_key: key.to_string(),
                action: "BUY".to_string(),
                qty: d(1.0),
                limit_price: d(10.0),
            }
        } else {
            SignalPlan::Nothing
        },
    }
}

fn failure(key: &str, reason: &str) -> OrderFailure {
    OrderFailure { symbol_key: key.to_string(), reason: reason.to_string() }
}

#[test]
fn failed_orders_stop_neither_the_others_nor_the_run() {
    let mut b = bot();
    let event = StrategyEvent::Acted {
        signals: vec![planned("VTI@A", true), planned("F@A", false), planned("GE@A", true)],
        outcomes: vec![Err("no cash".to_string()), Ok(()), Err("closed".to_string())],
    };
    let failures = match execute_strategy_internal(&mut b, &event) {
        StrategyStep::Report(list) => list,
        _ => panic!("no report"),
    };
    assert_eq!(failures.len(), 2);
    assert_eq!(failures[0].symbol_key, "VTI@A");
    assert_eq!(failures[0].reason, "no cash");
    assert_eq!(failures[1].symbol_key, "GE@A");
    let event = StrategyEvent::Reported { failures, report: "Report\n".to_string() };
    match execute_strategy_internal(&mut b, &event) {
        StrategyStep::Send(message) => assert_eq!(
            message,
            "Report\n\nFailed Orders:\n⚠️ Failed to place order for VTI@A: no cash\n\
             ⚠️ Failed to place order for GE@A: closed\n"
        ),
        _ => panic!("no message"),
    }
    assert!(matches!(
        execute_strategy_internal(&mut b, &StrategyEvent::Delivered),
        StrategyStep::Done
    ));
}

#[test]
fn a_message_without_failures_is_the_report() {
    assert_eq!(strategy_message(&vec![], "Report\n"), "Report\n");
    assert_eq!(
        strategy_message(&vec![failure("VTI@0123456789", "r")], ""),
        "\nFailed Orders:\n⚠️ Failed to place order for VTI@012345: r\n"
    );
}

#[test]
fn only_orders_that_were_sent_can_fail() {
    let signals = vec![planned("VTI@A", true), planned("F@A", false)];
    let none = failed_orders(&signals, &vec![Ok(()), Err("odd".to_string())]);
    assert!(none.is_empty());
    assert!(failed_orders(&vec![], &vec![]).is_empty());
}
