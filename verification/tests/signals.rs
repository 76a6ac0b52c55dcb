use schwab_bot::bot::TradingBot;
use schwab_bot::decimal::Decimal;
use schwab_bot::models::{RealTimeQuote, SignalInfo, Symbol};
use schwab_bot::signals::{describe_signal, plan_signal, SignalPlan};
use schwab_bot::table::Table;

fn d(x: f64) -> Decimal {
    Decimal::from_binary64(x.to_bits()).unwrap()
}

fn symbol(name: &str, account: &str, entry: f64, exit: f64) -> Symbol {
    Symbol {
        symbol: name.to_string(),
        api: None,
        account_hash: account.to_string(),
        entry_amount: d(1000.0),
        exit_amount: d(500.0),
        entry_threshold: d(entry),
        exit_threshold: d(exit),
    }
}

fn bot(symbols: Vec<Symbol>, quotes: &[(&str, Option<f64>, Option<f64>)]) -> TradingBot {
    let mut real_time_prices = Table::new();
    for (name, price, change) in quotes {
        let quote = RealTimeQuote {
            last_price: price.map(d),
            percent_change: change.map(d),
            ..Default::default()
        };
        real_time_prices.set(name.to_string(), quote);
    }
    TradingBot {
        has_api: true,
        has_ib_client: false,
        account_hashes: Vec::new(),
        symbols_config: symbols,
        positions: Table::new(),
        real_time_prices,
        account_balances: Table::new(),
        order_history: Table::new(),
    }
}

fn signal(change: Option<f64>, price: Option<f64>, entry: f64, exit: f64) -> SignalInfo {
    let b = bot(vec![symbol("VTI", "A", entry, exit)], &[("VTI", price, change)]);
    let s = b.generate_signals();
    let found = s.get("VTI@A").unwrap();
    SignalInfo {
        action: found.action.clone(),
        last_price: found.last_price,
        quantity: found.quantity,
    }
}

#[test]
fn a_rise_to_the_exit_threshold_sells() {
    let s = signal(Some(2.0), Some(99.0), -2.0, 2.0);
    assert_eq!(s.action, "SELL");
    assert_eq!(s.quantity, d(5.0));
    assert_eq!(s.last_price, Some(d(99.0)));
}

#[test]
fn a_fall_to_the_entry_threshold_buys() {
    let s = signal(Some(-2.0), Some(300.0), -2.0, 2.0);
    assert_eq!(s.action, "BUY");
    assert_eq!(s.quantity, d(3.0));
}

#[test]
fn anything_between_holds() {
    for change in [Some(-1.99), Some(0.0), Some(1.99), None] {
        let s = signal(change, Some(300.0), -2.0, 2.0);
        assert_eq!(s.action, "HOLD");
        assert_eq!(s.quantity, d(0.0));
        assert_eq!(s.last_price, Some(d(300.0)));
    }
}

#[test]
fn selling_goes_first_where_the_thresholds_cross() {
    assert_eq!(signal(Some(0.0), Some(10.0), 1.0, -1.0).action, "SELL");
    assert_eq!(signal(Some(-1.5), Some(10.0), 1.0, -1.0).action, "BUY");
}

#[test]
fn without_a_price_no_shares_are_wanted() {
    let s = signal(Some(5.0), None, -2.0, 2.0);
    assert_eq!(s.action, "SELL");
    assert_eq!(s.quantity, d(0.0));
    assert!(s.last_price.is_none());
}

#[test]
fn a_buy_never_costs_more_than_its_amount() {
    for price in [0.5, 7.77, 333.34, 999.99, 1000.0, 1000.01] {
        let s = signal(Some(-3.0), Some(price), -2.0, 2.0);
        let cost = s.quantity.units as i128 * d(price).units as i128;
        assert!(cost <= d(1000.0).units as i128 * 100_000_000);
        assert_eq!(s.quantity.units % 100_000_000, 0);
    }
}

#[test]
fn every_symbol_has_a_signal_in_each_of_its_accounts() {
    let b = bot(
        vec![symbol("VTI", "A", -2.0, 2.0), symbol("VTI", "B", -9.0, 9.0), symbol("F", "A", -1.0, 1.0)],
        &[("VTI", Some(100.0), Some(-3.0))],
    );
    let s = b.generate_signals();
    assert_eq!(s.len(), 3);
    assert_eq!(s.get("VTI@A").unwrap().action, "BUY");
    assert_eq!(s.get("VTI@B").unwrap().action, "HOLD");
    assert_eq!(s.get("F@A").unwrap().action, "HOLD");
    assert!(s.get("F@A").unwrap().last_price.is_none());
}

#[test]
fn of_two_entries_with_one_key_the_later_one_stands() {
    let b = bot(
        vec![symbol("VTI", "A", -2.0, 2.0), symbol("VTI", "A", -9.0, 9.0)],
        &[("VTI", Some(100.0), Some(-3.0))],
    );
    let s = b.generate_signals();
    assert_eq!(s.len(), 1);
    assert_eq!(s.get("VTI@A").unwrap().action, "HOLD");
}

#[test]
fn signals_are_shown_on_one_line() {
    let s = signal(Some(-2.0), Some(300.0), -2.0, 2.0);
    assert_eq!(
        describe_signal("VTI@0123456789", &s),
        "Signal for VTI@012345: BUY (last_price: $300.00, quantity: 3.00)"
    );
    let none = signal(None, None, -2.0, 2.0);
    assert_eq!(
        describe_signal("VTI@A", &none),
        "Signal for VTI@A: HOLD (last_price: N/A, quantity: 0.00)"
    );
}

fn info(action: &str, price: Option<f64>, quantity: f64) -> SignalInfo {
    SignalInfo { action: action.to_string(), last_price: price.map(d), quantity: d(quantity) }
}

#[test]
fn buys_and_sells_of_some_shares_are_sent() {
    match plan_signal("VTI@A", &info("buy", Some(10.0), 2.0)) {
        SignalPlan::Send { symbol_key, action, qty, limit_price } => {
            assert_eq!(symbol_key, "VTI@A");
            assert_eq!(action, "BUY");
            assert_eq!(qty, d(2.0));
            assert_eq!(limit_price, d(10.0));
        }
        _ => panic!("not sent"),
    }
    assert!(matches!(plan_signal("VTI@A", &info("SELL", Some(10.0), 2.0)), SignalPlan::Send { .. }));
}

#[test]
fn other_signals_are_left_alone() {
    assert!(matches!(plan_signal("K", &info("HOLD", Some(10.0), 2.0)), SignalPlan::Nothing));
    assert!(matches!(plan_signal("K", &info("BUY", Some(10.0), 0.0)), SignalPlan::Nothing));
    assert!(matches!(plan_signal("K", &info("BUY", Some(10.0), -1.0)), SignalPlan::Nothing));
    assert!(matches!(
        plan_signal("K", &info("BUY", None, 2.0)),
        SignalPlan::SkipWithoutPrice { .. }
    ));
}
