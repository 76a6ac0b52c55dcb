use schwab_bot::bot::TradingBot;
use schwab_bot::clock::UtcTime;
use schwab_bot::decimal::Decimal;
use schwab_bot::models::{RealTimeQuote, Symbol};
use schwab_bot::orders::{
    estimate_schwab_commission, OrderBalances, OrderError, OrderStep, OrderTicket, Route,
};
use schwab_bot::risk::{Instruction, RiskError};
use schwab_bot::table::Table;

// 2024-02-29T12:00:00Z
const NOON: i64 = 1_709_208_000;

fn d(x: f64) -> Decimal {
    Decimal::from_binary64(x.to_bits()).unwrap()
}

fn at(secs: i64) -> UtcTime {
    UtcTime::new(secs, 0).unwrap()
}

fn symbol(name: &str, api: Option<&str>, account: &str) -> Symbol {
    Symbol {
        symbol: name.to_string(),
        api: api.map(|a| a.to_string()),
        account_hash: account.to_string(),
        entry_amount: d(1000.0),
        exit_amount: d(1000.0),
        entry_threshold: d(-2.0),
        exit_threshold: d(2.0),
    }
}

/// A bot that holds ten shares of each symbol in each account, all last traded at 100.
fn bot() -> TradingBot {
    let symbols = vec![
        symbol("VTI", None, "SCHWAB"),
        symbol("AAPL", Some("ibkr"), "DU1"),
        symbol("F", Some("schwab"), "SCHWAB"),
    ];
    let mut positions = Table::new();
    let mut real_time_prices = Table::new();
    let mut account_balances = Table::new();
    for account in ["SCHWAB", "DU1"] {
        let mut held = Table::new();
        for s in &symbols {
            held.set(s.symbol.clone(), d(10.0));
        }
        positions.set(account.to_string(), held);
        account_balances.set(account.to_string(), d(1_000_000.0));
    }
    for s in &symbols {
        let quote = RealTimeQuote { last_price: Some(d(100.0)), ..Default::default() };
        real_time_prices.set(s.symbol.clone(), quote);
    }
    TradingBot {
        has_api: true,
        has_ib_client: true,
        account_hashes: vec!["DU1".to_string(), "SCHWAB".to_string()],
        symbols_config: symbols,
        positions,
        real_time_prices,
        account_balances,
        order_history: Table::new(),
    }
}

fn sell(bot: &mut TradingBot, key: &str, now: i64) -> OrderStep {
    bot.send_limit_order(key, "SELL", d(2.0), d(100.0), at(now), d(0.0))
}

fn refusal(step: OrderStep) -> OrderError {
    match step {
        OrderStep::Refused(e) => e,
        OrderStep::FetchBalances(_) => panic!("asks for balances"),
        OrderStep::Place(_) => panic!("placed"),
    }
}

fn placed(step: OrderStep) -> OrderTicket {
    match step {
        OrderStep::Place(t) => t,
        OrderStep::FetchBalances(_) => panic!("asks for balances"),
        OrderStep::Refused(e) => panic!("refused: {}", e.message()),
    }
}

#[test]
fn a_key_names_symbol_and_account() {
    let e = refusal(sell(&mut bot(), "VTI", NOON));
    assert!(matches!(e, OrderError::KeyFormat));
    assert_eq!(e.message(), "Symbol key must be in SYMBOL@ACCOUNT format");
    for key in ["VTI@DU1", "GE@SCHWAB", "@", "VTI@SCHWAB@", "VTI@schwab"] {
        let e = refusal(sell(&mut bot(), key, NOON));
        assert!(matches!(e, OrderError::NotConfigured));
        assert_eq!(e.message(), "Symbol/account combination not configured");
    }
}

#[test]
fn a_sell_at_schwab_goes_out_in_cents() {
    let mut b = bot();
    let step = b.send_limit_order("vti@SCHWAB", "s", d(2.0), d(100.126), at(NOON), d(0.0));
    let ticket = placed(step);
    assert_eq!(ticket.route, Route::Schwab);
    assert_eq!(ticket.symbol, "VTI");
    assert_eq!(ticket.account_hash, "SCHWAB");
    assert_eq!(ticket.instruction, Instruction::Sell);
    assert_eq!(ticket.qty, d(2.0));
    assert_eq!(ticket.limit_price, d(100.13));
}

#[test]
fn a_sell_at_ibkr_keeps_its_price_and_pays_commission() {
    let mut b = bot();
    let step = b.send_limit_order("AAPL@DU1", "Sell", d(2.0), d(100.126), at(NOON), d(1.0));
    let ticket = placed(step);
    assert_eq!(ticket.route, Route::Ibkr);
    assert_eq!(ticket.limit_price, d(100.126));
}

#[test]
fn a_buy_waits_for_balances_and_goes_on_with_them() {
    let mut b = bot();
    let step = b.send_limit_order("VTI@SCHWAB", "B", d(2.0), d(100.0), at(NOON), d(0.0));
    let ticket = match step {
        OrderStep::FetchBalances(t) => t,
        _ => panic!("no request for balances"),
    };
    assert_eq!(ticket.instruction, Instruction::Buy);
    let answer = OrderBalances::Schwab(Ok(vec![d(1_000.0), d(2_000.0)]));
    let sent = placed(b.resume_limit_order(ticket, answer));
    assert_eq!(sent.symbol, "VTI");
    assert_eq!(sent.qty, d(2.0));
    assert_eq!(sent.limit_price, d(100.0));
}

#[test]
fn a_buy_without_cash_is_refused_in_the_end() {
    let mut b = bot();
    let step = b.send_limit_order("VTI@SCHWAB", "BUY", d(2.0), d(100.0), at(NOON), d(0.0));
    let ticket = match step {
        OrderStep::FetchBalances(t) => t,
        _ => panic!("no request for balances"),
    };
    let answer = OrderBalances::Schwab(Ok(vec![d(100.0), d(2_000.0)]));
    let e = refusal(b.resume_limit_order(ticket, answer));
    assert!(matches!(e, OrderError::Risk(RiskError::InsufficientCash { .. })));
    assert_eq!(
        e.message(),
        "Insufficient cash to buy 2 shares of VTI for $200.00; available $100.00"
    );
}

#[test]
fn one_order_per_symbol_and_day() {
    let mut b = bot();
    placed(sell(&mut b, "VTI@SCHWAB", NOON));
    let e = refusal(sell(&mut b, "vti@SCHWAB", NOON + 40_000));
    assert!(matches!(e, OrderError::AlreadyOrdered { .. }));
    assert_eq!(
        e.message(),
        "Order blocked: only one order per symbol per day allowed. Last order for VTI was on \
         2024-02-29"
    );
    placed(sell(&mut b, "F@SCHWAB", NOON));
    placed(sell(&mut b, "VTI@SCHWAB", NOON + 43_200));
}

#[test]
fn a_refused_order_counts_for_the_day() {
    let mut b = bot();
    let e = refusal(b.send_limit_order("VTI@SCHWAB", "HOLD", d(2.0), d(100.0), at(NOON), d(0.0)));
    assert!(matches!(e, OrderError::UnsupportedSide { .. }));
    assert_eq!(e.message(), "Unsupported side 'HOLD'. Expected BUY or SELL.");
    assert!(b.order_history.get("VTI").is_some());
    assert!(matches!(
        refusal(sell(&mut b, "VTI@SCHWAB", NOON)),
        OrderError::AlreadyOrdered { .. }
    ));
}

#[test]
fn an_unknown_key_leaves_the_history_alone() {
    let mut b = bot();
    refusal(sell(&mut b, "GE@SCHWAB", NOON));
    assert_eq!(b.order_history.len(), 0);
}

#[test]
fn an_unsupported_side_is_shown_in_capitals() {
    let mut b = bot();
    let e = refusal(b.send_limit_order("AAPL@DU1", "short", d(2.0), d(100.0), at(NOON), d(0.0)));
    assert_eq!(e.message(), "Unsupported side 'SHORT'. Expected BUY or SELL.");
}

#[test]
fn each_broker_needs_its_client() {
    let mut b = bot();
    b.has_ib_client = false;
    let e = refusal(sell(&mut b, "AAPL@DU1", NOON));
    assert!(matches!(e, OrderError::NoIbClient));
    assert_eq!(e.message(), "IB client not initialized");
    let mut b = bot();
    b.has_api = false;
    let e = refusal(sell(&mut b, "VTI@SCHWAB", NOON));
    assert!(matches!(e, OrderError::NoApi));
    assert_eq!(e.message(), "Schwab API client not initialized");
}

fn buy_at_ibkr(bot: &mut TradingBot, qty: f64, price: f64) -> OrderTicket {
    match bot.send_limit_order("AAPL@DU1", "BUY", d(qty), d(price), at(NOON), d(0.0)) {
        OrderStep::FetchBalances(t) => t,
        OrderStep::Place(_) => panic!("placed without a look at the balances"),
        OrderStep::Refused(e) => panic!("refused: {}", e.message()),
    }
}

#[test]
fn orders_at_ibkr_are_checked_with_or_without_the_other_client() {
    for has_api in [true, false] {
        let mut b = bot();
        b.has_api = has_api;
        b.real_time_prices = Table::new();
        let ticket = buy_at_ibkr(&mut b, 1.0, 5.0);
        assert_eq!(ticket.route, Route::Ibkr);
        let answer = OrderBalances::Ibkr(Ok(vec![d(4.0), d(1_000_000.0)]));
        let e = refusal(b.resume_limit_order(ticket, answer));
        assert_eq!(
            e.message(),
            "Insufficient cash to buy 1 shares of AAPL for $5.00; available $4.00"
        );
        let mut b = bot();
        b.has_api = has_api;
        b.real_time_prices = Table::new();
        let ticket = buy_at_ibkr(&mut b, 1.0, 5.0);
        let answer = OrderBalances::Ibkr(Ok(vec![d(500.0), d(1_000_000.0)]));
        let e = refusal(b.resume_limit_order(ticket, answer));
        assert!(matches!(e, OrderError::Risk(RiskError::TooSmall { .. })));
        let mut b = bot();
        b.has_api = has_api;
        let e = refusal(b.send_limit_order("AAPL@DU1", "SELL", d(11.0), d(100.0), at(NOON), d(0.0)));
        assert!(matches!(e, OrderError::Risk(RiskError::SellExceedsHeld { .. })));
    }
}

#[test]
fn the_broker_of_the_account_tells_its_balances() {
    let mut b = bot();
    b.has_api = false;
    let ticket = buy_at_ibkr(&mut b, 2.0, 100.0);
    let other = OrderBalances::Schwab(Ok(vec![d(1_000_000.0), d(1_000_000.0)]));
    let ticket = match b.resume_limit_order(ticket, other) {
        OrderStep::FetchBalances(t) => t,
        _ => panic!("went on with what another broker said"),
    };
    let answer = OrderBalances::Ibkr(Ok(vec![d(500.0), d(1_000_000.0)]));
    let sent = placed(b.resume_limit_order(ticket, answer));
    assert_eq!(sent.route, Route::Ibkr);
    assert_eq!(sent.account_hash, "DU1");
    let ticket = buy_at_ibkr(&mut bot(), 2.0, 100.0);
    let failed = OrderBalances::Ibkr(Err("no stream".to_string()));
    let e = refusal(b.resume_limit_order(ticket, failed));
    assert_eq!(e.message(), "Unable to fetch balances for BUY risk check: no stream");
}

#[test]
fn an_account_with_one_symbol_at_ibkr_has_its_balances_from_there() {
    let mut b = bot();
    b.symbols_config.push(symbol("T", Some("ibkr"), "SCHWAB"));
    let step = b.send_limit_order("VTI@SCHWAB", "BUY", d(2.0), d(100.0), at(NOON), d(0.0));
    let ticket = match step {
        OrderStep::FetchBalances(t) => t,
        _ => panic!("no request for balances"),
    };
    let answer = OrderBalances::Ibkr(Ok(vec![d(500.0), d(1_000_000.0)]));
    let sent = placed(b.resume_limit_order(ticket, answer));
    assert_eq!(sent.route, Route::Schwab);
}

#[test]
fn quantity_and_price_are_positive() {
    let mut b = bot();
    let e = refusal(b.send_limit_order("VTI@SCHWAB", "BUY", d(0.0), d(0.0), at(NOON), d(0.0)));
    assert!(matches!(e, OrderError::QuantityNotPositive));
    assert_eq!(e.message(), "Quantity must be greater than zero");
    let e = refusal(b.send_limit_order("AAPL@DU1", "BUY", d(1.0), d(-1.0), at(NOON), d(0.0)));
    assert!(matches!(e, OrderError::PriceNotPositive));
    assert_eq!(e.message(), "Limit price must be greater than zero");
}

#[test]
fn schwab_orders_go_out_without_commission_only() {
    let mut b = bot();
    let e = refusal(b.send_limit_order("VTI@SCHWAB", "SELL", d(2.0), d(100.0), at(NOON), d(4.95)));
    assert!(matches!(e, OrderError::Commission { .. }));
    assert_eq!(
        e.message(),
        "Order blocked by commission policy: estimated commission $4.95 exceeds threshold"
    );
}

#[test]
fn the_commission_is_the_flat_amount_or_none() {
    assert_eq!(estimate_schwab_commission(Some(d(4.95))), d(4.95));
    assert_eq!(estimate_schwab_commission(None), d(0.0));
}

#[test]
fn the_first_configured_entry_of_a_symbol_decides() {
    let mut b = bot();
    b.symbols_config.push(symbol("vti", Some("ibkr"), "SCHWAB"));
    let ticket = placed(sell(&mut b, "VTI@SCHWAB", NOON));
    assert_eq!(ticket.route, Route::Schwab);
    assert_eq!(ticket.symbol, "VTI");
}

#[test]
fn a_price_that_rounds_to_nothing_does_not_go_out() {
    let mut b = bot();
    b.real_time_prices = Table::new();
    let e = refusal(b.send_limit_order("VTI@SCHWAB", "SELL", d(9.0), d(0.004), at(NOON), d(0.0)));
    assert!(matches!(e, OrderError::Risk(RiskError::TooSmall { .. })));
    assert_eq!(e.message(), "Order notional $0.00 is below the minimum trade size threshold");
}
