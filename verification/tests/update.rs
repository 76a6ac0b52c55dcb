use schwab_bot::bot::TradingBot;
use schwab_bot::decimal::Decimal;
use schwab_bot::models::{PositionSummary, RealTimeQuote, Symbol};
use schwab_bot::quotes::{read_quote, QuoteReply};
use schwab_bot::table::Table;
use schwab_bot::update::{AccountBalance, AccountPositions, UpdateError};

fn d(x: f64) -> Decimal {
    Decimal::from_binary64(x.to_bits()).unwrap()
}

fn symbol(name: &str, api: Option<&str>, account: &str) -> Symbol {
    Symbol {
        symbol: name.to_string(),
        api: api.map(|a| a.to_string()),
        account_hash: account.to_string(),
        entry_amount: d(1000.0),
        exit_amount: d(1000.0),
        entry_threshold: d(-2.0),
        exit_threshold: d(2.0),
    }
}

fn bot() -> TradingBot {
    let symbols = vec![
        symbol("VTI", None, "A"),
        symbol("AAPL", Some("ibkr"), "DU1"),
        symbol("VTI", None, "C"),
    ];
    TradingBot::new(symbols, None, None, None).unwrap()
}

fn position(symbol: &str, quantity: f64, market_value: Option<f64>) -> PositionSummary {
    PositionSummary {
        symbol: symbol.to_string(),
        description: None,
        asset_type: None,
        quantity: d(quantity),
        is_short: quantity < 0.0,
        average_price: None,
        market_value: market_value.map(d),
        cost_basis: None,
        profit_loss: None,
    }
}

fn schwab(values: &[f64]) -> AccountBalance {
    AccountBalance::Schwab(Ok(values.iter().map(|v| d(*v)).collect()))
}

fn listed(list: Vec<PositionSummary>) -> AccountPositions {
    AccountPositions::Schwab(Ok(list))
}

fn failed() -> AccountBalance {
    AccountBalance::Schwab(Err("down".to_string()))
}

#[test]
fn balances_are_taken_from_each_broker() {
    let mut b = bot();
    assert_eq!(b.account_hashes, vec!["A", "C", "DU1"]);
    let answers =
        vec![schwab(&[1.0, 2.0]), schwab(&[1.0, 2.0, 3.0]), AccountBalance::Ibkr(Ok(d(9.0)))];
    assert!(b.update_account_info(&answers).is_ok());
    assert_eq!(b.account_balances.get("A"), Some(&d(2.0)));
    assert_eq!(b.account_balances.get("C"), Some(&d(3.0)));
    assert_eq!(b.account_balances.get("DU1"), Some(&d(9.0)));
}

#[test]
fn a_single_balance_stands_for_the_portfolio() {
    let mut b = bot();
    let answers = vec![schwab(&[7.0]), schwab(&[1.0, 2.0, 3.0, 4.0]), schwab(&[5.0])];
    assert!(b.update_account_info(&answers).is_ok());
    assert_eq!(b.account_balances.get("A"), Some(&d(7.0)));
    assert_eq!(b.account_balances.get("C"), Some(&d(2.0)));
    assert!(b.account_balances.get("DU1").is_none());
}

#[test]
fn an_update_of_balances_drops_those_that_failed() {
    let mut b = bot();
    b.account_balances.set("A".to_string(), d(1.0));
    assert!(b.update_account_info(&vec![failed(), schwab(&[5.0]), failed()]).is_ok());
    assert!(b.account_balances.get("A").is_none());
    assert_eq!(b.account_balances.len(), 1);
}

#[test]
fn without_any_balance_the_known_ones_are_kept() {
    let mut b = bot();
    b.account_balances.set("A".to_string(), d(1.0));
    let answers = vec![failed(), schwab(&[]), AccountBalance::Ibkr(Err("down".to_string()))];
    let e = b.update_account_info(&answers).unwrap_err();
    assert_eq!(e, UpdateError::NoBalances);
    assert_eq!(e.message(), "Balance payloads were empty for all configured accounts");
    assert_eq!(b.account_balances.get("A"), Some(&d(1.0)));
    b.has_api = false;
    let e = b.update_account_info(&vec![schwab(&[1.0]), failed(), failed()]).unwrap_err();
    assert_eq!(e, UpdateError::NoApi);
    assert_eq!(e.message(), "Schwab API client not initialized");
}

#[test]
fn positions_and_the_prices_that_they_imply_are_taken_in() {
    let mut b = bot();
    let quote = RealTimeQuote {
        last_price: Some(d(1.0)),
        total_volume: Some(5),
        ..Default::default()
    };
    b.real_time_prices.set("VTI".to_string(), quote);
    let replies = vec![
        listed(vec![position("VTI", 4.0, Some(820.0)), position("F", -2.0, Some(-24.0))]),
        AccountPositions::Schwab(Err("down".to_string())),
        AccountPositions::Ibkr(Ok(vec![
            position("AAPL", 3.0, None),
            position("GE", 0.0, Some(5.0)),
        ])),
    ];
    assert!(b.update_positions(&replies).is_ok());
    assert_eq!(b.positions.len(), 2);
    assert_eq!(b.positions.get("A").unwrap().get("VTI"), Some(&d(4.0)));
    assert_eq!(b.positions.get("A").unwrap().get("F"), Some(&d(-2.0)));
    assert!(b.positions.get("C").is_none());
    assert_eq!(b.positions.get("DU1").unwrap().get("AAPL"), Some(&d(3.0)));
    let vti = b.real_time_prices.get("VTI").unwrap();
    assert_eq!(vti.last_price, Some(d(205.0)));
    assert_eq!(vti.total_volume, Some(5));
    assert_eq!(b.real_time_prices.get("F").unwrap().last_price, Some(d(-12.0)));
    assert!(b.real_time_prices.get("AAPL").is_none());
    assert!(b.real_time_prices.get("GE").is_none());
}

#[test]
fn without_any_positions_the_known_ones_are_kept() {
    let mut b = bot();
    b.positions.set("A".to_string(), Table::new());
    let replies = vec![
        AccountPositions::Schwab(Err("a".to_string())),
        AccountPositions::Ibkr(Ok(vec![position("VTI", 4.0, Some(820.0))])),
        AccountPositions::Schwab(Ok(vec![position("AAPL", 3.0, Some(30.0))])),
    ];
    let e = b.update_positions(&replies).unwrap_err();
    assert_eq!(e, UpdateError::NoPositions);
    assert_eq!(e.message(), "Unable to fetch positions for all configured accounts");
    assert_eq!(b.positions.len(), 1);
    assert_eq!(b.real_time_prices.len(), 0);
}

#[test]
fn positions_are_taken_from_the_broker_of_each_account() {
    let mut b = bot();
    let replies = vec![
        listed(vec![position("VTI", 4.0, Some(820.0))]),
        AccountPositions::Ibkr(Ok(vec![position("VTI", 9.0, Some(9.0))])),
        listed(vec![position("AAPL", 3.0, Some(30.0))]),
    ];
    assert!(b.update_positions(&replies).is_ok());
    assert_eq!(b.positions.len(), 1);
    assert_eq!(b.positions.get("A").unwrap().get("VTI"), Some(&d(4.0)));
    assert_eq!(b.real_time_prices.get("VTI").unwrap().last_price, Some(d(205.0)));
    assert!(b.real_time_prices.get("AAPL").is_none());
}

fn equity(regular: Option<(f64, Option<f64>)>, average: Option<i64>) -> QuoteReply {
    QuoteReply::Equity {
        regular: regular.map(|(p, c)| (d(p), c.map(d))),
        last_price: d(99.0),
        net_percent_change: Some(d(-1.5)),
        total_volume: 1_000_000,
        avg_10_days_volume: average,
    }
}

#[test]
fn the_regular_session_goes_first() {
    let q = read_quote(&equity(Some((101.0, Some(2.5))), Some(3))).unwrap();
    assert_eq!(q.last_price, Some(d(101.0)));
    assert_eq!(q.percent_change, Some(d(2.5)));
    assert_eq!(q.total_volume, Some(1_000_000));
    assert_eq!(q.avg_10_day_volume, Some(3));
    let q = read_quote(&equity(Some((101.0, None)), None)).unwrap();
    assert_eq!(q.last_price, Some(d(101.0)));
    assert_eq!(q.percent_change, Some(d(-1.5)));
    assert_eq!(q.avg_10_day_volume, None);
    let q = read_quote(&equity(None, None)).unwrap();
    assert_eq!(q.last_price, Some(d(99.0)));
    assert_eq!(q.percent_change, Some(d(-1.5)));
}

#[test]
fn options_are_quoted_too_and_other_kinds_are_not() {
    let option = QuoteReply::Option {
        last_price: d(1.25),
        net_percent_change: d(10.0),
        total_volume: 7,
    };
    let q = read_quote(&option).unwrap();
    assert_eq!(q.last_price, Some(d(1.25)));
    assert_eq!(q.percent_change, Some(d(10.0)));
    assert_eq!(q.total_volume, Some(7));
    assert!(q.avg_10_day_volume.is_none());
    assert!(read_quote(&QuoteReply::Other).is_none());
    assert!(read_quote(&QuoteReply::Failed).is_none());
}

#[test]
fn each_symbol_is_quoted_once() {
    assert_eq!(bot().symbols_to_quote(), vec!["VTI", "AAPL"]);
}

#[test]
fn quotes_keep_what_is_not_told_anew() {
    let mut b = bot();
    b.update_prices(&vec![equity(Some((101.0, Some(2.5))), Some(3)), QuoteReply::Failed]);
    b.update_prices(&vec![equity(None, None), QuoteReply::Other]);
    let q = b.real_time_prices.get("VTI").unwrap();
    assert_eq!(q.last_price, Some(d(99.0)));
    assert_eq!(q.percent_change, Some(d(-1.5)));
    assert_eq!(q.avg_10_day_volume, Some(3));
    assert!(b.real_time_prices.get("AAPL").is_none());
}

#[test]
fn without_the_client_no_quotes_are_taken_in() {
    let mut b = bot();
    b.has_api = false;
    b.update_prices(&vec![equity(None, None), equity(None, None)]);
    assert_eq!(b.real_time_prices.len(), 0);
}

#[test]
fn a_volume_beyond_the_range_stays_at_its_end() {
    let option = QuoteReply::Option {
        last_price: d(1.25),
        net_percent_change: d(10.0),
        total_volume: u64::MAX,
    };
    assert_eq!(read_quote(&option).unwrap().total_volume, Some(i64::MAX));
}

#[test]
fn positions_move_only_last_prices() {
    let mut b = bot();
    b.update_prices(&vec![equity(Some((101.0, Some(2.5))), Some(3)), QuoteReply::Other]);
    let replies = vec![
        listed(vec![position("VTI", 2.0, Some(50.0))]),
        listed(Vec::new()),
        AccountPositions::Ibkr(Ok(vec![position("VTI", 4.0, Some(120.0))])),
    ];
    assert!(b.update_positions(&replies).is_ok());
    let q = b.real_time_prices.get("VTI").unwrap();
    assert_eq!(q.last_price, Some(d(30.0)));
    assert_eq!(q.percent_change, Some(d(2.5)));
    assert_eq!(q.total_volume, Some(1_000_000));
    assert_eq!(q.avg_10_day_volume, Some(3));
    assert_eq!(b.generate_signals().get("VTI@A").unwrap().action, "SELL");
}
