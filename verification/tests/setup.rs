use schwab_bot::bot::TradingBot;
use schwab_bot::clock::UtcTime;
use schwab_bot::decimal::Decimal;
use schwab_bot::models::Symbol;
use schwab_bot::ibkr::{populate_order_history_from_ibkr, OrderNews};
use schwab_bot::orders::{OrderError, OrderStep};
use schwab_bot::schwab::{populate_order_history_from_schwab, RecentOrders};
use schwab_bot::setup::{config_path, fallback_account, needs_ib_client, SetupError};
use schwab_bot::table::Table;

// 2024-02-29T12:00:00Z
const NOON: i64 = 1_709_208_000;

fn at(secs: i64) -> UtcTime {
    UtcTime::new(secs, 0).unwrap()
}

fn symbol(name: &str, api: Option<&str>, account: &str) -> Symbol {
    Symbol {
        symbol: name.to_string(),
        api: api.map(|a| a.to_string()),
        account_hash: account.to_string(),
        entry_amount: Decimal::from_integer(1000),
        exit_amount: Decimal::from_integer(1000),
        entry_threshold: Decimal::from_integer(-2),
        exit_threshold: Decimal::from_integer(2),
    }
}

fn history(entries: &[(&str, i64)]) -> Option<Table<UtcTime>> {
    let mut t = Table::new();
    for (name, secs) in entries {
        t.set(name.to_string(), at(*secs));
    }
    Some(t)
}

#[test]
fn the_bot_starts_with_the_configured_accounts() {
    let symbols = vec![symbol("VTI", None, "Z"), symbol("F", None, "B"), symbol("GE", None, "Z")];
    let bot = TradingBot::new(symbols, Some("FALLBACK".to_string()), None, None).unwrap();
    assert_eq!(bot.account_hashes, vec!["B", "Z"]);
    assert_eq!(bot.symbols_config.len(), 3);
    assert!(bot.has_api);
    assert!(!bot.has_ib_client);
    assert_eq!(bot.positions.len(), 0);
    assert_eq!(bot.real_time_prices.len(), 0);
    assert_eq!(bot.account_balances.len(), 0);
    assert_eq!(bot.order_history.len(), 0);
}

#[test]
fn the_bot_falls_back_to_one_account() {
    let bot = TradingBot::new(Vec::new(), Some("FALLBACK".to_string()), None, None).unwrap();
    assert_eq!(bot.account_hashes, vec!["FALLBACK"]);
    match TradingBot::new(Vec::new(), None, None, None) {
        Err(e) => {
            assert_eq!(e, SetupError::NoAccounts);
            assert_eq!(e.message(), "Schwab API returned no account numbers");
        }
        Ok(_) => panic!("started without accounts"),
    }
}

#[test]
fn the_ib_client_is_needed_where_a_symbol_names_it() {
    assert!(!needs_ib_client(&Vec::new()));
    assert!(!needs_ib_client(&vec![symbol("F", None, "A"), symbol("F", Some("IBKR"), "A")]));
    let symbols = vec![symbol("F", None, "A"), symbol("AAPL", Some("ibkr"), "DU1")];
    assert!(needs_ib_client(&symbols));
    let bot = TradingBot::new(symbols, None, None, None).unwrap();
    assert!(bot.has_ib_client);
    assert!(bot.uses_ibkr("DU1"));
    assert!(!bot.uses_ibkr("A"));
}

#[test]
fn one_ibkr_symbol_moves_its_whole_account() {
    let symbols = vec![symbol("F", None, "A"), symbol("AAPL", Some("ibkr"), "A")];
    let bot = TradingBot::new(symbols, None, None, None).unwrap();
    assert!(bot.uses_ibkr("A"));
}

#[test]
fn the_latest_order_stands_whichever_broker_tells_of_it() {
    let early = || history(&[("F", NOON), ("GE", NOON)]);
    let late = || history(&[("F", NOON + 86_400)]);
    for (ibkr, schwab) in [(early(), late()), (late(), early())] {
        let bot = TradingBot::new(vec![symbol("F", None, "A")], None, ibkr, schwab).unwrap();
        assert_eq!(bot.order_history.len(), 2);
        assert_eq!(bot.order_history.get("F").unwrap().date(), "2024-03-01");
        assert_eq!(bot.order_history.get("GE").unwrap().date(), "2024-02-29");
    }
}

#[test]
fn an_order_of_yesterday_blocks_nothing_after_a_restart() {
    let known = history(&[("F", NOON - 43_201)]);
    let mut bot = TradingBot::new(vec![symbol("F", None, "A")], None, known, None).unwrap();
    let one = Decimal::from_integer(1);
    let step = bot.send_limit_order("F@A", "SELL", one, one, at(NOON), Decimal::zero());
    assert!(!matches!(step, OrderStep::Refused(OrderError::AlreadyOrdered { .. })));
}

#[test]
fn the_preferred_account_goes_before_the_first_listed() {
    let listed = vec!["FIRST".to_string(), "SECOND".to_string()];
    assert_eq!(fallback_account(Some("MINE".to_string()), &listed).as_deref(), Some("MINE"));
    assert_eq!(fallback_account(Some("MINE".to_string()), &vec![]).as_deref(), Some("MINE"));
    assert_eq!(fallback_account(None, &listed).as_deref(), Some("FIRST"));
    assert_eq!(fallback_account(None, &vec![]), None);
}

#[test]
fn the_daily_limit_holds_across_a_restart() {
    for (ibkr, schwab) in [(history(&[("F", NOON)]), None), (None, history(&[("F", NOON)]))] {
        let mut bot = TradingBot::new(vec![symbol("F", None, "A")], None, ibkr, schwab).unwrap();
        let one = Decimal::from_integer(1);
        let step = bot.send_limit_order("F@A", "SELL", one, one, at(NOON + 60), Decimal::zero());
        assert!(matches!(step, OrderStep::Refused(OrderError::AlreadyOrdered { .. })));
    }
}

#[test]
fn the_bot_knows_its_configuration_and_pace() {
    let bot = TradingBot::new(vec![symbol("F", None, "A")], None, None, None).unwrap();
    assert_eq!(
        bot.get_config_path(),
        "/Users/rogerbos/rust_home/schwab_bot/symbols_config.json"
    );
    assert_eq!(config_path(), bot.get_config_path());
    assert_eq!(bot.get_interval_seconds(), 60);
}

#[test]
fn what_the_brokers_tell_at_the_start_limits_the_day() {
    for (entered, blocked) in
        [("2024-02-29T09:00:00+0000", true), ("2024-02-28T23:59:59+0000", false)]
    {
        let replies = vec![RecentOrders::Orders(vec![format!(
            r#"{{"enteredTime": "{}", "orderLegCollection": [{{"instrument": {{"symbol": "F"}}}}]}}"#,
            entered
        )])];
        let schwab = populate_order_history_from_schwab(&replies, at(NOON));
        let mut ibkr = Table::new();
        let traded =
            OrderNews::Traded { symbol: "F".to_string(), at: Some(at(NOON - 2 * 86_400)) };
        populate_order_history_from_ibkr(&mut ibkr, &traded, at(NOON));
        let symbols = vec![symbol("F", None, "A")];
        let mut bot = TradingBot::new(symbols, None, Some(ibkr), Some(schwab)).unwrap();
        let one = Decimal::from_integer(1);
        let step = bot.send_limit_order("F@A", "SELL", one, one, at(NOON + 60), Decimal::zero());
        assert_eq!(
            matches!(step, OrderStep::Refused(OrderError::AlreadyOrdered { .. })),
            blocked,
            "{}",
            entered
        );
    }
}
