use schwab_bot::bot::TradingBot;
use schwab_bot::clock::UtcTime;
use schwab_bot::decimal::Decimal;
use schwab_bot::models::{PositionSummary, RealTimeQuote, Symbol};
use schwab_bot::report::{describe_balances, describe_order, OrderFields, OrdersReply, RecentOrder};
use schwab_bot::update::{AccountBalance, AccountPositions};

fn d(x: f64) -> Decimal {
    Decimal::from_binary64(x.to_bits()).unwrap()
}

fn symbol(name: &str, api: Option<&str>, account: &str) -> Symbol {
    Symbol {
        symbol: name.to_string(),
        api: api.map(|a| a.to_string()),
        account_hash: account.to_string(),
        entry_amount: d(1000.0),
        exit_amount: d(1000.0),
        entry_threshold: d(-2.0),
        exit_threshold: d(2.0),
    }
}

fn schwab_bot_of_one() -> TradingBot {
    TradingBot::new(vec![symbol("VTI", None, "ABCDEFGHIJKL")], None, None, None).unwrap()
}

fn position(symbol: &str, quantity: f64, figures: Option<(f64, f64, f64, f64)>) -> PositionSummary {
    PositionSummary {
        symbol: symbol.to_string(),
        description: None,
        asset_type: None,
        quantity: d(quantity),
        is_short: quantity < 0.0,
        average_price: figures.map(|f| d(f.0)),
        market_value: figures.map(|f| d(f.1)),
        cost_basis: figures.map(|f| d(f.2)),
        profit_loss: figures.map(|f| d(f.3)),
    }
}

fn order(id: i64, status: &str, description: Option<&str>, payload: &str) -> RecentOrder {
    RecentOrder {
        order_id: id,
        status: status.to_string(),
        status_description: description.map(|s| s.to_string()),
        entered: "2024-02-29 12:00:00".to_string(),
        payload: payload.to_string(),
    }
}

fn balances(values: &[f64]) -> AccountBalance {
    AccountBalance::Schwab(Ok(values.iter().map(|v| d(*v)).collect()))
}

fn no_positions() -> AccountPositions {
    AccountPositions::Schwab(Ok(Vec::new()))
}

const ONE_LEG: &str = r#"{"price": 10.5, "orderLegCollection": [
    {"instruction": "BUY", "quantity": 3, "instrument": {"symbol": "VTI"}}]}"#;

const TWO_LEGS: &str = r#"{"orderLegCollection": [
    {"instruction": "SELL_TO_OPEN", "instrument": {"symbol": "SPXW  240229C05000000"}},
    {"instruction": "BUY", "quantity": 1, "instrument": {"symbol": "F"}}]}"#;

#[test]
fn a_bot_without_accounts_says_so() {
    let mut b = schwab_bot_of_one();
    b.account_hashes = Vec::new();
    let text = b.generate_status_report("2024-02-29 12:00:00", &vec![], &vec![], &vec![]);
    assert_eq!(
        text,
        "📊 Schwab Bot - 2024-02-29 12:00:00\n\n\
         ⚠️ No account hashes are configured in symbols_config.json.\n"
    );
}

#[test]
fn a_full_report_shows_everything() {
    let mut b = schwab_bot_of_one();
    b.real_time_prices.set(
        "VTI".to_string(),
        RealTimeQuote {
            last_price: Some(d(201.456)),
            total_volume: Some(1_234_567),
            percent_change: Some(d(-2.346)),
            avg_10_day_volume: Some(100_000_000_000),
        },
    );
    let positions = vec![AccountPositions::Schwab(Ok(vec![
        position("VTI", 12.0, Some((201.25, 2600.4, 2415.0, 185.4))),
        position("GOOGLE", -3.0, None),
    ]))];
    let orders = vec![OrdersReply::Fetched(vec![
        order(17, "Working", Some("waiting"), ONE_LEG),
        order(18, "Filled", None, ONE_LEG),
        order(-19, "Queued", Some(""), TWO_LEGS),
        order(20, "PendingActivation", None, "null"),
    ])];
    let text = b.generate_status_report(
        "2024-02-29 12:00:00",
        &vec![balances(&[1000.5, 25_000.25])],
        &positions,
        &orders,
    );
    let expected = [
        "📊 Schwab Bot - 2024-02-29 12:00:00\n\n",
        "Balance Summary:\n",
        "Account ABCD…IJKL:\n",
        "Cash Available for Trading: $1000.50\n",
        "Liquidation Value:           $25000.25\n\n",
        "Positions for account ABCD…IJKL:\n",
        "Symbol Qty      AvgPrice MV     Cost   P / L  \n",
        "------ -------- -------- ------ ------ ------ \n",
        "VTI        12 L   201.25   2600   2415    185 \n",
        "GOOGL      -3 S        -      -      -      - \n",
        "-----------------------------------------------------------\n",
        "Total Market Value: $2600.40\n",
        "Total P/L:          $185.40\n\n",
        "Open Orders (last 24h):\n",
        "Account ABCD…IJKL:\n",
        "  • #17           Working      BUY         3 VTI      @ $10.50 ",
        "(entered 2024-02-29 12:00:00) - waiting\n",
        "  • #-19          Queued       SELL_TO_OPEN      - SPXW  240229C05000000 (+1 legs) ",
        "(entered 2024-02-29 12:00:00)\n",
        "  • #20           PendingActivation -           - -        ",
        "(entered 2024-02-29 12:00:00)\n\n",
        "Tracked Symbols (regular session):\n",
        "Symbol   Signal  Last    %Chg    Volume        Avg 10D Vol\n",
        "-------- ------ -------- ------- ------------ -------------\n",
        "VTI         BUY  $201.46  -2.35%    1,234,567 100,000,000,000\n",
    ]
    .concat();
    assert_eq!(text, expected);
    assert_eq!(b.account_balances.get("ABCDEFGHIJKL"), Some(&d(25_000.25)));
    let held = b.positions.get("ABCDEFGHIJKL").unwrap();
    assert_eq!(held.get("VTI"), Some(&d(12.0)));
    assert_eq!(held.get("GOOGLE"), Some(&d(-3.0)));
}

#[test]
fn order_lines_match_the_formatter() {
    let fields = OrderFields {
        legs: 2,
        symbol: Some("SPXW  240229C05000000".to_string()),
        instruction: Some("SELL_TO_OPEN".to_string()),
        quantity: None,
        price: None,
    };
    let line = describe_order(&order(19, "Queued", None, TWO_LEGS), &fields);
    assert_eq!(
        line,
        format!(
            "  • #{:<12} {:<12} {:<6} {:>6} {:<8}{}{} (entered {})\n",
            19,
            "Queued",
            "SELL_TO_OPEN",
            "-",
            "SPXW  240229C05000000",
            "",
            " (+1 legs)",
            "2024-02-29 12:00:00"
        )
    );
    let nothing =
        OrderFields { legs: 0, symbol: None, instruction: None, quantity: None, price: None };
    let none = describe_order(&order(1, "Working", None, ""), &nothing);
    assert_eq!(
        none,
        format!("  • #{:<12} {:<12} {:<6} {:>6} {:<8} (entered {})\n", 1, "Working", "-", "-", "-", "2024-02-29 12:00:00")
    );
}

#[test]
fn closed_orders_are_not_listed() {
    let closed = [
        "Filled", "Cancelled", "Canceled", "Expired", "Rejected", "Executed", "Complete",
        "Completed",
    ];
    let orders: Vec<RecentOrder> = closed.iter().map(|s| order(1, s, None, ONE_LEG)).collect();
    let mut b = schwab_bot_of_one();
    b.symbols_config = Vec::new();
    let text = b.generate_status_report(
        "T",
        &vec![balances(&[1.0, 2.0, 3.0])],
        &vec![no_positions()],
        &vec![OrdersReply::Fetched(orders)],
    );
    assert_eq!(
        text,
        "📊 Schwab Bot - T\n\nBalance Summary:\nAccount ABCD…IJKL:\nAvailable Funds: $1.00\n\
         Buying Power:    $2.00\nEquity:          $3.00\n\n\
         Positions for account ABCD…IJKL:\n(No Open Positions)\n\n\
         Open Orders (last 24h):\nAccount ABCD…IJKL:\n  (no open orders)\n\
         \u{20} (no open orders found in the past 24 hours)\n\n"
    );
    assert_eq!(b.account_balances.get("ABCDEFGHIJKL"), Some(&d(3.0)));
    assert_eq!(b.positions.get("ABCDEFGHIJKL").unwrap().len(), 0);
}

#[test]
fn failures_are_reported_and_change_nothing() {
    let mut b = schwab_bot_of_one();
    b.symbols_config = Vec::new();
    b.account_balances.set("ABCDEFGHIJKL".to_string(), d(7.0));
    let text = b.generate_status_report(
        "T",
        &vec![AccountBalance::Schwab(Err("b".to_string()))],
        &vec![AccountPositions::Schwab(Err("p".to_string()))],
        &vec![OrdersReply::FetchFailed("f".to_string())],
    );
    assert_eq!(
        text,
        "📊 Schwab Bot - T\n\nBalance Summary:\nAccount ABCD…IJKL:\n\
         ⚠️ Unable to fetch balances: b\n\n\
         Positions for account ABCD…IJKL:\n  ⚠️ Unable to fetch positions: p\n\n\
         Open Orders (last 24h):\nAccount ABCD…IJKL:\n  ⚠️ Unable to fetch orders: f\n\
         \u{20} (no open orders found in the past 24 hours)\n\n"
    );
    assert_eq!(b.account_balances.get("ABCDEFGHIJKL"), Some(&d(7.0)));
    assert_eq!(b.positions.len(), 0);
    let text = b.generate_status_report(
        "T",
        &vec![balances(&[4.0])],
        &vec![AccountPositions::Schwab(Err("p".to_string()))],
        &vec![OrdersReply::RequestFailed("r".to_string())],
    );
    assert!(text.contains("⚠️ Received unexpected balance payload from Schwab.\n\n"));
    assert!(text.contains("Account ABCD…IJKL:\n  ⚠️ Unable to request orders: r\n"));
    assert_eq!(b.account_balances.get("ABCDEFGHIJKL"), Some(&d(4.0)));
}

#[test]
fn accounts_at_ibkr_are_reported_through_their_client() {
    let mut b =
        TradingBot::new(vec![symbol("AAPL", Some("ibkr"), "DU1")], None, None, None).unwrap();
    b.has_api = false;
    let gone = vec![AccountPositions::Ibkr(Err("gone".to_string()))];
    let failed = b.generate_status_report("T", &vec![], &gone, &vec![]);
    assert_eq!(
        failed,
        "📊 Schwab Bot - T\n\nBalance Summary:\n  ⚠️ Schwab API client not initialized.\n\n\
         Positions for account DU1:\n  ⚠️ Unable to fetch IBKR positions: gone\n\n\
         Open Orders:\n  ⚠️ Schwab API client not initialized.\n\n\
         Tracked Symbols (regular session):\n\
         Symbol   Signal  Last    %Chg    Volume        Avg 10D Vol\n\
         -------- ------ -------- ------- ------------ -------------\n\
         AAPL       HOLD        -       -            -             -\n"
    );
    b.has_ib_client = false;
    let list = vec![AccountPositions::Ibkr(Ok(vec![position("AAPL", 1.0, None)]))];
    let unreachable = b.generate_status_report("T", &vec![], &list, &vec![]);
    assert!(unreachable.contains(
        "Positions for account DU1:\n  ⚠️ IBKR client not connected (missing environment \
         variables)\n\n"
    ));
    assert_eq!(b.positions.len(), 0);
}

#[test]
fn each_symbol_is_tracked_where_it_is_first_configured() {
    let mut second = symbol("VTI", None, "B");
    second.exit_threshold = d(-50.0);
    let mut b =
        TradingBot::new(vec![symbol("VTI", None, "A"), second], None, None, None).unwrap();
    b.real_time_prices.set(
        "VTI".to_string(),
        RealTimeQuote { percent_change: Some(d(0.0)), ..Default::default() },
    );
    let text = b.generate_status_report(
        "T",
        &vec![balances(&[]), balances(&[])],
        &vec![no_positions(), no_positions()],
        &vec![OrdersReply::Fetched(vec![]), OrdersReply::Fetched(vec![order(1, "New", None, "{}")])],
    );
    assert!(text.ends_with(
        "-------------\nVTI        HOLD        -  +0.00%            -             -\n"
    ));
    assert!(!text.contains("no open orders found"));
    assert!(text.contains("Account A:\n  (no open orders)\nAccount B:\n  • #1"));
}

#[test]
fn a_report_keeps_quotes_and_order_history() {
    let mut b = schwab_bot_of_one();
    let quote = RealTimeQuote { last_price: Some(d(7.0)), ..Default::default() };
    b.real_time_prices.set("VTI".to_string(), quote);
    b.order_history.set("VTI".to_string(), UtcTime::new(0, 0).unwrap());
    b.generate_status_report(
        "T",
        &vec![balances(&[1.0, 2.0])],
        &vec![AccountPositions::Schwab(Ok(vec![position(
            "VTI",
            1.0,
            Some((1.0, 99.0, 1.0, 1.0)),
        )]))],
        &vec![OrdersReply::Fetched(vec![])],
    );
    assert_eq!(b.real_time_prices.get("VTI").unwrap().last_price, Some(d(7.0)));
    assert_eq!(b.order_history.len(), 1);
    assert_eq!(b.account_hashes, vec!["ABCDEFGHIJKL"]);
}

#[test]
fn an_order_with_a_price_and_one_leg_is_shown_whole() {
    let fields = OrderFields {
        legs: 1,
        symbol: Some("VTI".to_string()),
        instruction: Some("BUY".to_string()),
        quantity: Some(d(3.0)),
        price: Some(d(10.5)),
    };
    assert_eq!(
        describe_order(&order(17, "Working", Some("waiting"), ONE_LEG), &fields),
        "  • #17           Working      BUY         3 VTI      @ $10.50 \
         (entered 2024-02-29 12:00:00) - waiting\n"
    );
}

#[test]
fn accounts_at_ibkr_show_the_balance_from_there() {
    let symbols = vec![
        symbol("VTI", None, "A"),
        symbol("AAPL", Some("ibkr"), "DU1"),
        symbol("F", None, "DU1"),
    ];
    let mut b = TradingBot::new(symbols, None, None, None).unwrap();
    b.account_balances.set("DU1".to_string(), d(1.0));
    let text = b.generate_status_report(
        "T",
        &vec![balances(&[1.0, 2.0]), AccountBalance::Ibkr(Ok(d(1234.5)))],
        &vec![no_positions(), AccountPositions::Ibkr(Ok(Vec::new()))],
        &vec![OrdersReply::Fetched(vec![]), OrdersReply::Fetched(vec![])],
    );
    assert!(text.starts_with(
        "📊 Schwab Bot - T\n\nBalance Summary:\nAccount A:\nCash Available for Trading: $1.00\n\
         Liquidation Value:           $2.00\n\nAccount DU1:\nIBKR Balance:    $1234.50\n\n\
         Positions for account A:\n"
    ));
    assert_eq!(b.account_balances.get("A"), Some(&d(2.0)));
    assert_eq!(b.account_balances.get("DU1"), Some(&d(1234.5)));
    b.generate_status_report(
        "T",
        &vec![balances(&[1.0, 2.0]), balances(&[7.0, 8.0])],
        &vec![no_positions(), AccountPositions::Ibkr(Ok(Vec::new()))],
        &vec![OrdersReply::Fetched(vec![]), OrdersReply::Fetched(vec![])],
    );
    assert!(b.account_balances.get("DU1").is_none());
}

#[test]
fn only_the_broker_of_an_account_speaks_of_its_balances() {
    let down = || Err("down".to_string());
    assert_eq!(
        describe_balances(true, &AccountBalance::Ibkr(down())),
        "⚠️ Unable to fetch IBKR balance: down\n"
    );
    assert_eq!(
        describe_balances(false, &AccountBalance::Schwab(Err("down".to_string()))),
        "⚠️ Unable to fetch balances: down\n"
    );
    let silent = "⚠️ No answer from the broker of the account.\n";
    assert_eq!(describe_balances(true, &balances(&[1.0, 2.0])), silent);
    assert_eq!(describe_balances(false, &AccountBalance::Ibkr(Ok(d(1.0)))), silent);
}

#[test]
fn only_the_broker_of_an_account_speaks_of_its_positions() {
    let symbols = vec![symbol("VTI", None, "A"), symbol("AAPL", Some("ibkr"), "DU1")];
    let mut b = TradingBot::new(symbols, None, None, None).unwrap();
    let own = vec![
        AccountPositions::Schwab(Ok(vec![position("VTI", 2.0, None)])),
        AccountPositions::Ibkr(Ok(vec![position("AAPL", 3.0, None)])),
    ];
    let balances = vec![balances(&[1.0, 2.0]), AccountBalance::Ibkr(Ok(d(1.0)))];
    let orders = vec![OrdersReply::Fetched(vec![]), OrdersReply::Fetched(vec![])];
    b.generate_status_report("T", &balances, &own, &orders);
    let other = vec![
        AccountPositions::Ibkr(Ok(vec![position("VTI", 7.0, None)])),
        AccountPositions::Schwab(Ok(vec![position("AAPL", 8.0, None)])),
    ];
    let text = b.generate_status_report("T", &balances, &other, &orders);
    assert!(text.contains(
        "Positions for account A:\n  ⚠️ No answer from the broker of the account.\n\n\
         Positions for account DU1:\n  ⚠️ No answer from the broker of the account.\n\n"
    ));
    assert_eq!(b.positions.get("A").unwrap().get("VTI"), Some(&d(2.0)));
    assert_eq!(b.positions.get("DU1").unwrap().get("AAPL"), Some(&d(3.0)));
}
