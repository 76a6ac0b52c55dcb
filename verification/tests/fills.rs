use schwab_bot::bot::TradingBot;
use schwab_bot::clock::UtcTime;
use schwab_bot::decimal::Decimal;
use schwab_bot::fills::{after_order_event, filled_quantity, AuditLine, OrderEvent};
use schwab_bot::ibkr::FeedAction;
use schwab_bot::table::Table;

// 2024-02-29T12:00:00Z
const NOON: i64 = 1_709_208_000;

fn d(x: f64) -> Decimal {
    Decimal::from_binary64(x.to_bits()).unwrap()
}

fn now() -> UtcTime {
    UtcTime::new(NOON, 0).unwrap()
}

fn bot() -> TradingBot {
    let mut held = Table::new();
    held.set("AAPL".to_string(), d(10.0));
    held.set("F".to_string(), d(3.0));
    let mut positions = Table::new();
    positions.set("DU1".to_string(), held);
    TradingBot {
        has_api: true,
        has_ib_client: true,
        account_hashes: vec!["DU1".to_string()],
        symbols_config: Vec::new(),
        positions,
        real_time_prices: Table::new(),
        account_balances: Table::new(),
        order_history: Table::new(),
    }
}

fn execution(account: &str, side: &str, shares: f64) -> OrderEvent {
    OrderEvent::Execution {
        execution_id: "0001".to_string(),
        account_number: account.to_string(),
        symbol: "AAPL".to_string(),
        side: side.to_string(),
        shares: d(shares),
        price: d(187.25),
    }
}

fn held(bot: &TradingBot, account: &str, symbol: &str) -> Option<Decimal> {
    bot.positions.get(account).and_then(|t| t.get(symbol)).copied()
}

#[test]
fn a_filled_order_is_noted_at_its_time() {
    let mut b = bot();
    let event = OrderEvent::Status { status: "Filled".to_string() };
    assert!(b.apply_order_event("AAPL", "DU1", &event, now()).is_none());
    assert_eq!(b.order_history.get("AAPL").unwrap().date(), "2024-02-29");
}

#[test]
fn another_status_changes_nothing() {
    let mut b = bot();
    for status in ["Submitted", "filled", ""] {
        let event = OrderEvent::Status { status: status.to_string() };
        assert!(b.apply_order_event("AAPL", "DU1", &event, now()).is_none());
    }
    assert!(b.apply_order_event("AAPL", "DU1", &OrderEvent::Other, now()).is_none());
    assert_eq!(b.order_history.len(), 0);
    assert_eq!(held(&b, "DU1", "AAPL"), Some(d(10.0)));
}

#[test]
fn a_bought_execution_adds_shares_whatever_the_case_of_its_side() {
    for side in ["BUY", "buy", "BOT", "bot", "Bot"] {
        let mut b = bot();
        b.apply_order_event("AAPL", "DU1", &execution("", side, 2.5), now());
        assert_eq!(held(&b, "DU1", "AAPL"), Some(d(12.5)));
        assert_eq!(held(&b, "DU1", "F"), Some(d(3.0)));
    }
}

#[test]
fn any_other_side_takes_shares_away() {
    for side in ["SLD", "sell", "", "boß"] {
        let mut b = bot();
        b.apply_order_event("AAPL", "DU1", &execution("", side, 4.0), now());
        assert_eq!(held(&b, "DU1", "AAPL"), Some(d(6.0)));
    }
}

#[test]
fn opposite_executions_cancel() {
    let mut b = bot();
    b.apply_order_event("AAPL", "DU1", &execution("DU1", "BOT", 4.0), now());
    b.apply_order_event("AAPL", "DU1", &execution("DU1", "SLD", 4.0), now());
    assert_eq!(held(&b, "DU1", "AAPL"), Some(d(10.0)));
}

#[test]
fn an_execution_belongs_to_its_own_account() {
    let mut b = bot();
    b.apply_order_event("AAPL", "DU1", &execution("DU2", "BOT", 1.0), now());
    assert_eq!(held(&b, "DU1", "AAPL"), Some(d(10.0)));
    assert_eq!(held(&b, "DU2", "AAPL"), Some(d(1.0)));
    assert_eq!(b.positions.len(), 2);
}

#[test]
fn executions_are_written_down() {
    let mut b = bot();
    match b.apply_order_event("AAPL", "DU1", &execution("", "BOT", 2.5), now()) {
        Some(AuditLine::Execution(line)) => assert_eq!(
            line,
            "2024-02-29T12:00:00+00:00,0001,DU1,AAPL,BOT,2.5,187.25\n"
        ),
        _ => panic!("no execution line"),
    }
}

#[test]
fn commissions_are_written_down() {
    let mut b = bot();
    let event = OrderEvent::Commission {
        execution_id: "0001".to_string(),
        commission: d(1.0),
        currency: "USD".to_string(),
    };
    match b.apply_order_event("AAPL", "DU1", &event, now()) {
        Some(AuditLine::Commission(line)) => {
            assert_eq!(line, "2024-02-29T12:00:00+00:00,0001,1,USD\n")
        }
        _ => panic!("no commission line"),
    }
    assert_eq!(held(&b, "DU1", "AAPL"), Some(d(10.0)));
}

#[test]
fn quantities_follow_the_capital_letters_of_the_side() {
    assert_eq!(filled_quantity(d(1.0), d(2.0), "BUY"), d(3.0));
    assert_eq!(filled_quantity(d(1.0), d(2.0), "BOT"), d(3.0));
    assert_eq!(filled_quantity(d(1.0), d(2.0), "SLD"), d(-1.0));
}

#[test]
fn a_failure_ends_the_stream_and_changes_nothing() {
    let mut b = bot();
    let news = [
        execution("DU1", "BOT", 1.0),
        OrderEvent::Other,
        OrderEvent::Failed,
        execution("DU1", "BOT", 5.0),
    ];
    for event in &news {
        b.apply_order_event("AAPL", "DU1", event, now());
        if after_order_event(event) == FeedAction::Stop {
            break;
        }
    }
    assert_eq!(held(&b, "DU1", "AAPL"), Some(d(11.0)));
    assert_eq!(after_order_event(&OrderEvent::Failed), FeedAction::Stop);
    for event in [
        OrderEvent::Other,
        OrderEvent::Status { status: "Filled".to_string() },
        execution("", "SLD", 1.0),
    ] {
        assert_eq!(after_order_event(&event), FeedAction::Continue);
    }
    assert!(b.apply_order_event("AAPL", "DU1", &OrderEvent::Failed, now()).is_none());
    assert_eq!(b.order_history.len(), 0);
}
