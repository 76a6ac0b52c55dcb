use schwab_bot::bot::TradingBot;
use schwab_bot::decimal::Decimal;
use schwab_bot::models::RealTimeQuote;
use schwab_bot::risk::{BalanceReply, Instruction, RiskError, RiskStep};
use schwab_bot::table::Table;

const ACCOUNT: &str = "ACC";

fn d(x: f64) -> Decimal {
    Decimal::from_binary64(x.to_bits()).unwrap()
}

/// A bot with a portfolio value, a holding and a last price in `VTI`, where they are given.
fn bot(value: Option<f64>, held: Option<f64>, last: Option<f64>) -> TradingBot {
    let mut account_balances = Table::new();
    if let Some(v) = value {
        account_balances.set(ACCOUNT.to_string(), d(v));
    }
    let mut positions = Table::new();
    if let Some(q) = held {
        let mut account = Table::new();
        account.set("VTI".to_string(), d(q));
        positions.set(ACCOUNT.to_string(), account);
    }
    let mut real_time_prices = Table::new();
    if let Some(p) = last {
        let quote = RealTimeQuote { last_price: Some(d(p)), ..Default::default() };
        real_time_prices.set("VTI".to_string(), quote);
    }
    TradingBot {
        has_api: true,
        has_ib_client: false,
        account_hashes: vec![ACCOUNT.to_string()],
        symbols_config: Vec::new(),
        positions,
        real_time_prices,
        account_balances,
        order_history: Table::new(),
    }
}

fn check(
    bot: &TradingBot,
    instruction: Instruction,
    qty: f64,
    price: f64,
    reply: Option<BalanceReply>,
) -> RiskStep {
    bot.evaluate_order_risks(ACCOUNT, "VTI", instruction, d(qty), d(price), &reply)
}

fn balances(values: &[f64]) -> Option<BalanceReply> {
    Some(Ok(values.iter().map(|v| d(*v)).collect()))
}

fn refusal(step: RiskStep) -> RiskError {
    match step {
        RiskStep::Refused(e) => e,
        RiskStep::Passed => panic!("passed"),
        RiskStep::NeedBalances => panic!("asks for balances"),
    }
}

#[test]
fn a_buy_asks_for_balances_first() {
    let b = bot(Some(100_000.0), None, Some(100.0));
    assert!(matches!(check(&b, Instruction::Buy, 5.0, 100.0, None), RiskStep::NeedBalances));
}

#[test]
fn a_sell_with_a_known_portfolio_needs_no_balances() {
    let b = bot(Some(100_000.0), Some(5.0), Some(100.0));
    assert!(matches!(check(&b, Instruction::Sell, 5.0, 100.0, None), RiskStep::Passed));
    let unknown = bot(None, Some(5.0), Some(100.0));
    assert!(matches!(
        check(&unknown, Instruction::Sell, 5.0, 100.0, None),
        RiskStep::NeedBalances
    ));
    assert!(matches!(
        check(&unknown, Instruction::Sell, 5.0, 100.0, balances(&[1.0, 50_000.0])),
        RiskStep::Passed
    ));
}

#[test]
fn a_sound_buy_passes() {
    let b = bot(Some(100_000.0), Some(5.0), Some(100.0));
    assert!(matches!(
        check(&b, Instruction::Buy, 5.0, 100.0, balances(&[500.0, 1.0])),
        RiskStep::Passed
    ));
}

#[test]
fn a_smaller_buy_passes_too() {
    let b = bot(Some(100_000.0), Some(5.0), Some(100.0));
    for qty in [5.0, 4.0, 1.0, 0.1] {
        assert!(matches!(
            check(&b, Instruction::Buy, qty, 100.0, balances(&[500.0, 1.0])),
            RiskStep::Passed
        ));
    }
}

#[test]
fn a_buy_fails_where_balances_cannot_be_had() {
    let b = bot(Some(100_000.0), None, None);
    let e = refusal(check(&b, Instruction::Buy, 5.0, 100.0, Some(Err("timeout".to_string()))));
    assert!(matches!(e, RiskError::BuyBalances { .. }));
    assert_eq!(e.message(), "Unable to fetch balances for BUY risk check: timeout");
}

#[test]
fn a_buy_needs_cash() {
    let b = bot(Some(100_000.0), None, None);
    let e = refusal(check(&b, Instruction::Buy, 5.5, 100.0, balances(&[549.99, 100_000.0])));
    assert!(matches!(e, RiskError::InsufficientCash { .. }));
    assert_eq!(
        e.message(),
        "Insufficient cash to buy 5.5 shares of VTI for $550.00; available $549.99"
    );
    let none = refusal(check(&b, Instruction::Buy, 5.0, 100.0, balances(&[])));
    assert_eq!(
        none.message(),
        "Insufficient cash to buy 5 shares of VTI for $500.00; available $0.00"
    );
    assert!(matches!(
        check(&b, Instruction::Buy, 5.5, 100.0, balances(&[550.0])),
        RiskStep::Passed
    ));
}

#[test]
fn a_sell_without_a_portfolio_fails_where_balances_cannot_be_had() {
    let b = bot(None, Some(5.0), None);
    let e = refusal(check(&b, Instruction::Sell, 5.0, 100.0, Some(Err("down".to_string()))));
    assert!(matches!(e, RiskError::RefreshBalances { .. }));
    assert_eq!(e.message(), "Unable to refresh balances for risk check: down");
}

#[test]
fn the_portfolio_value_must_be_known() {
    let b = bot(Some(0.0), Some(5.0), None);
    let e = refusal(check(&b, Instruction::Sell, 5.0, 100.0, balances(&[10.0, 0.0])));
    assert!(matches!(e, RiskError::NoPortfolioValue));
    assert_eq!(e.message(), "Unable to determine portfolio value for risk checks");
    let empty = refusal(check(&b, Instruction::Sell, 5.0, 100.0, balances(&[])));
    assert!(matches!(empty, RiskError::NoPortfolioValue));
    assert!(matches!(
        check(&b, Instruction::Sell, 5.0, 100.0, balances(&[10.0])),
        RiskStep::Passed
    ));
}

#[test]
fn only_what_is_held_can_be_sold() {
    for held in [None, Some(0.0), Some(-3.0)] {
        let b = bot(Some(100_000.0), held, None);
        let e = refusal(check(&b, Instruction::Sell, 1.0, 100.0, None));
        assert!(matches!(e, RiskError::NoLongPosition { .. }));
        assert_eq!(
            e.message(),
            format!(
                "Cannot sell VTI when no long position exists (current qty: {:.2})",
                held.unwrap_or(0.0)
            )
        );
    }
    let b = bot(Some(100_000.0), Some(4.0), None);
    let e = refusal(check(&b, Instruction::Sell, 5.0, 100.0, None));
    assert!(matches!(e, RiskError::SellExceedsHeld { .. }));
    assert_eq!(e.message(), "Sell quantity 5.00 exceeds held amount 4.00 for VTI");
}

#[test]
fn a_sell_may_exceed_the_holding_by_a_millionth() {
    let b = bot(Some(100_000.0), Some(4.0), None);
    assert!(matches!(check(&b, Instruction::Sell, 4.000001, 100.0, None), RiskStep::Passed));
    assert!(matches!(check(&b, Instruction::Sell, 4.0000011, 100.0, None), RiskStep::Refused(_)));
}

#[test]
fn a_position_stays_within_one_hundredth_of_the_portfolio() {
    let b = bot(Some(100_000.0), Some(6.0), Some(100.0));
    let e = refusal(check(&b, Instruction::Buy, 5.0, 100.0, balances(&[10_000.0])));
    assert!(matches!(e, RiskError::OverCap { .. }));
    assert_eq!(
        e.message(),
        "Order would raise VTI exposure to $1100.00, > 1% cap ($1000.00) on portfolio $100000.00"
    );
    assert!(matches!(
        check(&b, Instruction::Buy, 4.0, 100.0, balances(&[10_000.0])),
        RiskStep::Passed
    ));
}

#[test]
fn a_short_position_does_not_offset_the_cap() {
    let b = bot(Some(100_000.0), Some(-50.0), Some(100.0));
    assert!(matches!(
        check(&b, Instruction::Buy, 10.0, 100.0, balances(&[10_000.0])),
        RiskStep::Passed
    ));
    assert!(matches!(
        check(&b, Instruction::Buy, 11.0, 100.0, balances(&[10_000.0])),
        RiskStep::Refused(RiskError::OverCap { .. })
    ));
}

#[test]
fn the_limit_price_stays_within_a_fifth_of_the_last_price() {
    let b = bot(Some(100_000.0), Some(5.0), Some(100.0));
    assert!(matches!(check(&b, Instruction::Sell, 1.0, 120.0, None), RiskStep::Passed));
    assert!(matches!(check(&b, Instruction::Sell, 1.0, 80.0, None), RiskStep::Passed));
    let e = refusal(check(&b, Instruction::Sell, 1.0, 125.5, None));
    assert!(matches!(e, RiskError::PriceDeviates { .. }));
    assert_eq!(e.message(), "Limit price $125.50 deviates 25.5% from last price $100.00");
    let below = refusal(check(&b, Instruction::Sell, 1.0, 79.99, None));
    assert_eq!(below.message(), "Limit price $79.99 deviates 20.0% from last price $100.00");
    let odd = bot(Some(100_000.0), Some(5.0), Some(0.0));
    assert!(matches!(check(&odd, Instruction::Sell, 1.0, 125.5, None), RiskStep::Passed));
}

#[test]
fn an_order_is_worth_ten_dollars_at_least() {
    let b = bot(Some(100_000.0), Some(5.0), None);
    let e = refusal(check(&b, Instruction::Sell, 1.0, 9.99, None));
    assert!(matches!(e, RiskError::TooSmall { .. }));
    assert_eq!(e.message(), "Order notional $9.99 is below the minimum trade size threshold");
    assert!(matches!(check(&b, Instruction::Sell, 1.0, 10.0, None), RiskStep::Passed));
}

#[test]
fn cash_is_checked_before_the_cap_and_the_cap_before_the_price() {
    let b = bot(Some(1_000.0), None, Some(10.0));
    let poor = refusal(check(&b, Instruction::Buy, 5.0, 100.0, balances(&[0.0])));
    assert!(matches!(poor, RiskError::InsufficientCash { .. }));
    let big = refusal(check(&b, Instruction::Buy, 5.0, 100.0, balances(&[10_000.0])));
    assert!(matches!(big, RiskError::OverCap { .. }));
    let off = refusal(check(&b, Instruction::Buy, 0.09, 100.0, balances(&[10_000.0])));
    assert!(matches!(off, RiskError::PriceDeviates { .. }));
}
