use schwab_bot::bot::TradingBot;
use schwab_bot::decimal::Decimal;
use schwab_bot::models::{RealTimeQuote, Symbol};
use schwab_bot::table::Table;

fn d(x: f64) -> Decimal {
    Decimal::from_binary64(x.to_bits()).unwrap()
}

fn symbol(name: &str) -> Symbol {
    Symbol {
        symbol: name.to_string(),
        api: None,
        account_hash: "ABCDEFGHIJKL".to_string(),
        entry_amount: d(1000.0),
        exit_amount: d(1000.0),
        entry_threshold: d(-2.0),
        exit_threshold: d(2.0),
    }
}

#[test]
fn a_fresh_bot_knows_nothing() {
    let b = TradingBot::new(vec![symbol("VTI")], None, None, None).unwrap();
    assert_eq!(
        b.get_status(),
        "Schwab Trading Bot Status:\n\nAccount Balances:\n  (not available)\n\nPositions:\n\
         \u{20} (no cached positions)\n\nTracked Symbols:\n  VTI: - (-)\n"
    );
}

#[test]
fn a_status_shows_what_is_known() {
    let symbols = vec![symbol("VTI"), symbol("F"), symbol("VTI")];
    let mut b = TradingBot::new(symbols, None, None, None).unwrap();
    b.account_balances.set("ABCDEFGHIJKL".to_string(), d(1234.567));
    b.account_balances.set("DU1".to_string(), d(-1.0));
    let mut held = Table::new();
    held.set("VTI".to_string(), d(1.5));
    held.set("GE".to_string(), d(-2.0));
    b.positions.set("ABCDEFGHIJKL".to_string(), held);
    b.positions.set("DU1".to_string(), Table::new());
    b.real_time_prices.set(
        "VTI".to_string(),
        RealTimeQuote {
            last_price: Some(d(201.25)),
            percent_change: Some(d(1.5)),
            ..Default::default()
        },
    );
    let expected = [
        "Schwab Trading Bot Status:\n\n",
        "Account Balances:\n",
        "  ABCD…IJKL: $1234.57\n",
        "  DU1: $-1.00\n\n",
        "Positions:\n",
        "  Account ABCD…IJKL:\n",
        "    VTI: 1.5000 units @ $201.25\n",
        "    GE: -2.0000 units @ $0.00\n",
        "  Account DU1:\n",
        "    (no open positions)\n",
        "\nTracked Symbols:\n",
        "  VTI: $201.25 (+1.50%)\n",
        "  F: - (-)\n",
    ]
    .concat();
    assert_eq!(b.get_status(), expected);
}
