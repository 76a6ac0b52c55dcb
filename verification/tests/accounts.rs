use schwab_bot::accounts::{configured_accounts, schwab_accounts};
use schwab_bot::decimal::Decimal;
use schwab_bot::models::Symbol;

fn symbol(name: &str, api: Option<&str>, account: &str) -> Symbol {
    Symbol {
        symbol: name.to_string(),
        api: api.map(|a| a.to_string()),
        account_hash: account.to_string(),
        entry_amount: Decimal::from_integer(1000),
        exit_amount: Decimal::from_integer(1000),
        entry_threshold: Decimal::from_integer(-2),
        exit_threshold: Decimal::from_integer(2),
    }
}

#[test]
fn accounts_are_listed_once_and_in_order() {
    let symbols = vec![
        symbol("VTI", None, "ZZ"),
        symbol("AAPL", Some("ibkr"), "DU1"),
        symbol("MSFT", None, "DU10"),
        symbol("F", None, "ZZ"),
    ];
    assert_eq!(configured_accounts(&symbols), vec!["DU1", "DU10", "ZZ"]);
    assert_eq!(schwab_accounts(&symbols), vec!["DU10", "ZZ"]);
}

#[test]
fn an_account_with_both_kinds_of_symbol_is_still_one_of_schwab() {
    let symbols = vec![symbol("VTI", Some("ibkr"), "A"), symbol("F", Some("schwab"), "A")];
    assert_eq!(schwab_accounts(&symbols), vec!["A"]);
}

#[test]
fn accounts_are_ordered_like_strings() {
    let names = ["b", "a", "é", "Z", "", "aa", "z"];
    let symbols: Vec<Symbol> = names.iter().map(|n| symbol("S", None, n)).collect();
    let mut expected: Vec<String> = names.iter().map(|n| n.to_string()).collect();
    expected.sort();
    assert_eq!(configured_accounts(&symbols), expected);
}

#[test]
fn no_symbols_name_no_accounts() {
    assert!(configured_accounts(&Vec::new()).is_empty());
}
