use schwab_bot::decimal::Decimal;
use schwab_bot::table::Table;

fn table(entries: &[(&str, i64)]) -> Table<Decimal> {
    let mut t: Table<Decimal> = Table::new();
    for (key, n) in entries {
        t.set(key.to_string(), Decimal::from_units(*n));
    }
    t
}

#[test]
fn a_table_gives_back_what_was_put() {
    let t = table(&[("a", 1), ("b", 2)]);
    assert_eq!(t.get("a").unwrap().units, 1);
    assert_eq!(t.get("b").unwrap().units, 2);
    assert!(t.get("c").is_none());
    assert!(t.get("A").is_none());
}

#[test]
fn putting_again_replaces_the_value_and_keeps_the_place() {
    let t = table(&[("a", 1), ("b", 2), ("a", 3)]);
    assert_eq!(t.len(), 2);
    assert_eq!(t.key_at(0), "a");
    assert_eq!(t.value_at(0).units, 3);
    assert_eq!(t.key_at(1), "b");
    assert_eq!(t.value_at(1).units, 2);
}

#[test]
fn an_empty_table_holds_nothing() {
    let t = table(&[]);
    assert_eq!(t.len(), 0);
    assert!(t.get("").is_none());
}
