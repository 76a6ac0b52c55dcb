use schwab_bot::clock::UtcTime;
use schwab_bot::history::{note, note_all};
use schwab_bot::table::Table;

// 2024-02-29T12:00:00Z
const NOON: i64 = 1_709_208_000;

fn at(secs: i64) -> UtcTime {
    UtcTime::new(secs, 0).unwrap()
}

fn history(entries: &[(&str, i64)]) -> Table<UtcTime> {
    let mut t = Table::new();
    for (name, secs) in entries {
        note(&mut t, name.to_string(), at(*secs));
    }
    t
}

#[test]
fn of_two_orders_the_later_stands() {
    let t = history(&[("F", NOON), ("GE", NOON), ("F", NOON - 1), ("GE", NOON + 1)]);
    assert_eq!(t.len(), 2);
    assert_eq!(t.get("F").unwrap().parts(), (NOON, 0));
    assert_eq!(t.get("GE").unwrap().parts(), (NOON + 1, 0));
    assert!(t.get("T").is_none());
}

#[test]
fn a_merged_history_knows_what_both_knew() {
    let mut t = history(&[("F", NOON), ("GE", NOON)]);
    note_all(&mut t, &history(&[("F", NOON - 5), ("GE", NOON + 5), ("T", NOON)]));
    assert_eq!(t.len(), 3);
    assert_eq!(t.get("F").unwrap().parts(), (NOON, 0));
    assert_eq!(t.get("GE").unwrap().parts(), (NOON + 5, 0));
    assert_eq!(t.get("T").unwrap().parts(), (NOON, 0));
    note_all(&mut t, &Table::new());
    assert_eq!(t.len(), 3);
}
