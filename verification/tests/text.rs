use schwab_bot::text::{account_label, has_label};

#[test]
fn long_accounts_are_shortened() {
    assert_eq!(account_label("ABCDEFGHIJKL"), "ABCD…IJKL");
}

#[test]
fn short_accounts_are_kept() {
    assert_eq!(account_label("DUH84268"), "DUH84268");
}

#[test]
fn labels_cut_between_characters_only() {
    assert!(has_label("ABCDEFGHIJKL"));
    assert!(has_label("short"));
    assert!(has_label("ééééé"));
    assert!(!has_label("aaaééééé"));
    assert_eq!(account_label("ééééé"), "éé…éé");
    assert_eq!(account_label("123456789"), "1234…6789");
}
