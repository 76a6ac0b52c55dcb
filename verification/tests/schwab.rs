use schwab_bot::clock::UtcTime;
use schwab_bot::decimal::Decimal;
use schwab_bot::schwab::{
    fetch_positions_schwab, fetch_schwab_orders_raw, get_balance_schwab, net_position,
    note_entered_order, orders_url, populate_order_history_from_schwab, positions_url,
    summarize_position, AccountSnapshot, FetchError, PositionEntry, RecentOrders,
};
use schwab_bot::table::Table;

// 2024-02-29T12:00:00Z
const NOON: i64 = 1_709_208_000;

fn d(x: f64) -> Decimal {
    Decimal::from_binary64(x.to_bits()).unwrap()
}

fn now() -> UtcTime {
    UtcTime::new(NOON, 0).unwrap()
}

const POSITIONS: &str = r#"{"securitiesAccount": {"positions": [
    {"instrument": {"symbol": "VTI", "description": "Total market", "assetType": "ETF"},
     "longQuantity": 12.5, "shortQuantity": 0, "averagePrice": 201.25, "marketValue": 2600,
     "currentDayCost": -3.5, "longOpenProfitLoss": 84.375},
    {"instrument": {"symbol": "F"}, "shortQuantity": 4},
    {"longQuantity": 1},
    {"instrument": "GE", "longQuantity": 2, "shortQuantity": 2},
    {"instrument": {"symbol": 7}, "longQuantity": "many", "shortQuantity": -1}
]}}"#;

#[test]
fn positions_are_read_from_the_answer() {
    let list = fetch_positions_schwab(true, "200 OK", POSITIONS).unwrap();
    assert_eq!(list.len(), 5);
    assert_eq!(list[0].symbol, "VTI");
    assert_eq!(list[0].description.as_deref(), Some("Total market"));
    assert_eq!(list[0].asset_type.as_deref(), Some("ETF"));
    assert_eq!(list[0].quantity, d(12.5));
    assert!(!list[0].is_short);
    assert_eq!(list[0].average_price, Some(d(201.25)));
    assert_eq!(list[0].market_value, Some(d(2600.0)));
    assert_eq!(list[0].cost_basis, Some(d(-3.5)));
    assert_eq!(list[0].profit_loss, Some(d(84.375)));
    assert_eq!(list[1].symbol, "F");
    assert_eq!(list[1].quantity, d(-4.0));
    assert!(list[1].is_short);
    assert!(list[1].description.is_none());
    assert!(list[1].average_price.is_none());
    assert_eq!(list[2].symbol, "UNKNOWN");
    assert_eq!(list[2].quantity, d(1.0));
    assert_eq!(list[3].symbol, "UNKNOWN");
    assert_eq!(list[3].quantity, d(-2.0));
    assert!(list[3].is_short);
    assert_eq!(list[4].symbol, "UNKNOWN");
    assert_eq!(list[4].quantity, d(0.0));
    assert!(!list[4].is_short);
}

#[test]
fn an_answer_without_positions_lists_none() {
    for body in ["{}", "[]", "null", r#"{"securitiesAccount": {"positions": {}}}"#] {
        assert!(fetch_positions_schwab(true, "200 OK", body).unwrap().is_empty());
    }
}

#[test]
fn a_failed_request_for_positions_says_so() {
    let e = fetch_positions_schwab(false, "401 Unauthorized", "{}").unwrap_err();
    assert!(matches!(e, FetchError::PositionsStatus { .. }));
    assert_eq!(e.message(), "Failed to fetch positions: 401 Unauthorized - {}");
}

#[test]
fn an_answer_that_is_no_json_says_what_is_wrong() {
    let e = fetch_positions_schwab(true, "200 OK", "{oops").unwrap_err();
    assert!(matches!(e, FetchError::Payload { .. }));
    let reason = serde_json::from_str::<serde_json::Value>("{oops").unwrap_err().to_string();
    assert_eq!(e.message(), reason);
}

#[test]
fn a_position_is_short_where_as_much_is_sold_as_held() {
    assert_eq!(net_position(Some(d(3.0)), Some(d(2.0))), (d(3.0), false));
    assert_eq!(net_position(Some(d(2.0)), Some(d(2.0))), (d(-2.0), true));
    assert_eq!(net_position(None, Some(d(2.0))), (d(-2.0), true));
    assert_eq!(net_position(None, None), (d(0.0), false));
    assert_eq!(net_position(Some(d(-1.0)), None), (d(-1.0), false));
}

#[test]
fn balances_depend_on_the_kind_of_account() {
    let cash = AccountSnapshot::Cash {
        cash_available_for_trading: d(10.0),
        liquidation_value: Some(d(20.0)),
    };
    assert_eq!(get_balance_schwab(&cash), vec![d(10.0), d(20.0)]);
    let unknown = AccountSnapshot::Cash {
        cash_available_for_trading: d(10.0),
        liquidation_value: None,
    };
    assert_eq!(get_balance_schwab(&unknown), vec![d(10.0), d(0.0)]);
    let margin = AccountSnapshot::Margin {
        available_funds: d(1.0),
        buying_power: d(2.0),
        equity: d(3.0),
    };
    assert_eq!(get_balance_schwab(&margin), vec![d(1.0), d(2.0), d(3.0)]);
    assert!(get_balance_schwab(&AccountSnapshot::NoBalances).is_empty());
}

#[test]
fn addresses_name_the_account() {
    assert_eq!(
        positions_url("ABC"),
        "https://api.schwabapi.com/trader/v1/accounts/ABC?fields=positions"
    );
    assert_eq!(
        orders_url("ABC", now().day_earlier().unwrap(), now()),
        "https://api.schwabapi.com/trader/v1/accounts/ABC/orders?fromDate=2024-02-28T12:00:00+00:00\
         &toDate=2024-02-29T12:00:00+00:00"
    );
}

const ORDERS: &str = r#"[
    {"orderLegCollection": [{"instrument": {"symbol": "VTI"}}, {"instrument": {"symbol": "F"}}]},
    {"orderLegCollection": [{"instrument": {}}, {"quantity": 1}, 5]},
    {"orderLegCollection": "none"},
    7
]"#;

#[test]
fn the_symbols_of_all_legs_are_noted() {
    let found = fetch_schwab_orders_raw(true, "200 OK", ORDERS, now()).unwrap();
    assert_eq!(found.len(), 2);
    assert_eq!(found.get("VTI").unwrap().date(), "2024-02-29");
    assert!(found.get("F").is_some());
    assert_eq!(fetch_schwab_orders_raw(true, "200 OK", "{}", now()).unwrap().len(), 0);
}

#[test]
fn a_failed_request_for_orders_says_so() {
    let e = match fetch_schwab_orders_raw(false, "500 Internal Server Error", "[]", now()) {
        Err(e) => e,
        Ok(_) => panic!("no failure"),
    };
    assert!(matches!(e, FetchError::OrdersStatus { .. }));
    assert_eq!(e.message(), "Schwab raw orders request failed: 500 Internal Server Error");
    assert!(fetch_schwab_orders_raw(true, "200 OK", "", now()).is_err());
}

#[test]
fn the_history_gathers_the_orders_of_all_accounts() {
    let replies = vec![
        RecentOrders::Orders(vec![
            r#"{"orderLegCollection": [{"instrument": {"symbol": "GE"}}]}"#.to_string(),
            "not json".to_string(),
        ]),
        RecentOrders::Unknown,
        RecentOrders::Raw {
            success: true,
            status: "200 OK".to_string(),
            body: ORDERS.to_string(),
        },
        RecentOrders::Raw {
            success: false,
            status: "403 Forbidden".to_string(),
            body: r#"[{"orderLegCollection": [{"instrument": {"symbol": "T"}}]}]"#.to_string(),
        },
    ];
    let history = populate_order_history_from_schwab(&replies, now());
    assert_eq!(history.len(), 3);
    for name in ["GE", "VTI", "F"] {
        assert_eq!(history.get(name).unwrap().date(), "2024-02-29");
    }
}

#[test]
fn a_position_is_made_of_the_fields_of_its_entry() {
    let entry = PositionEntry {
        symbol: Some("VTI".to_string()),
        description: Some("Total market".to_string()),
        asset_type: None,
        long_quantity: Some(d(12.5)),
        short_quantity: None,
        average_price: Some(d(201.25)),
        market_value: Some(d(2600.0)),
        current_day_cost: Some(d(-3.5)),
        open_profit_loss: Some(d(84.375)),
    };
    let p = summarize_position(entry);
    assert_eq!(p.symbol, "VTI");
    assert_eq!(p.description.as_deref(), Some("Total market"));
    assert_eq!(p.asset_type, None);
    assert_eq!((p.quantity, p.is_short), (d(12.5), false));
    assert_eq!(p.average_price, Some(d(201.25)));
    assert_eq!(p.market_value, Some(d(2600.0)));
    assert_eq!(p.cost_basis, Some(d(-3.5)));
    assert_eq!(p.profit_loss, Some(d(84.375)));
    let bare = PositionEntry {
        symbol: None,
        description: None,
        asset_type: Some("ETF".to_string()),
        long_quantity: Some(d(1.0)),
        short_quantity: Some(d(2.0)),
        average_price: None,
        market_value: None,
        current_day_cost: None,
        open_profit_loss: None,
    };
    let p = summarize_position(bare);
    assert_eq!(p.symbol, "UNKNOWN");
    assert_eq!(p.asset_type.as_deref(), Some("ETF"));
    assert_eq!((p.quantity, p.is_short), (d(-2.0), true));
}

#[test]
fn orders_count_for_the_day_on_which_they_were_entered() {
    let body = r#"[
        {"enteredTime": "2024-02-28T20:30:00+0000",
         "orderLegCollection": [{"instrument": {"symbol": "VTI"}}]},
        {"enteredTime": "2024-02-29T10:00:00.000Z",
         "orderLegCollection": [{"instrument": {"symbol": "F"}}]},
        {"enteredTime": "2024-02-28T10:00:00+0000",
         "orderLegCollection": [{"instrument": {"symbol": "F"}}]},
        {"enteredTime": "some day",
         "orderLegCollection": [{"instrument": {"symbol": "GE"}}]},
        {"enteredTime": "2024-03-01T00:00:00Z",
         "orderLegCollection": [{"instrument": {"symbol": "C"}}]},
        {"enteredTime": 5, "orderLegCollection": [{"instrument": {"symbol": "T"}}]}
    ]"#;
    let found = fetch_schwab_orders_raw(true, "200 OK", body, now()).unwrap();
    assert_eq!(found.len(), 5);
    assert_eq!(found.get("C").unwrap().parts(), (NOON, 0));
    assert_eq!(found.get("VTI").unwrap().date(), "2024-02-28");
    assert_eq!(found.get("F").unwrap().parts(), (NOON - 7_200, 0));
    assert_eq!(found.get("GE").unwrap().parts(), (NOON, 0));
    assert_eq!(found.get("T").unwrap().parts(), (NOON, 0));
}

#[test]
fn the_latest_order_of_all_accounts_stands() {
    let early = r#"{"enteredTime": "2024-02-28T20:30:00+0000",
        "orderLegCollection": [{"instrument": {"symbol": "VTI"}}]}"#;
    let late = r#"{"enteredTime": "2024-02-29T01:00:00+0000",
        "orderLegCollection": [{"instrument": {"symbol": "VTI"}}]}"#;
    for (a, b) in [(early, late), (late, early)] {
        let replies = vec![
            RecentOrders::Orders(vec![a.to_string()]),
            RecentOrders::Raw {
                success: true,
                status: "200 OK".to_string(),
                body: format!("[{}]", b),
            },
        ];
        let history = populate_order_history_from_schwab(&replies, now());
        assert_eq!(history.len(), 1);
        assert_eq!(history.get("VTI").unwrap().date(), "2024-02-29");
    }
}

#[test]
fn legs_without_a_symbol_are_passed_over() {
    let mut history = Table::new();
    let symbols = vec![Some("VTI".to_string()), None, Some("F".to_string())];
    note_entered_order(&mut history, &symbols, now().day_earlier(), now());
    assert_eq!(history.len(), 2);
    assert_eq!(history.get("F").unwrap().date(), "2024-02-28");
    note_entered_order(&mut history, &vec![Some("F".to_string())], None, now());
    assert_eq!(history.get("F").unwrap().date(), "2024-02-29");
    assert_eq!(history.get("VTI").unwrap().date(), "2024-02-28");
    note_entered_order(&mut history, &vec![Some("F".to_string())], now().day_earlier(), now());
    assert_eq!(history.get("F").unwrap().date(), "2024-02-29");
}
