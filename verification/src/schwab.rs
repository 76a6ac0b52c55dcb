//! What Schwab answers.
use crate::clock::{entered_time, read_entered_time, time_told, told_time, UtcTime};
use crate::decimal::Decimal;
use crate::history::{
    knows_since, law_history_stays_in_the_past, law_later_time_is_noted,
    law_merged_history_knows_both, law_noted_order_is_known, lemma_noted_all_entry,
    lemma_noted_entry, lemma_noted_stays_in_the_past, none_after, note, note_all, noted, noted_all,
};
use crate::json::{
    field_of, json_parsed, json_tree, list_of, number_of, opt_field, opt_list, opt_number,
    opt_string, parse, string_of, JsonTree,
};
use crate::models::{position_views, PositionSummary, PositionView};
use crate::table::{find, lemma_find, lookup, Table};
use crate::text::{opt_text, texts};
use vstd::prelude::*;

verus! {

/// Why an answer was of no use.
#[derive(Debug)]
pub enum FetchError {
    PositionsStatus { status: String, body: String },
    OrdersStatus { status: String },
    Payload { reason: String },
}

pub enum FetchErrorView {
    PositionsStatus { status: Seq<char>, body: Seq<char> },
    OrdersStatus { status: Seq<char> },
    Payload { reason: Seq<char> },
}

impl View for FetchError {
    type V = FetchErrorView;

    open spec fn view(&self) -> FetchErrorView {
        match *self {
            FetchError::PositionsStatus { status, body } => FetchErrorView::PositionsStatus {
                status: status@,
                body: body@,
            },
            FetchError::OrdersStatus { status } => FetchErrorView::OrdersStatus {
                status: status@,
            },
            FetchError::Payload { reason } => FetchErrorView::Payload { reason: reason@ },
        }
    }
}

/// What is said of an answer that was of no use.
pub open spec fn fetch_message(e: FetchErrorView) -> Seq<char> {
    match e {
        FetchErrorView::PositionsStatus { status, body } => "Failed to fetch positions: "@ + status
            + " - "@ + body,
        FetchErrorView::OrdersStatus { status } => "Schwab raw orders request failed: "@ + status,
        FetchErrorView::Payload { reason } => reason,
    }
}

impl FetchError {
    /// What is said of the answer that was of no use.
    pub fn message(&self) -> (r: String)
        ensures
            r@ == fetch_message(self@),
    {
        let mut r: String = String::new();
        match self {
            FetchError::PositionsStatus { status, body } => {
                r.append("Failed to fetch positions: ");
                r.append(status.as_str());
                r.append(" - ");
                r.append(body.as_str());
            },
            FetchError::OrdersStatus { status } => {
                r.append("Schwab raw orders request failed: ");
                r.append(status.as_str());
            },
            FetchError::Payload { reason } => {
                r.append(reason.as_str());
            },
        }
        assert(r@ =~= fetch_message(self@));
        r
    }
}

/// The address of an account's positions.
pub fn positions_url(account_hash: &str) -> (r: String)
    ensures
        r@ == "https://api.schwabapi.com/trader/v1/accounts/"@ + account_hash@
            + "?fields=positions"@,
{
    let mut r: String = "https://api.schwabapi.com/trader/v1/accounts/".to_owned();
    r.append(account_hash);
    r.append("?fields=positions");
    r
}

/// The address of an account's orders in a span of time.
pub fn orders_url(account_hash: &str, start: UtcTime, end: UtcTime) -> (r: String)
    ensures
        r@ == "https://api.schwabapi.com/trader/v1/accounts/"@ + account_hash@
            + "/orders?fromDate="@ + start.stamp_text() + "&toDate="@ + end.stamp_text(),
{
    let mut r: String = "https://api.schwabapi.com/trader/v1/accounts/".to_owned();
    r.append(account_hash);
    r.append("/orders?fromDate=");
    r.append(start.stamp().as_str());
    r.append("&toDate=");
    r.append(end.stamp().as_str());
    r
}

pub open spec fn or_zero(n: Option<Decimal>) -> Decimal {
    match n {
        Some(d) => d,
        None => Decimal { units: 0 },
    }
}

/// Whether a position is short: any shares are sold short, and no fewer than are held.
pub open spec fn is_short(long: Decimal, short: Decimal) -> bool {
    short.units > 0 && short.units >= long.units
}

/// The quantity of a position, negative where it is short.
pub open spec fn signed_quantity(long: Decimal, short: Decimal) -> Decimal {
    if is_short(long, short) {
        Decimal { units: (-short.units) as i64 }
    } else {
        long
    }
}

/// What one entry of an answer tells of a position.
#[derive(Debug)]
pub struct PositionEntry {
    pub symbol: Option<String>,
    pub description: Option<String>,
    pub asset_type: Option<String>,
    pub long_quantity: Option<Decimal>,
    pub short_quantity: Option<Decimal>,
    pub average_price: Option<Decimal>,
    pub market_value: Option<Decimal>,
    pub current_day_cost: Option<Decimal>,
    pub open_profit_loss: Option<Decimal>,
}

pub struct PositionEntryView {
    pub symbol: Option<Seq<char>>,
    pub description: Option<Seq<char>>,
    pub asset_type: Option<Seq<char>>,
    pub long_quantity: Option<Decimal>,
    pub short_quantity: Option<Decimal>,
    pub average_price: Option<Decimal>,
    pub market_value: Option<Decimal>,
    pub current_day_cost: Option<Decimal>,
    pub open_profit_loss: Option<Decimal>,
}

impl View for PositionEntry {
    type V = PositionEntryView;

    open spec fn view(&self) -> PositionEntryView {
        PositionEntryView {
            symbol: opt_text(self.symbol),
            description: opt_text(self.description),
            asset_type: opt_text(self.asset_type),
            long_quantity: self.long_quantity,
            short_quantity: self.short_quantity,
            average_price: self.average_price,
            market_value: self.market_value,
            current_day_cost: self.current_day_cost,
            open_profit_loss: self.open_profit_loss,
        }
    }
}

/// The position that an entry stands for.
pub open spec fn entry_position(entry: PositionEntryView) -> PositionView {
    let long = or_zero(entry.long_quantity);
    let short = or_zero(entry.short_quantity);
    PositionView {
        symbol: match entry.symbol {
            Some(symbol) => symbol,
            None => "UNKNOWN"@,
        },
        description: entry.description,
        asset_type: entry.asset_type,
        quantity: signed_quantity(long, short),
        is_short: is_short(long, short),
        average_price: entry.average_price,
        market_value: entry.market_value,
        cost_basis: entry.current_day_cost,
        profit_loss: entry.open_profit_loss,
    }
}

/// What one entry of an answer tells of a position.
pub open spec fn entry_fields(entry: JsonTree) -> PositionEntryView {
    let instrument = opt_field(Some(entry), "instrument"@);
    PositionEntryView {
        symbol: opt_string(opt_field(instrument, "symbol"@)),
        description: opt_string(opt_field(instrument, "description"@)),
        asset_type: opt_string(opt_field(instrument, "assetType"@)),
        long_quantity: opt_number(opt_field(Some(entry), "longQuantity"@)),
        short_quantity: opt_number(opt_field(Some(entry), "shortQuantity"@)),
        average_price: opt_number(opt_field(Some(entry), "averagePrice"@)),
        market_value: opt_number(opt_field(Some(entry), "marketValue"@)),
        current_day_cost: opt_number(opt_field(Some(entry), "currentDayCost"@)),
        open_profit_loss: opt_number(opt_field(Some(entry), "longOpenProfitLoss"@)),
    }
}

/// The position that one entry of an answer stands for.
pub open spec fn position_of(entry: JsonTree) -> PositionView {
    entry_position(entry_fields(entry))
}

/// The positions that an answer lists.
pub open spec fn positions_of(payload: JsonTree) -> Seq<PositionView> {
    match opt_list(opt_field(opt_field(Some(payload), "securitiesAccount"@), "positions"@)) {
        Some(entries) => entries.map_values(|entry: JsonTree| position_of(entry)),
        None => Seq::empty(),
    }
}

/// The quantity of a position and whether it is short.
pub fn net_position(long: Option<Decimal>, short: Option<Decimal>) -> (r: (Decimal, bool))
    ensures
        r.0 == signed_quantity(or_zero(long), or_zero(short)),
        r.1 == is_short(or_zero(long), or_zero(short)),
{
    let long: Decimal = match long {
        Some(d) => d,
        None => Decimal::zero(),
    };
    let short: Decimal = match short {
        Some(d) => d,
        None => Decimal::zero(),
    };
    if short.units > 0 && short.units >= long.units {
        (Decimal::from_units(-short.units), true)
    } else {
        (long, false)
    }
}

/// The position that an entry stands for.
pub fn summarize_position(entry: PositionEntry) -> (r: PositionSummary)
    ensures
        r@ == entry_position(entry@),
{
    let (quantity, is_short) = net_position(entry.long_quantity, entry.short_quantity);
    PositionSummary {
        symbol: match entry.symbol {
            Some(symbol) => symbol,
            None => "UNKNOWN".to_owned(),
        },
        description: entry.description,
        asset_type: entry.asset_type,
        quantity,
        is_short,
        average_price: entry.average_price,
        market_value: entry.market_value,
        cost_basis: entry.current_day_cost,
        profit_loss: entry.open_profit_loss,
    }
}

fn read_position(entry: &serde_json::Value) -> (r: PositionSummary)
    ensures
        r@ == position_of(json_tree(*entry)),
{
    let entry: Option<&serde_json::Value> = Some(entry);
    let instrument: Option<&serde_json::Value> = field_of(entry, "instrument");
    summarize_position(
        PositionEntry {
            symbol: string_of(field_of(instrument, "symbol")),
            description: string_of(field_of(instrument, "description")),
            asset_type: string_of(field_of(instrument, "assetType")),
            long_quantity: number_of(field_of(entry, "longQuantity")),
            short_quantity: number_of(field_of(entry, "shortQuantity")),
            average_price: number_of(field_of(entry, "averagePrice")),
            market_value: number_of(field_of(entry, "marketValue")),
            current_day_cost: number_of(field_of(entry, "currentDayCost")),
            open_profit_loss: number_of(field_of(entry, "longOpenProfitLoss")),
        },
    )
}

/// The positions that an answer lists.
fn read_positions(payload: &serde_json::Value) -> (r: Vec<PositionSummary>)
    ensures
        position_views(r@) == positions_of(json_tree(*payload)),
{
    let mut r: Vec<PositionSummary> = Vec::new();
    let account: Option<&serde_json::Value> = field_of(Some(payload), "securitiesAccount");
    if let Some(entries) = list_of(field_of(account, "positions")) {
        let ghost trees = entries@.map_values(|v: serde_json::Value| json_tree(v));
        let ghost all = positions_of(json_tree(*payload));
        let n: usize = entries.len();
        let mut i: usize = 0;
        assert(position_views(r@) =~= all.take(0));
        while i < n
            invariant
                i <= n,
                n == entries@.len(),
                trees == entries@.map_values(|v: serde_json::Value| json_tree(v)),
                all == trees.map_values(|entry: JsonTree| position_of(entry)),
                position_views(r@) == all.take(i as int),
            decreases n - i,
        {
            let ghost before = r@;
            let position: PositionSummary = read_position(&entries[i]);
            r.push(position);
            assert(position_views(r@) =~= position_views(before).push(position@));
            i = i + 1;
            assert(all.take(i as int) =~= all.take(i - 1).push(all[i - 1]));
        }
        assert(all.take(n as int) =~= all);
    } else {
        assert(position_views(r@) =~= Seq::empty());
    }
    r
}

/// The positions in Schwab's answer to a request for them.
pub fn fetch_positions_schwab(success: bool, status: &str, body: &str) -> (r: Result<
    Vec<PositionSummary>,
    FetchError,
>)
    ensures
        !success ==> (r matches Err(e) && e@ == (FetchErrorView::PositionsStatus {
            status: status@,
            body: body@,
        })),
        success ==> match json_parsed(body@) {
            Ok(payload) => r matches Ok(list) && position_views(list@) == positions_of(payload),
            Err(reason) => r matches Err(e) && e@ == (FetchErrorView::Payload { reason }),
        },
{
    if !success {
        return Err(
            FetchError::PositionsStatus { status: status.to_owned(), body: body.to_owned() },
        );
    }
    match parse(body) {
        Ok(payload) => Ok(read_positions(&payload)),
        Err(reason) => Err(FetchError::Payload { reason }),
    }
}

/// What Schwab says of an account's balances.
#[derive(Clone, Copy, Debug)]
pub enum AccountSnapshot {
    Cash { cash_available_for_trading: Decimal, liquidation_value: Option<Decimal> },
    Margin { available_funds: Decimal, buying_power: Decimal, equity: Decimal },
    /// The answer holds no current balances.
    NoBalances,
}

/// The balances of an account: cash and liquidation value of a cash account; available funds,
/// buying power and equity of a margin account.
pub open spec fn balances_of(account: AccountSnapshot) -> Seq<Decimal> {
    match account {
        AccountSnapshot::Cash { cash_available_for_trading, liquidation_value } => seq![
            cash_available_for_trading,
            or_zero(liquidation_value),
        ],
        AccountSnapshot::Margin { available_funds, buying_power, equity } => seq![
            available_funds,
            buying_power,
            equity,
        ],
        AccountSnapshot::NoBalances => Seq::empty(),
    }
}

/// The balances in Schwab's answer to a request for an account.
pub fn get_balance_schwab(account: &AccountSnapshot) -> (r: Vec<Decimal>)
    ensures
        r@ == balances_of(*account),
{
    let mut r: Vec<Decimal> = Vec::new();
    match account {
        AccountSnapshot::Cash { cash_available_for_trading, liquidation_value } => {
            r.push(*cash_available_for_trading);
            r.push(
                match liquidation_value {
                    Some(value) => *value,
                    None => Decimal::zero(),
                },
            );
        },
        AccountSnapshot::Margin { available_funds, buying_power, equity } => {
            r.push(*available_funds);
            r.push(*buying_power);
            r.push(*equity);
        },
        AccountSnapshot::NoBalances => {},
    }
    assert(r@ =~= balances_of(*account));
    r
}

/// The symbol that a leg of an order is for.
pub open spec fn leg_symbol(leg: JsonTree) -> Option<Seq<char>> {
    opt_string(opt_field(opt_field(Some(leg), "instrument"@), "symbol"@))
}

/// The legs of an order.
pub open spec fn order_legs(order: JsonTree) -> Option<Seq<JsonTree>> {
    opt_list(opt_field(Some(order), "orderLegCollection"@))
}

/// The symbols of the legs of an order.
pub open spec fn leg_symbols(order: JsonTree) -> Seq<Option<Seq<char>>> {
    match order_legs(order) {
        Some(legs) => legs.map_values(|leg: JsonTree| leg_symbol(leg)),
        None => Seq::empty(),
    }
}

/// When an order was entered, if that is told.
pub open spec fn entered_at(order: JsonTree) -> Option<UtcTime> {
    match opt_string(opt_field(Some(order), "enteredTime"@)) {
        Some(text) => entered_time(text),
        None => None,
    }
}

/// The history with some symbols noted, as far as they are told.
pub open spec fn note_symbols(
    history: Seq<(Seq<char>, UtcTime)>,
    symbols: Seq<Option<Seq<char>>>,
    at: UtcTime,
) -> Seq<(Seq<char>, UtcTime)>
    decreases symbols.len(),
{
    if symbols.len() == 0 {
        history
    } else {
        let rest = note_symbols(history, symbols.drop_last(), at);
        match symbols.last() {
            Some(symbol) => noted(rest, symbol, at),
            None => rest,
        }
    }
}

/// The history with the symbols of an order noted at the time when it was entered, or now where
/// that is not told or lies ahead.
pub open spec fn note_order(
    history: Seq<(Seq<char>, UtcTime)>,
    order: JsonTree,
    now: UtcTime,
) -> Seq<(Seq<char>, UtcTime)> {
    note_symbols(history, leg_symbols(order), told_time(entered_at(order), now))
}

/// The history with the symbols of some orders noted.
pub open spec fn note_orders(
    history: Seq<(Seq<char>, UtcTime)>,
    orders: Seq<JsonTree>,
    now: UtcTime,
) -> Seq<(Seq<char>, UtcTime)>
    decreases orders.len(),
{
    if orders.len() == 0 {
        history
    } else {
        note_order(note_orders(history, orders.drop_last(), now), orders.last(), now)
    }
}

pub open spec fn opt_texts(list: Seq<Option<String>>) -> Seq<Option<Seq<char>>> {
    list.map_values(|s: Option<String>| opt_text(s))
}

/// Notes the symbols of an order's legs, as far as they are told, at the time when the order was
/// entered, or now where that is not told or lies ahead.
pub fn note_entered_order(
    history: &mut Table<UtcTime>,
    symbols: &Vec<Option<String>>,
    entered: Option<UtcTime>,
    now: UtcTime,
)
    ensures
        final(history)@ == note_symbols(
            old(history)@,
            opt_texts(symbols@),
            told_time(entered, now),
        ),
{
    let at: UtcTime = time_told(entered, now);
    let ghost all = opt_texts(symbols@);
    let n: usize = symbols.len();
    let mut i: usize = 0;
    while i < n
        invariant
            i <= n,
            n == symbols@.len(),
            all == opt_texts(symbols@),
            history@ == note_symbols(old(history)@, all.take(i as int), at),
        decreases n - i,
    {
        let ghost done = all.take(i + 1);
        assert(done.drop_last() =~= all.take(i as int));
        assert(done.last() == opt_text(symbols@[i as int]));
        if let Some(symbol) = &symbols[i] {
            note(history, symbol.clone(), at);
        }
        i = i + 1;
    }
    assert(all.take(n as int) =~= all);
}

fn record_order(history: &mut Table<UtcTime>, order: &serde_json::Value, now: UtcTime)
    ensures
        final(history)@ == note_order(old(history)@, json_tree(*order), now),
{
    let mut symbols: Vec<Option<String>> = Vec::new();
    let ghost all = leg_symbols(json_tree(*order));
    if let Some(legs) = list_of(field_of(Some(order), "orderLegCollection")) {
        let ghost trees = legs@.map_values(|v: serde_json::Value| json_tree(v));
        let n: usize = legs.len();
        let mut i: usize = 0;
        assert(opt_texts(symbols@) =~= all.take(0));
        while i < n
            invariant
                i <= n,
                n == legs@.len(),
                trees == legs@.map_values(|v: serde_json::Value| json_tree(v)),
                all == trees.map_values(|leg: JsonTree| leg_symbol(leg)),
                opt_texts(symbols@) == all.take(i as int),
            decreases n - i,
        {
            let ghost before = symbols@;
            let leg: Option<&serde_json::Value> = Some(&legs[i]);
            let symbol: Option<String> = string_of(
                field_of(field_of(leg, "instrument"), "symbol"),
            );
            symbols.push(symbol);
            assert(opt_texts(symbols@) =~= opt_texts(before).push(opt_text(symbol)));
            i = i + 1;
            assert(all.take(i as int) =~= all.take(i - 1).push(all[i - 1]));
        }
        assert(all.take(n as int) =~= all);
    } else {
        assert(opt_texts(symbols@) =~= all);
    }
    let entered: Option<UtcTime> = match string_of(field_of(Some(order), "enteredTime")) {
        Some(text) => read_entered_time(text.as_str()),
        None => None,
    };
    note_entered_order(history, &symbols, entered, now);
}

/// The symbols in the body of an answer that lists orders, as an order history.
pub open spec fn orders_in_body(body: JsonTree, now: UtcTime) -> Seq<(Seq<char>, UtcTime)> {
    match opt_list(Some(body)) {
        Some(orders) => note_orders(Seq::empty(), orders, now),
        None => Seq::empty(),
    }
}

/// The symbols in the body of an answer that lists orders, as an order history.
fn read_orders(body: &serde_json::Value, now: UtcTime) -> (r: Table<UtcTime>)
    ensures
        r@ == orders_in_body(json_tree(*body), now),
{
    let mut r: Table<UtcTime> = Table::new();
    if let Some(orders) = list_of(Some(body)) {
        let ghost trees = orders@.map_values(|v: serde_json::Value| json_tree(v));
        let n: usize = orders.len();
        let mut i: usize = 0;
        while i < n
            invariant
                i <= n,
                n == orders@.len(),
                trees == orders@.map_values(|v: serde_json::Value| json_tree(v)),
                r@ == note_orders(Seq::empty(), trees.take(i as int), now),
            decreases n - i,
        {
            let ghost done = trees.take(i + 1);
            assert(done.drop_last() =~= trees.take(i as int));
            assert(done.last() == json_tree(orders@[i as int]));
            record_order(&mut r, &orders[i], now);
            i = i + 1;
        }
        assert(trees.take(n as int) =~= trees);
    }
    r
}

/// The symbols of the orders in Schwab's answer to a bare request for them, as an order history.
pub fn fetch_schwab_orders_raw(success: bool, status: &str, body: &str, now: UtcTime) -> (r: Result<
    Table<UtcTime>,
    FetchError,
>)
    ensures
        !success ==> (r matches Err(e) && e@ == (FetchErrorView::OrdersStatus {
            status: status@,
        })),
        success ==> match json_parsed(body@) {
            Ok(orders) => r matches Ok(history) && history@ == orders_in_body(orders, now),
            Err(reason) => r matches Err(e) && e@ == (FetchErrorView::Payload { reason }),
        },
{
    if !success {
        return Err(FetchError::OrdersStatus { status: status.to_owned() });
    }
    match parse(body) {
        Ok(orders) => Ok(read_orders(&orders, now)),
        Err(reason) => Err(FetchError::Payload { reason }),
    }
}

/// What became of the request for the recent orders of one account.
#[derive(Debug)]
pub enum RecentOrders {
    /// The JSON text of each order.
    Orders(Vec<String>),
    /// The answer to the bare request that was made after the first one failed.
    Raw { success: bool, status: String, body: String },
    /// Nothing came back.
    Unknown,
}

pub enum RecentOrdersView {
    Orders(Seq<Seq<char>>),
    Raw { success: bool, body: Seq<char> },
    Unknown,
}

impl View for RecentOrders {
    type V = RecentOrdersView;

    open spec fn view(&self) -> RecentOrdersView {
        match *self {
            RecentOrders::Orders(orders) => RecentOrdersView::Orders(
                texts(orders@),
            ),
            RecentOrders::Raw { success, status, body } => RecentOrdersView::Raw {
                success,
                body: body@,
            },
            RecentOrders::Unknown => RecentOrdersView::Unknown,
        }
    }
}

/// What an order's text holds, or nothing where it is no JSON.
pub open spec fn order_tree(text: Seq<char>) -> JsonTree {
    match json_parsed(text) {
        Ok(tree) => tree,
        Err(_) => JsonTree::Null,
    }
}

/// The history with what is known of one account's recent orders.
pub open spec fn note_account(
    history: Seq<(Seq<char>, UtcTime)>,
    orders: RecentOrdersView,
    now: UtcTime,
) -> Seq<(Seq<char>, UtcTime)> {
    match orders {
        RecentOrdersView::Orders(orders) => note_orders(
            history,
            orders.map_values(|text: Seq<char>| order_tree(text)),
            now,
        ),
        RecentOrdersView::Raw { success, body } => if success && json_parsed(body) is Ok {
            noted_all(history, orders_in_body(json_parsed(body)->Ok_0, now))
        } else {
            history
        },
        RecentOrdersView::Unknown => history,
    }
}

/// The history of what is known of the accounts' recent orders.
pub open spec fn note_accounts(replies: Seq<RecentOrdersView>, now: UtcTime) -> Seq<
    (Seq<char>, UtcTime),
>
    decreases replies.len(),
{
    if replies.len() == 0 {
        Seq::empty()
    } else {
        note_account(note_accounts(replies.drop_last(), now), replies.last(), now)
    }
}

pub open spec fn recent_views(replies: Seq<RecentOrders>) -> Seq<RecentOrdersView> {
    replies.map_values(|r: RecentOrders| r@)
}

fn record_account(history: &mut Table<UtcTime>, reply: &RecentOrders, now: UtcTime)
    ensures
        final(history)@ == note_account(old(history)@, reply@, now),
{
    match reply {
        RecentOrders::Orders(orders) => {
            let ghost trees = texts(orders@).map_values(
                |text: Seq<char>| order_tree(text),
            );
            let n: usize = orders.len();
            let mut i: usize = 0;
            while i < n
                invariant
                    i <= n,
                    n == orders@.len(),
                    trees == texts(orders@).map_values(
                        |text: Seq<char>| order_tree(text),
                    ),
                    history@ == note_orders(old(history)@, trees.take(i as int), now),
                decreases n - i,
            {
                let ghost done = trees.take(i + 1);
                assert(done.drop_last() =~= trees.take(i as int));
                assert(done.last() == order_tree(orders@[i as int]@));
                if let Ok(order) = parse(orders[i].as_str()) {
                    record_order(history, &order, now);
                }
                i = i + 1;
            }
            assert(trees.take(n as int) =~= trees);
        },
        RecentOrders::Raw { success, status, body } => {
            if let Ok(found) = fetch_schwab_orders_raw(
                *success,
                status.as_str(),
                body.as_str(),
                now,
            ) {
                note_all(history, &found);
            }
        },
        RecentOrders::Unknown => {},
    }
}

/// The order history that Schwab's answers on the accounts' recent orders give.
pub fn populate_order_history_from_schwab(replies: &Vec<RecentOrders>, now: UtcTime) -> (r: Table<
    UtcTime,
>)
    ensures
        r@ == note_accounts(recent_views(replies@), now),
{
    let mut r: Table<UtcTime> = Table::new();
    let ghost views = recent_views(replies@);
    let n: usize = replies.len();
    let mut i: usize = 0;
    while i < n
        invariant
            i <= n,
            n == replies@.len(),
            views == recent_views(replies@),
            r@ == note_accounts(views.take(i as int), now),
        decreases n - i,
    {
        let ghost done = views.take(i + 1);
        assert(done.drop_last() =~= views.take(i as int));
        assert(done.last() == replies@[i as int]@);
        record_account(&mut r, &replies[i], now);
        i = i + 1;
    }
    assert(views.take(n as int) =~= views);
    r
}

/// Whether an order has a leg in the symbol.
pub open spec fn has_leg(order: JsonTree, symbol: Seq<char>) -> bool {
    leg_symbols(order).contains(Some(symbol))
}

/// The time at which an order counts.
pub open spec fn order_time(order: JsonTree, now: UtcTime) -> UtcTime {
    told_time(entered_at(order), now)
}

proof fn lemma_symbols_are_noted(
    history: Seq<(Seq<char>, UtcTime)>,
    symbols: Seq<Option<Seq<char>>>,
    at: UtcTime,
    symbol: Seq<char>,
    time: UtcTime,
    now: UtcTime,
)
    ensures
        knows_since(history, symbol, time) ==> knows_since(
            note_symbols(history, symbols, at),
            symbol,
            time,
        ),
        symbols.contains(Some(symbol)) ==> knows_since(
            note_symbols(history, symbols, at),
            symbol,
            at,
        ),
        none_after(history, now) && !now.is_before(at) ==> none_after(
            note_symbols(history, symbols, at),
            now,
        ),
    decreases symbols.len(),
{
    if symbols.len() > 0 {
        let before = symbols.drop_last();
        let rest = note_symbols(history, before, at);
        lemma_symbols_are_noted(history, before, at, symbol, time, now);
        if let Some(last) = symbols.last() {
            law_noted_order_is_known(rest, last, at, symbol, time);
            law_noted_order_is_known(rest, last, at, symbol, at);
            if none_after(rest, now) && !now.is_before(at) {
                lemma_noted_stays_in_the_past(rest, last, at, now);
            }
        }
        if symbols.contains(Some(symbol)) {
            let j = choose|j: int| 0 <= j < symbols.len() && symbols[j] == Some(symbol);
            if j < before.len() {
                assert(before[j] == Some(symbol));
            }
        }
    }
}

proof fn lemma_orders_are_noted(
    history: Seq<(Seq<char>, UtcTime)>,
    orders: Seq<JsonTree>,
    now: UtcTime,
    symbol: Seq<char>,
    time: UtcTime,
)
    ensures
        knows_since(history, symbol, time) ==> knows_since(
            note_orders(history, orders, now),
            symbol,
            time,
        ),
        forall|i: int|
            0 <= i < orders.len() && has_leg(#[trigger] orders[i], symbol) ==> knows_since(
                note_orders(history, orders, now),
                symbol,
                order_time(orders[i], now),
            ),
        none_after(history, now) ==> none_after(
            note_orders(history, orders, now),
            now,
        ),
    decreases orders.len(),
{
    if orders.len() > 0 {
        let before = orders.drop_last();
        let last = orders.last();
        let rest = note_orders(history, before, now);
        let at = order_time(last, now);
        lemma_orders_are_noted(history, before, now, symbol, time);
        lemma_symbols_are_noted(rest, leg_symbols(last), at, symbol, time, now);
        assert forall|i: int|
            0 <= i < orders.len() && has_leg(#[trigger] orders[i], symbol) implies knows_since(
            note_orders(history, orders, now),
            symbol,
            order_time(orders[i], now),
        ) by {
            if i < before.len() {
                assert(before[i] == orders[i]);
                lemma_symbols_are_noted(
                    rest,
                    leg_symbols(last),
                    at,
                    symbol,
                    order_time(orders[i], now),
                    now,
                );
            }
        }
    }
}

/// The orders that an answer on one account lists.
pub open spec fn listed_orders(reply: RecentOrdersView) -> Seq<JsonTree> {
    match reply {
        RecentOrdersView::Orders(orders) => orders.map_values(
            |text: Seq<char>| order_tree(text),
        ),
        RecentOrdersView::Raw { success, body } => if success {
            match opt_list(Some(order_tree(body))) {
                Some(orders) => orders,
                None => Seq::empty(),
            }
        } else {
            Seq::empty()
        },
        RecentOrdersView::Unknown => Seq::empty(),
    }
}

proof fn lemma_account_is_noted(
    history: Seq<(Seq<char>, UtcTime)>,
    reply: RecentOrdersView,
    now: UtcTime,
    symbol: Seq<char>,
    time: UtcTime,
)
    ensures
        knows_since(history, symbol, time) ==> knows_since(
            note_account(history, reply, now),
            symbol,
            time,
        ),
        forall|i: int|
            0 <= i < listed_orders(reply).len() && has_leg(
                #[trigger] listed_orders(reply)[i],
                symbol,
            ) ==> knows_since(
                note_account(history, reply, now),
                symbol,
                order_time(listed_orders(reply)[i], now),
            ),
        none_after(history, now) ==> none_after(
            note_account(history, reply, now),
            now,
        ),
{
    let orders = listed_orders(reply);
    lemma_orders_are_noted(history, orders, now, symbol, time);
    if let RecentOrdersView::Raw { success, body } = reply {
        if success && json_parsed(body) is Ok {
            let empty = Seq::<(Seq<char>, UtcTime)>::empty();
            let more = orders_in_body(json_parsed(body)->Ok_0, now);
            lemma_orders_are_noted(empty, orders, now, symbol, time);
            law_merged_history_knows_both(history, more, symbol, time);
            assert forall|i: int|
                0 <= i < orders.len() && has_leg(#[trigger] orders[i], symbol) implies knows_since(
                note_account(history, reply, now),
                symbol,
                order_time(orders[i], now),
            ) by {
                law_merged_history_knows_both(history, more, symbol, order_time(orders[i], now));
            }
            if none_after(history, now) {
                assert(none_after(empty, now));
                law_history_stays_in_the_past(history, more, now);
            }
        }
    }
}

/// Every order that Schwab lists for any account is known, from the time on when it was entered,
/// in the history that the bot starts from.
pub proof fn law_listed_orders_are_known(
    replies: Seq<RecentOrdersView>,
    now: UtcTime,
    symbol: Seq<char>,
    a: int,
    i: int,
)
    requires
        0 <= a < replies.len(),
        0 <= i < listed_orders(replies[a]).len(),
        has_leg(listed_orders(replies[a])[i], symbol),
    ensures
        knows_since(
            note_accounts(replies, now),
            symbol,
            order_time(listed_orders(replies[a])[i], now),
        ),
    decreases replies.len(),
{
    let before = replies.drop_last();
    let time = order_time(listed_orders(replies[a])[i], now);
    lemma_account_is_noted(note_accounts(before, now), replies.last(), now, symbol, time);
    if a < before.len() {
        assert(before[a] == replies[a]);
        law_listed_orders_are_known(before, now, symbol, a, i);
    }
}

/// Whether some order has a leg in the symbol and counts at the time.
pub open spec fn is_listed(
    orders: Seq<JsonTree>,
    now: UtcTime,
    symbol: Seq<char>,
    time: UtcTime,
) -> bool {
    exists|i: int|
        0 <= i < orders.len() && has_leg(#[trigger] orders[i], symbol) && order_time(orders[i], now)
            == time
}

proof fn lemma_symbols_entry(
    history: Seq<(Seq<char>, UtcTime)>,
    symbols: Seq<Option<Seq<char>>>,
    at: UtcTime,
    entry: (Seq<char>, UtcTime),
)
    requires
        note_symbols(history, symbols, at).contains(entry),
    ensures
        history.contains(entry) || (symbols.contains(Some(entry.0)) && entry.1 == at),
    decreases symbols.len(),
{
    if symbols.len() > 0 {
        let before = symbols.drop_last();
        let rest = note_symbols(history, before, at);
        assert(symbols.last() == symbols[symbols.len() - 1]);
        if let Some(last) = symbols.last() {
            lemma_noted_entry(rest, last, at, entry);
        }
        if rest.contains(entry) {
            lemma_symbols_entry(history, before, at, entry);
            if before.contains(Some(entry.0)) {
                let j = choose|j: int| 0 <= j < before.len() && before[j] == Some(entry.0);
                assert(symbols[j] == Some(entry.0));
            }
        }
    }
}

proof fn lemma_orders_entry(
    history: Seq<(Seq<char>, UtcTime)>,
    orders: Seq<JsonTree>,
    now: UtcTime,
    entry: (Seq<char>, UtcTime),
)
    requires
        note_orders(history, orders, now).contains(entry),
    ensures
        history.contains(entry) || is_listed(orders, now, entry.0, entry.1),
    decreases orders.len(),
{
    if orders.len() > 0 {
        let before = orders.drop_last();
        let last = orders.last();
        let rest = note_orders(history, before, now);
        assert(last == orders[orders.len() - 1]);
        lemma_symbols_entry(rest, leg_symbols(last), order_time(last, now), entry);
        if rest.contains(entry) {
            lemma_orders_entry(history, before, now, entry);
            if is_listed(before, now, entry.0, entry.1) {
                let i = choose|i: int|
                    0 <= i < before.len() && has_leg(#[trigger] before[i], entry.0) && order_time(
                        before[i],
                        now,
                    ) == entry.1;
                assert(orders[i] == before[i]);
            }
        }
    }
}

proof fn lemma_account_entry(
    history: Seq<(Seq<char>, UtcTime)>,
    reply: RecentOrdersView,
    now: UtcTime,
    entry: (Seq<char>, UtcTime),
)
    requires
        note_account(history, reply, now).contains(entry),
    ensures
        history.contains(entry) || is_listed(listed_orders(reply), now, entry.0, entry.1),
{
    let orders = listed_orders(reply);
    match reply {
        RecentOrdersView::Orders(_) => {
            lemma_orders_entry(history, orders, now, entry);
        },
        RecentOrdersView::Raw { success, body } => {
            if success && json_parsed(body) is Ok {
                let more = orders_in_body(json_parsed(body)->Ok_0, now);
                lemma_noted_all_entry(history, more, entry);
                if more.contains(entry) {
                    lemma_orders_entry(Seq::empty(), orders, now, entry);
                }
            }
        },
        RecentOrdersView::Unknown => {},
    }
}

proof fn lemma_accounts_entry(
    replies: Seq<RecentOrdersView>,
    now: UtcTime,
    entry: (Seq<char>, UtcTime),
)
    requires
        note_accounts(replies, now).contains(entry),
    ensures
        exists|a: int|
            0 <= a < replies.len() && is_listed(
                listed_orders(#[trigger] replies[a]),
                now,
                entry.0,
                entry.1,
            ),
    decreases replies.len(),
{
    if replies.len() > 0 {
        let before = replies.drop_last();
        assert(replies.last() == replies[replies.len() - 1]);
        lemma_account_entry(note_accounts(before, now), replies.last(), now, entry);
        if note_accounts(before, now).contains(entry) {
            lemma_accounts_entry(before, now, entry);
            let a = choose|a: int|
                0 <= a < before.len() && is_listed(
                    listed_orders(#[trigger] before[a]),
                    now,
                    entry.0,
                    entry.1,
                );
            assert(replies[a] == before[a]);
        }
    }
}

/// A symbol stands in the history that the bot starts from only where Schwab lists an order for it,
/// and then at the time of such an order.
pub proof fn law_known_orders_are_listed(
    replies: Seq<RecentOrdersView>,
    now: UtcTime,
    symbol: Seq<char>,
)
    ensures
        lookup(note_accounts(replies, now), symbol) matches Some(time) ==> exists|a: int|
            0 <= a < replies.len() && is_listed(
                listed_orders(#[trigger] replies[a]),
                now,
                symbol,
                time,
            ),
{
    let history = note_accounts(replies, now);
    lemma_find(history, symbol);
    if let Some(time) = lookup(history, symbol) {
        assert(history[find(history, symbol)] == (symbol, time));
        lemma_accounts_entry(replies, now, (symbol, time));
    }
}

/// The history that the bot starts from lies in the past.
pub proof fn law_first_history_is_past(replies: Seq<RecentOrdersView>, now: UtcTime)
    ensures
        none_after(note_accounts(replies, now), now),
    decreases replies.len(),
{
    if replies.len() > 0 {
        let before = replies.drop_last();
        law_first_history_is_past(before, now);
        lemma_account_is_noted(
            note_accounts(before, now),
            replies.last(),
            now,
            Seq::empty(),
            now,
        );
    }
}

/// A position is short just where shares are sold short, and no fewer than are held; its quantity
/// is then the short shares below zero, and otherwise the long ones. What is not told counts as
/// none.
pub proof fn law_positions_have_their_side(entry: PositionEntryView)
    ensures
        ({
            let p = entry_position(entry);
            let long = if entry.long_quantity is Some {
                entry.long_quantity->0.units as int
            } else {
                0
            };
            let short = if entry.short_quantity is Some {
                entry.short_quantity->0.units as int
            } else {
                0
            };
            &&& p.is_short <==> short > 0 && short >= long
            &&& p.is_short ==> p.quantity.units == -short
            &&& !p.is_short ==> p.quantity.units == long
            &&& entry.symbol matches Some(symbol) ==> p.symbol == symbol
            &&& entry.symbol is None ==> p.symbol == "UNKNOWN"@
            &&& p.description == entry.description
            &&& p.asset_type == entry.asset_type
            &&& p.average_price == entry.average_price
            &&& p.market_value == entry.market_value
            &&& p.cost_basis == entry.current_day_cost
            &&& p.profit_loss == entry.open_profit_loss
        }),
{
}

/// The sign of a position follows from its long and short shares, whichever way they are given.
pub proof fn law_net_shares(long: Decimal, short: Decimal)
    ensures
        is_short(long, short) <==> short.units > 0 && short.units >= long.units,
        is_short(long, short) ==> signed_quantity(long, short).units == -short.units,
        !is_short(long, short) ==> signed_quantity(long, short) == long,
        or_zero(Some(long)) == long,
        or_zero(None).units == 0,
{
}

/// The number that stands under a key.
pub open spec fn number_under(fields: Map<Seq<char>, JsonTree>, key: Seq<char>) -> Option<Decimal> {
    if fields.contains_key(key) {
        opt_number(Some(fields[key]))
    } else {
        None
    }
}

/// The text that stands under a key.
pub open spec fn text_under(fields: Map<Seq<char>, JsonTree>, key: Seq<char>) -> Option<Seq<char>> {
    if fields.contains_key(key) {
        opt_string(Some(fields[key]))
    } else {
        None
    }
}

/// An entry of an answer gives each figure under its own name.
pub proof fn law_entries_are_read_by_name(
    entry: Map<Seq<char>, JsonTree>,
    instrument: Map<Seq<char>, JsonTree>,
)
    ensures
        ({
            let e = entry_fields(JsonTree::Fields(entry));
            &&& e.long_quantity == number_under(entry, "longQuantity"@)
            &&& e.short_quantity == number_under(entry, "shortQuantity"@)
            &&& e.average_price == number_under(entry, "averagePrice"@)
            &&& e.market_value == number_under(entry, "marketValue"@)
            &&& e.current_day_cost == number_under(entry, "currentDayCost"@)
            &&& e.open_profit_loss == number_under(entry, "longOpenProfitLoss"@)
            &&& entry.contains_key("instrument"@) && entry["instrument"@] == JsonTree::Fields(
                instrument,
            ) ==> {
                &&& e.symbol == text_under(instrument, "symbol"@)
                &&& e.description == text_under(instrument, "description"@)
                &&& e.asset_type == text_under(instrument, "assetType"@)
            }
            &&& !entry.contains_key("instrument"@) ==> e.symbol is None && e.description is None
                && e.asset_type is None
        }),
{
}

/// An answer lists one position for each of its entries, in their order. An answer of any other
/// form lists none.
pub proof fn law_every_entry_is_a_position(
    payload: Map<Seq<char>, JsonTree>,
    account: Map<Seq<char>, JsonTree>,
    entries: Seq<JsonTree>,
    i: int,
)
    ensures
        payload.contains_key("securitiesAccount"@) && payload["securitiesAccount"@]
            == JsonTree::Fields(account) && account.contains_key("positions"@)
            && account["positions"@] == JsonTree::List(entries) ==> {
            let list = positions_of(JsonTree::Fields(payload));
            &&& list.len() == entries.len()
            &&& 0 <= i < entries.len() ==> list[i] == entry_position(entry_fields(entries[i]))
        },
        !payload.contains_key("securitiesAccount"@) ==> positions_of(JsonTree::Fields(payload))
            == Seq::<PositionView>::empty(),
        payload.contains_key("securitiesAccount"@) && payload["securitiesAccount"@]
            == JsonTree::Fields(account) && (!account.contains_key("positions"@) || !(
        account["positions"@] is List)) ==> positions_of(JsonTree::Fields(payload)) == Seq::<
            PositionView,
        >::empty(),
{
}

/// The balances of a cash account are its cash and its liquidation value, nothing where that is not
/// told; those of a margin account its available funds, its buying power and its equity, in this
/// order.
pub proof fn law_balances_in_their_order(
    cash: Decimal,
    liquidation: Option<Decimal>,
    funds: Decimal,
    power: Decimal,
    equity: Decimal,
)
    ensures
        ({
            let b = balances_of(
                AccountSnapshot::Cash {
                    cash_available_for_trading: cash,
                    liquidation_value: liquidation,
                },
            );
            &&& b.len() == 2
            &&& b[0] == cash
            &&& liquidation matches Some(value) ==> b[1] == value
            &&& liquidation is None ==> b[1].units == 0
        }),
        ({
            let b = balances_of(
                AccountSnapshot::Margin {
                    available_funds: funds,
                    buying_power: power,
                    equity,
                },
            );
            b.len() == 3 && b[0] == funds && b[1] == power && b[2] == equity
        }),
        balances_of(AccountSnapshot::NoBalances).len() == 0,
{
}

/// What is said of an answer that was of no use names its status and its text, or what is wrong.
pub proof fn law_fetch_errors_are_named(status: Seq<char>, body: Seq<char>)
    ensures
        fetch_message(FetchErrorView::PositionsStatus { status, body })
            == "Failed to fetch positions: "@ + status + " - "@ + body,
        fetch_message(FetchErrorView::OrdersStatus { status })
            == "Schwab raw orders request failed: "@ + status,
        fetch_message(FetchErrorView::Payload { reason: body }) == body,
{
}

/// The legs of an order name the symbols that it is for, each in its instrument; without legs, or
/// with legs of any other form, it is for none. It counts at the time when it was entered, or now
/// where that cannot be read or lies ahead.
pub proof fn law_orders_are_read(
    order: Map<Seq<char>, JsonTree>,
    legs: Seq<JsonTree>,
    i: int,
    leg: Map<Seq<char>, JsonTree>,
    instrument: Map<Seq<char>, JsonTree>,
    now: UtcTime,
    text: Seq<char>,
)
    ensures
        order.contains_key("orderLegCollection"@) && order["orderLegCollection"@] == JsonTree::List(
            legs,
        ) ==> {
            let symbols = leg_symbols(JsonTree::Fields(order));
            &&& symbols.len() == legs.len()
            &&& 0 <= i < legs.len() && legs[i] == JsonTree::Fields(leg) && leg.contains_key(
                "instrument"@,
            ) && leg["instrument"@] == JsonTree::Fields(instrument) ==> symbols[i] == (
            if instrument.contains_key("symbol"@) {
                opt_string(Some(instrument["symbol"@]))
            } else {
                None
            })
            &&& 0 <= i < legs.len() && legs[i] == JsonTree::Fields(leg) && !leg.contains_key(
                "instrument"@,
            ) ==> symbols[i] is None
        },
        !order.contains_key("orderLegCollection"@) || !(order["orderLegCollection"@] is List)
            ==> leg_symbols(JsonTree::Fields(order)).len() == 0,
        order.contains_key("enteredTime"@) && order["enteredTime"@] == JsonTree::Text(text)
            ==> order_time(JsonTree::Fields(order), now) == told_time(entered_time(text), now),
        !order.contains_key("enteredTime"@) || !(order["enteredTime"@] is Text) ==> order_time(
            JsonTree::Fields(order),
            now,
        ) == now,
{
}

/// The views of answers and entries show their fields under their own names.
pub proof fn law_schwab_views_show_fields(e: PositionEntry, f: FetchError, r: RecentOrders, i: int)
    ensures
        e.symbol matches Some(text) ==> e@.symbol == Some(text@),
        e.symbol is None ==> e@.symbol is None,
        e.description matches Some(text) ==> e@.description == Some(text@),
        e.description is None ==> e@.description is None,
        e.asset_type matches Some(text) ==> e@.asset_type == Some(text@),
        e.asset_type is None ==> e@.asset_type is None,
        e@.long_quantity == e.long_quantity,
        e@.short_quantity == e.short_quantity,
        e@.average_price == e.average_price,
        e@.market_value == e.market_value,
        e@.current_day_cost == e.current_day_cost,
        e@.open_profit_loss == e.open_profit_loss,
        f matches FetchError::PositionsStatus { status, body } ==> f@
            == (FetchErrorView::PositionsStatus { status: status@, body: body@ }),
        f matches FetchError::OrdersStatus { status } ==> f@ == (FetchErrorView::OrdersStatus {
            status: status@,
        }),
        f matches FetchError::Payload { reason } ==> f@ == (FetchErrorView::Payload {
            reason: reason@,
        }),
        r matches RecentOrders::Orders(list) ==> (r@ matches RecentOrdersView::Orders(views)
            && views.len() == list@.len() && (0 <= i < list@.len() ==> views[i] == list@[i]@)),
        r matches RecentOrders::Raw { success, status, body } ==> r@ == (RecentOrdersView::Raw {
            success,
            body: body@,
        }),
        r is Unknown ==> r@ is Unknown,
{
}

/// An answer on an account lists the orders that it holds, one for each text, or the items of the
/// list that its body is. A text that is no JSON is an order without fields; an answer that failed,
/// or a body that is no list, holds none.
pub proof fn law_answers_list_their_orders(
    list: Seq<Seq<char>>,
    i: int,
    body: Seq<char>,
    items: Seq<JsonTree>,
)
    ensures
        listed_orders(RecentOrdersView::Orders(list)).len() == list.len(),
        0 <= i < list.len() ==> (json_parsed(list[i]) matches Ok(tree) ==> listed_orders(
            RecentOrdersView::Orders(list),
        )[i] == tree),
        0 <= i < list.len() ==> (json_parsed(list[i]) is Err ==> listed_orders(
            RecentOrdersView::Orders(list),
        )[i] == JsonTree::Null),
        json_parsed(body) == Ok::<JsonTree, Seq<char>>(JsonTree::List(items)) ==> listed_orders(
            RecentOrdersView::Raw { success: true, body },
        ) == items,
        json_parsed(body) is Err || !(json_parsed(body)->Ok_0 is List) ==> listed_orders(
            RecentOrdersView::Raw { success: true, body },
        ).len() == 0,
        listed_orders(RecentOrdersView::Raw { success: false, body }).len() == 0,
        listed_orders(RecentOrdersView::Unknown).len() == 0,
{
}

/// An order has a leg in a symbol where one of its legs names it.
pub proof fn law_legs_name_symbols(order: JsonTree, symbol: Seq<char>)
    ensures
        has_leg(order, symbol) <==> exists|i: int|
            0 <= i < leg_symbols(order).len() && #[trigger] leg_symbols(order)[i] == Some(symbol),
{
}

/// An order notes the symbol of each of its legs, at the later of its time and the time that was
/// known, and no other symbol.
pub proof fn law_every_leg_is_noted(
    history: Seq<(Seq<char>, UtcTime)>,
    symbols: Seq<Option<Seq<char>>>,
    at: UtcTime,
    symbol: Seq<char>,
)
    ensures
        !symbols.contains(Some(symbol)) ==> lookup(note_symbols(history, symbols, at), symbol)
            == lookup(history, symbol),
        symbols.contains(Some(symbol)) ==> lookup(note_symbols(history, symbols, at), symbol) == (
        match lookup(history, symbol) {
            Some(known) => Some(
                if known.is_before(at) {
                    at
                } else {
                    known
                },
            ),
            None => Some(at),
        }),
    decreases symbols.len(),
{
    if symbols.len() > 0 {
        let before = symbols.drop_last();
        law_every_leg_is_noted(history, before, at, symbol);
        let rest = note_symbols(history, before, at);
        assert(symbols.last() == symbols[symbols.len() - 1]);
        if before.contains(Some(symbol)) {
            let j = choose|j: int| 0 <= j < before.len() && before[j] == Some(symbol);
            assert(symbols[j] == Some(symbol));
        }
        if symbols.contains(Some(symbol)) {
            let j = choose|j: int| 0 <= j < symbols.len() && symbols[j] == Some(symbol);
            if j < before.len() {
                assert(before[j] == Some(symbol));
            }
        }
        if let Some(last) = symbols.last() {
            law_later_time_is_noted(rest, last, at, symbol);
        }
    }
}

/// One order notes its legs at the time at which it counts, behind what was known.
pub proof fn law_orders_are_noted_in_turn(
    history: Seq<(Seq<char>, UtcTime)>,
    orders: Seq<JsonTree>,
    order: JsonTree,
    now: UtcTime,
)
    ensures
        note_orders(history, Seq::empty(), now) == history,
        note_orders(history, orders.push(order), now) == note_symbols(
            note_orders(history, orders, now),
            leg_symbols(order),
            order_time(order, now),
        ),
{
    assert(orders.push(order).drop_last() =~= orders);
}

/// The body of an answer tells of every order that it lists: its symbols are known since its time,
/// and what is known is the time of one of its orders. A body that is no list tells of none.
pub proof fn law_orders_in_a_body_are_known(
    orders: Seq<JsonTree>,
    i: int,
    now: UtcTime,
    symbol: Seq<char>,
    body: JsonTree,
)
    ensures
        0 <= i < orders.len() && leg_symbols(orders[i]).contains(Some(symbol)) ==> (lookup(
            orders_in_body(JsonTree::List(orders), now),
            symbol,
        ) matches Some(known) && !known.is_before(order_time(orders[i], now))),
        lookup(orders_in_body(JsonTree::List(orders), now), symbol) matches Some(time)
            ==> exists|j: int|
            0 <= j < orders.len() && leg_symbols(#[trigger] orders[j]).contains(Some(symbol))
                && order_time(orders[j], now) == time,
        !(body is List) ==> orders_in_body(body, now).len() == 0,
{
    let history = orders_in_body(JsonTree::List(orders), now);
    lemma_orders_are_noted(Seq::empty(), orders, now, symbol, now);
    if 0 <= i < orders.len() && leg_symbols(orders[i]).contains(Some(symbol)) {
        assert(has_leg(orders[i], symbol));
    }
    lemma_find(history, symbol);
    if let Some(time) = lookup(history, symbol) {
        assert(history[find(history, symbol)] == (symbol, time));
        lemma_orders_entry(Seq::empty(), orders, now, (symbol, time));
        assert(is_listed(orders, now, symbol, time));
        let j = choose|j: int|
            0 <= j < orders.len() && has_leg(#[trigger] orders[j], symbol) && order_time(
                orders[j],
                now,
            ) == time;
        assert(leg_symbols(orders[j]).contains(Some(symbol)));
    }
}

/// Lists of answers and of symbols are seen item by item.
pub proof fn law_schwab_lists_are_seen(
    replies: Seq<RecentOrders>,
    symbols: Seq<Option<String>>,
    i: int,
)
    ensures
        recent_views(replies).len() == replies.len(),
        0 <= i < replies.len() ==> recent_views(replies)[i] == replies[i]@,
        opt_texts(symbols).len() == symbols.len(),
        0 <= i < symbols.len() ==> (symbols[i] matches Some(text) ==> opt_texts(symbols)[i] == Some(
            text@,
        )),
        0 <= i < symbols.len() ==> (symbols[i] is None ==> opt_texts(symbols)[i] is None),
{
}

} // verus!
