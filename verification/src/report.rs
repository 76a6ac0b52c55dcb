//! The full report on accounts, orders and symbols.
use crate::bot::{BotView, TradingBot};
use crate::decimal::{clamp, Decimal};
use crate::format::{
    decimal_text, digits, fixed, grouped_integer, grouped_text, integer, signed_text, to_count_text,
    to_fixed, to_integer_text, to_signed,
};
use crate::json::{
    field_of, json_tree, list_of, number_of, opt_field, opt_number, opt_string, opt_tree, parse,
    string_of, JsonTree,
};
use crate::models::{
    account_at_ibkr, position_views, PositionSummary, PositionView, RealTimeQuote, Symbol,
    SymbolView,
};
use crate::quotes::{contains_text, distinct_names, law_names_are_those_of_symbols};
use crate::risk::BalanceReply;
use crate::schwab::{leg_symbol, or_zero, order_legs, order_tree};
use crate::signals::{action_for, action_of, quote_of};
use crate::table::{law_put_then_lookup, lookup, put, Table};
use crate::text::{
    account_label, append_left, append_right, can_label, label, left_aligned, opt_text, prefix,
    right_aligned, same, take_prefix, texts,
};
use crate::update::{
    answered_list, answered_lists, any_known, gathered, gives_balance, hear_positions,
    heard_positions, held_from, law_gathered_mirrors_accounts, law_last_quantity_stands,
    law_one_symbol_decides_the_broker, lemma_any_known_step, names_ibkr, own_list, quantities,
    with_positions, AccountBalance, AccountPositions,
};
use vstd::prelude::*;

verus! {

/// A number, or a dash where there is none.
pub open spec fn number_or_dash(value: Option<Decimal>, places: nat) -> Seq<char> {
    match value {
        Some(v) => decimal_text(v, places),
        None => "-"@,
    }
}

/// A price in dollars and cents, or a dash where there is none.
pub open spec fn dollars_or_dash(value: Option<Decimal>) -> Seq<char> {
    match value {
        Some(v) => "$"@ + decimal_text(v, 2),
        None => "-"@,
    }
}

/// A change in percent, or a dash where there is none.
pub open spec fn percent_or_dash(value: Option<Decimal>) -> Seq<char> {
    match value {
        Some(v) => signed_text(v, 2) + "%"@,
        None => "-"@,
    }
}

/// A count in groups of digits, or a dash where there is none.
pub open spec fn count_or_dash(value: Option<i64>) -> Seq<char> {
    match value {
        Some(v) => grouped_integer(v as int),
        None => "-"@,
    }
}

pub(crate) fn show_number(value: Option<Decimal>, places: u32) -> (r: String)
    requires
        places <= 8,
    ensures
        r@ == number_or_dash(value, places as nat),
{
    match value {
        Some(v) => to_fixed(v, places),
        None => "-".to_owned(),
    }
}

pub(crate) fn show_dollars(value: Option<Decimal>) -> (r: String)
    ensures
        r@ == dollars_or_dash(value),
{
    match value {
        Some(v) => {
            let mut r: String = "$".to_owned();
            r.append(to_fixed(v, 2).as_str());
            r
        },
        None => "-".to_owned(),
    }
}

pub(crate) fn show_percent(value: Option<Decimal>) -> (r: String)
    ensures
        r@ == percent_or_dash(value),
{
    match value {
        Some(v) => {
            let mut r: String = to_signed(v, 2);
            r.append("%");
            r
        },
        None => "-".to_owned(),
    }
}

fn show_count(value: Option<i64>) -> (r: String)
    ensures
        r@ == count_or_dash(value),
{
    match value {
        Some(v) => grouped_text(v),
        None => "-".to_owned(),
    }
}

/// What is said of the balances that Schwab gives: those of a cash account, those of a margin
/// account, or that they are neither.
pub open spec fn schwab_lines(reply: BalanceReply) -> Seq<char> {
    match reply {
        Ok(values) => if values@.len() == 2 {
            "Cash Available for Trading: $"@ + decimal_text(values@[0], 2) + "\n"@
                + "Liquidation Value:           $"@ + decimal_text(values@[1], 2) + "\n"@
        } else if values@.len() == 3 {
            "Available Funds: $"@ + decimal_text(values@[0], 2) + "\n"@ + "Buying Power:    $"@
                + decimal_text(values@[1], 2) + "\n"@ + "Equity:          $"@ + decimal_text(
                values@[2],
                2,
            ) + "\n"@
        } else {
            "⚠️ Received unexpected balance payload from Schwab.\n"@
        },
        Err(reason) => "⚠️ Unable to fetch balances: "@ + reason@ + "\n"@,
    }
}

/// What is said of the balance that Interactive Brokers gives.
pub open spec fn ibkr_lines(reply: Result<Decimal, String>) -> Seq<char> {
    match reply {
        Ok(value) => "IBKR Balance:    $"@ + decimal_text(value, 2) + "\n"@,
        Err(reason) => "⚠️ Unable to fetch IBKR balance: "@ + reason@ + "\n"@,
    }
}

/// What is said of an account's balances. Only the broker that looks after the account has a say.
pub open spec fn balance_lines(at_ibkr: bool, answer: AccountBalance) -> Seq<char> {
    match answer {
        AccountBalance::Ibkr(reply) if at_ibkr => ibkr_lines(reply),
        AccountBalance::Schwab(reply) if !at_ibkr => schwab_lines(reply),
        _ => "⚠️ No answer from the broker of the account.\n"@,
    }
}

/// The portfolio value in a report on balances: that of Interactive Brokers for an account there,
/// and otherwise the last of Schwab's balances.
pub open spec fn reported_value(at_ibkr: bool, answer: AccountBalance) -> Option<Decimal> {
    match answer {
        AccountBalance::Ibkr(Ok(value)) if at_ibkr => Some(value),
        AccountBalance::Schwab(Ok(values)) if !at_ibkr => if values@.len() > 0 {
            Some(values@.last())
        } else {
            None
        },
        _ => None,
    }
}

/// The portfolio values that the answers on the bot's accounts give.
pub open spec fn reported_values(bot: BotView, answers: Seq<AccountBalance>) -> Seq<
    Option<Decimal>,
> {
    Seq::new(
        answers.len(),
        |i: int|
            reported_value(account_at_ibkr(bot.symbols, bot.account_hashes[i]), answers[i]),
    )
}

/// What is said of the balances of the accounts.
pub open spec fn balance_sections(bot: BotView, answers: Seq<AccountBalance>) -> Seq<char>
    decreases answers.len(),
{
    if answers.len() == 0 {
        Seq::empty()
    } else {
        let account = bot.account_hashes[answers.len() - 1];
        balance_sections(bot, answers.drop_last()) + "Account "@ + label(account) + ":\n"@
            + balance_lines(account_at_ibkr(bot.symbols, account), answers.last()) + "\n"@
    }
}

/// The portfolio values after a report on balances. Without any, the known ones are kept.
pub open spec fn balances_after(bot: BotView, answers: Seq<AccountBalance>) -> Seq<
    (Seq<char>, Decimal),
> {
    if bot.has_api && any_known(reported_values(bot, answers)) {
        gathered(bot.account_hashes, reported_values(bot, answers))
    } else {
        bot.balances
    }
}

fn show_schwab_balances(reply: &BalanceReply) -> (r: String)
    ensures
        r@ == schwab_lines(*reply),
{
    match reply {
        Ok(values) => if values.len() == 2 {
            let mut r: String = "Cash Available for Trading: $".to_owned();
            r.append(to_fixed(values[0], 2).as_str());
            r.append("\n");
            r.append("Liquidation Value:           $");
            r.append(to_fixed(values[1], 2).as_str());
            r.append("\n");
            r
        } else if values.len() == 3 {
            let mut r: String = "Available Funds: $".to_owned();
            r.append(to_fixed(values[0], 2).as_str());
            r.append("\n");
            r.append("Buying Power:    $");
            r.append(to_fixed(values[1], 2).as_str());
            r.append("\n");
            r.append("Equity:          $");
            r.append(to_fixed(values[2], 2).as_str());
            r.append("\n");
            r
        } else {
            "⚠️ Received unexpected balance payload from Schwab.\n".to_owned()
        },
        Err(reason) => {
            let mut r: String = "⚠️ Unable to fetch balances: ".to_owned();
            r.append(reason.as_str());
            r.append("\n");
            r
        },
    }
}

fn show_ibkr_balance(reply: &Result<Decimal, String>) -> (r: String)
    ensures
        r@ == ibkr_lines(*reply),
{
    match reply {
        Ok(value) => {
            let mut r: String = "IBKR Balance:    $".to_owned();
            r.append(to_fixed(*value, 2).as_str());
            r.append("\n");
            r
        },
        Err(reason) => {
            let mut r: String = "⚠️ Unable to fetch IBKR balance: ".to_owned();
            r.append(reason.as_str());
            r.append("\n");
            r
        },
    }
}

/// What is said of an account's balances.
pub fn describe_balances(at_ibkr: bool, answer: &AccountBalance) -> (r: String)
    ensures
        r@ == balance_lines(at_ibkr, *answer),
{
    match answer {
        AccountBalance::Ibkr(reply) if at_ibkr => show_ibkr_balance(reply),
        AccountBalance::Schwab(reply) if !at_ibkr => show_schwab_balances(reply),
        _ => "⚠️ No answer from the broker of the account.\n".to_owned(),
    }
}

fn value_reported(at_ibkr: bool, answer: &AccountBalance) -> (r: Option<Decimal>)
    ensures
        r == reported_value(at_ibkr, *answer),
{
    match answer {
        AccountBalance::Ibkr(Ok(value)) if at_ibkr => Some(*value),
        AccountBalance::Schwab(Ok(values)) if !at_ibkr => if values.len() > 0 {
            Some(values[values.len() - 1])
        } else {
            None
        },
        _ => None,
    }
}

/// One row of the table of positions.
pub open spec fn position_row(position: PositionView) -> Seq<char> {
    left_aligned(prefix(position.symbol, 5), 6) + " "@ + right_aligned(
        decimal_text(position.quantity, 0) + (if position.is_short {
            " S"@
        } else {
            " L"@
        }),
        8,
    ) + " "@ + right_aligned(number_or_dash(position.average_price, 2), 8) + " "@ + right_aligned(
        number_or_dash(position.market_value, 0),
        6,
    ) + " "@ + right_aligned(number_or_dash(position.cost_basis, 0), 6) + " "@ + right_aligned(
        number_or_dash(position.profit_loss, 0),
        6,
    ) + " \n"@
}

pub open spec fn position_rows(list: Seq<PositionView>) -> Seq<char>
    decreases list.len(),
{
    if list.len() == 0 {
        Seq::empty()
    } else {
        position_rows(list.drop_last()) + position_row(list.last())
    }
}

/// The sum of what is known of some numbers.
pub open spec fn total(values: Seq<Option<Decimal>>) -> Decimal
    decreases values.len(),
{
    if values.len() == 0 {
        Decimal { units: 0 }
    } else {
        let rest = total(values.drop_last());
        match values.last() {
            Some(v) => Decimal { units: clamp(rest.units + v.units) as i64 },
            None => rest,
        }
    }
}

pub open spec fn market_values(list: Seq<PositionView>) -> Seq<Option<Decimal>> {
    list.map_values(|p: PositionView| p.market_value)
}

pub open spec fn profits(list: Seq<PositionView>) -> Seq<Option<Decimal>> {
    list.map_values(|p: PositionView| p.profit_loss)
}

/// The table of an account's positions, with the sums below it.
pub open spec fn position_table(list: Seq<PositionView>) -> Seq<char> {
    if list.len() == 0 {
        "(No Open Positions)\n\n"@
    } else {
        "Symbol Qty      AvgPrice MV     Cost   P / L  \n"@
            + "------ -------- -------- ------ ------ ------ \n"@ + position_rows(list)
            + "-----------------------------------------------------------\n"@
            + "Total Market Value: $"@ + decimal_text(total(market_values(list)), 2) + "\n"@
            + "Total P/L:          $"@ + decimal_text(total(profits(list)), 2) + "\n\n"@
    }
}

/// Whether the positions of an account cannot even be asked for.
pub open spec fn unreachable_account(bot: BotView, account: Seq<char>) -> bool {
    account_at_ibkr(bot.symbols, account) && !bot.has_ib_client
}

/// What is said of the positions of an account.
pub open spec fn position_lines(
    bot: BotView,
    account: Seq<char>,
    answer: AccountPositions,
) -> Seq<char> {
    let at_ibkr = account_at_ibkr(bot.symbols, account);
    if unreachable_account(bot, account) {
        "  ⚠️ IBKR client not connected (missing environment variables)\n\n"@
    } else {
        match heard_positions(at_ibkr, answer) {
            Some(Ok(list)) => position_table(position_views(list@)),
            Some(Err(reason)) => (if at_ibkr {
                "  ⚠️ Unable to fetch IBKR positions: "@
            } else {
                "  ⚠️ Unable to fetch positions: "@
            }) + reason@ + "\n\n"@,
            None => "  ⚠️ No answer from the broker of the account.\n\n"@,
        }
    }
}

/// What is said of the positions of the accounts.
pub open spec fn position_sections(bot: BotView, replies: Seq<AccountPositions>) -> Seq<char>
    decreases replies.len(),
{
    if replies.len() == 0 {
        Seq::empty()
    } else {
        let account = bot.account_hashes[replies.len() - 1];
        position_sections(bot, replies.drop_last()) + "Positions for account "@ + label(account)
            + ":\n"@ + position_lines(bot, account, replies.last())
    }
}

/// The quantities held after a report on positions: those of each account that answered, and the
/// known ones of the others.
pub open spec fn positions_after(bot: BotView, replies: Seq<AccountPositions>) -> Seq<
    (Seq<char>, Seq<(Seq<char>, Decimal)>),
>
    decreases replies.len(),
{
    if replies.len() == 0 {
        bot.positions
    } else {
        let account = bot.account_hashes[replies.len() - 1];
        let rest = positions_after(bot, replies.drop_last());
        match answered_list(account_at_ibkr(bot.symbols, account), replies.last()) {
            Some(list) if !unreachable_account(bot, account) => put(
                rest,
                account,
                quantities(list),
            ),
            _ => rest,
        }
    }
}

fn append_position_row(out: &mut String, position: &PositionSummary)
    ensures
        final(out)@ == old(out)@ + position_row(position@),
{
    let mut quantity: String = to_fixed(position.quantity, 0);
    if position.is_short {
        quantity.append(" S");
    } else {
        quantity.append(" L");
    }
    let mut row: String = String::new();
    append_left(&mut row, take_prefix(position.symbol.as_str(), 5).as_str(), 6);
    assert(row@ =~= left_aligned(prefix(position.symbol@, 5), 6));
    row.append(" ");
    append_right(&mut row, quantity.as_str(), 8);
    row.append(" ");
    append_right(&mut row, show_number(position.average_price, 2).as_str(), 8);
    row.append(" ");
    append_right(&mut row, show_number(position.market_value, 0).as_str(), 6);
    row.append(" ");
    append_right(&mut row, show_number(position.cost_basis, 0).as_str(), 6);
    row.append(" ");
    append_right(&mut row, show_number(position.profit_loss, 0).as_str(), 6);
    row.append(" \n");
    assert(row@ == position_row(position@));
    out.append(row.as_str());
}

fn show_positions(list: &Vec<PositionSummary>) -> (r: String)
    ensures
        r@ == position_table(position_views(list@)),
{
    let n: usize = list.len();
    if n == 0 {
        return "(No Open Positions)\n\n".to_owned();
    }
    let ghost views = position_views(list@);
    let mut rows: String = String::new();
    let mut value: Decimal = Decimal::zero();
    let mut profit: Decimal = Decimal::zero();
    let mut i: usize = 0;
    assert(rows@ =~= Seq::empty());
    while i < n
        invariant
            i <= n,
            n == list@.len(),
            views == position_views(list@),
            rows@ == position_rows(views.take(i as int)),
            value == total(market_values(views.take(i as int))),
            profit == total(profits(views.take(i as int))),
        decreases n - i,
    {
        let position: &PositionSummary = &list[i];
        let ghost done = views.take(i + 1);
        assert(done.drop_last() =~= views.take(i as int));
        assert(done.last() == position@);
        assert(market_values(done).drop_last() =~= market_values(views.take(i as int)));
        assert(profits(done).drop_last() =~= profits(views.take(i as int)));
        append_position_row(&mut rows, position);
        if let Some(v) = position.market_value {
            value = value.plus(v);
        }
        if let Some(v) = position.profit_loss {
            profit = profit.plus(v);
        }
        i = i + 1;
    }
    assert(views.take(n as int) =~= views);
    let mut r: String = "Symbol Qty      AvgPrice MV     Cost   P / L  \n".to_owned();
    r.append("------ -------- -------- ------ ------ ------ \n");
    r.append(rows.as_str());
    r.append("-----------------------------------------------------------\n");
    r.append("Total Market Value: $");
    r.append(to_fixed(value, 2).as_str());
    r.append("\n");
    r.append("Total P/L:          $");
    r.append(to_fixed(profit, 2).as_str());
    r.append("\n\n");
    r
}

/// One order in Schwab's answer to a request for recent orders.
#[derive(Debug)]
pub struct RecentOrder {
    pub order_id: i64,
    /// The name of its status.
    pub status: String,
    pub status_description: Option<String>,
    /// When it was entered, in local time.
    pub entered: String,
    /// The whole order as JSON.
    pub payload: String,
}

pub struct RecentOrderView {
    pub order_id: int,
    pub status: Seq<char>,
    pub status_description: Option<Seq<char>>,
    pub entered: Seq<char>,
    pub payload: Seq<char>,
}

impl View for RecentOrder {
    type V = RecentOrderView;

    open spec fn view(&self) -> RecentOrderView {
        RecentOrderView {
            order_id: self.order_id as int,
            status: self.status@,
            status_description: opt_text(self.status_description),
            entered: self.entered@,
            payload: self.payload@,
        }
    }
}

pub open spec fn recent_order_views(orders: Seq<RecentOrder>) -> Seq<RecentOrderView> {
    orders.map_values(|o: RecentOrder| o@)
}

/// What became of the request for the recent orders of one account.
#[derive(Debug)]
pub enum OrdersReply {
    Fetched(Vec<RecentOrder>),
    /// The request was sent, and failed.
    FetchFailed(String),
    /// The request could not be made.
    RequestFailed(String),
}

/// Whether an order of this status is over.
pub open spec fn is_closed(status: Seq<char>) -> bool {
    status == "Filled"@ || status == "Cancelled"@ || status == "Canceled"@ || status == "Expired"@
        || status == "Rejected"@ || status == "Executed"@ || status == "Complete"@ || status
        == "Completed"@
}

/// The first leg of an order, if it lists any.
pub open spec fn first_leg(order: JsonTree) -> Option<JsonTree> {
    match order_legs(order) {
        Some(legs) => if legs.len() > 0 {
            Some(legs[0])
        } else {
            None
        },
        None => None,
    }
}

pub open spec fn text_or_dash(text: Option<Seq<char>>) -> Seq<char> {
    match text {
        Some(t) => t,
        None => "-"@,
    }
}

/// What a report shows of what an order is for.
#[derive(Debug)]
pub struct OrderFields {
    /// How many legs the order has.
    pub legs: usize,
    /// The symbol, the instruction and the quantity of the first leg.
    pub symbol: Option<String>,
    pub instruction: Option<String>,
    pub quantity: Option<Decimal>,
    pub price: Option<Decimal>,
}

pub struct OrderFieldsView {
    pub legs: int,
    pub symbol: Option<Seq<char>>,
    pub instruction: Option<Seq<char>>,
    pub quantity: Option<Decimal>,
    pub price: Option<Decimal>,
}

impl View for OrderFields {
    type V = OrderFieldsView;

    open spec fn view(&self) -> OrderFieldsView {
        OrderFieldsView {
            legs: self.legs as int,
            symbol: opt_text(self.symbol),
            instruction: opt_text(self.instruction),
            quantity: self.quantity,
            price: self.price,
        }
    }
}

/// What a report shows of what an order is for.
pub open spec fn order_fields(order: JsonTree) -> OrderFieldsView {
    OrderFieldsView {
        legs: match order_legs(order) {
            Some(legs) => legs.len() as int,
            None => 0,
        },
        symbol: match first_leg(order) {
            Some(leg) => leg_symbol(leg),
            None => None,
        },
        instruction: opt_string(opt_field(first_leg(order), "instruction"@)),
        quantity: opt_number(opt_field(first_leg(order), "quantity"@)),
        price: opt_number(opt_field(Some(order), "price"@)),
    }
}

/// The quantity of an order, or a dash where there is none.
pub open spec fn order_quantity(quantity: Option<Decimal>) -> Seq<char> {
    if or_zero(quantity).units != 0 {
        decimal_text(or_zero(quantity), 0)
    } else {
        "-"@
    }
}

/// The price of an order, if it has one.
pub open spec fn order_price(price: Option<Decimal>) -> Seq<char> {
    match price {
        Some(p) => " @ $"@ + decimal_text(p, 2),
        None => Seq::empty(),
    }
}

/// How many legs an order has besides the first, if any.
pub open spec fn other_legs(legs: int) -> Seq<char> {
    if legs > 1 {
        " (+"@ + digits(legs - 1) + " legs)"@
    } else {
        Seq::empty()
    }
}

pub open spec fn status_remark(description: Option<Seq<char>>) -> Seq<char> {
    match description {
        Some(text) => if text.len() > 0 {
            " - "@ + text
        } else {
            Seq::empty()
        },
        None => Seq::empty(),
    }
}

/// What is said of an open order for these things.
pub open spec fn order_line(order: RecentOrderView, fields: OrderFieldsView) -> Seq<char> {
    "  • #"@ + left_aligned(integer(order.order_id), 12) + " "@ + left_aligned(order.status, 12)
        + " "@ + left_aligned(text_or_dash(fields.instruction), 6) + " "@ + right_aligned(
        order_quantity(fields.quantity),
        6,
    ) + " "@ + left_aligned(text_or_dash(fields.symbol), 8) + order_price(fields.price)
        + other_legs(fields.legs) + " (entered "@ + order.entered + ")"@ + status_remark(
        order.status_description,
    ) + "\n"@
}

/// What is said of the open ones among some orders.
pub open spec fn order_lines(orders: Seq<RecentOrderView>) -> Seq<char>
    decreases orders.len(),
{
    if orders.len() == 0 {
        Seq::empty()
    } else {
        let rest = order_lines(orders.drop_last());
        if is_closed(orders.last().status) {
            rest
        } else {
            rest + order_line(orders.last(), order_fields(order_tree(orders.last().payload)))
        }
    }
}

/// Whether any of some orders is open.
pub open spec fn any_open(orders: Seq<RecentOrderView>) -> bool {
    exists|i: int| 0 <= i < orders.len() && !is_closed((#[trigger] orders[i]).status)
}

/// What is said of the orders of an account.
pub open spec fn orders_text(reply: OrdersReply) -> Seq<char> {
    match reply {
        OrdersReply::Fetched(orders) => if any_open(recent_order_views(orders@)) {
            order_lines(recent_order_views(orders@))
        } else {
            "  (no open orders)\n"@
        },
        OrdersReply::FetchFailed(reason) => "  ⚠️ Unable to fetch orders: "@ + reason@ + "\n"@,
        OrdersReply::RequestFailed(reason) => "  ⚠️ Unable to request orders: "@ + reason@ + "\n"@,
    }
}

/// Whether an answer shows an open order.
pub open spec fn shows_open(reply: OrdersReply) -> bool {
    match reply {
        OrdersReply::Fetched(orders) => any_open(recent_order_views(orders@)),
        _ => false,
    }
}

/// What is said of the orders of the accounts.
pub open spec fn order_sections(accounts: Seq<Seq<char>>, replies: Seq<OrdersReply>) -> Seq<char>
    decreases replies.len(),
{
    if replies.len() == 0 {
        Seq::empty()
    } else {
        order_sections(accounts, replies.drop_last()) + "Account "@ + label(
            accounts[replies.len() - 1],
        ) + ":\n"@ + orders_text(replies.last())
    }
}

/// Whether any of the answers shows an open order.
pub open spec fn any_shows_open(replies: Seq<OrdersReply>) -> bool {
    exists|i: int| 0 <= i < replies.len() && shows_open(#[trigger] replies[i])
}

fn closed(status: &str) -> (r: bool)
    ensures
        r == is_closed(status@),
{
    same(status, "Filled") || same(status, "Cancelled") || same(status, "Canceled") || same(
        status,
        "Expired",
    ) || same(status, "Rejected") || same(status, "Executed") || same(status, "Complete") || same(
        status,
        "Completed",
    )
}

fn text_or(text: &Option<String>) -> (r: String)
    ensures
        r@ == text_or_dash(opt_text(*text)),
{
    match text {
        Some(t) => t.clone(),
        None => "-".to_owned(),
    }
}

fn read_order_fields(payload: &str) -> (r: OrderFields)
    ensures
        r@ == order_fields(order_tree(payload@)),
{
    let parsed: Result<serde_json::Value, String> = parse(payload);
    let value: Option<&serde_json::Value> = match &parsed {
        Ok(value) => Some(value),
        Err(_) => None,
    };
    let ghost tree = order_tree(payload@);
    let mut legs_told: usize = 0;
    let mut leg: Option<&serde_json::Value> = None;
    if let Some(legs) = list_of(field_of(value, "orderLegCollection")) {
        let ghost trees = legs@.map_values(|v: serde_json::Value| json_tree(v));
        assert(trees == order_legs(tree)->0);
        legs_told = legs.len();
        if legs_told > 0 {
            assert(trees[0] == json_tree(legs@[0]));
            leg = Some(&legs[0]);
        }
    }
    assert(opt_tree(leg) == first_leg(tree));
    OrderFields {
        legs: legs_told,
        symbol: string_of(field_of(field_of(leg, "instrument"), "symbol")),
        instruction: string_of(field_of(leg, "instruction")),
        quantity: number_of(field_of(leg, "quantity")),
        price: number_of(field_of(value, "price")),
    }
}

/// What is said of an open order for these things.
pub fn describe_order(order: &RecentOrder, fields: &OrderFields) -> (r: String)
    ensures
        r@ == order_line(order@, fields@),
{
    let quantity: String = match fields.quantity {
        Some(q) => if q.units != 0 {
            to_fixed(q, 0)
        } else {
            "-".to_owned()
        },
        None => "-".to_owned(),
    };
    let mut price: String = String::new();
    assert(price@ =~= Seq::empty());
    if let Some(p) = fields.price {
        price = " @ $".to_owned();
        price.append(to_fixed(p, 2).as_str());
    }
    let mut note: String = String::new();
    assert(note@ =~= Seq::empty());
    if fields.legs > 1 {
        note = " (+".to_owned();
        note.append(to_count_text(fields.legs - 1).as_str());
        note.append(" legs)");
    }
    let mut remark: String = String::new();
    assert(remark@ =~= Seq::empty());
    if let Some(description) = &order.status_description {
        if description.as_str().unicode_len() > 0 {
            remark = " - ".to_owned();
            remark.append(description.as_str());
        }
    }
    let mut r: String = "  • #".to_owned();
    append_left(&mut r, to_integer_text(order.order_id).as_str(), 12);
    r.append(" ");
    append_left(&mut r, order.status.as_str(), 12);
    r.append(" ");
    append_left(&mut r, text_or(&fields.instruction).as_str(), 6);
    r.append(" ");
    append_right(&mut r, quantity.as_str(), 6);
    r.append(" ");
    append_left(&mut r, text_or(&fields.symbol).as_str(), 8);
    r.append(price.as_str());
    r.append(note.as_str());
    r.append(" (entered ");
    r.append(order.entered.as_str());
    r.append(")");
    r.append(remark.as_str());
    r.append("\n");
    r
}

fn show_orders(reply: &OrdersReply) -> (r: (String, bool))
    ensures
        r.0@ == orders_text(*reply),
        r.1 == shows_open(*reply),
{
    match reply {
        OrdersReply::Fetched(orders) => {
            let ghost views = recent_order_views(orders@);
            let mut lines: String = String::new();
            let mut any: bool = false;
            let n: usize = orders.len();
            let mut i: usize = 0;
            assert(lines@ =~= Seq::empty());
            while i < n
                invariant
                    i <= n,
                    n == orders@.len(),
                    views == recent_order_views(orders@),
                    lines@ == order_lines(views.take(i as int)),
                    any == exists|j: int|
                        0 <= j < i && !is_closed((#[trigger] views[j]).status),
                decreases n - i,
            {
                let order: &RecentOrder = &orders[i];
                let ghost done = views.take(i + 1);
                assert(done.drop_last() =~= views.take(i as int));
                assert(done.last() == order@);
                assert(views[i as int] == order@);
                if !closed(order.status.as_str()) {
                    let fields: OrderFields = read_order_fields(order.payload.as_str());
                    let line: String = describe_order(order, &fields);
                    lines.append(line.as_str());
                    any = true;
                }
                i = i + 1;
            }
            assert(views.take(n as int) =~= views);
            if any {
                (lines, true)
            } else {
                ("  (no open orders)\n".to_owned(), false)
            }
        },
        OrdersReply::FetchFailed(reason) => {
            let mut r: String = "  ⚠️ Unable to fetch orders: ".to_owned();
            r.append(reason.as_str());
            r.append("\n");
            (r, false)
        },
        OrdersReply::RequestFailed(reason) => {
            let mut r: String = "  ⚠️ Unable to request orders: ".to_owned();
            r.append(reason.as_str());
            r.append("\n");
            (r, false)
        },
    }
}

/// One row of the table of symbols.
pub open spec fn symbol_row(config: SymbolView, quote: RealTimeQuote) -> Seq<char> {
    left_aligned(prefix(config.symbol, 5), 8) + " "@ + right_aligned(action_of(config, quote), 6)
        + " "@ + right_aligned(dollars_or_dash(quote.last_price), 8) + " "@ + right_aligned(
        percent_or_dash(quote.percent_change),
        7,
    ) + " "@ + right_aligned(count_or_dash(quote.total_volume), 12) + " "@ + right_aligned(
        count_or_dash(quote.avg_10_day_volume),
        13,
    ) + "\n"@
}

/// The rows for the symbols, each symbol where it is first configured.
pub open spec fn symbol_rows(
    symbols: Seq<SymbolView>,
    prices: Seq<(Seq<char>, RealTimeQuote)>,
) -> Seq<char>
    decreases symbols.len(),
{
    if symbols.len() == 0 {
        Seq::empty()
    } else {
        let config = symbols.last();
        let rest = symbol_rows(symbols.drop_last(), prices);
        if distinct_names(symbols.drop_last()).contains(config.symbol) {
            rest
        } else {
            rest + symbol_row(config, quote_of(prices, config.symbol))
        }
    }
}

/// The table of the configured symbols.
pub open spec fn symbol_table(
    symbols: Seq<SymbolView>,
    prices: Seq<(Seq<char>, RealTimeQuote)>,
) -> Seq<char> {
    if symbols.len() == 0 {
        Seq::empty()
    } else {
        "Tracked Symbols (regular session):\n"@
            + "Symbol   Signal  Last    %Chg    Volume        Avg 10D Vol\n"@
            + "-------- ------ -------- ------- ------------ -------------\n"@ + symbol_rows(
            symbols,
            prices,
        )
    }
}

/// The report on a bot.
pub open spec fn report_text(
    bot: BotView,
    timestamp: Seq<char>,
    balances: Seq<AccountBalance>,
    positions: Seq<AccountPositions>,
    orders: Seq<OrdersReply>,
) -> Seq<char> {
    let head = "📊 Schwab Bot - "@ + timestamp + "\n\n"@;
    if bot.account_hashes.len() == 0 {
        head + "⚠️ No account hashes are configured in symbols_config.json.\n"@
    } else {
        head + "Balance Summary:\n"@ + (if bot.has_api {
            balance_sections(bot, balances)
        } else {
            "  ⚠️ Schwab API client not initialized.\n\n"@
        }) + position_sections(bot, positions) + (if bot.has_api {
            "Open Orders (last 24h):\n"@ + order_sections(bot.account_hashes, orders) + (
            if any_shows_open(orders) {
                Seq::empty()
            } else {
                "  (no open orders found in the past 24 hours)\n"@
            }) + "\n"@
        } else {
            "Open Orders:\n  ⚠️ Schwab API client not initialized.\n\n"@
        }) + symbol_table(bot.symbols, bot.prices)
    }
}

/// The bot after a report: with the balances and the positions that were told for it.
pub open spec fn bot_after_report(
    bot: BotView,
    balances: Seq<AccountBalance>,
    positions: Seq<AccountPositions>,
) -> BotView {
    if bot.account_hashes.len() == 0 {
        bot
    } else {
        BotView {
            balances: balances_after(bot, balances),
            positions: positions_after(bot, positions),
            ..bot
        }
    }
}

impl TradingBot {
    fn report_balances(&mut self, answers: &Vec<AccountBalance>) -> (r: String)
        requires
            answers@.len() == old(self)@.account_hashes.len(),
            forall|i: int|
                0 <= i < old(self)@.account_hashes.len() ==> can_label(
                    #[trigger] old(self)@.account_hashes[i],
                ),
            old(self)@.has_api,
        ensures
            r@ == balance_sections(old(self)@, answers@),
            final(self)@ == (BotView {
                balances: balances_after(old(self)@, answers@),
                ..old(self)@
            }),
    {
        let ghost bot = self@;
        let ghost accounts = bot.account_hashes;
        let ghost values = reported_values(bot, answers@);
        let mut r: String = String::new();
        let mut balances: Table<Decimal> = Table::new();
        let mut any: bool = false;
        let n: usize = answers.len();
        let mut i: usize = 0;
        assert(r@ =~= Seq::empty());
        while i < n
            invariant
                i <= n,
                n == answers@.len(),
                n == self.account_hashes@.len(),
                bot == old(self)@,
                self@ == bot,
                accounts == texts(self.account_hashes@),
                values == reported_values(bot, answers@),
                forall|j: int| 0 <= j < accounts.len() ==> can_label(#[trigger] accounts[j]),
                r@ == balance_sections(bot, answers@.take(i as int)),
                balances@ == gathered(accounts, values.take(i as int)),
                any == any_known(values.take(i as int)),
            decreases n - i,
        {
            let account: &String = &self.account_hashes[i];
            let answer: &AccountBalance = &answers[i];
            assert(answers@.take(i + 1).drop_last() =~= answers@.take(i as int));
            assert(values.take(i + 1).drop_last() =~= values.take(i as int));
            assert(accounts[i as int] == account@);
            proof {
                lemma_any_known_step(values, i as int);
            }
            let at_ibkr: bool = self.uses_ibkr(account.as_str());
            r.append("Account ");
            r.append(account_label(account.as_str()).as_str());
            r.append(":\n");
            r.append(describe_balances(at_ibkr, answer).as_str());
            r.append("\n");
            if let Some(value) = value_reported(at_ibkr, answer) {
                balances.set(account.clone(), value);
                any = true;
            }
            i = i + 1;
        }
        assert(answers@.take(n as int) =~= answers@);
        assert(values.take(n as int) =~= values);
        if any {
            self.account_balances = balances;
        }
        r
    }

    fn report_positions(&mut self, replies: &Vec<AccountPositions>) -> (r: String)
        requires
            replies@.len() == old(self)@.account_hashes.len(),
            forall|i: int|
                0 <= i < old(self)@.account_hashes.len() ==> can_label(
                    #[trigger] old(self)@.account_hashes[i],
                ),
        ensures
            r@ == position_sections(old(self)@, replies@),
            final(self)@ == (BotView {
                positions: positions_after(old(self)@, replies@),
                ..old(self)@
            }),
    {
        let ghost before = self@;
        let ghost accounts = before.account_hashes;
        let mut r: String = String::new();
        let n: usize = replies.len();
        let mut i: usize = 0;
        assert(r@ =~= Seq::empty());
        while i < n
            invariant
                i <= n,
                n == replies@.len(),
                n == self.account_hashes@.len(),
                before == old(self)@,
                accounts == before.account_hashes,
                forall|j: int| 0 <= j < accounts.len() ==> can_label(#[trigger] accounts[j]),
                r@ == position_sections(before, replies@.take(i as int)),
                self@ == (BotView {
                    positions: positions_after(before, replies@.take(i as int)),
                    ..before
                }),
            decreases n - i,
        {
            let account: String = self.account_hashes[i].clone();
            let ghost done = replies@.take(i + 1);
            assert(done.drop_last() =~= replies@.take(i as int));
            assert(texts(self.account_hashes@)[i as int] == account@);
            assert(accounts[i as int] == account@);
            r.append("Positions for account ");
            r.append(account_label(account.as_str()).as_str());
            r.append(":\n");
            let at_ibkr: bool = self.uses_ibkr(account.as_str());
            let mut lines: String = String::new();
            if at_ibkr && !self.has_ib_client {
                lines = "  ⚠️ IBKR client not connected (missing environment variables)\n\n".to_owned();
            } else {
                match hear_positions(at_ibkr, &replies[i]) {
                    Some(Ok(list)) => {
                        let held: Table<Decimal> = held_from(list);
                        self.positions.set(account, held);
                        lines = show_positions(list);
                    },
                    Some(Err(reason)) => {
                        lines = if at_ibkr {
                            "  ⚠️ Unable to fetch IBKR positions: ".to_owned()
                        } else {
                            "  ⚠️ Unable to fetch positions: ".to_owned()
                        };
                        lines.append(reason.as_str());
                        lines.append("\n\n");
                    },
                    None => {
                        lines = "  ⚠️ No answer from the broker of the account.\n\n".to_owned();
                    },
                }
            }
            r.append(lines.as_str());
            i = i + 1;
        }
        assert(replies@.take(n as int) =~= replies@);
        r
    }

    fn report_orders(&self, replies: &Vec<OrdersReply>) -> (r: String)
        requires
            replies@.len() == self.account_hashes@.len(),
            forall|i: int|
                0 <= i < self@.account_hashes.len() ==> can_label(
                    #[trigger] self@.account_hashes[i],
                ),
        ensures
            r@ == "Open Orders (last 24h):\n"@ + order_sections(self@.account_hashes, replies@) + (
            if any_shows_open(replies@) {
                Seq::empty()
            } else {
                "  (no open orders found in the past 24 hours)\n"@
            }) + "\n"@,
    {
        let ghost accounts = self@.account_hashes;
        let mut sections: String = String::new();
        let mut any: bool = false;
        let n: usize = replies.len();
        let mut i: usize = 0;
        assert(sections@ =~= Seq::empty());
        while i < n
            invariant
                i <= n,
                n == replies@.len(),
                n == self.account_hashes@.len(),
                accounts == texts(self.account_hashes@),
                forall|j: int| 0 <= j < accounts.len() ==> can_label(#[trigger] accounts[j]),
                sections@ == order_sections(accounts, replies@.take(i as int)),
                any == exists|j: int| 0 <= j < i && shows_open(#[trigger] replies@[j]),
            decreases n - i,
        {
            assert(replies@.take(i + 1).drop_last() =~= replies@.take(i as int));
            assert(accounts[i as int] == self.account_hashes@[i as int]@);
            sections.append("Account ");
            sections.append(account_label(self.account_hashes[i].as_str()).as_str());
            sections.append(":\n");
            let (text, open) = show_orders(&replies[i]);
            sections.append(text.as_str());
            if open {
                any = true;
            }
            i = i + 1;
        }
        assert(replies@.take(n as int) =~= replies@);
        let mut r: String = "Open Orders (last 24h):\n".to_owned();
        r.append(sections.as_str());
        let mut remark: String = String::new();
        assert(remark@ =~= Seq::empty());
        if !any {
            remark = "  (no open orders found in the past 24 hours)\n".to_owned();
        }
        r.append(remark.as_str());
        r.append("\n");
        r
    }

    fn report_symbols(&self) -> (r: String)
        ensures
            r@ == symbol_table(self@.symbols, self@.prices),
    {
        let n: usize = self.symbols_config.len();
        if n == 0 {
            let r: String = String::new();
            assert(r@ =~= Seq::empty());
            return r;
        }
        let ghost symbols = self@.symbols;
        let mut rows: String = String::new();
        let mut seen: Vec<String> = Vec::new();
        let mut i: usize = 0;
        assert(rows@ =~= Seq::empty());
        assert(texts(seen@) =~= Seq::empty());
        while i < n
            invariant
                i <= n,
                n == self.symbols_config@.len(),
                symbols == self@.symbols,
                texts(seen@) == distinct_names(symbols.take(i as int)),
                rows@ == symbol_rows(symbols.take(i as int), self@.prices),
            decreases n - i,
        {
            let symbol: &Symbol = &self.symbols_config[i];
            let ghost done = symbols.take(i + 1);
            assert(done.drop_last() =~= symbols.take(i as int));
            assert(done.last() == symbol@);
            if !contains_text(&seen, symbol.symbol.as_str()) {
                let ghost before = texts(seen@);
                seen.push(symbol.symbol.clone());
                assert(texts(seen@) =~= before.push(symbol.symbol@));
                let quote: RealTimeQuote = self.quote(symbol.symbol.as_str());
                append_symbol_row(&mut rows, symbol, &quote);
            }
            i = i + 1;
        }
        assert(symbols.take(n as int) =~= symbols);
        let mut r: String = "Tracked Symbols (regular session):\n".to_owned();
        r.append("Symbol   Signal  Last    %Chg    Volume        Avg 10D Vol\n");
        r.append("-------- ------ -------- ------- ------------ -------------\n");
        r.append(rows.as_str());
        r
    }

    /// The report on the bot at a point in local time, from what the brokers answered on the
    /// balances, the positions and the recent orders of each account. The balances and the
    /// positions that were told for it are taken in.
    pub fn generate_status_report(
        &mut self,
        timestamp: &str,
        balances: &Vec<AccountBalance>,
        positions: &Vec<AccountPositions>,
        orders: &Vec<OrdersReply>,
    ) -> (r: String)
        requires
            old(self)@.has_api ==> balances@.len() == old(self)@.account_hashes.len(),
            old(self)@.has_api ==> orders@.len() == old(self)@.account_hashes.len(),
            positions@.len() == old(self)@.account_hashes.len(),
            forall|i: int|
                0 <= i < old(self)@.account_hashes.len() ==> can_label(
                    #[trigger] old(self)@.account_hashes[i],
                ),
        ensures
            r@ == report_text(old(self)@, timestamp@, balances@, positions@, orders@),
            final(self)@ == bot_after_report(old(self)@, balances@, positions@),
    {
        let mut r: String = "📊 Schwab Bot - ".to_owned();
        r.append(timestamp);
        r.append("\n\n");
        if self.account_hashes.len() == 0 {
            r.append("⚠️ No account hashes are configured in symbols_config.json.\n");
            return r;
        }
        r.append("Balance Summary:\n");
        if self.has_api {
            let text: String = self.report_balances(balances);
            r.append(text.as_str());
        } else {
            r.append("  ⚠️ Schwab API client not initialized.\n\n");
        }
        proof {
            lemma_positions_ignore_balances(old(self)@, self@, positions@);
        }
        let text: String = self.report_positions(positions);
        r.append(text.as_str());
        if self.has_api {
            r.append(self.report_orders(orders).as_str());
        } else {
            r.append("Open Orders:\n  ⚠️ Schwab API client not initialized.\n\n");
        }
        r.append(self.report_symbols().as_str());
        r
    }
}

fn append_symbol_row(out: &mut String, symbol: &Symbol, quote: &RealTimeQuote)
    ensures
        final(out)@ == old(out)@ + symbol_row(symbol@, *quote),
{
    let mut row: String = String::new();
    append_left(&mut row, take_prefix(symbol.symbol.as_str(), 5).as_str(), 8);
    assert(row@ =~= left_aligned(prefix(symbol.symbol@, 5), 8));
    row.append(" ");
    append_right(&mut row, action_for(symbol, quote), 6);
    row.append(" ");
    append_right(&mut row, show_dollars(quote.last_price).as_str(), 8);
    row.append(" ");
    append_right(&mut row, show_percent(quote.percent_change).as_str(), 7);
    row.append(" ");
    append_right(&mut row, show_count(quote.total_volume).as_str(), 12);
    row.append(" ");
    append_right(&mut row, show_count(quote.avg_10_day_volume).as_str(), 13);
    row.append("\n");
    assert(row@ == symbol_row(symbol@, *quote));
    out.append(row.as_str());
}

proof fn lemma_positions_ignore_balances(a: BotView, b: BotView, replies: Seq<AccountPositions>)
    requires
        b == (BotView { balances: b.balances, ..a }),
    ensures
        position_sections(b, replies) == position_sections(a, replies),
        positions_after(b, replies) == positions_after(a, replies),
    decreases replies.len(),
{
    if replies.len() > 0 {
        lemma_positions_ignore_balances(a, b, replies.drop_last());
    }
}

/// The report on orders is the same with the closed ones left out.
pub proof fn law_closed_orders_are_not_listed(orders: Seq<RecentOrderView>)
    ensures
        order_lines(orders) == order_lines(
            orders.filter(|o: RecentOrderView| !is_closed(o.status)),
        ),
        any_open(orders) == (orders.filter(|o: RecentOrderView| !is_closed(o.status)).len() > 0),
    decreases orders.len(),
{
    reveal(Seq::filter);
    let open = |o: RecentOrderView| !is_closed(o.status);
    if orders.len() > 0 {
        let rest = orders.drop_last();
        law_closed_orders_are_not_listed(rest);
        if open(orders.last()) {
            assert(orders.filter(open) =~= rest.filter(open).push(orders.last()));
            assert(orders.filter(open).drop_last() =~= rest.filter(open));
            assert(!is_closed(orders[orders.len() - 1].status));
        } else {
            assert(orders.filter(open) =~= rest.filter(open));
            if any_open(orders) {
                let i = choose|i: int|
                    0 <= i < orders.len() && !is_closed((#[trigger] orders[i]).status);
                assert(rest[i] == orders[i]);
            }
            if any_open(rest) {
                let i = choose|i: int|
                    0 <= i < rest.len() && !is_closed((#[trigger] rest[i]).status);
                assert(orders[i] == rest[i]);
            }
        }
    } else {
        assert(orders.filter(open) =~= orders);
    }
}

/// A report leaves the configuration, the quotes and the order history as they were.
pub proof fn law_report_keeps_the_rest(
    bot: BotView,
    balances: Seq<AccountBalance>,
    positions: Seq<AccountPositions>,
)
    ensures
        ({
            let after = bot_after_report(bot, balances, positions);
            &&& after.has_api == bot.has_api
            &&& after.has_ib_client == bot.has_ib_client
            &&& after.account_hashes == bot.account_hashes
            &&& after.symbols == bot.symbols
            &&& after.prices == bot.prices
            &&& after.history == bot.history
        }),
{
}

/// An account at Interactive Brokers is reported and remembered with the balance that is told
/// there, and whatever Schwab says of it has no effect.
pub proof fn law_ibkr_account_has_ibkr_balance(
    bot: BotView,
    answers: Seq<AccountBalance>,
    i: int,
)
    requires
        bot.has_api,
        answers.len() == bot.account_hashes.len(),
        0 <= i < answers.len(),
        account_at_ibkr(bot.symbols, bot.account_hashes[i]),
        forall|j: int, k: int|
            0 <= j < k < bot.account_hashes.len() ==> #[trigger] bot.account_hashes[j]
                != #[trigger] bot.account_hashes[k],
    ensures
        answers[i] matches AccountBalance::Ibkr(Ok(value)) ==> lookup(
            balances_after(bot, answers),
            bot.account_hashes[i],
        ) == Some(value) && balance_lines(true, answers[i]) == "IBKR Balance:    $"@
            + decimal_text(value, 2) + "\n"@,
        answers[i] is Schwab && any_known(reported_values(bot, answers)) ==> lookup(
            balances_after(bot, answers),
            bot.account_hashes[i],
        ) is None,
{
    let values = reported_values(bot, answers);
    law_gathered_mirrors_accounts(bot.account_hashes, values, i);
    if answers[i] matches AccountBalance::Ibkr(Ok(value)) {
        assert(values[i] is Some);
    }
}

proof fn lemma_equal_lists_equal_positions(
    bot: BotView,
    a: Seq<AccountPositions>,
    b: Seq<AccountPositions>,
)
    requires
        a.len() == b.len(),
        forall|i: int|
            0 <= i < a.len() ==> answered_list(
                account_at_ibkr(bot.symbols, bot.account_hashes[i]),
                #[trigger] a[i],
            ) == answered_list(account_at_ibkr(bot.symbols, bot.account_hashes[i]), b[i]),
    ensures
        positions_after(bot, a) == positions_after(bot, b),
    decreases a.len(),
{
    if a.len() > 0 {
        let last = a.len() - 1;
        assert(a.last() == a[last]);
        assert forall|i: int| 0 <= i < last implies answered_list(
            account_at_ibkr(bot.symbols, bot.account_hashes[i]),
            #[trigger] a.drop_last()[i],
        ) == answered_list(
            account_at_ibkr(bot.symbols, bot.account_hashes[i]),
            b.drop_last()[i],
        ) by {
            assert(a.drop_last()[i] == a[i]);
        }
        lemma_equal_lists_equal_positions(bot, a.drop_last(), b.drop_last());
    }
}

/// Only the broker that looks after an account has a say on its positions: an answer of the other
/// one changes as little as no list at all, in an update as in a report.
pub proof fn law_other_broker_has_no_say_on_positions(
    bot: BotView,
    answers: Seq<AccountPositions>,
    i: int,
    failed: AccountPositions,
)
    requires
        0 <= i < answers.len(),
        heard_positions(account_at_ibkr(bot.symbols, bot.account_hashes[i]), answers[i]) is None,
        answered_list(account_at_ibkr(bot.symbols, bot.account_hashes[i]), failed) is None,
    ensures
        with_positions(bot, answers) == with_positions(bot, answers.update(i, failed)),
        positions_after(bot, answers) == positions_after(bot, answers.update(i, failed)),
{
    assert(answered_lists(bot, answers) =~= answered_lists(bot, answers.update(i, failed)));
    lemma_equal_lists_equal_positions(bot, answers, answers.update(i, failed));
}

/// The sum of what is known of some numbers, without any bound.
pub open spec fn known_sum(values: Seq<Option<Decimal>>) -> int
    decreases values.len(),
{
    if values.len() == 0 {
        0
    } else {
        known_sum(values.drop_last()) + (match values.last() {
            Some(v) => v.units as int,
            None => 0,
        })
    }
}

/// A total is the sum of all the numbers that are known, as long as no partial sum leaves the
/// range; a number more raises it by just that number, and one that is not known by nothing.
pub proof fn law_totals_are_sums(values: Seq<Option<Decimal>>, more: Decimal)
    requires
        forall|n: int|
            0 <= n <= values.len() ==> i64::MIN <= known_sum(#[trigger] values.take(n))
                <= i64::MAX,
    ensures
        total(values).units == known_sum(values),
        i64::MIN <= total(values).units + more.units <= i64::MAX ==> total(
            values.push(Some(more)),
        ).units == total(values).units + more.units,
        total(values.push(None)) == total(values),
    decreases values.len(),
{
    assert(values.push(Some(more)).drop_last() =~= values);
    assert(values.push(None).drop_last() =~= values);
    assert(values.take(values.len() as int) =~= values);
    if values.len() > 0 {
        let rest = values.drop_last();
        assert forall|n: int| 0 <= n <= rest.len() implies i64::MIN <= known_sum(
            #[trigger] rest.take(n),
        ) <= i64::MAX by {
            assert(rest.take(n) =~= values.take(n));
        }
        law_totals_are_sums(rest, more);
    }
}

/// Below a table of positions stand the sums of the market values and of the profits of all its
/// rows, as long as no partial sum leaves the range.
pub proof fn law_table_ends_with_the_sums(list: Seq<PositionView>)
    requires
        list.len() > 0,
        forall|n: int|
            0 <= n <= list.len() ==> i64::MIN <= known_sum(
                (#[trigger] list.take(n)).map_values(|p: PositionView| p.market_value),
            ) <= i64::MAX,
        forall|n: int|
            0 <= n <= list.len() ==> i64::MIN <= known_sum(
                (#[trigger] list.take(n)).map_values(|p: PositionView| p.profit_loss),
            ) <= i64::MAX,
    ensures
        ({
            let value = known_sum(list.map_values(|p: PositionView| p.market_value));
            let profit = known_sum(list.map_values(|p: PositionView| p.profit_loss));
            position_table(list) == "Symbol Qty      AvgPrice MV     Cost   P / L  \n"@
                + "------ -------- -------- ------ ------ ------ \n"@ + position_rows(list)
                + "-----------------------------------------------------------\n"@
                + "Total Market Value: $"@ + fixed(value, 8, 2) + "\n"@
                + "Total P/L:          $"@ + fixed(profit, 8, 2) + "\n\n"@
        }),
{
    let values = list.map_values(|p: PositionView| p.market_value);
    let gains = list.map_values(|p: PositionView| p.profit_loss);
    assert(values =~= market_values(list));
    assert(gains =~= profits(list));
    assert forall|n: int| 0 <= n <= values.len() implies i64::MIN <= known_sum(
        #[trigger] values.take(n),
    ) <= i64::MAX by {
        assert(values.take(n) =~= list.take(n).map_values(|p: PositionView| p.market_value));
    }
    assert forall|n: int| 0 <= n <= gains.len() implies i64::MIN <= known_sum(
        #[trigger] gains.take(n),
    ) <= i64::MAX by {
        assert(gains.take(n) =~= list.take(n).map_values(|p: PositionView| p.profit_loss));
    }
    law_totals_are_sums(values, Decimal { units: 0 });
    law_totals_are_sums(gains, Decimal { units: 0 });
}

/// A table of positions has one row for each, in their order. A row shows the first five letters of
/// the symbol, the shares with their side, and the average price, the market value, the cost and
/// the profit as far as they are known, each in its column.
pub proof fn law_every_position_has_its_row(list: Seq<PositionView>, p: PositionView)
    ensures
        position_rows(Seq::<PositionView>::empty()) == Seq::<char>::empty(),
        position_table(Seq::<PositionView>::empty()) == "(No Open Positions)\n\n"@,
        position_rows(list.push(p)) == position_rows(list) + (left_aligned(
            if p.symbol.len() > 5 {
                p.symbol.take(5)
            } else {
                p.symbol
            },
            6,
        ) + " "@ + right_aligned(
            fixed(p.quantity.units as int, 8, 0) + if p.is_short {
                " S"@
            } else {
                " L"@
            },
            8,
        ) + " "@ + right_aligned(
            match p.average_price {
                Some(v) => fixed(v.units as int, 8, 2),
                None => "-"@,
            },
            8,
        ) + " "@ + right_aligned(
            match p.market_value {
                Some(v) => fixed(v.units as int, 8, 0),
                None => "-"@,
            },
            6,
        ) + " "@ + right_aligned(
            match p.cost_basis {
                Some(v) => fixed(v.units as int, 8, 0),
                None => "-"@,
            },
            6,
        ) + " "@ + right_aligned(
            match p.profit_loss {
                Some(v) => fixed(v.units as int, 8, 0),
                None => "-"@,
            },
            6,
        ) + " \n"@),
{
    assert(list.push(p).drop_last() =~= list);
}

/// What is said of balances: of two those of a cash account, of three those of a margin account, of
/// any other number that they are odd; of one from Interactive Brokers itself; of a failure its
/// reason. Only the broker of the account is listened to.
pub proof fn law_balances_are_named(values: Vec<Decimal>, value: Decimal, reason: String)
    ensures
        values@.len() == 2 ==> balance_lines(false, AccountBalance::Schwab(Ok(values)))
            == "Cash Available for Trading: $"@ + fixed(values@[0].units as int, 8, 2) + "\n"@
            + "Liquidation Value:           $"@ + fixed(values@[1].units as int, 8, 2) + "\n"@,
        values@.len() == 3 ==> balance_lines(false, AccountBalance::Schwab(Ok(values)))
            == "Available Funds: $"@ + fixed(values@[0].units as int, 8, 2) + "\n"@
            + "Buying Power:    $"@ + fixed(values@[1].units as int, 8, 2) + "\n"@
            + "Equity:          $"@ + fixed(values@[2].units as int, 8, 2) + "\n"@,
        values@.len() != 2 && values@.len() != 3 ==> balance_lines(
            false,
            AccountBalance::Schwab(Ok(values)),
        ) == "⚠️ Received unexpected balance payload from Schwab.\n"@,
        balance_lines(false, AccountBalance::Schwab(Err(reason)))
            == "⚠️ Unable to fetch balances: "@ + reason@ + "\n"@,
        balance_lines(true, AccountBalance::Ibkr(Ok(value))) == "IBKR Balance:    $"@ + fixed(
            value.units as int,
            8,
            2,
        ) + "\n"@,
        balance_lines(true, AccountBalance::Ibkr(Err(reason)))
            == "⚠️ Unable to fetch IBKR balance: "@ + reason@ + "\n"@,
        balance_lines(true, AccountBalance::Schwab(Ok(values)))
            == "⚠️ No answer from the broker of the account.\n"@,
        balance_lines(true, AccountBalance::Schwab(Err(reason)))
            == "⚠️ No answer from the broker of the account.\n"@,
        balance_lines(false, AccountBalance::Ibkr(Ok(value)))
            == "⚠️ No answer from the broker of the account.\n"@,
        balance_lines(false, AccountBalance::Ibkr(Err(reason)))
            == "⚠️ No answer from the broker of the account.\n"@,
{
}

/// After a report the portfolio value of an account at Schwab is the last of its balances, and that
/// of an account at Interactive Brokers the one that it tells; of an account whose own broker gave
/// no figure none is kept. Where no broker gave any figure, or there is no Schwab client, all stay
/// as they were.
pub proof fn law_portfolio_values_after_a_report(
    bot: BotView,
    balances: Seq<AccountBalance>,
    positions: Seq<AccountPositions>,
    i: int,
)
    requires
        bot.has_api ==> balances.len() == bot.account_hashes.len(),
        0 <= i < bot.account_hashes.len(),
        forall|j: int, k: int|
            0 <= j < k < bot.account_hashes.len() ==> #[trigger] bot.account_hashes[j]
                != #[trigger] bot.account_hashes[k],
    ensures
        ({
            let after = bot_after_report(bot, balances, positions);
            let kept = lookup(after.balances, bot.account_hashes[i]);
            let heard = bot.has_api && exists|k: int|
                0 <= k < balances.len() && gives_balance(
                    names_ibkr(bot.symbols, bot.account_hashes[k]),
                    #[trigger] balances[k],
                );
            &&& !heard ==> after.balances == bot.balances
            &&& heard ==> if names_ibkr(bot.symbols, bot.account_hashes[i]) {
                match balances[i] {
                    AccountBalance::Ibkr(Ok(value)) => kept == Some(value),
                    _ => kept is None,
                }
            } else {
                match balances[i] {
                    AccountBalance::Schwab(Ok(values)) => if values@.len() > 0 {
                        kept == Some(values@[values@.len() - 1])
                    } else {
                        kept is None
                    },
                    _ => kept is None,
                }
            }
        }),
{
    if bot.has_api {
        let values = reported_values(bot, balances);
        law_gathered_mirrors_accounts(bot.account_hashes, values, i);
        law_one_symbol_decides_the_broker(bot.symbols, bot.account_hashes[i]);
        assert forall|k: int| 0 <= k < balances.len() implies (values[k] is Some <==> gives_balance(
            names_ibkr(bot.symbols, bot.account_hashes[k]),
            #[trigger] balances[k],
        )) by {
            law_one_symbol_decides_the_broker(bot.symbols, bot.account_hashes[k]);
        }
        if any_known(values) {
            let k = choose|k: int| 0 <= k < values.len() && (#[trigger] values[k]) is Some;
            assert(gives_balance(names_ibkr(bot.symbols, bot.account_hashes[k]), balances[k]));
        } else {
            assert forall|k: int| 0 <= k < balances.len() implies !gives_balance(
                names_ibkr(bot.symbols, bot.account_hashes[k]),
                #[trigger] balances[k],
            ) by {
                assert(!(values[k] is Some));
            }
        }
    }
}

/// After a report an account holds what its own broker lists for it, of each symbol the quantity of
/// its last position; where that broker lists nothing, fails, or has no client, the account holds
/// what it held before.
pub proof fn law_holdings_after_a_report(
    bot: BotView,
    balances: Seq<AccountBalance>,
    answers: Seq<AccountPositions>,
    i: int,
    symbol: Seq<char>,
    k: int,
)
    requires
        answers.len() == bot.account_hashes.len(),
        0 <= i < answers.len(),
        forall|a: int, b: int|
            0 <= a < b < bot.account_hashes.len() ==> #[trigger] bot.account_hashes[a]
                != #[trigger] bot.account_hashes[b],
        own_list(names_ibkr(bot.symbols, bot.account_hashes[i]), answers[i]) matches Some(list) ==> {
            &&& -1 <= k < list.len()
            &&& k >= 0 ==> list[k].symbol == symbol
            &&& forall|j: int| k < j < list.len() ==> (#[trigger] list[j]).symbol != symbol
        },
    ensures
        ({
            let after = bot_after_report(bot, balances, answers);
            let account = bot.account_hashes[i];
            let at_ibkr = names_ibkr(bot.symbols, account);
            if (at_ibkr && !bot.has_ib_client) || own_list(at_ibkr, answers[i]) is None {
                lookup(after.positions, account) == lookup(bot.positions, account)
            } else {
                let list = own_list(at_ibkr, answers[i])->0;
                lookup(after.positions, account) matches Some(held) && {
                    &&& k >= 0 ==> lookup(held, symbol) == Some(list[k].quantity)
                    &&& k < 0 ==> lookup(held, symbol) is None
                }
            }
        }),
{
    let account = bot.account_hashes[i];
    law_one_symbol_decides_the_broker(bot.symbols, account);
    lemma_positions_of_account(bot, answers, i);
    if let Some(list) = own_list(names_ibkr(bot.symbols, account), answers[i]) {
        law_last_quantity_stands(list, symbol, k);
    }
}

proof fn lemma_positions_of_account(bot: BotView, answers: Seq<AccountPositions>, i: int)
    requires
        answers.len() <= bot.account_hashes.len(),
        0 <= i < bot.account_hashes.len(),
        forall|a: int, b: int|
            0 <= a < b < bot.account_hashes.len() ==> #[trigger] bot.account_hashes[a]
                != #[trigger] bot.account_hashes[b],
    ensures
        ({
            let account = bot.account_hashes[i];
            let at_ibkr = names_ibkr(bot.symbols, account);
            if i >= answers.len() || (at_ibkr && !bot.has_ib_client) || own_list(
                at_ibkr,
                answers[i],
            ) is None {
                lookup(positions_after(bot, answers), account) == lookup(bot.positions, account)
            } else {
                lookup(positions_after(bot, answers), account) == Some(
                    quantities(own_list(at_ibkr, answers[i])->0),
                )
            }
        }),
    decreases answers.len(),
{
    if answers.len() > 0 {
        let n = answers.len() - 1;
        let rest = answers.drop_last();
        let account = bot.account_hashes[n];
        lemma_positions_of_account(bot, rest, i);
        law_one_symbol_decides_the_broker(bot.symbols, account);
        if i < n {
            assert(rest[i] == answers[i]);
        }
        if let Some(list) = answered_list(account_at_ibkr(bot.symbols, account), answers.last()) {
            law_put_then_lookup(
                positions_after(bot, rest),
                account,
                quantities(list),
                bot.account_hashes[i],
            );
        }
    }
}

/// The positions of an account are shown as their own broker lists them; a failure with its reason
/// and broker; that the client is missing where it is needed; and that nothing was heard where only
/// the other broker answered.
pub proof fn law_positions_are_named(
    bot: BotView,
    account: Seq<char>,
    list: Vec<PositionSummary>,
    reason: String,
)
    ensures
        ({
            let at_ibkr = names_ibkr(bot.symbols, account);
            let unheard = "  ⚠️ No answer from the broker of the account.\n\n"@;
            if at_ibkr && !bot.has_ib_client {
                forall|answer: AccountPositions| #[trigger]
                    position_lines(bot, account, answer)
                        == "  ⚠️ IBKR client not connected (missing environment variables)\n\n"@
            } else if at_ibkr {
                &&& position_lines(bot, account, AccountPositions::Ibkr(Ok(list)))
                    == position_table(list@.map_values(|p: PositionSummary| p@))
                &&& position_lines(bot, account, AccountPositions::Ibkr(Err(reason)))
                    == "  ⚠️ Unable to fetch IBKR positions: "@ + reason@ + "\n\n"@
                &&& position_lines(bot, account, AccountPositions::Schwab(Ok(list))) == unheard
                &&& position_lines(bot, account, AccountPositions::Schwab(Err(reason))) == unheard
            } else {
                &&& position_lines(bot, account, AccountPositions::Schwab(Ok(list)))
                    == position_table(list@.map_values(|p: PositionSummary| p@))
                &&& position_lines(bot, account, AccountPositions::Schwab(Err(reason)))
                    == "  ⚠️ Unable to fetch positions: "@ + reason@ + "\n\n"@
                &&& position_lines(bot, account, AccountPositions::Ibkr(Ok(list))) == unheard
                &&& position_lines(bot, account, AccountPositions::Ibkr(Err(reason))) == unheard
            }
        }),
{
    law_one_symbol_decides_the_broker(bot.symbols, account);
    assert(position_views(list@) =~= list@.map_values(|p: PositionSummary| p@));
}

/// A report has one section for each account, in their order, on balances, on positions and on
/// orders: an account more adds its own section behind the others, under its label.
pub proof fn law_every_account_has_its_sections(
    bot: BotView,
    balances: Seq<AccountBalance>,
    balance: AccountBalance,
    positions: Seq<AccountPositions>,
    position: AccountPositions,
    orders: Seq<OrdersReply>,
    order: OrdersReply,
)
    ensures
        balance_sections(bot, Seq::empty()) == Seq::<char>::empty(),
        position_sections(bot, Seq::empty()) == Seq::<char>::empty(),
        order_sections(bot.account_hashes, Seq::empty()) == Seq::<char>::empty(),
        balance_sections(bot, balances.push(balance)) == balance_sections(bot, balances)
            + "Account "@ + label(bot.account_hashes[balances.len() as int]) + ":\n"@
            + balance_lines(
            names_ibkr(bot.symbols, bot.account_hashes[balances.len() as int]),
            balance,
        ) + "\n"@,
        position_sections(bot, positions.push(position)) == position_sections(bot, positions)
            + "Positions for account "@ + label(bot.account_hashes[positions.len() as int])
            + ":\n"@ + position_lines(
            bot,
            bot.account_hashes[positions.len() as int],
            position,
        ),
        order_sections(bot.account_hashes, orders.push(order)) == order_sections(
            bot.account_hashes,
            orders,
        ) + "Account "@ + label(bot.account_hashes[orders.len() as int]) + ":\n"@ + orders_text(
            order,
        ),
{
    assert(balances.push(balance).drop_last() =~= balances);
    assert(positions.push(position).drop_last() =~= positions);
    assert(orders.push(order).drop_last() =~= orders);
    law_one_symbol_decides_the_broker(
        bot.symbols,
        bot.account_hashes[balances.len() as int],
    );
}

/// An order is over just where its status is one of these.
pub proof fn law_closed_states(status: Seq<char>)
    ensures
        is_closed(status) <==> {
            ||| status == "Filled"@
            ||| status == "Cancelled"@
            ||| status == "Canceled"@
            ||| status == "Expired"@
            ||| status == "Rejected"@
            ||| status == "Executed"@
            ||| status == "Complete"@
            ||| status == "Completed"@
        },
{
}

/// The open orders of an account are listed in their order, one line each; without any, it is said
/// that there are none. A failure is told with its reason.
pub proof fn law_open_orders_are_listed(
    orders: Seq<RecentOrderView>,
    order: RecentOrderView,
    list: Vec<RecentOrder>,
    reason: String,
)
    ensures
        order_lines(Seq::<RecentOrderView>::empty()) == Seq::<char>::empty(),
        is_closed(order.status) ==> order_lines(orders.push(order)) == order_lines(orders),
        !is_closed(order.status) ==> order_lines(orders.push(order)) == order_lines(orders)
            + order_line(order, order_fields(order_tree(order.payload))),
        (forall|i: int| 0 <= i < list@.len() ==> is_closed((#[trigger] list@[i]).status@))
            ==> orders_text(OrdersReply::Fetched(list)) == "  (no open orders)\n"@,
        (exists|i: int| 0 <= i < list@.len() && !is_closed((#[trigger] list@[i]).status@))
            ==> orders_text(OrdersReply::Fetched(list)) == order_lines(
            list@.map_values(|o: RecentOrder| o@),
        ),
        orders_text(OrdersReply::FetchFailed(reason)) == "  ⚠️ Unable to fetch orders: "@ + reason@
            + "\n"@,
        orders_text(OrdersReply::RequestFailed(reason)) == "  ⚠️ Unable to request orders: "@
            + reason@ + "\n"@,
{
    assert(orders.push(order).drop_last() =~= orders);
    let views = recent_order_views(list@);
    assert(views =~= list@.map_values(|o: RecentOrder| o@));
    if any_open(views) {
        let i = choose|i: int| 0 <= i < views.len() && !is_closed((#[trigger] views[i]).status);
        assert(!is_closed(list@[i].status@));
    }
    if exists|i: int| 0 <= i < list@.len() && !is_closed((#[trigger] list@[i]).status@) {
        let i = choose|i: int| 0 <= i < list@.len() && !is_closed((#[trigger] list@[i]).status@);
        assert(!is_closed(views[i].status));
    }
}

/// An open order is shown with its number, status, instruction, quantity and symbol in columns,
/// then its price, how many legs it has besides the first, when it was entered, and what is said of
/// its status, each as far as there is anything to show.
pub proof fn law_order_line_shows_all(order: RecentOrderView, fields: OrderFieldsView)
    ensures
        order_line(order, fields) == "  • #"@ + left_aligned(integer(order.order_id), 12) + " "@
            + left_aligned(order.status, 12) + " "@ + left_aligned(
            match fields.instruction {
                Some(text) => text,
                None => "-"@,
            },
            6,
        ) + " "@ + right_aligned(
            match fields.quantity {
                Some(q) => if q.units == 0 {
                    "-"@
                } else {
                    fixed(q.units as int, 8, 0)
                },
                None => "-"@,
            },
            6,
        ) + " "@ + left_aligned(
            match fields.symbol {
                Some(text) => text,
                None => "-"@,
            },
            8,
        ) + (match fields.price {
            Some(p) => " @ $"@ + fixed(p.units as int, 8, 2),
            None => Seq::empty(),
        }) + (if fields.legs >= 2 {
            " (+"@ + digits(fields.legs - 1) + " legs)"@
        } else {
            Seq::empty()
        }) + " (entered "@ + order.entered + ")"@ + (match order.status_description {
            Some(text) => if text.len() == 0 {
                Seq::empty()
            } else {
                " - "@ + text
            },
            None => Seq::empty(),
        }) + "\n"@,
{
}

/// What an order is for is read from its own fields: the price, and of its legs how many there are
/// and the symbol, instruction and quantity of the first.
pub proof fn law_order_fields_are_read(
    fields: Map<Seq<char>, JsonTree>,
    legs: Seq<JsonTree>,
    leg: Map<Seq<char>, JsonTree>,
    instrument: Map<Seq<char>, JsonTree>,
)
    requires
        fields.contains_key("orderLegCollection"@),
        fields["orderLegCollection"@] == JsonTree::List(legs),
        legs.len() > 0 ==> legs[0] == JsonTree::Fields(leg),
    ensures
        ({
            let read = order_fields(JsonTree::Fields(fields));
            &&& read.legs == legs.len()
            &&& fields.contains_key("price"@) ==> read.price == opt_number(Some(fields["price"@]))
            &&& !fields.contains_key("price"@) ==> read.price is None
            &&& legs.len() == 0 ==> read.symbol is None && read.instruction is None
                && read.quantity is None
            &&& legs.len() > 0 ==> {
                &&& leg.contains_key("instruction"@) ==> read.instruction == opt_string(
                    Some(leg["instruction"@]),
                )
                &&& !leg.contains_key("instruction"@) ==> read.instruction is None
                &&& leg.contains_key("quantity"@) ==> read.quantity == opt_number(
                    Some(leg["quantity"@]),
                )
                &&& !leg.contains_key("quantity"@) ==> read.quantity is None
                &&& !leg.contains_key("instrument"@) ==> read.symbol is None
                &&& leg.contains_key("instrument"@) && leg["instrument"@] == JsonTree::Fields(
                    instrument,
                ) ==> if instrument.contains_key("symbol"@) {
                    read.symbol == opt_string(Some(instrument["symbol"@]))
                } else {
                    read.symbol is None
                }
            }
        }),
{
}

/// The table of symbols has one row for each symbol, where it is first configured: the first five
/// letters of its name, its signal, and what is known of its market, each in its column.
pub proof fn law_every_symbol_has_its_row(
    symbols: Seq<SymbolView>,
    config: SymbolView,
    prices: Seq<(Seq<char>, RealTimeQuote)>,
    quote: RealTimeQuote,
)
    requires
        lookup(prices, config.symbol) == Some(quote),
    ensures
        symbol_rows(Seq::<SymbolView>::empty(), prices) == Seq::<char>::empty(),
        (exists|i: int| 0 <= i < symbols.len() && (#[trigger] symbols[i]).symbol == config.symbol)
            ==> symbol_rows(symbols.push(config), prices) == symbol_rows(symbols, prices),
        (forall|i: int| 0 <= i < symbols.len() ==> (#[trigger] symbols[i]).symbol != config.symbol)
            ==> symbol_rows(symbols.push(config), prices) == symbol_rows(symbols, prices) + (
        left_aligned(
            if config.symbol.len() > 5 {
                config.symbol.take(5)
            } else {
                config.symbol
            },
            8,
        ) + " "@ + right_aligned(
            match quote.percent_change {
                Some(change) => if change.units >= config.exit_threshold.units {
                    "SELL"@
                } else if change.units <= config.entry_threshold.units {
                    "BUY"@
                } else {
                    "HOLD"@
                },
                None => "HOLD"@,
            },
            6,
        ) + " "@ + right_aligned(
            match quote.last_price {
                Some(price) => "$"@ + fixed(price.units as int, 8, 2),
                None => "-"@,
            },
            8,
        ) + " "@ + right_aligned(
            match quote.percent_change {
                Some(change) => (if change.units < 0 {
                    fixed(change.units as int, 8, 2)
                } else {
                    "+"@ + fixed(change.units as int, 8, 2)
                }) + "%"@,
                None => "-"@,
            },
            7,
        ) + " "@ + right_aligned(
            match quote.total_volume {
                Some(count) => grouped_integer(count as int),
                None => "-"@,
            },
            12,
        ) + " "@ + right_aligned(
            match quote.avg_10_day_volume {
                Some(count) => grouped_integer(count as int),
                None => "-"@,
            },
            13,
        ) + "\n"@),
{
    let more = symbols.push(config);
    assert(more.drop_last() =~= symbols);
    law_names_are_those_of_symbols(symbols);
    let names = distinct_names(symbols);
    if names.contains(config.symbol) {
        let k = choose|k: int| 0 <= k < names.len() && names[k] == config.symbol;
        let i = choose|i: int| 0 <= i < symbols.len() && (#[trigger] symbols[i]).symbol == names[k];
        assert(symbols[i].symbol == config.symbol);
    }
}

/// A symbol of which nothing is known is shown with dashes, to be held.
pub proof fn law_unknown_symbol_has_dashes(
    symbols: Seq<SymbolView>,
    config: SymbolView,
    prices: Seq<(Seq<char>, RealTimeQuote)>,
)
    requires
        lookup(prices, config.symbol) is None,
        forall|i: int| 0 <= i < symbols.len() ==> (#[trigger] symbols[i]).symbol != config.symbol,
    ensures
        symbol_rows(symbols.push(config), prices) == symbol_rows(symbols, prices) + (left_aligned(
            if config.symbol.len() > 5 {
                config.symbol.take(5)
            } else {
                config.symbol
            },
            8,
        ) + " "@ + right_aligned("HOLD"@, 6) + " "@ + right_aligned("-"@, 8) + " "@ + right_aligned(
            "-"@,
            7,
        ) + " "@ + right_aligned("-"@, 12) + " "@ + right_aligned("-"@, 13) + "\n"@),
{
    let more = symbols.push(config);
    assert(more.drop_last() =~= symbols);
    law_names_are_those_of_symbols(symbols);
    let names = distinct_names(symbols);
    if names.contains(config.symbol) {
        let k = choose|k: int| 0 <= k < names.len() && names[k] == config.symbol;
        let i = choose|i: int| 0 <= i < symbols.len() && (#[trigger] symbols[i]).symbol == names[k];
        assert(symbols[i].symbol == config.symbol);
    }
}

/// A report tells in this order of its time, the balances, the positions, the open orders and the
/// symbols, and says where a client is missing or no order is open. Without accounts it says only
/// that.
pub proof fn law_report_tells_all(
    bot: BotView,
    timestamp: Seq<char>,
    balances: Seq<AccountBalance>,
    positions: Seq<AccountPositions>,
    orders: Seq<OrdersReply>,
)
    ensures
        ({
            let text = report_text(bot, timestamp, balances, positions, orders);
            let head = "📊 Schwab Bot - "@ + timestamp + "\n\n"@;
            let open = exists|a: int, i: int|
                #![trigger orders[a]->Fetched_0@[i]]
                0 <= a < orders.len() && orders[a] is Fetched && 0 <= i
                    < orders[a]->Fetched_0@.len() && !is_closed(
                    orders[a]->Fetched_0@[i].status@,
                );
            let symbols = if bot.symbols.len() == 0 {
                Seq::empty()
            } else {
                "Tracked Symbols (regular session):\n"@
                    + "Symbol   Signal  Last    %Chg    Volume        Avg 10D Vol\n"@
                    + "-------- ------ -------- ------- ------------ -------------\n"@
                    + symbol_rows(bot.symbols, bot.prices)
            };
            &&& bot.account_hashes.len() == 0 ==> text == head
                + "⚠️ No account hashes are configured in symbols_config.json.\n"@
            &&& bot.account_hashes.len() > 0 && !bot.has_api ==> text == head
                + "Balance Summary:\n"@ + "  ⚠️ Schwab API client not initialized.\n\n"@
                + position_sections(bot, positions)
                + "Open Orders:\n  ⚠️ Schwab API client not initialized.\n\n"@ + symbols
            &&& bot.account_hashes.len() > 0 && bot.has_api && open ==> text == head
                + "Balance Summary:\n"@ + balance_sections(bot, balances) + position_sections(
                bot,
                positions,
            ) + ("Open Orders (last 24h):\n"@ + order_sections(bot.account_hashes, orders) + "\n"@)
                + symbols
            &&& bot.account_hashes.len() > 0 && bot.has_api && !open ==> text == head
                + "Balance Summary:\n"@ + balance_sections(bot, balances) + position_sections(
                bot,
                positions,
            ) + ("Open Orders (last 24h):\n"@ + order_sections(bot.account_hashes, orders)
                + "  (no open orders found in the past 24 hours)\n"@ + "\n"@) + symbols
        }),
{
    let open = exists|a: int, i: int|
        #![trigger orders[a]->Fetched_0@[i]]
        0 <= a < orders.len() && orders[a] is Fetched && 0 <= i < orders[a]->Fetched_0@.len()
            && !is_closed(orders[a]->Fetched_0@[i].status@);
    if any_shows_open(orders) {
        let a = choose|a: int| 0 <= a < orders.len() && shows_open(#[trigger] orders[a]);
        let views = recent_order_views(orders[a]->Fetched_0@);
        let i = choose|i: int| 0 <= i < views.len() && !is_closed((#[trigger] views[i]).status);
        assert(!is_closed(orders[a]->Fetched_0@[i].status@));
        assert(open);
    }
    if open {
        let (a, i) = choose|a: int, i: int|
            #![trigger orders[a]->Fetched_0@[i]]
            0 <= a < orders.len() && orders[a] is Fetched && 0 <= i < orders[a]->Fetched_0@.len()
                && !is_closed(orders[a]->Fetched_0@[i].status@);
        let views = recent_order_views(orders[a]->Fetched_0@);
        assert(!is_closed(views[i].status));
        assert(shows_open(orders[a]));
    }
    let list = order_sections(bot.account_hashes, orders);
    assert("Open Orders (last 24h):\n"@ + list + Seq::<char>::empty() + "\n"@
        =~= "Open Orders (last 24h):\n"@ + list + "\n"@);
}

/// The views of orders show their fields under their own names, and lists of them item by item.
pub proof fn law_report_views_show_fields(
    o: RecentOrder,
    f: OrderFields,
    list: Seq<RecentOrder>,
    i: int,
)
    ensures
        o@.order_id == o.order_id,
        o@.status == o.status@,
        o.status_description matches Some(text) ==> o@.status_description == Some(text@),
        o.status_description is None ==> o@.status_description is None,
        o@.entered == o.entered@,
        o@.payload == o.payload@,
        f@.legs == f.legs,
        f.symbol matches Some(text) ==> f@.symbol == Some(text@),
        f.symbol is None ==> f@.symbol is None,
        f.instruction matches Some(text) ==> f@.instruction == Some(text@),
        f.instruction is None ==> f@.instruction is None,
        f@.quantity == f.quantity,
        f@.price == f.price,
        recent_order_views(list).len() == list.len(),
        0 <= i < list.len() ==> recent_order_views(list)[i] == list[i]@,
{
}

/// An order that tells of no legs has none, and no symbol, instruction or quantity; its price is
/// read all the same.
pub proof fn law_order_without_legs(fields: Map<Seq<char>, JsonTree>, order: JsonTree)
    ensures
        !fields.contains_key("orderLegCollection"@) || !(fields["orderLegCollection"@] is List) ==> {
            let read = order_fields(JsonTree::Fields(fields));
            &&& read.legs == 0
            &&& read.symbol is None
            &&& read.instruction is None
            &&& read.quantity is None
            &&& fields.contains_key("price"@) ==> read.price == opt_number(Some(fields["price"@]))
            &&& !fields.contains_key("price"@) ==> read.price is None
        },
        !(order is Fields) ==> {
            let read = order_fields(order);
            &&& read.legs == 0
            &&& read.symbol is None
            &&& read.instruction is None
            &&& read.quantity is None
            &&& read.price is None
        },
{
}

/// One more number raises a total by itself, as far as the range goes: a total stops at the end of
/// the range that it would leave.
pub proof fn law_totals_stay_in_range(values: Seq<Option<Decimal>>, more: Decimal)
    ensures
        ({
            let before = total(values).units + more.units;
            let after = total(values.push(Some(more))).units;
            &&& -0x8000_0000_0000_0000 <= before <= 0x7fff_ffff_ffff_ffff ==> after == before
            &&& before > 0x7fff_ffff_ffff_ffff ==> after == 0x7fff_ffff_ffff_ffff
            &&& before < -0x8000_0000_0000_0000 ==> after == -0x8000_0000_0000_0000
        }),
        total(values.push(None)) == total(values),
        total(Seq::empty()).units == 0,
{
    assert(values.push(Some(more)).drop_last() =~= values);
    assert(values.push(None).drop_last() =~= values);
}

} // verus!
