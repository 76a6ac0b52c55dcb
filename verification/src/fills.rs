//! What becomes of an order at Interactive Brokers.
use crate::bot::{BotView, TradingBot};
use crate::clock::UtcTime;
use crate::decimal::{clamp, Decimal};
use crate::format::{plain_text, to_plain};
use crate::ibkr::FeedAction;
use crate::risk::held_quantity;
use crate::table::{law_put_then_lookup, lookup, put, Table};
use crate::text::{same, unicode_upper, unicode_uppercase};
use vstd::prelude::*;

verus! {

/// News of an order.
#[derive(Debug)]
pub enum OrderEvent {
    Status { status: String },
    Execution {
        execution_id: String,
        account_number: String,
        symbol: String,
        side: String,
        shares: Decimal,
        price: Decimal,
    },
    Commission { execution_id: String, commission: Decimal, currency: String },
    /// News that changes nothing.
    Other,
    /// The stream of news failed.
    Failed,
}

pub enum OrderEventView {
    Status { status: Seq<char> },
    Execution {
        execution_id: Seq<char>,
        account_number: Seq<char>,
        symbol: Seq<char>,
        side: Seq<char>,
        shares: Decimal,
        price: Decimal,
    },
    Commission { execution_id: Seq<char>, commission: Decimal, currency: Seq<char> },
    Other,
    Failed,
}

impl View for OrderEvent {
    type V = OrderEventView;

    open spec fn view(&self) -> OrderEventView {
        match *self {
            OrderEvent::Status { status } => OrderEventView::Status { status: status@ },
            OrderEvent::Execution {
                execution_id,
                account_number,
                symbol,
                side,
                shares,
                price,
            } => OrderEventView::Execution {
                execution_id: execution_id@,
                account_number: account_number@,
                symbol: symbol@,
                side: side@,
                shares,
                price,
            },
            OrderEvent::Commission { execution_id, commission, currency } =>
                OrderEventView::Commission {
                execution_id: execution_id@,
                commission,
                currency: currency@,
            },
            OrderEvent::Other => OrderEventView::Other,
            OrderEvent::Failed => OrderEventView::Failed,
        }
    }
}

/// A line for one of the audit files.
#[derive(Debug)]
pub enum AuditLine {
    Execution(String),
    Commission(String),
}

pub enum AuditLineView {
    Execution(Seq<char>),
    Commission(Seq<char>),
}

impl View for AuditLine {
    type V = AuditLineView;

    open spec fn view(&self) -> AuditLineView {
        match *self {
            AuditLine::Execution(s) => AuditLineView::Execution(s@),
            AuditLine::Commission(s) => AuditLineView::Commission(s@),
        }
    }
}

pub open spec fn opt_audit_view(line: Option<AuditLine>) -> Option<AuditLineView> {
    match line {
        Some(l) => Some(l@),
        None => None,
    }
}

/// The account that an execution belongs to: its own, or else the configured one.
pub open spec fn execution_account(own: Seq<char>, configured: Seq<char>) -> Seq<char> {
    if own.len() == 0 {
        configured
    } else {
        own
    }
}

/// Whether shares were bought, by the capital letters of the execution's side.
pub open spec fn bought(upper_side: Seq<char>) -> bool {
    upper_side == "BUY"@ || upper_side == "BOT"@
}

/// The quantity held after an execution.
pub open spec fn quantity_after(current: Decimal, shares: Decimal, upper_side: Seq<char>) -> Decimal {
    Decimal {
        units: clamp(
            if bought(upper_side) {
                current.units + shares.units
            } else {
                current.units - shares.units
            },
        ) as i64,
    }
}

/// The positions with the quantity of one symbol in one account replaced.
pub open spec fn with_quantity(
    positions: Seq<(Seq<char>, Seq<(Seq<char>, Decimal)>)>,
    account: Seq<char>,
    symbol: Seq<char>,
    quantity: Decimal,
) -> Seq<(Seq<char>, Seq<(Seq<char>, Decimal)>)> {
    let held = match lookup(positions, account) {
        Some(held) => held,
        None => Seq::empty(),
    };
    put(positions, account, put(held, symbol, quantity))
}

/// The state after news of an order for `ordered` in the account `configured`.
pub open spec fn state_after(
    bot: BotView,
    ordered: Seq<char>,
    configured: Seq<char>,
    event: OrderEventView,
    now: UtcTime,
) -> BotView {
    match event {
        OrderEventView::Status { status } if status == "Filled"@ => BotView {
            history: put(bot.history, ordered, now),
            ..bot
        },
        OrderEventView::Execution { account_number, symbol, side, shares, .. } => {
            let account = execution_account(account_number, configured);
            let quantity = quantity_after(
                held_quantity(bot, account, symbol),
                shares,
                unicode_upper(side),
            );
            BotView {
                positions: with_quantity(bot.positions, account, symbol, quantity),
                ..bot
            }
        },
        _ => bot,
    }
}

/// What is written down of news of an order in the account `configured`.
pub open spec fn audit_line(
    configured: Seq<char>,
    event: OrderEventView,
    now: UtcTime,
) -> Option<AuditLineView> {
    match event {
        OrderEventView::Execution {
            execution_id,
            account_number,
            symbol,
            side,
            shares,
            price,
        } => Some(
            AuditLineView::Execution(
                now.stamp_text() + ","@ + execution_id + ","@ + execution_account(
                    account_number,
                    configured,
                ) + ","@ + symbol + ","@ + side + ","@ + plain_text(shares) + ","@ + plain_text(
                    price,
                ) + "\n"@,
            ),
        ),
        OrderEventView::Commission { execution_id, commission, currency } => Some(
            AuditLineView::Commission(
                now.stamp_text() + ","@ + execution_id + ","@ + plain_text(commission) + ","@
                    + currency + "\n"@,
            ),
        ),
        _ => None,
    }
}

/// The quantity held after an execution, by the capital letters of its side.
pub fn filled_quantity(current: Decimal, shares: Decimal, upper_side: &str) -> (r: Decimal)
    ensures
        r == quantity_after(current, shares, upper_side@),
{
    if same(upper_side, "BUY") || same(upper_side, "BOT") {
        current.plus(shares)
    } else {
        current.minus(shares)
    }
}

/// What is to be done with the stream of news of an order after one of them: a failure ends it.
pub fn after_order_event(event: &OrderEvent) -> (r: FeedAction)
    ensures
        r == (if event is Failed {
            FeedAction::Stop
        } else {
            FeedAction::Continue
        }),
{
    match event {
        OrderEvent::Failed => FeedAction::Stop,
        _ => FeedAction::Continue,
    }
}

/// The state after the news of an order, each with the time at which it came. Nothing is read
/// after a failure.
pub open spec fn state_after_all(
    bot: BotView,
    ordered: Seq<char>,
    configured: Seq<char>,
    news: Seq<(OrderEventView, UtcTime)>,
) -> BotView
    decreases news.len(),
{
    if news.len() == 0 || news[0].0 is Failed {
        bot
    } else {
        state_after_all(
            state_after(bot, ordered, configured, news[0].0, news[0].1),
            ordered,
            configured,
            news.drop_first(),
        )
    }
}

impl TradingBot {
    /// Takes in news of an order for `ordered` that was sent for the account `configured`, and
    /// says what is to be written down.
    pub fn apply_order_event(
        &mut self,
        ordered: &str,
        configured: &str,
        event: &OrderEvent,
        now: UtcTime,
    ) -> (r: Option<AuditLine>)
        ensures
            final(self)@ == state_after(old(self)@, ordered@, configured@, event@, now),
            opt_audit_view(r) == audit_line(configured@, event@, now),
    {
        match event {
            OrderEvent::Status { status } => {
                if same(status.as_str(), "Filled") {
                    self.order_history.set(ordered.to_owned(), now);
                }
                None
            },
            OrderEvent::Execution {
                execution_id,
                account_number,
                symbol,
                side,
                shares,
                price,
            } => {
                let account: String = if account_number.as_str().is_empty() {
                    configured.to_owned()
                } else {
                    account_number.clone()
                };
                let mut held: Table<Decimal> = match self.positions.get(account.as_str()) {
                    Some(held) => held.duplicate(),
                    None => Table::new(),
                };
                let current: Decimal = match held.get(symbol.as_str()) {
                    Some(quantity) => *quantity,
                    None => Decimal::zero(),
                };
                let upper_side: String = unicode_uppercase(side.as_str());
                let quantity: Decimal = filled_quantity(current, *shares, upper_side.as_str());
                let mut line: String = now.stamp();
                line.append(",");
                line.append(execution_id.as_str());
                line.append(",");
                line.append(account.as_str());
                line.append(",");
                line.append(symbol.as_str());
                line.append(",");
                line.append(side.as_str());
                line.append(",");
                line.append(to_plain(*shares).as_str());
                line.append(",");
                line.append(to_plain(*price).as_str());
                line.append("\n");
                held.set(symbol.clone(), quantity);
                self.positions.set(account, held);
                Some(AuditLine::Execution(line))
            },
            OrderEvent::Commission { execution_id, commission, currency } => {
                let mut line: String = now.stamp();
                line.append(",");
                line.append(execution_id.as_str());
                line.append(",");
                line.append(to_plain(*commission).as_str());
                line.append(",");
                line.append(currency.as_str());
                line.append("\n");
                Some(AuditLine::Commission(line))
            },
            OrderEvent::Other => None,
            OrderEvent::Failed => None,
        }
    }
}

/// The quantity that an execution leaves is the one that is held afterwards, and every other
/// holding stays as it was.
pub proof fn law_execution_changes_one_holding(
    bot: BotView,
    account: Seq<char>,
    symbol: Seq<char>,
    quantity: Decimal,
    other_account: Seq<char>,
    other_symbol: Seq<char>,
)
    ensures
        ({
            let after = BotView {
                positions: with_quantity(bot.positions, account, symbol, quantity),
                ..bot
            };
            &&& held_quantity(after, account, symbol) == quantity
            &&& (other_account != account || other_symbol != symbol) ==> held_quantity(
                after,
                other_account,
                other_symbol,
            ) == held_quantity(bot, other_account, other_symbol)
        }),
{
    let held = match lookup(bot.positions, account) {
        Some(held) => held,
        None => Seq::empty(),
    };
    let changed = put(held, symbol, quantity);
    law_put_then_lookup(bot.positions, account, changed, other_account);
    law_put_then_lookup(held, symbol, quantity, other_symbol);
}

/// Buying shares and selling them again leaves the quantity as it was, while the quantities stay
/// in range.
pub proof fn law_opposite_executions_cancel(
    current: Decimal,
    shares: Decimal,
    buy: Seq<char>,
    sell: Seq<char>,
)
    requires
        bought(buy),
        !bought(sell),
        i64::MIN <= current.units + shares.units <= i64::MAX,
        i64::MIN <= current.units - shares.units <= i64::MAX,
    ensures
        quantity_after(quantity_after(current, shares, buy), shares, sell) == current,
        quantity_after(quantity_after(current, shares, sell), shares, buy) == current,
{
}

/// News after the first failure of the stream have no effect.
pub proof fn law_news_after_failure_are_ignored(
    bot: BotView,
    ordered: Seq<char>,
    configured: Seq<char>,
    before: Seq<(OrderEventView, UtcTime)>,
    failure: (OrderEventView, UtcTime),
    after: Seq<(OrderEventView, UtcTime)>,
)
    requires
        failure.0 is Failed,
    ensures
        state_after_all(bot, ordered, configured, before.push(failure) + after) == state_after_all(
            bot,
            ordered,
            configured,
            before,
        ),
    decreases before.len(),
{
    let all = before.push(failure) + after;
    if before.len() > 0 && !(before[0].0 is Failed) {
        assert(all[0] == before[0]);
        assert(all.drop_first() =~= before.drop_first().push(failure) + after);
        law_news_after_failure_are_ignored(
            state_after(bot, ordered, configured, before[0].0, before[0].1),
            ordered,
            configured,
            before.drop_first(),
            failure,
            after,
        );
    } else if before.len() == 0 {
        assert(all[0] == failure);
    }
}

/// An execution moves one holding, and nothing else in the whole state: the shares of its symbol in
/// its account, which are none where nothing was held, grow by the shares that were bought, or
/// shrink by those that were sold.
pub proof fn law_execution_moves_its_holding(
    bot: BotView,
    ordered: Seq<char>,
    configured: Seq<char>,
    execution_id: Seq<char>,
    own_account: Seq<char>,
    symbol: Seq<char>,
    side: Seq<char>,
    shares: Decimal,
    price: Decimal,
    now: UtcTime,
    account: Seq<char>,
    other_account: Seq<char>,
    other_symbol: Seq<char>,
)
    requires
        own_account.len() > 0 ==> account == own_account,
        own_account.len() == 0 ==> account == configured,
        other_account != account,
        other_symbol != symbol,
    ensures
        ({
            let after = state_after(
                bot,
                ordered,
                configured,
                OrderEventView::Execution {
                    execution_id,
                    account_number: own_account,
                    symbol,
                    side,
                    shares,
                    price,
                },
                now,
            );
            let known = lookup(bot.positions, account);
            let before = if known is Some && lookup(known->0, symbol) is Some {
                lookup(known->0, symbol)->0.units as int
            } else {
                0
            };
            let moved = if unicode_upper(side) == "BUY"@ || unicode_upper(side) == "BOT"@ {
                before + shares.units
            } else {
                before - shares.units
            };
            &&& lookup(after.positions, account) matches Some(held) && lookup(held, symbol) matches
                Some(quantity) && {
                &&& -0x8000_0000_0000_0000 <= moved <= 0x7fff_ffff_ffff_ffff ==> quantity.units
                    == moved
                &&& moved > 0x7fff_ffff_ffff_ffff ==> quantity.units == 0x7fff_ffff_ffff_ffff
                &&& moved < -0x8000_0000_0000_0000 ==> quantity.units == -0x8000_0000_0000_0000
                &&& lookup(held, other_symbol) == (if known is Some {
                    lookup(known->0, other_symbol)
                } else {
                    None
                })
            }
            &&& lookup(after.positions, other_account) == lookup(bot.positions, other_account)
            &&& after.has_api == bot.has_api
            &&& after.has_ib_client == bot.has_ib_client
            &&& after.account_hashes == bot.account_hashes
            &&& after.symbols == bot.symbols
            &&& after.prices == bot.prices
            &&& after.balances == bot.balances
            &&& after.history == bot.history
        }),
{
    let held = match lookup(bot.positions, account) {
        Some(held) => held,
        None => Seq::empty(),
    };
    let quantity = quantity_after(
        held_quantity(bot, account, symbol),
        shares,
        unicode_upper(side),
    );
    let changed = put(held, symbol, quantity);
    law_put_then_lookup(bot.positions, account, changed, other_account);
    law_put_then_lookup(held, symbol, quantity, other_symbol);
}

/// The news that an order was filled notes its symbol at the time of the news, and changes nothing
/// else; any other status changes nothing, and neither do a commission, other news or a failure.
pub proof fn law_only_a_fill_is_noted(
    bot: BotView,
    ordered: Seq<char>,
    configured: Seq<char>,
    event: OrderEventView,
    now: UtcTime,
    other: Seq<char>,
)
    requires
        !(event is Execution),
        other != ordered,
    ensures
        ({
            let after = state_after(bot, ordered, configured, event, now);
            let filled = event matches OrderEventView::Status { status } && status == "Filled"@;
            &&& !filled ==> after == bot
            &&& filled ==> {
                &&& lookup(after.history, ordered) == Some(now)
                &&& lookup(after.history, other) == lookup(bot.history, other)
                &&& after.positions == bot.positions
                &&& after.prices == bot.prices
                &&& after.balances == bot.balances
                &&& after.symbols == bot.symbols
                &&& after.account_hashes == bot.account_hashes
                &&& after.has_api == bot.has_api
                &&& after.has_ib_client == bot.has_ib_client
            }
        }),
{
    law_put_then_lookup(bot.history, ordered, now, other);
}

/// An execution grows what is held by the shares that were bought and shrinks it by those that were
/// sold, as far as the result can be held.
pub proof fn law_shares_are_added_or_taken(
    current: Decimal,
    shares: Decimal,
    upper_side: Seq<char>,
)
    ensures
        upper_side == "BUY"@ || upper_side == "BOT"@ ==> (-0x8000_0000_0000_0000 <= current.units
            + shares.units <= 0x7fff_ffff_ffff_ffff ==> quantity_after(
            current,
            shares,
            upper_side,
        ).units == current.units + shares.units),
        upper_side != "BUY"@ && upper_side != "BOT"@ ==> (-0x8000_0000_0000_0000 <= current.units
            - shares.units <= 0x7fff_ffff_ffff_ffff ==> quantity_after(
            current,
            shares,
            upper_side,
        ).units == current.units - shares.units),
{
}

/// Each execution and each commission is written down with its time and all its figures, in this
/// order and with commas between them; an execution with the account that it moves. Nothing else
/// is written down.
pub proof fn law_audit_lines_hold_all_figures(
    configured: Seq<char>,
    execution_id: Seq<char>,
    own_account: Seq<char>,
    symbol: Seq<char>,
    side: Seq<char>,
    shares: Decimal,
    price: Decimal,
    currency: Seq<char>,
    now: UtcTime,
    event: OrderEventView,
)
    ensures
        audit_line(
            configured,
            OrderEventView::Execution {
                execution_id,
                account_number: own_account,
                symbol,
                side,
                shares,
                price,
            },
            now,
        ) == Some(
            AuditLineView::Execution(
                now.stamp_text() + ","@ + execution_id + ","@ + (if own_account.len() == 0 {
                    configured
                } else {
                    own_account
                }) + ","@ + symbol + ","@ + side + ","@ + plain_text(shares) + ","@ + plain_text(
                    price,
                ) + "\n"@,
            ),
        ),
        audit_line(
            configured,
            OrderEventView::Commission { execution_id, commission: price, currency },
            now,
        ) == Some(
            AuditLineView::Commission(
                now.stamp_text() + ","@ + execution_id + ","@ + plain_text(price) + ","@ + currency
                    + "\n"@,
            ),
        ),
        !(event is Execution) && !(event is Commission) ==> audit_line(
            configured,
            event,
            now,
        ) is None,
{
}

/// The views of news and of audit lines show their fields under their own names.
pub proof fn law_fill_views_show_fields(e: OrderEvent, line: AuditLine)
    ensures
        e matches OrderEvent::Status { status } ==> e@ == (OrderEventView::Status {
            status: status@,
        }),
        e matches OrderEvent::Execution {
            execution_id,
            account_number,
            symbol,
            side,
            shares,
            price,
        } ==> (e@ matches OrderEventView::Execution {
            execution_id: i,
            account_number: a,
            symbol: s,
            side: d,
            shares: n,
            price: p,
        } && i == execution_id@ && a == account_number@ && s == symbol@ && d == side@ && n == shares
            && p == price),
        e matches OrderEvent::Commission { execution_id, commission, currency } ==> (
        e@ matches OrderEventView::Commission { execution_id: i, commission: c, currency: u }
            && i == execution_id@ && c == commission && u == currency@),
        e is Other ==> e@ is Other,
        e is Failed ==> e@ is Failed,
        line matches AuditLine::Execution(s) ==> line@ == AuditLineView::Execution(s@),
        line matches AuditLine::Commission(s) ==> line@ == AuditLineView::Commission(s@),
        opt_audit_view(None) is None,
        opt_audit_view(Some(line)) == Some(line@),
{
}

} // verus!
