//! What Interactive Brokers answers.
use crate::clock::{time_told, told_time, UtcTime};
use crate::decimal::{
    abs, clamp, law_round_half_even_is_nearest, round_half_even, Decimal, SCALE,
};
use crate::history::{
    knows_since, law_later_time_is_noted, law_noted_order_is_known, lemma_noted_stays_in_the_past,
    none_after, note, noted,
};
use crate::models::{position_views, PositionSummary, PositionView};
use crate::risk::BalanceReply;
use crate::schwab::or_zero;
use crate::table::{law_put_then_lookup, lookup, put, Table};
use crate::text::same;
use vstd::prelude::*;

verus! {

/// One message of the stream that tells of an account.
#[derive(Debug)]
pub enum AccountUpdate {
    PortfolioValue(Holding),
    /// One figure of the account, with its amount where that is a number.
    AccountValue { key: String, amount: Option<Decimal> },
    End,
    Other,
    Failed,
}

/// What an account holds of one instrument. An amount of zero stands for one that is not known.
#[derive(Debug)]
pub struct Holding {
    pub symbol: String,
    pub description: String,
    pub security_type: String,
    pub position: Decimal,
    pub average_cost: Decimal,
    pub market_value: Decimal,
    pub unrealized_pnl: Decimal,
}

pub struct HoldingView {
    pub symbol: Seq<char>,
    pub description: Seq<char>,
    pub security_type: Seq<char>,
    pub position: Decimal,
    pub average_cost: Decimal,
    pub market_value: Decimal,
    pub unrealized_pnl: Decimal,
}

impl View for Holding {
    type V = HoldingView;

    open spec fn view(&self) -> HoldingView {
        HoldingView {
            symbol: self.symbol@,
            description: self.description@,
            security_type: self.security_type@,
            position: self.position,
            average_cost: self.average_cost,
            market_value: self.market_value,
            unrealized_pnl: self.unrealized_pnl,
        }
    }
}

pub enum AccountUpdateView {
    PortfolioValue(HoldingView),
    AccountValue { key: Seq<char>, amount: Option<Decimal> },
    End,
    Other,
    Failed,
}

impl View for AccountUpdate {
    type V = AccountUpdateView;

    open spec fn view(&self) -> AccountUpdateView {
        match *self {
            AccountUpdate::PortfolioValue(holding) => AccountUpdateView::PortfolioValue(holding@),
            AccountUpdate::AccountValue { key, amount } => AccountUpdateView::AccountValue {
                key: key@,
                amount,
            },
            AccountUpdate::End => AccountUpdateView::End,
            AccountUpdate::Other => AccountUpdateView::Other,
            AccountUpdate::Failed => AccountUpdateView::Failed,
        }
    }
}

/// What is to be done with a stream after one of its messages.
#[derive(Clone, Copy, Debug, PartialEq, Eq, Structural)]
pub enum FeedAction {
    Continue,
    /// Cancel the stream and read no further.
    CancelAndStop,
    /// Read no further.
    Stop,
}

/// What is to be done with the stream of an account after one of its messages.
pub open spec fn action_after(update: AccountUpdateView) -> FeedAction {
    match update {
        AccountUpdateView::End => FeedAction::CancelAndStop,
        AccountUpdateView::Failed => FeedAction::Stop,
        _ => FeedAction::Continue,
    }
}

/// An amount, unless it is zero.
pub open spec fn unless_zero(d: Decimal) -> Option<Decimal> {
    if d.units == 0 {
        None
    } else {
        Some(d)
    }
}

/// The position that a holding stands for.
pub open spec fn holding_position(holding: HoldingView) -> PositionView {
    PositionView {
        symbol: holding.symbol,
        description: if holding.description.len() == 0 {
            None
        } else {
            Some(holding.description)
        },
        asset_type: Some(holding.security_type),
        quantity: holding.position,
        is_short: holding.position.units < 0,
        average_price: unless_zero(holding.average_cost),
        market_value: unless_zero(holding.market_value),
        cost_basis: match unless_zero(holding.average_cost) {
            Some(average) => Some(
                Decimal {
                    units: clamp(
                        round_half_even(
                            average.units * abs(holding.position.units as int),
                            SCALE as int,
                        ),
                    ) as i64,
                },
            ),
            None => None,
        },
        profit_loss: unless_zero(holding.unrealized_pnl),
    }
}

/// The positions known after one more message. A holding of nothing is passed over.
pub open spec fn positions_after(
    known: Seq<(Seq<char>, PositionView)>,
    update: AccountUpdateView,
) -> Seq<(Seq<char>, PositionView)> {
    match update {
        AccountUpdateView::PortfolioValue(holding) if holding.position.units != 0 => put(
            known,
            holding.symbol,
            holding_position(holding),
        ),
        _ => known,
    }
}

fn nonzero(d: Decimal) -> (r: Option<Decimal>)
    ensures
        r == unless_zero(d),
{
    if d.units == 0 {
        None
    } else {
        Some(d)
    }
}

fn position_from(holding: &Holding) -> (r: PositionSummary)
    ensures
        r@ == holding_position(holding@),
{
    let average_price: Option<Decimal> = nonzero(holding.average_cost);
    let cost_basis: Option<Decimal> = match average_price {
        Some(average) => Some(average.times_magnitude(holding.position)),
        None => None,
    };
    PositionSummary {
        symbol: holding.symbol.clone(),
        description: if holding.description.as_str().is_empty() {
            None
        } else {
            Some(holding.description.clone())
        },
        asset_type: Some(holding.security_type.clone()),
        quantity: holding.position,
        is_short: holding.position.units < 0,
        average_price,
        market_value: nonzero(holding.market_value),
        cost_basis,
        profit_loss: nonzero(holding.unrealized_pnl),
    }
}

/// Takes one message of the stream of an account into the positions known so far.
pub fn fetch_ib_positions(known: &mut Table<PositionSummary>, update: &AccountUpdate) -> (r:
    FeedAction)
    ensures
        final(known)@ == positions_after(old(known)@, update@),
        r == action_after(update@),
{
    match update {
        AccountUpdate::PortfolioValue(holding) => {
            if holding.position.units != 0 {
                known.set(holding.symbol.clone(), position_from(holding));
            }
            FeedAction::Continue
        },
        AccountUpdate::AccountValue { .. } => FeedAction::Continue,
        AccountUpdate::End => FeedAction::CancelAndStop,
        AccountUpdate::Other => FeedAction::Continue,
        AccountUpdate::Failed => FeedAction::Stop,
    }
}

/// The positions at the end of the stream, and whether the stream is still to be cancelled: it is
/// where it told of none.
pub fn finish_ib_positions(known: Table<PositionSummary>) -> (r: (Vec<PositionSummary>, bool))
    ensures
        position_views(r.0@) == known@.map_values(|e: (Seq<char>, PositionView)| e.1),
        r.1 == (known@.len() == 0),
{
    let cancel: bool = known.len() == 0;
    (known.into_values(), cancel)
}

/// What the stream of an account has told of its balance.
#[derive(Clone, Copy, Debug)]
pub struct IbBalance {
    pub net_liquidation: Option<Decimal>,
    pub total_cash: Option<Decimal>,
}

/// What is known of the balance after one more message.
pub open spec fn balance_after(known: IbBalance, update: AccountUpdateView) -> IbBalance {
    match update {
        AccountUpdateView::AccountValue { key, amount } if key == "NetLiquidation"@ => IbBalance {
            net_liquidation: Some(or_zero(amount)),
            ..known
        },
        AccountUpdateView::AccountValue { key, amount } if key == "TotalCashValue"@ => IbBalance {
            total_cash: Some(or_zero(amount)),
            ..known
        },
        _ => known,
    }
}

/// The balance of an account: what it would fetch, or else its cash.
pub open spec fn final_balance(known: IbBalance) -> Option<Decimal> {
    match known.net_liquidation {
        Some(value) => Some(value),
        None => known.total_cash,
    }
}

/// Takes one message of the stream of an account into what is known of its balance.
pub fn fetch_ib_balance(known: &mut IbBalance, update: &AccountUpdate) -> (r: FeedAction)
    ensures
        *final(known) == balance_after(*old(known), update@),
        r == action_after(update@),
{
    match update {
        AccountUpdate::AccountValue { key, amount } => {
            let value: Decimal = match amount {
                Some(value) => *value,
                None => Decimal::zero(),
            };
            proof {
                reveal_strlit("NetLiquidation");
                reveal_strlit("TotalCashValue");
                assert("NetLiquidation"@[0] != "TotalCashValue"@[0]);
            }
            if same(key.as_str(), "NetLiquidation") {
                known.net_liquidation = Some(value);
            } else if same(key.as_str(), "TotalCashValue") {
                known.total_cash = Some(value);
            }
            FeedAction::Continue
        },
        AccountUpdate::PortfolioValue(_) => FeedAction::Continue,
        AccountUpdate::End => FeedAction::CancelAndStop,
        AccountUpdate::Other => FeedAction::Continue,
        AccountUpdate::Failed => FeedAction::Stop,
    }
}

/// The balance at the end of the stream, or what is said where it told of none; the stream is
/// then still to be cancelled.
pub fn finish_ib_balance(known: &IbBalance, account_id: &str) -> (r: Result<Decimal, String>)
    ensures
        match final_balance(*known) {
            Some(value) => r == Ok::<Decimal, String>(value),
            None => r matches Err(e) && e@ == "No account balance data received for "@
                + account_id@,
        },
{
    match known.net_liquidation {
        Some(value) => Ok(value),
        None => match known.total_cash {
            Some(value) => Ok(value),
            None => {
                let mut message: String = "No account balance data received for ".to_owned();
                message.append(account_id);
                Err(message)
            },
        },
    }
}

/// The balances that an order is measured by: the cash, or none where it is not told, and what the
/// account would fetch.
pub open spec fn order_balances(known: IbBalance) -> Option<Seq<Decimal>> {
    match final_balance(known) {
        Some(value) => Some(seq![or_zero(known.total_cash), value]),
        None => None,
    }
}

/// The balances that an order is measured by, or what is said where the stream told of none.
pub fn ib_order_balances(known: &IbBalance, account_id: &str) -> (r: BalanceReply)
    ensures
        match order_balances(*known) {
            Some(balances) => r matches Ok(values) && values@ == balances,
            None => r matches Err(e) && e@ == "No account balance data received for "@
                + account_id@,
        },
{
    match finish_ib_balance(known, account_id) {
        Ok(value) => {
            let cash: Decimal = match known.total_cash {
                Some(cash) => cash,
                None => Decimal::zero(),
            };
            let mut values: Vec<Decimal> = Vec::new();
            values.push(cash);
            values.push(value);
            assert(values@ =~= order_balances(*known)->0);
            Ok(values)
        },
        Err(e) => Err(e),
    }
}

/// One message of a stream that tells of executions or orders.
#[derive(Debug)]
pub enum OrderNews {
    /// An execution or an order for this symbol, and when it was made, where that is told.
    Traded { symbol: String, at: Option<UtcTime> },
    Other,
    Failed,
}

pub enum OrderNewsView {
    Traded { symbol: Seq<char>, at: Option<UtcTime> },
    Other,
    Failed,
}

impl View for OrderNews {
    type V = OrderNewsView;

    open spec fn view(&self) -> OrderNewsView {
        match *self {
            OrderNews::Traded { symbol, at } => OrderNewsView::Traded { symbol: symbol@, at },
            OrderNews::Other => OrderNewsView::Other,
            OrderNews::Failed => OrderNewsView::Failed,
        }
    }
}

/// The order history after one more message. The latest time of a symbol stands; a message that
/// tells none, or one of the future, counts as of now.
pub open spec fn history_with_news(
    history: Seq<(Seq<char>, UtcTime)>,
    news: OrderNewsView,
    now: UtcTime,
) -> Seq<(Seq<char>, UtcTime)> {
    match news {
        OrderNewsView::Traded { symbol, at } => noted(history, symbol, told_time(at, now)),
        _ => history,
    }
}

/// Takes one message of a stream of executions or orders into the order history.
pub fn populate_order_history_from_ibkr(
    history: &mut Table<UtcTime>,
    news: &OrderNews,
    now: UtcTime,
) -> (r: FeedAction)
    ensures
        final(history)@ == history_with_news(old(history)@, news@, now),
        r == (if news is Failed {
            FeedAction::Stop
        } else {
            FeedAction::Continue
        }),
{
    match news {
        OrderNews::Traded { symbol, at } => {
            note(history, symbol.clone(), time_told(*at, now));
            FeedAction::Continue
        },
        OrderNews::Other => FeedAction::Continue,
        OrderNews::Failed => FeedAction::Stop,
    }
}

/// The positions that a stream has told of.
pub open spec fn positions_told(updates: Seq<AccountUpdateView>) -> Seq<(Seq<char>, PositionView)>
    decreases updates.len(),
{
    if updates.len() == 0 {
        Seq::empty()
    } else {
        positions_after(positions_told(updates.drop_last()), updates.last())
    }
}

/// What a stream has told of an account's balance.
pub open spec fn balance_told(updates: Seq<AccountUpdateView>) -> IbBalance
    decreases updates.len(),
{
    if updates.len() == 0 {
        IbBalance { net_liquidation: None, total_cash: None }
    } else {
        balance_after(balance_told(updates.drop_last()), updates.last())
    }
}

/// The order history that streams of executions and orders have told of, each message with the
/// time at which it came.
pub open spec fn history_told(news: Seq<(OrderNewsView, UtcTime)>) -> Seq<(Seq<char>, UtcTime)>
    decreases news.len(),
{
    if news.len() == 0 {
        Seq::empty()
    } else {
        history_with_news(history_told(news.drop_last()), news.last().0, news.last().1)
    }
}

/// Whether a message tells of shares held of the symbol.
pub open spec fn tells_holding(update: AccountUpdateView, symbol: Seq<char>) -> bool {
    update matches AccountUpdateView::PortfolioValue(holding) && holding.symbol == symbol
        && holding.position.units != 0
}

/// Of several messages on one symbol the last that tells of shares stands, whatever else the
/// stream tells.
pub proof fn law_last_holding_stands(updates: Seq<AccountUpdateView>, symbol: Seq<char>, i: int)
    requires
        0 <= i < updates.len(),
        tells_holding(updates[i], symbol),
        forall|j: int| i < j < updates.len() ==> !tells_holding(#[trigger] updates[j], symbol),
    ensures
        lookup(positions_told(updates), symbol) == Some(
            holding_position(updates[i]->PortfolioValue_0),
        ),
    decreases updates.len(),
{
    let before = updates.drop_last();
    let known = positions_told(before);
    if let AccountUpdateView::PortfolioValue(holding) = updates.last() {
        law_put_then_lookup(known, holding.symbol, holding_position(holding), symbol);
    }
    if i < before.len() {
        assert(!tells_holding(updates[updates.len() - 1], symbol));
        assert forall|j: int| i < j < before.len() implies !tells_holding(
            #[trigger] before[j],
            symbol,
        ) by {
            assert(before[j] == updates[j]);
        }
        law_last_holding_stands(before, symbol, i);
    }
}

/// A symbol of which the stream tells no shares is not among the positions.
pub proof fn law_untold_symbols_are_absent(updates: Seq<AccountUpdateView>, symbol: Seq<char>)
    requires
        forall|j: int| 0 <= j < updates.len() ==> !tells_holding(#[trigger] updates[j], symbol),
    ensures
        lookup(positions_told(updates), symbol) is None,
    decreases updates.len(),
{
    if updates.len() > 0 {
        let before = updates.drop_last();
        assert(!tells_holding(updates[updates.len() - 1], symbol));
        assert forall|j: int| 0 <= j < before.len() implies !tells_holding(
            #[trigger] before[j],
            symbol,
        ) by {
            assert(before[j] == updates[j]);
        }
        law_untold_symbols_are_absent(before, symbol);
        if let AccountUpdateView::PortfolioValue(holding) = updates.last() {
            law_put_then_lookup(
                positions_told(before),
                holding.symbol,
                holding_position(holding),
                symbol,
            );
        }
    }
}

/// Whether a message gives the net liquidation value.
pub open spec fn tells_value(update: AccountUpdateView) -> bool {
    update matches AccountUpdateView::AccountValue { key, .. } && key == "NetLiquidation"@
}

/// The balance is the net liquidation value that the stream gave last, whatever it told of cash.
pub proof fn law_last_value_stands(updates: Seq<AccountUpdateView>, i: int)
    requires
        0 <= i < updates.len(),
        tells_value(updates[i]),
        forall|j: int| i < j < updates.len() ==> !tells_value(#[trigger] updates[j]),
    ensures
        final_balance(balance_told(updates)) == Some(or_zero(updates[i]->amount)),
    decreases updates.len(),
{
    let before = updates.drop_last();
    if i < before.len() {
        assert(!tells_value(updates[updates.len() - 1]));
        assert forall|j: int| i < j < before.len() implies !tells_value(#[trigger] before[j]) by {
            assert(before[j] == updates[j]);
        }
        law_last_value_stands(before, i);
        assert(balance_told(before).net_liquidation is Some) by {
            lemma_value_is_told(before, i);
        }
    }
}

proof fn lemma_value_is_told(updates: Seq<AccountUpdateView>, i: int)
    requires
        0 <= i < updates.len(),
        tells_value(updates[i]),
    ensures
        balance_told(updates).net_liquidation is Some,
    decreases updates.len(),
{
    let before = updates.drop_last();
    if i < before.len() {
        lemma_value_is_told(before, i);
    }
}

/// Whether a message tells of a trade in the symbol.
pub open spec fn tells_trade(news: OrderNewsView, symbol: Seq<char>) -> bool {
    news matches OrderNewsView::Traded { symbol: traded, .. } && traded == symbol
}

/// The time of a trade that a message tells of.
pub open spec fn trade_time(news: (OrderNewsView, UtcTime)) -> UtcTime {
    told_time(news.0->at, news.1)
}

/// A symbol that was traded stands in the order history at the latest time that any message gives
/// for it, and a symbol that was not traded does not stand there.
pub proof fn law_latest_trade_is_noted(news: Seq<(OrderNewsView, UtcTime)>, symbol: Seq<char>)
    ensures
        forall|i: int|
            0 <= i < news.len() && tells_trade((#[trigger] news[i]).0, symbol) ==> knows_since(
                history_told(news),
                symbol,
                trade_time(news[i]),
            ),
        lookup(history_told(news), symbol) matches Some(time) ==> exists|i: int|
            0 <= i < news.len() && tells_trade((#[trigger] news[i]).0, symbol) && trade_time(
                news[i],
            ) == time,
    decreases news.len(),
{
    if news.len() > 0 {
        let before = news.drop_last();
        let last = news.last();
        let known = history_told(before);
        let after = history_told(news);
        law_latest_trade_is_noted(before, symbol);
        assert(last == news[news.len() - 1]);
        assert forall|i: int|
            0 <= i < news.len() && tells_trade((#[trigger] news[i]).0, symbol) implies knows_since(
            after,
            symbol,
            trade_time(news[i]),
        ) by {
            if let OrderNewsView::Traded { symbol: traded, at } = last.0 {
                law_noted_order_is_known(
                    known,
                    traded,
                    trade_time(last),
                    symbol,
                    trade_time(news[i]),
                );
            }
            if i < before.len() {
                assert(before[i] == news[i]);
            }
        }
        if let Some(time) = lookup(after, symbol) {
            if let OrderNewsView::Traded { symbol: traded, at } = last.0 {
                law_noted_order_is_known(known, traded, trade_time(last), symbol, time);
            }
            if lookup(known, symbol) == Some(time) {
                let i = choose|i: int|
                    0 <= i < before.len() && tells_trade((#[trigger] before[i]).0, symbol)
                        && trade_time(before[i]) == time;
                assert(news[i] == before[i]);
            }
        }
    }
}

/// The order history that streams have told of lies in the past.
pub proof fn law_told_history_is_past(news: Seq<(OrderNewsView, UtcTime)>, now: UtcTime)
    requires
        forall|i: int| 0 <= i < news.len() ==> !now.is_before((#[trigger] news[i]).1),
    ensures
        none_after(history_told(news), now),
    decreases news.len(),
{
    if news.len() > 0 {
        let before = news.drop_last();
        let last = news.last();
        assert forall|i: int| 0 <= i < before.len() implies !now.is_before(
            (#[trigger] before[i]).1,
        ) by {
            assert(before[i] == news[i]);
        }
        law_told_history_is_past(before, now);
        assert(last == news[news.len() - 1]);
        if let OrderNewsView::Traded { symbol, at } = last.0 {
            lemma_noted_stays_in_the_past(history_told(before), symbol, trade_time(last), now);
        }
    }
}

/// A holding becomes a position of the same symbol and shares, short where they are below zero.
/// Amounts of zero and an empty description count as not told, and the cost is the average cost
/// times the size of the holding, to the nearest amount that can be held.
pub proof fn law_holdings_become_positions(holding: HoldingView)
    ensures
        ({
            let p = holding_position(holding);
            let size = if holding.position.units < 0 {
                -(holding.position.units as int)
            } else {
                holding.position.units as int
            };
            let product = holding.average_cost.units * size;
            &&& p.symbol == holding.symbol
            &&& p.asset_type == Some(holding.security_type)
            &&& holding.description.len() == 0 ==> p.description is None
            &&& holding.description.len() > 0 ==> p.description == Some(holding.description)
            &&& p.quantity == holding.position
            &&& p.is_short <==> holding.position.units < 0
            &&& holding.average_cost.units == 0 ==> p.average_price is None && p.cost_basis is None
            &&& holding.average_cost.units != 0 ==> {
                &&& p.average_price == Some(holding.average_cost)
                &&& p.cost_basis matches Some(cost) && {
                    ||| -100_000_000 <= 2 * (cost.units * 100_000_000 - product) <= 100_000_000
                    ||| cost.units == 0x7fff_ffff_ffff_ffff && product > cost.units * 100_000_000
                    ||| cost.units == -0x8000_0000_0000_0000 && product < cost.units * 100_000_000
                }
            }
            &&& holding.market_value.units == 0 ==> p.market_value is None
            &&& holding.market_value.units != 0 ==> p.market_value == Some(holding.market_value)
            &&& holding.unrealized_pnl.units == 0 ==> p.profit_loss is None
            &&& holding.unrealized_pnl.units != 0 ==> p.profit_loss == Some(holding.unrealized_pnl)
        }),
{
    law_round_half_even_is_nearest(
        holding.average_cost.units * abs(holding.position.units as int),
        100_000_000,
    );
}

/// A message changes what is known of at most one symbol: of the one whose shares it tells, to the
/// position that it tells. A holding of no shares, and any other message, changes nothing.
pub proof fn law_message_changes_one_position(
    known: Seq<(Seq<char>, PositionView)>,
    update: AccountUpdateView,
    other: Seq<char>,
)
    ensures
        update matches AccountUpdateView::PortfolioValue(holding) ==> {
            &&& holding.position.units != 0 ==> lookup(
                positions_after(known, update),
                holding.symbol,
            ) == Some(holding_position(holding))
            &&& other != holding.symbol ==> lookup(positions_after(known, update), other) == lookup(
                known,
                other,
            )
            &&& holding.position.units == 0 ==> positions_after(known, update) == known
        },
        !(update is PortfolioValue) ==> positions_after(known, update) == known,
{
    if let AccountUpdateView::PortfolioValue(holding) = update {
        law_put_then_lookup(known, holding.symbol, holding_position(holding), other);
    }
}

/// A stream is cancelled at its end, left where it fails, and read on otherwise.
pub proof fn law_streams_end(update: AccountUpdateView)
    ensures
        update is End ==> action_after(update) == FeedAction::CancelAndStop,
        update is Failed ==> action_after(update) == FeedAction::Stop,
        !(update is End) && !(update is Failed) ==> action_after(update) == FeedAction::Continue,
{
}

/// Of the values of an account two are taken, the net liquidation value and the cash. One that is
/// no number counts as zero. Each leaves the other as it was, and all else leaves both.
pub proof fn law_two_values_are_taken(
    known: IbBalance,
    key: Seq<char>,
    amount: Option<Decimal>,
    update: AccountUpdateView,
)
    ensures
        ({
            let after = balance_after(known, AccountUpdateView::AccountValue { key, amount });
            &&& key == "NetLiquidation"@ ==> {
                &&& amount is Some ==> after.net_liquidation == amount
                &&& amount is None ==> (after.net_liquidation matches Some(v) && v.units == 0)
                &&& after.total_cash == known.total_cash
            }
            &&& key == "TotalCashValue"@ ==> {
                &&& amount is Some ==> after.total_cash == amount
                &&& amount is None ==> (after.total_cash matches Some(v) && v.units == 0)
                &&& after.net_liquidation == known.net_liquidation
            }
            &&& key != "NetLiquidation"@ && key != "TotalCashValue"@ ==> after == known
        }),
        !(update is AccountValue) ==> balance_after(known, update) == known,
{
    reveal_strlit("NetLiquidation");
    reveal_strlit("TotalCashValue");
    assert("NetLiquidation"@[0] != "TotalCashValue"@[0]);
}

/// The balance of an account is its net liquidation value, or its cash where that is not told; an
/// order is measured by its cash, none where that is not told, and by its balance.
pub proof fn law_balances_of_an_account(known: IbBalance)
    ensures
        known.net_liquidation is Some ==> final_balance(known) == known.net_liquidation,
        known.net_liquidation is None ==> final_balance(known) == known.total_cash,
        order_balances(known) is None <==> known.net_liquidation is None && known.total_cash is None,
        order_balances(known) matches Some(b) ==> {
            &&& b.len() == 2
            &&& known.total_cash matches Some(cash) ==> b[0] == cash
            &&& known.total_cash is None ==> b[0].units == 0
            &&& known.net_liquidation matches Some(value) ==> b[1] == value
            &&& known.net_liquidation is None ==> known.total_cash == Some(b[1])
        },
{
}

/// A message on a trade notes its symbol at the later of the time that it counts at and the time
/// that was known; other symbols, and other messages, leave the history as it was.
pub proof fn law_trades_note_their_symbol(
    history: Seq<(Seq<char>, UtcTime)>,
    symbol: Seq<char>,
    at: Option<UtcTime>,
    now: UtcTime,
    other: Seq<char>,
)
    requires
        other != symbol,
    ensures
        ({
            let after = history_with_news(history, OrderNewsView::Traded { symbol, at }, now);
            let time = told_time(at, now);
            &&& lookup(history, symbol) is None ==> lookup(after, symbol) == Some(time)
            &&& lookup(history, symbol) matches Some(known) ==> lookup(after, symbol) == Some(
                if known.is_before(time) {
                    time
                } else {
                    known
                },
            )
            &&& lookup(after, other) == lookup(history, other)
        }),
        history_with_news(history, OrderNewsView::Other, now) == history,
        history_with_news(history, OrderNewsView::Failed, now) == history,
{
    law_later_time_is_noted(history, symbol, told_time(at, now), other);
}

/// The views of messages show their fields under their own names.
pub proof fn law_ibkr_views_show_fields(h: Holding, u: AccountUpdate, n: OrderNews)
    ensures
        h@.symbol == h.symbol@,
        h@.description == h.description@,
        h@.security_type == h.security_type@,
        h@.position == h.position,
        h@.average_cost == h.average_cost,
        h@.market_value == h.market_value,
        h@.unrealized_pnl == h.unrealized_pnl,
        u matches AccountUpdate::PortfolioValue(x) ==> u@ == AccountUpdateView::PortfolioValue(x@),
        u matches AccountUpdate::AccountValue { key, amount } ==> u@
            == (AccountUpdateView::AccountValue { key: key@, amount }),
        u is End ==> u@ is End,
        u is Other ==> u@ is Other,
        u is Failed ==> u@ is Failed,
        n matches OrderNews::Traded { symbol, at } ==> n@ == (OrderNewsView::Traded {
            symbol: symbol@,
            at,
        }),
        n is Other ==> n@ is Other,
        n is Failed ==> n@ is Failed,
{
}

} // verus!
