//! Sending limit orders.
use crate::bot::{BotView, TradingBot};
use crate::clock::UtcTime;
use crate::decimal::{abs, clamp, round_half_away, Decimal, CENT};
use crate::format::{decimal_text, fixed, to_fixed};
use crate::models::{
    account_at_ibkr, law_symbols_name_their_broker, trades_at_ibkr, Symbol, SymbolView,
};
use crate::risk::{
    balance_reply_view, risk_message, risk_step, BalanceReply, Instruction, RiskError,
    RiskErrorView, RiskStep, RiskStepView, MINIMUM_NOTIONAL,
};
use crate::table::{law_put_then_lookup, lookup, put};
use crate::text::{law_split_at_the_first, same, split_once, split_text, upper, uppercase};
use crate::update::{law_one_symbol_decides_the_broker, names_ibkr};
use vstd::prelude::*;

verus! {

/// The broker that an order goes to.
#[derive(Clone, Copy, Debug, PartialEq, Eq, Structural)]
pub enum Route {
    Schwab,
    Ibkr,
}

/// A limit order.
#[derive(Debug)]
pub struct OrderTicket {
    pub route: Route,
    pub symbol: String,
    pub account_hash: String,
    pub instruction: Instruction,
    pub qty: Decimal,
    pub limit_price: Decimal,
}

pub struct TicketView {
    pub route: Route,
    pub symbol: Seq<char>,
    pub account_hash: Seq<char>,
    pub instruction: Instruction,
    pub qty: Decimal,
    pub limit_price: Decimal,
}

impl View for OrderTicket {
    type V = TicketView;

    open spec fn view(&self) -> TicketView {
        TicketView {
            route: self.route,
            symbol: self.symbol@,
            account_hash: self.account_hash@,
            instruction: self.instruction,
            qty: self.qty,
            limit_price: self.limit_price,
        }
    }
}

/// Why an order was not sent.
#[derive(Debug)]
pub enum OrderError {
    KeyFormat,
    NotConfigured,
    AlreadyOrdered { symbol: String, last: UtcTime },
    NoIbClient,
    NoApi,
    UnsupportedSide { side: String },
    QuantityNotPositive,
    PriceNotPositive,
    Commission { estimate: Decimal },
    Risk(RiskError),
}

pub enum OrderErrorView {
    KeyFormat,
    NotConfigured,
    AlreadyOrdered { symbol: Seq<char>, last: UtcTime },
    NoIbClient,
    NoApi,
    UnsupportedSide { side: Seq<char> },
    QuantityNotPositive,
    PriceNotPositive,
    Commission { estimate: Decimal },
    Risk(RiskErrorView),
}

impl View for OrderError {
    type V = OrderErrorView;

    open spec fn view(&self) -> OrderErrorView {
        match *self {
            OrderError::KeyFormat => OrderErrorView::KeyFormat,
            OrderError::NotConfigured => OrderErrorView::NotConfigured,
            OrderError::AlreadyOrdered { symbol, last } => OrderErrorView::AlreadyOrdered {
                symbol: symbol@,
                last,
            },
            OrderError::NoIbClient => OrderErrorView::NoIbClient,
            OrderError::NoApi => OrderErrorView::NoApi,
            OrderError::UnsupportedSide { side } => OrderErrorView::UnsupportedSide {
                side: side@,
            },
            OrderError::QuantityNotPositive => OrderErrorView::QuantityNotPositive,
            OrderError::PriceNotPositive => OrderErrorView::PriceNotPositive,
            OrderError::Commission { estimate } => OrderErrorView::Commission { estimate },
            OrderError::Risk(e) => OrderErrorView::Risk(e@),
        }
    }
}

/// What is to be done next for an order.
#[derive(Debug)]
pub enum OrderStep {
    Refused(OrderError),
    /// Ask the broker that looks after the order's account for its balances, then go on with the
    /// answer.
    FetchBalances(OrderTicket),
    /// Hand the order to its broker.
    Place(OrderTicket),
}

pub enum OrderStepView {
    Refused(OrderErrorView),
    FetchBalances(TicketView),
    Place(TicketView),
}

impl View for OrderStep {
    type V = OrderStepView;

    open spec fn view(&self) -> OrderStepView {
        match *self {
            OrderStep::Refused(e) => OrderStepView::Refused(e@),
            OrderStep::FetchBalances(t) => OrderStepView::FetchBalances(t@),
            OrderStep::Place(t) => OrderStepView::Place(t@),
        }
    }
}

/// The answer of one of the brokers on the balances that an order is measured by.
#[derive(Debug)]
pub enum OrderBalances {
    Ibkr(BalanceReply),
    Schwab(BalanceReply),
}

/// What an answer says of the account's balances. Only the broker that looks after the account has
/// a say.
pub open spec fn heard_balances(bot: BotView, account: Seq<char>, answer: OrderBalances) -> Option<
    Result<Seq<Decimal>, Seq<char>>,
> {
    match answer {
        OrderBalances::Ibkr(reply) if account_at_ibkr(bot.symbols, account) => Some(
            balance_reply_view(reply),
        ),
        OrderBalances::Schwab(reply) if !account_at_ibkr(bot.symbols, account) => Some(
            balance_reply_view(reply),
        ),
        _ => None,
    }
}

/// Which way a side of an order points.
pub open spec fn side_instruction(side: Seq<char>) -> Option<Instruction> {
    let name = upper(side);
    if name == "BUY"@ || name == "B"@ {
        Some(Instruction::Buy)
    } else if name == "SELL"@ || name == "S"@ {
        Some(Instruction::Sell)
    } else {
        None
    }
}

/// Where the symbol is first configured for the account, whatever the case of its letters, or the
/// length of the list where it is not.
pub open spec fn find_symbol(
    symbols: Seq<SymbolView>,
    symbol: Seq<char>,
    account: Seq<char>,
) -> int
    decreases symbols.len(),
{
    if symbols.len() == 0 || (symbols[0].account_hash == account && upper(symbols[0].symbol)
        == upper(symbol)) {
        0
    } else {
        1 + find_symbol(symbols.drop_first(), symbol, account)
    }
}

/// The configuration that a key of the form `SYMBOL@ACCOUNT` stands for.
pub open spec fn resolve(symbols: Seq<SymbolView>, key: Seq<char>) -> Result<
    SymbolView,
    OrderErrorView,
> {
    match split_once(key, '@') {
        Some(parts) => {
            let i = find_symbol(symbols, parts.0, parts.1);
            if i < symbols.len() {
                Ok(symbols[i])
            } else {
                Err(OrderErrorView::NotConfigured)
            }
        },
        None => Err(OrderErrorView::KeyFormat),
    }
}

/// Whether an order for the symbol was already tried on the day of `now`.
pub open spec fn ordered_today(
    history: Seq<(Seq<char>, UtcTime)>,
    symbol: Seq<char>,
    now: UtcTime,
) -> bool {
    match lookup(history, symbol) {
        Some(last) => last.on_day() == now.on_day(),
        None => false,
    }
}

/// What the checks make of a ticket.
pub open spec fn checked_step(
    bot: BotView,
    ticket: TicketView,
    reply: Option<Result<Seq<Decimal>, Seq<char>>>,
) -> OrderStepView {
    match risk_step(
        bot,
        ticket.account_hash,
        ticket.symbol,
        ticket.instruction,
        ticket.qty,
        ticket.limit_price,
        reply,
    ) {
        RiskStepView::NeedBalances => OrderStepView::FetchBalances(ticket),
        RiskStepView::Passed => OrderStepView::Place(ticket),
        RiskStepView::Refused(e) => OrderStepView::Refused(OrderErrorView::Risk(e)),
    }
}

/// The price that goes out to Schwab: the nearest whole number of cents.
pub open spec fn in_cents(price: Decimal) -> Decimal {
    Decimal { units: clamp(round_half_away(price.units as int, CENT as int) * CENT) as i64 }
}

/// What is to be done for an order on a configured symbol that may still be traded today.
pub open spec fn routed_step(
    bot: BotView,
    config: SymbolView,
    side: Seq<char>,
    qty: Decimal,
    price: Decimal,
    commission: Decimal,
) -> OrderStepView {
    let at_ibkr = trades_at_ibkr(config);
    if at_ibkr && !bot.has_ib_client {
        OrderStepView::Refused(OrderErrorView::NoIbClient)
    } else if !at_ibkr && !bot.has_api {
        OrderStepView::Refused(OrderErrorView::NoApi)
    } else {
        match side_instruction(side) {
            None => OrderStepView::Refused(OrderErrorView::UnsupportedSide { side: upper(side) }),
            Some(instruction) => {
                let ticket = TicketView {
                    route: if at_ibkr {
                        Route::Ibkr
                    } else {
                        Route::Schwab
                    },
                    symbol: config.symbol,
                    account_hash: config.account_hash,
                    instruction,
                    qty,
                    limit_price: if at_ibkr {
                        price
                    } else {
                        in_cents(price)
                    },
                };
                if qty.units <= 0 {
                    OrderStepView::Refused(OrderErrorView::QuantityNotPositive)
                } else if price.units <= 0 {
                    OrderStepView::Refused(OrderErrorView::PriceNotPositive)
                } else if !at_ibkr && commission.units > 0 {
                    OrderStepView::Refused(OrderErrorView::Commission { estimate: commission })
                } else {
                    checked_step(bot, ticket, None)
                }
            },
        }
    }
}

/// What is to be done for an order.
pub open spec fn order_step(
    bot: BotView,
    key: Seq<char>,
    side: Seq<char>,
    qty: Decimal,
    price: Decimal,
    now: UtcTime,
    commission: Decimal,
) -> OrderStepView {
    match resolve(bot.symbols, key) {
        Err(e) => OrderStepView::Refused(e),
        Ok(config) => if ordered_today(bot.history, config.symbol, now) {
            OrderStepView::Refused(
                OrderErrorView::AlreadyOrdered {
                    symbol: config.symbol,
                    last: lookup(bot.history, config.symbol)->0,
                },
            )
        } else {
            routed_step(bot, config, side, qty, price, commission)
        },
    }
}

/// The order history after an order was tried: a configured symbol that was not yet tried today
/// is noted, whatever becomes of the order.
pub open spec fn history_after(bot: BotView, key: Seq<char>, now: UtcTime) -> Seq<
    (Seq<char>, UtcTime),
> {
    match resolve(bot.symbols, key) {
        Ok(config) if !ordered_today(bot.history, config.symbol, now) => put(
            bot.history,
            config.symbol,
            now,
        ),
        _ => bot.history,
    }
}

/// What is said of an order that was not sent.
pub open spec fn order_message(e: OrderErrorView) -> Seq<char> {
    match e {
        OrderErrorView::KeyFormat => "Symbol key must be in SYMBOL@ACCOUNT format"@,
        OrderErrorView::NotConfigured => "Symbol/account combination not configured"@,
        OrderErrorView::AlreadyOrdered { symbol, last } =>
            "Order blocked: only one order per symbol per day allowed. Last order for "@ + symbol
            + " was on "@ + last.date_text(),
        OrderErrorView::NoIbClient => "IB client not initialized"@,
        OrderErrorView::NoApi => "Schwab API client not initialized"@,
        OrderErrorView::UnsupportedSide { side } => "Unsupported side '"@ + side
            + "'. Expected BUY or SELL."@,
        OrderErrorView::QuantityNotPositive => "Quantity must be greater than zero"@,
        OrderErrorView::PriceNotPositive => "Limit price must be greater than zero"@,
        OrderErrorView::Commission { estimate } =>
            "Order blocked by commission policy: estimated commission $"@ + decimal_text(
            estimate,
            2,
        ) + " exceeds threshold"@,
        OrderErrorView::Risk(e) => risk_message(e),
    }
}

impl OrderError {
    /// What is said of the order that was not sent.
    pub fn message(&self) -> (r: String)
        ensures
            r@ == order_message(self@),
    {
        let mut r: String = String::new();
        match self {
            OrderError::KeyFormat => {
                r.append("Symbol key must be in SYMBOL@ACCOUNT format");
            },
            OrderError::NotConfigured => {
                r.append("Symbol/account combination not configured");
            },
            OrderError::AlreadyOrdered { symbol, last } => {
                r.append(
                    "Order blocked: only one order per symbol per day allowed. Last order for ",
                );
                r.append(symbol.as_str());
                r.append(" was on ");
                r.append(last.date().as_str());
            },
            OrderError::NoIbClient => {
                r.append("IB client not initialized");
            },
            OrderError::NoApi => {
                r.append("Schwab API client not initialized");
            },
            OrderError::UnsupportedSide { side } => {
                r.append("Unsupported side '");
                r.append(side.as_str());
                r.append("'. Expected BUY or SELL.");
            },
            OrderError::QuantityNotPositive => {
                r.append("Quantity must be greater than zero");
            },
            OrderError::PriceNotPositive => {
                r.append("Limit price must be greater than zero");
            },
            OrderError::Commission { estimate } => {
                r.append("Order blocked by commission policy: estimated commission $");
                r.append(to_fixed(*estimate, 2).as_str());
                r.append(" exceeds threshold");
            },
            OrderError::Risk(e) => {
                r.append(e.message().as_str());
            },
        }
        assert(r@ =~= order_message(self@));
        r
    }
}

/// The commission that Schwab would take: the flat amount that is set, or none.
pub fn estimate_schwab_commission(flat: Option<Decimal>) -> (r: Decimal)
    ensures
        r == (match flat {
            Some(amount) => amount,
            None => (Decimal { units: 0 }),
        }),
{
    match flat {
        Some(amount) => amount,
        None => Decimal::zero(),
    }
}

fn instruction_of(name: &str) -> (r: Option<Instruction>)
    requires
        upper(name@) == name@,
    ensures
        r == side_instruction(name@),
{
    if same(name, "BUY") || same(name, "B") {
        Some(Instruction::Buy)
    } else if same(name, "SELL") || same(name, "S") {
        Some(Instruction::Sell)
    } else {
        None
    }
}

proof fn lemma_upper_twice(s: Seq<char>)
    ensures
        upper(upper(s)) == upper(s),
{
    assert(upper(upper(s)) =~= upper(s));
}

proof fn lemma_find_symbol(symbols: Seq<SymbolView>, symbol: Seq<char>, account: Seq<char>, i: int)
    requires
        0 <= i <= symbols.len(),
        i < symbols.len() ==> symbols[i].account_hash == account && upper(symbols[i].symbol)
            == upper(symbol),
        forall|j: int|
            0 <= j < i ==> !((#[trigger] symbols[j]).account_hash == account && upper(
                symbols[j].symbol,
            ) == upper(symbol)),
    ensures
        find_symbol(symbols, symbol, account) == i,
    decreases symbols.len(),
{
    if i > 0 {
        let rest = symbols.drop_first();
        assert(!(symbols[0].account_hash == account && upper(symbols[0].symbol) == upper(symbol)));
        assert forall|j: int| 0 <= j < i - 1 implies !((#[trigger] rest[j]).account_hash == account
            && upper(rest[j].symbol) == upper(symbol)) by {
            assert(rest[j] == symbols[j + 1]);
        }
        lemma_find_symbol(rest, symbol, account, i - 1);
    }
}

impl TradingBot {
    fn configured(&self, symbol: &str, account_hash: &str) -> (r: usize)
        ensures
            r == find_symbol(self@.symbols, symbol@, account_hash@),
            r <= self.symbols_config@.len(),
    {
        let wanted: String = uppercase(symbol);
        let n: usize = self.symbols_config.len();
        let mut i: usize = 0;
        while i < n
            invariant
                i <= n,
                n == self.symbols_config@.len(),
                wanted@ == upper(symbol@),
                forall|j: int|
                    0 <= j < i ==> !((#[trigger] self@.symbols[j]).account_hash == account_hash@
                        && upper(self@.symbols[j].symbol) == upper(symbol@)),
            decreases n - i,
        {
            let config: &Symbol = &self.symbols_config[i];
            assert(self@.symbols[i as int] == config@);
            if same(config.account_hash.as_str(), account_hash) && same(
                uppercase(config.symbol.as_str()).as_str(),
                wanted.as_str(),
            ) {
                proof {
                    lemma_find_symbol(self@.symbols, symbol@, account_hash@, i as int);
                }
                return i;
            }
            i = i + 1;
        }
        proof {
            lemma_find_symbol(self@.symbols, symbol@, account_hash@, n as int);
        }
        n
    }

    fn check_ticket(&self, ticket: OrderTicket, reply: &Option<BalanceReply>) -> (r: OrderStep)
        ensures
            r@ == checked_step(
                self@,
                ticket@,
                crate::risk::opt_balance_reply_view(*reply),
            ),
    {
        match self.evaluate_order_risks(
            ticket.account_hash.as_str(),
            ticket.symbol.as_str(),
            ticket.instruction,
            ticket.qty,
            ticket.limit_price,
            reply,
        ) {
            RiskStep::NeedBalances => OrderStep::FetchBalances(ticket),
            RiskStep::Passed => OrderStep::Place(ticket),
            RiskStep::Refused(e) => OrderStep::Refused(OrderError::Risk(e)),
        }
    }

    fn route_order(
        &self,
        at: usize,
        side: &str,
        qty: Decimal,
        limit_price: Decimal,
        commission: Decimal,
    ) -> (r: OrderStep)
        requires
            at < self.symbols_config@.len(),
        ensures
            r@ == routed_step(
                self@,
                self@.symbols[at as int],
                side@,
                qty,
                limit_price,
                commission,
            ),
    {
        let config: &Symbol = &self.symbols_config[at];
        assert(self@.symbols[at as int] == config@);
        let at_ibkr: bool = config.at_ibkr();
        if at_ibkr && !self.has_ib_client {
            return OrderStep::Refused(OrderError::NoIbClient);
        }
        if !at_ibkr && !self.has_api {
            return OrderStep::Refused(OrderError::NoApi);
        }
        let name: String = uppercase(side);
        proof {
            lemma_upper_twice(side@);
        }
        let instruction: Instruction = match instruction_of(name.as_str()) {
            Some(instruction) => instruction,
            None => {
                return OrderStep::Refused(OrderError::UnsupportedSide { side: name });
            },
        };
        if qty.units <= 0 {
            return OrderStep::Refused(OrderError::QuantityNotPositive);
        }
        if limit_price.units <= 0 {
            return OrderStep::Refused(OrderError::PriceNotPositive);
        }
        if !at_ibkr && commission.units > 0 {
            return OrderStep::Refused(OrderError::Commission { estimate: commission });
        }
        let ticket: OrderTicket = OrderTicket {
            route: if at_ibkr {
                Route::Ibkr
            } else {
                Route::Schwab
            },
            symbol: config.symbol.clone(),
            account_hash: config.account_hash.clone(),
            instruction,
            qty,
            limit_price: if at_ibkr {
                limit_price
            } else {
                limit_price.to_cents()
            },
        };
        self.check_ticket(ticket, &None)
    }

    /// Starts a limit order for a key of the form `SYMBOL@ACCOUNT`.
    ///
    /// Notes in the order history that the symbol was tried, and says what is to be done next.
    pub fn send_limit_order(
        &mut self,
        symbol_key: &str,
        side: &str,
        qty: Decimal,
        limit_price: Decimal,
        now: UtcTime,
        commission: Decimal,
    ) -> (r: OrderStep)
        ensures
            r@ == order_step(old(self)@, symbol_key@, side@, qty, limit_price, now, commission),
            final(self)@ == (BotView {
                history: history_after(old(self)@, symbol_key@, now),
                ..old(self)@
            }),
    {
        let (symbol, account_hash) = match split_text(symbol_key, '@') {
            Some(parts) => parts,
            None => {
                return OrderStep::Refused(OrderError::KeyFormat);
            },
        };
        let at: usize = self.configured(symbol.as_str(), account_hash.as_str());
        if at >= self.symbols_config.len() {
            return OrderStep::Refused(OrderError::NotConfigured);
        }
        assert(self@.symbols[at as int] == self.symbols_config@[at as int]@);
        let traded: String = self.symbols_config[at].symbol.clone();
        if let Some(last) = self.order_history.get(traded.as_str()) {
            if last.same_day(now) {
                let last: UtcTime = *last;
                return OrderStep::Refused(OrderError::AlreadyOrdered { symbol: traded, last });
            }
        }
        let step: OrderStep = self.route_order(at, side, qty, limit_price, commission);
        self.order_history.set(traded, now);
        step
    }

    /// Goes on with an order once the answer on its account's balances is there.
    pub fn resume_limit_order(&self, ticket: OrderTicket, answer: OrderBalances) -> (r: OrderStep)
        ensures
            r@ == checked_step(
                self@,
                ticket@,
                heard_balances(self@, ticket@.account_hash, answer),
            ),
            heard_balances(self@, ticket@.account_hash, answer) is Some ==> !(r is FetchBalances),
    {
        let at_ibkr: bool = self.uses_ibkr(ticket.account_hash.as_str());
        let heard: Option<BalanceReply> = match answer {
            OrderBalances::Ibkr(reply) if at_ibkr => Some(reply),
            OrderBalances::Schwab(reply) if !at_ibkr => Some(reply),
            _ => None,
        };
        self.check_ticket(ticket, &heard)
    }
}

/// One order per symbol and day: once an order for a symbol was tried, every other order for it
/// on the same day is refused.
pub proof fn law_one_order_per_day(
    bot: BotView,
    first_key: Seq<char>,
    first_time: UtcTime,
    key: Seq<char>,
    side: Seq<char>,
    qty: Decimal,
    price: Decimal,
    time: UtcTime,
    commission: Decimal,
)
    requires
        resolve(bot.symbols, first_key) is Ok,
        resolve(bot.symbols, key) is Ok,
        resolve(bot.symbols, first_key)->Ok_0.symbol == resolve(bot.symbols, key)->Ok_0.symbol,
        first_time.on_day() == time.on_day(),
    ensures
        ({
            let after = BotView { history: history_after(bot, first_key, first_time), ..bot };
            order_step(after, key, side, qty, price, time, commission) matches
                OrderStepView::Refused(e) && e is AlreadyOrdered
        }),
        ({
            let after = BotView { history: history_after(bot, first_key, first_time), ..bot };
            history_after(after, key, time) == after.history
        }),
{
    let symbol = resolve(bot.symbols, first_key)->Ok_0.symbol;
    law_put_then_lookup(bot.history, symbol, first_time, symbol);
}

/// Trying an order for one symbol leaves every other symbol free to be traded as before.
pub proof fn law_other_symbols_stay_free(
    bot: BotView,
    key: Seq<char>,
    time: UtcTime,
    other: Seq<char>,
    other_time: UtcTime,
)
    requires
        resolve(bot.symbols, key) matches Ok(config) ==> config.symbol != other,
    ensures
        ordered_today(history_after(bot, key, time), other, other_time) == ordered_today(
            bot.history,
            other,
            other_time,
        ),
{
    if let Ok(config) = resolve(bot.symbols, key) {
        law_put_then_lookup(bot.history, config.symbol, time, other);
    }
}

/// An order is free again on another day, if the symbol was last tried on this one.
pub proof fn law_free_on_another_day(
    bot: BotView,
    key: Seq<char>,
    time: UtcTime,
    later: UtcTime,
)
    requires
        resolve(bot.symbols, key) is Ok,
        later.on_day() != time.on_day(),
    ensures
        !ordered_today(
            history_after(bot, key, time),
            resolve(bot.symbols, key)->Ok_0.symbol,
            later,
        ),
{
    let symbol = resolve(bot.symbols, key)->Ok_0.symbol;
    law_put_then_lookup(bot.history, symbol, time, symbol);
}

/// An order that goes straight out is for a configured symbol that was not tried that day, for a
/// positive quantity at a positive price, and to Schwab only without commission.
pub proof fn law_placed_order_is_sound(
    bot: BotView,
    key: Seq<char>,
    side: Seq<char>,
    qty: Decimal,
    price: Decimal,
    now: UtcTime,
    commission: Decimal,
)
    requires
        !(order_step(bot, key, side, qty, price, now, commission) is Refused),
    ensures
        resolve(bot.symbols, key) is Ok,
        !ordered_today(bot.history, resolve(bot.symbols, key)->Ok_0.symbol, now),
        qty.units > 0,
        price.units > 0,
        side_instruction(side) is Some,
        !trades_at_ibkr(resolve(bot.symbols, key)->Ok_0) ==> commission.units <= 0 && bot.has_api,
        trades_at_ibkr(resolve(bot.symbols, key)->Ok_0) ==> bot.has_ib_client,
{
}

/// No order goes out unchecked, to either broker: neither at once nor after an answer on its
/// account's balances, which leaves the order as it was.
pub proof fn law_every_order_is_checked(
    bot: BotView,
    key: Seq<char>,
    side: Seq<char>,
    qty: Decimal,
    price: Decimal,
    now: UtcTime,
    commission: Decimal,
    later: BotView,
    reply: Option<Result<Seq<Decimal>, Seq<char>>>,
)
    ensures
        order_step(bot, key, side, qty, price, now, commission) matches OrderStepView::Place(t)
            ==> risk_step(
            bot,
            t.account_hash,
            t.symbol,
            t.instruction,
            t.qty,
            t.limit_price,
            None,
        ) is Passed,
        order_step(bot, key, side, qty, price, now, commission) matches
            OrderStepView::FetchBalances(t) ==> (checked_step(later, t, reply) matches
            OrderStepView::Place(sent) ==> sent == t && risk_step(
            later,
            t.account_hash,
            t.symbol,
            t.instruction,
            t.qty,
            t.limit_price,
            reply,
        ) is Passed),
{
}

/// A buy never goes straight out: its cash is always asked for, from the broker that looks after
/// its account.
pub proof fn law_buy_waits_for_cash(
    bot: BotView,
    key: Seq<char>,
    side: Seq<char>,
    qty: Decimal,
    price: Decimal,
    now: UtcTime,
    commission: Decimal,
)
    requires
        side_instruction(side) == Some(Instruction::Buy),
    ensures
        !(order_step(bot, key, side, qty, price, now, commission) is Place),
{
}

/// An order that is not refused is the one that was asked for: its symbol, account, side and
/// quantity, at the broker of its symbol, and at its price, in cents where it goes to Schwab.
pub proof fn law_order_is_the_one_asked_for(
    bot: BotView,
    key: Seq<char>,
    side: Seq<char>,
    qty: Decimal,
    price: Decimal,
    now: UtcTime,
    commission: Decimal,
    ticket: TicketView,
)
    requires
        order_step(bot, key, side, qty, price, now, commission) == OrderStepView::Place(ticket)
            || order_step(bot, key, side, qty, price, now, commission)
            == OrderStepView::FetchBalances(ticket),
    ensures
        resolve(bot.symbols, key) matches Ok(config) && {
            &&& ticket.symbol == config.symbol
            &&& ticket.account_hash == config.account_hash
            &&& ticket.route is Ibkr <==> trades_at_ibkr(config)
            &&& Some(ticket.instruction) == side_instruction(side)
            &&& ticket.qty == qty
            &&& ticket.limit_price == (if trades_at_ibkr(config) {
                price
            } else {
                in_cents(price)
            })
        },
{
}

/// An order for some shares that passes the checks has a positive limit price, also where it was
/// rounded to cents.
pub proof fn law_checked_price_is_positive(
    bot: BotView,
    ticket: TicketView,
    reply: Option<Result<Seq<Decimal>, Seq<char>>>,
)
    requires
        ticket.qty.units > 0,
        checked_step(bot, ticket, reply) is Place,
    ensures
        ticket.limit_price.units > 0,
{
    let q = ticket.qty.units as int;
    let p = ticket.limit_price.units as int;
    assert(q * p >= MINIMUM_NOTIONAL);
    assert(p > 0) by (nonlinear_arith)
        requires
            q > 0,
            q * p >= 1,
    ;
}

/// The price that goes out to Schwab is a whole number of cents, and no more than half a cent
/// off, as long as the rounding stays in range.
pub proof fn law_price_in_cents_is_near(price: Decimal)
    requires
        i64::MIN + CENT <= price.units <= i64::MAX - CENT,
    ensures
        in_cents(price).units as int % CENT as int == 0,
        2 * abs(in_cents(price).units - price.units) <= CENT,
{
    let n = abs(price.units as int);
    let m = (n + 500_000) / 1_000_000;
    assert(1_000_000 * m <= n + 500_000 < 1_000_000 * m + 1_000_000);
}

/// A key names the first configured symbol of the account behind its first `@` whose name is the
/// one before it, whatever the case of its letters. A key without `@` names nothing, and neither
/// does one that fits no symbol.
pub proof fn law_keys_name_symbols(
    symbols: Seq<SymbolView>,
    symbol: Seq<char>,
    account: Seq<char>,
    i: int,
    other: Seq<char>,
)
    requires
        !symbol.contains('@'),
        !other.contains('@'),
        0 <= i <= symbols.len(),
        i < symbols.len() ==> symbols[i].account_hash == account && upper(symbols[i].symbol)
            == upper(symbol),
        forall|j: int|
            0 <= j < i ==> (#[trigger] symbols[j]).account_hash != account || upper(
                symbols[j].symbol,
            ) != upper(symbol),
    ensures
        i < symbols.len() ==> resolve(symbols, symbol.push('@') + account) == Ok::<
            SymbolView,
            OrderErrorView,
        >(symbols[i]),
        i == symbols.len() ==> resolve(symbols, symbol.push('@') + account) == Err::<
            SymbolView,
            OrderErrorView,
        >(OrderErrorView::NotConfigured),
        resolve(symbols, other) == Err::<SymbolView, OrderErrorView>(OrderErrorView::KeyFormat),
{
    let key = symbol.push('@') + account;
    law_split_at_the_first(key, '@');
    law_split_at_the_first(other, '@');
    assert(key[symbol.len() as int] == '@');
    assert(key.contains('@'));
    let parts = split_once(key, '@')->0;
    assert(parts.0 =~= symbol && parts.1 =~= account) by {
        let n = parts.0.len() as int;
        let whole = parts.0.push('@') + parts.1;
        if n < symbol.len() {
            assert(whole[n] == '@');
            assert(symbol[n] == '@');
            assert(symbol.contains('@'));
        }
        if n > symbol.len() {
            assert(whole[symbol.len() as int] == parts.0[symbol.len() as int]);
            assert(parts.0.contains('@'));
        }
        assert(n == symbol.len());
        assert forall|j: int| 0 <= j < n implies parts.0[j] == symbol[j] by {
            assert(whole[j] == key[j]);
        }
        assert(whole.len() == key.len());
        assert forall|j: int| 0 <= j < account.len() implies parts.1[j] == account[j] by {
            assert(whole[n + 1 + j] == key[n + 1 + j]);
        }
    }
    lemma_find_symbol(symbols, symbol, account, i);
}

/// The sides of an order are buy and sell, each by its name or its first letter in any case, and
/// there is no other.
pub proof fn law_sides_have_their_names(side: Seq<char>)
    ensures
        upper(side) == "BUY"@ || upper(side) == "B"@ ==> side_instruction(side) == Some(
            Instruction::Buy,
        ),
        upper(side) == "SELL"@ || upper(side) == "S"@ ==> side_instruction(side) == Some(
            Instruction::Sell,
        ),
        upper(side) != "BUY"@ && upper(side) != "B"@ && upper(side) != "SELL"@ && upper(side)
            != "S"@ ==> side_instruction(side) is None,
{
    reveal_strlit("BUY");
    reveal_strlit("B");
    reveal_strlit("SELL");
    reveal_strlit("S");
    assert("BUY"@[0] != "SELL"@[0]);
    assert("BUY"@[0] != "S"@[0]);
    assert("B"@[0] != "SELL"@[0]);
    assert("B"@[0] != "S"@[0]);
}

/// An order is refused for the first of these that holds: its key names no symbol, the symbol was
/// ordered on the same day, the client of its broker is missing, its side is unknown, its quantity
/// or its price is not positive, or Schwab would take a commission. Any other order is checked as
/// it is, at its own price, or at Schwab in whole cents.
pub proof fn law_orders_are_refused_in_order(
    bot: BotView,
    key: Seq<char>,
    side: Seq<char>,
    qty: Decimal,
    price: Decimal,
    now: UtcTime,
    commission: Decimal,
    config: SymbolView,
)
    requires
        resolve(bot.symbols, key) == Ok::<SymbolView, OrderErrorView>(config),
    ensures
        ({
            let step = order_step(bot, key, side, qty, price, now, commission);
            let last = lookup(bot.history, config.symbol);
            let today = last is Some && last->0.on_day() == now.on_day();
            let ibkr = config.api == Some("ibkr"@);
            let client = if ibkr {
                bot.has_ib_client
            } else {
                bot.has_api
            };
            let known_side = upper(side) == "BUY"@ || upper(side) == "B"@ || upper(side)
                == "SELL"@ || upper(side) == "S"@;
            &&& today ==> step == OrderStepView::Refused(
                OrderErrorView::AlreadyOrdered { symbol: config.symbol, last: last->0 },
            )
            &&& !today && !client && ibkr ==> step == OrderStepView::Refused(
                OrderErrorView::NoIbClient,
            )
            &&& !today && !client && !ibkr ==> step == OrderStepView::Refused(
                OrderErrorView::NoApi,
            )
            &&& !today && client && !known_side ==> step == OrderStepView::Refused(
                OrderErrorView::UnsupportedSide { side: upper(side) },
            )
            &&& !today && client && known_side && qty.units <= 0 ==> step
                == OrderStepView::Refused(OrderErrorView::QuantityNotPositive)
            &&& !today && client && known_side && qty.units > 0 && price.units <= 0 ==> step
                == OrderStepView::Refused(OrderErrorView::PriceNotPositive)
            &&& !today && client && known_side && qty.units > 0 && price.units > 0 && !ibkr
                && commission.units > 0 ==> step == OrderStepView::Refused(
                OrderErrorView::Commission { estimate: commission },
            )
            &&& !today && client && known_side && qty.units > 0 && price.units > 0 && (ibkr
                || commission.units <= 0) ==> {
                let buy = upper(side) == "BUY"@ || upper(side) == "B"@;
                if ibkr {
                    step == at_limit(bot, config, true, buy, qty, price)
                } else {
                    step == at_limit(bot, config, false, buy, qty, in_cents(price))
                }
            }
        }),
{
    law_sides_have_their_names(side);
    law_symbols_name_their_broker(config);
}

/// What the checks say of an order for a configured symbol at this limit: it goes out, waits for
/// balances or is refused, unchanged.
pub open spec fn at_limit(
    bot: BotView,
    config: SymbolView,
    ibkr: bool,
    buy: bool,
    qty: Decimal,
    limit: Decimal,
) -> OrderStepView {
    let instruction = if buy {
        Instruction::Buy
    } else {
        Instruction::Sell
    };
    let ticket = TicketView {
        route: if ibkr {
            Route::Ibkr
        } else {
            Route::Schwab
        },
        symbol: config.symbol,
        account_hash: config.account_hash,
        instruction,
        qty,
        limit_price: limit,
    };
    match risk_step(bot, config.account_hash, config.symbol, instruction, qty, limit, None) {
        RiskStepView::NeedBalances => OrderStepView::FetchBalances(ticket),
        RiskStepView::Passed => OrderStepView::Place(ticket),
        RiskStepView::Refused(e) => OrderStepView::Refused(OrderErrorView::Risk(e)),
    }
}

/// Whether a positive price in whole cents is the nearest to another, the greater one at half a
/// cent; the largest that can be held where none is so near.
pub open spec fn cents_near(price: Decimal, cents: Decimal) -> bool {
    ||| cents.units as int % 1_000_000 == 0 && 2 * (price.units - cents.units) < 1_000_000 && 2 * (
    cents.units - price.units) <= 1_000_000
    ||| cents.units == 0x7fff_ffff_ffff_ffff && 0x7fff_ffff_ffff_ffff - price.units < 500_000
}

/// The price that goes out to Schwab is the nearest whole number of cents, the greater one at half
/// a cent.
pub proof fn law_cents_are_near(price: Decimal)
    ensures
        price.units > 0 ==> cents_near(price, in_cents(price)),
{
    if price.units > 0 {
        let n = price.units as int;
        let m = (n + 500_000) / 1_000_000;
        assert(1_000_000 * m <= n + 500_000 < 1_000_000 * m + 1_000_000);
        assert((m * 1_000_000) % 1_000_000 == 0);
    }
}

/// Trying an order notes its symbol at the time of the try, unless it was ordered on that day
/// already or its key names nothing; no other symbol is touched.
pub proof fn law_a_try_is_noted(
    bot: BotView,
    key: Seq<char>,
    now: UtcTime,
    other: Seq<char>,
)
    ensures
        resolve(bot.symbols, key) is Err ==> history_after(bot, key, now) == bot.history,
        resolve(bot.symbols, key) matches Ok(config) ==> {
            let last = lookup(bot.history, config.symbol);
            let today = last is Some && last->0.on_day() == now.on_day();
            &&& today ==> history_after(bot, key, now) == bot.history
            &&& !today ==> lookup(history_after(bot, key, now), config.symbol) == Some(now)
            &&& other != config.symbol ==> lookup(history_after(bot, key, now), other) == lookup(
                bot.history,
                other,
            )
        },
{
    if let Ok(config) = resolve(bot.symbols, key) {
        law_put_then_lookup(bot.history, config.symbol, now, other);
    }
}

/// An order that waited goes on as the checks say with the answer of its account's broker; one of
/// the other broker is no answer.
pub proof fn law_waiting_orders_hear_their_broker(
    bot: BotView,
    ticket: TicketView,
    balances: Vec<Decimal>,
    reason: String,
    reply: Option<Result<Seq<Decimal>, Seq<char>>>,
)
    ensures
        ({
            let ibkr = names_ibkr(bot.symbols, ticket.account_hash);
            let account = ticket.account_hash;
            &&& heard_balances(bot, account, OrderBalances::Ibkr(Ok(balances))) == (if ibkr {
                Some(Ok::<Seq<Decimal>, Seq<char>>(balances@))
            } else {
                None
            })
            &&& heard_balances(bot, account, OrderBalances::Ibkr(Err(reason))) == (if ibkr {
                Some(Err::<Seq<Decimal>, Seq<char>>(reason@))
            } else {
                None
            })
            &&& heard_balances(bot, account, OrderBalances::Schwab(Ok(balances))) == (if ibkr {
                None
            } else {
                Some(Ok::<Seq<Decimal>, Seq<char>>(balances@))
            })
            &&& heard_balances(bot, account, OrderBalances::Schwab(Err(reason))) == (if ibkr {
                None
            } else {
                Some(Err::<Seq<Decimal>, Seq<char>>(reason@))
            })
        }),
        checked_step(bot, ticket, reply) == (match risk_step(
            bot,
            ticket.account_hash,
            ticket.symbol,
            ticket.instruction,
            ticket.qty,
            ticket.limit_price,
            reply,
        ) {
            RiskStepView::NeedBalances => OrderStepView::FetchBalances(ticket),
            RiskStepView::Passed => OrderStepView::Place(ticket),
            RiskStepView::Refused(e) => OrderStepView::Refused(OrderErrorView::Risk(e)),
        }),
{
    law_one_symbol_decides_the_broker(bot.symbols, ticket.account_hash);
}

/// What is said of an order that was not sent names what it is about.
pub proof fn law_order_refusals_are_named(
    symbol: Seq<char>,
    last: UtcTime,
    estimate: Decimal,
    e: RiskErrorView,
)
    ensures
        order_message(OrderErrorView::KeyFormat) == "Symbol key must be in SYMBOL@ACCOUNT format"@,
        order_message(OrderErrorView::NotConfigured)
            == "Symbol/account combination not configured"@,
        order_message(OrderErrorView::AlreadyOrdered { symbol, last })
            == "Order blocked: only one order per symbol per day allowed. Last order for "@ + symbol
            + " was on "@ + last.date_text(),
        order_message(OrderErrorView::NoIbClient) == "IB client not initialized"@,
        order_message(OrderErrorView::NoApi) == "Schwab API client not initialized"@,
        order_message(OrderErrorView::UnsupportedSide { side: symbol }) == "Unsupported side '"@
            + symbol + "'. Expected BUY or SELL."@,
        order_message(OrderErrorView::QuantityNotPositive)
            == "Quantity must be greater than zero"@,
        order_message(OrderErrorView::PriceNotPositive)
            == "Limit price must be greater than zero"@,
        order_message(OrderErrorView::Commission { estimate })
            == "Order blocked by commission policy: estimated commission $"@ + fixed(
            estimate.units as int,
            8,
            2,
        ) + " exceeds threshold"@,
        order_message(OrderErrorView::Risk(e)) == risk_message(e),
{
}

/// The views of orders, refusals and steps show their fields under their own names.
pub proof fn law_order_views_show_fields(t: OrderTicket, e: OrderError, s: OrderStep)
    ensures
        t@.route == t.route,
        t@.symbol == t.symbol@,
        t@.account_hash == t.account_hash@,
        t@.instruction == t.instruction,
        t@.qty == t.qty,
        t@.limit_price == t.limit_price,
        e matches OrderError::AlreadyOrdered { symbol, last } ==> e@
            == (OrderErrorView::AlreadyOrdered { symbol: symbol@, last }),
        e matches OrderError::UnsupportedSide { side } ==> e@ == (OrderErrorView::UnsupportedSide {
            side: side@,
        }),
        e matches OrderError::Commission { estimate } ==> e@ == (OrderErrorView::Commission {
            estimate,
        }),
        e matches OrderError::Risk(r) ==> e@ == OrderErrorView::Risk(r@),
        e is KeyFormat ==> e@ is KeyFormat,
        e is NotConfigured ==> e@ is NotConfigured,
        e is NoIbClient ==> e@ is NoIbClient,
        e is NoApi ==> e@ is NoApi,
        e is QuantityNotPositive ==> e@ is QuantityNotPositive,
        e is PriceNotPositive ==> e@ is PriceNotPositive,
        s matches OrderStep::Refused(x) ==> s@ == OrderStepView::Refused(x@),
        s matches OrderStep::Place(x) ==> s@ == OrderStepView::Place(x@),
        s matches OrderStep::FetchBalances(x) ==> s@ == OrderStepView::FetchBalances(x@),
{
}

/// An order is refused where its key has no separator, or names no symbol of its account, and
/// leaves the history as it was; a try that is noted keeps the rest of the history in its places.
pub proof fn law_unknown_keys_are_refused(
    bot: BotView,
    key: Seq<char>,
    side: Seq<char>,
    qty: Decimal,
    price: Decimal,
    now: UtcTime,
    commission: Decimal,
)
    ensures
        resolve(bot.symbols, key) matches Err(e) ==> {
            &&& order_step(bot, key, side, qty, price, now, commission) == OrderStepView::Refused(e)
            &&& history_after(bot, key, now) == bot.history
        },
        !key.contains('@') ==> order_step(bot, key, side, qty, price, now, commission)
            == OrderStepView::Refused(OrderErrorView::KeyFormat),
        resolve(bot.symbols, key) matches Ok(config) ==> (!(lookup(
            bot.history,
            config.symbol,
        ) matches Some(last) && last.on_day() == now.on_day()) ==> history_after(bot, key, now)
            == put(bot.history, config.symbol, now)),
{
    law_split_at_the_first(key, '@');
}

} // verus!
