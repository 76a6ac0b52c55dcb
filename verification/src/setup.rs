//! Starting the bot.
use crate::accounts::{configured_accounts, is_named, lists_accounts};
use crate::bot::{BotView, TradingBot};
use crate::clock::UtcTime;
use crate::decimal::Decimal;
use crate::history::{
    knows_since, law_histories_join_by_the_later, law_history_stays_in_the_past,
    law_known_since_today_is_today, law_merged_history_knows_both, none_after, note_all, noted_all,
};
use crate::ibkr::{
    history_told, law_latest_trade_is_noted, law_told_history_is_past, tells_trade, trade_time,
    OrderNewsView,
};
use crate::models::{symbol_views, trades_at_ibkr, Symbol, SymbolView};
use crate::orders::{order_step, ordered_today, resolve, OrderStepView};
use crate::schwab::{
    has_leg, law_first_history_is_past, law_listed_orders_are_known, listed_orders, note_accounts,
    order_time, RecentOrdersView,
};
use crate::table::{lookup, Table};
use crate::text::{opt_text, texts};
use vstd::prelude::*;

verus! {

/// Why the bot could not be started.
#[derive(Debug, PartialEq, Eq, Structural)]
pub enum SetupError {
    NoAccounts,
}

impl SetupError {
    pub fn message(&self) -> (r: String)
        ensures
            r@ == "Schwab API returned no account numbers"@,
    {
        "Schwab API returned no account numbers".to_owned()
    }
}

/// Whether any symbol trades through Interactive Brokers.
pub open spec fn any_at_ibkr(symbols: Seq<SymbolView>) -> bool {
    exists|i: int| 0 <= i < symbols.len() && trades_at_ibkr(#[trigger] symbols[i])
}

/// An order history, or none.
pub open spec fn history_or_none(history: Option<Table<UtcTime>>) -> Seq<(Seq<char>, UtcTime)> {
    match history {
        Some(table) => table@,
        None => Seq::empty(),
    }
}

/// Where the symbols are configured.
pub fn config_path() -> (r: &'static str)
    ensures
        r@ == "/Users/rogerbos/rust_home/schwab_bot/symbols_config.json"@,
{
    "/Users/rogerbos/rust_home/schwab_bot/symbols_config.json"
}

/// The account to fall back to where no symbol names one: the preferred one, or else the first
/// that is listed.
pub fn fallback_account(preferred: Option<String>, listed: &Vec<String>) -> (r: Option<String>)
    ensures
        opt_text(r) == (if preferred is Some {
            opt_text(preferred)
        } else if listed@.len() > 0 {
            Some(listed@[0]@)
        } else {
            None
        }),
{
    match preferred {
        Some(hash) => Some(hash),
        None => if listed.len() > 0 {
            Some(listed[0].clone())
        } else {
            None
        },
    }
}

/// Whether any symbol trades through Interactive Brokers, so that its client is needed.
pub fn needs_ib_client(symbols: &Vec<Symbol>) -> (r: bool)
    ensures
        r == any_at_ibkr(symbol_views(symbols@)),
{
    let ghost views = symbol_views(symbols@);
    let n: usize = symbols.len();
    let mut i: usize = 0;
    while i < n
        invariant
            i <= n,
            n == symbols@.len(),
            views == symbol_views(symbols@),
            forall|j: int| 0 <= j < i ==> !trades_at_ibkr(#[trigger] views[j]),
        decreases n - i,
    {
        assert(views[i as int] == symbols@[i as int]@);
        if symbols[i].at_ibkr() {
            return true;
        }
        i = i + 1;
    }
    false
}

impl TradingBot {
    /// Starts the bot for the configured symbols.
    ///
    /// Its accounts are those that the symbols name. Where they name none, `fallback_hash` is the
    /// one account. The client for Interactive Brokers is taken to be there where any symbol
    /// needs it. The order history starts from what the brokers know.
    pub fn new(
        symbols: Vec<Symbol>,
        fallback_hash: Option<String>,
        ibkr_history: Option<Table<UtcTime>>,
        schwab_history: Option<Table<UtcTime>>,
    ) -> (r: Result<TradingBot, SetupError>)
        ensures
            r is Err <==> symbols@.len() == 0 && fallback_hash is None,
            r matches Ok(bot) ==> {
                &&& symbols@.len() > 0 ==> lists_accounts(
                    bot@.account_hashes,
                    symbol_views(symbols@),
                    false,
                )
                &&& symbols@.len() == 0 ==> bot@.account_hashes == seq![fallback_hash->0@]
                &&& bot@ == (BotView {
                    has_api: true,
                    has_ib_client: any_at_ibkr(symbol_views(symbols@)),
                    account_hashes: bot@.account_hashes,
                    symbols: symbol_views(symbols@),
                    positions: Seq::empty(),
                    prices: Seq::empty(),
                    balances: Seq::empty(),
                    history: first_history(
                        history_or_none(ibkr_history),
                        history_or_none(schwab_history),
                    ),
                })
            },
    {
        let mut account_hashes: Vec<String> = configured_accounts(&symbols);
        proof {
            let views = symbol_views(symbols@);
            let list = texts(account_hashes@);
            if symbols@.len() > 0 {
                assert(crate::accounts::names_account(views[0], views[0].account_hash, false));
                assert(is_named(views, views[0].account_hash, false));
                assert(list.contains(views[0].account_hash));
            } else if list.len() > 0 {
                assert(list.contains(list[0]));
            }
        }
        if account_hashes.len() == 0 {
            match fallback_hash {
                Some(hash) => {
                    account_hashes.push(hash);
                    assert(texts(account_hashes@) =~= seq![hash@]);
                },
                None => {
                    return Err(SetupError::NoAccounts);
                },
            }
        }
        let has_ib_client: bool = needs_ib_client(&symbols);
        let mut order_history: Table<UtcTime> = Table::new();
        if let Some(history) = &ibkr_history {
            note_all(&mut order_history, history);
        }
        if let Some(history) = &schwab_history {
            note_all(&mut order_history, history);
        }
        Ok(
            TradingBot {
                has_api: true,
                has_ib_client,
                account_hashes,
                symbols_config: symbols,
                positions: Table::new(),
                real_time_prices: Table::new(),
                account_balances: Table::new(),
                order_history,
            },
        )
    }

    /// Where the symbols are configured.
    pub fn get_config_path(&self) -> (r: &'static str)
        ensures
            r@ == "/Users/rogerbos/rust_home/schwab_bot/symbols_config.json"@,
    {
        config_path()
    }

    /// How many seconds lie between two runs of the strategy.
    pub fn get_interval_seconds(&self) -> (r: u64)
        ensures
            r == 60,
    {
        60
    }
}

/// The order history that the bot starts from.
pub open spec fn first_history(
    ibkr: Seq<(Seq<char>, UtcTime)>,
    schwab: Seq<(Seq<char>, UtcTime)>,
) -> Seq<(Seq<char>, UtcTime)> {
    noted_all(noted_all(Seq::empty(), ibkr), schwab)
}

/// The limit of one order per day holds across a restart: a symbol that either broker knows an
/// order of today for is not ordered again today.
pub proof fn law_restart_keeps_daily_limit(
    bot: BotView,
    ibkr: Seq<(Seq<char>, UtcTime)>,
    schwab: Seq<(Seq<char>, UtcTime)>,
    key: Seq<char>,
    side: Seq<char>,
    qty: Decimal,
    price: Decimal,
    now: UtcTime,
    commission: Decimal,
)
    requires
        bot.history == first_history(ibkr, schwab),
        none_after(ibkr, now),
        none_after(schwab, now),
        resolve(bot.symbols, key) matches Ok(config) && (ordered_today(ibkr, config.symbol, now)
            || ordered_today(schwab, config.symbol, now)),
    ensures
        order_step(bot, key, side, qty, price, now, commission) matches OrderStepView::Refused(e)
            && e is AlreadyOrdered,
{
    let symbol = resolve(bot.symbols, key)->Ok_0.symbol;
    let empty = Seq::<(Seq<char>, UtcTime)>::empty();
    let time = if ordered_today(schwab, symbol, now) {
        lookup(schwab, symbol)->0
    } else {
        lookup(ibkr, symbol)->0
    };
    law_merged_history_knows_both(empty, ibkr, symbol, time);
    law_merged_history_knows_both(noted_all(empty, ibkr), schwab, symbol, time);
    law_history_stays_in_the_past(empty, ibkr, now);
    law_history_stays_in_the_past(noted_all(empty, ibkr), schwab, now);
    law_known_since_today_is_today(bot.history, symbol, time, now);
}

/// Whether a message tells of a trade in the symbol on the day of `now`.
pub open spec fn traded_on_day(
    news: Seq<(OrderNewsView, UtcTime)>,
    symbol: Seq<char>,
    now: UtcTime,
) -> bool {
    exists|i: int|
        0 <= i < news.len() && tells_trade((#[trigger] news[i]).0, symbol) && trade_time(
            news[i],
        ).on_day() == now.on_day()
}

/// Whether Schwab lists an order for the symbol on the day of `now`.
pub open spec fn listed_on_day(
    replies: Seq<RecentOrdersView>,
    start: UtcTime,
    symbol: Seq<char>,
    now: UtcTime,
) -> bool {
    exists|a: int, i: int|
        #![trigger listed_orders(replies[a])[i]]
        0 <= a < replies.len() && 0 <= i < listed_orders(replies[a]).len() && has_leg(
            listed_orders(replies[a])[i],
            symbol,
        ) && order_time(listed_orders(replies[a])[i], start).on_day() == now.on_day()
}

/// A bot that starts from what the brokers tell does not order a symbol again on a day on which
/// either of them knows of an order for it.
pub proof fn law_no_second_order_after_a_restart(
    bot: BotView,
    news: Seq<(OrderNewsView, UtcTime)>,
    replies: Seq<RecentOrdersView>,
    start: UtcTime,
    key: Seq<char>,
    side: Seq<char>,
    qty: Decimal,
    price: Decimal,
    now: UtcTime,
    commission: Decimal,
)
    requires
        bot.history == first_history(history_told(news), note_accounts(replies, start)),
        forall|i: int| 0 <= i < news.len() ==> !now.is_before((#[trigger] news[i]).1),
        !now.is_before(start),
        resolve(bot.symbols, key) matches Ok(config) && (traded_on_day(news, config.symbol, now)
            || listed_on_day(replies, start, config.symbol, now)),
    ensures
        order_step(bot, key, side, qty, price, now, commission) matches OrderStepView::Refused(e)
            && e is AlreadyOrdered,
{
    let symbol = resolve(bot.symbols, key)->Ok_0.symbol;
    let ibkr = history_told(news);
    let schwab = note_accounts(replies, start);
    law_told_history_is_past(news, now);
    law_first_history_is_past(replies, start);
    assert(none_after(schwab, now));
    if traded_on_day(news, symbol, now) {
        let i = choose|i: int|
            0 <= i < news.len() && tells_trade((#[trigger] news[i]).0, symbol) && trade_time(
                news[i],
            ).on_day() == now.on_day();
        law_latest_trade_is_noted(news, symbol);
        assert(knows_since(ibkr, symbol, trade_time(news[i])));
        law_known_since_today_is_today(ibkr, symbol, trade_time(news[i]), now);
    } else {
        let (a, i) = choose|a: int, i: int|
            #![trigger listed_orders(replies[a])[i]]
            0 <= a < replies.len() && 0 <= i < listed_orders(replies[a]).len() && has_leg(
                listed_orders(replies[a])[i],
                symbol,
            ) && order_time(listed_orders(replies[a])[i], start).on_day() == now.on_day();
        let time = order_time(listed_orders(replies[a])[i], start);
        law_listed_orders_are_known(replies, start, symbol, a, i);
        law_known_since_today_is_today(schwab, symbol, time, now);
    }
    law_restart_keeps_daily_limit(
        bot,
        ibkr,
        schwab,
        key,
        side,
        qty,
        price,
        now,
        commission,
    );
}

/// The bot starts from what both brokers know: of each symbol the later of the two times, or the
/// one that either knows.
pub proof fn law_first_history_joins_both(
    ibkr: Seq<(Seq<char>, UtcTime)>,
    schwab: Seq<(Seq<char>, UtcTime)>,
    symbol: Seq<char>,
)
    requires
        forall|a: int, b: int|
            0 <= a < b < ibkr.len() ==> (#[trigger] ibkr[a]).0 != (#[trigger] ibkr[b]).0,
        forall|a: int, b: int|
            0 <= a < b < schwab.len() ==> (#[trigger] schwab[a]).0 != (#[trigger] schwab[b]).0,
    ensures
        lookup(first_history(ibkr, schwab), symbol) == (match (
            lookup(ibkr, symbol),
            lookup(schwab, symbol),
        ) {
            (Some(x), Some(y)) => Some(
                if x.is_before(y) {
                    y
                } else {
                    x
                },
            ),
            (Some(x), None) => Some(x),
            (None, y) => y,
        }),
{
    let empty = Seq::<(Seq<char>, UtcTime)>::empty();
    law_histories_join_by_the_later(empty, ibkr, symbol);
    law_histories_join_by_the_later(noted_all(empty, ibkr), schwab, symbol);
    assert(lookup(empty, symbol) is None);
}

/// A history that is not there counts as an empty one, and any other as it is.
pub proof fn law_missing_history_is_empty(history: Table<UtcTime>)
    ensures
        history_or_none(None) == Seq::<(Seq<char>, UtcTime)>::empty(),
        history_or_none(Some(history)) == history@,
{
}

/// The client for Interactive Brokers is needed just where some symbol names that broker.
pub proof fn law_client_is_needed_by_its_symbols(symbols: Seq<SymbolView>)
    ensures
        any_at_ibkr(symbols) <==> exists|i: int|
            0 <= i < symbols.len() && (#[trigger] symbols[i]).api == Some("ibkr"@),
{
    if any_at_ibkr(symbols) {
        let i = choose|i: int| 0 <= i < symbols.len() && trades_at_ibkr(#[trigger] symbols[i]);
        assert(symbols[i].api == Some("ibkr"@));
    }
    if exists|i: int| 0 <= i < symbols.len() && (#[trigger] symbols[i]).api == Some("ibkr"@) {
        let i = choose|i: int|
            0 <= i < symbols.len() && (#[trigger] symbols[i]).api == Some("ibkr"@);
        assert(trades_at_ibkr(symbols[i]));
    }
}

} // verus!
