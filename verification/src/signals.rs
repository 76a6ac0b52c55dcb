//! Trading signals and what the strategy makes of them.
use crate::bot::TradingBot;
use crate::decimal::{
    law_whole_shares_are_affordable, law_whole_shares_are_the_most, law_whole_shares_at_the_edges,
    whole_shares, Decimal, SCALE,
};
use crate::format::{decimal_text, to_fixed};
use crate::models::{blank_quote, RealTimeQuote, SignalInfo, SignalView, Symbol, SymbolView};
use crate::orders::{find_symbol, resolve};
use crate::table::{law_put_then_lookup, lookup, put, Table};
use crate::text::{position, prefix, same, take_prefix, upper, uppercase};
use vstd::prelude::*;

verus! {

/// What is known of the market in a symbol.
pub open spec fn quote_of(prices: Seq<(Seq<char>, RealTimeQuote)>, symbol: Seq<char>) -> RealTimeQuote {
    match lookup(prices, symbol) {
        Some(quote) => quote,
        None => blank_quote(),
    }
}

pub open spec fn wants_to_sell(config: SymbolView, quote: RealTimeQuote) -> bool {
    match quote.percent_change {
        Some(change) => change.units >= config.exit_threshold.units,
        None => false,
    }
}

pub open spec fn wants_to_buy(config: SymbolView, quote: RealTimeQuote) -> bool {
    match quote.percent_change {
        Some(change) => change.units < config.exit_threshold.units && change.units
            <= config.entry_threshold.units,
        None => false,
    }
}

/// What to do with a symbol: sell where it rose to its exit threshold, or else buy where it fell
/// to its entry threshold.
pub open spec fn action_of(config: SymbolView, quote: RealTimeQuote) -> Seq<char> {
    if wants_to_sell(config, quote) {
        "SELL"@
    } else if wants_to_buy(config, quote) {
        "BUY"@
    } else {
        "HOLD"@
    }
}

/// The signal for a symbol, with as many whole shares as its amount buys at the last price.
pub open spec fn signal_of(config: SymbolView, quote: RealTimeQuote) -> SignalView {
    let amount = if wants_to_sell(config, quote) {
        config.exit_amount
    } else if wants_to_buy(config, quote) {
        config.entry_amount
    } else {
        Decimal { units: 0 }
    };
    SignalView {
        action: action_of(config, quote),
        last_price: quote.last_price,
        quantity: Decimal {
            units: (match quote.last_price {
                Some(price) => whole_shares(amount, price),
                None => 0,
            }) as i64,
        },
    }
}

/// The key of a symbol in an account.
pub open spec fn key_of(config: SymbolView) -> Seq<char> {
    config.symbol + "@"@ + config.account_hash
}

/// The signals for the configured symbols. Of two entries with one key the later one stands.
pub open spec fn signals_of(
    symbols: Seq<SymbolView>,
    prices: Seq<(Seq<char>, RealTimeQuote)>,
) -> Seq<(Seq<char>, SignalView)>
    decreases symbols.len(),
{
    if symbols.len() == 0 {
        Seq::empty()
    } else {
        let config = symbols.last();
        put(
            signals_of(symbols.drop_last(), prices),
            key_of(config),
            signal_of(config, quote_of(prices, config.symbol)),
        )
    }
}

/// What the strategy does about one signal.
#[derive(Debug)]
pub enum SignalPlan {
    Send { symbol_key: String, action: String, qty: Decimal, limit_price: Decimal },
    /// An order is wanted, but there is no price to put as its limit.
    SkipWithoutPrice { symbol_key: String },
    Nothing,
}

pub enum SignalPlanView {
    Send { symbol_key: Seq<char>, action: Seq<char>, qty: Decimal, limit_price: Decimal },
    SkipWithoutPrice { symbol_key: Seq<char> },
    Nothing,
}

impl View for SignalPlan {
    type V = SignalPlanView;

    open spec fn view(&self) -> SignalPlanView {
        match *self {
            SignalPlan::Send { symbol_key, action, qty, limit_price } => SignalPlanView::Send {
                symbol_key: symbol_key@,
                action: action@,
                qty,
                limit_price,
            },
            SignalPlan::SkipWithoutPrice { symbol_key } => SignalPlanView::SkipWithoutPrice {
                symbol_key: symbol_key@,
            },
            SignalPlan::Nothing => SignalPlanView::Nothing,
        }
    }
}

/// What the strategy does about one signal: an order for a buy or a sell of any shares.
pub open spec fn plan_of(key: Seq<char>, signal: SignalView) -> SignalPlanView {
    let action = upper(signal.action);
    if (action == "BUY"@ || action == "SELL"@) && signal.quantity.units > 0 {
        match signal.last_price {
            Some(price) => SignalPlanView::Send {
                symbol_key: key,
                action,
                qty: signal.quantity,
                limit_price: price,
            },
            None => SignalPlanView::SkipWithoutPrice { symbol_key: key },
        }
    } else {
        SignalPlanView::Nothing
    }
}

/// How a signal is shown.
pub open spec fn signal_text(key: Seq<char>, signal: SignalView) -> Seq<char> {
    "Signal for "@ + prefix(key, 10) + ": "@ + signal.action + " (last_price: "@ + (
    match signal.last_price {
        Some(price) => "$"@ + decimal_text(price, 2),
        None => "N/A"@,
    }) + ", quantity: "@ + decimal_text(signal.quantity, 2) + ")"@
}

pub(crate) fn action_for(symbol: &Symbol, quote: &RealTimeQuote) -> (r: &'static str)
    ensures
        r@ == action_of(symbol@, *quote),
{
    match quote.percent_change {
        Some(change) => if change.units >= symbol.exit_threshold.units {
            "SELL"
        } else if change.units <= symbol.entry_threshold.units {
            "BUY"
        } else {
            "HOLD"
        },
        None => "HOLD",
    }
}

fn signal_for(symbol: &Symbol, quote: &RealTimeQuote) -> (r: SignalInfo)
    ensures
        r@ == signal_of(symbol@, *quote),
{
    let amount: Decimal = match quote.percent_change {
        Some(change) => if change.units >= symbol.exit_threshold.units {
            symbol.exit_amount
        } else if change.units <= symbol.entry_threshold.units {
            symbol.entry_amount
        } else {
            Decimal::zero()
        },
        None => Decimal::zero(),
    };
    let quantity: Decimal = match quote.last_price {
        Some(price) => amount.shares_at(price),
        None => Decimal::zero(),
    };
    SignalInfo {
        action: action_for(symbol, quote).to_owned(),
        last_price: quote.last_price,
        quantity,
    }
}

/// How a signal is shown.
pub fn describe_signal(symbol_key: &str, signal: &SignalInfo) -> (r: String)
    ensures
        r@ == signal_text(symbol_key@, signal@),
{
    let price: String = match signal.last_price {
        Some(price) => {
            let mut text: String = String::new();
            text.append("$");
            text.append(to_fixed(price, 2).as_str());
            assert(text@ =~= "$"@ + decimal_text(price, 2));
            text
        },
        None => "N/A".to_owned(),
    };
    let mut r: String = "Signal for ".to_owned();
    r.append(take_prefix(symbol_key, 10).as_str());
    r.append(": ");
    r.append(signal.action.as_str());
    r.append(" (last_price: ");
    r.append(price.as_str());
    r.append(", quantity: ");
    r.append(to_fixed(signal.quantity, 2).as_str());
    r.append(")");
    r
}

/// What the strategy does about one signal.
pub fn plan_signal(symbol_key: &str, signal: &SignalInfo) -> (r: SignalPlan)
    ensures
        r@ == plan_of(symbol_key@, signal@),
{
    let action: String = uppercase(signal.action.as_str());
    if (same(action.as_str(), "BUY") || same(action.as_str(), "SELL")) && signal.quantity.units > 0 {
        match signal.last_price {
            Some(price) => SignalPlan::Send {
                symbol_key: symbol_key.to_owned(),
                action,
                qty: signal.quantity,
                limit_price: price,
            },
            None => SignalPlan::SkipWithoutPrice { symbol_key: symbol_key.to_owned() },
        }
    } else {
        SignalPlan::Nothing
    }
}

impl TradingBot {
    /// What is known of the market in a symbol.
    pub(crate) fn quote(&self, symbol: &str) -> (r: RealTimeQuote)
        ensures
            r == quote_of(self@.prices, symbol@),
    {
        match self.real_time_prices.get(symbol) {
            Some(quote) => *quote,
            None => RealTimeQuote {
                last_price: None,
                total_volume: None,
                percent_change: None,
                avg_10_day_volume: None,
            },
        }
    }

    /// The signals for the configured symbols.
    pub fn generate_signals(&self) -> (r: Table<SignalInfo>)
        ensures
            r@ == signals_of(self@.symbols, self@.prices),
    {
        let n: usize = self.symbols_config.len();
        let mut r: Table<SignalInfo> = Table::new();
        let mut i: usize = 0;
        while i < n
            invariant
                i <= n,
                n == self.symbols_config@.len(),
                r@ == signals_of(self@.symbols.take(i as int), self@.prices),
            decreases n - i,
        {
            let symbol: &Symbol = &self.symbols_config[i];
            let ghost done = self@.symbols.take(i + 1);
            assert(done.last() == symbol@);
            assert(done.drop_last() =~= self@.symbols.take(i as int));
            let quote: RealTimeQuote = self.quote(symbol.symbol.as_str());
            let mut key: String = symbol.symbol.clone();
            key.append("@");
            key.append(symbol.account_hash.as_str());
            r.set(key, signal_for(symbol, &quote));
            i = i + 1;
        }
        assert(self@.symbols.take(n as int) =~= self@.symbols);
        r
    }
}

/// Every configured symbol has its signal under its key, unless a later entry has the same key.
pub proof fn law_every_symbol_has_its_signal(
    symbols: Seq<SymbolView>,
    prices: Seq<(Seq<char>, RealTimeQuote)>,
    i: int,
)
    requires
        0 <= i < symbols.len(),
        forall|j: int| i < j < symbols.len() ==> key_of(#[trigger] symbols[j]) != key_of(symbols[i]),
    ensures
        lookup(signals_of(symbols, prices), key_of(symbols[i])) == Some(
            signal_of(symbols[i], quote_of(prices, symbols[i].symbol)),
        ),
    decreases symbols.len(),
{
    let config = symbols.last();
    let rest = symbols.drop_last();
    law_put_then_lookup(
        signals_of(rest, prices),
        key_of(config),
        signal_of(config, quote_of(prices, config.symbol)),
        key_of(symbols[i]),
    );
    if i < symbols.len() - 1 {
        assert(rest[i] == symbols[i]);
        assert forall|j: int| i < j < rest.len() implies key_of(#[trigger] rest[j]) != key_of(
            rest[i],
        ) by {
            assert(rest[j] == symbols[j]);
        }
        law_every_symbol_has_its_signal(rest, prices, i);
    }
}

/// The shares of a signal are whole, and none are wanted where the symbol is held.
pub proof fn law_signal_shares_are_whole(config: SymbolView, quote: RealTimeQuote)
    ensures
        signal_of(config, quote).quantity.units as int % SCALE as int == 0,
        action_of(config, quote) == "HOLD"@ ==> signal_of(config, quote).quantity.units == 0,
{
    reveal_strlit("HOLD");
    reveal_strlit("SELL");
    reveal_strlit("BUY");
    assert("HOLD"@[0] != "SELL"@[0]);
    assert("HOLD"@[0] != "BUY"@[0]);
    if let Some(price) = quote.last_price {
        assert(forall|k: int| #[trigger] (k * 100_000_000) % 100_000_000 == 0);
    }
}

/// A signal to buy never wants shares for more than the symbol's entry amount, as long as the
/// price is positive.
pub proof fn law_buy_signal_fits_amount(config: SymbolView, quote: RealTimeQuote, price: Decimal)
    requires
        wants_to_buy(config, quote),
        quote.last_price == Some(price),
        price.units > 0,
        config.entry_amount.units > 0,
    ensures
        signal_of(config, quote).quantity.units * price.units <= config.entry_amount.units * SCALE,
{
    law_whole_shares_are_affordable(config.entry_amount, price);
    lemma_whole_shares_range(config.entry_amount, price);
}

/// A signal to sell never wants shares for more than the symbol's exit amount, as long as the
/// price is positive.
pub proof fn law_sell_signal_fits_amount(config: SymbolView, quote: RealTimeQuote, price: Decimal)
    requires
        wants_to_sell(config, quote),
        quote.last_price == Some(price),
        price.units > 0,
        config.exit_amount.units > 0,
    ensures
        signal_of(config, quote).quantity.units * price.units <= config.exit_amount.units * SCALE,
{
    law_whole_shares_are_affordable(config.exit_amount, price);
    lemma_whole_shares_range(config.exit_amount, price);
}

proof fn lemma_whole_shares_range(amount: Decimal, price: Decimal)
    ensures
        i64::MIN <= whole_shares(amount, price) <= i64::MAX,
{
}

/// The key under which a signal stands leads back to a configured symbol of the same name in the
/// same account, if the name holds no `@`.
pub proof fn law_signal_key_resolves(symbols: Seq<SymbolView>, i: int)
    requires
        0 <= i < symbols.len(),
        !symbols[i].symbol.contains('@'),
    ensures
        resolve(symbols, key_of(symbols[i])) matches Ok(config) && config.account_hash
            == symbols[i].account_hash && upper(config.symbol) == upper(symbols[i].symbol),
{
    let config = symbols[i];
    let key = key_of(config);
    reveal_strlit("@");
    lemma_position_after(config.symbol, "@"@ + config.account_hash, '@');
    assert(key =~= config.symbol + ("@"@ + config.account_hash));
    assert(position(key, '@') == config.symbol.len());
    assert(key.take(config.symbol.len() as int) =~= config.symbol);
    assert(key.skip(config.symbol.len() as int + 1) =~= config.account_hash);
    lemma_symbol_is_found(symbols, config.symbol, config.account_hash, i);
}

proof fn lemma_position_after(head: Seq<char>, tail: Seq<char>, c: char)
    requires
        !head.contains(c),
        tail.len() > 0,
        tail[0] == c,
    ensures
        position(head + tail, c) == head.len(),
    decreases head.len(),
{
    if head.len() == 0 {
        assert(head + tail =~= tail);
    } else {
        assert(head[0] != c);
        let rest = head.drop_first();
        assert(!rest.contains(c)) by {
            if rest.contains(c) {
                let j = choose|j: int| 0 <= j < rest.len() && rest[j] == c;
                assert(head[j + 1] == c);
            }
        }
        lemma_position_after(rest, tail, c);
        assert((head + tail).drop_first() =~= rest + tail);
    }
}

proof fn lemma_symbol_is_found(
    symbols: Seq<SymbolView>,
    symbol: Seq<char>,
    account: Seq<char>,
    i: int,
)
    requires
        0 <= i < symbols.len(),
        symbols[i].symbol == symbol,
        symbols[i].account_hash == account,
    ensures
        ({
            let k = find_symbol(symbols, symbol, account);
            0 <= k < symbols.len() && symbols[k].account_hash == account && upper(symbols[k].symbol)
                == upper(symbol)
        }),
    decreases symbols.len(),
{
    if !(symbols[0].account_hash == account && upper(symbols[0].symbol) == upper(symbol)) {
        let rest = symbols.drop_first();
        assert(rest[i - 1] == symbols[i]);
        lemma_symbol_is_found(rest, symbol, account, i - 1);
        let k = find_symbol(rest, symbol, account);
        assert(symbols[k + 1] == rest[k]);
    }
}

/// A symbol that rose to its exit threshold is sold: as many whole shares as its exit amount pays
/// for at the last price, and not one fewer.
pub proof fn law_rising_symbol_is_sold(
    symbols: Seq<SymbolView>,
    prices: Seq<(Seq<char>, RealTimeQuote)>,
    i: int,
    change: Decimal,
)
    requires
        0 <= i < symbols.len(),
        forall|j: int|
            i < j < symbols.len() ==> (#[trigger] symbols[j]).symbol + "@"@
                + symbols[j].account_hash != symbols[i].symbol + "@"@ + symbols[i].account_hash,
        lookup(prices, symbols[i].symbol) matches Some(quote) && quote.percent_change == Some(
            change,
        ),
        change.units >= symbols[i].exit_threshold.units,
    ensures
        lookup(
            signals_of(symbols, prices),
            symbols[i].symbol + "@"@ + symbols[i].account_hash,
        ) matches Some(signal) && {
            let last = lookup(prices, symbols[i].symbol)->0.last_price;
            let amount = symbols[i].exit_amount;
            &&& signal.action == "SELL"@
            &&& signal.last_price == last
            &&& last is None || amount.units <= 0 ==> signal.quantity.units == 0
            &&& last matches Some(price) ==> pays_for(amount, price, signal.quantity)
        },
{
    assert forall|j: int| i < j < symbols.len() implies key_of(#[trigger] symbols[j]) != key_of(
        symbols[i],
    ) by {}
    law_every_symbol_has_its_signal(symbols, prices, i);
    lemma_shares_paid_for(symbols[i].exit_amount, lookup(prices, symbols[i].symbol)->0.last_price);
}

/// A symbol that fell to its entry threshold, and did not rise to its exit threshold, is bought:
/// as many whole shares as its entry amount pays for at the last price, and not one fewer.
pub proof fn law_falling_symbol_is_bought(
    symbols: Seq<SymbolView>,
    prices: Seq<(Seq<char>, RealTimeQuote)>,
    i: int,
    change: Decimal,
)
    requires
        0 <= i < symbols.len(),
        forall|j: int|
            i < j < symbols.len() ==> (#[trigger] symbols[j]).symbol + "@"@
                + symbols[j].account_hash != symbols[i].symbol + "@"@ + symbols[i].account_hash,
        lookup(prices, symbols[i].symbol) matches Some(quote) && quote.percent_change == Some(
            change,
        ),
        change.units < symbols[i].exit_threshold.units,
        change.units <= symbols[i].entry_threshold.units,
    ensures
        lookup(
            signals_of(symbols, prices),
            symbols[i].symbol + "@"@ + symbols[i].account_hash,
        ) matches Some(signal) && {
            let last = lookup(prices, symbols[i].symbol)->0.last_price;
            let amount = symbols[i].entry_amount;
            &&& signal.action == "BUY"@
            &&& signal.last_price == last
            &&& last is None || amount.units <= 0 ==> signal.quantity.units == 0
            &&& last matches Some(price) ==> pays_for(amount, price, signal.quantity)
        },
{
    assert forall|j: int| i < j < symbols.len() implies key_of(#[trigger] symbols[j]) != key_of(
        symbols[i],
    ) by {}
    law_every_symbol_has_its_signal(symbols, prices, i);
    lemma_shares_paid_for(symbols[i].entry_amount, lookup(prices, symbols[i].symbol)->0.last_price);
}

/// A symbol between its thresholds, or of which no change is known, is held, with no shares wanted.
pub proof fn law_quiet_symbol_is_held(
    symbols: Seq<SymbolView>,
    prices: Seq<(Seq<char>, RealTimeQuote)>,
    i: int,
)
    requires
        0 <= i < symbols.len(),
        forall|j: int|
            i < j < symbols.len() ==> (#[trigger] symbols[j]).symbol + "@"@
                + symbols[j].account_hash != symbols[i].symbol + "@"@ + symbols[i].account_hash,
        lookup(prices, symbols[i].symbol) matches Some(quote) ==> (quote.percent_change matches Some(
            change,
        ) ==> symbols[i].entry_threshold.units < change.units < symbols[i].exit_threshold.units),
    ensures
        lookup(
            signals_of(symbols, prices),
            symbols[i].symbol + "@"@ + symbols[i].account_hash,
        ) matches Some(signal) && {
            &&& signal.action == "HOLD"@
            &&& signal.quantity.units == 0
            &&& lookup(prices, symbols[i].symbol) is None ==> signal.last_price is None
            &&& lookup(prices, symbols[i].symbol) matches Some(quote) ==> signal.last_price
                == quote.last_price
        },
{
    assert forall|j: int| i < j < symbols.len() implies key_of(#[trigger] symbols[j]) != key_of(
        symbols[i],
    ) by {}
    law_every_symbol_has_its_signal(symbols, prices, i);
}

/// Whether so many shares are what an amount pays for at a price: the most whole ones, as far as so
/// many can be held. An amount that is not positive pays for none, and at no price there is no
/// bound. At a negative price it is the next whole number below the quotient.
pub open spec fn pays_for(amount: Decimal, price: Decimal, shares: Decimal) -> bool {
    &&& shares.units as int % 100_000_000 == 0
    &&& amount.units <= 0 ==> shares.units == 0
    &&& amount.units > 0 && price.units == 0 ==> shares.units == 92_233_720_368 * 100_000_000
    &&& amount.units > 0 && price.units > 0 ==> {
        &&& shares.units >= 0
        &&& shares.units * price.units <= amount.units * 100_000_000
        &&& shares.units < 92_233_720_368 * 100_000_000 ==> (shares.units + 100_000_000)
            * price.units > amount.units * 100_000_000
    }
    &&& amount.units > 0 && price.units < 0 ==> {
        &&& shares.units < 0
        &&& shares.units > -92_233_720_368 * 100_000_000 ==> shares.units * price.units
            >= amount.units * 100_000_000 && (shares.units + 100_000_000) * price.units
            < amount.units * 100_000_000
    }
}

proof fn lemma_shares_paid_for(amount: Decimal, last: Option<Decimal>)
    ensures
        last matches Some(price) ==> pays_for(
            amount,
            price,
            Decimal { units: whole_shares(amount, price) as i64 },
        ),
        last matches Some(price) ==> (amount.units <= 0 ==> whole_shares(amount, price) == 0),
{
    if let Some(price) = last {
        lemma_whole_shares_range(amount, price);
        law_whole_shares_at_the_edges(amount, price);
        if amount.units > 0 && price.units > 0 {
            law_whole_shares_are_the_most(amount, price);
        }
    }
}

/// There is a signal under a key only where a configured symbol has that key.
pub proof fn law_signals_are_for_symbols(
    symbols: Seq<SymbolView>,
    prices: Seq<(Seq<char>, RealTimeQuote)>,
    key: Seq<char>,
)
    requires
        forall|i: int|
            0 <= i < symbols.len() ==> (#[trigger] symbols[i]).symbol + "@"@
                + symbols[i].account_hash != key,
    ensures
        lookup(signals_of(symbols, prices), key) is None,
    decreases symbols.len(),
{
    if symbols.len() > 0 {
        let rest = symbols.drop_last();
        let config = symbols.last();
        assert(config == symbols[symbols.len() - 1]);
        assert forall|i: int| 0 <= i < rest.len() implies (#[trigger] rest[i]).symbol + "@"@
            + rest[i].account_hash != key by {
            assert(rest[i] == symbols[i]);
        }
        law_signals_are_for_symbols(rest, prices, key);
        law_put_then_lookup(
            signals_of(rest, prices),
            key_of(config),
            signal_of(config, quote_of(prices, config.symbol)),
            key,
        );
    }
}

/// A signal leads to an order just where it says to buy or sell some shares at a known price, and
/// the order is for those shares at that price. Without a price the order is skipped.
pub proof fn law_orders_are_planned_from_signals(key: Seq<char>, signal: SignalView)
    requires
        signal.action == "BUY"@ || signal.action == "SELL"@ || signal.action == "HOLD"@,
    ensures
        signal.action == "HOLD"@ || signal.quantity.units <= 0 ==> plan_of(key, signal) is Nothing,
        signal.action != "HOLD"@ && signal.quantity.units > 0 ==> match signal.last_price {
            Some(price) => plan_of(key, signal) == (SignalPlanView::Send {
                symbol_key: key,
                action: signal.action,
                qty: signal.quantity,
                limit_price: price,
            }),
            None => plan_of(key, signal) == (SignalPlanView::SkipWithoutPrice { symbol_key: key }),
        },
{
    reveal_strlit("BUY");
    reveal_strlit("SELL");
    reveal_strlit("HOLD");
    assert("HOLD"@[0] != "SELL"@[0]);
    assert("HOLD"@[0] != "BUY"@[0]);
    assert(upper("BUY"@) =~= "BUY"@);
    assert(upper("SELL"@) =~= "SELL"@);
    assert(upper("HOLD"@) =~= "HOLD"@);
}

/// A signal in any case of letters is planned by what it says: a buy or a sell of shares goes out
/// at the last price, or is passed over where that is unknown; nothing comes of any other.
pub proof fn law_every_signal_has_a_plan(key: Seq<char>, signal: SignalView)
    ensures
        ({
            let trades = (upper(signal.action) == "BUY"@ || upper(signal.action) == "SELL"@)
                && signal.quantity.units > 0;
            &&& !trades ==> plan_of(key, signal) is Nothing
            &&& trades && signal.last_price is None ==> plan_of(key, signal) == (
            SignalPlanView::SkipWithoutPrice { symbol_key: key })
            &&& trades && signal.last_price is Some ==> plan_of(key, signal) == (
            SignalPlanView::Send {
                symbol_key: key,
                action: upper(signal.action),
                qty: signal.quantity,
                limit_price: signal.last_price->0,
            })
        }),
{
}

} // verus!
