//! Taking in quotes.
use crate::bot::{BotView, TradingBot};
use crate::decimal::{clamp, Decimal};
use crate::models::{blank_quote, RealTimeQuote, SymbolView};
use crate::signals::quote_of;
use crate::table::{law_put_then_lookup, lookup, put};
use crate::text::{same, texts};
use vstd::prelude::*;

verus! {

/// What came back of the request for a quote.
#[allow(inconsistent_fields)]
#[derive(Clone, Copy, Debug)]
pub enum QuoteReply {
    Equity {
        /// The last price and the change in the regular session.
        regular: Option<(Decimal, Option<Decimal>)>,
        last_price: Decimal,
        net_percent_change: Option<Decimal>,
        total_volume: u64,
        /// Rounded to the nearest integer.
        avg_10_days_volume: Option<i64>,
    },
    Option { last_price: Decimal, net_percent_change: Decimal, total_volume: u64 },
    /// A quote of another kind, of which nothing is taken.
    Other,
    Failed,
}

/// A count, held within the range of `i64`.
pub open spec fn held_count(n: u64) -> i64 {
    clamp(n as int) as i64
}

/// What a reply tells of the market. For an equity the regular session goes first.
pub open spec fn reply_quote(reply: QuoteReply) -> RealTimeQuote {
    match reply {
        QuoteReply::Equity {
            regular,
            last_price,
            net_percent_change,
            total_volume,
            avg_10_days_volume,
        } => RealTimeQuote {
            last_price: match regular {
                Some((price, _)) => Some(price),
                None => Some(last_price),
            },
            percent_change: match regular {
                Some((_, Some(change))) => Some(change),
                _ => net_percent_change,
            },
            total_volume: Some(held_count(total_volume)),
            avg_10_day_volume: avg_10_days_volume,
        },
        QuoteReply::Option { last_price, net_percent_change, total_volume } => RealTimeQuote {
            last_price: Some(last_price),
            percent_change: Some(net_percent_change),
            total_volume: Some(held_count(total_volume)),
            avg_10_day_volume: None,
        },
        QuoteReply::Other => blank_quote(),
        QuoteReply::Failed => blank_quote(),
    }
}

/// Whether a reply tells anything of the market.
pub open spec fn tells_anything(reply: QuoteReply) -> bool {
    reply is Equity || reply is Option
}

/// What is known after more was told: the new figures, and the old ones where there is none new.
pub open spec fn merged_quote(known: RealTimeQuote, told: RealTimeQuote) -> RealTimeQuote {
    RealTimeQuote {
        last_price: if told.last_price is Some {
            told.last_price
        } else {
            known.last_price
        },
        total_volume: if told.total_volume is Some {
            told.total_volume
        } else {
            known.total_volume
        },
        percent_change: if told.percent_change is Some {
            told.percent_change
        } else {
            known.percent_change
        },
        avg_10_day_volume: if told.avg_10_day_volume is Some {
            told.avg_10_day_volume
        } else {
            known.avg_10_day_volume
        },
    }
}

/// The names of the symbols, each where it first stands.
pub open spec fn distinct_names(symbols: Seq<SymbolView>) -> Seq<Seq<char>>
    decreases symbols.len(),
{
    if symbols.len() == 0 {
        Seq::empty()
    } else {
        let rest = distinct_names(symbols.drop_last());
        if rest.contains(symbols.last().symbol) {
            rest
        } else {
            rest.push(symbols.last().symbol)
        }
    }
}

/// The quotes after the replies on the symbols of these names.
pub open spec fn with_replies(
    prices: Seq<(Seq<char>, RealTimeQuote)>,
    names: Seq<Seq<char>>,
    replies: Seq<QuoteReply>,
) -> Seq<(Seq<char>, RealTimeQuote)>
    decreases replies.len(),
{
    if replies.len() == 0 {
        prices
    } else {
        let rest = with_replies(prices, names, replies.drop_last());
        let name = names[replies.len() - 1];
        if tells_anything(replies.last()) {
            put(rest, name, merged_quote(quote_of(rest, name), reply_quote(replies.last())))
        } else {
            rest
        }
    }
}

/// The bot with what the replies on the symbols to quote tell of the market.
pub open spec fn with_quotes(bot: BotView, replies: Seq<QuoteReply>) -> BotView {
    BotView {
        prices: if bot.has_api {
            with_replies(bot.prices, distinct_names(bot.symbols), replies)
        } else {
            bot.prices
        },
        ..bot
    }
}

fn count(n: u64) -> (r: i64)
    ensures
        r == held_count(n),
{
    if n > i64::MAX as u64 {
        i64::MAX
    } else {
        n as i64
    }
}

/// What a reply tells of the market, if anything.
pub fn read_quote(reply: &QuoteReply) -> (r: Option<RealTimeQuote>)
    ensures
        r == (if tells_anything(*reply) {
            Some(reply_quote(*reply))
        } else {
            None
        }),
{
    match reply {
        QuoteReply::Equity {
            regular,
            last_price,
            net_percent_change,
            total_volume,
            avg_10_days_volume,
        } => {
            let mut price: Decimal = *last_price;
            let mut change: Option<Decimal> = *net_percent_change;
            if let Some((regular_price, regular_change)) = regular {
                price = *regular_price;
                if let Some(c) = regular_change {
                    change = Some(*c);
                }
            }
            Some(
                RealTimeQuote {
                    last_price: Some(price),
                    total_volume: Some(count(*total_volume)),
                    percent_change: change,
                    avg_10_day_volume: *avg_10_days_volume,
                },
            )
        },
        QuoteReply::Option { last_price, net_percent_change, total_volume } => Some(
            RealTimeQuote {
                last_price: Some(*last_price),
                total_volume: Some(count(*total_volume)),
                percent_change: Some(*net_percent_change),
                avg_10_day_volume: None,
            },
        ),
        QuoteReply::Other => None,
        QuoteReply::Failed => None,
    }
}

fn merge_quote(known: &RealTimeQuote, told: &RealTimeQuote) -> (r: RealTimeQuote)
    ensures
        r == merged_quote(*known, *told),
{
    let mut r: RealTimeQuote = *known;
    if told.last_price.is_some() {
        r.last_price = told.last_price;
    }
    if told.total_volume.is_some() {
        r.total_volume = told.total_volume;
    }
    if told.percent_change.is_some() {
        r.percent_change = told.percent_change;
    }
    if told.avg_10_day_volume.is_some() {
        r.avg_10_day_volume = told.avg_10_day_volume;
    }
    r
}

pub(crate) fn contains_text(list: &Vec<String>, item: &str) -> (r: bool)
    ensures
        r == texts(list@).contains(item@),
{
    let ghost views = texts(list@);
    let n: usize = list.len();
    let mut i: usize = 0;
    while i < n
        invariant
            i <= n,
            n == list@.len(),
            views == texts(list@),
            forall|j: int| 0 <= j < i ==> #[trigger] views[j] != item@,
        decreases n - i,
    {
        if same(list[i].as_str(), item) {
            assert(views[i as int] == item@);
            return true;
        }
        i = i + 1;
    }
    false
}

impl TradingBot {
    /// The names of the configured symbols, each once: those that a quote is asked for.
    pub fn symbols_to_quote(&self) -> (r: Vec<String>)
        ensures
            texts(r@) == distinct_names(self@.symbols),
    {
        let n: usize = self.symbols_config.len();
        let mut r: Vec<String> = Vec::new();
        let mut i: usize = 0;
        assert(texts(r@) =~= Seq::empty());
        while i < n
            invariant
                i <= n,
                n == self.symbols_config@.len(),
                texts(r@) == distinct_names(self@.symbols.take(i as int)),
            decreases n - i,
        {
            let ghost done = self@.symbols.take(i + 1);
            assert(done.drop_last() =~= self@.symbols.take(i as int));
            assert(done.last() == self.symbols_config@[i as int]@);
            let name: &String = &self.symbols_config[i].symbol;
            if !contains_text(&r, name.as_str()) {
                let ghost before = texts(r@);
                r.push(name.clone());
                assert(texts(r@) =~= before.push(name@));
            }
            i = i + 1;
        }
        assert(self@.symbols.take(n as int) =~= self@.symbols);
        r
    }

    /// Takes in the replies to the requests for quotes on the symbols to quote.
    pub fn update_prices(&mut self, replies: &Vec<QuoteReply>)
        requires
            old(self)@.has_api ==> replies@.len() == distinct_names(old(self)@.symbols).len(),
        ensures
            final(self)@ == with_quotes(old(self)@, replies@),
    {
        if !self.has_api {
            return ;
        }
        let names: Vec<String> = self.symbols_to_quote();
        let ghost views = texts(names@);
        let n: usize = names.len();
        let mut i: usize = 0;
        while i < n
            invariant
                i <= n,
                n == names@.len(),
                n == replies@.len(),
                views == texts(names@),
                self@ == (BotView {
                    prices: with_replies(old(self)@.prices, views, replies@.take(i as int)),
                    ..old(self)@
                }),
            decreases n - i,
        {
            let ghost done = replies@.take(i + 1);
            assert(done.drop_last() =~= replies@.take(i as int));
            if let Some(told) = read_quote(&replies[i]) {
                let known: RealTimeQuote = self.quote(names[i].as_str());
                self.real_time_prices.set(names[i].clone(), merge_quote(&known, &told));
            }
            i = i + 1;
        }
        assert(replies@.take(n as int) =~= replies@);
    }
}

/// A figure that was told stands, and one that was not told stays as it was.
pub proof fn law_told_figures_stand(known: RealTimeQuote, told: RealTimeQuote)
    ensures
        told.last_price is Some ==> merged_quote(known, told).last_price == told.last_price,
        told.last_price is None ==> merged_quote(known, told).last_price == known.last_price,
        told.percent_change is Some ==> merged_quote(known, told).percent_change
            == told.percent_change,
        told.percent_change is None ==> merged_quote(known, told).percent_change
            == known.percent_change,
        told.total_volume is Some ==> merged_quote(known, told).total_volume == told.total_volume,
        told.total_volume is None ==> merged_quote(known, told).total_volume == known.total_volume,
        told.avg_10_day_volume is Some ==> merged_quote(known, told).avg_10_day_volume
            == told.avg_10_day_volume,
        told.avg_10_day_volume is None ==> merged_quote(known, told).avg_10_day_volume
            == known.avg_10_day_volume,
        merged_quote(merged_quote(known, told), told) == merged_quote(known, told),
{
}

/// A quote is asked for once for every symbol, and for nothing else.
pub proof fn law_names_are_those_of_symbols(symbols: Seq<SymbolView>)
    ensures
        forall|i: int| 0 <= i < symbols.len() ==> distinct_names(symbols).contains(
            (#[trigger] symbols[i]).symbol,
        ),
        forall|k: int|
            0 <= k < distinct_names(symbols).len() ==> exists|i: int|
                0 <= i < symbols.len() && (#[trigger] symbols[i]).symbol
                    == #[trigger] distinct_names(symbols)[k],
        distinct_names(symbols).no_duplicates(),
    decreases symbols.len(),
{
    if symbols.len() > 0 {
        let before = symbols.drop_last();
        let rest = distinct_names(before);
        let names = distinct_names(symbols);
        law_names_are_those_of_symbols(before);
        assert forall|i: int| 0 <= i < symbols.len() implies names.contains(
            (#[trigger] symbols[i]).symbol,
        ) by {
            if i < before.len() {
                assert(before[i] == symbols[i]);
                let k = choose|k: int| 0 <= k < rest.len() && rest[k] == symbols[i].symbol;
                assert(names[k] == symbols[i].symbol);
            } else if !rest.contains(symbols.last().symbol) {
                assert(names[rest.len() as int] == symbols[i].symbol);
            }
        }
        assert forall|k: int| 0 <= k < names.len() implies exists|i: int|
            0 <= i < symbols.len() && (#[trigger] symbols[i]).symbol == #[trigger] names[k] by {
            if k < rest.len() {
                assert(rest[k] == names[k]);
                let i = choose|i: int|
                    0 <= i < before.len() && (#[trigger] before[i]).symbol == rest[k];
                assert(symbols[i].symbol == names[k]);
            } else {
                assert(symbols[symbols.len() - 1].symbol == names[k]);
            }
        }
        assert(names.no_duplicates()) by {
            assert forall|i: int, j: int|
                0 <= i < names.len() && 0 <= j < names.len() && i != j implies names[i]
                != names[j] by {
                if i < rest.len() && j < rest.len() {
                    assert(rest[i] != rest[j]);
                } else if i < rest.len() {
                    assert(rest.contains(rest[i]));
                } else {
                    assert(rest.contains(rest[j]));
                }
            }
        }
    }
}

/// What is taken of a quote: the price and the change of the regular session where it has them, or
/// else those of the whole day, the volume of the day as far as it can be counted, and the average
/// volume of an equity where it is told.
pub proof fn law_quotes_are_read(
    price: Decimal,
    change: Option<Decimal>,
    regular_price: Decimal,
    regular_change: Option<Decimal>,
    volume: u64,
    average: Option<i64>,
    option_change: Decimal,
)
    ensures
        ({
            let q = reply_quote(
                QuoteReply::Equity {
                    regular: None,
                    last_price: price,
                    net_percent_change: change,
                    total_volume: volume,
                    avg_10_days_volume: average,
                },
            );
            &&& q.last_price == Some(price)
            &&& q.percent_change == change
            &&& q.avg_10_day_volume == average
            &&& is_count_of(q.total_volume, volume)
        }),
        ({
            let q = reply_quote(
                QuoteReply::Equity {
                    regular: Some((regular_price, regular_change)),
                    last_price: price,
                    net_percent_change: change,
                    total_volume: volume,
                    avg_10_days_volume: average,
                },
            );
            &&& q.last_price == Some(regular_price)
            &&& regular_change is Some ==> q.percent_change == regular_change
            &&& regular_change is None ==> q.percent_change == change
            &&& q.avg_10_day_volume == average
            &&& is_count_of(q.total_volume, volume)
        }),
        ({
            let q = reply_quote(
                QuoteReply::Option {
                    last_price: price,
                    net_percent_change: option_change,
                    total_volume: volume,
                },
            );
            &&& q.last_price == Some(price)
            &&& q.percent_change == Some(option_change)
            &&& q.avg_10_day_volume is None
            &&& is_count_of(q.total_volume, volume)
        }),
{
}

/// Whether a count is the volume, or the most that can be counted.
pub open spec fn is_count_of(count: Option<i64>, volume: u64) -> bool {
    count matches Some(c) && (c == volume || (volume > 0x7fff_ffff_ffff_ffff && c
        == 0x7fff_ffff_ffff_ffff))
}

proof fn lemma_quote_of_name(
    prices: Seq<(Seq<char>, RealTimeQuote)>,
    names: Seq<Seq<char>>,
    replies: Seq<QuoteReply>,
    name: Seq<char>,
    k: int,
)
    requires
        replies.len() <= names.len(),
        names.no_duplicates(),
        -1 <= k < names.len(),
        k >= 0 ==> names[k] == name,
        k < 0 ==> !names.contains(name),
    ensures
        0 <= k < replies.len() && tells_anything(replies[k]) ==> lookup(
            with_replies(prices, names, replies),
            name,
        ) == Some(merged_quote(quote_of(prices, name), reply_quote(replies[k]))),
        !(0 <= k < replies.len() && tells_anything(replies[k])) ==> lookup(
            with_replies(prices, names, replies),
            name,
        ) == lookup(prices, name),
    decreases replies.len(),
{
    if replies.len() > 0 {
        let rest = replies.drop_last();
        let n = replies.len() - 1;
        let before = with_replies(prices, names, rest);
        lemma_quote_of_name(prices, names, rest, name, k);
        if 0 <= k < n {
            assert(rest[k] == replies[k]);
        }
        assert(names.contains(names[n]));
        law_put_then_lookup(
            before,
            names[n],
            merged_quote(quote_of(before, names[n]), reply_quote(replies.last())),
            name,
        );
        if k >= 0 && k != n {
            assert(names[k] != names[n]);
        }
    }
}

/// After the replies are taken in, a symbol that was quoted has each figure that was told, and of
/// the others those that were known; a symbol that was not quoted is as it was, and so is all else
/// in the state. Without a Schwab client nothing changes.
pub proof fn law_quoted_figures_are_kept(
    bot: BotView,
    replies: Seq<QuoteReply>,
    name: Seq<char>,
    k: int,
)
    requires
        replies.len() == distinct_names(bot.symbols).len(),
        -1 <= k < replies.len(),
        k >= 0 ==> distinct_names(bot.symbols)[k] == name,
        k < 0 ==> forall|i: int|
            0 <= i < bot.symbols.len() ==> (#[trigger] bot.symbols[i]).symbol != name,
    ensures
        ({
            let after = with_quotes(bot, replies);
            let told = reply_quote(replies[k]);
            let known = lookup(bot.prices, name);
            &&& !bot.has_api || k < 0 || replies[k] is Other || replies[k] is Failed ==> lookup(
                after.prices,
                name,
            ) == known
            &&& bot.has_api && k >= 0 && (replies[k] is Equity || replies[k] is Option) ==> (lookup(
                after.prices,
                name,
            ) matches Some(quote) && {
                &&& told.last_price is Some ==> quote.last_price == told.last_price
                &&& told.percent_change is Some ==> quote.percent_change == told.percent_change
                &&& told.total_volume is Some ==> quote.total_volume == told.total_volume
                &&& told.avg_10_day_volume is Some ==> quote.avg_10_day_volume
                    == told.avg_10_day_volume
                &&& told.percent_change is None ==> quote.percent_change == (if known is Some {
                    known->0.percent_change
                } else {
                    None
                })
                &&& told.avg_10_day_volume is None ==> quote.avg_10_day_volume == (
                if known is Some {
                    known->0.avg_10_day_volume
                } else {
                    None
                })
            })
            &&& !bot.has_api ==> after == bot
            &&& after.has_api == bot.has_api
            &&& after.has_ib_client == bot.has_ib_client
            &&& after.account_hashes == bot.account_hashes
            &&& after.symbols == bot.symbols
            &&& after.positions == bot.positions
            &&& after.balances == bot.balances
            &&& after.history == bot.history
        }),
{
    let names = distinct_names(bot.symbols);
    law_names_are_those_of_symbols(bot.symbols);
    if k < 0 && names.contains(name) {
        let j = choose|j: int| 0 <= j < names.len() && names[j] == name;
        let i = choose|i: int|
            0 <= i < bot.symbols.len() && (#[trigger] bot.symbols[i]).symbol == names[j];
        assert(bot.symbols[i].symbol == name);
    }
    lemma_quote_of_name(bot.prices, names, replies, name, k);
}

/// Only quotes of equities and options tell anything.
pub proof fn law_other_quotes_tell_nothing(reply: QuoteReply)
    ensures
        tells_anything(reply) <==> reply is Equity || reply is Option,
{
}

/// Names are asked for in the order in which symbols are configured: a symbol more adds its name at
/// the end, unless it is there already.
pub proof fn law_names_keep_their_order(symbols: Seq<SymbolView>, more: SymbolView)
    ensures
        (exists|i: int| 0 <= i < symbols.len() && (#[trigger] symbols[i]).symbol == more.symbol)
            ==> distinct_names(symbols.push(more)) == distinct_names(symbols),
        (forall|i: int| 0 <= i < symbols.len() ==> (#[trigger] symbols[i]).symbol != more.symbol)
            ==> distinct_names(symbols.push(more)) == distinct_names(symbols).push(more.symbol),
{
    assert(symbols.push(more).drop_last() =~= symbols);
    law_names_are_those_of_symbols(symbols);
    let names = distinct_names(symbols);
    if names.contains(more.symbol) {
        let k = choose|k: int| 0 <= k < names.len() && names[k] == more.symbol;
        let i = choose|i: int| 0 <= i < symbols.len() && (#[trigger] symbols[i]).symbol == names[k];
        assert(symbols[i].symbol == more.symbol);
    }
}

} // verus!
