//! The short status of the bot.
use crate::bot::{BotView, TradingBot};
use crate::decimal::Decimal;
use crate::format::{decimal_text, fixed, to_fixed};
use crate::models::{RealTimeQuote, Symbol, SymbolView};
use crate::quotes::{contains_text, distinct_names, law_names_are_those_of_symbols};
use crate::report::{dollars_or_dash, percent_or_dash, show_dollars, show_percent};
use crate::schwab::or_zero;
use crate::signals::quote_of;
use crate::table::{lookup, Table};
use crate::text::{account_label, can_label, label, texts};
use vstd::prelude::*;

verus! {

/// One line for each known portfolio value.
pub open spec fn balance_status(balances: Seq<(Seq<char>, Decimal)>) -> Seq<char>
    decreases balances.len(),
{
    if balances.len() == 0 {
        Seq::empty()
    } else {
        balance_status(balances.drop_last()) + "  "@ + label(balances.last().0) + ": $"@
            + decimal_text(balances.last().1, 2) + "\n"@
    }
}

/// One line for each symbol held, with its last price, or zero where none is known.
pub open spec fn holding_status(
    held: Seq<(Seq<char>, Decimal)>,
    prices: Seq<(Seq<char>, RealTimeQuote)>,
) -> Seq<char>
    decreases held.len(),
{
    if held.len() == 0 {
        Seq::empty()
    } else {
        let symbol = held.last().0;
        holding_status(held.drop_last(), prices) + "    "@ + symbol + ": "@ + decimal_text(
            held.last().1,
            4,
        ) + " units @ $"@ + decimal_text(or_zero(quote_of(prices, symbol).last_price), 2) + "\n"@
    }
}

/// What is held in each account.
pub open spec fn position_status(
    positions: Seq<(Seq<char>, Seq<(Seq<char>, Decimal)>)>,
    prices: Seq<(Seq<char>, RealTimeQuote)>,
) -> Seq<char>
    decreases positions.len(),
{
    if positions.len() == 0 {
        Seq::empty()
    } else {
        position_status(positions.drop_last(), prices) + "  Account "@ + label(positions.last().0)
            + ":\n"@ + (if positions.last().1.len() == 0 {
            "    (no open positions)\n"@
        } else {
            holding_status(positions.last().1, prices)
        })
    }
}

/// One line for each configured symbol, where it first stands.
pub open spec fn symbol_status(
    symbols: Seq<SymbolView>,
    prices: Seq<(Seq<char>, RealTimeQuote)>,
) -> Seq<char>
    decreases symbols.len(),
{
    if symbols.len() == 0 {
        Seq::empty()
    } else {
        let symbol = symbols.last().symbol;
        let rest = symbol_status(symbols.drop_last(), prices);
        if distinct_names(symbols.drop_last()).contains(symbol) {
            rest
        } else {
            rest + "  "@ + symbol + ": "@ + dollars_or_dash(quote_of(prices, symbol).last_price)
                + " ("@ + percent_or_dash(quote_of(prices, symbol).percent_change) + ")\n"@
        }
    }
}

/// The status of a bot.
pub open spec fn status_text(bot: BotView) -> Seq<char> {
    "Schwab Trading Bot Status:\n\n"@ + (if bot.balances.len() == 0 {
        "Account Balances:\n  (not available)\n\n"@
    } else {
        "Account Balances:\n"@ + balance_status(bot.balances) + "\n"@
    }) + "Positions:\n"@ + (if bot.positions.len() == 0 {
        "  (no cached positions)\n"@
    } else {
        position_status(bot.positions, bot.prices)
    }) + "\nTracked Symbols:\n"@ + symbol_status(bot.symbols, bot.prices)
}

impl TradingBot {
    fn show_balance_status(&self) -> (r: String)
        requires
            forall|i: int|
                0 <= i < self@.balances.len() ==> can_label(#[trigger] self@.balances[i].0),
        ensures
            r@ == balance_status(self@.balances),
    {
        let ghost all = self@.balances;
        let n: usize = self.account_balances.len();
        let mut r: String = String::new();
        let mut i: usize = 0;
        assert(r@ =~= Seq::empty());
        while i < n
            invariant
                i <= n,
                n == all.len(),
                all == self.account_balances@,
                forall|j: int| 0 <= j < all.len() ==> can_label(#[trigger] all[j].0),
                r@ == balance_status(all.take(i as int)),
            decreases n - i,
        {
            let ghost done = all.take(i + 1);
            assert(done.drop_last() =~= all.take(i as int));
            assert(done.last() == all[i as int]);
            r.append("  ");
            r.append(account_label(self.account_balances.key_at(i).as_str()).as_str());
            r.append(": $");
            r.append(to_fixed(*self.account_balances.value_at(i), 2).as_str());
            r.append("\n");
            i = i + 1;
        }
        assert(all.take(n as int) =~= all);
        r
    }

    fn show_holding_status(&self, held: &Table<Decimal>) -> (r: String)
        ensures
            r@ == holding_status(held@, self@.prices),
    {
        let ghost all = held@;
        let n: usize = held.len();
        let mut r: String = String::new();
        let mut i: usize = 0;
        assert(r@ =~= Seq::empty());
        while i < n
            invariant
                i <= n,
                n == all.len(),
                all == held@,
                r@ == holding_status(all.take(i as int), self@.prices),
            decreases n - i,
        {
            let ghost done = all.take(i + 1);
            assert(done.drop_last() =~= all.take(i as int));
            assert(done.last() == all[i as int]);
            let symbol: &String = held.key_at(i);
            let price: Decimal = match self.quote(symbol.as_str()).last_price {
                Some(p) => p,
                None => Decimal::zero(),
            };
            r.append("    ");
            r.append(symbol.as_str());
            r.append(": ");
            r.append(to_fixed(*held.value_at(i), 4).as_str());
            r.append(" units @ $");
            r.append(to_fixed(price, 2).as_str());
            r.append("\n");
            i = i + 1;
        }
        assert(all.take(n as int) =~= all);
        r
    }

    fn show_position_status(&self) -> (r: String)
        requires
            forall|i: int|
                0 <= i < self@.positions.len() ==> can_label(#[trigger] self@.positions[i].0),
        ensures
            r@ == position_status(self@.positions, self@.prices),
    {
        let ghost all = self@.positions;
        let n: usize = self.positions.len();
        let mut r: String = String::new();
        let mut i: usize = 0;
        assert(r@ =~= Seq::empty());
        while i < n
            invariant
                i <= n,
                n == all.len(),
                all == self.positions@,
                forall|j: int| 0 <= j < all.len() ==> can_label(#[trigger] all[j].0),
                r@ == position_status(all.take(i as int), self@.prices),
            decreases n - i,
        {
            let ghost done = all.take(i + 1);
            assert(done.drop_last() =~= all.take(i as int));
            assert(done.last() == all[i as int]);
            let held: &Table<Decimal> = self.positions.value_at(i);
            let lines: String = if held.len() == 0 {
                "    (no open positions)\n".to_owned()
            } else {
                self.show_holding_status(held)
            };
            r.append("  Account ");
            r.append(account_label(self.positions.key_at(i).as_str()).as_str());
            r.append(":\n");
            r.append(lines.as_str());
            i = i + 1;
        }
        assert(all.take(n as int) =~= all);
        r
    }

    fn show_symbol_status(&self) -> (r: String)
        ensures
            r@ == symbol_status(self@.symbols, self@.prices),
    {
        let ghost symbols = self@.symbols;
        let n: usize = self.symbols_config.len();
        let mut r: String = String::new();
        let mut seen: Vec<String> = Vec::new();
        let mut i: usize = 0;
        assert(r@ =~= Seq::empty());
        assert(texts(seen@) =~= Seq::empty());
        while i < n
            invariant
                i <= n,
                n == self.symbols_config@.len(),
                symbols == self@.symbols,
                texts(seen@) == distinct_names(symbols.take(i as int)),
                r@ == symbol_status(symbols.take(i as int), self@.prices),
            decreases n - i,
        {
            let symbol: &Symbol = &self.symbols_config[i];
            let ghost done = symbols.take(i + 1);
            assert(done.drop_last() =~= symbols.take(i as int));
            assert(done.last() == symbol@);
            if !contains_text(&seen, symbol.symbol.as_str()) {
                let ghost before = texts(seen@);
                seen.push(symbol.symbol.clone());
                assert(texts(seen@) =~= before.push(symbol.symbol@));
                let quote: RealTimeQuote = self.quote(symbol.symbol.as_str());
                r.append("  ");
                r.append(symbol.symbol.as_str());
                r.append(": ");
                r.append(show_dollars(quote.last_price).as_str());
                r.append(" (");
                r.append(show_percent(quote.percent_change).as_str());
                r.append(")\n");
            }
            i = i + 1;
        }
        assert(symbols.take(n as int) =~= symbols);
        r
    }

    /// The status of the bot, from what it knows already.
    pub fn get_status(&self) -> (r: String)
        requires
            forall|i: int|
                0 <= i < self@.balances.len() ==> can_label(#[trigger] self@.balances[i].0),
            forall|i: int|
                0 <= i < self@.positions.len() ==> can_label(#[trigger] self@.positions[i].0),
        ensures
            r@ == status_text(self@),
    {
        let balances: String = if self.account_balances.len() == 0 {
            "Account Balances:\n  (not available)\n\n".to_owned()
        } else {
            let mut text: String = "Account Balances:\n".to_owned();
            text.append(self.show_balance_status().as_str());
            text.append("\n");
            text
        };
        let positions: String = if self.positions.len() == 0 {
            "  (no cached positions)\n".to_owned()
        } else {
            self.show_position_status()
        };
        let mut r: String = "Schwab Trading Bot Status:\n\n".to_owned();
        r.append(balances.as_str());
        r.append("Positions:\n");
        r.append(positions.as_str());
        r.append("\nTracked Symbols:\n");
        r.append(self.show_symbol_status().as_str());
        r
    }
}

/// The status has a line for each portfolio value, in their order, under the label of its account.
pub proof fn law_status_shows_balances(
    balances: Seq<(Seq<char>, Decimal)>,
    account: Seq<char>,
    value: Decimal,
)
    ensures
        balance_status(Seq::empty()) == Seq::<char>::empty(),
        balance_status(balances.push((account, value))) == balance_status(balances) + "  "@ + label(
            account,
        ) + ": $"@ + fixed(value.units as int, 8, 2) + "\n"@,
{
    assert(balances.push((account, value)).drop_last() =~= balances);
}

/// The status has a line for each symbol that an account holds, with its shares and its last price,
/// or zero where none is known; an account that holds none is said to hold none.
pub proof fn law_status_shows_holdings(
    positions: Seq<(Seq<char>, Seq<(Seq<char>, Decimal)>)>,
    account: Seq<char>,
    held: Seq<(Seq<char>, Decimal)>,
    symbol: Seq<char>,
    quantity: Decimal,
    prices: Seq<(Seq<char>, RealTimeQuote)>,
)
    ensures
        position_status(Seq::empty(), prices) == Seq::<char>::empty(),
        holding_status(Seq::empty(), prices) == Seq::<char>::empty(),
        held.len() == 0 ==> position_status(positions.push((account, held)), prices)
            == position_status(positions, prices) + "  Account "@ + label(account) + ":\n"@
            + "    (no open positions)\n"@,
        held.len() > 0 ==> position_status(positions.push((account, held)), prices)
            == position_status(positions, prices) + "  Account "@ + label(account) + ":\n"@
            + holding_status(held, prices),
        holding_status(held.push((symbol, quantity)), prices) == holding_status(held, prices)
            + "    "@ + symbol + ": "@ + fixed(quantity.units as int, 8, 4)
            + " units @ $"@ + fixed(
            match lookup(prices, symbol) {
                Some(quote) => match quote.last_price {
                    Some(price) => price.units as int,
                    None => 0,
                },
                None => 0,
            },
            8,
            2,
        ) + "\n"@,
{
    assert(positions.push((account, held)).drop_last() =~= positions);
    assert(held.push((symbol, quantity)).drop_last() =~= held);
}

/// The status has a line for each configured symbol, where it first stands, with its last price and
/// its change, or dashes where they are not known.
pub proof fn law_status_shows_symbols(
    symbols: Seq<SymbolView>,
    config: SymbolView,
    prices: Seq<(Seq<char>, RealTimeQuote)>,
)
    ensures
        symbol_status(Seq::empty(), prices) == Seq::<char>::empty(),
        (exists|i: int| 0 <= i < symbols.len() && (#[trigger] symbols[i]).symbol == config.symbol)
            ==> symbol_status(symbols.push(config), prices) == symbol_status(symbols, prices),
        (forall|i: int| 0 <= i < symbols.len() ==> (#[trigger] symbols[i]).symbol != config.symbol)
            ==> symbol_status(symbols.push(config), prices) == symbol_status(symbols, prices)
            + "  "@ + config.symbol + ": "@ + (match lookup(prices, config.symbol) {
            Some(quote) => match quote.last_price {
                Some(price) => "$"@ + fixed(price.units as int, 8, 2),
                None => "-"@,
            },
            None => "-"@,
        }) + " ("@ + (match lookup(prices, config.symbol) {
            Some(quote) => match quote.percent_change {
                Some(change) => (if change.units < 0 {
                    fixed(change.units as int, 8, 2)
                } else {
                    "+"@ + fixed(change.units as int, 8, 2)
                }) + "%"@,
                None => "-"@,
            },
            None => "-"@,
        }) + ")\n"@,
{
    let more = symbols.push(config);
    assert(more.drop_last() =~= symbols);
    law_names_are_those_of_symbols(symbols);
    let names = distinct_names(symbols);
    if names.contains(config.symbol) {
        let k = choose|k: int| 0 <= k < names.len() && names[k] == config.symbol;
        let i = choose|i: int| 0 <= i < symbols.len() && (#[trigger] symbols[i]).symbol == names[k];
        assert(symbols[i].symbol == config.symbol);
    }
}

/// The status tells in this order of the portfolio values, of what is held and of the symbols, and
/// says where nothing is known.
pub proof fn law_status_tells_all(bot: BotView)
    ensures
        status_text(bot) == "Schwab Trading Bot Status:\n\n"@ + (if bot.balances.len() > 0 {
            "Account Balances:\n"@ + balance_status(bot.balances) + "\n"@
        } else {
            "Account Balances:\n  (not available)\n\n"@
        }) + "Positions:\n"@ + (if bot.positions.len() > 0 {
            position_status(bot.positions, bot.prices)
        } else {
            "  (no cached positions)\n"@
        }) + "\nTracked Symbols:\n"@ + symbol_status(bot.symbols, bot.prices),
{
}

} // verus!
