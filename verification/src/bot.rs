//! The state of the bot.
use crate::clock::UtcTime;
use crate::decimal::Decimal;
use crate::models::{account_at_ibkr, symbol_views, trades_at_ibkr, RealTimeQuote, Symbol, SymbolView};
use crate::table::Table;
use crate::text::{same, texts};
use vstd::prelude::*;

verus! {

/// What the bot knows: its configuration, and what the brokers last told it.
pub struct TradingBot {
    /// Whether the Schwab client is there.
    pub has_api: bool,
    /// Whether the client for Interactive Brokers is there.
    pub has_ib_client: bool,
    pub account_hashes: Vec<String>,
    pub symbols_config: Vec<Symbol>,
    /// Quantities held, by account and symbol.
    pub positions: Table<Table<Decimal>>,
    /// Quotes, by symbol.
    pub real_time_prices: Table<RealTimeQuote>,
    /// Portfolio values, by account.
    pub account_balances: Table<Decimal>,
    /// When an order was last tried, by symbol.
    pub order_history: Table<UtcTime>,
}

pub struct BotView {
    pub has_api: bool,
    pub has_ib_client: bool,
    pub account_hashes: Seq<Seq<char>>,
    pub symbols: Seq<SymbolView>,
    pub positions: Seq<(Seq<char>, Seq<(Seq<char>, Decimal)>)>,
    pub prices: Seq<(Seq<char>, RealTimeQuote)>,
    pub balances: Seq<(Seq<char>, Decimal)>,
    pub history: Seq<(Seq<char>, UtcTime)>,
}

impl View for TradingBot {
    type V = BotView;

    open spec fn view(&self) -> BotView {
        BotView {
            has_api: self.has_api,
            has_ib_client: self.has_ib_client,
            account_hashes: texts(self.account_hashes@),
            symbols: symbol_views(self.symbols_config@),
            positions: self.positions@,
            prices: self.real_time_prices@,
            balances: self.account_balances@,
            history: self.order_history@,
        }
    }
}

impl TradingBot {
    /// Whether the account is looked after by Interactive Brokers.
    pub fn uses_ibkr(&self, account_hash: &str) -> (r: bool)
        ensures
            r == account_at_ibkr(self@.symbols, account_hash@),
    {
        let n: usize = self.symbols_config.len();
        let mut i: usize = 0;
        while i < n
            invariant
                i <= n,
                n == self.symbols_config@.len(),
                forall|j: int|
                    0 <= j < i ==> !((#[trigger] self@.symbols[j]).account_hash == account_hash@
                        && trades_at_ibkr(self@.symbols[j])),
            decreases n - i,
        {
            let symbol: &Symbol = &self.symbols_config[i];
            assert(self@.symbols[i as int] == symbol@);
            if same(symbol.account_hash.as_str(), account_hash) && symbol.at_ibkr() {
                return true;
            }
            i = i + 1;
        }
        false
    }
}

/// The view of a bot shows its fields under their own names.
pub proof fn law_bot_view_shows_fields(bot: TradingBot, i: int)
    ensures
        bot@.has_api == bot.has_api,
        bot@.has_ib_client == bot.has_ib_client,
        bot@.account_hashes.len() == bot.account_hashes@.len(),
        0 <= i < bot.account_hashes@.len() ==> bot@.account_hashes[i] == bot.account_hashes@[i]@,
        bot@.symbols.len() == bot.symbols_config@.len(),
        0 <= i < bot.symbols_config@.len() ==> bot@.symbols[i] == bot.symbols_config@[i]@,
        bot@.positions == bot.positions@,
        bot@.prices == bot.real_time_prices@,
        bot@.balances == bot.account_balances@,
        bot@.history == bot.order_history@,
{
}

} // verus!
