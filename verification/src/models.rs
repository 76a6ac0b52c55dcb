//! The data that the bot works on.
use crate::decimal::Decimal;
use crate::text::{opt_text, same};
use vstd::prelude::*;

verus! {

/// What an account holds of one instrument.
#[derive(Clone, Debug)]
pub struct PositionSummary {
    pub symbol: String,
    pub description: Option<String>,
    pub asset_type: Option<String>,
    pub quantity: Decimal,
    pub is_short: bool,
    pub average_price: Option<Decimal>,
    pub market_value: Option<Decimal>,
    pub cost_basis: Option<Decimal>,
    pub profit_loss: Option<Decimal>,
}

pub struct PositionView {
    pub symbol: Seq<char>,
    pub description: Option<Seq<char>>,
    pub asset_type: Option<Seq<char>>,
    pub quantity: Decimal,
    pub is_short: bool,
    pub average_price: Option<Decimal>,
    pub market_value: Option<Decimal>,
    pub cost_basis: Option<Decimal>,
    pub profit_loss: Option<Decimal>,
}

impl View for PositionSummary {
    type V = PositionView;

    open spec fn view(&self) -> PositionView {
        PositionView {
            symbol: self.symbol@,
            description: opt_text(self.description),
            asset_type: opt_text(self.asset_type),
            quantity: self.quantity,
            is_short: self.is_short,
            average_price: self.average_price,
            market_value: self.market_value,
            cost_basis: self.cost_basis,
            profit_loss: self.profit_loss,
        }
    }
}

/// The views of a list of positions.
pub open spec fn position_views(list: Seq<PositionSummary>) -> Seq<PositionView> {
    list.map_values(|p: PositionSummary| p@)
}

/// What is known of the market in one symbol.
#[derive(Clone, Copy, Debug)]
pub struct RealTimeQuote {
    pub last_price: Option<Decimal>,
    /// How many shares were traded.
    pub total_volume: Option<i64>,
    pub percent_change: Option<Decimal>,
    /// How many shares were traded on an average day, rounded.
    pub avg_10_day_volume: Option<i64>,
}

impl View for RealTimeQuote {
    type V = RealTimeQuote;

    open spec fn view(&self) -> RealTimeQuote {
        *self
    }
}

/// The quote of which nothing is known.
pub open spec fn blank_quote() -> RealTimeQuote {
    RealTimeQuote {
        last_price: None,
        total_volume: None,
        percent_change: None,
        avg_10_day_volume: None,
    }
}

impl Default for RealTimeQuote {
    fn default() -> (r: RealTimeQuote)
        ensures
            r == blank_quote(),
    {
        RealTimeQuote {
            last_price: None,
            total_volume: None,
            percent_change: None,
            avg_10_day_volume: None,
        }
    }
}

/// What the strategy wants for one symbol in one account.
#[derive(Clone, Debug)]
pub struct SignalInfo {
    pub action: String,
    pub last_price: Option<Decimal>,
    pub quantity: Decimal,
}

pub struct SignalView {
    pub action: Seq<char>,
    pub last_price: Option<Decimal>,
    pub quantity: Decimal,
}

impl View for SignalInfo {
    type V = SignalView;

    open spec fn view(&self) -> SignalView {
        SignalView {
            action: self.action@,
            last_price: self.last_price,
            quantity: self.quantity,
        }
    }
}

/// How one symbol is traded in one account.
#[derive(Clone, Debug)]
pub struct Symbol {
    pub symbol: String,
    pub api: Option<String>,
    pub account_hash: String,
    pub entry_amount: Decimal,
    pub exit_amount: Decimal,
    pub entry_threshold: Decimal,
    pub exit_threshold: Decimal,
}

pub struct SymbolView {
    pub symbol: Seq<char>,
    pub api: Option<Seq<char>>,
    pub account_hash: Seq<char>,
    pub entry_amount: Decimal,
    pub exit_amount: Decimal,
    pub entry_threshold: Decimal,
    pub exit_threshold: Decimal,
}

impl View for Symbol {
    type V = SymbolView;

    open spec fn view(&self) -> SymbolView {
        SymbolView {
            symbol: self.symbol@,
            api: opt_text(self.api),
            account_hash: self.account_hash@,
            entry_amount: self.entry_amount,
            exit_amount: self.exit_amount,
            entry_threshold: self.entry_threshold,
            exit_threshold: self.exit_threshold,
        }
    }
}

/// The views of a list of configured symbols.
pub open spec fn symbol_views(list: Seq<Symbol>) -> Seq<SymbolView> {
    list.map_values(|s: Symbol| s@)
}

/// Whether a symbol trades through Interactive Brokers; Schwab is the default.
pub open spec fn trades_at_ibkr(s: SymbolView) -> bool {
    s.api == Some("ibkr"@)
}

/// Whether any symbol configured for the account trades through Interactive Brokers, and with it
/// the whole account.
pub open spec fn account_at_ibkr(symbols: Seq<SymbolView>, account: Seq<char>) -> bool {
    exists|i: int|
        0 <= i < symbols.len() && (#[trigger] symbols[i]).account_hash == account && trades_at_ibkr(
            symbols[i],
        )
}

impl Symbol {
    pub(crate) fn at_ibkr(&self) -> (r: bool)
        ensures
            r == trades_at_ibkr(self@),
    {
        match &self.api {
            Some(name) => same(name.as_str(), "ibkr"),
            None => false,
        }
    }
}

/// A symbol trades through Interactive Brokers just where it names that broker; without a name, or
/// with any other, it trades through Schwab.
pub proof fn law_symbols_name_their_broker(symbol: SymbolView)
    ensures
        trades_at_ibkr(symbol) <==> symbol.api == Some("ibkr"@),
{
}

/// The views show the fields under their own names.
pub proof fn law_model_views_show_fields(p: PositionSummary, s: SignalInfo, c: Symbol)
    ensures
        p@.symbol == p.symbol@,
        p@.quantity == p.quantity,
        p@.is_short == p.is_short,
        p@.average_price == p.average_price,
        p@.market_value == p.market_value,
        p@.cost_basis == p.cost_basis,
        p@.profit_loss == p.profit_loss,
        p.description matches Some(text) ==> p@.description == Some(text@),
        p.description is None ==> p@.description is None,
        p.asset_type matches Some(text) ==> p@.asset_type == Some(text@),
        p.asset_type is None ==> p@.asset_type is None,
        s@.action == s.action@,
        s@.last_price == s.last_price,
        s@.quantity == s.quantity,
        c@.symbol == c.symbol@,
        c.api matches Some(text) ==> c@.api == Some(text@),
        c.api is None ==> c@.api is None,
        c@.account_hash == c.account_hash@,
        c@.entry_amount == c.entry_amount,
        c@.exit_amount == c.exit_amount,
        c@.entry_threshold == c.entry_threshold,
        c@.exit_threshold == c.exit_threshold,
{
}

/// A list is seen item by item, in its order.
pub proof fn law_lists_are_seen_in_order(
    positions: Seq<PositionSummary>,
    symbols: Seq<Symbol>,
    i: int,
)
    ensures
        position_views(positions).len() == positions.len(),
        symbol_views(symbols).len() == symbols.len(),
        0 <= i < positions.len() ==> position_views(positions)[i] == positions[i]@,
        0 <= i < symbols.len() ==> symbol_views(symbols)[i] == symbols[i]@,
{
}

} // verus!
