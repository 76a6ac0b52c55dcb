//! Taking in what the brokers answer.
use crate::bot::{BotView, TradingBot};
use crate::decimal::{abs, clamp, law_round_half_even_is_nearest, round_half_even, Decimal};
use crate::models::{
    account_at_ibkr, position_views, PositionSummary, PositionView, RealTimeQuote, SymbolView,
};
use crate::risk::BalanceReply;
use crate::signals::{action_of, quote_of};
use crate::table::{law_put_then_lookup, lookup, put, Table};
use crate::text::texts;
use vstd::prelude::*;

verus! {

/// Why the state could not be brought up to date.
#[derive(Clone, Copy, Debug, PartialEq, Eq, Structural)]
pub enum UpdateError {
    NoApi,
    NoBalances,
    NoPositions,
}

/// What is said where the state could not be brought up to date.
pub open spec fn update_message(e: UpdateError) -> Seq<char> {
    match e {
        UpdateError::NoApi => "Schwab API client not initialized"@,
        UpdateError::NoBalances => "Balance payloads were empty for all configured accounts"@,
        UpdateError::NoPositions => "Unable to fetch positions for all configured accounts"@,
    }
}

impl UpdateError {
    /// What is said where the state could not be brought up to date.
    pub fn message(&self) -> (r: String)
        ensures
            r@ == update_message(*self),
    {
        match self {
            UpdateError::NoApi => "Schwab API client not initialized".to_owned(),
            UpdateError::NoBalances =>
                "Balance payloads were empty for all configured accounts".to_owned(),
            UpdateError::NoPositions =>
                "Unable to fetch positions for all configured accounts".to_owned(),
        }
    }
}

/// The answer of an account's broker on its balance.
#[derive(Debug)]
pub enum AccountBalance {
    Ibkr(Result<Decimal, String>),
    Schwab(BalanceReply),
}

/// The portfolio value in a list of balances: the equity of a margin account, and otherwise the
/// second of them, or the only one.
pub open spec fn primary_value(values: Seq<Decimal>) -> Option<Decimal> {
    if values.len() == 0 {
        None
    } else if values.len() == 1 {
        Some(values[0])
    } else if values.len() == 3 {
        Some(values[2])
    } else {
        Some(values[1])
    }
}

/// The portfolio value that an answer gives, if any. Only the broker that looks after the account
/// has a say.
pub open spec fn answered_value(at_ibkr: bool, answer: AccountBalance) -> Option<Decimal> {
    match answer {
        AccountBalance::Ibkr(Ok(value)) if at_ibkr => Some(value),
        AccountBalance::Schwab(Ok(values)) if !at_ibkr => primary_value(values@),
        _ => None,
    }
}

/// The portfolio values that the answers on the bot's accounts give.
pub open spec fn answered_values(bot: BotView, answers: Seq<AccountBalance>) -> Seq<
    Option<Decimal>,
> {
    Seq::new(
        answers.len(),
        |i: int|
            answered_value(account_at_ibkr(bot.symbols, bot.account_hashes[i]), answers[i]),
    )
}

/// The table of what is known, by account.
pub open spec fn gathered<V>(accounts: Seq<Seq<char>>, values: Seq<Option<V>>) -> Seq<
    (Seq<char>, V),
>
    decreases values.len(),
{
    if values.len() == 0 {
        Seq::empty()
    } else {
        let rest = gathered(accounts, values.drop_last());
        match values.last() {
            Some(value) => put(rest, accounts[values.len() - 1], value),
            None => rest,
        }
    }
}

/// Whether anything is known at all.
pub open spec fn any_known<V>(values: Seq<Option<V>>) -> bool {
    exists|i: int| 0 <= i < values.len() && (#[trigger] values[i]) is Some
}

fn value_in(at_ibkr: bool, answer: &AccountBalance) -> (r: Option<Decimal>)
    ensures
        r == answered_value(at_ibkr, *answer),
{
    match answer {
        AccountBalance::Ibkr(Ok(value)) if at_ibkr => Some(*value),
        AccountBalance::Schwab(Ok(values)) if !at_ibkr => {
            if values.len() == 0 {
                None
            } else if values.len() == 1 {
                Some(values[0])
            } else if values.len() == 3 {
                Some(values[2])
            } else {
                Some(values[1])
            }
        },
        _ => None,
    }
}

/// What a broker says when asked for an account's positions.
pub type PositionReply = Result<Vec<PositionSummary>, String>;

/// The answer of one of the brokers on an account's positions.
#[derive(Debug)]
pub enum AccountPositions {
    Ibkr(PositionReply),
    Schwab(PositionReply),
}

/// What an answer says of the account's positions. Only the broker that looks after the account
/// has a say.
pub open spec fn heard_positions(at_ibkr: bool, answer: AccountPositions) -> Option<
    PositionReply,
> {
    match answer {
        AccountPositions::Ibkr(reply) if at_ibkr => Some(reply),
        AccountPositions::Schwab(reply) if !at_ibkr => Some(reply),
        _ => None,
    }
}

/// The positions that an answer lists, if any.
pub open spec fn answered_list(at_ibkr: bool, answer: AccountPositions) -> Option<
    Seq<PositionView>,
> {
    match heard_positions(at_ibkr, answer) {
        Some(Ok(list)) => Some(position_views(list@)),
        _ => None,
    }
}

/// The positions that the answers on the bot's accounts list.
pub open spec fn answered_lists(bot: BotView, answers: Seq<AccountPositions>) -> Seq<
    Option<Seq<PositionView>>,
> {
    Seq::new(
        answers.len(),
        |i: int|
            answered_list(account_at_ibkr(bot.symbols, bot.account_hashes[i]), answers[i]),
    )
}

/// What an answer says of the account's positions.
pub(crate) fn hear_positions(at_ibkr: bool, answer: &AccountPositions) -> (r: Option<
    &PositionReply,
>)
    ensures
        match heard_positions(at_ibkr, *answer) {
            Some(reply) => r == Some(&reply),
            None => r is None,
        },
{
    match answer {
        AccountPositions::Ibkr(reply) if at_ibkr => Some(reply),
        AccountPositions::Schwab(reply) if !at_ibkr => Some(reply),
        _ => None,
    }
}

/// The quantities of a list of positions, by symbol.
pub open spec fn quantities(list: Seq<PositionView>) -> Seq<(Seq<char>, Decimal)>
    decreases list.len(),
{
    if list.len() == 0 {
        Seq::empty()
    } else {
        put(quantities(list.drop_last()), list.last().symbol, list.last().quantity)
    }
}

pub open spec fn reply_quantities(replies: Seq<Option<Seq<PositionView>>>) -> Seq<
    Option<Seq<(Seq<char>, Decimal)>>,
> {
    replies.map_values(
        |r: Option<Seq<PositionView>>|
            match r {
                Some(list) => Some(quantities(list)),
                None => None,
            },
    )
}

/// The price per share that a position's market value gives, if any.
pub open spec fn implied_price(position: PositionView) -> Option<Decimal> {
    match position.market_value {
        Some(value) => if position.quantity.units != 0 {
            Some(
                Decimal {
                    units: clamp(
                        round_half_even(
                            value.units * 100_000_000,
                            abs(position.quantity.units as int),
                        ),
                    ) as i64,
                },
            )
        } else {
            None
        },
        None => None,
    }
}

/// The quotes with the last price of one symbol replaced.
pub open spec fn with_last_price(
    prices: Seq<(Seq<char>, RealTimeQuote)>,
    symbol: Seq<char>,
    price: Decimal,
) -> Seq<(Seq<char>, RealTimeQuote)> {
    put(
        prices,
        symbol,
        RealTimeQuote { last_price: Some(price), ..quote_of(prices, symbol) },
    )
}

/// The quotes with the prices that a list of positions implies.
pub open spec fn with_implied_prices(
    prices: Seq<(Seq<char>, RealTimeQuote)>,
    list: Seq<PositionView>,
) -> Seq<(Seq<char>, RealTimeQuote)>
    decreases list.len(),
{
    if list.len() == 0 {
        prices
    } else {
        let rest = with_implied_prices(prices, list.drop_last());
        match implied_price(list.last()) {
            Some(price) => with_last_price(rest, list.last().symbol, price),
            None => rest,
        }
    }
}

/// The quotes with the prices that the accounts' positions imply.
pub open spec fn with_replied_prices(
    prices: Seq<(Seq<char>, RealTimeQuote)>,
    replies: Seq<Option<Seq<PositionView>>>,
) -> Seq<(Seq<char>, RealTimeQuote)>
    decreases replies.len(),
{
    if replies.len() == 0 {
        prices
    } else {
        let rest = with_replied_prices(prices, replies.drop_last());
        match replies.last() {
            Some(list) => with_implied_prices(rest, list),
            None => rest,
        }
    }
}

/// The bot with the portfolio values that the answers give, or why it stays as it was.
pub open spec fn with_account_info(bot: BotView, answers: Seq<AccountBalance>) -> Result<
    BotView,
    UpdateError,
> {
    if !bot.has_api {
        Err(UpdateError::NoApi)
    } else if !any_known(answered_values(bot, answers)) {
        Err(UpdateError::NoBalances)
    } else {
        Ok(
            BotView {
                balances: gathered(bot.account_hashes, answered_values(bot, answers)),
                ..bot
            },
        )
    }
}

/// The bot with the positions that the answers list and the prices that they imply, or why it
/// stays as it was.
pub open spec fn with_positions(bot: BotView, answers: Seq<AccountPositions>) -> Result<
    BotView,
    UpdateError,
> {
    let lists = answered_lists(bot, answers);
    if !any_known(lists) {
        Err(UpdateError::NoPositions)
    } else {
        Ok(
            BotView {
                positions: gathered(bot.account_hashes, reply_quantities(lists)),
                prices: with_replied_prices(bot.prices, lists),
                ..bot
            },
        )
    }
}

/// The quantities of a list of positions, by symbol.
pub(crate) fn held_from(list: &Vec<PositionSummary>) -> (r: Table<Decimal>)
    ensures
        r@ == quantities(position_views(list@)),
{
    let ghost views = position_views(list@);
    let mut r: Table<Decimal> = Table::new();
    let n: usize = list.len();
    let mut i: usize = 0;
    while i < n
        invariant
            i <= n,
            n == list@.len(),
            views == position_views(list@),
            r@ == quantities(views.take(i as int)),
        decreases n - i,
    {
        let ghost done = views.take(i + 1);
        assert(done.drop_last() =~= views.take(i as int));
        assert(done.last() == list@[i as int]@);
        r.set(list[i].symbol.clone(), list[i].quantity);
        i = i + 1;
    }
    assert(views.take(n as int) =~= views);
    r
}

impl TradingBot {
    fn note_implied_prices(&mut self, list: &Vec<PositionSummary>)
        ensures
            final(self)@ == (BotView {
                prices: with_implied_prices(old(self)@.prices, position_views(list@)),
                ..old(self)@
            }),
    {
        let ghost views = position_views(list@);
        let n: usize = list.len();
        let mut i: usize = 0;
        while i < n
            invariant
                i <= n,
                n == list@.len(),
                views == position_views(list@),
                self@ == (BotView {
                    prices: with_implied_prices(old(self)@.prices, views.take(i as int)),
                    ..old(self)@
                }),
            decreases n - i,
        {
            let ghost done = views.take(i + 1);
            assert(done.drop_last() =~= views.take(i as int));
            assert(done.last() == list@[i as int]@);
            let position: &PositionSummary = &list[i];
            if let Some(value) = position.market_value {
                if position.quantity.units != 0 {
                    let price: Decimal = value.over_magnitude(position.quantity);
                    let mut quote: RealTimeQuote = self.quote(position.symbol.as_str());
                    quote.last_price = Some(price);
                    self.real_time_prices.set(position.symbol.clone(), quote);
                }
            }
            i = i + 1;
        }
        assert(views.take(n as int) =~= views);
    }

    /// Takes in the accounts' balances. Without any, the known ones are kept.
    pub fn update_account_info(&mut self, answers: &Vec<AccountBalance>) -> (r: Result<
        (),
        UpdateError,
    >)
        requires
            answers@.len() == old(self)@.account_hashes.len(),
        ensures
            match with_account_info(old(self)@, answers@) {
                Ok(after) => r is Ok && final(self)@ == after,
                Err(e) => r == Err::<(), UpdateError>(e) && final(self)@ == old(self)@,
            },
    {
        if !self.has_api {
            return Err(UpdateError::NoApi);
        }
        let ghost accounts = self@.account_hashes;
        let ghost values = answered_values(old(self)@, answers@);
        let mut any_success: bool = false;
        let mut balances: Table<Decimal> = Table::new();
        let n: usize = answers.len();
        let mut i: usize = 0;
        while i < n
            invariant
                i <= n,
                n == answers@.len(),
                n == self.account_hashes@.len(),
                accounts == texts(self.account_hashes@),
                self@ == old(self)@,
                values == answered_values(self@, answers@),
                balances@ == gathered(accounts, values.take(i as int)),
                any_success == any_known(values.take(i as int)),
            decreases n - i,
        {
            let ghost before = values.take(i as int);
            let ghost done = values.take(i + 1);
            assert(done.drop_last() =~= before);
            assert(accounts[i as int] == self.account_hashes@[i as int]@);
            proof {
                lemma_any_known_step(values, i as int);
            }
            let at_ibkr: bool = self.uses_ibkr(self.account_hashes[i].as_str());
            if let Some(value) = value_in(at_ibkr, &answers[i]) {
                balances.set(self.account_hashes[i].clone(), value);
                any_success = true;
            }
            i = i + 1;
        }
        assert(values.take(n as int) =~= values);
        if !any_success {
            return Err(UpdateError::NoBalances);
        }
        self.account_balances = balances;
        Ok(())
    }

    /// Takes in the accounts' positions, and the prices that they imply. Without any, the known
    /// ones are kept.
    pub fn update_positions(&mut self, answers: &Vec<AccountPositions>) -> (r: Result<
        (),
        UpdateError,
    >)
        requires
            answers@.len() == old(self)@.account_hashes.len(),
        ensures
            match with_positions(old(self)@, answers@) {
                Ok(after) => r is Ok && final(self)@ == after,
                Err(e) => r == Err::<(), UpdateError>(e) && final(self)@ == old(self)@,
            },
    {
        let ghost accounts = self@.account_hashes;
        let ghost views = answered_lists(old(self)@, answers@);
        let ghost held = reply_quantities(views);
        let mut any_success: bool = false;
        let mut positions: Table<Table<Decimal>> = Table::new();
        let n: usize = answers.len();
        let mut i: usize = 0;
        while i < n
            invariant
                i <= n,
                n == answers@.len(),
                n == self.account_hashes@.len(),
                accounts == texts(self.account_hashes@),
                views == answered_lists(old(self)@, answers@),
                held == reply_quantities(views),
                positions@ == gathered(accounts, held.take(i as int)),
                self@ == (BotView {
                    prices: with_replied_prices(old(self)@.prices, views.take(i as int)),
                    ..old(self)@
                }),
                any_success == any_known(views.take(i as int)),
                !any_success ==> self@.prices == old(self)@.prices,
            decreases n - i,
        {
            let ghost done = views.take(i + 1);
            assert(done.drop_last() =~= views.take(i as int));
            assert(held.take(i + 1).drop_last() =~= held.take(i as int));
            assert(accounts[i as int] == self.account_hashes@[i as int]@);
            proof {
                lemma_any_known_step(views, i as int);
            }
            let at_ibkr: bool = self.uses_ibkr(self.account_hashes[i].as_str());
            assert(done.last() == answered_list(at_ibkr, answers@[i as int]));
            if let Some(Ok(list)) = hear_positions(at_ibkr, &answers[i]) {
                let table: Table<Decimal> = held_from(list);
                positions.set(self.account_hashes[i].clone(), table);
                self.note_implied_prices(list);
                assert(texts(self.account_hashes@).len() == accounts.len());
                any_success = true;
            }
            i = i + 1;
        }
        assert(views.take(n as int) =~= views);
        assert(held.take(n as int) =~= held);
        if !any_success {
            return Err(UpdateError::NoPositions);
        }
        self.positions = positions;
        Ok(())
    }
}

pub(crate) proof fn lemma_any_known_step<V>(values: Seq<Option<V>>, i: int)
    requires
        0 <= i < values.len(),
    ensures
        any_known(values.take(i + 1)) == (any_known(values.take(i)) || values[i] is Some),
{
    let before = values.take(i);
    let after = values.take(i + 1);
    if any_known(before) {
        let k = choose|k: int| 0 <= k < before.len() && (#[trigger] before[k]) is Some;
        assert(after[k] is Some);
    }
    if values[i] is Some {
        assert(after[i] is Some);
    }
    if any_known(after) {
        let k = choose|k: int| 0 <= k < after.len() && (#[trigger] after[k]) is Some;
        if k < i {
            assert(before[k] is Some);
        }
    }
}

/// With each account named once, the table holds of each account just what is known of it.
pub proof fn law_gathered_mirrors_accounts<V>(
    accounts: Seq<Seq<char>>,
    values: Seq<Option<V>>,
    i: int,
)
    requires
        values.len() <= accounts.len(),
        0 <= i < values.len(),
        forall|j: int, k: int|
            0 <= j < k < accounts.len() ==> #[trigger] accounts[j] != #[trigger] accounts[k],
    ensures
        lookup(gathered(accounts, values), accounts[i]) == values[i],
    decreases values.len(),
{
    let rest = values.drop_last();
    let last = values.len() - 1;
    lemma_gathered_bounds(accounts, rest, accounts[last]);
    if let Some(value) = values.last() {
        law_put_then_lookup(gathered(accounts, rest), accounts[last], value, accounts[i]);
    }
    if i < last {
        law_gathered_mirrors_accounts(accounts, rest, i);
        assert(accounts[i] != accounts[last]);
    } else if !(values.last() is Some) {
        assert forall|j: int| 0 <= j < rest.len() implies accounts[j] != accounts[last] by {}
    }
}

proof fn lemma_gathered_bounds<V>(
    accounts: Seq<Seq<char>>,
    values: Seq<Option<V>>,
    account: Seq<char>,
)
    requires
        values.len() <= accounts.len(),
    ensures
        (forall|j: int| 0 <= j < values.len() ==> #[trigger] accounts[j] != account) ==> lookup(
            gathered(accounts, values),
            account,
        ) is None,
    decreases values.len(),
{
    if (forall|j: int| 0 <= j < values.len() ==> #[trigger] accounts[j] != account) && values.len()
        > 0 {
        let rest = values.drop_last();
        lemma_gathered_bounds(accounts, rest, account);
        assert(accounts[values.len() - 1] != account);
        if let Some(value) = values.last() {
            law_put_then_lookup(
                gathered(accounts, rest),
                accounts[values.len() - 1],
                value,
                account,
            );
        }
    }
}

/// Whether two quotes agree in all but their last price.
pub open spec fn same_but_price(a: RealTimeQuote, b: RealTimeQuote) -> bool {
    &&& a.total_volume == b.total_volume
    &&& a.percent_change == b.percent_change
    &&& a.avg_10_day_volume == b.avg_10_day_volume
}

proof fn lemma_list_moves_only_prices(
    prices: Seq<(Seq<char>, RealTimeQuote)>,
    list: Seq<PositionView>,
    symbol: Seq<char>,
)
    ensures
        same_but_price(
            quote_of(with_implied_prices(prices, list), symbol),
            quote_of(prices, symbol),
        ),
    decreases list.len(),
{
    if list.len() > 0 {
        let rest = with_implied_prices(prices, list.drop_last());
        lemma_list_moves_only_prices(prices, list.drop_last(), symbol);
        if let Some(price) = implied_price(list.last()) {
            let moved = list.last().symbol;
            law_put_then_lookup(
                rest,
                moved,
                RealTimeQuote { last_price: Some(price), ..quote_of(rest, moved) },
                symbol,
            );
        }
    }
}

/// Taking in positions moves nothing in the quotes but last prices, and so turns no signal.
pub proof fn law_positions_move_only_prices(
    prices: Seq<(Seq<char>, RealTimeQuote)>,
    replies: Seq<Option<Seq<PositionView>>>,
    symbol: Seq<char>,
    config: SymbolView,
)
    ensures
        same_but_price(
            quote_of(with_replied_prices(prices, replies), symbol),
            quote_of(prices, symbol),
        ),
        action_of(config, quote_of(with_replied_prices(prices, replies), symbol)) == action_of(
            config,
            quote_of(prices, symbol),
        ),
    decreases replies.len(),
{
    if replies.len() > 0 {
        law_positions_move_only_prices(prices, replies.drop_last(), symbol, config);
        if let Some(list) = replies.last() {
            lemma_list_moves_only_prices(
                with_replied_prices(prices, replies.drop_last()),
                list,
                symbol,
            );
        }
    }
}

/// Whether some symbol configured for the account names Interactive Brokers.
pub open spec fn names_ibkr(symbols: Seq<SymbolView>, account: Seq<char>) -> bool {
    exists|k: int|
        0 <= k < symbols.len() && (#[trigger] symbols[k]).account_hash == account && symbols[k].api
            == Some("ibkr"@)
}

/// An account is looked after by Interactive Brokers just where a symbol configured for it names
/// that broker.
pub proof fn law_one_symbol_decides_the_broker(symbols: Seq<SymbolView>, account: Seq<char>)
    ensures
        account_at_ibkr(symbols, account) == names_ibkr(symbols, account),
{
    if account_at_ibkr(symbols, account) {
        let k = choose|k: int|
            0 <= k < symbols.len() && (#[trigger] symbols[k]).account_hash == account
                && crate::models::trades_at_ibkr(symbols[k]);
        assert(symbols[k].api == Some("ibkr"@));
    }
    if names_ibkr(symbols, account) {
        let k = choose|k: int|
            0 <= k < symbols.len() && (#[trigger] symbols[k]).account_hash == account
                && symbols[k].api == Some("ibkr"@);
        assert(crate::models::trades_at_ibkr(symbols[k]));
    }
}

/// After an update the portfolio value of an account at Schwab is the third of three balances, the
/// only one of one, and otherwise the second; that of an account at Interactive Brokers is the one
/// that it tells. Of an account whose own broker gave no figure none is kept.
pub proof fn law_portfolio_values_after_an_update(
    bot: BotView,
    answers: Seq<AccountBalance>,
    i: int,
    after: BotView,
)
    requires
        with_account_info(bot, answers) == Ok::<BotView, UpdateError>(after),
        answers.len() == bot.account_hashes.len(),
        0 <= i < answers.len(),
        forall|j: int, k: int|
            0 <= j < k < bot.account_hashes.len() ==> #[trigger] bot.account_hashes[j]
                != #[trigger] bot.account_hashes[k],
    ensures
        ({
            let kept = lookup(after.balances, bot.account_hashes[i]);
            if names_ibkr(bot.symbols, bot.account_hashes[i]) {
                match answers[i] {
                    AccountBalance::Ibkr(Ok(value)) => kept == Some(value),
                    _ => kept is None,
                }
            } else {
                match answers[i] {
                    AccountBalance::Schwab(Ok(values)) => {
                        &&& values@.len() == 0 ==> kept is None
                        &&& values@.len() == 1 ==> kept == Some(values@[0])
                        &&& values@.len() == 2 ==> kept == Some(values@[1])
                        &&& values@.len() == 3 ==> kept == Some(values@[2])
                        &&& values@.len() > 3 ==> kept == Some(values@[1])
                    },
                    _ => kept is None,
                }
            }
        }),
        after.has_api == bot.has_api,
        after.has_ib_client == bot.has_ib_client,
        after.account_hashes == bot.account_hashes,
        after.symbols == bot.symbols,
        after.positions == bot.positions,
        after.prices == bot.prices,
        after.history == bot.history,
{
    law_one_symbol_decides_the_broker(bot.symbols, bot.account_hashes[i]);
    law_gathered_mirrors_accounts(bot.account_hashes, answered_values(bot, answers), i);
}

/// An update of the balances fails just where there is no Schwab client, or no account's own broker
/// gave a figure.
pub proof fn law_balances_fail_exactly(bot: BotView, answers: Seq<AccountBalance>)
    requires
        answers.len() == bot.account_hashes.len(),
    ensures
        with_account_info(bot, answers) == Err::<BotView, UpdateError>(UpdateError::NoApi)
            <==> !bot.has_api,
        with_account_info(bot, answers) == Err::<BotView, UpdateError>(UpdateError::NoBalances)
            <==> bot.has_api && forall|i: int|
            0 <= i < answers.len() ==> !gives_balance(
                names_ibkr(bot.symbols, bot.account_hashes[i]),
                #[trigger] answers[i],
            ),
        !(with_account_info(bot, answers) == Err::<BotView, UpdateError>(UpdateError::NoPositions)),
{
    let values = answered_values(bot, answers);
    assert forall|i: int| 0 <= i < answers.len() implies (values[i] is Some <==> gives_balance(
        names_ibkr(bot.symbols, bot.account_hashes[i]),
        #[trigger] answers[i],
    )) by {
        law_one_symbol_decides_the_broker(bot.symbols, bot.account_hashes[i]);
    }
    if any_known(values) {
        let i = choose|i: int| 0 <= i < values.len() && (#[trigger] values[i]) is Some;
        assert(gives_balance(names_ibkr(bot.symbols, bot.account_hashes[i]), answers[i]));
    } else {
        assert forall|i: int| 0 <= i < answers.len() implies !gives_balance(
            names_ibkr(bot.symbols, bot.account_hashes[i]),
            #[trigger] answers[i],
        ) by {
            assert(!(values[i] is Some));
        }
    }
}

/// Whether an answer of the account's own broker gives a figure.
pub open spec fn gives_balance(at_ibkr: bool, answer: AccountBalance) -> bool {
    ||| at_ibkr && (answer matches AccountBalance::Ibkr(reply) && reply is Ok)
    ||| !at_ibkr && (answer matches AccountBalance::Schwab(Ok(values)) && values@.len() > 0)
}

/// Nothing is kept of an account that the bot does not have.
pub proof fn law_only_own_accounts_are_kept<V>(
    accounts: Seq<Seq<char>>,
    values: Seq<Option<V>>,
    account: Seq<char>,
)
    requires
        values.len() <= accounts.len(),
        forall|j: int| 0 <= j < accounts.len() ==> #[trigger] accounts[j] != account,
    ensures
        lookup(gathered(accounts, values), account) is None,
{
    lemma_gathered_bounds(accounts, values, account);
}

/// Of several positions in one symbol the quantity of the last stands; a symbol without a position
/// has none.
pub proof fn law_last_quantity_stands(list: Seq<PositionView>, symbol: Seq<char>, k: int)
    requires
        -1 <= k < list.len(),
        k >= 0 ==> list[k].symbol == symbol,
        forall|j: int| k < j < list.len() ==> (#[trigger] list[j]).symbol != symbol,
    ensures
        k >= 0 ==> lookup(quantities(list), symbol) == Some(list[k].quantity),
        k < 0 ==> lookup(quantities(list), symbol) is None,
    decreases list.len(),
{
    if list.len() > 0 {
        let rest = list.drop_last();
        let last = list.last();
        assert(last == list[list.len() - 1]);
        law_put_then_lookup(quantities(rest), last.symbol, last.quantity, symbol);
        if k < rest.len() {
            assert forall|j: int| k < j < rest.len() implies (#[trigger] rest[j]).symbol
                != symbol by {
                assert(rest[j] == list[j]);
            }
            if k >= 0 {
                assert(rest[k] == list[k]);
            }
            law_last_quantity_stands(rest, symbol, k);
        }
    }
}

/// After an update an account holds what its own broker lists for it: of each symbol the quantity
/// of its last position, and of any other symbol nothing. Where its own broker lists nothing, or
/// fails, nothing is known of the account.
pub proof fn law_holdings_after_an_update(
    bot: BotView,
    answers: Seq<AccountPositions>,
    i: int,
    after: BotView,
    symbol: Seq<char>,
    k: int,
)
    requires
        with_positions(bot, answers) == Ok::<BotView, UpdateError>(after),
        answers.len() == bot.account_hashes.len(),
        0 <= i < answers.len(),
        forall|a: int, b: int|
            0 <= a < b < bot.account_hashes.len() ==> #[trigger] bot.account_hashes[a]
                != #[trigger] bot.account_hashes[b],
        own_list(names_ibkr(bot.symbols, bot.account_hashes[i]), answers[i]) matches Some(list) ==> {
            &&& -1 <= k < list.len()
            &&& k >= 0 ==> list[k].symbol == symbol
            &&& forall|j: int| k < j < list.len() ==> (#[trigger] list[j]).symbol != symbol
        },
    ensures
        match own_list(names_ibkr(bot.symbols, bot.account_hashes[i]), answers[i]) {
            Some(list) => lookup(after.positions, bot.account_hashes[i]) matches Some(held) && {
                &&& k >= 0 ==> lookup(held, symbol) == Some(list[k].quantity)
                &&& k < 0 ==> lookup(held, symbol) is None
            },
            None => lookup(after.positions, bot.account_hashes[i]) is None,
        },
        after.has_api == bot.has_api,
        after.has_ib_client == bot.has_ib_client,
        after.account_hashes == bot.account_hashes,
        after.symbols == bot.symbols,
        after.balances == bot.balances,
        after.history == bot.history,
{
    let lists = answered_lists(bot, answers);
    law_one_symbol_decides_the_broker(bot.symbols, bot.account_hashes[i]);
    law_gathered_mirrors_accounts(bot.account_hashes, reply_quantities(lists), i);
    assert(lists[i] == own_list(names_ibkr(bot.symbols, bot.account_hashes[i]), answers[i]));
    if let Some(list) = lists[i] {
        law_last_quantity_stands(list, symbol, k);
    }
}

/// The positions that the account's own broker lists, if it does.
pub open spec fn own_list(at_ibkr: bool, answer: AccountPositions) -> Option<Seq<PositionView>> {
    match answer {
        AccountPositions::Ibkr(Ok(list)) => if at_ibkr {
            Some(list@.map_values(|p: PositionSummary| p@))
        } else {
            None
        },
        AccountPositions::Schwab(Ok(list)) => if at_ibkr {
            None
        } else {
            Some(list@.map_values(|p: PositionSummary| p@))
        },
        _ => None,
    }
}

/// An update of the positions fails just where no account's own broker lists any, not even an
/// empty list.
pub proof fn law_positions_fail_exactly(bot: BotView, answers: Seq<AccountPositions>)
    requires
        answers.len() == bot.account_hashes.len(),
    ensures
        with_positions(bot, answers) is Err <==> forall|i: int|
            0 <= i < answers.len() ==> own_list(
                names_ibkr(bot.symbols, bot.account_hashes[i]),
                #[trigger] answers[i],
            ) is None,
        with_positions(bot, answers) matches Err(e) ==> e == UpdateError::NoPositions,
{
    let lists = answered_lists(bot, answers);
    assert forall|i: int| 0 <= i < answers.len() implies lists[i] == own_list(
        names_ibkr(bot.symbols, bot.account_hashes[i]),
        #[trigger] answers[i],
    ) by {
        law_one_symbol_decides_the_broker(bot.symbols, bot.account_hashes[i]);
    }
    if any_known(lists) {
        let i = choose|i: int| 0 <= i < lists.len() && (#[trigger] lists[i]) is Some;
        assert(own_list(names_ibkr(bot.symbols, bot.account_hashes[i]), answers[i]) is Some);
    } else {
        assert forall|i: int| 0 <= i < answers.len() implies own_list(
            names_ibkr(bot.symbols, bot.account_hashes[i]),
            #[trigger] answers[i],
        ) is None by {
            assert(!(lists[i] is Some));
        }
    }
}

/// Whether a position gives a price: it has a market value, and shares of either sign.
pub open spec fn gives_price(position: PositionView) -> bool {
    position.market_value is Some && position.quantity.units != 0
}

/// Whether a price times the size of a position is its market value, to the nearest price that can
/// be held.
pub open spec fn is_unit_price(price: Decimal, position: PositionView) -> bool {
    let value = position.market_value->0.units * 100_000_000;
    let size = if position.quantity.units < 0 {
        -(position.quantity.units as int)
    } else {
        position.quantity.units as int
    };
    ||| -size <= 2 * (price.units * size - value) <= size
    ||| price.units == 0x7fff_ffff_ffff_ffff && price.units * size < value
    ||| price.units == -0x8000_0000_0000_0000 && price.units * size > value
}

proof fn lemma_implied_price(position: PositionView)
    ensures
        gives_price(position) <==> implied_price(position) is Some,
        implied_price(position) matches Some(price) ==> is_unit_price(price, position),
{
    if gives_price(position) {
        let n = position.market_value->0.units * 100_000_000;
        let d = abs(position.quantity.units as int);
        law_round_half_even_is_nearest(n, d);
        let q = round_half_even(n, d);
        let price = implied_price(position)->0;
        if q > i64::MAX {
            assert(price.units * d < n) by (nonlinear_arith)
                requires
                    price.units == i64::MAX,
                    q >= i64::MAX + 1,
                    2 * (q * d - n) <= d,
                    d > 0,
            ;
        } else if q < i64::MIN {
            assert(price.units * d > n) by (nonlinear_arith)
                requires
                    price.units == i64::MIN,
                    q <= i64::MIN - 1,
                    -d <= 2 * (q * d - n),
                    d > 0,
            ;
        }
    }
}

/// A list of positions prices a symbol by its last position that gives a price; a symbol that none
/// prices stays as it was.
pub proof fn law_last_position_prices(
    prices: Seq<(Seq<char>, RealTimeQuote)>,
    list: Seq<PositionView>,
    symbol: Seq<char>,
    k: int,
)
    requires
        -1 <= k < list.len(),
        k >= 0 ==> list[k].symbol == symbol && gives_price(list[k]),
        forall|j: int|
            k < j < list.len() ==> (#[trigger] list[j]).symbol != symbol || !gives_price(list[j]),
    ensures
        k >= 0 ==> (lookup(with_implied_prices(prices, list), symbol) matches Some(quote)
            && quote.last_price matches Some(price) && is_unit_price(price, list[k])),
        k < 0 ==> lookup(with_implied_prices(prices, list), symbol) == lookup(prices, symbol),
    decreases list.len(),
{
    if list.len() > 0 {
        let rest = list.drop_last();
        let last = list.last();
        assert(last == list[list.len() - 1]);
        lemma_implied_price(last);
        let before = with_implied_prices(prices, rest);
        if let Some(price) = implied_price(last) {
            law_put_then_lookup(
                before,
                last.symbol,
                RealTimeQuote { last_price: Some(price), ..quote_of(before, last.symbol) },
                symbol,
            );
        }
        if k < rest.len() {
            assert forall|j: int| k < j < rest.len() implies (#[trigger] rest[j]).symbol != symbol
                || !gives_price(rest[j]) by {
                assert(rest[j] == list[j]);
            }
            if k >= 0 {
                assert(rest[k] == list[k]);
            }
            law_last_position_prices(prices, rest, symbol, k);
        }
    }
}

/// Over all accounts a symbol is priced by the last account with a position that prices it; a
/// symbol that no account prices stays as it was.
pub proof fn law_last_account_prices(
    prices: Seq<(Seq<char>, RealTimeQuote)>,
    lists: Seq<Option<Seq<PositionView>>>,
    symbol: Seq<char>,
    a: int,
    k: int,
)
    requires
        -1 <= a < lists.len(),
        a >= 0 ==> (lists[a] matches Some(list) && 0 <= k < list.len() && list[k].symbol == symbol
            && gives_price(list[k]) && forall|j: int|
            k < j < list.len() ==> (#[trigger] list[j]).symbol != symbol || !gives_price(list[j])),
        forall|b: int, j: int|
            #![trigger lists[b]->0[j]]
            a < b < lists.len() && lists[b] is Some && 0 <= j < lists[b]->0.len()
                ==> lists[b]->0[j].symbol != symbol || !gives_price(lists[b]->0[j]),
    ensures
        a >= 0 ==> (lookup(with_replied_prices(prices, lists), symbol) matches Some(quote)
            && quote.last_price matches Some(price) && is_unit_price(price, lists[a]->0[k])),
        a < 0 ==> lookup(with_replied_prices(prices, lists), symbol) == lookup(prices, symbol),
    decreases lists.len(),
{
    if lists.len() > 0 {
        let rest = lists.drop_last();
        let n = lists.len() - 1;
        assert(lists.last() == lists[n]);
        let before = with_replied_prices(prices, rest);
        if a == n {
            law_last_position_prices(before, lists[n]->0, symbol, k);
        } else {
            if let Some(list) = lists[n] {
                assert forall|j: int| -1 < j < list.len() implies (#[trigger] list[j]).symbol
                    != symbol || !gives_price(list[j]) by {
                    assert(lists[n]->0[j] == list[j]);
                }
                law_last_position_prices(before, list, symbol, -1);
            }
            assert forall|b: int, j: int|
                #![trigger rest[b]->0[j]]
                a < b < rest.len() && rest[b] is Some && 0 <= j < rest[b]->0.len()
                    implies rest[b]->0[j].symbol != symbol || !gives_price(rest[b]->0[j]) by {
                assert(rest[b] == lists[b]);
                assert(lists[b]->0[j] == rest[b]->0[j]);
            }
            law_last_account_prices(prices, rest, symbol, a, k);
        }
    }
}

/// An update prices symbols by the positions that each account's own broker lists, and by no
/// others.
pub proof fn law_prices_after_an_update(
    bot: BotView,
    answers: Seq<AccountPositions>,
    after: BotView,
    lists: Seq<Option<Seq<PositionView>>>,
)
    requires
        with_positions(bot, answers) == Ok::<BotView, UpdateError>(after),
        answers.len() == bot.account_hashes.len(),
        lists.len() == answers.len(),
        forall|i: int|
            0 <= i < answers.len() ==> #[trigger] lists[i] == own_list(
                names_ibkr(bot.symbols, bot.account_hashes[i]),
                answers[i],
            ),
    ensures
        after.prices == with_replied_prices(bot.prices, lists),
{
    assert forall|i: int| 0 <= i < lists.len() implies #[trigger] lists[i] == answered_lists(
        bot,
        answers,
    )[i] by {
        law_one_symbol_decides_the_broker(bot.symbols, bot.account_hashes[i]);
    }
    assert(lists =~= answered_lists(bot, answers));
}

/// The accounts stand in the table in the order in which the bot has them.
pub proof fn law_gathered_in_account_order<V>(
    accounts: Seq<Seq<char>>,
    values: Seq<Option<V>>,
    value: V,
)
    requires
        values.len() < accounts.len(),
        forall|j: int, k: int|
            0 <= j < k < accounts.len() ==> #[trigger] accounts[j] != #[trigger] accounts[k],
    ensures
        gathered(accounts, values.push(None)) == gathered(accounts, values),
        gathered(accounts, values.push(Some(value))) == gathered(accounts, values).push(
            (accounts[values.len() as int], value),
        ),
{
    assert(values.push(None).drop_last() =~= values);
    assert(values.push(Some(value)).drop_last() =~= values);
    let account = accounts[values.len() as int];
    assert forall|j: int| 0 <= j < values.len() implies #[trigger] accounts[j] != account by {}
    lemma_gathered_bounds(accounts, values, account);
    crate::table::lemma_find(gathered(accounts, values), account);
}

/// What is said where the state could not be brought up to date tells what was missing.
pub proof fn law_update_failures_are_named()
    ensures
        update_message(UpdateError::NoApi) == "Schwab API client not initialized"@,
        update_message(UpdateError::NoBalances)
            == "Balance payloads were empty for all configured accounts"@,
        update_message(UpdateError::NoPositions)
            == "Unable to fetch positions for all configured accounts"@,
{
}

} // verus!
