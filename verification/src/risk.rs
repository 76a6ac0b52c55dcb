//! The checks that an order has to pass before it goes out.
use crate::bot::{BotView, TradingBot};
use crate::decimal::{
    abs, divide_half_even, law_round_half_even_is_nearest, round_half_even, Decimal,
};
use crate::format::{decimal_text, fixed, fixed_text, plain_text, to_fixed, to_plain};
use crate::table::lookup;
use vstd::prelude::*;

verus! {

/// Which way an order goes.
#[derive(Clone, Copy, Debug, PartialEq, Eq, Structural)]
pub enum Instruction {
    Buy,
    Sell,
}

/// Ten dollars, in units of a product of two numbers.
pub const MINIMUM_NOTIONAL: i128 = 100_000_000_000_000_000;

/// One hundredth, in units of a number.
pub const CAP_FACTOR: i128 = 1_000_000;

/// A millionth of a share, in units of a number.
pub const SHARE_TOLERANCE: i128 = 100;

/// Why an order was held back.
#[derive(Debug)]
pub enum RiskError {
    BuyBalances { reason: String },
    InsufficientCash { qty: Decimal, symbol: String, notional: i128, available: Decimal },
    RefreshBalances { reason: String },
    NoPortfolioValue,
    NoLongPosition { symbol: String, held: Decimal },
    SellExceedsHeld { qty: Decimal, available: Decimal, symbol: String },
    OverCap { symbol: String, projected: i128, threshold: i128, portfolio: Decimal },
    PriceDeviates { price: Decimal, tenths: i128, last: Decimal },
    TooSmall { notional: i128 },
}

pub enum RiskErrorView {
    BuyBalances { reason: Seq<char> },
    InsufficientCash { qty: Decimal, symbol: Seq<char>, notional: int, available: Decimal },
    RefreshBalances { reason: Seq<char> },
    NoPortfolioValue,
    NoLongPosition { symbol: Seq<char>, held: Decimal },
    SellExceedsHeld { qty: Decimal, available: Decimal, symbol: Seq<char> },
    OverCap { symbol: Seq<char>, projected: int, threshold: int, portfolio: Decimal },
    PriceDeviates { price: Decimal, tenths: int, last: Decimal },
    TooSmall { notional: int },
}

impl View for RiskError {
    type V = RiskErrorView;

    open spec fn view(&self) -> RiskErrorView {
        match *self {
            RiskError::BuyBalances { reason } => RiskErrorView::BuyBalances { reason: reason@ },
            RiskError::InsufficientCash { qty, symbol, notional, available } =>
                RiskErrorView::InsufficientCash {
                qty,
                symbol: symbol@,
                notional: notional as int,
                available,
            },
            RiskError::RefreshBalances { reason } => RiskErrorView::RefreshBalances {
                reason: reason@,
            },
            RiskError::NoPortfolioValue => RiskErrorView::NoPortfolioValue,
            RiskError::NoLongPosition { symbol, held } => RiskErrorView::NoLongPosition {
                symbol: symbol@,
                held,
            },
            RiskError::SellExceedsHeld { qty, available, symbol } =>
                RiskErrorView::SellExceedsHeld { qty, available, symbol: symbol@ },
            RiskError::OverCap { symbol, projected, threshold, portfolio } =>
                RiskErrorView::OverCap {
                symbol: symbol@,
                projected: projected as int,
                threshold: threshold as int,
                portfolio,
            },
            RiskError::PriceDeviates { price, tenths, last } => RiskErrorView::PriceDeviates {
                price,
                tenths: tenths as int,
                last,
            },
            RiskError::TooSmall { notional } => RiskErrorView::TooSmall {
                notional: notional as int,
            },
        }
    }
}

/// How far the checks have come.
pub enum RiskStep {
    /// The account's balances are wanted before the checks can go on.
    NeedBalances,
    Passed,
    Refused(RiskError),
}

pub enum RiskStepView {
    NeedBalances,
    Passed,
    Refused(RiskErrorView),
}

impl View for RiskStep {
    type V = RiskStepView;

    open spec fn view(&self) -> RiskStepView {
        match *self {
            RiskStep::NeedBalances => RiskStepView::NeedBalances,
            RiskStep::Passed => RiskStepView::Passed,
            RiskStep::Refused(e) => RiskStepView::Refused(e@),
        }
    }
}

/// What the broker said when asked for an account's balances.
pub type BalanceReply = Result<Vec<Decimal>, String>;

pub open spec fn balance_reply_view(reply: BalanceReply) -> Result<Seq<Decimal>, Seq<char>> {
    match reply {
        Ok(values) => Ok(values@),
        Err(reason) => Err(reason@),
    }
}

pub open spec fn opt_balance_reply_view(reply: Option<BalanceReply>) -> Option<
    Result<Seq<Decimal>, Seq<char>>,
> {
    match reply {
        Some(r) => Some(balance_reply_view(r)),
        None => None,
    }
}

pub open spec fn zero() -> Decimal {
    Decimal { units: 0 }
}

/// How much of the symbol the account holds, as last told.
pub open spec fn held_quantity(bot: BotView, account: Seq<char>, symbol: Seq<char>) -> Decimal {
    match lookup(bot.positions, account) {
        Some(held) => match lookup(held, symbol) {
            Some(quantity) => quantity,
            None => zero(),
        },
        None => zero(),
    }
}

/// The long part of what is held, in units.
pub open spec fn long_units(held: Decimal) -> int {
    if held.units > 0 {
        held.units as int
    } else {
        0
    }
}

/// The last price of the symbol, as last told.
pub open spec fn known_price(bot: BotView, symbol: Seq<char>) -> Option<Decimal> {
    match lookup(bot.prices, symbol) {
        Some(quote) => quote.last_price,
        None => None,
    }
}

/// The portfolio value of the account, as last told.
pub open spec fn cached_value(bot: BotView, account: Seq<char>) -> Decimal {
    match lookup(bot.balances, account) {
        Some(value) => value,
        None => zero(),
    }
}

/// Whether the checks cannot be made without asking for the account's balances: for the cash of a
/// buy, and where no portfolio value is known.
pub open spec fn wants_balances(
    bot: BotView,
    account: Seq<char>,
    instruction: Instruction,
) -> bool {
    instruction is Buy || cached_value(bot, account).units <= 0
}

/// The cash that a list of balances starts with.
pub open spec fn cash_of(balances: Seq<Decimal>) -> Decimal {
    if balances.len() > 0 {
        balances[0]
    } else {
        zero()
    }
}

/// The figure in a list of balances that stands in for a portfolio value that is not known: the
/// second, which is the liquidation value of a cash account and the buying power of a margin
/// account, or the only one.
pub open spec fn value_of(balances: Seq<Decimal>) -> Decimal {
    if balances.len() > 1 {
        balances[1]
    } else {
        cash_of(balances)
    }
}

/// The portfolio value that the order is measured by: the one that is known, or else the figure in
/// the balances that stands in for it.
pub open spec fn portfolio_of(
    bot: BotView,
    account: Seq<char>,
    balances: Seq<Decimal>,
) -> Decimal {
    if cached_value(bot, account).units > 0 {
        cached_value(bot, account)
    } else {
        value_of(balances)
    }
}

/// What the position would be worth after a buy, in units of a product.
pub open spec fn projected_notional(
    bot: BotView,
    account: Seq<char>,
    symbol: Seq<char>,
    qty: Decimal,
    price: Decimal,
) -> int {
    let reference = match known_price(bot, symbol) {
        Some(last) => last,
        None => price,
    };
    long_units(held_quantity(bot, account, symbol)) * reference.units + qty.units * price.units
}

/// By how many tenths of a percent `price` lies off `last`.
pub open spec fn deviation_tenths(price: Decimal, last: Decimal) -> int {
    round_half_even(abs(price.units - last.units) * 1000, last.units as int)
}

/// The first check that the order fails, given the account's balances or why they could not be
/// had, if any.
pub open spec fn first_failure(
    bot: BotView,
    account: Seq<char>,
    symbol: Seq<char>,
    instruction: Instruction,
    qty: Decimal,
    price: Decimal,
    reply: Result<Seq<Decimal>, Seq<char>>,
) -> Option<RiskErrorView> {
    let balances = match reply {
        Ok(values) => values,
        Err(_) => Seq::empty(),
    };
    let notional = qty.units * price.units;
    let cached = cached_value(bot, account);
    let portfolio = portfolio_of(bot, account, balances);
    let held = held_quantity(bot, account, symbol);
    let available = Decimal { units: long_units(held) as i64 };
    let projected = projected_notional(bot, account, symbol, qty, price);
    if instruction is Buy && reply is Err {
        Some(RiskErrorView::BuyBalances { reason: reply->Err_0 })
    } else if instruction is Buy && cash_of(balances).units * 100_000_000 < notional {
        Some(
            RiskErrorView::InsufficientCash {
                qty,
                symbol,
                notional,
                available: cash_of(balances),
            },
        )
    } else if cached.units <= 0 && reply is Err {
        Some(RiskErrorView::RefreshBalances { reason: reply->Err_0 })
    } else if portfolio.units <= 0 {
        Some(RiskErrorView::NoPortfolioValue)
    } else if instruction is Sell && available.units <= 0 {
        Some(RiskErrorView::NoLongPosition { symbol, held })
    } else if instruction is Sell && qty.units - available.units > SHARE_TOLERANCE {
        Some(RiskErrorView::SellExceedsHeld { qty, available, symbol })
    } else if instruction is Buy && projected > portfolio.units * CAP_FACTOR {
        Some(
            RiskErrorView::OverCap {
                symbol,
                projected,
                threshold: portfolio.units * CAP_FACTOR,
                portfolio,
            },
        )
    } else if known_price(bot, symbol) matches Some(last) && last.units > 0 && 5 * abs(
        price.units - last.units,
    ) > last.units {
        let last = known_price(bot, symbol)->0;
        Some(RiskErrorView::PriceDeviates { price, tenths: deviation_tenths(price, last), last })
    } else if notional < MINIMUM_NOTIONAL {
        Some(RiskErrorView::TooSmall { notional })
    } else {
        None
    }
}

/// How far the checks come with what is known of the balances.
pub open spec fn risk_step(
    bot: BotView,
    account: Seq<char>,
    symbol: Seq<char>,
    instruction: Instruction,
    qty: Decimal,
    price: Decimal,
    reply: Option<Result<Seq<Decimal>, Seq<char>>>,
) -> RiskStepView {
    if wants_balances(bot, account, instruction) && reply is None {
        RiskStepView::NeedBalances
    } else {
        let known = match reply {
            Some(r) => r,
            None => Ok(Seq::empty()),
        };
        match first_failure(bot, account, symbol, instruction, qty, price, known) {
            Some(e) => RiskStepView::Refused(e),
            None => RiskStepView::Passed,
        }
    }
}

/// What is said of an order that was held back.
pub open spec fn risk_message(e: RiskErrorView) -> Seq<char> {
    match e {
        RiskErrorView::BuyBalances { reason } =>
            "Unable to fetch balances for BUY risk check: "@ + reason,
        RiskErrorView::InsufficientCash { qty, symbol, notional, available } =>
            "Insufficient cash to buy "@ + plain_text(qty) + " shares of "@ + symbol + " for $"@
            + fixed(notional, 16, 2) + "; available $"@ + decimal_text(available, 2),
        RiskErrorView::RefreshBalances { reason } =>
            "Unable to refresh balances for risk check: "@ + reason,
        RiskErrorView::NoPortfolioValue => "Unable to determine portfolio value for risk checks"@,
        RiskErrorView::NoLongPosition { symbol, held } => "Cannot sell "@ + symbol
            + " when no long position exists (current qty: "@ + decimal_text(held, 2) + ")"@,
        RiskErrorView::SellExceedsHeld { qty, available, symbol } => "Sell quantity "@
            + decimal_text(qty, 2) + " exceeds held amount "@ + decimal_text(available, 2)
            + " for "@ + symbol,
        RiskErrorView::OverCap { symbol, projected, threshold, portfolio } =>
            "Order would raise "@ + symbol + " exposure to $"@ + fixed(projected, 16, 2)
            + ", > 1% cap ($"@ + fixed(threshold, 16, 2) + ") on portfolio $"@ + decimal_text(
            portfolio,
            2,
        ),
        RiskErrorView::PriceDeviates { price, tenths, last } => "Limit price $"@ + decimal_text(
            price,
            2,
        ) + " deviates "@ + fixed(tenths, 1, 1) + "% from last price $"@ + decimal_text(last, 2),
        RiskErrorView::TooSmall { notional } => "Order notional $"@ + fixed(notional, 16, 2)
            + " is below the minimum trade size threshold"@,
    }
}

impl RiskError {
    /// What is said of the order that was held back.
    pub fn message(&self) -> (r: String)
        ensures
            r@ == risk_message(self@),
    {
        let mut r: String = String::new();
        match self {
            RiskError::BuyBalances { reason } => {
                r.append("Unable to fetch balances for BUY risk check: ");
                r.append(reason.as_str());
            },
            RiskError::InsufficientCash { qty, symbol, notional, available } => {
                r.append("Insufficient cash to buy ");
                r.append(to_plain(*qty).as_str());
                r.append(" shares of ");
                r.append(symbol.as_str());
                r.append(" for $");
                r.append(fixed_text(*notional, 16, 2).as_str());
                r.append("; available $");
                r.append(to_fixed(*available, 2).as_str());
            },
            RiskError::RefreshBalances { reason } => {
                r.append("Unable to refresh balances for risk check: ");
                r.append(reason.as_str());
            },
            RiskError::NoPortfolioValue => {
                r.append("Unable to determine portfolio value for risk checks");
            },
            RiskError::NoLongPosition { symbol, held } => {
                r.append("Cannot sell ");
                r.append(symbol.as_str());
                r.append(" when no long position exists (current qty: ");
                r.append(to_fixed(*held, 2).as_str());
                r.append(")");
            },
            RiskError::SellExceedsHeld { qty, available, symbol } => {
                r.append("Sell quantity ");
                r.append(to_fixed(*qty, 2).as_str());
                r.append(" exceeds held amount ");
                r.append(to_fixed(*available, 2).as_str());
                r.append(" for ");
                r.append(symbol.as_str());
            },
            RiskError::OverCap { symbol, projected, threshold, portfolio } => {
                r.append("Order would raise ");
                r.append(symbol.as_str());
                r.append(" exposure to $");
                r.append(fixed_text(*projected, 16, 2).as_str());
                r.append(", > 1% cap ($");
                r.append(fixed_text(*threshold, 16, 2).as_str());
                r.append(") on portfolio $");
                r.append(to_fixed(*portfolio, 2).as_str());
            },
            RiskError::PriceDeviates { price, tenths, last } => {
                r.append("Limit price $");
                r.append(to_fixed(*price, 2).as_str());
                r.append(" deviates ");
                r.append(fixed_text(*tenths, 1, 1).as_str());
                r.append("% from last price $");
                r.append(to_fixed(*last, 2).as_str());
            },
            RiskError::TooSmall { notional } => {
                r.append("Order notional $");
                r.append(fixed_text(*notional, 16, 2).as_str());
                r.append(" is below the minimum trade size threshold");
            },
        }
        assert(r@ =~= risk_message(self@));
        r
    }
}

impl TradingBot {
    fn held(&self, account_hash: &str, symbol: &str) -> (r: Decimal)
        ensures
            r == held_quantity(self@, account_hash@, symbol@),
    {
        match self.positions.get(account_hash) {
            Some(held) => match held.get(symbol) {
                Some(quantity) => *quantity,
                None => Decimal::zero(),
            },
            None => Decimal::zero(),
        }
    }

    fn price_of(&self, symbol: &str) -> (r: Option<Decimal>)
        ensures
            r == known_price(self@, symbol@),
    {
        match self.real_time_prices.get(symbol) {
            Some(quote) => quote.last_price,
            None => None,
        }
    }

    fn portfolio_value(&self, account_hash: &str) -> (r: Decimal)
        ensures
            r == cached_value(self@, account_hash@),
    {
        match self.account_balances.get(account_hash) {
            Some(value) => *value,
            None => Decimal::zero(),
        }
    }

    /// Checks an order against cash, position size, holdings, price and minimum size.
    ///
    /// Without a reply on the account's balances the checks may stop and ask for one; with a
    /// reply they always come to an end.
    pub fn evaluate_order_risks(
        &self,
        account_hash: &str,
        symbol: &str,
        instruction: Instruction,
        qty: Decimal,
        limit_price: Decimal,
        reply: &Option<BalanceReply>,
    ) -> (r: RiskStep)
        ensures
            r@ == risk_step(
                self@,
                account_hash@,
                symbol@,
                instruction,
                qty,
                limit_price,
                opt_balance_reply_view(*reply),
            ),
    {
        let buying: bool = match instruction {
            Instruction::Buy => true,
            Instruction::Sell => false,
        };
        proof {
            lemma_product_range(qty.units as int, limit_price.units as int);
        }
        let order_notional: i128 = qty.units as i128 * limit_price.units as i128;
        let cached: Decimal = self.portfolio_value(account_hash);

        // Cash for a buy, and a portfolio value where none is known.
        let mut portfolio: Decimal = cached;
        if buying || cached.units <= 0 {
            match reply {
                None => {
                    return RiskStep::NeedBalances;
                },
                Some(Err(reason)) => {
                    return RiskStep::Refused(
                        if buying {
                            RiskError::BuyBalances { reason: reason.clone() }
                        } else {
                            RiskError::RefreshBalances { reason: reason.clone() }
                        },
                    );
                },
                Some(Ok(balances)) => {
                    let cash: Decimal = if balances.len() > 0 {
                        balances[0]
                    } else {
                        Decimal::zero()
                    };
                    if buying && cash.units as i128 * 100_000_000 < order_notional {
                        return RiskStep::Refused(
                            RiskError::InsufficientCash {
                                qty,
                                symbol: symbol.to_owned(),
                                notional: order_notional,
                                available: cash,
                            },
                        );
                    }
                    if cached.units <= 0 {
                        portfolio =
                        if balances.len() > 1 {
                            balances[1]
                        } else {
                            cash
                        };
                    }
                },
            }
        }
        if portfolio.units <= 0 {
            return RiskStep::Refused(RiskError::NoPortfolioValue);
        }
        let held: Decimal = self.held(account_hash, symbol);
        let available: Decimal = if held.units > 0 {
            held
        } else {
            Decimal::zero()
        };
        let last_price: Option<Decimal> = self.price_of(symbol);
        if buying {
            let reference: Decimal = match last_price {
                Some(last) => last,
                None => limit_price,
            };
            proof {
                lemma_product_range(available.units as int, reference.units as int);
            }
            let projected: i128 = available.units as i128 * reference.units as i128
                + order_notional;
            let threshold: i128 = portfolio.units as i128 * 1_000_000;
            if projected > threshold {
                return RiskStep::Refused(
                    RiskError::OverCap {
                        symbol: symbol.to_owned(),
                        projected,
                        threshold,
                        portfolio,
                    },
                );
            }
        } else {
            if available.units <= 0 {
                return RiskStep::Refused(
                    RiskError::NoLongPosition { symbol: symbol.to_owned(), held },
                );
            }
            if qty.units as i128 - available.units as i128 > SHARE_TOLERANCE {
                return RiskStep::Refused(
                    RiskError::SellExceedsHeld { qty, available, symbol: symbol.to_owned() },
                );
            }
        }
        if let Some(last) = last_price {
            let gap: i128 = limit_price.units as i128 - last.units as i128;
            let size: i128 = if gap < 0 {
                -gap
            } else {
                gap
            };
            if last.units > 0 && 5 * size > last.units as i128 {
                let tenths: u128 = divide_half_even(size as u128 * 1000, last.units as u128);
                proof {
                    lemma_quotient_range(size * 1000, last.units as int);
                }
                return RiskStep::Refused(
                    RiskError::PriceDeviates { price: limit_price, tenths: tenths as i128, last },
                );
            }
        }
        if order_notional < MINIMUM_NOTIONAL {
            return RiskStep::Refused(RiskError::TooSmall { notional: order_notional });
        }
        RiskStep::Passed
    }
}

proof fn lemma_product_range(a: int, b: int)
    requires
        i64::MIN <= a <= i64::MAX,
        i64::MIN <= b <= i64::MAX,
    ensures
        -0x3fff_ffff_ffff_ffff_8000_0000_0000_0000 <= a * b
            <= 0x4000_0000_0000_0000_0000_0000_0000_0000,
        a >= 0 ==> a * b <= 0x3fff_ffff_ffff_ffff_8000_0000_0000_0000,
{
    assert(-0x3fff_ffff_ffff_ffff_8000_0000_0000_0000 <= a * b
        <= 0x4000_0000_0000_0000_0000_0000_0000_0000) by (nonlinear_arith)
        requires
            -0x8000_0000_0000_0000 <= a <= 0x7fff_ffff_ffff_ffff,
            -0x8000_0000_0000_0000 <= b <= 0x7fff_ffff_ffff_ffff,
    ;
    if a >= 0 {
        assert(a * b <= 0x3fff_ffff_ffff_ffff_8000_0000_0000_0000) by (nonlinear_arith)
            requires
                0 <= a <= 0x7fff_ffff_ffff_ffff,
                -0x8000_0000_0000_0000 <= b <= 0x7fff_ffff_ffff_ffff,
        ;
    }
}

proof fn lemma_quotient_range(n: int, d: int)
    requires
        n >= 0,
        d > 0,
    ensures
        0 <= round_half_even(n, d) <= n + 1,
{
    assert(0 <= n / d <= n) by (nonlinear_arith)
        requires
            n >= 0,
            d > 0,
    ;
}

/// A buy that passes is covered by cash, keeps the position within one hundredth of the portfolio
/// value that it is measured by, is priced within a fifth of the last price, and is worth at least
/// ten dollars.
pub proof fn law_passed_buy(
    bot: BotView,
    account: Seq<char>,
    symbol: Seq<char>,
    qty: Decimal,
    price: Decimal,
    reply: Option<Result<Seq<Decimal>, Seq<char>>>,
)
    requires
        risk_step(bot, account, symbol, Instruction::Buy, qty, price, reply) is Passed,
    ensures
        reply matches Some(Ok(balances)) && {
            &&& qty.units * price.units <= cash_of(balances).units * 100_000_000
            &&& portfolio_of(bot, account, balances).units > 0
            &&& 100 * projected_notional(bot, account, symbol, qty, price) <= portfolio_of(
                bot,
                account,
                balances,
            ).units * 100_000_000
        },
        known_price(bot, symbol) matches Some(last) ==> (last.units > 0 ==> 5 * abs(
            price.units - last.units,
        ) <= last.units),
        qty.units * price.units >= MINIMUM_NOTIONAL,
{
}

/// A sell that passes is held in the account, to within a millionth of a share, is priced within
/// a fifth of the last price, and is worth at least ten dollars.
pub proof fn law_passed_sell(
    bot: BotView,
    account: Seq<char>,
    symbol: Seq<char>,
    qty: Decimal,
    price: Decimal,
    reply: Option<Result<Seq<Decimal>, Seq<char>>>,
)
    requires
        risk_step(bot, account, symbol, Instruction::Sell, qty, price, reply) is Passed,
    ensures
        held_quantity(bot, account, symbol).units > 0,
        qty.units <= held_quantity(bot, account, symbol).units + SHARE_TOLERANCE,
        known_price(bot, symbol) matches Some(last) ==> (last.units > 0 ==> 5 * abs(
            price.units - last.units,
        ) <= last.units),
        qty.units * price.units >= MINIMUM_NOTIONAL,
{
}

/// With a reply on the balances the checks never ask for one again.
pub proof fn law_one_reply_is_enough(
    bot: BotView,
    account: Seq<char>,
    symbol: Seq<char>,
    instruction: Instruction,
    qty: Decimal,
    price: Decimal,
    reply: Result<Seq<Decimal>, Seq<char>>,
)
    ensures
        !(risk_step(bot, account, symbol, instruction, qty, price, Some(reply)) is NeedBalances),
{
}

/// A buy that passes would also have passed for fewer shares, down to the minimum size, while
/// the price stays.
pub proof fn law_smaller_buy_passes(
    bot: BotView,
    account: Seq<char>,
    symbol: Seq<char>,
    qty: Decimal,
    fewer: Decimal,
    price: Decimal,
    reply: Option<Result<Seq<Decimal>, Seq<char>>>,
)
    requires
        risk_step(bot, account, symbol, Instruction::Buy, qty, price, reply) is Passed,
        fewer.units <= qty.units,
        price.units > 0,
        fewer.units * price.units >= MINIMUM_NOTIONAL,
    ensures
        risk_step(bot, account, symbol, Instruction::Buy, fewer, price, reply) is Passed,
{
    assert(fewer.units * price.units <= qty.units * price.units) by (nonlinear_arith)
        requires
            fewer.units <= qty.units,
            price.units > 0,
    ;
}

/// The shares of a symbol that an account holds, in units; none where nothing is known.
pub open spec fn shares_held(bot: BotView, account: Seq<char>, symbol: Seq<char>) -> int {
    if lookup(bot.positions, account) is Some && lookup(
        lookup(bot.positions, account)->0,
        symbol,
    ) is Some {
        lookup(lookup(bot.positions, account)->0, symbol)->0.units as int
    } else {
        0
    }
}

/// The value that the cap of an order is taken of, in units: the account's known portfolio value
/// where it is positive, or else the second of its balances, or the only one.
pub open spec fn value_for_cap(bot: BotView, account: Seq<char>, balances: Seq<Decimal>) -> int {
    if lookup(bot.balances, account) is Some && lookup(bot.balances, account)->0.units > 0 {
        lookup(bot.balances, account)->0.units as int
    } else if balances.len() >= 2 {
        balances[1].units as int
    } else if balances.len() == 1 {
        balances[0].units as int
    } else {
        0
    }
}

/// Whether a limit price lies within a fifth of the last price, where a positive one is known.
pub open spec fn price_in_band(bot: BotView, symbol: Seq<char>, price: Decimal) -> bool {
    lookup(bot.prices, symbol) matches Some(quote) ==> (quote.last_price matches Some(last) ==> (
    last.units > 0 ==> 4 * last.units <= 5 * price.units && 5 * price.units <= 6 * last.units))
}

/// What a buy would make the account's long shares of the symbol worth, counting the ones it holds
/// at the last price, or at the limit where no last price is known.
pub open spec fn worth_after_buy(
    bot: BotView,
    account: Seq<char>,
    symbol: Seq<char>,
    qty: Decimal,
    price: Decimal,
) -> int {
    let held = shares_held(bot, account, symbol);
    let long = if held > 0 {
        held
    } else {
        0
    };
    if lookup(bot.prices, symbol) is Some && lookup(bot.prices, symbol)->0.last_price is Some {
        long * lookup(bot.prices, symbol)->0.last_price->0.units + qty.units * price.units
    } else {
        long * price.units + qty.units * price.units
    }
}

/// A buy passes just where it costs no more than the first of the account's balances, whatever the
/// others are, leaves the symbol worth at most a hundredth of the portfolio value, is priced within
/// a fifth of the last price, and costs at least ten dollars.
pub proof fn law_buy_passes_exactly(
    bot: BotView,
    account: Seq<char>,
    symbol: Seq<char>,
    qty: Decimal,
    price: Decimal,
    balances: Seq<Decimal>,
)
    ensures
        risk_step(
            bot,
            account,
            symbol,
            Instruction::Buy,
            qty,
            price,
            Some(Ok(balances)),
        ) is Passed <==> {
            &&& balances.len() > 0
            &&& qty.units * price.units <= balances[0].units * 100_000_000
            &&& value_for_cap(bot, account, balances) > 0
            &&& 100 * worth_after_buy(bot, account, symbol, qty, price) <= value_for_cap(
                bot,
                account,
                balances,
            ) * 100_000_000
            &&& price_in_band(bot, symbol, price)
            &&& qty.units * price.units >= 10 * 100_000_000 * 100_000_000
        },
{
    lemma_worth_after_buy(bot, account, symbol, qty, price);
}

proof fn lemma_worth_after_buy(
    bot: BotView,
    account: Seq<char>,
    symbol: Seq<char>,
    qty: Decimal,
    price: Decimal,
)
    ensures
        worth_after_buy(bot, account, symbol, qty, price) == projected_notional(
            bot,
            account,
            symbol,
            qty,
            price,
        ),
{
}

/// A buy that costs more than the first of the account's balances, or anything where there are
/// none, is refused for want of cash before all else, with what it costs and what there is.
pub proof fn law_buy_beyond_cash_is_refused(
    bot: BotView,
    account: Seq<char>,
    symbol: Seq<char>,
    qty: Decimal,
    price: Decimal,
    balances: Seq<Decimal>,
    cash: Decimal,
)
    requires
        balances.len() > 0 ==> cash == balances[0],
        balances.len() == 0 ==> cash.units == 0,
    ensures
        qty.units * price.units > cash.units * 100_000_000 <==> risk_step(
            bot,
            account,
            symbol,
            Instruction::Buy,
            qty,
            price,
            Some(Ok(balances)),
        ) == RiskStepView::Refused(
            RiskErrorView::InsufficientCash {
                qty,
                symbol,
                notional: qty.units * price.units,
                available: cash,
            },
        ),
{
    assert(cash == Decimal { units: cash.units });
}

/// A buy that its cash covers is refused for the first of these that holds: no portfolio value is
/// known, the symbol would be worth more than a hundredth of it, the price lies more than a fifth
/// off the last one, or it costs less than ten dollars.
pub proof fn law_covered_buy_is_refused_in_order(
    bot: BotView,
    account: Seq<char>,
    symbol: Seq<char>,
    qty: Decimal,
    price: Decimal,
    balances: Seq<Decimal>,
)
    requires
        balances.len() > 0,
        qty.units * price.units <= balances[0].units * 100_000_000,
    ensures
        ({
            let step = risk_step(
                bot,
                account,
                symbol,
                Instruction::Buy,
                qty,
                price,
                Some(Ok(balances)),
            );
            let value = value_for_cap(bot, account, balances);
            let worth = worth_after_buy(bot, account, symbol, qty, price);
            let in_cap = 100 * worth <= value * 100_000_000;
            &&& value <= 0 <==> step == RiskStepView::Refused(RiskErrorView::NoPortfolioValue)
            &&& value > 0 && !in_cap ==> step == RiskStepView::Refused(
                RiskErrorView::OverCap {
                    symbol,
                    projected: worth,
                    threshold: value * 1_000_000,
                    portfolio: Decimal { units: value as i64 },
                },
            )
            &&& value > 0 && in_cap && !price_in_band(bot, symbol, price) ==> (step matches
                RiskStepView::Refused(RiskErrorView::PriceDeviates { price: p, tenths, last })
                && p == price && lookup(bot.prices, symbol)->0.last_price == Some(last)
                && tenths_off(price, last, tenths))
            &&& value > 0 && in_cap && price_in_band(bot, symbol, price) && qty.units * price.units
                < 10 * 100_000_000 * 100_000_000 ==> step == RiskStepView::Refused(
                RiskErrorView::TooSmall { notional: qty.units * price.units },
            )
        }),
{
    lemma_worth_after_buy(bot, account, symbol, qty, price);
    lemma_tenths_off(bot, symbol, price);
    assert(portfolio_of(bot, account, balances) == Decimal {
        units: portfolio_of(bot, account, balances).units,
    });
}

/// Whether so many tenths of a percent are the nearest to how far a price lies off another.
pub open spec fn tenths_off(price: Decimal, last: Decimal, tenths: int) -> bool {
    let gap = if price.units < last.units {
        last.units - price.units
    } else {
        price.units - last.units
    };
    -last.units <= 2 * (tenths * last.units - 1000 * gap) <= last.units
}

proof fn lemma_tenths_off(bot: BotView, symbol: Seq<char>, price: Decimal)
    ensures
        known_price(bot, symbol) matches Some(last) ==> (last.units > 0 ==> tenths_off(
            price,
            last,
            deviation_tenths(price, last),
        )),
{
    if let Some(last) = known_price(bot, symbol) {
        if last.units > 0 {
            law_round_half_even_is_nearest(
                abs(price.units - last.units) * 1000,
                last.units as int,
            );
        }
    }
}

/// Without an answer on the balances a buy asks for one, and where the answer is a failure it is
/// refused for that reason.
pub proof fn law_buy_needs_its_balances(
    bot: BotView,
    account: Seq<char>,
    symbol: Seq<char>,
    qty: Decimal,
    price: Decimal,
    reason: Seq<char>,
)
    ensures
        risk_step(bot, account, symbol, Instruction::Buy, qty, price, None) is NeedBalances,
        risk_step(bot, account, symbol, Instruction::Buy, qty, price, Some(Err(reason)))
            == RiskStepView::Refused(RiskErrorView::BuyBalances { reason }),
{
}

/// A sell passes just where the portfolio value is known, the account holds the shares, to within a
/// millionth of one, the price lies within a fifth of the last one, and they fetch at least ten
/// dollars.
pub proof fn law_sell_passes_exactly(
    bot: BotView,
    account: Seq<char>,
    symbol: Seq<char>,
    qty: Decimal,
    price: Decimal,
    balances: Seq<Decimal>,
)
    ensures
        risk_step(
            bot,
            account,
            symbol,
            Instruction::Sell,
            qty,
            price,
            Some(Ok(balances)),
        ) is Passed <==> {
            &&& value_for_cap(bot, account, balances) > 0
            &&& shares_held(bot, account, symbol) > 0
            &&& qty.units - shares_held(bot, account, symbol) <= 100
            &&& price_in_band(bot, symbol, price)
            &&& qty.units * price.units >= 10 * 100_000_000 * 100_000_000
        },
{
}

/// A sell is refused for the first of these that holds: no portfolio value is known, the account
/// holds no long shares, it holds too few, the price lies more than a fifth off the last one, or
/// the shares fetch less than ten dollars.
pub proof fn law_sell_is_refused_in_order(
    bot: BotView,
    account: Seq<char>,
    symbol: Seq<char>,
    qty: Decimal,
    price: Decimal,
    balances: Seq<Decimal>,
)
    ensures
        ({
            let step = risk_step(
                bot,
                account,
                symbol,
                Instruction::Sell,
                qty,
                price,
                Some(Ok(balances)),
            );
            let value = value_for_cap(bot, account, balances);
            let held = shares_held(bot, account, symbol);
            &&& value <= 0 <==> step == RiskStepView::Refused(RiskErrorView::NoPortfolioValue)
            &&& value > 0 && held <= 0 ==> step == RiskStepView::Refused(
                RiskErrorView::NoLongPosition { symbol, held: Decimal { units: held as i64 } },
            )
            &&& value > 0 && held > 0 && qty.units - held > 100 ==> step == RiskStepView::Refused(
                RiskErrorView::SellExceedsHeld {
                    qty,
                    available: Decimal { units: held as i64 },
                    symbol,
                },
            )
            &&& value > 0 && held > 0 && qty.units - held <= 100 && !price_in_band(
                bot,
                symbol,
                price,
            ) ==> (step matches RiskStepView::Refused(
                RiskErrorView::PriceDeviates { price: p, tenths, last },
            ) && p == price && lookup(bot.prices, symbol)->0.last_price == Some(last)
                && tenths_off(price, last, tenths))
            &&& value > 0 && held > 0 && qty.units - held <= 100 && price_in_band(
                bot,
                symbol,
                price,
            ) && qty.units * price.units < 10 * 100_000_000 * 100_000_000 ==> step
                == RiskStepView::Refused(
                RiskErrorView::TooSmall { notional: qty.units * price.units },
            )
        }),
{
    lemma_tenths_off(bot, symbol, price);
    let held = held_quantity(bot, account, symbol);
    assert(held == Decimal { units: held.units });
}

/// A sell from an account with a known portfolio value asks for no balances and hears none; from
/// any other account it asks, and where the answer is a failure it is refused for that reason.
pub proof fn law_sell_asks_only_for_an_unknown_value(
    bot: BotView,
    account: Seq<char>,
    symbol: Seq<char>,
    qty: Decimal,
    price: Decimal,
    reply: Option<Result<Seq<Decimal>, Seq<char>>>,
    reason: Seq<char>,
)
    ensures
        ({
            let known = lookup(bot.balances, account) matches Some(value) && value.units > 0;
            &&& known ==> risk_step(bot, account, symbol, Instruction::Sell, qty, price, reply)
                == risk_step(
                bot,
                account,
                symbol,
                Instruction::Sell,
                qty,
                price,
                Some(Ok(Seq::empty())),
            )
            &&& !known ==> risk_step(bot, account, symbol, Instruction::Sell, qty, price, None)
                is NeedBalances
            &&& !known ==> risk_step(
                bot,
                account,
                symbol,
                Instruction::Sell,
                qty,
                price,
                Some(Err(reason)),
            ) == RiskStepView::Refused(RiskErrorView::RefreshBalances { reason })
        }),
{
}

/// The checks look at nothing but the account's holding of the symbol, its last price and the
/// account's portfolio value.
pub proof fn law_checks_ignore_the_rest(
    a: BotView,
    b: BotView,
    account: Seq<char>,
    symbol: Seq<char>,
    instruction: Instruction,
    qty: Decimal,
    price: Decimal,
    reply: Option<Result<Seq<Decimal>, Seq<char>>>,
)
    requires
        shares_held(a, account, symbol) == shares_held(b, account, symbol),
        lookup(a.balances, account) == lookup(b.balances, account),
        lookup(a.prices, symbol) == lookup(b.prices, symbol),
    ensures
        risk_step(a, account, symbol, instruction, qty, price, reply) == risk_step(
            b,
            account,
            symbol,
            instruction,
            qty,
            price,
            reply,
        ),
{
    let x = held_quantity(a, account, symbol);
    let y = held_quantity(b, account, symbol);
    assert(x == Decimal { units: x.units });
    assert(y == Decimal { units: y.units });
}

/// What is said of a refused order names its figures: amounts in dollars and cents, shares as they
/// are, and how far a price is off in tenths of a percent.
pub proof fn law_refusals_name_their_figures(
    qty: Decimal,
    symbol: Seq<char>,
    notional: int,
    cash: Decimal,
    held: Decimal,
    projected: int,
    threshold: int,
    price: Decimal,
    tenths: int,
    reason: Seq<char>,
)
    ensures
        risk_message(
            RiskErrorView::InsufficientCash { qty, symbol, notional, available: cash },
        ) == "Insufficient cash to buy "@ + plain_text(qty) + " shares of "@ + symbol + " for $"@
            + fixed(notional, 16, 2) + "; available $"@ + fixed(cash.units as int, 8, 2),
        risk_message(RiskErrorView::BuyBalances { reason })
            == "Unable to fetch balances for BUY risk check: "@ + reason,
        risk_message(RiskErrorView::RefreshBalances { reason })
            == "Unable to refresh balances for risk check: "@ + reason,
        risk_message(RiskErrorView::NoPortfolioValue)
            == "Unable to determine portfolio value for risk checks"@,
        risk_message(RiskErrorView::NoLongPosition { symbol, held }) == "Cannot sell "@ + symbol
            + " when no long position exists (current qty: "@ + fixed(held.units as int, 8, 2)
            + ")"@,
        risk_message(RiskErrorView::SellExceedsHeld { qty, available: held, symbol })
            == "Sell quantity "@ + fixed(qty.units as int, 8, 2) + " exceeds held amount "@ + fixed(
            held.units as int,
            8,
            2,
        ) + " for "@ + symbol,
        risk_message(RiskErrorView::OverCap { symbol, projected, threshold, portfolio: held })
            == "Order would raise "@ + symbol + " exposure to $"@ + fixed(projected, 16, 2)
            + ", > 1% cap ($"@ + fixed(threshold, 16, 2) + ") on portfolio $"@ + fixed(
            held.units as int,
            8,
            2,
        ),
        risk_message(RiskErrorView::PriceDeviates { price, tenths, last: held }) == "Limit price $"@
            + fixed(price.units as int, 8, 2) + " deviates "@ + fixed(tenths, 1, 1)
            + "% from last price $"@ + fixed(held.units as int, 8, 2),
        risk_message(RiskErrorView::TooSmall { notional }) == "Order notional $"@ + fixed(
            notional,
            16,
            2,
        ) + " is below the minimum trade size threshold"@,
{
}

/// The views of refusals show their fields under their own names.
pub proof fn law_risk_views_show_fields(e: RiskError, s: RiskStep)
    ensures
        e matches RiskError::BuyBalances { reason } ==> e@ == (RiskErrorView::BuyBalances {
            reason: reason@,
        }),
        e matches RiskError::InsufficientCash { qty, symbol, notional, available } ==> e@
            == (RiskErrorView::InsufficientCash {
            qty,
            symbol: symbol@,
            notional: notional as int,
            available,
        }),
        e matches RiskError::RefreshBalances { reason } ==> e@ == (RiskErrorView::RefreshBalances {
            reason: reason@,
        }),
        e is NoPortfolioValue ==> e@ is NoPortfolioValue,
        e matches RiskError::NoLongPosition { symbol, held } ==> e@
            == (RiskErrorView::NoLongPosition { symbol: symbol@, held }),
        e matches RiskError::SellExceedsHeld { qty, available, symbol } ==> e@
            == (RiskErrorView::SellExceedsHeld { qty, available, symbol: symbol@ }),
        e matches RiskError::OverCap { symbol, projected, threshold, portfolio } ==> e@
            == (RiskErrorView::OverCap {
            symbol: symbol@,
            projected: projected as int,
            threshold: threshold as int,
            portfolio,
        }),
        e matches RiskError::PriceDeviates { price, tenths, last } ==> e@
            == (RiskErrorView::PriceDeviates { price, tenths: tenths as int, last }),
        e matches RiskError::TooSmall { notional } ==> e@ == (RiskErrorView::TooSmall {
            notional: notional as int,
        }),
        s is NeedBalances ==> s@ is NeedBalances,
        s is Passed ==> s@ is Passed,
        s matches RiskStep::Refused(x) ==> s@ == RiskStepView::Refused(x@),
{
}

/// An answer on balances is taken as it is given.
pub proof fn law_balance_answers_are_seen_whole(values: Vec<Decimal>, reason: String)
    ensures
        opt_balance_reply_view(None) is None,
        opt_balance_reply_view(Some(Ok(values))) == Some(
            Ok::<Seq<Decimal>, Seq<char>>(values@),
        ),
        opt_balance_reply_view(Some(Err(reason))) == Some(
            Err::<Seq<Decimal>, Seq<char>>(reason@),
        ),
{
}

} // verus!
