//! One run of the strategy.
use crate::bot::{BotView, TradingBot};
use crate::format::fixed;
use crate::models::{SignalInfo, SignalView};
use crate::quotes::{distinct_names, with_quotes, QuoteReply};
use crate::signals::{
    describe_signal, plan_of, plan_signal, signal_text, signals_of, SignalPlan, SignalPlanView,
};
use crate::table::Table;
use crate::text::{prefix, take_prefix};
use crate::update::{
    with_account_info, with_positions, AccountBalance, AccountPositions, UpdateError,
};
use vstd::prelude::*;

verus! {

/// What the run has come to.
#[derive(Debug)]
pub enum StrategyEvent {
    Start,
    /// The answers on the accounts' balances are there.
    Balances(Vec<AccountBalance>),
    /// The answers on the accounts' positions are there.
    Positions(Vec<AccountPositions>),
    /// The replies on the symbols to quote are there.
    Quotes(Vec<QuoteReply>),
    /// The signals were acted on, each in turn. Of each it is told what became of its order; where
    /// none was sent, nothing failed.
    Acted { signals: Vec<PlannedSignal>, outcomes: Vec<Result<(), String>> },
    /// The report is there.
    Reported { failures: Vec<OrderFailure>, report: String },
    /// The message was handed to the chat, whether or not it arrived.
    Delivered,
}

/// An order that could not be placed, and why.
#[derive(Debug)]
pub struct OrderFailure {
    pub symbol_key: String,
    pub reason: String,
}

pub struct OrderFailureView {
    pub symbol_key: Seq<char>,
    pub reason: Seq<char>,
}

impl View for OrderFailure {
    type V = OrderFailureView;

    open spec fn view(&self) -> OrderFailureView {
        OrderFailureView { symbol_key: self.symbol_key@, reason: self.reason@ }
    }
}

pub open spec fn failure_views(list: Seq<OrderFailure>) -> Seq<OrderFailureView> {
    list.map_values(|f: OrderFailure| f@)
}

/// A signal as it is shown, and what is to be done about it.
#[derive(Debug)]
pub struct PlannedSignal {
    pub line: String,
    pub plan: SignalPlan,
}

pub struct PlannedSignalView {
    pub line: Seq<char>,
    pub plan: SignalPlanView,
}

impl View for PlannedSignal {
    type V = PlannedSignalView;

    open spec fn view(&self) -> PlannedSignalView {
        PlannedSignalView { line: self.line@, plan: self.plan@ }
    }
}

/// What the run does next.
#[derive(Debug)]
pub enum StrategyStep {
    FetchBalances,
    FetchPositions,
    FetchQuotes,
    /// Show each signal and carry out its plan, in turn and whatever becomes of the others.
    Act(Vec<PlannedSignal>),
    /// Compile the report, and keep what failed.
    Report(Vec<OrderFailure>),
    /// Send the message to the chat.
    Send(String),
    /// The run ended well.
    Done,
    /// The run ended on an update that failed.
    Stop(UpdateError),
}

pub enum StrategyStepView {
    FetchBalances,
    FetchPositions,
    FetchQuotes,
    Act(Seq<PlannedSignalView>),
    Report(Seq<OrderFailureView>),
    Send(Seq<char>),
    Done,
    Stop(UpdateError),
}

pub open spec fn planned_views(list: Seq<PlannedSignal>) -> Seq<PlannedSignalView> {
    list.map_values(|p: PlannedSignal| p@)
}

impl View for StrategyStep {
    type V = StrategyStepView;

    open spec fn view(&self) -> StrategyStepView {
        match *self {
            StrategyStep::FetchBalances => StrategyStepView::FetchBalances,
            StrategyStep::FetchPositions => StrategyStepView::FetchPositions,
            StrategyStep::FetchQuotes => StrategyStepView::FetchQuotes,
            StrategyStep::Act(list) => StrategyStepView::Act(planned_views(list@)),
            StrategyStep::Report(list) => StrategyStepView::Report(failure_views(list@)),
            StrategyStep::Send(message) => StrategyStepView::Send(message@),
            StrategyStep::Done => StrategyStepView::Done,
            StrategyStep::Stop(e) => StrategyStepView::Stop(e),
        }
    }
}

/// What is to be done about each signal in turn.
pub open spec fn planned(signals: Seq<(Seq<char>, SignalView)>) -> Seq<PlannedSignalView> {
    signals.map_values(
        |e: (Seq<char>, SignalView)|
            PlannedSignalView { line: signal_text(e.0, e.1), plan: plan_of(e.0, e.1) },
    )
}

/// Whether an event holds one answer for each request that the run makes.
pub open spec fn answers_requests(bot: BotView, event: StrategyEvent) -> bool {
    match event {
        StrategyEvent::Start => true,
        StrategyEvent::Balances(answers) => answers@.len() == bot.account_hashes.len(),
        StrategyEvent::Positions(replies) => replies@.len() == bot.account_hashes.len(),
        StrategyEvent::Quotes(replies) => bot.has_api ==> replies@.len() == distinct_names(
            bot.symbols,
        ).len(),
        StrategyEvent::Acted { signals, outcomes } => outcomes@.len() == signals@.len(),
        _ => true,
    }
}

/// What failed of a signal's order.
pub open spec fn failure_of(plan: SignalPlanView, outcome: Result<(), String>) -> Option<
    OrderFailureView,
> {
    match (plan, outcome) {
        (SignalPlanView::Send { symbol_key, .. }, Err(reason)) => Some(
            OrderFailureView { symbol_key, reason: reason@ },
        ),
        _ => None,
    }
}

/// The orders that failed, in turn.
pub open spec fn failures_of(
    signals: Seq<PlannedSignalView>,
    outcomes: Seq<Result<(), String>>,
) -> Seq<OrderFailureView>
    decreases outcomes.len(),
{
    if outcomes.len() == 0 {
        Seq::empty()
    } else {
        let rest = failures_of(signals, outcomes.drop_last());
        match failure_of(signals[outcomes.len() - 1].plan, outcomes.last()) {
            Some(failure) => rest.push(failure),
            None => rest,
        }
    }
}

/// One line for each order that failed.
pub open spec fn failure_lines(failures: Seq<OrderFailureView>) -> Seq<char>
    decreases failures.len(),
{
    if failures.len() == 0 {
        Seq::empty()
    } else {
        failure_lines(failures.drop_last()) + "⚠️ Failed to place order for "@ + prefix(
            failures.last().symbol_key,
            10,
        ) + ": "@ + failures.last().reason + "\n"@
    }
}

/// The message for the chat: the report, and below it the orders that failed, if any did.
pub open spec fn run_message(failures: Seq<OrderFailureView>, report: Seq<char>) -> Seq<char> {
    if failures.len() == 0 {
        report
    } else {
        report + "\nFailed Orders:\n"@ + failure_lines(failures)
    }
}

/// The bot after an event, and what the run does next. A failed update ends the run.
pub open spec fn strategy_outcome(bot: BotView, event: StrategyEvent) -> (
    BotView,
    StrategyStepView,
) {
    match event {
        StrategyEvent::Start => (bot, StrategyStepView::FetchBalances),
        StrategyEvent::Balances(answers) => match with_account_info(bot, answers@) {
            Ok(after) => (after, StrategyStepView::FetchPositions),
            Err(e) => (bot, StrategyStepView::Stop(e)),
        },
        StrategyEvent::Positions(answers) => match with_positions(bot, answers@) {
            Ok(after) => (after, StrategyStepView::FetchQuotes),
            Err(e) => (bot, StrategyStepView::Stop(e)),
        },
        StrategyEvent::Quotes(replies) => {
            let after = with_quotes(bot, replies@);
            (after, StrategyStepView::Act(planned(signals_of(after.symbols, after.prices))))
        },
        StrategyEvent::Acted { signals, outcomes } => (
            bot,
            StrategyStepView::Report(failures_of(planned_views(signals@), outcomes@)),
        ),
        StrategyEvent::Reported { failures, report } => (
            bot,
            StrategyStepView::Send(run_message(failure_views(failures@), report@)),
        ),
        StrategyEvent::Delivered => (bot, StrategyStepView::Done),
    }
}

/// The start of a key, by which messages name it.
pub fn short_key(symbol_key: &str) -> (r: String)
    ensures
        r@ == prefix(symbol_key@, 10),
{
    take_prefix(symbol_key, 10)
}

/// What is to be done about each signal in turn.
pub fn plan_signals(signals: &Table<SignalInfo>) -> (r: Vec<PlannedSignal>)
    ensures
        planned_views(r@) == planned(signals@),
{
    let n: usize = signals.len();
    let mut r: Vec<PlannedSignal> = Vec::new();
    let mut i: usize = 0;
    while i < n
        invariant
            i <= n,
            n == signals@.len(),
            planned_views(r@) == planned(signals@.take(i as int)),
        decreases n - i,
    {
        let ghost before = r@;
        let key: &str = signals.key_at(i).as_str();
        let signal: &SignalInfo = signals.value_at(i);
        let next: PlannedSignal = PlannedSignal {
            line: describe_signal(key, signal),
            plan: plan_signal(key, signal),
        };
        r.push(next);
        assert(planned_views(r@) =~= planned_views(before).push(next@));
        i = i + 1;
        assert(planned(signals@.take(i as int)) =~= planned(signals@.take(i - 1)).push(next@));
    }
    assert(signals@.take(n as int) =~= signals@);
    r
}

/// The orders that failed, in turn.
pub fn failed_orders(signals: &Vec<PlannedSignal>, outcomes: &Vec<Result<(), String>>) -> (r: Vec<
    OrderFailure,
>)
    requires
        outcomes@.len() == signals@.len(),
    ensures
        failure_views(r@) == failures_of(planned_views(signals@), outcomes@),
{
    let ghost plans = planned_views(signals@);
    let n: usize = outcomes.len();
    let mut r: Vec<OrderFailure> = Vec::new();
    let mut i: usize = 0;
    assert(failure_views(r@) =~= Seq::empty());
    while i < n
        invariant
            i <= n,
            n == outcomes@.len(),
            n == signals@.len(),
            plans == planned_views(signals@),
            failure_views(r@) == failures_of(plans, outcomes@.take(i as int)),
        decreases n - i,
    {
        let ghost done = outcomes@.take(i + 1);
        assert(done.drop_last() =~= outcomes@.take(i as int));
        assert(plans[i as int] == signals@[i as int]@);
        if let SignalPlan::Send { symbol_key, .. } = &signals[i].plan {
            if let Err(reason) = &outcomes[i] {
                let ghost before = r@;
                let failure: OrderFailure = OrderFailure {
                    symbol_key: symbol_key.clone(),
                    reason: reason.clone(),
                };
                r.push(failure);
                assert(failure_views(r@) =~= failure_views(before).push(failure@));
            }
        }
        i = i + 1;
    }
    assert(outcomes@.take(n as int) =~= outcomes@);
    r
}

/// The message for the chat: the report, and below it the orders that failed, if any did.
pub fn strategy_message(failures: &Vec<OrderFailure>, report: &str) -> (r: String)
    ensures
        r@ == run_message(failure_views(failures@), report@),
{
    let n: usize = failures.len();
    if n == 0 {
        return report.to_owned();
    }
    let ghost views = failure_views(failures@);
    let mut lines: String = String::new();
    let mut i: usize = 0;
    assert(lines@ =~= Seq::empty());
    while i < n
        invariant
            i <= n,
            n == failures@.len(),
            views == failure_views(failures@),
            lines@ == failure_lines(views.take(i as int)),
        decreases n - i,
    {
        let ghost done = views.take(i + 1);
        assert(done.drop_last() =~= views.take(i as int));
        assert(done.last() == failures@[i as int]@);
        lines.append("⚠️ Failed to place order for ");
        lines.append(short_key(failures[i].symbol_key.as_str()).as_str());
        lines.append(": ");
        lines.append(failures[i].reason.as_str());
        lines.append("\n");
        i = i + 1;
    }
    assert(views.take(n as int) =~= views);
    let mut r: String = report.to_owned();
    r.append("\nFailed Orders:\n");
    r.append(lines.as_str());
    r
}

/// Takes one event of a run of the strategy into the bot, and says what the run does next.
pub fn execute_strategy_internal(bot: &mut TradingBot, event: &StrategyEvent) -> (r: StrategyStep)
    requires
        answers_requests(old(bot)@, *event),
    ensures
        (final(bot)@, r@) == strategy_outcome(old(bot)@, *event),
{
    match event {
        StrategyEvent::Start => StrategyStep::FetchBalances,
        StrategyEvent::Balances(answers) => match bot.update_account_info(answers) {
            Ok(()) => StrategyStep::FetchPositions,
            Err(e) => StrategyStep::Stop(e),
        },
        StrategyEvent::Positions(replies) => match bot.update_positions(replies) {
            Ok(()) => StrategyStep::FetchQuotes,
            Err(e) => StrategyStep::Stop(e),
        },
        StrategyEvent::Quotes(replies) => {
            bot.update_prices(replies);
            StrategyStep::Act(plan_signals(&bot.generate_signals()))
        },
        StrategyEvent::Acted { signals, outcomes } => StrategyStep::Report(
            failed_orders(signals, outcomes),
        ),
        StrategyEvent::Reported { failures, report } => StrategyStep::Send(
            strategy_message(failures, report.as_str()),
        ),
        StrategyEvent::Delivered => StrategyStep::Done,
    }
}

/// A run that stops leaves the bot as the last successful update left it.
pub proof fn law_failed_update_changes_nothing(bot: BotView, event: StrategyEvent)
    ensures
        strategy_outcome(bot, event).1 is Stop ==> strategy_outcome(bot, event).0 == bot,
{
}

/// Orders are only ever planned from the quotes of the same run, one signal per key.
pub proof fn law_plans_come_from_quotes(bot: BotView, event: StrategyEvent)
    ensures
        strategy_outcome(bot, event).1 is Act ==> event is Quotes,
        strategy_outcome(bot, event).1 matches StrategyStepView::Act(list) ==> list == planned(
            signals_of(bot.symbols, strategy_outcome(bot, event).0.prices),
        ),
{
}

/// An order that is planned is a buy or a sell of some shares at the last price of its signal.
pub proof fn law_planned_order_follows_signal(key: Seq<char>, signal: SignalView)
    ensures
        plan_of(key, signal) matches SignalPlanView::Send {
            symbol_key,
            action,
            qty,
            limit_price,
        } ==> {
            &&& symbol_key == key
            &&& action == "BUY"@ || action == "SELL"@
            &&& qty == signal.quantity
            &&& qty.units > 0
            &&& signal.last_price == Some(limit_price)
        },
{
}

/// Once the signals are planned the run ends well, whatever becomes of the orders and of the
/// message: every outcome of the orders leads to one report, the report to one message, and the
/// message, delivered or not, to the end.
pub proof fn law_failed_orders_do_not_stop_the_run(bot: BotView, event: StrategyEvent)
    ensures
        event is Acted ==> strategy_outcome(bot, event).1 is Report,
        event is Reported ==> strategy_outcome(bot, event).1 is Send,
        event is Delivered ==> strategy_outcome(bot, event).1 is Done,
        event is Acted || event is Reported || event is Delivered ==> strategy_outcome(
            bot,
            event,
        ).0 == bot,
{
}

/// Every order that failed is among the failures, with its reason, and nothing else is.
pub proof fn law_every_failure_is_told(
    signals: Seq<PlannedSignalView>,
    outcomes: Seq<Result<(), String>>,
)
    ensures
        forall|i: int|
            0 <= i < outcomes.len() ==> (failure_of(
                signals[i].plan,
                #[trigger] outcomes[i],
            ) matches Some(failure) ==> failures_of(signals, outcomes).contains(failure)),
        forall|k: int|
            0 <= k < failures_of(signals, outcomes).len() ==> exists|i: int|
                0 <= i < outcomes.len() && failure_of(signals[i].plan, #[trigger] outcomes[i])
                    == Some(#[trigger] failures_of(signals, outcomes)[k]),
    decreases outcomes.len(),
{
    if outcomes.len() > 0 {
        let before = outcomes.drop_last();
        let rest = failures_of(signals, before);
        let all = failures_of(signals, outcomes);
        let n = outcomes.len() - 1;
        law_every_failure_is_told(signals, before);
        assert forall|i: int| 0 <= i < outcomes.len() implies (failure_of(
            signals[i].plan,
            #[trigger] outcomes[i],
        ) matches Some(failure) ==> all.contains(failure)) by {
            if let Some(failure) = failure_of(signals[i].plan, outcomes[i]) {
                if i < n {
                    assert(before[i] == outcomes[i]);
                    assert(rest.contains(failure));
                    let k = choose|k: int| 0 <= k < rest.len() && rest[k] == failure;
                    assert(all[k] == failure);
                } else {
                    assert(all[rest.len() as int] == failure);
                }
            }
        }
        assert forall|k: int| 0 <= k < all.len() implies exists|i: int|
            0 <= i < outcomes.len() && failure_of(signals[i].plan, #[trigger] outcomes[i]) == Some(
                #[trigger] all[k],
            ) by {
            if k < rest.len() {
                assert(rest[k] == all[k]);
                let i = choose|i: int|
                    0 <= i < before.len() && failure_of(signals[i].plan, #[trigger] before[i])
                        == Some(rest[k]);
                assert(outcomes[i] == before[i]);
            } else {
                assert(failure_of(signals[n].plan, outcomes[n]) == Some(all[k]));
            }
        }
    }
}

/// The message starts with the report, and is the report where nothing failed.
pub proof fn law_message_holds_the_report(failures: Seq<OrderFailureView>, report: Seq<char>)
    ensures
        run_message(failures, report).take(report.len() as int) == report,
        failures.len() == 0 ==> run_message(failures, report) == report,
{
    assert(run_message(failures, report).take(report.len() as int) =~= report);
}

/// A run asks for balances, then positions, then quotes, taking in each answer before the next
/// question, and plans its orders from all of them; an update that fails ends it there.
pub proof fn law_run_goes_step_by_step(bot: BotView, event: StrategyEvent)
    ensures
        event is Start ==> strategy_outcome(bot, event) == (bot, StrategyStepView::FetchBalances),
        event matches StrategyEvent::Balances(answers) ==> match with_account_info(bot, answers@) {
            Ok(after) => strategy_outcome(bot, event) == (after, StrategyStepView::FetchPositions),
            Err(e) => strategy_outcome(bot, event) == (bot, StrategyStepView::Stop(e)),
        },
        event matches StrategyEvent::Positions(answers) ==> match with_positions(bot, answers@) {
            Ok(after) => strategy_outcome(bot, event) == (after, StrategyStepView::FetchQuotes),
            Err(e) => strategy_outcome(bot, event) == (bot, StrategyStepView::Stop(e)),
        },
        event matches StrategyEvent::Quotes(replies) ==> {
            let after = with_quotes(bot, replies@);
            strategy_outcome(bot, event).0 == after && strategy_outcome(bot, event).1
                == StrategyStepView::Act(planned(signals_of(after.symbols, after.prices)))
        },
        event matches StrategyEvent::Acted { signals, outcomes } ==> strategy_outcome(bot, event)
            == (bot, StrategyStepView::Report(failures_of(planned_views(signals@), outcomes@))),
        event matches StrategyEvent::Reported { failures, report } ==> strategy_outcome(bot, event)
            == (bot, StrategyStepView::Send(run_message(failure_views(failures@), report@))),
        event is Delivered ==> strategy_outcome(bot, event) == (bot, StrategyStepView::Done),
{
}

/// Each signal is shown and planned, in its turn: by the start of its key, what it says to do, its
/// last price and its shares.
pub proof fn law_each_signal_is_planned(signals: Seq<(Seq<char>, SignalView)>, i: int)
    requires
        0 <= i < signals.len(),
    ensures
        planned(signals).len() == signals.len(),
        planned(signals)[i].plan == plan_of(signals[i].0, signals[i].1),
        planned(signals)[i].line == "Signal for "@ + (if signals[i].0.len() > 10 {
            signals[i].0.take(10)
        } else {
            signals[i].0
        }) + ": "@ + signals[i].1.action + " (last_price: "@ + (match signals[i].1.last_price {
            Some(price) => "$"@ + fixed(price.units as int, 8, 2),
            None => "N/A"@,
        }) + ", quantity: "@ + fixed(signals[i].1.quantity.units as int, 8, 2)
            + ")"@,
{
}

/// An order fails just where it was to be sent and was not, for the reason that was told.
pub proof fn law_failures_are_of_sent_orders(plan: SignalPlanView, outcome: Result<(), String>)
    ensures
        failure_of(plan, outcome) is Some <==> plan is Send && outcome is Err,
        plan matches SignalPlanView::Send { symbol_key, .. } ==> (outcome matches Err(reason)
            ==> failure_of(plan, outcome) == Some(
            OrderFailureView { symbol_key, reason: reason@ },
        )),
{
}

/// The failures are told in the order of their signals: one outcome more adds its failure at the
/// end, or none.
pub proof fn law_failures_keep_their_order(
    signals: Seq<PlannedSignalView>,
    outcomes: Seq<Result<(), String>>,
    more: Result<(), String>,
)
    ensures
        failures_of(signals, Seq::empty()) == Seq::<OrderFailureView>::empty(),
        failures_of(signals, outcomes.push(more)) == (match failure_of(
            signals[outcomes.len() as int].plan,
            more,
        ) {
            Some(failure) => failures_of(signals, outcomes).push(failure),
            None => failures_of(signals, outcomes),
        }),
{
    assert(outcomes.push(more).drop_last() =~= outcomes);
}

/// The message for the chat is the report; where orders failed, it has a line below for each of
/// them, in their order, with the start of its key and its reason.
pub proof fn law_message_names_every_failure(
    failures: Seq<OrderFailureView>,
    more: OrderFailureView,
    report: Seq<char>,
)
    ensures
        run_message(Seq::empty(), report) == report,
        failure_lines(Seq::empty()) == Seq::<char>::empty(),
        run_message(failures.push(more), report) == report + "\nFailed Orders:\n"@ + (
        failure_lines(failures) + "⚠️ Failed to place order for "@ + (if more.symbol_key.len()
            > 10 {
            more.symbol_key.take(10)
        } else {
            more.symbol_key
        }) + ": "@ + more.reason + "\n"@),
{
    assert(failures.push(more).drop_last() =~= failures);
}

/// The views of failures, plans and steps show their fields under their own names.
pub proof fn law_strategy_views_show_fields(
    f: OrderFailure,
    p: PlannedSignal,
    plan: SignalPlan,
    s: StrategyStep,
    i: int,
)
    ensures
        f@.symbol_key == f.symbol_key@,
        f@.reason == f.reason@,
        p@.line == p.line@,
        p@.plan == p.plan@,
        plan matches SignalPlan::Send { symbol_key, action, qty, limit_price } ==> plan@
            == (SignalPlanView::Send {
            symbol_key: symbol_key@,
            action: action@,
            qty,
            limit_price,
        }),
        plan matches SignalPlan::SkipWithoutPrice { symbol_key } ==> plan@
            == (SignalPlanView::SkipWithoutPrice { symbol_key: symbol_key@ }),
        plan is Nothing ==> plan@ is Nothing,
        s is FetchBalances ==> s@ is FetchBalances,
        s is FetchPositions ==> s@ is FetchPositions,
        s is FetchQuotes ==> s@ is FetchQuotes,
        s is Done ==> s@ is Done,
        s matches StrategyStep::Stop(e) ==> s@ == StrategyStepView::Stop(e),
        s matches StrategyStep::Send(message) ==> s@ == StrategyStepView::Send(message@),
        s matches StrategyStep::Act(list) ==> (s@ matches StrategyStepView::Act(views)
            && views.len() == list@.len() && (0 <= i < list@.len() ==> views[i] == list@[i]@)),
        s matches StrategyStep::Report(list) ==> (s@ matches StrategyStepView::Report(views)
            && views.len() == list@.len() && (0 <= i < list@.len() ==> views[i] == list@[i]@)),
{
}

/// Each failure has one line, below those before it.
pub proof fn law_every_failure_has_its_line(
    failures: Seq<OrderFailureView>,
    more: OrderFailureView,
)
    ensures
        failure_lines(failures.push(more)) == failure_lines(failures)
            + "⚠️ Failed to place order for "@ + (if more.symbol_key.len() > 10 {
            more.symbol_key.take(10)
        } else {
            more.symbol_key
        }) + ": "@ + more.reason + "\n"@,
{
    assert(failures.push(more).drop_last() =~= failures);
}

} // verus!
