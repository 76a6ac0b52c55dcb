//! When symbols were last ordered.
use crate::clock::{later_of, law_days_follow_times, UtcTime};
use crate::table::{law_put_then_lookup, lemma_find, lookup, put, Table};
use vstd::prelude::*;

verus! {

/// The history with an order of the symbol at this time. Of two times the later one stands.
pub open spec fn noted(
    history: Seq<(Seq<char>, UtcTime)>,
    symbol: Seq<char>,
    at: UtcTime,
) -> Seq<(Seq<char>, UtcTime)> {
    put(
        history,
        symbol,
        match lookup(history, symbol) {
            Some(known) => later_of(known, at),
            None => at,
        },
    )
}

/// The history with every entry of another one.
pub open spec fn noted_all(
    history: Seq<(Seq<char>, UtcTime)>,
    more: Seq<(Seq<char>, UtcTime)>,
) -> Seq<(Seq<char>, UtcTime)>
    decreases more.len(),
{
    if more.len() == 0 {
        history
    } else {
        noted(noted_all(history, more.drop_last()), more.last().0, more.last().1)
    }
}

/// Whether no entry of the history lies after this time.
pub open spec fn none_after(history: Seq<(Seq<char>, UtcTime)>, time: UtcTime) -> bool {
    forall|i: int| 0 <= i < history.len() ==> !time.is_before((#[trigger] history[i]).1)
}

/// Whether the history knows of an order of the symbol at this time or later.
pub open spec fn knows_since(
    history: Seq<(Seq<char>, UtcTime)>,
    symbol: Seq<char>,
    time: UtcTime,
) -> bool {
    lookup(history, symbol) matches Some(known) && !known.is_before(time)
}

/// Notes an order of the symbol at this time.
pub fn note(history: &mut Table<UtcTime>, symbol: String, at: UtcTime)
    ensures
        final(history)@ == noted(old(history)@, symbol@, at),
{
    let time: UtcTime = match history.get(symbol.as_str()) {
        Some(known) => known.later(at),
        None => at,
    };
    history.set(symbol, time);
}

/// Notes every entry of another history.
pub fn note_all(history: &mut Table<UtcTime>, more: &Table<UtcTime>)
    ensures
        final(history)@ == noted_all(old(history)@, more@),
{
    let n: usize = more.len();
    let mut i: usize = 0;
    while i < n
        invariant
            i <= n,
            n == more@.len(),
            history@ == noted_all(old(history)@, more@.take(i as int)),
        decreases n - i,
    {
        let ghost done = more@.take(i + 1);
        assert(done.drop_last() =~= more@.take(i as int));
        note(history, more.key_at(i).clone(), *more.value_at(i));
        i = i + 1;
    }
    assert(more@.take(n as int) =~= more@);
}

/// A noted order is known from its time on; what is known of any symbol is never forgotten, and
/// the other symbols stay as they were.
pub proof fn law_noted_order_is_known(
    history: Seq<(Seq<char>, UtcTime)>,
    symbol: Seq<char>,
    at: UtcTime,
    other: Seq<char>,
    time: UtcTime,
)
    ensures
        knows_since(noted(history, symbol, at), symbol, at),
        knows_since(history, other, time) ==> knows_since(
            noted(history, symbol, at),
            other,
            time,
        ),
        other != symbol ==> lookup(noted(history, symbol, at), other) == lookup(history, other),
        lookup(noted(history, symbol, at), symbol) == Some(at) || lookup(
            noted(history, symbol, at),
            symbol,
        ) == lookup(history, symbol),
{
    let value = match lookup(history, symbol) {
        Some(known) => later_of(known, at),
        None => at,
    };
    law_put_then_lookup(history, symbol, value, other);
}

/// A history that takes in another one knows all that either knew, and nothing else: each of its
/// times stands in one of the two.
pub proof fn law_merged_history_knows_both(
    history: Seq<(Seq<char>, UtcTime)>,
    more: Seq<(Seq<char>, UtcTime)>,
    symbol: Seq<char>,
    time: UtcTime,
)
    ensures
        knows_since(history, symbol, time) ==> knows_since(
            noted_all(history, more),
            symbol,
            time,
        ),
        knows_since(more, symbol, time) ==> knows_since(noted_all(history, more), symbol, time),
        lookup(noted_all(history, more), symbol) == Some(time) ==> lookup(history, symbol) == Some(
            time,
        ) || more.contains((symbol, time)),
    decreases more.len(),
{
    if more.len() > 0 {
        assert(more.last() == more[more.len() - 1]);
        assert forall|e: (Seq<char>, UtcTime)| more.drop_last().contains(e) implies more.contains(
            e,
        ) by {
            let j = choose|j: int| 0 <= j < more.drop_last().len() && more.drop_last()[j] == e;
            assert(more[j] == e);
        }
        let before = more.drop_last();
        let last = more.last();
        let rest = noted_all(history, before);
        law_merged_history_knows_both(history, before, symbol, time);
        law_noted_order_is_known(rest, last.0, last.1, symbol, time);
        lemma_find(more, symbol);
        lemma_find(before, symbol);
        let i = crate::table::find(more, symbol);
        if i < before.len() {
            assert(before[i] == more[i]);
            assert(before[i].0 == symbol);
            crate::table::lemma_find_is(before, symbol, i);
        }
    }
}

/// Noting orders of the past keeps a history in the past.
pub proof fn law_history_stays_in_the_past(
    history: Seq<(Seq<char>, UtcTime)>,
    more: Seq<(Seq<char>, UtcTime)>,
    now: UtcTime,
)
    requires
        none_after(history, now),
        none_after(more, now),
    ensures
        none_after(noted_all(history, more), now),
    decreases more.len(),
{
    if more.len() > 0 {
        let before = more.drop_last();
        assert forall|i: int| 0 <= i < before.len() implies !now.is_before(
            (#[trigger] before[i]).1,
        ) by {
            assert(before[i] == more[i]);
        }
        law_history_stays_in_the_past(history, before, now);
        let last = more.last();
        assert(last == more[more.len() - 1]);
        lemma_noted_stays_in_the_past(noted_all(history, before), last.0, last.1, now);
    }
}

pub(crate) proof fn lemma_noted_stays_in_the_past(
    history: Seq<(Seq<char>, UtcTime)>,
    symbol: Seq<char>,
    at: UtcTime,
    now: UtcTime,
)
    requires
        none_after(history, now),
        !now.is_before(at),
    ensures
        none_after(noted(history, symbol, at), now),
{
    lemma_find(history, symbol);
    let after = noted(history, symbol, at);
    let k = crate::table::find(history, symbol);
    assert forall|i: int| 0 <= i < after.len() implies !now.is_before((#[trigger] after[i]).1) by {
        if k < history.len() {
            assert(!now.is_before(history[k].1));
        }
        if i < history.len() && i != k {
            assert(after[i] == history[i]);
        }
    }
}

pub(crate) proof fn lemma_noted_entry(
    history: Seq<(Seq<char>, UtcTime)>,
    symbol: Seq<char>,
    at: UtcTime,
    entry: (Seq<char>, UtcTime),
)
    requires
        noted(history, symbol, at).contains(entry),
    ensures
        history.contains(entry) || entry == (symbol, at),
{
    lemma_find(history, symbol);
    let after = noted(history, symbol, at);
    let k = crate::table::find(history, symbol);
    let i = choose|i: int| 0 <= i < after.len() && after[i] == entry;
    if i < history.len() && i != k {
        assert(history[i] == entry);
    } else if k < history.len() {
        assert(history[k] == (symbol, history[k].1));
    }
}

pub(crate) proof fn lemma_noted_all_entry(
    history: Seq<(Seq<char>, UtcTime)>,
    more: Seq<(Seq<char>, UtcTime)>,
    entry: (Seq<char>, UtcTime),
)
    requires
        noted_all(history, more).contains(entry),
    ensures
        history.contains(entry) || more.contains(entry),
    decreases more.len(),
{
    if more.len() > 0 {
        let before = more.drop_last();
        let rest = noted_all(history, before);
        lemma_noted_entry(rest, more.last().0, more.last().1, entry);
        assert(more.last() == more[more.len() - 1]);
        if rest.contains(entry) {
            lemma_noted_all_entry(history, before, entry);
            if before.contains(entry) {
                let j = choose|j: int| 0 <= j < before.len() && before[j] == entry;
                assert(more[j] == entry);
            }
        }
    }
}

/// An order that a history of the past knows of since some time today was made today.
pub proof fn law_known_since_today_is_today(
    history: Seq<(Seq<char>, UtcTime)>,
    symbol: Seq<char>,
    time: UtcTime,
    now: UtcTime,
)
    requires
        none_after(history, now),
        knows_since(history, symbol, time),
        time.on_day() == now.on_day(),
    ensures
        lookup(history, symbol)->0.on_day() == now.on_day(),
{
    lemma_find(history, symbol);
    let known = history[crate::table::find(history, symbol)].1;
    law_days_follow_times(time, known);
    law_days_follow_times(known, now);
}

/// Noting an order sets its symbol to the later of the two times, or to its own where none was
/// known, and leaves every other symbol as it was.
pub proof fn law_later_time_is_noted(
    history: Seq<(Seq<char>, UtcTime)>,
    symbol: Seq<char>,
    at: UtcTime,
    other: Seq<char>,
)
    ensures
        lookup(history, symbol) is None ==> lookup(noted(history, symbol, at), symbol) == Some(at),
        lookup(history, symbol) matches Some(known) ==> lookup(noted(history, symbol, at), symbol)
            == Some(
            if known.is_before(at) {
                at
            } else {
                known
            },
        ),
        other != symbol ==> lookup(noted(history, symbol, at), other) == lookup(history, other),
{
    law_noted_order_is_known(history, symbol, at, other, at);
    let value = match lookup(history, symbol) {
        Some(known) => later_of(known, at),
        None => at,
    };
    law_put_then_lookup(history, symbol, value, other);
}

/// Two histories taken together know each symbol at the later of its two times, or at the one that
/// either knows.
pub proof fn law_histories_join_by_the_later(
    history: Seq<(Seq<char>, UtcTime)>,
    more: Seq<(Seq<char>, UtcTime)>,
    symbol: Seq<char>,
)
    requires
        forall|a: int, b: int|
            0 <= a < b < more.len() ==> (#[trigger] more[a]).0 != (#[trigger] more[b]).0,
    ensures
        lookup(noted_all(history, more), symbol) == (match (
            lookup(history, symbol),
            lookup(more, symbol),
        ) {
            (Some(x), Some(y)) => Some(
                if x.is_before(y) {
                    y
                } else {
                    x
                },
            ),
            (Some(x), None) => Some(x),
            (None, y) => y,
        }),
    decreases more.len(),
{
    lemma_find(more, symbol);
    if more.len() > 0 {
        let before = more.drop_last();
        let last = more.last();
        let n = more.len() - 1;
        assert(last == more[n]);
        assert forall|a: int, b: int| 0 <= a < b < before.len() implies (#[trigger] before[a]).0 != (
        #[trigger] before[b]).0 by {
            assert(before[a] == more[a] && before[b] == more[b]);
        }
        law_histories_join_by_the_later(history, before, symbol);
        law_later_time_is_noted(noted_all(history, before), last.0, last.1, symbol);
        lemma_find(before, symbol);
        let k = crate::table::find(before, symbol);
        if last.0 == symbol {
            assert forall|j: int| 0 <= j < n implies (#[trigger] more[j]).0 != symbol by {
                assert(more[j].0 != more[n].0);
            }
            if k < before.len() {
                assert(before[k] == more[k]);
            }
            crate::table::lemma_find_is(more, symbol, n);
        } else {
            if k < before.len() {
                assert(before[k] == more[k]);
            }
            assert forall|j: int| 0 <= j < k implies (#[trigger] more[j]).0 != symbol by {
                assert(before[j] == more[j]);
            }
            crate::table::lemma_find_is(
                more,
                symbol,
                if k < before.len() {
                    k
                } else {
                    more.len() as int
                },
            );
        }
    }
}

/// A history knows of an order since a time just where the time beside the symbol is no earlier.
/// What it knows lies in the past just where no time in it is later.
pub proof fn law_history_is_looked_up(
    history: Seq<(Seq<char>, UtcTime)>,
    symbol: Seq<char>,
    time: UtcTime,
)
    ensures
        lookup(history, symbol) is None ==> !knows_since(history, symbol, time),
        lookup(history, symbol) matches Some(known) ==> (knows_since(history, symbol, time) <==> !(
        known.seconds() < time.seconds() || (known.seconds() == time.seconds() && known.subsecond()
            < time.subsecond()))),
        none_after(history, time) ==> (lookup(history, symbol) matches Some(known)
            ==> !time.is_before(known)),
        none_after(history, time) <==> forall|i: int|
            0 <= i < history.len() ==> !time.is_before((#[trigger] history[i]).1),
{
    lemma_find(history, symbol);
    if let Some(known) = lookup(history, symbol) {
        assert(history[crate::table::find(history, symbol)].1 == known);
    }
}

} // verus!
