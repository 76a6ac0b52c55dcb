//! The accounts that the configured symbols name.
use crate::models::{symbol_views, trades_at_ibkr, Symbol, SymbolView};
use crate::text::{chars_of, same, texts};
use vstd::prelude::*;

verus! {

/// Whether `a` comes before `b` in the order of their characters.
pub open spec fn before(a: Seq<char>, b: Seq<char>) -> bool
    decreases a.len(),
{
    if b.len() == 0 {
        false
    } else if a.len() == 0 {
        true
    } else if a[0] == b[0] {
        before(a.drop_first(), b.drop_first())
    } else {
        a[0] < b[0]
    }
}

/// Each text comes before all that follow it.
pub open spec fn strictly_sorted(list: Seq<Seq<char>>) -> bool {
    forall|i: int, j: int| 0 <= i < j < list.len() ==> before(#[trigger] list[i], #[trigger] list[j])
}

/// Whether a symbol names the account. With `schwab_only`, symbols that trade through Interactive
/// Brokers are passed over.
pub open spec fn names_account(symbol: SymbolView, account: Seq<char>, schwab_only: bool) -> bool {
    symbol.account_hash == account && (schwab_only ==> !trades_at_ibkr(symbol))
}

/// Whether any of the symbols names the account.
pub open spec fn is_named(symbols: Seq<SymbolView>, account: Seq<char>, schwab_only: bool) -> bool {
    exists|i: int|
        0 <= i < symbols.len() && names_account(#[trigger] symbols[i], account, schwab_only)
}

/// The accounts that the symbols name, each once and in order.
pub open spec fn lists_accounts(
    list: Seq<Seq<char>>,
    symbols: Seq<SymbolView>,
    schwab_only: bool,
) -> bool {
    &&& strictly_sorted(list)
    &&& forall|account: Seq<char>| #[trigger]
        list.contains(account) <==> is_named(symbols, account, schwab_only)
}

proof fn lemma_before_not_both(a: Seq<char>, b: Seq<char>)
    ensures
        !(before(a, b) && before(b, a)),
        !before(a, a),
    decreases a.len(),
{
    if a.len() > 0 {
        if b.len() > 0 {
            lemma_before_not_both(a.drop_first(), b.drop_first());
        } else {
            lemma_before_not_both(a.drop_first(), a.drop_first());
        }
    }
}

proof fn lemma_before_chain(a: Seq<char>, b: Seq<char>, c: Seq<char>)
    requires
        before(a, b),
        before(b, c),
    ensures
        before(a, c),
    decreases a.len(),
{
    if a.len() > 0 && a[0] == b[0] && b[0] == c[0] {
        lemma_before_chain(a.drop_first(), b.drop_first(), c.drop_first());
    }
}

proof fn lemma_before_total(a: Seq<char>, b: Seq<char>)
    ensures
        before(a, b) || before(b, a) || a == b,
    decreases a.len(),
{
    if a.len() > 0 && b.len() > 0 && a[0] == b[0] {
        lemma_before_total(a.drop_first(), b.drop_first());
        if a.drop_first() == b.drop_first() {
            assert(a =~= seq![a[0]] + a.drop_first());
            assert(b =~= seq![b[0]] + b.drop_first());
        }
    } else if a.len() == 0 && b.len() == 0 {
        assert(a =~= b);
    }
}

/// Whether `a` comes before `b` in the order of their characters.
fn comes_before(a: &str, b: &str) -> (r: bool)
    ensures
        r == before(a@, b@),
{
    let left: Vec<char> = chars_of(a);
    let right: Vec<char> = chars_of(b);
    let mut i: usize = 0;
    assert(left@.skip(0) =~= left@);
    assert(right@.skip(0) =~= right@);
    while i < left.len() && i < right.len() && left[i] == right[i]
        invariant
            i <= left@.len(),
            i <= right@.len(),
            before(left@, right@) == before(left@.skip(i as int), right@.skip(i as int)),
        decreases left.len() - i,
    {
        assert(left@.skip(i as int).drop_first() =~= left@.skip(i + 1));
        assert(right@.skip(i as int).drop_first() =~= right@.skip(i + 1));
        i = i + 1;
    }
    if i >= right.len() {
        false
    } else if i >= left.len() {
        true
    } else {
        left[i] < right[i]
    }
}

fn insert_sorted(list: &mut Vec<String>, item: String)
    requires
        strictly_sorted(texts(old(list)@)),
    ensures
        strictly_sorted(texts(final(list)@)),
        forall|x: Seq<char>| #[trigger]
            texts(final(list)@).contains(x) <==> texts(old(list)@).contains(x) || x == item@,
{
    let ghost olds = texts(list@);
    let n: usize = list.len();
    let mut k: usize = 0;
    while k < n && comes_before(list[k].as_str(), item.as_str())
        invariant
            k <= n,
            n == list@.len(),
            olds == texts(list@),
            forall|j: int| 0 <= j < k ==> before(#[trigger] olds[j], item@),
        decreases n - k,
    {
        k = k + 1;
    }
    if k < n && same(list[k].as_str(), item.as_str()) {
        assert(olds[k as int] == item@);
        return;
    }
    proof {
        if k < n {
            lemma_before_total(olds[k as int], item@);
            assert forall|j: int| k <= j < n implies before(item@, #[trigger] olds[j]) by {
                if j > k {
                    lemma_before_chain(item@, olds[k as int], olds[j]);
                }
            }
        }
    }
    list.insert(k, item);
    proof {
        let news = texts(list@);
        assert(news =~= olds.insert(k as int, item@));
        assert forall|i: int, j: int| 0 <= i < j < news.len() implies before(
            #[trigger] news[i],
            #[trigger] news[j],
        ) by {
            let oi = if i < k {
                i
            } else {
                i - 1
            };
            let oj = if j < k {
                j
            } else {
                j - 1
            };
            if i != k && j != k {
                assert(before(olds[oi], olds[oj]));
            } else if i == k {
                assert(before(item@, olds[oj]));
            } else {
                assert(before(olds[oi], item@));
            }
        }
        assert forall|x: Seq<char>| #[trigger] news.contains(x) <==> olds.contains(x) || x
            == item@ by {
            if olds.contains(x) {
                let i = choose|i: int| 0 <= i < olds.len() && olds[i] == x;
                assert(news[if i < k {
                    i
                } else {
                    i + 1
                }] == x);
            }
            if x == item@ {
                assert(news[k as int] == x);
            }
            if news.contains(x) {
                let i = choose|i: int| 0 <= i < news.len() && news[i] == x;
                if i < k {
                    assert(olds[i] == x);
                } else if i > k {
                    assert(olds[i - 1] == x);
                }
            }
        }
    }
}

fn sorted_accounts(symbols: &Vec<Symbol>, schwab_only: bool) -> (r: Vec<String>)
    ensures
        lists_accounts(texts(r@), symbol_views(symbols@), schwab_only),
{
    let n: usize = symbols.len();
    let mut r: Vec<String> = Vec::new();
    let ghost views = symbol_views(symbols@);
    let mut i: usize = 0;
    while i < n
        invariant
            i <= n,
            n == symbols@.len(),
            views == symbol_views(symbols@),
            strictly_sorted(texts(r@)),
            forall|x: Seq<char>| #[trigger]
                texts(r@).contains(x) <==> is_named(views.take(i as int), x, schwab_only),
        decreases n - i,
    {
        let symbol: &Symbol = &symbols[i];
        let ghost olds = texts(r@);
        assert(views[i as int] == symbol@);
        if !schwab_only || !symbol.at_ibkr() {
            insert_sorted(&mut r, symbol.account_hash.clone());
        }
        proof {
            let done = views.take(i as int);
            let more = views.take(i + 1);
            assert forall|x: Seq<char>| #[trigger] texts(r@).contains(x) <==> is_named(
                more,
                x,
                schwab_only,
            ) by {
                if is_named(done, x, schwab_only) {
                    let k = choose|k: int|
                        0 <= k < done.len() && names_account(#[trigger] done[k], x, schwab_only);
                    assert(more[k] == done[k]);
                }
                if is_named(more, x, schwab_only) {
                    let k = choose|k: int|
                        0 <= k < more.len() && names_account(#[trigger] more[k], x, schwab_only);
                    if k < i {
                        assert(done[k] == more[k]);
                    }
                }
                if names_account(symbol@, x, schwab_only) {
                    assert(names_account(more[i as int], x, schwab_only));
                }
                assert(olds.contains(x) <==> is_named(done, x, schwab_only));
            }
        }
        i = i + 1;
    }
    assert(views.take(n as int) =~= views);
    r
}

/// The accounts that the symbols name, each once and in order.
pub fn configured_accounts(symbols: &Vec<Symbol>) -> (r: Vec<String>)
    ensures
        lists_accounts(texts(r@), symbol_views(symbols@), false),
{
    sorted_accounts(symbols, false)
}

/// The accounts that symbols traded through Schwab name, each once and in order.
pub fn schwab_accounts(symbols: &Vec<Symbol>) -> (r: Vec<String>)
    ensures
        lists_accounts(texts(r@), symbol_views(symbols@), true),
{
    sorted_accounts(symbols, true)
}

/// The symbols leave no choice in the list of accounts that they name.
pub proof fn law_account_list_is_determined(
    a: Seq<Seq<char>>,
    b: Seq<Seq<char>>,
    symbols: Seq<SymbolView>,
    schwab_only: bool,
)
    requires
        lists_accounts(a, symbols, schwab_only),
        lists_accounts(b, symbols, schwab_only),
    ensures
        a == b,
{
    assert forall|x: Seq<char>| #[trigger] a.contains(x) <==> b.contains(x) by {}
    lemma_sorted_lists_agree(a, b);
}

proof fn lemma_sorted_lists_agree(a: Seq<Seq<char>>, b: Seq<Seq<char>>)
    requires
        strictly_sorted(a),
        strictly_sorted(b),
        forall|x: Seq<char>| #[trigger] a.contains(x) <==> b.contains(x),
    ensures
        a == b,
    decreases a.len(),
{
    if a.len() == 0 {
        if b.len() > 0 {
            assert(b.contains(b[0]));
            assert(a.contains(b[0]));
        }
        assert(a =~= b);
    } else {
        assert(a.contains(a[0]));
        assert(b.contains(a[0]));
        let j = choose|j: int| 0 <= j < b.len() && b[j] == a[0];
        assert(b.contains(b[0]));
        assert(a.contains(b[0]));
        let i = choose|i: int| 0 <= i < a.len() && a[i] == b[0];
        lemma_before_not_both(a[0], b[0]);
        assert(a[0] == b[0]) by {
            if i > 0 && j > 0 {
                assert(before(a[0], a[i]));
                assert(before(b[0], b[j]));
            }
        }
        let ta = a.drop_first();
        let tb = b.drop_first();
        assert forall|p: int, q: int| 0 <= p < q < ta.len() implies before(
            #[trigger] ta[p],
            #[trigger] ta[q],
        ) by {
            assert(before(a[p + 1], a[q + 1]));
        }
        assert forall|p: int, q: int| 0 <= p < q < tb.len() implies before(
            #[trigger] tb[p],
            #[trigger] tb[q],
        ) by {
            assert(before(b[p + 1], b[q + 1]));
        }
        assert forall|x: Seq<char>| #[trigger] ta.contains(x) <==> tb.contains(x) by {
            if ta.contains(x) {
                lemma_tail_member(a, b, x);
            }
            if tb.contains(x) {
                lemma_tail_member(b, a, x);
            }
        }
        lemma_sorted_lists_agree(ta, tb);
        assert(a =~= seq![a[0]] + ta);
        assert(b =~= seq![b[0]] + tb);
    }
}

proof fn lemma_tail_member(a: Seq<Seq<char>>, b: Seq<Seq<char>>, x: Seq<char>)
    requires
        strictly_sorted(a),
        a.len() > 0,
        b.len() > 0,
        a[0] == b[0],
        a.contains(x) ==> b.contains(x),
        a.drop_first().contains(x),
    ensures
        b.drop_first().contains(x),
{
    let i = choose|i: int| 0 <= i < a.drop_first().len() && a.drop_first()[i] == x;
    assert(a[i + 1] == x);
    assert(a.contains(x));
    assert(before(a[0], a[i + 1]));
    lemma_before_not_both(a[0], x);
    let k = choose|k: int| 0 <= k < b.len() && b[k] == x;
    assert(b.drop_first()[k - 1] == x);
}

/// No account is listed twice.
pub proof fn law_accounts_are_distinct(list: Seq<Seq<char>>, i: int, j: int)
    requires
        strictly_sorted(list),
        0 <= i < j < list.len(),
    ensures
        list[i] != list[j],
{
    assert(before(list[i], list[j]));
    lemma_before_not_both(list[i], list[i]);
}

/// Texts come in the order of their characters: by the first place in which they differ, a text
/// before any longer one that it starts.
pub proof fn law_order_of_texts(a: Seq<char>, b: Seq<char>, k: int)
    requires
        0 <= k <= a.len(),
        k <= b.len(),
        a.take(k) == b.take(k),
        k < a.len() && k < b.len() ==> a[k] != b[k],
    ensures
        before(a, b) <==> k < b.len() && (k == a.len() || (a[k] as int) < (b[k] as int)),
    decreases a.len(),
{
    if k > 0 {
        assert(a[0] == a.take(k)[0]);
        assert(b[0] == b.take(k)[0]);
        let x = a.drop_first();
        let y = b.drop_first();
        assert(x.take(k - 1) =~= a.take(k).drop_first());
        assert(y.take(k - 1) =~= b.take(k).drop_first());
        law_order_of_texts(x, y, k - 1);
    }
}

/// The listed accounts are just those of the configured symbols; of the symbols that do not name
/// Interactive Brokers where only Schwab's are asked for. They are listed in order, each once.
pub proof fn law_listed_accounts_are_those_of_symbols(
    list: Seq<Seq<char>>,
    symbols: Seq<SymbolView>,
    schwab_only: bool,
    account: Seq<char>,
    i: int,
)
    requires
        lists_accounts(list, symbols, schwab_only),
    ensures
        list.contains(account) <==> exists|k: int|
            0 <= k < symbols.len() && (#[trigger] symbols[k]).account_hash == account && (
            !schwab_only || symbols[k].api != Some("ibkr"@)),
        0 <= i < list.len() - 1 ==> before(list[i], list[i + 1]) && list[i] != list[i + 1],
{
    if is_named(symbols, account, schwab_only) {
        let k = choose|k: int|
            0 <= k < symbols.len() && names_account(#[trigger] symbols[k], account, schwab_only);
        assert(symbols[k].account_hash == account);
    }
    if exists|k: int|
        0 <= k < symbols.len() && (#[trigger] symbols[k]).account_hash == account && (!schwab_only
            || symbols[k].api != Some("ibkr"@)) {
        let k = choose|k: int|
            0 <= k < symbols.len() && (#[trigger] symbols[k]).account_hash == account && (
            !schwab_only || symbols[k].api != Some("ibkr"@));
        assert(names_account(symbols[k], account, schwab_only));
    }
    if 0 <= i < list.len() - 1 {
        assert(before(list[i], list[i + 1]));
        lemma_before_not_both(list[i], list[i]);
    }
}

} // verus!
