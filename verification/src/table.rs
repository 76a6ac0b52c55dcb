//! A table from text keys to values that keeps the order in which keys came.
use crate::text::same;
use vstd::prelude::*;

verus! {

/// Where `key` first stands in the list, or the length of the list where it does not.
pub open spec fn find<V>(list: Seq<(Seq<char>, V)>, key: Seq<char>) -> int
    decreases list.len(),
{
    if list.len() == 0 || list[0].0 == key {
        0
    } else {
        1 + find(list.drop_first(), key)
    }
}

/// The value that stands beside `key`.
pub open spec fn lookup<V>(list: Seq<(Seq<char>, V)>, key: Seq<char>) -> Option<V> {
    let i = find(list, key);
    if i < list.len() {
        Some(list[i].1)
    } else {
        None
    }
}

/// The list with `value` beside `key`: in place of the old value, or else at the end.
pub open spec fn put<V>(list: Seq<(Seq<char>, V)>, key: Seq<char>, value: V) -> Seq<
    (Seq<char>, V),
> {
    let i = find(list, key);
    if i < list.len() {
        list.update(i, (key, value))
    } else {
        list.push((key, value))
    }
}

/// No key stands twice.
pub open spec fn distinct<V>(list: Seq<(Seq<char>, V)>) -> bool {
    forall|i: int, j: int| 0 <= i < j < list.len() ==> #[trigger] list[i].0 != #[trigger] list[j].0
}

pub(crate) proof fn lemma_find<V>(list: Seq<(Seq<char>, V)>, key: Seq<char>)
    ensures
        0 <= find(list, key) <= list.len(),
        find(list, key) < list.len() ==> list[find(list, key)].0 == key,
        forall|j: int| 0 <= j < find(list, key) ==> #[trigger] list[j].0 != key,
    decreases list.len(),
{
    if list.len() > 0 && list[0].0 != key {
        let rest = list.drop_first();
        lemma_find(rest, key);
        assert forall|j: int| 0 <= j < find(list, key) implies #[trigger] list[j].0 != key by {
            if j > 0 {
                assert(list[j] == rest[j - 1]);
            }
        }
    }
}

pub(crate) proof fn lemma_find_is<V>(list: Seq<(Seq<char>, V)>, key: Seq<char>, i: int)
    requires
        0 <= i <= list.len(),
        i < list.len() ==> list[i].0 == key,
        forall|j: int| 0 <= j < i ==> #[trigger] list[j].0 != key,
    ensures
        find(list, key) == i,
{
    lemma_find(list, key);
    let k = find(list, key);
    if k < i {
        assert(list[k].0 != key);
    } else if i < k {
        assert(list[i].0 != key);
    }
}

/// A table gives back what was put into it, and keeps what stood beside the other keys.
pub proof fn law_put_then_lookup<V>(
    list: Seq<(Seq<char>, V)>,
    key: Seq<char>,
    value: V,
    other: Seq<char>,
)
    ensures
        lookup(put(list, key, value), key) == Some(value),
        other != key ==> lookup(put(list, key, value), other) == lookup(list, other),
{
    let after = put(list, key, value);
    lemma_find(list, key);
    lemma_find(list, other);
    lemma_find_is(after, key, find(list, key));
    if other != key {
        let i = find(list, other);
        if i < list.len() {
            assert(after[i] == list[i]);
            lemma_find_is(after, other, i);
        } else {
            assert forall|j: int| 0 <= j < after.len() implies #[trigger] after[j].0 != other by {
                if j < list.len() {
                    assert(list[j].0 != other);
                }
            }
            lemma_find_is(after, other, after.len() as int);
        }
    }
}

/// Putting keeps the keys of a table distinct.
pub proof fn law_put_keeps_distinct<V>(list: Seq<(Seq<char>, V)>, key: Seq<char>, value: V)
    requires
        distinct(list),
    ensures
        distinct(put(list, key, value)),
{
    lemma_find(list, key);
    let after = put(list, key, value);
    let n = find(list, key);
    assert forall|i: int, j: int| 0 <= i < j < after.len() implies #[trigger] after[i].0
        != #[trigger] after[j].0 by {
        if j < list.len() {
            assert(list[i].0 != list[j].0);
        } else {
            assert(list[i].0 != key);
        }
    }
}

/// A table from text keys to values. No key stands twice.
pub struct Table<V: View> {
    entries: Vec<(String, V)>,
}

/// The keys and values of some entries.
spec fn entry_views<V: View>(entries: Seq<(String, V)>) -> Seq<(Seq<char>, V::V)> {
    entries.map_values(|e: (String, V)| (e.0@, e.1@))
}

impl<V: View> View for Table<V> {
    type V = Seq<(Seq<char>, V::V)>;

    closed spec fn view(&self) -> Seq<(Seq<char>, V::V)> {
        entry_views(self.entries@)
    }
}

impl<V: View> Table<V> {
    /// No key stands twice.
    #[verifier::type_invariant]
    pub open spec fn has_distinct_keys(self) -> bool {
        distinct(self@)
    }
}

impl<V: View> Table<V> {
    pub fn new() -> (r: Table<V>)
        ensures
            r@ == Seq::<(Seq<char>, V::V)>::empty(),
            distinct(r@),
    {
        let entries: Vec<(String, V)> = Vec::new();
        assert(entry_views(entries@) =~= Seq::<(Seq<char>, V::V)>::empty());
        Table { entries }
    }

    pub fn len(&self) -> (n: usize)
        ensures
            n == self@.len(),
    {
        self.entries.len()
    }

    /// The key of the entry at place `i`.
    pub fn key_at(&self, i: usize) -> (r: &String)
        requires
            i < self@.len(),
        ensures
            r@ == self@[i as int].0,
    {
        &self.entries[i].0
    }

    /// The value of the entry at place `i`.
    pub fn value_at(&self, i: usize) -> (r: &V)
        requires
            i < self@.len(),
        ensures
            r@ == self@[i as int].1,
    {
        &self.entries[i].1
    }

    fn index_of(&self, key: &str) -> (r: usize)
        ensures
            r == find(self@, key@),
    {
        let n: usize = self.entries.len();
        let mut i: usize = 0;
        while i < n && !same(self.entries[i].0.as_str(), key)
            invariant
                i <= n,
                n == self.entries@.len(),
                forall|j: int| 0 <= j < i ==> #[trigger] self@[j].0 != key@,
            decreases n - i,
        {
            i = i + 1;
        }
        proof {
            lemma_find_is(self@, key@, i as int);
        }
        i
    }

    /// The value that stands beside `key`.
    pub fn get(&self, key: &str) -> (r: Option<&V>)
        ensures
            match lookup(self@, key@) {
                Some(value) => r matches Some(v) && v@ == value,
                None => r is None,
            },
    {
        let i: usize = self.index_of(key);
        if i < self.entries.len() {
            Some(&self.entries[i].1)
        } else {
            None
        }
    }

    /// Puts `value` beside `key`.
    pub fn set(&mut self, key: String, value: V)
        ensures
            final(self)@ == put(old(self)@, key@, value@),
            distinct(final(self)@),
    {
        let ghost before = self@;
        proof {
            use_type_invariant(&*self);
            lemma_find(before, key@);
            law_put_keeps_distinct(before, key@, value@);
        }
        let i: usize = self.index_of(key.as_str());
        let mut entries: Vec<(String, V)> = Vec::new();
        assert(entry_views(entries@) =~= Seq::<(Seq<char>, V::V)>::empty());
        std::mem::swap(&mut self.entries, &mut entries);
        if i < entries.len() {
            entries.set(i, (key, value));
        } else {
            entries.push((key, value));
        }
        assert(entry_views(entries@) =~= put(before, key@, value@));
        self.entries = entries;
    }
}

impl<V: View> Table<V> {
    /// The values in the order of their keys, which are dropped.
    pub(crate) fn into_values(self) -> (r: Vec<V>)
        ensures
            r@.map_values(|v: V| v@) == self@.map_values(|e: (Seq<char>, V::V)| e.1),
    {
        let ghost all = self@;
        let mut left: Vec<(String, V)> = self.entries;
        let mut r: Vec<V> = Vec::new();
        let ghost views = all.map_values(|e: (Seq<char>, V::V)| e.1);
        assert(r@.map_values(|v: V| v@) =~= views.take(0));
        assert(entry_views(left@) =~= all.skip(0));
        while left.len() > 0
            invariant
                r@.len() + left@.len() == all.len(),
                views == all.map_values(|e: (Seq<char>, V::V)| e.1),
                r@.map_values(|v: V| v@) == views.take(r@.len() as int),
                entry_views(left@) == all.skip(r@.len() as int),
            decreases left@.len(),
        {
            let ghost rest = left@;
            let ghost before = r@;
            let ghost pairs = entry_views(rest);
            assert(pairs[0] == all[before.len() as int]);
            let (_, value) = left.remove(0);
            r.push(value);
            assert(r@.map_values(|v: V| v@) =~= before.map_values(|v: V| v@).push(value@));
            assert(views.take(r@.len() as int) =~= views.take(before.len() as int).push(
                views[before.len() as int],
            ));
            assert(entry_views(left@) =~= pairs.skip(1));
            assert(all.skip(r@.len() as int) =~= all.skip(before.len() as int).skip(1));
        }
        assert(views.take(all.len() as int) =~= views);
        r
    }
}

impl<V: View + Copy> Table<V> {
    /// A copy of the table.
    pub(crate) fn duplicate(&self) -> (r: Table<V>)
        ensures
            r@ == self@,
    {
        proof {
            use_type_invariant(self);
        }
        let n: usize = self.entries.len();
        let mut entries: Vec<(String, V)> = Vec::new();
        assert(entry_views(entries@) =~= self@.take(0));
        let mut i: usize = 0;
        while i < n
            invariant
                i <= n,
                n == self.entries@.len(),
                entry_views(entries@) == self@.take(i as int),
            decreases n - i,
        {
            let ghost before = entry_views(entries@);
            entries.push((self.entries[i].0.clone(), self.entries[i].1));
            assert(entry_views(entries@) =~= before.push(self@[i as int]));
            i = i + 1;
            assert(self@.take(i as int) =~= self@.take(i - 1).push(self@[i - 1]));
        }
        assert(self@.take(n as int) =~= self@);
        Table { entries }
    }
}

/// Looking up a key finds the value beside its first entry, and nothing where no entry has it.
pub proof fn law_lookup_finds_the_first_entry<V>(list: Seq<(Seq<char>, V)>, key: Seq<char>)
    ensures
        lookup(list, key) is None <==> forall|i: int|
            0 <= i < list.len() ==> (#[trigger] list[i]).0 != key,
        forall|i: int|
            0 <= i < list.len() && (#[trigger] list[i]).0 == key && (forall|j: int|
                0 <= j < i ==> (#[trigger] list[j]).0 != key) ==> lookup(list, key) == Some(
                list[i].1,
            ),
{
    lemma_find(list, key);
    let k = find(list, key);
    assert forall|i: int|
        0 <= i < list.len() && (#[trigger] list[i]).0 == key && (forall|j: int|
            0 <= j < i ==> (#[trigger] list[j]).0 != key) implies lookup(list, key) == Some(
        list[i].1,
    ) by {
        lemma_find_is(list, key, i);
    }
    if lookup(list, key) is None {
        assert forall|i: int| 0 <= i < list.len() implies (#[trigger] list[i]).0 != key by {}
    } else {
        assert(list[k].0 == key);
    }
}

/// With each key standing once, looking up the key of an entry gives its value.
pub proof fn law_every_entry_is_found<V>(list: Seq<(Seq<char>, V)>, i: int)
    requires
        0 <= i < list.len(),
        forall|a: int, b: int|
            0 <= a < b < list.len() ==> (#[trigger] list[a]).0 != (#[trigger] list[b]).0,
    ensures
        lookup(list, list[i].0) == Some(list[i].1),
{
    lemma_find_is(list, list[i].0, i);
}

/// Putting a value beside a key leaves every other entry in its place: a known key keeps its own,
/// and a new one comes last.
pub proof fn law_put_keeps_places<V>(list: Seq<(Seq<char>, V)>, key: Seq<char>, value: V)
    ensures
        (forall|i: int| 0 <= i < list.len() ==> (#[trigger] list[i]).0 != key) ==> put(
            list,
            key,
            value,
        ) == list.push((key, value)),
        (exists|i: int| 0 <= i < list.len() && (#[trigger] list[i]).0 == key) ==> put(
            list,
            key,
            value,
        ).len() == list.len(),
        forall|i: int|
            0 <= i < list.len() ==> (#[trigger] put(list, key, value)[i]).0 == list[i].0 && (
            list[i].0 != key ==> put(list, key, value)[i] == list[i]),
{
    lemma_find(list, key);
}

} // verus!
