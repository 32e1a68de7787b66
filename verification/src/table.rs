//! A table of named values in the order of the names.

use vstd::prelude::*;

use crate::text::{
    lemma_order_irreflexive, lemma_order_total, lemma_order_transitive, precedes, same,
    sorts_before,
};

verus! {

/// Values under names, no name twice, kept in the order of the names.
#[derive(Debug, Clone)]
pub struct Table<V> {
    entries: Vec<(String, V)>,
}

/// The value under a name in a list of named values.
pub open spec fn value_under<V>(pairs: Seq<(Seq<char>, V)>, name: Seq<char>) -> Option<V>
    decreases pairs.len(),
{
    if pairs.len() == 0 {
        None
    } else if pairs.last().0 == name {
        Some(pairs.last().1)
    } else {
        value_under(pairs.drop_last(), name)
    }
}

/// No name twice, and the names in their order.
pub open spec fn in_order<V>(pairs: Seq<(Seq<char>, V)>) -> bool {
    forall|i: int, j: int|
        0 <= i < j < pairs.len() ==> sorts_before(#[trigger] pairs[i].0, #[trigger] pairs[j].0)
}

impl<V> View for Table<V> {
    type V = Seq<(Seq<char>, V)>;

    /// The names and their values, in the order of the names.
    closed spec fn view(&self) -> Seq<(Seq<char>, V)> {
        pairs_of(self.entries@)
    }
}

/// A list of named values with its names as characters.
pub open spec fn pairs_of<V>(entries: Seq<(String, V)>) -> Seq<(Seq<char>, V)> {
    Seq::new(entries.len(), |i: int| (entries[i].0@, entries[i].1))
}

impl<V> Table<V> {
    pub open spec fn wf(self) -> bool {
        in_order(self@)
    }

    /// The value under a name.
    pub open spec fn lookup(self, name: Seq<char>) -> Option<V> {
        value_under(self@, name)
    }

    pub fn new() -> (r: Table<V>)
        ensures
            r.wf(),
            r@.len() == 0,
    {
        Table { entries: Vec::new() }
    }

    pub fn len(&self) -> (r: usize)
        ensures
            r == self@.len(),
    {
        self.entries.len()
    }

    pub fn is_empty(&self) -> (r: bool)
        ensures
            r == (self@.len() == 0),
    {
        self.entries.len() == 0
    }

    /// The name at a place in the order.
    pub fn name(&self, i: usize) -> (r: &str)
        requires
            i < self@.len(),
        ensures
            r@ == self@[i as int].0,
    {
        self.entries[i].0.as_str()
    }

    /// The value at a place in the order.
    pub fn value(&self, i: usize) -> (r: &V)
        requires
            i < self@.len(),
        ensures
            *r == self@[i as int].1,
    {
        &self.entries[i].1
    }

    /// The value under a name.
    pub fn get(&self, name: &str) -> (r: Option<&V>)
        ensures
            match self.lookup(name@) {
                Some(v) => r == Some(&v),
                None => r is None,
            },
    {
        let mut i: usize = self.entries.len();
        assert(self@.take(i as int) == self@);
        while i > 0
            invariant
                i <= self@.len(),
                self@.len() == self.entries@.len(),
                value_under(self@, name@) == value_under(self@.take(i as int), name@),
            decreases i,
        {
            assert(self@.take(i as int).drop_last() == self@.take(i - 1));
            i = i - 1;
            if same(self.entries[i].0.as_str(), name) {
                return Some(&self.entries[i].1);
            }
        }
        None
    }

    pub fn contains_key(&self, name: &str) -> (r: bool)
        ensures
            r == self.lookup(name@) is Some,
    {
        self.get(name).is_some()
    }

    /// Puts a value under a name, in place of the one that is there.
    pub fn insert(&mut self, name: String, value: V)
        requires
            old(self).wf(),
        ensures
            final(self).wf(),
            forall|k: Seq<char>| #[trigger]
                final(self).lookup(k) == if k == name@ {
                    Some(value)
                } else {
                    old(self).lookup(k)
                },
    {
        let ghost before = self@;
        let mut i: usize = 0;
        while i < self.entries.len() && precedes(self.entries[i].0.as_str(), name.as_str())
            invariant
                i <= self.entries@.len(),
                self@ == before,
                self@ == pairs_of(self.entries@),
                in_order(before),
                forall|k: int| 0 <= k < i ==> sorts_before(#[trigger] before[k].0, name@),
            decreases self.entries@.len() - i,
        {
            i = i + 1;
        }
        let ghost at = i as int;
        let ghost n = name@;
        if i < self.entries.len() && same(self.entries[i].0.as_str(), name.as_str()) {
            self.entries.remove(i);
            self.entries.insert(i, (name, value));
            proof {
                let after = before.update(at, (n, value));
                assert(self@ == after);
                assert forall|k: Seq<char>| value_under(after, k) == if k == n {
                    Some(value)
                } else {
                    value_under(before, k)
                } by {
                    lemma_update(before, at, n, value, k);
                }
            }
        } else {
            self.entries.insert(i, (name, value));
            proof {
                let after = before.insert(at, (n, value));
                assert(self@ == after);
                if at < before.len() {
                    lemma_order_total(before[at].0, n);
                }
                lemma_insert_in_order(before, at, n, value);
                assert forall|k: Seq<char>| value_under(after, k) == if k == n {
                    Some(value)
                } else {
                    value_under(before, k)
                } by {
                    lemma_insert(before, at, n, value, k);
                }
            }
        }
    }
}

impl<V> Default for Table<V> {
    fn default() -> (r: Table<V>)
        ensures
            r.wf(),
            r@.len() == 0,
    {
        Table::new()
    }
}

/// In a list in order the value under a name is the one beside it.
pub proof fn lemma_beside<V>(pairs: Seq<(Seq<char>, V)>, i: int)
    requires
        in_order(pairs),
        0 <= i < pairs.len(),
    ensures
        value_under(pairs, pairs[i].0) == Some(pairs[i].1),
    decreases pairs.len(),
{
    if i < pairs.len() - 1 {
        assert(sorts_before(pairs[i].0, pairs[pairs.len() - 1].0));
        lemma_order_irreflexive(pairs[i].0);
        let front = pairs.drop_last();
        assert forall|a: int, b: int| 0 <= a < b < front.len() implies sorts_before(
            #[trigger] front[a].0,
            #[trigger] front[b].0,
        ) by {
            assert(front[a] == pairs[a] && front[b] == pairs[b]);
        }
        assert(front[i] == pairs[i]);
        lemma_beside(front, i);
    }
}

/// A name with a value stands somewhere in the list.
pub proof fn lemma_found<V>(pairs: Seq<(Seq<char>, V)>, name: Seq<char>) -> (i: int)
    requires
        value_under(pairs, name) is Some,
    ensures
        0 <= i < pairs.len(),
        pairs[i].0 == name,
        value_under(pairs, name) == Some(pairs[i].1),
    decreases pairs.len(),
{
    if pairs.last().0 == name {
        pairs.len() - 1
    } else {
        lemma_found(pairs.drop_last(), name)
    }
}

proof fn lemma_update<V>(
    pairs: Seq<(Seq<char>, V)>,
    at: int,
    name: Seq<char>,
    value: V,
    k: Seq<char>,
)
    requires
        in_order(pairs),
        0 <= at < pairs.len(),
        pairs[at].0 == name,
    ensures
        in_order(pairs.update(at, (name, value))),
        value_under(pairs.update(at, (name, value)), k) == if k == name {
            Some(value)
        } else {
            value_under(pairs, k)
        },
{
    let after = pairs.update(at, (name, value));
    assert forall|a: int, b: int| 0 <= a < b < after.len() implies sorts_before(
        #[trigger] after[a].0,
        #[trigger] after[b].0,
    ) by {
        assert(after[a].0 == pairs[a].0 && after[b].0 == pairs[b].0);
    }
    if k == name {
        lemma_beside(after, at);
    } else {
        assert forall|i: int| 0 <= i < pairs.len() && pairs[i].0 == k implies after.contains(
            #[trigger] pairs[i],
        ) by {
            assert(after[i] == pairs[i]);
        }
        lemma_same_elsewhere(pairs, after, k);
    }
}

/// Two lists in order with the same pairs under a name agree on it.
proof fn lemma_same_elsewhere<V>(
    a: Seq<(Seq<char>, V)>,
    b: Seq<(Seq<char>, V)>,
    k: Seq<char>,
)
    requires
        in_order(a),
        in_order(b),
        forall|i: int| 0 <= i < a.len() && a[i].0 == k ==> b.contains(#[trigger] a[i]),
        forall|i: int| 0 <= i < b.len() && b[i].0 == k ==> a.contains(#[trigger] b[i]),
    ensures
        value_under(a, k) == value_under(b, k),
{
    if value_under(a, k) is Some {
        let i = lemma_found(a, k);
        let j = choose|j: int| 0 <= j < b.len() && b[j] == a[i];
        lemma_beside(b, j);
    } else if value_under(b, k) is Some {
        let i = lemma_found(b, k);
        let j = choose|j: int| 0 <= j < a.len() && a[j] == b[i];
        lemma_beside(a, j);
    }
}

proof fn lemma_insert_in_order<V>(
    pairs: Seq<(Seq<char>, V)>,
    at: int,
    name: Seq<char>,
    value: V,
)
    requires
        in_order(pairs),
        0 <= at <= pairs.len(),
        forall|i: int| 0 <= i < at ==> sorts_before(#[trigger] pairs[i].0, name),
        at < pairs.len() ==> sorts_before(name, pairs[at].0),
    ensures
        in_order(pairs.insert(at, (name, value))),
{
    let after = pairs.insert(at, (name, value));
    assert forall|a: int, b: int| 0 <= a < b < after.len() implies sorts_before(
        #[trigger] after[a].0,
        #[trigger] after[b].0,
    ) by {
        if a == at {
            assert(after[b] == pairs[b - 1]);
            if b - 1 > at {
                lemma_order_transitive(name, pairs[at].0, pairs[b - 1].0);
            }
        } else if a > at {
            assert(after[a] == pairs[a - 1] && after[b] == pairs[b - 1]);
        } else {
            assert(after[a] == pairs[a]);
            if b < at {
                assert(after[b] == pairs[b]);
            } else if b > at {
                assert(after[b] == pairs[b - 1]);
            }
        }
    }
}

proof fn lemma_insert<V>(
    pairs: Seq<(Seq<char>, V)>,
    at: int,
    name: Seq<char>,
    value: V,
    k: Seq<char>,
)
    requires
        in_order(pairs),
        0 <= at <= pairs.len(),
        in_order(pairs.insert(at, (name, value))),
    ensures
        value_under(pairs.insert(at, (name, value)), k) == if k == name {
            Some(value)
        } else {
            value_under(pairs, k)
        },
{
    let after = pairs.insert(at, (name, value));
    assert(after[at] == (name, value));
    if k == name {
        lemma_beside(after, at);
    } else {
        assert forall|i: int| 0 <= i < pairs.len() && pairs[i].0 == k implies after.contains(
            #[trigger] pairs[i],
        ) by {
            if i < at {
                assert(after[i] == pairs[i]);
            } else {
                assert(after[i + 1] == pairs[i]);
            }
        }
        assert forall|i: int| 0 <= i < after.len() && after[i].0 == k implies pairs.contains(
            #[trigger] after[i],
        ) by {
            if i < at {
                assert(after[i] == pairs[i]);
            } else {
                assert(after[i] == pairs[i - 1]);
            }
        }
        lemma_same_elsewhere(pairs, after, k);
    }
}

/// A table is known by what stands under each name: two tables that agree on
/// every name hold the same pairs in the same order.
pub proof fn law_table_by_names<V>(a: Table<V>, b: Table<V>)
    requires
        a.wf(),
        b.wf(),
        forall|k: Seq<char>| a.lookup(k) == #[trigger] b.lookup(k),
    ensures
        a@ == b@,
{
    assert forall|k: Seq<char>| value_under(a@, k) == #[trigger] value_under(b@, k) by {
        assert(a.lookup(k) == b.lookup(k));
    }
    lemma_same_pairs(a@, b@);
}

proof fn lemma_same_pairs<V>(a: Seq<(Seq<char>, V)>, b: Seq<(Seq<char>, V)>)
    requires
        in_order(a),
        in_order(b),
        forall|k: Seq<char>| value_under(a, k) == #[trigger] value_under(b, k),
    ensures
        a == b,
    decreases a.len(),
{
    if a.len() == 0 || b.len() == 0 {
        if b.len() > 0 {
            lemma_beside(b, 0);
            assert(value_under(a, b[0].0) == value_under(b, b[0].0));
        }
        if a.len() > 0 {
            lemma_beside(a, 0);
            assert(value_under(a, a[0].0) == value_under(b, a[0].0));
        }
        assert(a =~= b);
    } else {
        let x = a.last();
        let y = b.last();
        lemma_beside(a, a.len() - 1);
        lemma_beside(b, b.len() - 1);
        assert(value_under(a, x.0) == value_under(b, x.0));
        assert(value_under(a, y.0) == value_under(b, y.0));
        let i = lemma_found(b, x.0);
        let j = lemma_found(a, y.0);
        if x.0 != y.0 {
            assert(sorts_before(b[i].0, b[b.len() - 1].0));
            assert(sorts_before(a[j].0, a[a.len() - 1].0));
            lemma_order_transitive(x.0, y.0, x.0);
            lemma_order_irreflexive(x.0);
        }
        assert(x == y);
        let fa = a.drop_last();
        let fb = b.drop_last();
        assert(forall|p: int, q: int|
            0 <= p < q < fa.len() ==> sorts_before(#[trigger] fa[p].0, #[trigger] fa[q].0));
        assert(forall|p: int, q: int|
            0 <= p < q < fb.len() ==> sorts_before(#[trigger] fb[p].0, #[trigger] fb[q].0));
        assert forall|k: Seq<char>| value_under(fa, k) == #[trigger] value_under(fb, k) by {
            assert(value_under(a, k) == value_under(b, k));
            if k == x.0 {
                lemma_order_irreflexive(k);
                if value_under(fa, k) is Some {
                    let p = lemma_found(fa, k);
                    assert(sorts_before(a[p].0, a[a.len() - 1].0));
                }
                if value_under(fb, k) is Some {
                    let p = lemma_found(fb, k);
                    assert(sorts_before(b[p].0, b[b.len() - 1].0));
                }
            }
        }
        lemma_same_pairs(fa, fb);
        assert(a == fa.push(x));
        assert(b == fb.push(y));
    }
}

} // verus!
