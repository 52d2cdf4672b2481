//! A small table keyed by handles: the store behind the peer registry.
//!
//! Rows are kept in the order in which they came in, and no handle occurs
//! twice.

use vstd::prelude::*;

verus! {

/// One row of a [`Table`].
struct Row<T> {
    key: u64,
    value: T,
}

/// A map from handles to values that remembers the order of arrival.
pub struct Table<T> {
    rows: Vec<Row<T>>,
}

impl<T> Table<T> {
    /// No handle occurs twice.
    pub closed spec fn wf(&self) -> bool {
        forall|i: int, j: int|
            0 <= i < self.rows@.len() && 0 <= j < self.rows@.len() && i != j
                ==> self.rows@[i].key != self.rows@[j].key
    }

    /// The handles of the rows, in the order of arrival.
    pub closed spec fn order(&self) -> Seq<u64> {
        self.rows@.map_values(|row: Row<T>| row.key)
    }

    /// The values of the rows, in the order of arrival.
    pub closed spec fn values(&self) -> Seq<T> {
        self.rows@.map_values(|row: Row<T>| row.value)
    }

    /// Whether some row carries the handle `key`.
    spec fn has(&self, key: u64) -> bool {
        exists|i: int| 0 <= i < self.rows@.len() && self.rows@[i].key == key
    }

    /// Where the row with the handle `key` is kept.
    spec fn slot(&self, key: u64) -> int {
        choose|i: int| 0 <= i < self.rows@.len() && self.rows@[i].key == key
    }
}

impl<T> View for Table<T> {
    type V = Map<u64, T>;

    closed spec fn view(&self) -> Map<u64, T> {
        Map::new(|key: u64| self.has(key), |key: u64| self.rows@[self.slot(key)].value)
    }
}

impl<T> Table<T> {
    /// The order lists exactly the handles of the table, each once, and the
    /// values stand beside their handles.
    pub proof fn lemma_order(&self)
        requires
            self.wf(),
        ensures
            self.order().len() == self.values().len(),
            self.order().no_duplicates(),
            forall|i: int|
                0 <= i < self.order().len() ==> self@.contains_key(#[trigger] self.order()[i])
                    && self@[self.order()[i]] == self.values()[i],
            forall|key: u64| #[trigger]
                self@.contains_key(key) ==> self.order().contains(key),
    {
        assert forall|i: int| 0 <= i < self.order().len() implies self@.contains_key(
            #[trigger] self.order()[i],
        ) && self@[self.order()[i]] == self.values()[i] by {
            assert(self.rows@[i].key == self.order()[i]);
            assert(self.slot(self.order()[i]) == i);
        }
        assert forall|key: u64| #[trigger] self@.contains_key(key) implies self.order().contains(
            key,
        ) by {
            let i = self.slot(key);
            assert(self.order()[i] == key);
        }
    }

    /// An empty table.
    pub fn new() -> (table: Table<T>)
        ensures
            table.wf(),
            table@ == Map::<u64, T>::empty(),
            table.order() == Seq::<u64>::empty(),
    {
        let table = Table { rows: Vec::new() };
        proof {
            assert(table@ =~= Map::<u64, T>::empty());
            assert(table.order() =~= Seq::<u64>::empty());
        }
        table
    }

    /// The number of rows.
    pub fn len(&self) -> (n: usize)
        ensures
            n == self.order().len(),
    {
        self.rows.len()
    }

    /// The handle of the `i`-th row.
    pub fn key_at(&self, i: usize) -> (key: u64)
        requires
            self.wf(),
            i < self.order().len(),
        ensures
            key == self.order()[i as int],
            self@.contains_key(key),
    {
        proof {
            self.lemma_order();
        }
        self.rows[i].key
    }

    /// The value of the `i`-th row.
    pub fn value_at(&self, i: usize) -> (value: &T)
        requires
            self.wf(),
            i < self.order().len(),
        ensures
            *value == self.values()[i as int],
            *value == self@[self.order()[i as int]],
    {
        proof {
            self.lemma_order();
        }
        &self.rows[i].value
    }

    fn position(&self, key: u64) -> (r: Option<usize>)
        requires
            self.wf(),
        ensures
            match r {
                Some(i) => i < self.rows@.len() && self.rows@[i as int].key == key
                    && self.slot(key) == i && self.has(key),
                None => !self.has(key),
            },
    {
        let n: usize = self.rows.len();
        let mut i: usize = 0;
        while i < n
            invariant
                i <= n,
                n == self.rows@.len(),
                self.wf(),
                forall|j: int| 0 <= j < i ==> self.rows@[j].key != key,
            decreases n - i,
        {
            if self.rows[i].key == key {
                assert(self.has(key));
                assert(self.slot(key) == i);
                return Some(i);
            }
            i = i + 1;
        }
        None
    }

    /// Whether the table has a row for `key`.
    pub fn contains_key(&self, key: u64) -> (found: bool)
        requires
            self.wf(),
        ensures
            found == self@.contains_key(key),
    {
        self.position(key).is_some()
    }

    /// The value under `key`.
    pub fn get(&self, key: u64) -> (r: Option<&T>)
        requires
            self.wf(),
        ensures
            match r {
                Some(value) => self@.contains_key(key) && *value == self@[key],
                None => !self@.contains_key(key),
            },
    {
        match self.position(key) {
            Some(i) => Some(&self.rows[i].value),
            None => None,
        }
    }

    /// Puts `value` under `key`, as the last row. With a row for `key`
    /// already there the table stays as it is and the value comes back.
    pub fn insert(&mut self, key: u64, value: T) -> (r: Option<T>)
        requires
            old(self).wf(),
        ensures
            final(self).wf(),
            match r {
                None => !old(self)@.contains_key(key) && final(self)@ == old(self)@.insert(
                    key,
                    value,
                ) && final(self).order() == old(self).order().push(key),
                Some(back) => old(self)@.contains_key(key) && back == value && final(self)@
                    == old(self)@ && final(self).order() == old(self).order(),
            },
    {
        match self.position(key) {
            Some(_) => Some(value),
            None => {
                self.rows.push(Row { key, value });
                proof {
                    let last = old(self).rows@.len() as int;
                    assert forall|k: u64| #[trigger]
                        self@.contains_key(k) <==> old(self)@.insert(key, value).contains_key(
                        k,
                    ) by {
                        if old(self).has(k) {
                            let i = old(self).slot(k);
                            assert(self.rows@[i].key == k);
                        }
                        if k == key {
                            assert(self.rows@[last].key == k);
                        }
                    }
                    assert forall|k: u64| #[trigger] self@.contains_key(k) implies self@[k]
                        == old(self)@.insert(key, value)[k] by {
                        let i = self.slot(k);
                        if i < last {
                            assert(old(self).rows@[i].key == k);
                            assert(old(self).slot(k) == i);
                        }
                    }
                    assert(self@ =~= old(self)@.insert(key, value));
                    assert(self.order() =~= old(self).order().push(key));
                }
                None
            },
        }
    }

    /// Takes the row for `key` out of the table.
    pub fn remove(&mut self, key: u64) -> (r: Option<T>)
        requires
            old(self).wf(),
        ensures
            final(self).wf(),
            match r {
                Some(value) => old(self)@.contains_key(key) && value == old(self)@[key],
                None => !old(self)@.contains_key(key),
            },
            final(self)@ == old(self)@.remove(key),
            final(self).order() == without(old(self).order(), key),
    {
        match self.position(key) {
            Some(i) => {
                let row = self.rows.remove(i);
                proof {
                    assert forall|k: u64| #[trigger]
                        self@.contains_key(k) <==> old(self)@.remove(key).contains_key(k) by {
                        if self.has(k) {
                            let j = self.slot(k);
                            if j < i {
                                assert(old(self).rows@[j].key == k);
                            } else {
                                assert(old(self).rows@[j + 1].key == k);
                            }
                        }
                        if old(self).has(k) && k != key {
                            let j = old(self).slot(k);
                            if j < i {
                                assert(self.rows@[j].key == k);
                            } else {
                                assert(self.rows@[j - 1].key == k);
                            }
                        }
                    }
                    assert forall|k: u64| #[trigger] self@.contains_key(k) implies self@[k]
                        == old(self)@.remove(key)[k] by {
                        let j = self.slot(k);
                        if j < i {
                            assert(old(self).rows@[j].key == k);
                            assert(old(self).slot(k) == j);
                        } else {
                            assert(old(self).rows@[j + 1].key == k);
                            assert(old(self).slot(k) == j + 1);
                        }
                    }
                    assert(self@ =~= old(self)@.remove(key));
                    old(self).lemma_order();
                    lemma_without_at(old(self).order(), i as int);
                    assert(old(self).order()[i as int] == key);
                    assert(self.order() =~= old(self).order().remove(i as int));
                }
                Some(row.value)
            },
            None => {
                proof {
                    assert(self@ =~= old(self)@.remove(key));
                    assert(!old(self).order().contains(key)) by {
                        if old(self).order().contains(key) {
                            let j = choose|j: int|
                                0 <= j < old(self).order().len() && old(self).order()[j] == key;
                            assert(old(self).rows@[j].key == key);
                        }
                    }
                    lemma_without_absent(old(self).order(), key);
                }
                None
            },
        }
    }
}

/// The handles of `s` but `key`, in their order.
pub open spec fn without(s: Seq<u64>, key: u64) -> Seq<u64> {
    s.filter(|k: u64| k != key)
}

/// Leaving a handle out of a list without repetitions leaves a list without
/// repetitions that holds the other handles and only those.
pub proof fn lemma_without(s: Seq<u64>, key: u64)
    requires
        s.no_duplicates(),
    ensures
        without(s, key).no_duplicates(),
        without(s, key).len() <= s.len(),
        forall|k: u64| #[trigger] without(s, key).contains(k) <==> s.contains(k) && k != key,
    decreases s.len(),
{
    reveal(Seq::filter);
    let keep = |k: u64| k != key;
    if s.len() > 0 {
        let front = s.drop_last();
        let last = s.last();
        let sub = without(front, key);
        lemma_without(front, key);
        assert(!front.contains(last)) by {
            if front.contains(last) {
                let i = choose|i: int| 0 <= i < front.len() && front[i] == last;
                assert(s[i] == s[s.len() - 1]);
            }
        }
        assert forall|k: u64| #[trigger] s.contains(k) <==> front.contains(k) || k == last by {
            if s.contains(k) {
                let i = choose|i: int| 0 <= i < s.len() && s[i] == k;
                if i < front.len() {
                    assert(front[i] == k);
                }
            }
            if front.contains(k) {
                let i = choose|i: int| 0 <= i < front.len() && front[i] == k;
                assert(s[i] == k);
            }
            if k == last {
                assert(s[s.len() - 1] == k);
            }
        }
        if keep(last) {
            assert(without(s, key) == sub.push(last));
            assert(!sub.contains(last));
            assert forall|k: u64| #[trigger] sub.push(last).contains(k) <==> sub.contains(k) || k
                == last by {
                if sub.push(last).contains(k) {
                    let i = choose|i: int| 0 <= i < sub.push(last).len() && sub.push(last)[i] == k;
                    if i < sub.len() {
                        assert(sub[i] == k);
                    }
                }
                if sub.contains(k) {
                    let i = choose|i: int| 0 <= i < sub.len() && sub[i] == k;
                    assert(sub.push(last)[i] == k);
                }
                if k == last {
                    assert(sub.push(last)[sub.len() as int] == k);
                }
            }
            let longer = sub.push(last);
            assert forall|i: int, j: int|
                0 <= i < longer.len() && 0 <= j < longer.len() && i != j implies longer[i]
                != longer[j] by {
                if i < sub.len() && j < sub.len() {
                } else if i < sub.len() {
                    assert(sub.contains(sub[i]));
                } else {
                    assert(sub.contains(sub[j]));
                }
            }
        } else {
            assert(without(s, key) == sub);
        }
    } else {
        assert(without(s, key) =~= s);
    }
}

/// Leaving out a handle that does not occur changes nothing.
pub proof fn lemma_without_absent(s: Seq<u64>, key: u64)
    requires
        !s.contains(key),
    ensures
        without(s, key) == s,
    decreases s.len(),
{
    reveal(Seq::filter);
    if s.len() > 0 {
        let front = s.drop_last();
        assert(s[s.len() - 1] != key);
        assert forall|i: int| 0 <= i < front.len() implies front[i] != key by {
            assert(s[i] == front[i]);
        }
        lemma_without_absent(front, key);
        assert(front.push(s.last()) =~= s);
    } else {
        assert(without(s, key) =~= s);
    }
}

/// Leaving out the handle at place `i` of a list without repetitions removes
/// that place and nothing else.
pub proof fn lemma_without_at(s: Seq<u64>, i: int)
    requires
        s.no_duplicates(),
        0 <= i < s.len(),
    ensures
        without(s, s[i]) == s.remove(i),
    decreases s.len(),
{
    reveal(Seq::filter);
    let key = s[i];
    let front = s.drop_last();
    if i == s.len() - 1 {
        assert forall|j: int| 0 <= j < front.len() implies front[j] != key by {
            assert(s[j] == front[j]);
        }
        lemma_without_absent(front, key);
        assert(s.remove(i) =~= front);
    } else {
        assert(s.last() != key);
        lemma_without_at(front, i);
        assert(front.remove(i).push(s.last()) =~= s.remove(i));
    }
}

} // verus!
