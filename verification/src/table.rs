//! A small map from keys with a contents comparison to values.

use vstd::prelude::*;

verus! {

/// A key that can be compared by what it says.
pub trait TableKey: View {
    fn same(&self, other: &Self) -> (r: bool)
        ensures
            r == (self.view() == other.view()),
    ;
}

impl TableKey for String {
    fn same(&self, other: &Self) -> (r: bool) {
        *self == *other
    }
}

/// A map, kept as a list of its entries.
#[derive(Debug)]
pub struct Table<K, V> {
    pub entries: Vec<(K, V)>,
}

/// The map that a list of entries stands for.
pub open spec fn map_of<K: TableKey, V>(s: Seq<(K, V)>) -> Map<<K as View>::V, V>
    decreases s.len(),
{
    if s.len() == 0 {
        Map::empty()
    } else {
        map_of(s.drop_last()).insert(s.last().0.view(), s.last().1)
    }
}

/// No two entries of one key.
pub open spec fn distinct_keys<K: TableKey, V>(s: Seq<(K, V)>) -> bool {
    forall|i: int, j: int|
        #![trigger s[i], s[j]]
        0 <= i < j < s.len() ==> s[i].0.view() != s[j].0.view()
}

impl<K: TableKey, V> View for Table<K, V> {
    type V = Map<<K as View>::V, V>;

    open spec fn view(&self) -> Map<<K as View>::V, V> {
        map_of(self.entries@)
    }
}

/// A map holds what stands in the list of its entries, and nothing else.
pub proof fn lemma_map_of<K: TableKey, V>(s: Seq<(K, V)>)
    requires
        distinct_keys(s),
    ensures
        forall|i: int|
            0 <= i < s.len() ==> map_of(s).contains_key((#[trigger] s[i]).0.view()) && map_of(
                s,
            )[s[i].0.view()] == s[i].1,
        forall|k: <K as View>::V| #[trigger]
            map_of(s).contains_key(k) ==> exists|i: int|
                0 <= i < s.len() && (#[trigger] s[i]).0.view() == k,
    decreases s.len(),
{
    if s.len() > 0 {
        let init = s.drop_last();
        assert forall|i: int, j: int|
            #![trigger init[i], init[j]]
            0 <= i < j < init.len() implies init[i].0.view() != init[j].0.view() by {
            assert(s[i].0.view() != s[j].0.view());
        }
        lemma_map_of(init);
        assert forall|i: int| 0 <= i < s.len() implies map_of(s).contains_key(
            (#[trigger] s[i]).0.view(),
        ) && map_of(s)[s[i].0.view()] == s[i].1 by {
            if i < init.len() {
                assert(init[i] == s[i]);
                assert(s[i].0.view() != s[s.len() - 1].0.view());
            }
        }
        assert forall|k: <K as View>::V| #[trigger] map_of(s).contains_key(k) implies exists|i: int|
            0 <= i < s.len() && (#[trigger] s[i]).0.view() == k by {
            if k == s.last().0.view() {
                assert(s[s.len() - 1].0.view() == k);
            } else {
                assert(map_of(init).contains_key(k));
                let i = choose|i: int| 0 <= i < init.len() && (#[trigger] init[i]).0.view() == k;
                assert(s[i] == init[i]);
            }
        }
    }
}

proof fn lemma_map_of_remove<K: TableKey, V>(s: Seq<(K, V)>, i: int)
    requires
        distinct_keys(s),
        0 <= i < s.len(),
    ensures
        distinct_keys(s.remove(i)),
        map_of(s.remove(i)) == map_of(s).remove(s[i].0.view()),
{
    let t = s.remove(i);
    assert forall|a: int, b: int| #![trigger t[a], t[b]] 0 <= a < b < t.len() implies t[a].0.view()
        != t[b].0.view() by {
        let x = if a < i {
            a
        } else {
            a + 1
        };
        let y = if b < i {
            b
        } else {
            b + 1
        };
        assert(s[x].0.view() != s[y].0.view());
    }
    lemma_map_of(s);
    lemma_map_of(t);
    let gone = map_of(s).remove(s[i].0.view());
    assert forall|k: <K as View>::V| map_of(t).contains_key(k) == #[trigger] gone.contains_key(
        k,
    ) by {
        if map_of(t).contains_key(k) {
            let a = choose|a: int| 0 <= a < t.len() && (#[trigger] t[a]).0.view() == k;
            let x = if a < i {
                a
            } else {
                a + 1
            };
            assert(s[x] == t[a]);
            assert(s[x].0.view() == k);
            if x < i {
                assert(s[x].0.view() != s[i].0.view());
            } else {
                assert(s[i].0.view() != s[x].0.view());
            }
        }
        if gone.contains_key(k) {
            let x = choose|x: int| 0 <= x < s.len() && (#[trigger] s[x]).0.view() == k;
            let a = if x < i {
                x
            } else {
                x - 1
            };
            assert(t[a] == s[x]);
        }
    }
    assert forall|k: <K as View>::V| map_of(t).contains_key(k) implies #[trigger] map_of(t)[k]
        == gone[k] by {
        let a = choose|a: int| 0 <= a < t.len() && (#[trigger] t[a]).0.view() == k;
        let x = if a < i {
            a
        } else {
            a + 1
        };
        assert(s[x] == t[a]);
        assert(gone.contains_key(k));
        assert(map_of(s)[s[x].0.view()] == s[x].1);
    }
    assert(map_of(t) =~= gone);
}

impl<K: TableKey, V> Table<K, V> {
    /// No two entries of one key.
    pub open spec fn wf(self) -> bool {
        distinct_keys(self.entries@)
    }

    pub fn new() -> (r: Self)
        ensures
            r.wf(),
            r@ == Map::<<K as View>::V, V>::empty(),
    {
        Table { entries: Vec::new() }
    }

    /// The place of a key's entry.
    fn find(&self, key: &K) -> (r: Option<usize>)
        requires
            self.wf(),
        ensures
            match r {
                Some(i) => i < self.entries@.len() && self.entries@[i as int].0.view()
                    == key.view() && self@.contains_key(key.view()) && self@[key.view()]
                    == self.entries@[i as int].1,
                None => !self@.contains_key(key.view()),
            },
    {
        proof {
            lemma_map_of(self.entries@);
        }
        let mut i: usize = 0;
        while i < self.entries.len()
            invariant
                i <= self.entries@.len(),
                forall|j: int| 0 <= j < i ==> (#[trigger] self.entries@[j]).0.view() != key.view(),
                forall|j: int|
                    0 <= j < self.entries@.len() ==> self@.contains_key(
                        (#[trigger] self.entries@[j]).0.view(),
                    ) && self@[self.entries@[j].0.view()] == self.entries@[j].1,
            decreases self.entries@.len() - i,
        {
            if self.entries[i].0.same(key) {
                assert(self.entries@[i as int].0.view() == key.view());
                return Some(i);
            }
            i = i + 1;
        }
        None
    }

    /// The value of a key.
    pub fn get(&self, key: &K) -> (r: Option<&V>)
        requires
            self.wf(),
        ensures
            match r {
                Some(v) => self@.contains_key(key.view()) && *v == self@[key.view()],
                None => !self@.contains_key(key.view()),
            },
    {
        match self.find(key) {
            Some(i) => Some(&self.entries[i].1),
            None => None,
        }
    }

    /// Takes a key's entry out.
    pub fn take(&mut self, key: &K) -> (r: Option<V>)
        requires
            old(self).wf(),
        ensures
            final(self).wf(),
            final(self)@ == old(self)@.remove(key.view()),
            match r {
                Some(v) => old(self)@.contains_key(key.view()) && v == old(self)@[key.view()],
                None => !old(self)@.contains_key(key.view()),
            },
    {
        match self.find(key) {
            Some(i) => {
                proof {
                    lemma_map_of_remove(self.entries@, i as int);
                }
                let (_, v) = self.entries.remove(i);
                Some(v)
            },
            None => {
                assert(self@.remove(key.view()) =~= self@);
                None
            },
        }
    }

    /// Takes the entry at a place out.
    pub fn take_at(&mut self, i: usize) -> (r: (K, V))
        requires
            old(self).wf(),
            i < old(self).entries@.len(),
        ensures
            final(self).wf(),
            r == old(self).entries@[i as int],
            final(self).entries@ == old(self).entries@.remove(i as int),
            final(self)@ == old(self)@.remove(r.0.view()),
            old(self)@.contains_key(r.0.view()),
            old(self)@[r.0.view()] == r.1,
    {
        proof {
            lemma_map_of(self.entries@);
            lemma_map_of_remove(self.entries@, i as int);
        }
        self.entries.remove(i)
    }

    /// Gives a key a value, in place of any that it had.
    pub fn insert(&mut self, key: K, value: V)
        requires
            old(self).wf(),
        ensures
            final(self).wf(),
            final(self)@ == old(self)@.insert(key.view(), value),
    {
        let ghost before = self@;
        let _ = self.take(&key);
        let ghost s = self.entries@;
        proof {
            lemma_map_of(s);
            let t = s.push((key, value));
            assert(t.drop_last() =~= s);
            assert forall|a: int, b: int|
                #![trigger t[a], t[b]]
                0 <= a < b < t.len() implies t[a].0.view() != t[b].0.view() by {
                if b < s.len() {
                    assert(s[a].0.view() != s[b].0.view());
                } else {
                    assert(map_of(s).contains_key(s[a].0.view()));
                }
            }
        }
        self.entries.push((key, value));
        assert(self@ =~= before.insert(key.view(), value));
    }
}

} // verus!
