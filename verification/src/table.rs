//! A map from text keys to values, held as a list of entries with distinct
//! keys. It stands where the daemon keys its state by window ids and unit
//! paths.
use crate::text::str_eq;
use vstd::prelude::*;

verus! {

/// The map that a list of entries with distinct keys stands for.
pub open spec fn entries_map<K, V>(s: Seq<(K, V)>) -> Map<K, V>
    decreases s.len(),
{
    if s.len() == 0 {
        Map::empty()
    } else {
        entries_map(s.drop_last()).insert(s.last().0, s.last().1)
    }
}

/// No key occurs twice.
pub open spec fn distinct_keys<K, V>(s: Seq<(K, V)>) -> bool {
    forall|i: int, j: int| 0 <= i < s.len() && 0 <= j < s.len() && i != j ==> s[i].0 != s[j].0
}

pub proof fn lemma_entries_map_dom<K, V>(s: Seq<(K, V)>, k: K)
    ensures
        entries_map(s).dom().contains(k) <==> exists|i: int| 0 <= i < s.len() && s[i].0 == k,
    decreases s.len(),
{
    if s.len() > 0 {
        lemma_entries_map_dom(s.drop_last(), k);
        if entries_map(s).dom().contains(k) && k != s.last().0 {
            let i = choose|i: int| 0 <= i < s.drop_last().len() && s.drop_last()[i].0 == k;
            assert(s[i].0 == k);
        }
        if exists|i: int| 0 <= i < s.len() && s[i].0 == k {
            let i = choose|i: int| 0 <= i < s.len() && s[i].0 == k;
            if i < s.len() - 1 {
                assert(s.drop_last()[i].0 == k);
            }
        }
    }
}

pub proof fn lemma_entries_map_index<K, V>(s: Seq<(K, V)>, i: int)
    requires
        distinct_keys(s),
        0 <= i < s.len(),
    ensures
        entries_map(s).dom().contains(s[i].0),
        entries_map(s)[s[i].0] == s[i].1,
    decreases s.len(),
{
    if i < s.len() - 1 {
        let t = s.drop_last();
        assert(distinct_keys(t)) by {
            assert forall|a: int, b: int|
                0 <= a < t.len() && 0 <= b < t.len() && a != b implies t[a].0 != t[b].0 by {
                assert(t[a] == s[a] && t[b] == s[b]);
            }
        }
        lemma_entries_map_index(t, i);
        assert(t[i] == s[i]);
        assert(s[i].0 != s.last().0);
    }
}

/// Text keys mapped to values.
#[derive(Debug)]
pub struct Table<V> {
    entries: Vec<(String, V)>,
}

impl<V> Table<V> {
    /// The entries, keys taken by their text.
    pub closed spec fn entry_seq(self) -> Seq<(Seq<char>, V)> {
        self.entries@.map_values(|e: (String, V)| (e.0@, e.1))
    }

    /// Keys are distinct.
    pub closed spec fn wf(self) -> bool {
        distinct_keys(self.entry_seq())
    }

    /// The map the table stands for.
    pub closed spec fn view(self) -> Map<Seq<char>, V> {
        entries_map(self.entry_seq())
    }

    pub fn new() -> (r: Self)
        ensures
            r.wf(),
            r.view() == Map::<Seq<char>, V>::empty(),
    {
        let r = Table { entries: Vec::new() };
        assert(r.entry_seq() =~= Seq::<(Seq<char>, V)>::empty());
        r
    }

    pub fn len(&self) -> (r: usize)
        requires
            self.wf(),
        ensures
            r == self.view().dom().len(),
    {
        proof {
            self.lemma_len();
        }
        self.entries.len()
    }

    pub fn is_empty(&self) -> (r: bool)
        requires
            self.wf(),
        ensures
            r == (self.view().dom().len() == 0),
    {
        self.len() == 0
    }

    proof fn lemma_len(self)
        requires
            self.wf(),
        ensures
            self.view().dom().finite(),
            self.view().dom().len() == self.entries@.len(),
    {
        lemma_entries_map_len(self.entry_seq());
    }

    /// Position of `key` among the entries.
    fn position(&self, key: &str) -> (r: Option<usize>)
        requires
            self.wf(),
        ensures
            match r {
                Some(i) => i < self.entries@.len() && self.entries@[i as int].0@ == key@,
                None => !self.view().dom().contains(key@),
            },
    {
        let mut i: usize = 0;
        while i < self.entries.len()
            invariant
                i <= self.entries@.len(),
                forall|j: int| 0 <= j < i ==> self.entries@[j].0@ != key@,
            decreases self.entries@.len() - i,
        {
            if str_eq(self.entries[i].0.as_str(), key) {
                return Some(i);
            }
            i = i + 1;
        }
        proof {
            lemma_entries_map_dom(self.entry_seq(), key@);
            if self.view().dom().contains(key@) {
                let j = choose|j: int|
                    0 <= j < self.entry_seq().len() && self.entry_seq()[j].0 == key@;
                assert(self.entries@[j].0@ == key@);
            }
        }
        None
    }

    pub fn contains_key(&self, key: &str) -> (r: bool)
        requires
            self.wf(),
        ensures
            r == self.view().dom().contains(key@),
    {
        match self.position(key) {
            Some(i) => {
                proof {
                    lemma_entries_map_index(self.entry_seq(), i as int);
                }
                true
            },
            None => false,
        }
    }

    pub fn get(&self, key: &str) -> (r: Option<&V>)
        requires
            self.wf(),
        ensures
            match r {
                Some(v) => self.view().dom().contains(key@) && self.view()[key@] == *v,
                None => !self.view().dom().contains(key@),
            },
    {
        match self.position(key) {
            Some(i) => {
                proof {
                    lemma_entries_map_index(self.entry_seq(), i as int);
                }
                Some(&self.entries[i].1)
            },
            None => None,
        }
    }

    /// Sets the value of `key`, replacing any value it had.
    pub fn insert(&mut self, key: String, value: V)
        requires
            old(self).wf(),
        ensures
            final(self).wf(),
            final(self).view() == old(self).view().insert(key@, value),
    {
        let ghost old_s = self.entry_seq();
        match self.position(key.as_str()) {
            Some(i) => {
                let ghost k = key@;
                self.entries.set(i, (key, value));
                proof {
                    let new_s = self.entry_seq();
                    assert(new_s =~= old_s.update(i as int, (k, value)));
                    lemma_update_distinct(old_s, i as int, value);
                    assert(entries_map(new_s) =~= entries_map(old_s).insert(k, value)) by {
                        lemma_same_map_on_update(old_s, i as int, value);
                    }
                }
            },
            None => {
                let ghost k = key@;
                self.entries.push((key, value));
                proof {
                    let new_s = self.entry_seq();
                    assert(new_s =~= old_s.push((k, value)));
                    assert(new_s.drop_last() =~= old_s);
                    lemma_entries_map_dom(old_s, k);
                    assert forall|a: int, b: int|
                        0 <= a < new_s.len() && 0 <= b < new_s.len() && a != b implies new_s[a].0
                        != new_s[b].0 by {
                        if a < old_s.len() && b < old_s.len() {
                            assert(new_s[a] == old_s[a] && new_s[b] == old_s[b]);
                        } else if a < old_s.len() {
                            assert(new_s[a] == old_s[a]);
                        } else {
                            assert(new_s[b] == old_s[b]);
                        }
                    }
                }
            },
        }
    }

    /// Removes `key`, giving back its value.
    pub fn remove(&mut self, key: &str) -> (r: Option<V>)
        requires
            old(self).wf(),
        ensures
            final(self).wf(),
            final(self).view() == old(self).view().remove(key@),
            match r {
                Some(v) => old(self).view().dom().contains(key@) && old(self).view()[key@] == v,
                None => !old(self).view().dom().contains(key@),
            },
    {
        let ghost old_s = self.entry_seq();
        match self.position(key) {
            Some(i) => {
                proof {
                    lemma_entries_map_index(old_s, i as int);
                }
                let (_, v) = self.entries.remove(i);
                proof {
                    let new_s = self.entry_seq();
                    assert(new_s =~= old_s.remove(i as int));
                    lemma_same_map_on_remove(old_s, i as int);
                }
                Some(v)
            },
            None => {
                assert(self.view() =~= old(self).view().remove(key@));
                None
            },
        }
    }

    /// The keys, in the order of the entries.
    pub fn keys(&self) -> (r: Vec<String>)
        requires
            self.wf(),
        ensures
            r@.len() == self.view().dom().len(),
            forall|k: Seq<char>|
                self.view().dom().contains(k) <==> exists|i: int|
                    0 <= i < r@.len() && (#[trigger] r@[i])@ == k,
            forall|i: int, j: int|
                0 <= i < r@.len() && 0 <= j < r@.len() && i != j ==> r@[i]@ != r@[j]@,
    {
        let mut r: Vec<String> = Vec::new();
        let mut i: usize = 0;
        while i < self.entries.len()
            invariant
                i <= self.entries@.len(),
                r@.len() == i,
                forall|j: int| 0 <= j < i ==> (#[trigger] r@[j])@ == self.entries@[j].0@,
            decreases self.entries@.len() - i,
        {
            r.push(self.entries[i].0.clone());
            i = i + 1;
        }
        proof {
            self.lemma_len();
            assert forall|k: Seq<char>|
                self.view().dom().contains(k) <==> exists|i: int|
                    0 <= i < r@.len() && (#[trigger] r@[i])@ == k by {
                lemma_entries_map_dom(self.entry_seq(), k);
                if self.view().dom().contains(k) {
                    let j = choose|j: int|
                        0 <= j < self.entry_seq().len() && self.entry_seq()[j].0 == k;
                    assert(r@[j]@ == k);
                }
                if exists|i: int| 0 <= i < r@.len() && (#[trigger] r@[i])@ == k {
                    let j = choose|j: int| 0 <= j < r@.len() && (#[trigger] r@[j])@ == k;
                    assert(self.entry_seq()[j].0 == k);
                }
            }
            assert forall|a: int, b: int|
                0 <= a < r@.len() && 0 <= b < r@.len() && a != b implies r@[a]@ != r@[b]@ by {
                assert(self.entry_seq()[a].0 == r@[a]@);
                assert(self.entry_seq()[b].0 == r@[b]@);
            }
        }
        r
    }

    /// Whether some value satisfies `pred`.
    pub(crate) fn any(&self, Ghost(pred): Ghost<spec_fn(V) -> bool>, f: impl Fn(&V) -> bool) -> (r: bool)
        requires
            self.wf(),
            forall|v: &V| #[trigger] f.requires((v,)),
            forall|v: &V, b: bool| f.ensures((v,), b) ==> b == pred(*v),
        ensures
            r == exists|k: Seq<char>| self.view().dom().contains(k) && pred(#[trigger] self.view()[k]),
    {
        let mut i: usize = 0;
        while i < self.entries.len()
            invariant
                i <= self.entries@.len(),
                self.wf(),
                forall|v: &V| #[trigger] f.requires((v,)),
                forall|v: &V, b: bool| f.ensures((v,), b) ==> b == pred(*v),
                forall|j: int| 0 <= j < i ==> !pred(#[trigger] self.entries@[j].1),
            decreases self.entries@.len() - i,
        {
            if f(&self.entries[i].1) {
                proof {
                    let s = self.entry_seq();
                    lemma_entries_map_index(s, i as int);
                    assert(s[i as int].1 == self.entries@[i as int].1);
                    assert(self.view().dom().contains(s[i as int].0) && pred(
                        self.view()[s[i as int].0],
                    ));
                }
                return true;
            }
            i = i + 1;
        }
        proof {
            let s = self.entry_seq();
            assert forall|k: Seq<char>|
                self.view().dom().contains(k) implies !pred(#[trigger] self.view()[k]) by {
                lemma_entries_map_dom(s, k);
                let j = choose|j: int| 0 <= j < s.len() && s[j].0 == k;
                lemma_entries_map_index(s, j);
                assert(s[j].1 == self.entries@[j].1);
            }
        }
        false
    }
}

pub proof fn lemma_entries_map_len<K, V>(s: Seq<(K, V)>)
    requires
        distinct_keys(s),
    ensures
        entries_map(s).dom().finite(),
        entries_map(s).dom().len() == s.len(),
    decreases s.len(),
{
    if s.len() > 0 {
        let t = s.drop_last();
        assert(distinct_keys(t)) by {
            assert forall|a: int, b: int|
                0 <= a < t.len() && 0 <= b < t.len() && a != b implies t[a].0 != t[b].0 by {
                assert(t[a] == s[a] && t[b] == s[b]);
            }
        }
        lemma_entries_map_len(t);
        lemma_entries_map_dom(t, s.last().0);
        if entries_map(t).dom().contains(s.last().0) {
            let i = choose|i: int| 0 <= i < t.len() && t[i].0 == s.last().0;
            assert(s[i].0 == s[s.len() - 1].0);
        }
    }
}

pub proof fn lemma_update_distinct<K, V>(s: Seq<(K, V)>, i: int, v: V)
    requires
        distinct_keys(s),
        0 <= i < s.len(),
    ensures
        distinct_keys(s.update(i, (s[i].0, v))),
{
    let t = s.update(i, (s[i].0, v));
    assert forall|a: int, b: int|
        0 <= a < t.len() && 0 <= b < t.len() && a != b implies t[a].0 != t[b].0 by {
        assert(t[a].0 == s[a].0 && t[b].0 == s[b].0);
    }
}

pub proof fn lemma_same_map_on_update<K, V>(s: Seq<(K, V)>, i: int, v: V)
    requires
        distinct_keys(s),
        0 <= i < s.len(),
    ensures
        entries_map(s.update(i, (s[i].0, v))) =~= entries_map(s).insert(s[i].0, v),
{
    let t = s.update(i, (s[i].0, v));
    let k = s[i].0;
    lemma_update_distinct(s, i, v);
    assert forall|x: K|
        entries_map(t).dom().contains(x) <==> #[trigger] entries_map(s).insert(
            k,
            v,
        ).dom().contains(x) by {
        lemma_entries_map_dom(t, x);
        lemma_entries_map_dom(s, x);
        if exists|j: int| 0 <= j < s.len() && s[j].0 == x {
            let j = choose|j: int| 0 <= j < s.len() && s[j].0 == x;
            assert(t[j].0 == x);
        }
        if exists|j: int| 0 <= j < t.len() && t[j].0 == x {
            let j = choose|j: int| 0 <= j < t.len() && t[j].0 == x;
            assert(s[j].0 == x);
        }
    }
    assert forall|x: K| #[trigger]
        entries_map(t).dom().contains(x) implies entries_map(t)[x] == entries_map(s).insert(
        k,
        v,
    )[x] by {
        lemma_entries_map_dom(t, x);
        let j = choose|j: int| 0 <= j < t.len() && t[j].0 == x;
        lemma_entries_map_index(t, j);
        if j != i {
            lemma_entries_map_index(s, j);
            assert(t[j] == s[j]);
        }
    }
}

pub proof fn lemma_same_map_on_remove<K, V>(s: Seq<(K, V)>, i: int)
    requires
        distinct_keys(s),
        0 <= i < s.len(),
    ensures
        distinct_keys(s.remove(i)),
        entries_map(s.remove(i)) =~= entries_map(s).remove(s[i].0),
{
    let t = s.remove(i);
    let k = s[i].0;
    assert forall|a: int, b: int|
        0 <= a < t.len() && 0 <= b < t.len() && a != b implies t[a].0 != t[b].0 by {
        let a2 = if a < i {
            a
        } else {
            a + 1
        };
        let b2 = if b < i {
            b
        } else {
            b + 1
        };
        assert(t[a] == s[a2] && t[b] == s[b2]);
    }
    assert forall|x: K|
        entries_map(t).dom().contains(x) <==> #[trigger] entries_map(s).remove(
            k,
        ).dom().contains(x) by {
        lemma_entries_map_dom(t, x);
        lemma_entries_map_dom(s, x);
        if exists|j: int| 0 <= j < s.len() && s[j].0 == x {
            let j = choose|j: int| 0 <= j < s.len() && s[j].0 == x;
            if x != k {
                assert(j != i);
                let j2 = if j < i {
                    j
                } else {
                    j - 1
                };
                assert(t[j2].0 == x);
            }
        }
        if exists|j: int| 0 <= j < t.len() && t[j].0 == x {
            let j = choose|j: int| 0 <= j < t.len() && t[j].0 == x;
            let j2 = if j < i {
                j
            } else {
                j + 1
            };
            assert(s[j2].0 == x);
            assert(j2 != i);
        }
    }
    assert forall|x: K| #[trigger]
        entries_map(t).dom().contains(x) implies entries_map(t)[x] == entries_map(s).remove(
        k,
    )[x] by {
        lemma_entries_map_dom(t, x);
        let j = choose|j: int| 0 <= j < t.len() && t[j].0 == x;
        lemma_entries_map_index(t, j);
        let j2 = if j < i {
            j
        } else {
            j + 1
        };
        assert(t[j] == s[j2]);
        lemma_entries_map_index(s, j2);
    }
}

} // verus!
