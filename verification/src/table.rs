//! A finite map keyed by strings, held as a vector of entries with distinct
//! keys.
use vstd::prelude::*;

verus! {

/// The entries' keys are pairwise distinct.
pub open spec fn keys_unique<V>(s: Seq<(String, V)>) -> bool {
    forall|i: int, j: int| 0 <= i < s.len() && 0 <= j < s.len() && i != j ==> (#[trigger] s[i]).0@
        != (#[trigger] s[j]).0@
}

/// The map that the entries stand for.
pub open spec fn entries_map<V: View>(s: Seq<(String, V)>) -> Map<Seq<char>, V::V>
    decreases s.len(),
{
    if s.len() == 0 {
        Map::empty()
    } else {
        entries_map(s.drop_last()).insert(s.last().0@, s.last().1@)
    }
}

/// Some entry has key `k`.
pub open spec fn has_key<V>(s: Seq<(String, V)>, k: Seq<char>) -> bool {
    exists|i: int| 0 <= i < s.len() && (#[trigger] s[i]).0@ == k
}

pub proof fn lemma_entries_map<V: View>(s: Seq<(String, V)>)
    requires
        keys_unique(s),
    ensures
        entries_map(s).dom().finite(),
        entries_map(s).dom().len() == s.len(),
        forall|k: Seq<char>| #[trigger] entries_map(s).contains_key(k) <==> has_key(s, k),
        forall|i: int| 0 <= i < s.len() ==> entries_map(s)[(#[trigger] s[i]).0@] == s[i].1@,
    decreases s.len(),
{
    if s.len() > 0 {
        let p = s.drop_last();
        let x = s.last();
        assert forall|i: int, j: int|
            0 <= i < p.len() && 0 <= j < p.len() && i != j implies (#[trigger] p[i]).0@ != (
        #[trigger] p[j]).0@ by {
            assert(p[i] == s[i] && p[j] == s[j]);
        }
        lemma_entries_map(p);
        assert(!has_key(p, x.0@)) by {
            if has_key(p, x.0@) {
                let i = choose|i: int| 0 <= i < p.len() && (#[trigger] p[i]).0@ == x.0@;
                assert(s[i] == p[i]);
                assert(s[s.len() - 1] == x);
            }
        }
        assert forall|k: Seq<char>| #[trigger] entries_map(s).contains_key(k) <==> has_key(s, k) by {
            if has_key(s, k) {
                let i = choose|i: int| 0 <= i < s.len() && (#[trigger] s[i]).0@ == k;
                if i < s.len() - 1 {
                    assert(p[i] == s[i]);
                }
            }
            if entries_map(p).contains_key(k) {
                let i = choose|i: int| 0 <= i < p.len() && (#[trigger] p[i]).0@ == k;
                assert(s[i] == p[i]);
            }
            if k == x.0@ {
                assert(s[s.len() - 1] == x);
            }
        }
        assert forall|i: int| 0 <= i < s.len() implies entries_map(s)[(#[trigger] s[i]).0@]
            == s[i].1@ by {
            if i < s.len() - 1 {
                assert(p[i] == s[i]);
                assert(s[i].0@ != s[s.len() - 1].0@);
            }
        }
    }
}

/// Replacing the value of one entry keeps the keys distinct and updates the
/// map at that key.
pub proof fn lemma_update_entry<V: View>(s: Seq<(String, V)>, i: int, e: (String, V))
    requires
        keys_unique(s),
        0 <= i < s.len(),
        e.0@ == s[i].0@,
    ensures
        keys_unique(s.update(i, e)),
        entries_map(s.update(i, e)) == entries_map(s).insert(e.0@, e.1@),
{
    let t = s.update(i, e);
    lemma_entries_map(s);
    assert forall|a: int, b: int|
        0 <= a < t.len() && 0 <= b < t.len() && a != b implies (#[trigger] t[a]).0@ != (
    #[trigger] t[b]).0@ by {
        assert(s[a].0@ == t[a].0@);
        assert(s[b].0@ == t[b].0@);
    }
    lemma_entries_map(t);
    let m = entries_map(s).insert(e.0@, e.1@);
    assert forall|q: Seq<char>| entries_map(t).contains_key(q) <==> m.contains_key(q) by {
        if has_key(t, q) {
            let a = choose|a: int| 0 <= a < t.len() && (#[trigger] t[a]).0@ == q;
            assert(s[a].0@ == t[a].0@);
        }
        if has_key(s, q) {
            let a = choose|a: int| 0 <= a < s.len() && (#[trigger] s[a]).0@ == q;
            assert(s[a].0@ == t[a].0@);
        }
        if q == e.0@ {
            assert(t[i].0@ == q);
        }
    }
    assert forall|q: Seq<char>| #[trigger] entries_map(t).contains_key(q) implies entries_map(t)[q]
        == m[q] by {
        let a = choose|a: int| 0 <= a < t.len() && (#[trigger] t[a]).0@ == q;
        if a != i {
            assert(s[a] == t[a]);
        }
    }
    assert(entries_map(t) =~= m);
}

/// A string-keyed map with distinct keys.
pub struct Table<V> {
    pub entries: Vec<(String, V)>,
}

impl<V: View> View for Table<V> {
    type V = Map<Seq<char>, V::V>;

    open spec fn view(&self) -> Map<Seq<char>, V::V> {
        entries_map(self.entries@)
    }
}

impl<V: View> Table<V> {
    pub open spec fn wf(&self) -> bool {
        keys_unique(self.entries@)
    }

    pub fn new() -> (r: Self)
        ensures
            r.wf(),
            r.entries@.len() == 0,
            r@ == Map::<Seq<char>, V::V>::empty(),
    {
        Table { entries: Vec::new() }
    }

    pub fn len(&self) -> (r: usize)
        requires
            self.wf(),
        ensures
            r == self@.len(),
    {
        proof {
            lemma_entries_map(self.entries@);
        }
        self.entries.len()
    }

    /// The index of the entry with key `k`, if any.
    pub fn find(&self, k: &String) -> (r: Option<usize>)
        requires
            self.wf(),
        ensures
            match r {
                Some(i) => i < self.entries@.len() && self.entries@[i as int].0@ == k@,
                None => !self@.contains_key(k@),
            },
    {
        proof {
            lemma_entries_map(self.entries@);
        }
        let mut i: usize = 0;
        while i < self.entries.len()
            invariant
                i <= self.entries@.len(),
                forall|j: int| 0 <= j < i ==> (#[trigger] self.entries@[j]).0@ != k@,
            decreases self.entries@.len() - i,
        {
            if self.entries[i].0 == *k {
                return Some(i);
            }
            i = i + 1;
        }
        None
    }

    pub fn insert(&mut self, k: String, v: V)
        requires
            old(self).wf(),
        ensures
            final(self).wf(),
            final(self)@ == old(self)@.insert(k@, v@),
            forall|a: int|
                #![trigger final(self).entries@[a]]
                0 <= a < final(self).entries@.len() ==> (a < old(self).entries@.len()
                    && final(self).entries@[a] == old(self).entries@[a])
                    || final(self).entries@[a] == (k, v),
    {
        let ghost old_entries = self.entries@;
        proof {
            lemma_entries_map(old_entries);
        }
        match self.find(&k) {
            Some(i) => {
                proof {
                    lemma_update_entry(old_entries, i as int, (k, v));
                }
                self.entries.set(i, (k, v));
            },
            None => {
                self.entries.push((k, v));
                let ghost s = self.entries@;
                assert(s.drop_last() =~= old_entries);
                assert forall|a: int, b: int|
                    0 <= a < s.len() && 0 <= b < s.len() && a != b implies (#[trigger] s[a]).0@
                    != (#[trigger] s[b]).0@ by {
                    if a < old_entries.len() {
                        assert(old_entries[a] == s[a]);
                    }
                    if b < old_entries.len() {
                        assert(old_entries[b] == s[b]);
                    }
                }
            },
        }
    }

    pub fn remove(&mut self, k: &String)
        requires
            old(self).wf(),
        ensures
            final(self).wf(),
            final(self)@ == old(self)@.remove(k@),
    {
        let ghost old_entries = self.entries@;
        proof {
            lemma_entries_map(old_entries);
        }
        match self.find(k) {
            Some(i) => {
                let _ = self.entries.remove(i);
                let ghost s = self.entries@;
                assert forall|a: int| 0 <= a < s.len() implies #[trigger] s[a] == (if a < i {
                    old_entries[a]
                } else {
                    old_entries[a + 1]
                }) by {}
                assert forall|a: int, b: int|
                    0 <= a < s.len() && 0 <= b < s.len() && a != b implies (#[trigger] s[a]).0@
                    != (#[trigger] s[b]).0@ by {
                    let a2 = if a < i { a } else { a + 1 };
                    let b2 = if b < i { b } else { b + 1 };
                    assert(s[a] == old_entries[a2]);
                    assert(s[b] == old_entries[b2]);
                }
                proof {
                    lemma_entries_map(s);
                }
                assert(self@ =~= old(self)@.remove(k@)) by {
                    assert forall|q: Seq<char>| self@.contains_key(q) <==> old(
                        self,
                    )@.remove(k@).contains_key(q) by {
                        if has_key(s, q) {
                            let a = choose|a: int| 0 <= a < s.len() && (#[trigger] s[a]).0@ == q;
                            let a2 = if a < i { a } else { a + 1 };
                            assert(s[a] == old_entries[a2]);
                        }
                        if has_key(old_entries, q) && q != k@ {
                            let a = choose|a: int|
                                0 <= a < old_entries.len() && (#[trigger] old_entries[a]).0@ == q;
                            if a < i {
                                assert(s[a] == old_entries[a]);
                            } else {
                                assert(a != i);
                                assert(s[a - 1] == old_entries[a]);
                            }
                        }
                    }
                    assert forall|q: Seq<char>| #[trigger] self@.contains_key(q) implies self@[q]
                        == old(self)@.remove(k@)[q] by {
                        let a = choose|a: int| 0 <= a < s.len() && (#[trigger] s[a]).0@ == q;
                        let a2 = if a < i { a } else { a + 1 };
                        assert(s[a] == old_entries[a2]);
                    }
                }
            },
            None => {
                assert(self@ =~= old(self)@.remove(k@));
            },
        }
    }

    pub fn get(&self, k: &String) -> (r: Option<&V>)
        requires
            self.wf(),
        ensures
            match r {
                Some(v) => self@.contains_key(k@) && v@ == self@[k@],
                None => !self@.contains_key(k@),
            },
    {
        proof {
            lemma_entries_map(self.entries@);
        }
        match self.find(k) {
            Some(i) => Some(&self.entries[i].1),
            None => None,
        }
    }

    /// Puts `v` in place of the value of entry `i`, and returns the value
    /// that was there.
    pub fn swap_value(&mut self, i: usize, v: V) -> (r: V)
        requires
            old(self).wf(),
            i < old(self).entries@.len(),
        ensures
            final(self).wf(),
            r == old(self).entries@[i as int].1,
            final(self).entries@ == old(self).entries@.update(
                i as int,
                (old(self).entries@[i as int].0, v),
            ),
            final(self)@ == old(self)@.insert(old(self).entries@[i as int].0@, v@),
    {
        let ghost old_entries = self.entries@;
        let (key, old_value) = self.entries.remove(i);
        self.entries.insert(i, (key, v));
        assert(self.entries@ =~= old_entries.update(i as int, (old_entries[i as int].0, v)));
        proof {
            lemma_update_entry(old_entries, i as int, (old_entries[i as int].0, v));
        }
        old_value
    }
}

} // verus!
