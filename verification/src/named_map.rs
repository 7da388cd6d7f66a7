//! A small name-keyed map: joint names to targets, expression names to
//! weights, pose names to poses. Entries are kept in insertion order with no
//! repeated key; the abstract view is a `Map` from the key's characters.

use vstd::prelude::*;
use crate::text::{chars_eq, chars_lt, copy_chars, lemma_lex_total, lemma_lex_transitive, lex_lt};

verus! {

/// The map an association list denotes (a later entry wins over an earlier
/// one with the same key).
pub open spec fn seq_to_map<T>(s: Seq<(Seq<char>, T)>) -> Map<Seq<char>, T>
    decreases s.len(),
{
    if s.len() == 0 {
        Map::empty()
    } else {
        seq_to_map(s.drop_last()).insert(s.last().0, s.last().1)
    }
}

/// No key occurs twice.
pub open spec fn keys_unique<T>(s: Seq<(Seq<char>, T)>) -> bool {
    forall|i: int, j: int| 0 <= i < j < s.len() ==> #[trigger] s[i].0 != #[trigger] s[j].0
}

/// Whether some entry of `s` has key `k`.
pub open spec fn has_key<T>(s: Seq<(Seq<char>, T)>, k: Seq<char>) -> bool {
    exists|i: int| 0 <= i < s.len() && #[trigger] s[i].0 == k
}

pub proof fn lemma_seq_to_map<T>(s: Seq<(Seq<char>, T)>)
    ensures
        seq_to_map(s).dom().finite(),
        forall|k: Seq<char>| #[trigger] seq_to_map(s).contains_key(k) <==> has_key(s, k),
        keys_unique(s) ==> forall|i: int|
            0 <= i < s.len() ==> #[trigger] seq_to_map(s)[s[i].0] == s[i].1,
        keys_unique(s) ==> seq_to_map(s).len() == s.len(),
    decreases s.len(),
{
    if s.len() > 0 {
        let p = s.drop_last();
        lemma_seq_to_map(p);
        assert forall|k: Seq<char>| #[trigger] seq_to_map(s).contains_key(k) <==> has_key(s, k) by {
            if has_key(s, k) {
                let i = choose|i: int| 0 <= i < s.len() && #[trigger] s[i].0 == k;
                if i < s.len() - 1 {
                    assert(p[i].0 == k);
                }
            }
            if seq_to_map(p).contains_key(k) {
                let i = choose|i: int| 0 <= i < p.len() && #[trigger] p[i].0 == k;
                assert(s[i].0 == k);
            }
        }
        if keys_unique(s) {
            assert(keys_unique(p)) by {
                assert forall|i: int, j: int| 0 <= i < j < p.len() implies #[trigger] p[i].0
                    != #[trigger] p[j].0 by {
                    assert(s[i].0 != s[j].0);
                }
            }
            assert forall|i: int| 0 <= i < s.len() implies #[trigger] seq_to_map(s)[s[i].0]
                == s[i].1 by {
                if i < s.len() - 1 {
                    assert(s[i].0 != s[s.len() - 1].0);
                    assert(p[i] == s[i]);
                }
            }
            assert(!seq_to_map(p).contains_key(s.last().0)) by {
                if has_key(p, s.last().0) {
                    let i = choose|i: int| 0 <= i < p.len() && #[trigger] p[i].0 == s.last().0;
                    assert(s[i].0 != s[s.len() - 1].0);
                }
            }
        }
    }
}

pub proof fn lemma_update<T>(s: Seq<(Seq<char>, T)>, i: int, v: T)
    requires
        keys_unique(s),
        0 <= i < s.len(),
    ensures
        keys_unique(s.update(i, (s[i].0, v))),
        seq_to_map(s.update(i, (s[i].0, v))) == seq_to_map(s).insert(s[i].0, v),
{
    let t = s.update(i, (s[i].0, v));
    assert forall|a: int, b: int| 0 <= a < b < t.len() implies #[trigger] t[a].0 != #[trigger] t[b].0 by {
        assert(s[a].0 != s[b].0);
    }
    lemma_seq_to_map(s);
    lemma_seq_to_map(t);
    assert forall|k: Seq<char>| #[trigger] has_key(t, k) <==> has_key(s, k) by {
        if has_key(t, k) {
            let j = choose|j: int| 0 <= j < t.len() && #[trigger] t[j].0 == k;
            assert(s[j].0 == k);
        }
        if has_key(s, k) {
            let j = choose|j: int| 0 <= j < s.len() && #[trigger] s[j].0 == k;
            assert(t[j].0 == k);
        }
    }
    assert forall|k: Seq<char>| #[trigger] seq_to_map(t).contains_key(k) implies seq_to_map(t)[k]
        == seq_to_map(s).insert(s[i].0, v)[k] by {
        let j = choose|j: int| 0 <= j < t.len() && #[trigger] t[j].0 == k;
        assert(seq_to_map(t)[t[j].0] == t[j].1);
        if j != i {
            assert(seq_to_map(s)[s[j].0] == s[j].1);
        }
    }
    assert(seq_to_map(t) =~= seq_to_map(s).insert(s[i].0, v));
}

pub proof fn lemma_remove<T>(s: Seq<(Seq<char>, T)>, i: int)
    requires
        keys_unique(s),
        0 <= i < s.len(),
    ensures
        keys_unique(s.remove(i)),
        seq_to_map(s.remove(i)) == seq_to_map(s).remove(s[i].0),
{
    let t = s.remove(i);
    assert forall|a: int, b: int| 0 <= a < b < t.len() implies #[trigger] t[a].0 != #[trigger] t[b].0 by {
        if a < i && b < i {
            assert(s[a].0 != s[b].0);
        } else if a < i {
            assert(s[a].0 != s[b + 1].0);
        } else {
            assert(s[a + 1].0 != s[b + 1].0);
        }
    }
    lemma_seq_to_map(s);
    lemma_seq_to_map(t);
    assert forall|k: Seq<char>| #[trigger] has_key(t, k) <==> (has_key(s, k) && k != s[i].0) by {
        if has_key(t, k) {
            let j = choose|j: int| 0 <= j < t.len() && #[trigger] t[j].0 == k;
            if j < i {
                assert(s[j].0 == k);
                assert(s[j].0 != s[i].0);
            } else {
                assert(s[j + 1].0 == k);
                assert(s[j + 1].0 != s[i].0);
            }
        }
        if has_key(s, k) && k != s[i].0 {
            let j = choose|j: int| 0 <= j < s.len() && #[trigger] s[j].0 == k;
            if j < i {
                assert(t[j].0 == k);
            } else {
                assert(t[j - 1].0 == k);
            }
        }
    }
    assert forall|k: Seq<char>| #[trigger] seq_to_map(t).contains_key(k) implies seq_to_map(t)[k]
        == seq_to_map(s)[k] by {
        let j = choose|j: int| 0 <= j < t.len() && #[trigger] t[j].0 == k;
        assert(seq_to_map(t)[t[j].0] == t[j].1);
        if j < i {
            assert(seq_to_map(s)[s[j].0] == s[j].1);
        } else {
            assert(seq_to_map(s)[s[j + 1].0] == s[j + 1].1);
        }
    }
    assert(seq_to_map(t) =~= seq_to_map(s).remove(s[i].0));
}

pub proof fn lemma_push<T>(s: Seq<(Seq<char>, T)>, k: Seq<char>, v: T)
    requires
        keys_unique(s),
        !has_key(s, k),
    ensures
        keys_unique(s.push((k, v))),
        seq_to_map(s.push((k, v))) == seq_to_map(s).insert(k, v),
{
    let t = s.push((k, v));
    assert(t.drop_last() =~= s);
    assert forall|a: int, b: int| 0 <= a < b < t.len() implies #[trigger] t[a].0 != #[trigger] t[b].0 by {
        if b == s.len() {
            assert(s[a].0 != k);
        } else {
            assert(s[a].0 != s[b].0);
        }
    }
}

/// An entry with its key as characters.
pub open spec fn entry_view<T>(e: (Vec<char>, T)) -> (Seq<char>, T) {
    (e.0@, e.1)
}

/// A map from names to values, kept in insertion order, with no repeated name.
#[derive(Debug)]
pub struct NamedMap<T> {
    entries: Vec<(Vec<char>, T)>,
}

impl<T> NamedMap<T> {
    /// The entries, in order, with each key as its characters.
    pub closed spec fn entries_view(&self) -> Seq<(Seq<char>, T)> {
        self.entries@.map_values(|e: (Vec<char>, T)| entry_view(e))
    }

    #[verifier::type_invariant]
    closed spec fn inv(&self) -> bool {
        keys_unique(self.entries_view())
    }

    proof fn lemma_view(&self)
        requires
            self.inv(),
        ensures
            keys_unique(self.entries_view()),
            self@ == seq_to_map(self.entries_view()),
            self@.dom().finite(),
            self@.len() == self.entries_view().len(),
            forall|k: Seq<char>| #[trigger] self@.contains_key(k) <==> has_key(self.entries_view(), k),
            forall|i: int|
                0 <= i < self.entries_view().len() ==> #[trigger] self@[self.entries_view()[i].0]
                    == self.entries_view()[i].1,
    {
        lemma_seq_to_map(self.entries_view());
    }

    /// An empty map.
    pub fn new() -> (m: Self)
        ensures
            m@ == Map::<Seq<char>, T>::empty(),
            m.entries_view().len() == 0,
    {
        let m = NamedMap { entries: Vec::new() };
        assert(m.entries_view() =~= Seq::empty());
        m
    }

    /// Number of entries. Also states how the entries denote the map.
    pub fn len(&self) -> (n: usize)
        ensures
            n == self@.len(),
            n == self.entries_view().len(),
            keys_unique(self.entries_view()),
            self@ == seq_to_map(self.entries_view()),
            self@.dom().finite(),
            forall|k: Seq<char>| #[trigger] self@.contains_key(k) <==> has_key(self.entries_view(), k),
            forall|i: int|
                0 <= i < self.entries_view().len() ==> #[trigger] self@[self.entries_view()[i].0]
                    == self.entries_view()[i].1,
    {
        proof {
            use_type_invariant(self);
            self.lemma_view();
        }
        self.entries.len()
    }

    /// Whether the map has no entry.
    pub fn is_empty(&self) -> (b: bool)
        ensures
            b == (self@.len() == 0),
            b == (self@ == Map::<Seq<char>, T>::empty()),
    {
        proof {
            use_type_invariant(self);
            self.lemma_view();
            if self.entries@.len() == 0 {
                assert(self.entries_view() =~= Seq::empty());
                assert(self@ =~= Map::<Seq<char>, T>::empty());
            } else {
                assert(self@.contains_key(self.entries_view()[0].0));
            }
        }
        self.entries.len() == 0
    }

    /// Key of the `i`-th entry.
    pub fn key_at(&self, i: usize) -> (k: &Vec<char>)
        requires
            i < self.entries_view().len(),
        ensures
            k@ == self.entries_view()[i as int].0,
    {
        &self.entries[i].0
    }

    /// Value of the `i`-th entry.
    pub fn value_at(&self, i: usize) -> (v: &T)
        requires
            i < self.entries_view().len(),
        ensures
            *v == self.entries_view()[i as int].1,
    {
        &self.entries[i].1
    }

    /// Position of `key`, if present.
    pub fn find(&self, key: &[char]) -> (r: Option<usize>)
        ensures
            match r {
                Some(i) => i < self.entries_view().len() && self.entries_view()[i as int].0 == key@,
                None => !self@.contains_key(key@),
            },
    {
        proof {
            use_type_invariant(self);
            self.lemma_view();
        }
        let mut i: usize = 0;
        while i < self.entries.len()
            invariant
                i <= self.entries@.len(),
                forall|j: int| 0 <= j < i ==> #[trigger] self.entries_view()[j].0 != key@,
            decreases self.entries@.len() - i,
        {
            if chars_eq(self.entries[i].0.as_slice(), key) {
                return Some(i);
            }
            i = i + 1;
        }
        proof {
            if has_key(self.entries_view(), key@) {
                let j = choose|j: int|
                    0 <= j < self.entries_view().len() && #[trigger] self.entries_view()[j].0
                        == key@;
            }
        }
        None
    }

    /// The value stored under `key`, if any.
    pub fn get(&self, key: &[char]) -> (r: Option<&T>)
        ensures
            match r {
                Some(v) => self@.contains_key(key@) && *v == self@[key@],
                None => !self@.contains_key(key@),
            },
    {
        proof {
            use_type_invariant(self);
            self.lemma_view();
        }
        match self.find(key) {
            Some(i) => Some(&self.entries[i].1),
            None => None,
        }
    }

    /// Whether `key` is present.
    pub fn contains_key(&self, key: &[char]) -> (b: bool)
        ensures
            b == self@.contains_key(key@),
    {
        proof {
            use_type_invariant(self);
            self.lemma_view();
        }
        match self.find(key) {
            Some(_) => true,
            None => false,
        }
    }

    /// Stores `value` under `key`, replacing any previous value. A new key
    /// goes last; an existing key keeps its position.
    pub fn insert(&mut self, key: Vec<char>, value: T)
        ensures
            final(self)@ == old(self)@.insert(key@, value),
            old(self)@.contains_key(key@) ==> final(self).entries_view().len() == old(
                self,
            ).entries_view().len(),
            !old(self)@.contains_key(key@) ==> final(self).entries_view() == old(
                self,
            ).entries_view().push((key@, value)),
    {
        proof {
            use_type_invariant(&*self);
            self.lemma_view();
        }
        let ghost before = self.entries_view();
        match self.find(key.as_slice()) {
            Some(i) => {
                proof {
                    lemma_update(before, i as int, value);
                }
                let mut entries: Vec<(Vec<char>, T)> = Vec::new();
                std::mem::swap(&mut entries, &mut self.entries);
                entries.set(i, (key, value));
                let ghost ev = entries@.map_values(|e: (Vec<char>, T)| entry_view(e));
                assert(ev =~= before.update(i as int, (before[i as int].0, value)));
                self.entries = entries;
            },
            None => {
                proof {
                    lemma_push(before, key@, value);
                }
                let mut entries: Vec<(Vec<char>, T)> = Vec::new();
                std::mem::swap(&mut entries, &mut self.entries);
                let ghost kv = key@;
                entries.push((key, value));
                let ghost ev = entries@.map_values(|e: (Vec<char>, T)| entry_view(e));
                assert(ev =~= before.push((kv, value)));
                self.entries = entries;
            },
        }
    }

    /// Removes `key`, returning its value if it was present.
    pub fn remove(&mut self, key: &[char]) -> (r: Option<T>)
        ensures
            final(self)@ == old(self)@.remove(key@),
            match r {
                Some(v) => old(self)@.contains_key(key@) && v == old(self)@[key@],
                None => !old(self)@.contains_key(key@),
            },
    {
        proof {
            use_type_invariant(&*self);
            self.lemma_view();
        }
        let ghost before = self.entries_view();
        match self.find(key) {
            Some(i) => {
                proof {
                    lemma_remove(before, i as int);
                }
                let mut entries: Vec<(Vec<char>, T)> = Vec::new();
                std::mem::swap(&mut entries, &mut self.entries);
                let e = entries.remove(i);
                let ghost ev = entries@.map_values(|e: (Vec<char>, T)| entry_view(e));
                assert(ev =~= before.remove(i as int));
                self.entries = entries;
                Some(e.1)
            },
            None => {
                assert(old(self)@ =~= old(self)@.remove(key@));
                None
            },
        }
    }
}

impl<T> View for NamedMap<T> {
    type V = Map<Seq<char>, T>;

    closed spec fn view(&self) -> Map<Seq<char>, T> {
        seq_to_map(self.entries_view())
    }
}

impl<T: Copy> NamedMap<T> {
    /// An entry-for-entry copy.
    pub fn duplicate(&self) -> (m: Self)
        ensures
            m@ == self@,
            m.entries_view() == self.entries_view(),
    {
        proof {
            use_type_invariant(self);
        }
        let mut entries: Vec<(Vec<char>, T)> = Vec::new();
        let mut i: usize = 0;
        while i < self.entries.len()
            invariant
                i <= self.entries@.len(),
                entries@.len() == i,
                entries@.map_values(|e: (Vec<char>, T)| entry_view(e)) == self.entries_view().subrange(
                    0,
                    i as int,
                ),
            decreases self.entries@.len() - i,
        {
            let k = copy_chars(self.entries[i].0.as_slice());
            let v = self.entries[i].1;
            let ghost prev = entries@;
            entries.push((k, v));
            assert(k@ == self.entries@[i as int].0@);
            assert(v == self.entries@[i as int].1);
            assert(self.entries_view()[i as int] == (self.entries@[i as int].0@, self.entries@[i as int].1));
            assert(prev.map_values(|e: (Vec<char>, T)| entry_view(e)) == self.entries_view().subrange(0, i as int));
            let ghost lhs = entries@.map_values(|e: (Vec<char>, T)| entry_view(e));
            let ghost rhs = self.entries_view().subrange(0, i + 1);
            assert forall|j: int| 0 <= j < i + 1 implies lhs[j] == rhs[j] by {
                if j < i {
                    assert(entries@[j] == prev[j]);
                    assert(prev.map_values(|e: (Vec<char>, T)| entry_view(e))[j] == entry_view(prev[j]));
                }
            }
            assert(lhs =~= rhs);
            i = i + 1;
        }
        assert(self.entries_view().subrange(0, self.entries@.len() as int) =~= self.entries_view());
        NamedMap { entries }
    }
}

impl<T: Copy> NamedMap<T> {
    /// Inserts every entry of `other`, its values winning over existing ones.
    pub fn extend_from(&mut self, other: &NamedMap<T>)
        ensures
            final(self)@ == old(self)@.union_prefer_right(other@),
    {
        let n = other.len();
        let ghost ov = other.entries_view();
        let mut i: usize = 0;
        while i < n
            invariant
                n == ov.len(),
                ov == other.entries_view(),
                other@ == seq_to_map(ov),
                i <= n,
                self@ == old(self)@.union_prefer_right(seq_to_map(ov.subrange(0, i as int))),
            decreases n - i,
        {
            let k = copy_chars(other.key_at(i).as_slice());
            let v = *other.value_at(i);
            let ghost before = self@;
            self.insert(k, v);
            proof {
                assert(ov.subrange(0, i + 1).drop_last() =~= ov.subrange(0, i as int));
                assert(ov.subrange(0, i + 1).last() == ov[i as int]);
                assert(self@ =~= old(self)@.union_prefer_right(seq_to_map(ov.subrange(0, i + 1))));
            }
            i = i + 1;
        }
        assert(ov.subrange(0, n as int) =~= ov);
    }
}

/// Whether some element of `s` spells `k`.
pub open spec fn lists(s: Seq<Vec<char>>, k: Seq<char>) -> bool {
    exists|a: int| 0 <= a < s.len() && #[trigger] s[a]@ == k
}

/// Whether one of the first `n` entries of `e` has key `k`.
spec fn key_before<T>(e: Seq<(Seq<char>, T)>, n: int, k: Seq<char>) -> bool {
    exists|j: int| 0 <= j < n && #[trigger] e[j].0 == k
}

impl<T> NamedMap<T> {
    /// The keys in ascending order (the order of `str`).
    pub fn sorted_keys(&self) -> (r: Vec<Vec<char>>)
        ensures
            forall|i: int, j: int| 0 <= i < j < r@.len() ==> lex_lt(#[trigger] r@[i]@, #[trigger] r@[j]@),
            forall|k: Seq<char>| #[trigger] self@.contains_key(k) <==> lists(r@, k),
    {
        proof {
            use_type_invariant(self);
            self.lemma_view();
        }
        let ghost e = self.entries_view();
        let mut r: Vec<Vec<char>> = Vec::new();
        let mut i: usize = 0;
        while i < self.entries.len()
            invariant
                e == self.entries_view(),
                keys_unique(e),
                i <= e.len(),
                e.len() == self.entries@.len(),
                forall|a: int, b: int| 0 <= a < b < r@.len() ==> lex_lt(#[trigger] r@[a]@, #[trigger] r@[b]@),
                forall|a: int| 0 <= a < r@.len() ==> key_before(e, i as int, #[trigger] r@[a]@),
                forall|j: int| 0 <= j < i ==> lists(r@, #[trigger] e[j].0),
            decreases e.len() - i,
        {
            let key = copy_chars(self.entries[i].0.as_slice());
            assert(key@ == e[i as int].0);
            let mut p: usize = 0;
            while p < r.len() && chars_lt(r[p].as_slice(), key.as_slice())
                invariant
                    p <= r@.len(),
                    forall|q: int| 0 <= q < p ==> lex_lt(#[trigger] r@[q]@, key@),
                decreases r@.len() - p,
            {
                p = p + 1;
            }
            proof {
                assert forall|q: int| 0 <= q < r@.len() implies #[trigger] r@[q]@ != key@ by {
                    if r@[q]@ == key@ {
                        assert(key_before(e, i as int, r@[q]@));
                        let j = choose|j: int| 0 <= j < i && #[trigger] e[j].0 == key@;
                        assert(e[j].0 != e[i as int].0);
                    }
                }
                if p < r@.len() {
                    lemma_lex_total(r@[p as int]@, key@);
                    assert forall|q: int| p <= q < r@.len() implies lex_lt(key@, #[trigger] r@[q]@) by {
                        if q > p {
                            lemma_lex_transitive(key@, r@[p as int]@, r@[q]@);
                        }
                    }
                }
            }
            let ghost before = r@;
            r.insert(p, key);
            proof {
                before.insert_ensures(p as int, key);
                assert(r@ == before.insert(p as int, key));
                assert forall|a: int| 0 <= a < p implies #[trigger] r@[a] == before[a] by {
                    assert(before.insert(p as int, key)[a] == before[a]);
                }
                assert forall|a: int| p <= a < before.len() implies #[trigger] r@[a + 1] == before[a] by {
                    assert(before.insert(p as int, key)[a + 1] == before[a]);
                }
                assert(r@[p as int] == key);
                assert(r@.len() == before.len() + 1);
                assert forall|a: int, b: int| 0 <= a < b < r@.len() implies lex_lt(#[trigger] r@[a]@, #[trigger] r@[b]@) by {
                    if b < p {
                        assert(r@[a] == before[a] && r@[b] == before[b]);
                    } else if b == p {
                        assert(r@[a] == before[a]);
                    } else if a < p {
                        assert(r@[a] == before[a] && r@[b] == before[b - 1]);
                        lemma_lex_transitive(r@[a]@, key@, r@[b]@);
                    } else if a == p {
                        assert(r@[b] == before[b - 1]);
                    } else {
                        assert(r@[a] == before[a - 1] && r@[b] == before[b - 1]);
                    }
                }
                assert forall|a: int| 0 <= a < r@.len() implies key_before(e, i + 1, #[trigger] r@[a]@) by {
                    if a < p {
                        assert(key_before(e, i as int, before[a]@));
                        let j = choose|j: int| 0 <= j < i && #[trigger] e[j].0 == before[a]@;
                        assert(e[j].0 == r@[a]@);
                    } else if a == p {
                        assert(e[i as int].0 == r@[a]@);
                    } else {
                        assert(r@[(a - 1) + 1] == before[a - 1]);
                        assert(key_before(e, i as int, before[a - 1]@));
                        let j = choose|j: int| 0 <= j < i && #[trigger] e[j].0 == before[a - 1]@;
                        assert(e[j].0 == r@[a]@);
                    }
                }
                assert forall|j: int| 0 <= j < i + 1 implies lists(r@, #[trigger] e[j].0) by {
                    if j == i {
                        assert(r@[p as int]@ == e[j].0);
                    } else {
                        assert(lists(before, e[j].0));
                        let a = choose|a: int| 0 <= a < before.len() && #[trigger] before[a]@ == e[j].0;
                        if a < p {
                            assert(r@[a]@ == e[j].0);
                        } else {
                            assert(r@[a + 1]@ == e[j].0);
                        }
                    }
                }
            }
            i = i + 1;
        }
        proof {
            assert forall|k: Seq<char>| #[trigger] self@.contains_key(k) <==> lists(r@, k) by {
                if self@.contains_key(k) {
                    assert(has_key(e, k));
                    let j = choose|j: int| 0 <= j < e.len() && #[trigger] e[j].0 == k;
                    assert(lists(r@, e[j].0));
                }
                if lists(r@, k) {
                    let a = choose|a: int| 0 <= a < r@.len() && #[trigger] r@[a]@ == k;
                    assert(key_before(e, i as int, r@[a]@));
                    let j = choose|j: int| 0 <= j < i && #[trigger] e[j].0 == k;
                    assert(has_key(e, k));
                }
            }
        }
        r
    }
}

} // verus!
