//! An ordered map from string keys to values, kept sorted by key so that it
//! iterates in the same order as a `BTreeMap<String, _>`.

use vstd::prelude::*;
use crate::text::chars_of;
use crate::lexorder::{lex_lt, strictly_sorted, lemma_lex_irreflexive, lemma_lex_asymmetric, lemma_lex_total, lemma_lex_transitive, chars_less};

verus! {

/// Map from string keys to values; entries are kept strictly sorted by key.
#[derive(Debug)]
pub struct KeyedMap<T> {
    entries: Vec<(String, T)>,
}

impl<T> KeyedMap<T> {
    /// The keys, in iteration order.
    pub closed spec fn key_seq(&self) -> Seq<Seq<char>> {
        Seq::new(self.entries@.len(), |i: int| self.entries@[i].0@)
    }

    /// The values, in iteration order.
    pub closed spec fn val_seq(&self) -> Seq<T> {
        Seq::new(self.entries@.len(), |i: int| self.entries@[i].1)
    }

    /// Keys are strictly increasing (hence unique).
    #[verifier::type_invariant]
    pub closed spec fn wf(&self) -> bool {
        strictly_sorted(self.key_seq())
    }

    /// The key-value pairs as a mathematical map.
    pub closed spec fn as_map(&self) -> Map<Seq<char>, T> {
        Map::new(
            |k: Seq<char>| self.key_seq().contains(k),
            |k: Seq<char>| self.val_seq()[self.index_of_key(k)],
        )
    }

    /// A position holding key `k`.
    pub closed spec fn index_of_key(&self, k: Seq<char>) -> int {
        choose|i: int| 0 <= i < self.key_seq().len() && self.key_seq()[i] == k
    }

    proof fn lemma_unique(&self, i: int, j: int)
        requires
            self.wf(),
            0 <= i < self.key_seq().len(),
            0 <= j < self.key_seq().len(),
            self.key_seq()[i] == self.key_seq()[j],
        ensures
            i == j,
    {
        if i < j {
            lemma_lex_irreflexive(self.key_seq()[i]);
        } else if j < i {
            lemma_lex_irreflexive(self.key_seq()[i]);
        }
    }

    /// There are as many values as keys.
    pub proof fn lemma_same_length(&self)
        ensures
            self.key_seq().len() == self.val_seq().len(),
    {
    }

    /// Facts that tie the map view to the ordered entries.
    pub proof fn lemma_view(&self)
        requires
            self.wf(),
        ensures
            self.key_seq().len() == self.val_seq().len(),
            strictly_sorted(self.key_seq()),
            forall|i: int|
                0 <= i < self.key_seq().len() ==> #[trigger] self.as_map().dom().contains(self.key_seq()[i])
                    && self.as_map()[self.key_seq()[i]] == self.val_seq()[i],
            forall|k: Seq<char>| #[trigger] self.as_map().dom().contains(k) <==> self.key_seq().contains(k),
    {
        assert forall|i: int| 0 <= i < self.key_seq().len() implies #[trigger] self.as_map().dom().contains(
            self.key_seq()[i],
        ) && self.as_map()[self.key_seq()[i]] == self.val_seq()[i] by {
            let k = self.key_seq()[i];
            assert(self.key_seq().contains(k));
            assert(self.as_map().dom().contains(k));
            let c = self.index_of_key(k);
            assert(self.as_map()[k] == self.val_seq()[c]);
            self.lemma_unique(c, i);
        }
    }
}

impl<T> KeyedMap<T> {
    /// An empty map.
    pub fn new() -> (m: Self)
        ensures
            m@ == Map::<Seq<char>, T>::empty(),
            m.key_seq() == Seq::<Seq<char>>::empty(),
    {
        let m = KeyedMap { entries: Vec::new() };
        assert(m.key_seq() =~= Seq::<Seq<char>>::empty());
        assert(m@ =~= Map::<Seq<char>, T>::empty());
        m
    }

    /// Number of entries.
    pub fn len(&self) -> (n: usize)
        ensures
            n == self.key_seq().len(),
    {
        self.entries.len()
    }

    /// Whether the map holds no entry.
    pub fn is_empty(&self) -> (b: bool)
        ensures
            b == (self.key_seq().len() == 0),
            b == (self@ == Map::<Seq<char>, T>::empty()),
    {
        proof {
            use_type_invariant(self);
            self.lemma_view();
        }
        if self.entries.len() == 0 {
            assert(self@ =~= Map::<Seq<char>, T>::empty());
            true
        } else {
            assert(self@.dom().contains(self.key_seq()[0]));
            false
        }
    }

    /// First position whose key does not sort before `key`.
    fn position(&self, key: &[char]) -> (p: usize)
        ensures
            p <= self.key_seq().len(),
            forall|i: int| 0 <= i < p ==> lex_lt(#[trigger] self.key_seq()[i], key@),
            p < self.key_seq().len() ==> !lex_lt(self.key_seq()[p as int], key@),
    {
        let mut i: usize = 0;
        while i < self.entries.len()
            invariant
                i <= self.key_seq().len(),
                forall|j: int| 0 <= j < i ==> lex_lt(#[trigger] self.key_seq()[j], key@),
            decreases self.key_seq().len() - i,
        {
            let k = chars_of(self.entries[i].0.as_str());
            assert(k@ == self.key_seq()[i as int]);
            if !chars_less(k.as_slice(), key) {
                return i;
            }
            i = i + 1;
        }
        i
    }

    /// Index of the entry with key `key`, if any.
    fn find(&self, key: &[char]) -> (r: Option<usize>)
        ensures
            r matches Some(i) ==> i < self.key_seq().len() && self.key_seq()[i as int] == key@,
            r is None ==> !self.key_seq().contains(key@),
    {
        proof {
            use_type_invariant(self);
        }
        let p = self.position(key);
        let mut same = false;
        if p < self.entries.len() {
            let k = chars_of(self.entries[p].0.as_str());
            assert(k@ == self.key_seq()[p as int]);
            same = k.len() == key.len() && crate::text::matches_at(k.as_slice(), key, 0);
            assert(same == k_eq(self.key_seq()[p as int], key@));
            if same {
                assert(k@.subrange(0, key@.len() as int) =~= k@);
                return Some(p);
            }
        }
        assert(key@.subrange(0, key@.len() as int) =~= key@);
        proof {
            if self.key_seq().contains(key@) {
                let j = choose|j: int| 0 <= j < self.key_seq().len() && self.key_seq()[j] == key@;
                if j < p {
                    lemma_lex_irreflexive(key@);
                } else if j == p {
                    assert(k_eq(self.key_seq()[p as int], key@));
                } else {
                    let kp = self.key_seq()[p as int];
                    lemma_lex_total(kp, key@);
                    if kp == key@ {
                        assert(k_eq(kp, key@));
                    } else {
                        lemma_lex_asymmetric(kp, key@);
                        assert(lex_lt(kp, self.key_seq()[j]));
                    }
                }
            }
        }
        None
    }
}

impl<T> KeyedMap<T> {
    /// Whether `key` has an entry.
    pub fn contains_key(&self, key: &str) -> (b: bool)
        ensures
            b == self@.dom().contains(key@),
    {
        proof {
            use_type_invariant(self);
            self.lemma_view();
        }
        let k = chars_of(key);
        self.find(k.as_slice()).is_some()
    }

    /// The value stored under `key`.
    pub fn get(&self, key: &str) -> (r: Option<&T>)
        ensures
            r is Some == self@.dom().contains(key@),
            r matches Some(v) ==> *v == self@[key@],
    {
        proof {
            use_type_invariant(self);
            self.lemma_view();
        }
        let k = chars_of(key);
        match self.find(k.as_slice()) {
            Some(i) => {
                assert(self.key_seq()[i as int] == key@);
                assert(self@.dom().contains(self.key_seq()[i as int]));
                Some(&self.entries[i].1)
            },
            None => None,
        }
    }

    /// The key at position `i` of the iteration order.
    pub fn key_at(&self, i: usize) -> (k: &String)
        requires
            i < self.key_seq().len(),
        ensures
            k@ == self.key_seq()[i as int],
    {
        &self.entries[i].0
    }

    /// The value at position `i` of the iteration order.
    pub fn value_at(&self, i: usize) -> (v: &T)
        requires
            i < self.key_seq().len(),
        ensures
            *v == self.val_seq()[i as int],
            *v == self@[self.key_seq()[i as int]],
    {
        proof {
            use_type_invariant(self);
            self.lemma_view();
            assert(self@.dom().contains(self.key_seq()[i as int]));
        }
        &self.entries[i].1
    }

    /// The keys in iteration order.
    pub fn keys(&self) -> (r: Vec<String>)
        ensures
            r@.len() == self.key_seq().len(),
            forall|i: int| 0 <= i < r@.len() ==> #[trigger] r@[i]@ == self.key_seq()[i],
            forall|k: Seq<char>| #[trigger] self@.dom().contains(k) <==> exists|i: int| 0 <= i < r@.len() && #[trigger] r@[i]@ == k,
            strictly_sorted(self.key_seq()),
    {
        proof {
            use_type_invariant(self);
            self.lemma_view();
        }
        let mut r: Vec<String> = Vec::new();
        let mut i: usize = 0;
        while i < self.entries.len()
            invariant
                i <= self.key_seq().len(),
                r@.len() == i,
                forall|j: int| 0 <= j < i ==> #[trigger] r@[j]@ == self.key_seq()[j],
            decreases self.key_seq().len() - i,
        {
            r.push(self.entries[i].0.clone());
            i = i + 1;
        }
        proof {
            assert forall|k: Seq<char>| #[trigger] self@.dom().contains(k) <==> exists|i: int| 0 <= i < r@.len() && #[trigger] r@[i]@ == k by {
                if self@.dom().contains(k) {
                    assert(self.key_seq().contains(k));
                    let i = choose|i: int| 0 <= i < self.key_seq().len() && self.key_seq()[i] == k;
                    assert(r@[i]@ == k);
                }
                if exists|i: int| 0 <= i < r@.len() && #[trigger] r@[i]@ == k {
                    let i = choose|i: int| 0 <= i < r@.len() && #[trigger] r@[i]@ == k;
                    assert(self.key_seq()[i] == k);
                    assert(self.key_seq().contains(k));
                }
            }
        }
        r
    }
}

impl<T> KeyedMap<T> {
    /// Stores `value` under `key`, replacing any previous value.
    pub fn insert(&mut self, key: String, value: T)
        ensures
            final(self)@ == old(self)@.insert(key@, value),
    {
        proof {
            use_type_invariant(&*self);
            self.lemma_view();
        }
        let ghost ok = self.key_seq();
        let ghost ov = self.val_seq();
        let ghost om = self@;
        let ghost kk = key@;
        let k = chars_of(key.as_str());
        let p = self.position(k.as_slice());
        let found = match self.find(k.as_slice()) {
            Some(_) => true,
            None => false,
        };
        proof {
            if found {
                let j = choose|j: int| 0 <= j < ok.len() && ok[j] == kk;
                if j < p {
                    lemma_lex_irreflexive(kk);
                } else if j > p {
                    lemma_lex_asymmetric(ok[p as int], kk);
                }
                assert(ok[p as int] == kk);
            } else if p < ok.len() {
                lemma_lex_total(ok[p as int], kk);
                assert(ok[p as int] != kk);
                assert(lex_lt(kk, ok[p as int]));
                assert forall|i: int| p < i < ok.len() implies lex_lt(kk, #[trigger] ok[i]) by {
                    lemma_lex_transitive(kk, ok[p as int], ok[i]);
                }
            }
        }
        let mut entries: Vec<(String, T)> = Vec::new();
        std::mem::swap(&mut entries, &mut self.entries);
        if found {
            entries.remove(p);
        }
        entries.insert(p, (key, value));
        let ghost nk = Seq::new(entries@.len(), |i: int| entries@[i].0@);
        let ghost nv = Seq::new(entries@.len(), |i: int| entries@[i].1);
        proof {
            if found {
                assert(nk =~= ok.update(p as int, kk));
                assert(nv =~= ov.update(p as int, value));
            } else {
                assert(nk =~= ok.insert(p as int, kk));
                assert(nv =~= ov.insert(p as int, value));
            }
            assert forall|i: int, j: int| 0 <= i < j < nk.len() implies lex_lt(
                #[trigger] nk[i],
                #[trigger] nk[j],
            ) by {
                if found {
                    if j == p {
                        assert(lex_lt(ok[i], kk));
                    } else if i == p {
                        assert(lex_lt(ok[p as int], ok[j]));
                    }
                } else {
                    if i < p && j == p {
                    } else if i < p && j > p {
                        assert(nk[j] == ok[j - 1]);
                        assert(lex_lt(ok[i], ok[j - 1]));
                    } else if i == p {
                        assert(nk[j] == ok[j - 1]);
                        if j - 1 > p {
                            assert(lex_lt(kk, ok[j - 1]));
                        }
                    } else if i > p {
                        assert(nk[i] == ok[i - 1]);
                        assert(nk[j] == ok[j - 1]);
                    }
                }
            }
        }
        self.entries = entries;
        proof {
            use_type_invariant(&*self);
            self.lemma_view();
            assert(self.key_seq() == nk);
            assert(self.val_seq() == nv);
            let m = om.insert(kk, value);
            assert forall|x: Seq<char>| #[trigger] m.dom().contains(x) implies self@.dom().contains(x) && self@[x] == m[x] by {
                if x == kk {
                    assert(nk[p as int] == kk);
                } else {
                    assert(ok.contains(x));
                    let j = choose|j: int| 0 <= j < ok.len() && ok[j] == x;
                    assert(om[ok[j]] == ov[j]);
                    if found || j < p {
                        assert(nk[j] == x);
                        assert(nv[j] == ov[j]);
                    } else {
                        assert(nk[j + 1] == x);
                        assert(nv[j + 1] == ov[j]);
                    }
                }
            }
            assert forall|x: Seq<char>| #[trigger] self@.dom().contains(x) implies m.dom().contains(x) by {
                let j = choose|j: int| 0 <= j < nk.len() && nk[j] == x;
                if x != kk {
                    if found || j < p {
                        assert(ok[j] == x);
                    } else {
                        assert(ok[j - 1] == x);
                    }
                }
            }
            assert(self@ =~= m);
        }
    }
}

impl<T> KeyedMap<T> {
    /// Removes the entry for `key` and returns its value.
    pub fn remove(&mut self, key: &str) -> (r: Option<T>)
        ensures
            r is Some == old(self)@.dom().contains(key@),
            r matches Some(v) ==> v == old(self)@[key@],
            final(self)@ == old(self)@.remove(key@),
    {
        proof {
            use_type_invariant(&*self);
            self.lemma_view();
        }
        let ghost ok = self.key_seq();
        let ghost ov = self.val_seq();
        let ghost om = self@;
        let ghost kk = key@;
        let k = chars_of(key);
        match self.find(k.as_slice()) {
            None => {
                assert(om.remove(kk) =~= om);
                None
            },
            Some(p) => {
                assert(om.dom().contains(ok[p as int]));
                assert(om[kk] == ov[p as int]);
                let mut entries: Vec<(String, T)> = Vec::new();
                std::mem::swap(&mut entries, &mut self.entries);
                let (_, v) = entries.remove(p);
                let ghost nk = Seq::new(entries@.len(), |i: int| entries@[i].0@);
                let ghost nv = Seq::new(entries@.len(), |i: int| entries@[i].1);
                proof {
                    assert(nk =~= ok.remove(p as int));
                    assert(nv =~= ov.remove(p as int));
                    assert forall|i: int, j: int| 0 <= i < j < nk.len() implies lex_lt(
                        #[trigger] nk[i],
                        #[trigger] nk[j],
                    ) by {
                        if i >= p {
                            assert(nk[i] == ok[i + 1]);
                        }
                        if j >= p {
                            assert(nk[j] == ok[j + 1]);
                        }
                    }
                }
                self.entries = entries;
                proof {
                    use_type_invariant(&*self);
                    self.lemma_view();
                    assert(self.key_seq() == nk);
                    assert(self.val_seq() == nv);
                    let m = om.remove(kk);
                    assert forall|x: Seq<char>| #[trigger] m.dom().contains(x) implies self@.dom().contains(x)
                        && self@[x] == m[x] by {
                        let j = choose|j: int| 0 <= j < ok.len() && ok[j] == x;
                        assert(om[ok[j]] == ov[j]);
                        self.lemma_unique_old(ok, j, p as int);
                        if j < p {
                            assert(nk[j] == x);
                            assert(nv[j] == ov[j]);
                        } else {
                            assert(nk[j - 1] == x);
                            assert(nv[j - 1] == ov[j]);
                        }
                    }
                    assert forall|x: Seq<char>| #[trigger] self@.dom().contains(x) implies m.dom().contains(x) by {
                        let j = choose|j: int| 0 <= j < nk.len() && nk[j] == x;
                        if j < p {
                            assert(ok[j] == x);
                            self.lemma_unique_old(ok, j, p as int);
                        } else {
                            assert(ok[j + 1] == x);
                            self.lemma_unique_old(ok, j + 1, p as int);
                        }
                    }
                    assert(self@ =~= m);
                }
                Some(v)
            },
        }
    }

    proof fn lemma_unique_old(&self, ks: Seq<Seq<char>>, i: int, j: int)
        requires
            strictly_sorted(ks),
            0 <= i < ks.len(),
            0 <= j < ks.len(),
        ensures
            ks[i] == ks[j] ==> i == j,
    {
        if i != j {
            lemma_lex_irreflexive(ks[i]);
        }
    }
}

spec fn k_eq(a: Seq<char>, b: Seq<char>) -> bool {
    a.len() == b.len() && crate::text::occurs_at(a, b, 0)
}

impl<T> View for KeyedMap<T> {
    type V = Map<Seq<char>, T>;

    closed spec fn view(&self) -> Map<Seq<char>, T> {
        self.as_map()
    }
}

impl KeyedMap<String> {
    /// Whether some key maps to the text `v`.
    pub fn has_value(&self, v: &str) -> (b: bool)
        ensures
            b == exists|k: Seq<char>| #[trigger] self@.dom().contains(k) && self@[k]@ == v@,
    {
        proof {
            use_type_invariant(self);
            self.lemma_view();
        }
        let mut i: usize = 0;
        while i < self.entries.len()
            invariant
                i <= self.key_seq().len(),
                self.key_seq().len() == self.val_seq().len(),
                forall|j: int| 0 <= j < self.key_seq().len() ==> #[trigger] self@.dom().contains(self.key_seq()[j])
                    && self@[self.key_seq()[j]] == self.val_seq()[j],
                forall|k: Seq<char>| #[trigger] self@.dom().contains(k) <==> self.key_seq().contains(k),
                forall|j: int| 0 <= j < i ==> (#[trigger] self.val_seq()[j])@ != v@,
            decreases self.key_seq().len() - i,
        {
            assert(self.val_seq()[i as int] == self.entries@[i as int].1);
            if crate::text::str_eq(self.entries[i].1.as_str(), v) {
                assert(self@.dom().contains(self.key_seq()[i as int]));
                return true;
            }
            i = i + 1;
        }
        proof {
            assert forall|k: Seq<char>| #[trigger] self@.dom().contains(k) implies self@[k]@ != v@ by {
                assert(self.key_seq().contains(k));
                let j = choose|j: int| 0 <= j < self.key_seq().len() && self.key_seq()[j] == k;
                assert(self@[self.key_seq()[j]] == self.val_seq()[j]);
            }
        }
        false
    }
}

} // verus!
