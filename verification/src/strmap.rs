//! A map keyed by borrowed names, kept sorted by key.
//!
//! The generator keys all of its tables by names taken from the language
//! description. Keeping the entries sorted gives a deterministic iteration
//! order, which is the order in which the generated code lists its items.
use vstd::prelude::*;
use crate::text::{chars_lt, lemma_chars_lt_asymmetric, lemma_chars_lt_irreflexive, lemma_chars_lt_total, lemma_chars_lt_transitive, str_eq, str_lt};

verus! {

/// A type whose values name things by a sequence of characters.
pub trait Name {
    spec fn chars(&self) -> Seq<char>;

    fn name_str(&self) -> (r: &str)
        ensures
            r@ == self.chars(),
    ;
}

impl<'a> Name for &'a str {
    open spec fn chars(&self) -> Seq<char> {
        (*self)@
    }

    fn name_str(&self) -> (r: &str) {
        *self
    }
}

impl Name for String {
    open spec fn chars(&self) -> Seq<char> {
        self@
    }

    fn name_str(&self) -> (r: &str) {
        self.as_str()
    }
}

#[derive(Debug)]
pub struct StrMap<K, V> {
    pub keys: Vec<K>,
    pub vals: Vec<V>,
}

/// A set of names, as a map to unit.
pub type StrSet<K> = StrMap<K, ()>;

impl<K: Name, V> StrMap<K, V> {
    /// Keys and values line up, and keys are strictly increasing.
    pub open spec fn wf(&self) -> bool {
        &&& self.keys@.len() == self.vals@.len()
        &&& forall|i: int, j: int|
            0 <= i < j < self.keys@.len() ==> chars_lt(
                #[trigger] self.keys@[i].chars(),
                #[trigger] self.keys@[j].chars(),
            )
    }

    pub open spec fn len_spec(&self) -> nat {
        self.keys@.len()
    }

    /// The key at position `i`, as characters.
    pub open spec fn key(&self, i: int) -> Seq<char> {
        self.keys@[i].chars()
    }

    pub open spec fn has(&self, k: Seq<char>) -> bool {
        exists|i: int| 0 <= i < self.keys@.len() && #[trigger] self.keys@[i].chars() == k
    }

    pub open spec fn idx(&self, k: Seq<char>) -> int {
        choose|i: int| 0 <= i < self.keys@.len() && #[trigger] self.keys@[i].chars() == k
    }

    /// The value stored under `k` (meaningful when `self.has(k)`).
    pub open spec fn lookup(&self, k: Seq<char>) -> V {
        self.vals@[self.idx(k)]
    }


    pub proof fn lemma_idx(&self, i: int)
        requires
            self.wf(),
            0 <= i < self.keys@.len(),
        ensures
            self.has(self.keys@[i].chars()),
            self.idx(self.keys@[i].chars()) == i,
            self@.contains_key(self.keys@[i].chars()),
            self@[self.keys@[i].chars()] == self.vals@[i],
    {
        let k = self.keys@[i].chars();
        assert(self.has(k));
        let j = self.idx(k);
        if j < i {
            assert(chars_lt(self.keys@[j].chars(), self.keys@[i].chars()));
            lemma_chars_lt_irreflexive(k);
        } else if i < j {
            assert(chars_lt(self.keys@[i].chars(), self.keys@[j].chars()));
            lemma_chars_lt_irreflexive(k);
        }
    }

    pub proof fn lemma_view_values(&self)
        requires
            self.wf(),
        ensures
            forall|i: int|
                0 <= i < self.keys@.len() ==> #[trigger] self@.contains_key(self.keys@[i].chars())
                    && self@[self.keys@[i].chars()] == self.vals@[i],
            forall|k: Seq<char>|
                #[trigger] self@.contains_key(k) ==> self.keys@[self.idx(k)].chars() == k && 0
                    <= self.idx(k) < self.keys@.len(),
    {
        assert forall|i: int| 0 <= i < self.keys@.len() implies #[trigger] self@.contains_key(
            self.keys@[i].chars(),
        ) && self@[self.keys@[i].chars()] == self.vals@[i] by {
            self.lemma_idx(i);
        }
    }

    pub fn new() -> (m: Self)
        ensures
            m.wf(),
            m.keys@.len() == 0,
            m@ == Map::<Seq<char>, V>::empty(),
    {
        let m = StrMap { keys: Vec::new(), vals: Vec::new() };
        assert(m@ =~= Map::<Seq<char>, V>::empty());
        m
    }

    pub fn len(&self) -> (n: usize)
        requires
            self.wf(),
        ensures
            n == self.keys@.len(),
    {
        self.keys.len()
    }

    /// Position of `key`: `Ok(i)` where it is stored, or `Err(i)` where it
    /// would have to be inserted to keep the keys sorted.
    pub fn find(&self, key: &str) -> (r: Result<usize, usize>)
        requires
            self.wf(),
        ensures
            match r {
                Ok(i) => i < self.keys@.len() && self.keys@[i as int].chars() == key@,
                Err(i) => {
                    &&& i <= self.keys@.len()
                    &&& forall|j: int| 0 <= j < i ==> chars_lt(#[trigger] self.keys@[j].chars(), key@)
                    &&& forall|j: int|
                        i <= j < self.keys@.len() ==> chars_lt(key@, #[trigger] self.keys@[j].chars())
                    &&& !self.has(key@)
                },
            },
    {
        let n = self.keys.len();
        let mut i: usize = 0;
        while i < n
            invariant
                self.wf(),
                n == self.keys@.len(),
                i <= n,
                forall|j: int| 0 <= j < i ==> chars_lt(#[trigger] self.keys@[j].chars(), key@),
            decreases n - i,
        {
            let k = self.keys[i].name_str();
            if str_eq(k, key) {
                return Ok(i);
            }
            if str_lt(key, k) {
                assert forall|j: int| i <= j < self.keys@.len() implies chars_lt(
                    key@,
                    #[trigger] self.keys@[j].chars(),
                ) by {
                    if i < j {
                        lemma_chars_lt_transitive(key@, self.keys@[i as int].chars(), self.keys@[j].chars());
                    }
                }
                proof {
                    self.lemma_not_has(key@, i as int);
                }
                return Err(i);
            }
            proof {
                lemma_chars_lt_total(k@, key@);
            }
            i += 1;
        }
        proof {
            self.lemma_not_has(key@, n as int);
        }
        Err(n)
    }

    proof fn lemma_not_has(&self, k: Seq<char>, i: int)
        requires
            self.wf(),
            0 <= i <= self.keys@.len(),
            forall|j: int| 0 <= j < i ==> chars_lt(#[trigger] self.keys@[j].chars(), k),
            forall|j: int| i <= j < self.keys@.len() ==> chars_lt(k, #[trigger] self.keys@[j].chars()),
        ensures
            !self.has(k),
    {
        if self.has(k) {
            let j = self.idx(k);
            if j < i {
                assert(chars_lt(self.keys@[j].chars(), k));
            } else {
                assert(chars_lt(k, self.keys@[j].chars()));
            }
            lemma_chars_lt_irreflexive(k);
        }
    }

    pub fn contains_key(&self, key: &str) -> (r: bool)
        requires
            self.wf(),
        ensures
            r == self@.contains_key(key@),
    {
        match self.find(key) {
            Ok(_) => true,
            Err(_) => false,
        }
    }

    /// Position of `key` among the entries, if it is present.
    pub fn index_of(&self, key: &str) -> (r: Option<usize>)
        requires
            self.wf(),
        ensures
            match r {
                Some(i) => i < self.keys@.len() && self.keys@[i as int].chars() == key@ && self.idx(key@)
                    == i,
                None => !self@.contains_key(key@),
            },
    {
        match self.find(key) {
            Ok(i) => {
                proof {
                    self.lemma_idx(i as int);
                }
                Some(i)
            },
            Err(_) => None,
        }
    }

    pub fn get(&self, key: &str) -> (r: Option<&V>)
        requires
            self.wf(),
        ensures
            match r {
                Some(v) => self@.contains_key(key@) && *v == self@[key@],
                None => !self@.contains_key(key@),
            },
    {
        match self.find(key) {
            Ok(i) => {
                proof {
                    self.lemma_idx(i as int);
                }
                Some(&self.vals[i])
            },
            Err(_) => None,
        }
    }

    pub fn key_at(&self, i: usize) -> (k: &K)
        requires
            self.wf(),
            i < self.keys@.len(),
        ensures
            *k == self.keys@[i as int],
    {
        &self.keys[i]
    }

    pub fn val_at(&self, i: usize) -> (v: &V)
        requires
            self.wf(),
            i < self.keys@.len(),
        ensures
            *v == self.vals@[i as int],
    {
        &self.vals[i]
    }

    /// Mutable access to the value at position `i`; keys stay as they are.
    pub fn val_at_mut(&mut self, i: usize) -> (v: &mut V)
        requires
            old(self).wf(),
            i < old(self).keys@.len(),
        ensures
            *v == old(self).vals@[i as int],
            final(self).keys == old(self).keys,
            final(self).vals@ == old(self).vals@.update(i as int, *final(v)),
    {
        &mut self.vals[i]
    }

    /// Stores `v` under `key`, replacing any value stored there.
    pub fn insert(&mut self, key: K, v: V)
        requires
            old(self).wf(),
        ensures
            final(self).wf(),
            final(self)@ == old(self)@.insert(key.chars(), v),
    {
        match self.find(key.name_str()) {
            Ok(i) => {
                let ghost old_self = *self;
                self.vals.set(i, v);
                proof {
                    old_self.lemma_view_values();
                    self.lemma_view_values();
                    assert forall|k: Seq<char>| #[trigger]
                        self.has(k) == (old_self.has(k) || k == key.chars()) by {
                        if self.has(k) {
                            let j = self.idx(k);
                            assert(old_self.keys@[j].chars() == k);
                        }
                        if old_self.has(k) {
                            let j = old_self.idx(k);
                            assert(self.keys@[j].chars() == k);
                        }
                        if k == key.chars() {
                            assert(self.keys@[i as int].chars() == k);
                        }
                    }
                    assert(self@ =~= old_self@.insert(key.chars(), v));
                }
            },
            Err(i) => {
                let ghost old_self = *self;
                let ghost kc = key.chars();
                self.keys.insert(i, key);
                self.vals.insert(i, v);
                proof {
                    assert forall|a: int, b: int|
                        0 <= a < b < self.keys@.len() implies chars_lt(
                        #[trigger] self.keys@[a].chars(),
                        #[trigger] self.keys@[b].chars(),
                    ) by {
                        if b < i {
                        } else if b == i {
                            assert(chars_lt(old_self.keys@[a].chars(), kc));
                        } else if a == i {
                            assert(chars_lt(kc, old_self.keys@[b - 1].chars()));
                        } else if a < i {
                            assert(chars_lt(old_self.keys@[a].chars(), old_self.keys@[b - 1].chars()));
                        } else {
                            assert(chars_lt(old_self.keys@[a - 1].chars(), old_self.keys@[b - 1].chars()));
                        }
                    }
                    old_self.lemma_view_values();
                    self.lemma_view_values();
                    assert forall|k: Seq<char>| #[trigger]
                        self.has(k) == (old_self.has(k) || k == kc) by {
                        if self.has(k) {
                            let j = self.idx(k);
                            if j < i {
                                assert(old_self.keys@[j].chars() == k);
                            } else if j > i {
                                assert(old_self.keys@[j - 1].chars() == k);
                            }
                        }
                        if old_self.has(k) {
                            let j = old_self.idx(k);
                            if j < i {
                                assert(self.keys@[j].chars() == k);
                            } else {
                                assert(self.keys@[j + 1].chars() == k);
                            }
                        }
                        if k == kc {
                            assert(self.keys@[i as int].chars() == k);
                        }
                    }
                    assert forall|k: Seq<char>| #[trigger] self.has(k) && k != kc implies self.lookup(k)
                        == old_self.lookup(k) by {
                        let j = old_self.idx(k);
                        if j < i {
                            self.lemma_idx(j);
                        } else {
                            self.lemma_idx(j + 1);
                        }
                    }
                    self.lemma_idx(i as int);
                    assert(self@ =~= old_self@.insert(kc, v));
                }
            },
        }
    }

    /// Removes the entry stored under `key`, if any.
    pub fn remove(&mut self, key: &str)
        requires
            old(self).wf(),
        ensures
            final(self).wf(),
            final(self)@ == old(self)@.remove(key@),
    {
        match self.find(key) {
            Ok(i) => {
                let ghost old_self = *self;
                self.keys.remove(i);
                self.vals.remove(i);
                proof {
                    assert forall|a: int, b: int|
                        0 <= a < b < self.keys@.len() implies chars_lt(
                        #[trigger] self.keys@[a].chars(),
                        #[trigger] self.keys@[b].chars(),
                    ) by {
                        if b < i {
                        } else if a < i {
                            assert(chars_lt(old_self.keys@[a].chars(), old_self.keys@[b + 1].chars()));
                        } else {
                            assert(chars_lt(old_self.keys@[a + 1].chars(), old_self.keys@[b + 1].chars()));
                        }
                    }
                    old_self.lemma_view_values();
                    self.lemma_view_values();
                    old_self.lemma_idx(i as int);
                    assert forall|k: Seq<char>| #[trigger]
                        self.has(k) == (old_self.has(k) && k != key@) by {
                        if self.has(k) {
                            let j = self.idx(k);
                            if j < i {
                                old_self.lemma_idx(j);
                                assert(old_self.keys@[j].chars() == k);
                            } else {
                                old_self.lemma_idx(j + 1);
                                assert(old_self.keys@[j + 1].chars() == k);
                            }
                        }
                        if old_self.has(k) && k != key@ {
                            let j = old_self.idx(k);
                            if j < i {
                                assert(self.keys@[j].chars() == k);
                            } else {
                                assert(self.keys@[j - 1].chars() == k);
                            }
                        }
                    }
                    assert forall|k: Seq<char>| #[trigger] self.has(k) implies self.lookup(k)
                        == old_self.lookup(k) by {
                        let j = old_self.idx(k);
                        if j < i {
                            self.lemma_idx(j);
                        } else {
                            self.lemma_idx(j - 1);
                        }
                    }
                    assert(self@ =~= old_self@.remove(key@));
                }
            },
            Err(_) => {
                assert(self@ =~= self@.remove(key@));
            },
        }
    }
}

impl<K: Name, V> View for StrMap<K, V> {
    type V = Map<Seq<char>, V>;

    /// The map from key characters to values.
    open spec fn view(&self) -> Map<Seq<char>, V> {
        Map::new(|k: Seq<char>| self.has(k), |k: Seq<char>| self.lookup(k))
    }
}

/// A strictly increasing list of names.
pub open spec fn strictly_sorted(ks: Seq<Seq<char>>) -> bool {
    forall|i: int, j: int| 0 <= i < j < ks.len() ==> chars_lt(#[trigger] ks[i], #[trigger] ks[j])
}

/// The names of a set in increasing order.
pub open spec fn sorted_names(s: Set<Seq<char>>) -> Seq<Seq<char>> {
    choose|ks: Seq<Seq<char>>| strictly_sorted(ks) && ks.to_set() == s
}

/// Two strictly increasing lists of the same names are the same list.
pub proof fn lemma_sorted_unique(a: Seq<Seq<char>>, b: Seq<Seq<char>>)
    requires
        strictly_sorted(a),
        strictly_sorted(b),
        a.to_set() == b.to_set(),
    ensures
        a == b,
    decreases a.len(),
{
    if a.len() == 0 {
        if b.len() > 0 {
            assert(b.to_set().contains(b[0]));
        }
        assert(a =~= b);
    } else {
        assert(a.to_set().contains(a[0]));
        assert(b.contains(a[0]));
        let j = choose|j: int| 0 <= j < b.len() && b[j] == a[0];
        assert(b.to_set().contains(b[0]));
        assert(a.contains(b[0]));
        let i = choose|i: int| 0 <= i < a.len() && a[i] == b[0];
        if a[0] != b[0] {
            assert(j > 0);
            assert(i > 0);
            assert(chars_lt(b[0], b[j]));
            assert(chars_lt(a[0], a[i]));
            lemma_chars_lt_asymmetric(a[0], b[0]);
            assert(false);
        }
        let a1 = a.drop_first();
        let b1 = b.drop_first();
        assert forall|x: Seq<char>| a1.to_set().contains(x) implies b1.to_set().contains(x) by {
            assert(a1.contains(x));
            let k = choose|k: int| 0 <= k < a1.len() && a1[k] == x;
            assert(a[k + 1] == x);
            assert(chars_lt(a[0], a[k + 1]));
            lemma_chars_lt_irreflexive(x);
            assert(a.to_set().contains(x));
            assert(b.contains(x));
            let m = choose|m: int| 0 <= m < b.len() && b[m] == x;
            assert(m != 0);
            assert(b1[m - 1] == x);
        }
        assert forall|x: Seq<char>| b1.to_set().contains(x) implies a1.to_set().contains(x) by {
            assert(b1.contains(x));
            let k = choose|k: int| 0 <= k < b1.len() && b1[k] == x;
            assert(b[k + 1] == x);
            assert(chars_lt(b[0], b[k + 1]));
            lemma_chars_lt_irreflexive(x);
            assert(b.to_set().contains(x));
            assert(a.contains(x));
            let m = choose|m: int| 0 <= m < a.len() && a[m] == x;
            assert(m != 0);
            assert(a1[m - 1] == x);
        }
        assert(a1.to_set() =~= b1.to_set());
        assert(strictly_sorted(a1)) by {
            assert forall|p: int, q: int| 0 <= p < q < a1.len() implies chars_lt(#[trigger] a1[p], #[trigger] a1[q]) by {
                assert(chars_lt(a[p + 1], a[q + 1]));
            }
        }
        assert(strictly_sorted(b1)) by {
            assert forall|p: int, q: int| 0 <= p < q < b1.len() implies chars_lt(#[trigger] b1[p], #[trigger] b1[q]) by {
                assert(chars_lt(b[p + 1], b[q + 1]));
            }
        }
        lemma_sorted_unique(a1, b1);
        assert(a.len() == b.len());
        assert forall|k: int| 0 <= k < a.len() implies a[k] == b[k] by {
            if k > 0 {
                assert(a[k] == a1[k - 1]);
                assert(b[k] == b1[k - 1]);
            }
        }
        assert(a =~= b);
    }
}

impl<K: Name, V> StrMap<K, V> {
    /// The keys, as characters, in the order they are stored.
    pub open spec fn key_names(&self) -> Seq<Seq<char>> {
        self.keys@.map_values(|k: K| k.chars())
    }

    /// The keys are stored in increasing order, so their order is
    /// determined by which keys the map holds.
    pub proof fn lemma_sorted_keys(&self)
        requires
            self.wf(),
        ensures
            self.key_names() == sorted_names(self@.dom()),
    {
        let ks = self.key_names();
        assert(strictly_sorted(ks)) by {
            assert forall|i: int, j: int| 0 <= i < j < ks.len() implies chars_lt(#[trigger] ks[i], #[trigger] ks[j]) by {
                assert(chars_lt(self.keys@[i].chars(), self.keys@[j].chars()));
            }
        }
        self.lemma_view_values();
        assert forall|k: Seq<char>| ks.to_set().contains(k) == self@.dom().contains(k) by {
            if ks.to_set().contains(k) {
                assert(ks.contains(k));
                let i = choose|i: int| 0 <= i < ks.len() && ks[i] == k;
                assert(self@.contains_key(self.keys@[i].chars()));
            }
            if self@.dom().contains(k) {
                let i = self.idx(k);
                assert(ks[i] == k);
                assert(ks.contains(k));
            }
        }
        assert(ks.to_set() =~= self@.dom());
        let c = sorted_names(self@.dom());
        lemma_sorted_unique(ks, c);
    }
}

impl<K: Name, V> StrMap<K, V> {
    /// Changing the value at one position changes the map at that key only.
    pub proof fn lemma_update_at(self, new_m: Self, i: int)
        requires
            self.wf(),
            new_m.wf(),
            0 <= i < self.keys@.len(),
            new_m.keys == self.keys,
            new_m.vals@ == self.vals@.update(i, new_m.vals@[i]),
        ensures
            new_m@ == self@.insert(self.keys@[i].chars(), new_m.vals@[i]),
    {
        self.lemma_idx(i);
        new_m.lemma_idx(i);
        self.lemma_view_values();
        new_m.lemma_view_values();
        assert(new_m@ =~= self@.insert(self.keys@[i].chars(), new_m.vals@[i]));
    }
}

impl<K: Name, V> StrMap<K, V> {
    /// Two maps with the same keys hold the same names, each value at the
    /// same position.
    pub proof fn lemma_same_keys(a: Self, b: Self)
        requires
            a.wf(),
            b.keys == a.keys,
            b.vals@.len() == a.vals@.len(),
        ensures
            b.wf(),
            b@.dom() == a@.dom(),
            forall|k: Seq<char>|
                #[trigger] a@.contains_key(k) ==> 0 <= a.idx(k) < a.keys@.len() && b@[k] == b.vals@[a.idx(k)]
                    && a@[k] == a.vals@[a.idx(k)],
    {
        a.lemma_view_values();
        assert(b@.dom() =~= a@.dom());
    }
}

impl<K: Name, V> StrMap<K, V> {
    /// Whether keys and values line up and the keys strictly increase,
    /// computed.
    pub fn is_wf(&self) -> (r: bool)
        ensures
            r == self.wf(),
    {
        if self.keys.len() != self.vals.len() {
            return false;
        }
        let n = self.keys.len();
        if n == 0 {
            return true;
        }
        let mut i: usize = 1;
        while i < n
            invariant
                n == self.keys@.len(),
                n == self.vals@.len(),
                1 <= i <= n,
                forall|a: int, b: int|
                    0 <= a < b < i ==> chars_lt(#[trigger] self.keys@[a].chars(), #[trigger] self.keys@[b].chars()),
            decreases n - i,
        {
            if !str_lt(self.keys[i - 1].name_str(), self.keys[i].name_str()) {
                assert(!chars_lt(self.keys@[i - 1].chars(), self.keys@[i as int].chars()));
                return false;
            }
            proof {
                assert forall|a: int, b: int| 0 <= a < b < i + 1 implies chars_lt(
                    #[trigger] self.keys@[a].chars(),
                    #[trigger] self.keys@[b].chars(),
                ) by {
                    if b == i && a < i - 1 {
                        lemma_chars_lt_transitive(
                            self.keys@[a].chars(),
                            self.keys@[i - 1].chars(),
                            self.keys@[i as int].chars(),
                        );
                    }
                }
            }
            i += 1;
        }
        true
    }
}

} // verus!
