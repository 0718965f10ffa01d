//! Visiting the entries of a name-keyed map in key order.
use vstd::prelude::*;
use crate::strmap::{Name, StrMap};

verus! {

/// Maps whose entries can be visited in increasing key order.
pub trait SortedHashMap<K: Name, V> {
    spec fn entries_wf(&self) -> bool;

    /// The keys of the map, in increasing order.
    spec fn sorted_keys(&self) -> Seq<Seq<char>>;

    fn sorted_iter(&self) -> (it: SortedHashMapIter<'_, K, V>)
        requires
            self.entries_wf(),
        ensures
            it.wf(),
            it.i == 0,
            it.inner.key_names() == self.sorted_keys(),
    ;
}

/// A position in a map's entries, which are kept in key order.
pub struct SortedHashMapIter<'a, K, V> {
    pub inner: &'a StrMap<K, V>,
    pub i: usize,
}

impl<K: Name, V> SortedHashMap<K, V> for StrMap<K, V> {
    open spec fn entries_wf(&self) -> bool {
        self.wf()
    }

    open spec fn sorted_keys(&self) -> Seq<Seq<char>> {
        self.key_names()
    }

    fn sorted_iter(&self) -> (it: SortedHashMapIter<'_, K, V>) {
        SortedHashMapIter { inner: self, i: 0 }
    }
}

impl<'a, K: Name, V> SortedHashMapIter<'a, K, V> {
    pub open spec fn wf(&self) -> bool {
        self.inner.wf() && self.i <= self.inner.keys@.len()
    }

    /// The next entry in key order, if any is left.
    pub fn next(&mut self) -> (r: Option<(&'a K, &'a V)>)
        requires
            old(self).wf(),
        ensures
            final(self).wf(),
            final(self).inner == old(self).inner,
            old(self).i < old(self).inner.keys@.len() ==> final(self).i == old(self).i + 1 && r == Some(
                (&old(self).inner.keys@[old(self).i as int], &old(self).inner.vals@[old(self).i as int]),
            ),
            old(self).i >= old(self).inner.keys@.len() ==> final(self).i == old(self).i && r is None,
    {
        if self.i < self.inner.len() {
            let k = self.inner.key_at(self.i);
            let v = self.inner.val_at(self.i);
            self.i = self.i + 1;
            Some((k, v))
        } else {
            None
        }
    }
}

} // verus!
