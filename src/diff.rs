//! Records of mutations: one `Diff` per write, and the ordered `Diffs` of one step.
use vstd::prelude::*;

verus! {

use vstd::std_specs::iter::IteratorSpec;

/// One mutation of a storage cell: the slot written, the value it held, and the value written.
#[derive(Clone, Copy)]
pub struct Diff<K, V> {
    /// The slot that was written.
    pub key: K,
    /// The value that the slot held before the write.
    pub pre: V,
    /// The value written.
    pub post: V,
}

impl<K, V> Diff<K, V> {
    /// A record of a write of `post` to `key`, which held `pre`.
    pub fn new(key: K, pre: V, post: V) -> (r: Self)
        ensures
            r == (Diff { key, pre, post }),
    {
        Diff { key, pre, post }
    }

    /// The slot that was written.
    pub fn key(&self) -> (r: &K)
        ensures
            *r == self.key,
    {
        &self.key
    }
}

impl<K, V: Copy> Diff<K, V> {
    /// The value that the slot held before the write.
    pub fn pre(&self) -> (r: V)
        ensures
            r == self.pre,
    {
        self.pre
    }

    /// The value written.
    pub fn post(&self) -> (r: V)
        ensures
            r == self.post,
    {
        self.post
    }
}

/// The mutations of one storage category within one step, in the order in which they happened.
/// Diffs are only ever appended.
pub struct Diffs<K, V> {
    diffs: Vec<Diff<K, V>>,
}

impl<K, V> Diffs<K, V> {
    /// The recorded mutations, oldest first.
    pub closed spec fn view(&self) -> Seq<Diff<K, V>> {
        self.diffs@
    }

    /// An empty batch.
    pub fn new() -> (r: Self)
        ensures
            r@ == Seq::<Diff<K, V>>::empty(),
    {
        Diffs { diffs: Vec::new() }
    }

    /// Appends `diff` after the mutations recorded so far.
    pub fn push(&mut self, diff: Diff<K, V>)
        ensures
            final(self)@ == old(self)@.push(diff),
    {
        self.diffs.push(diff);
    }

    /// The number of recorded mutations.
    pub fn len(&self) -> (r: usize)
        ensures
            r == self@.len(),
    {
        self.diffs.len()
    }

    /// The `i`-th recorded mutation.
    pub fn get(&self, i: usize) -> (r: &Diff<K, V>)
        requires
            i < self@.len(),
        ensures
            *r == self@[i as int],
    {
        &self.diffs[i]
    }

    /// The recorded mutations, oldest first.
    pub fn iter(&self) -> (r: std::slice::Iter<'_, Diff<K, V>>)
        ensures
            r.remaining() == self@.map_values(|d: Diff<K, V>| &d),
    {
        self.diffs.iter()
    }
}

impl<K, V> Default for Diffs<K, V> {
    fn default() -> (r: Self)
        ensures
            r@ == Seq::<Diff<K, V>>::empty(),
    {
        Diffs::new()
    }
}

} // verus!
