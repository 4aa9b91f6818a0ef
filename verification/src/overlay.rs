//! The call-scoped overlay of pending writes layered over a state view, its
//! per-prefix child-storage overlay, and the transaction cache that memoizes
//! the pending-write delta between calls.

use vstd::prelude::*;
use crate::kv::{KvList, kv_map, bytes_eq, clone_bytes, lemma_kv_map_congruent};

verus! {

/// The child overlay a sequence of `(storage key, child mapping)` entries
/// denotes for one storage key: the first matching entry's mapping.
pub open spec fn child_map(cs: Seq<(Vec<u8>, KvList)>, sk: Seq<u8>) -> Option<Map<Seq<u8>, Seq<u8>>>
    decreases cs.len(),
{
    if cs.len() == 0 {
        None
    } else if cs[0].0@ == sk {
        Some(cs[0].1@)
    } else {
        child_map(cs.drop_first(), sk)
    }
}

/// A mutable, call-scoped set of pending writes: a top-level mapping plus a
/// per-prefix child mapping. Reads through the overlay see these writes
/// before falling through to the underlying state view.
pub struct Overlay {
    pub top: KvList,
    pub children: Vec<(Vec<u8>, KvList)>,
}

impl Overlay {
    /// Storage keys of child overlays are pairwise distinct and every child
    /// mapping is itself well formed.
    pub open spec fn wf(&self) -> bool {
        &&& self.top.wf()
        &&& forall|i: int, j: int|
            0 <= i < j < self.children@.len() ==> self.children@[i].0@ != self.children@[j].0@
        &&& forall|i: int| 0 <= i < self.children@.len() ==> #[trigger] self.children@[i].1.wf()
    }

    /// The pending top-level writes as a map.
    pub open spec fn top_view(&self) -> Map<Seq<u8>, Seq<u8>> {
        self.top@
    }

    /// The pending writes of one child prefix, if any were made.
    pub open spec fn child_view(&self, sk: Seq<u8>) -> Option<Map<Seq<u8>, Seq<u8>>> {
        child_map(self.children@, sk)
    }

    /// A fresh overlay with no pending writes.
    pub fn new() -> (r: Overlay)
        ensures
            r.wf(),
            r.top_view() == Map::<Seq<u8>, Seq<u8>>::empty(),
            forall|sk: Seq<u8>| r.child_view(sk) is None,
    {
        Overlay { top: KvList::new(), children: Vec::new() }
    }

    /// Records a pending top-level write.
    pub fn set_storage(&mut self, key: Vec<u8>, value: Vec<u8>)
        requires
            old(self).wf(),
        ensures
            final(self).wf(),
            final(self).top_view() == old(self).top_view().insert(key@, value@),
            final(self).children@ == old(self).children@,
    {
        self.top.insert(key, value);
    }

    /// Reads a pending top-level write, if one was made for the key.
    pub fn storage(&self, key: &Vec<u8>) -> (r: Option<Vec<u8>>)
        requires
            self.wf(),
        ensures
            match r {
                Some(v) => self.top_view().contains_key(key@) && self.top_view()[key@] == v@,
                None => !self.top_view().contains_key(key@),
            },
    {
        self.top.get(key)
    }

    /// Records a pending write inside one child prefix.
    pub fn set_child_storage(&mut self, storage_key: Vec<u8>, key: Vec<u8>, value: Vec<u8>)
        requires
            old(self).wf(),
        ensures
            final(self).wf(),
            final(self).top_view() == old(self).top_view(),
            final(self).child_view(storage_key@) == Some(
                match old(self).child_view(storage_key@) {
                    Some(m) => m.insert(key@, value@),
                    None => Map::<Seq<u8>, Seq<u8>>::empty().insert(key@, value@),
                },
            ),
            forall|sk: Seq<u8>| sk != storage_key@ ==> final(self).child_view(sk) == old(self).child_view(sk),
    {
        let mut i: usize = 0;
        while i < self.children.len()
            invariant
                self.wf(),
                *self == *old(self),
                i <= self.children@.len(),
                forall|j: int| 0 <= j < i ==> self.children@[j].0@ != storage_key@,
            decreases self.children@.len() - i,
        {
            if bytes_eq(&self.children[i].0, &storage_key) {
                let ghost pre = self.children@;
                let (sk_owned, mut inner) = self.children.remove(i);
                inner.insert(key, value);
                self.children.insert(i, (sk_owned, inner));
                proof {
                    assert(self.children@ =~= pre.update(i as int, self.children@[i as int]));
                    lemma_child_map_update(pre, i as int, self.children@);
                    lemma_child_map_index(pre, i as int);
                    lemma_child_map_index(self.children@, i as int);
                }
                return;
            }
            i = i + 1;
        }
        let ghost pre = self.children@;
        let mut inner = KvList::new();
        inner.insert(key, value);
        self.children.push((storage_key, inner));
        proof {
            lemma_child_map_absent(pre, self.children@[pre.len() as int].0@);
            assert(self.children@ =~= pre.push(self.children@[pre.len() as int]));
            lemma_child_map_push(pre, self.children@[pre.len() as int]);
        }
    }

    /// Reads a pending child write, if one was made for the key under the
    /// prefix.
    pub fn child_storage(&self, storage_key: &Vec<u8>, key: &Vec<u8>) -> (r: Option<Vec<u8>>)
        requires
            self.wf(),
        ensures
            match r {
                Some(v) => {
                    &&& self.child_view(storage_key@) is Some
                    &&& self.child_view(storage_key@).unwrap().contains_key(key@)
                    &&& self.child_view(storage_key@).unwrap()[key@] == v@
                },
                None => self.child_view(storage_key@) matches Some(m) ==> !m.contains_key(key@),
            },
    {
        let mut i: usize = 0;
        while i < self.children.len()
            invariant
                self.wf(),
                i <= self.children@.len(),
                forall|j: int| 0 <= j < i ==> self.children@[j].0@ != storage_key@,
            decreases self.children@.len() - i,
        {
            if bytes_eq(&self.children[i].0, storage_key) {
                proof {
                    lemma_child_map_index(self.children@, i as int);
                }
                return self.children[i].1.get(key);
            }
            i = i + 1;
        }
        proof {
            lemma_child_map_absent(self.children@, storage_key@);
        }
        None
    }

    /// Copies the pending top-level writes, the delta a trie transaction is
    /// computed from.
    pub fn delta(&self) -> (r: Vec<(Vec<u8>, Vec<u8>)>)
        ensures
            r@.len() == self.top.entries@.len(),
            forall|i: int|
                0 <= i < r@.len() ==> #[trigger] r@[i].0@ == self.top.entries@[i].0@
                    && r@[i].1@ == self.top.entries@[i].1@,
            kv_map(r@) == self.top_view(),
    {
        let mut r: Vec<(Vec<u8>, Vec<u8>)> = Vec::new();
        let mut i: usize = 0;
        while i < self.top.entries.len()
            invariant
                i <= self.top.entries@.len(),
                r@.len() == i,
                forall|j: int|
                    0 <= j < i ==> #[trigger] r@[j].0@ == self.top.entries@[j].0@
                        && r@[j].1@ == self.top.entries@[j].1@,
            decreases self.top.entries@.len() - i,
        {
            let k = clone_bytes(&self.top.entries[i].0);
            let v = clone_bytes(&self.top.entries[i].1);
            r.push((k, v));
            i = i + 1;
        }
        proof {
            lemma_kv_map_congruent(r@, self.top.entries@);
        }
        r
    }
}

/// The first matching entry determines a storage key's child mapping.
pub proof fn lemma_child_map_index(cs: Seq<(Vec<u8>, KvList)>, i: int)
    requires
        0 <= i < cs.len(),
        forall|p: int| 0 <= p < i ==> cs[p].0@ != cs[i].0@,
    ensures
        child_map(cs, cs[i].0@) == Some(cs[i].1@),
    decreases cs.len(),
{
    if i > 0 {
        lemma_child_map_index(cs.drop_first(), i - 1);
    }
}

/// A storage key matching no entry has no child mapping.
pub proof fn lemma_child_map_absent(cs: Seq<(Vec<u8>, KvList)>, sk: Seq<u8>)
    requires
        forall|j: int| 0 <= j < cs.len() ==> cs[j].0@ != sk,
    ensures
        child_map(cs, sk) is None,
    decreases cs.len(),
{
    if cs.len() > 0 {
        lemma_child_map_absent(cs.drop_first(), sk);
    }
}

/// Replacing entry `i` under the same storage key leaves every other storage
/// key's child mapping unchanged.
pub proof fn lemma_child_map_update(pre: Seq<(Vec<u8>, KvList)>, i: int, post: Seq<(Vec<u8>, KvList)>)
    requires
        0 <= i < pre.len(),
        post.len() == pre.len(),
        post[i].0@ == pre[i].0@,
        forall|j: int| 0 <= j < pre.len() && j != i ==> post[j] == pre[j],
    ensures
        forall|sk: Seq<u8>| sk != pre[i].0@ ==> child_map(post, sk) == child_map(pre, sk),
    decreases pre.len(),
{
    if pre.len() > 0 {
        if i == 0 {
            assert(post.drop_first() =~= pre.drop_first());
            assert forall|sk: Seq<u8>| sk != pre[i].0@ implies child_map(post, sk) == child_map(
                pre,
                sk,
            ) by {
                assert(child_map(post, sk) == child_map(post.drop_first(), sk));
            }
        } else {
            lemma_child_map_update(pre.drop_first(), i - 1, post.drop_first());
            assert(post[0] == pre[0]);
            assert forall|sk: Seq<u8>| sk != pre[i].0@ implies child_map(post, sk) == child_map(
                pre,
                sk,
            ) by {
                if sk != pre[0].0@ {
                    assert(child_map(post, sk) == child_map(post.drop_first(), sk));
                    assert(child_map(pre, sk) == child_map(pre.drop_first(), sk));
                }
            }
        }
    }
}

/// Appending an entry under a fresh storage key adds exactly that child
/// mapping.
pub proof fn lemma_child_map_push(pre: Seq<(Vec<u8>, KvList)>, e: (Vec<u8>, KvList))
    requires
        forall|j: int| 0 <= j < pre.len() ==> pre[j].0@ != e.0@,
    ensures
        child_map(pre.push(e), e.0@) == Some(e.1@),
        forall|sk: Seq<u8>| sk != e.0@ ==> child_map(pre.push(e), sk) == child_map(pre, sk),
    decreases pre.len(),
{
    if pre.len() == 0 {
        assert(pre.push(e)[0] == e);
        assert forall|sk: Seq<u8>| sk != e.0@ implies child_map(pre.push(e), sk) == child_map(
            pre,
            sk,
        ) by {
            assert(child_map(pre.push(e), sk) == child_map(pre.push(e).drop_first(), sk));
            assert(pre.push(e).drop_first() =~= pre);
        }
    } else {
        lemma_child_map_push(pre.drop_first(), e);
        assert(pre.push(e).drop_first() =~= pre.drop_first().push(e));
        assert(pre.push(e)[0] == pre[0]);
        assert(pre[0].0@ != e.0@);
        assert(child_map(pre.push(e), e.0@) == child_map(pre.drop_first().push(e), e.0@));
        assert forall|sk: Seq<u8>| sk != e.0@ implies child_map(pre.push(e), sk) == child_map(
            pre,
            sk,
        ) by {
            if sk == pre[0].0@ {
                assert(child_map(pre.push(e), sk) == Some(pre[0].1@));
                assert(child_map(pre, sk) == Some(pre[0].1@));
            } else {
                assert(child_map(pre.push(e), sk) == child_map(pre.drop_first().push(e), sk));
                assert(child_map(pre, sk) == child_map(pre.drop_first(), sk));
            }
        }
    }
}

/// Whether a cached transaction still describes the overlay it was computed
/// from.
pub open spec fn cache_valid(cache: TransactionCache, overlay: Overlay) -> bool {
    match cache.cached {
        None => true,
        Some(d) => kv_map(d@) == overlay.top_view(),
    }
}

/// Memoizes the pending-write delta computed from an overlay, so repeated
/// contextual calls during block construction do not recompute it. It must be
/// invalidated whenever the overlay is mutated.
pub struct TransactionCache {
    pub cached: Option<Vec<(Vec<u8>, Vec<u8>)>>,
}

impl TransactionCache {
    /// A cache holding nothing, valid for any overlay.
    pub fn new() -> (r: TransactionCache)
        ensures
            r.cached is None,
    {
        TransactionCache { cached: None }
    }

    /// Forgets the memoized delta; called whenever the overlay changes.
    pub fn invalidate(&mut self)
        ensures
            final(self).cached is None,
    {
        self.cached = None;
    }

    /// Returns the overlay's pending-write delta, from the memo when it is
    /// still valid, computing and memoizing it otherwise.
    pub fn storage_transaction(&mut self, overlay: &Overlay) -> (r: Vec<(Vec<u8>, Vec<u8>)>)
        requires
            overlay.wf(),
            cache_valid(*old(self), *overlay),
        ensures
            kv_map(r@) == overlay.top_view(),
            final(self).cached is Some,
            cache_valid(*final(self), *overlay),
    {
        match &self.cached {
            Some(d) => {
                let mut r: Vec<(Vec<u8>, Vec<u8>)> = Vec::new();
                let mut i: usize = 0;
                while i < d.len()
                    invariant
                        i <= d@.len(),
                        r@.len() == i,
                        forall|j: int|
                            0 <= j < i ==> #[trigger] r@[j].0@ == d@[j].0@ && r@[j].1@ == d@[j].1@,
                    decreases d@.len() - i,
                {
                    let k = clone_bytes(&d[i].0);
                    let v = clone_bytes(&d[i].1);
                    r.push((k, v));
                    i = i + 1;
                }
                proof {
                    lemma_kv_map_congruent(r@, self.cached.unwrap()@);
                }
                r
            },
            None => {
                let fresh = overlay.delta();
                let copy = overlay.delta();
                self.cached = Some(copy);
                fresh
            },
        }
    }
}

} // verus!
