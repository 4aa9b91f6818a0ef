//! A key-value association list with unique keys, the executable model of a
//! read-only state mapping and of the overlay's pending-write layer.

use vstd::prelude::*;

verus! {

/// Compares two byte vectors for equality of contents.
pub fn bytes_eq(a: &Vec<u8>, b: &Vec<u8>) -> (r: bool)
    ensures
        r == (a@ == b@),
{
    if a.len() != b.len() {
        assert(a@ != b@) by {
            assert(a@.len() != b@.len());
        }
        return false;
    }
    let mut i: usize = 0;
    while i < a.len()
        invariant
            i <= a.len(),
            a.len() == b.len(),
            forall|j: int| 0 <= j < i ==> a@[j] == b@[j],
        decreases a.len() - i,
    {
        if a[i] != b[i] {
            return false;
        }
        i = i + 1;
    }
    assert(a@ =~= b@);
    true
}

/// Copies a byte vector.
pub fn clone_bytes(v: &Vec<u8>) -> (r: Vec<u8>)
    ensures
        r@ == v@,
{
    let mut r: Vec<u8> = Vec::new();
    let mut i: usize = 0;
    while i < v.len()
        invariant
            i <= v.len(),
            r@ == v@.subrange(0, i as int),
        decreases v.len() - i,
    {
        r.push(v[i]);
        assert(r@ =~= v@.subrange(0, i + 1 as int));
        i = i + 1;
    }
    assert(v@.subrange(0, v@.len() as int) =~= v@);
    r
}

/// Copies the byte range `start..end` out of a vector.
pub fn bytes_range(v: &Vec<u8>, start: usize, end: usize) -> (r: Vec<u8>)
    requires
        start <= end <= v@.len(),
    ensures
        r@ == v@.subrange(start as int, end as int),
{
    let mut r: Vec<u8> = Vec::new();
    let mut i: usize = start;
    while i < end
        invariant
            start <= i <= end <= v@.len(),
            r@ == v@.subrange(start as int, i as int),
        decreases end - i,
    {
        r.push(v[i]);
        assert(r@ =~= v@.subrange(start as int, i + 1 as int));
        i = i + 1;
    }
    r
}

/// A mapping from byte-string keys to byte-string values, stored as an
/// association list whose keys are pairwise distinct.
pub struct KvList {
    pub entries: Vec<(Vec<u8>, Vec<u8>)>,
}

/// The entries with each byte vector read as its byte sequence.
pub open spec fn kv_views(entries: Seq<(Vec<u8>, Vec<u8>)>) -> Seq<(Seq<u8>, Seq<u8>)> {
    entries.map_values(|e: (Vec<u8>, Vec<u8>)| (e.0@, e.1@))
}

/// The position of the first entry carrying the key, or the length if none
/// does.
pub open spec fn kv_index_of(vs: Seq<(Seq<u8>, Seq<u8>)>, key: Seq<u8>) -> int
    decreases vs.len(),
{
    if vs.len() == 0 {
        0
    } else if vs[0].0 == key {
        0
    } else {
        1 + kv_index_of(vs.drop_first(), key)
    }
}

/// What inserting a pair does to the entry sequence: replace the first entry
/// carrying the key, or append when none does.
pub open spec fn kv_insert_v(
    vs: Seq<(Seq<u8>, Seq<u8>)>,
    key: Seq<u8>,
    value: Seq<u8>,
) -> Seq<(Seq<u8>, Seq<u8>)> {
    let i = kv_index_of(vs, key);
    if i < vs.len() {
        vs.update(i, (key, value))
    } else {
        vs.push((key, value))
    }
}

/// A key found at position `i`, and nowhere earlier, indexes there.
pub proof fn lemma_kv_index_of_found(vs: Seq<(Seq<u8>, Seq<u8>)>, key: Seq<u8>, i: int)
    requires
        0 <= i < vs.len(),
        vs[i].0 == key,
        forall|p: int| 0 <= p < i ==> vs[p].0 != key,
    ensures
        kv_index_of(vs, key) == i,
    decreases vs.len(),
{
    if i > 0 {
        lemma_kv_index_of_found(vs.drop_first(), key, i - 1);
    }
}

/// A key no entry carries indexes past the end.
pub proof fn lemma_kv_index_of_absent(vs: Seq<(Seq<u8>, Seq<u8>)>, key: Seq<u8>)
    requires
        forall|p: int| 0 <= p < vs.len() ==> vs[p].0 != key,
    ensures
        kv_index_of(vs, key) == vs.len(),
    decreases vs.len(),
{
    if vs.len() > 0 {
        lemma_kv_index_of_absent(vs.drop_first(), key);
    }
}

/// The mathematical map a sequence of entries denotes: later entries win,
/// though under `KvList::wf` there are no duplicates to resolve.
pub open spec fn kv_map(entries: Seq<(Vec<u8>, Vec<u8>)>) -> Map<Seq<u8>, Seq<u8>>
    decreases entries.len(),
{
    if entries.len() == 0 {
        Map::empty()
    } else {
        kv_map(entries.drop_last()).insert(entries.last().0@, entries.last().1@)
    }
}

impl KvList {
    /// The map this list denotes.
    pub open spec fn view(&self) -> Map<Seq<u8>, Seq<u8>> {
        kv_map(self.entries@)
    }

    /// Keys are pairwise distinct.
    pub open spec fn wf(&self) -> bool {
        forall|i: int, j: int|
            0 <= i < j < self.entries@.len() ==> self.entries@[i].0@ != self.entries@[j].0@
    }

    pub fn new() -> (r: KvList)
        ensures
            r.wf(),
            r@ == Map::<Seq<u8>, Seq<u8>>::empty(),
            r.entries@.len() == 0,
    {
        KvList { entries: Vec::new() }
    }

    /// Looks the key up, returning a copy of the stored value if any.
    pub fn get(&self, key: &Vec<u8>) -> (r: Option<Vec<u8>>)
        requires
            self.wf(),
        ensures
            match r {
                Some(v) => self@.contains_key(key@) && self@[key@] == v@,
                None => !self@.contains_key(key@),
            },
    {
        let mut i: usize = 0;
        while i < self.entries.len()
            invariant
                self.wf(),
                i <= self.entries@.len(),
                forall|j: int| 0 <= j < i ==> self.entries@[j].0@ != key@,
            decreases self.entries@.len() - i,
        {
            if bytes_eq(&self.entries[i].0, key) {
                let v = clone_bytes(&self.entries[i].1);
                proof {
                    lemma_kv_map_index(self.entries@, i as int);
                }
                return Some(v);
            }
            i = i + 1;
        }
        proof {
            lemma_kv_map_absent(self.entries@, key@);
        }
        None
    }

    /// Inserts or replaces the value stored for the key.
    pub fn insert(&mut self, key: Vec<u8>, value: Vec<u8>)
        requires
            old(self).wf(),
        ensures
            final(self).wf(),
            final(self)@ == old(self)@.insert(key@, value@),
            kv_views(final(self).entries@) == kv_insert_v(kv_views(old(self).entries@), key@, value@),
            final(self).entries@.len() <= old(self).entries@.len() + 1,
    {
        let mut i: usize = 0;
        while i < self.entries.len()
            invariant
                self.wf(),
                self.entries@ == old(self).entries@,
                i <= self.entries@.len(),
                forall|j: int| 0 <= j < i ==> self.entries@[j].0@ != key@,
            decreases self.entries@.len() - i,
        {
            if bytes_eq(&self.entries[i].0, &key) {
                let ghost pre = self.entries@;
                let ghost key_view = key@;
                let ghost value_view = value@;
                self.entries.remove(i);
                self.entries.insert(i, (key, value));
                proof {
                    assert(self.entries@ =~= pre.update(i as int, self.entries@[i as int]));
                    lemma_kv_map_update(pre, i as int, self.entries@);
                    lemma_kv_index_of_found(kv_views(pre), key_view, i as int);
                    assert(kv_views(self.entries@) =~= kv_views(pre).update(
                        i as int,
                        (key_view, value_view),
                    ));
                }
                return;
            }
            i = i + 1;
        }
        let ghost pre = self.entries@;
        let ghost key_view = key@;
        let ghost value_view = value@;
        self.entries.push((key, value));
        proof {
            assert(self.entries@.drop_last() =~= old(self).entries@);
            lemma_kv_index_of_absent(kv_views(pre), key_view);
            assert(kv_views(self.entries@) =~= kv_views(pre).push((key_view, value_view)));
        }
    }

    /// Number of stored entries.
    pub fn len(&self) -> (n: usize)
        ensures
            n == self.entries@.len(),
    {
        self.entries.len()
    }

    /// Copies the mapping.
    pub fn duplicate(&self) -> (r: KvList)
        requires
            self.wf(),
        ensures
            r.wf(),
            r@ == self@,
            kv_views(r.entries@) == kv_views(self.entries@),
            r.entries@.len() == self.entries@.len(),
    {
        let mut entries: Vec<(Vec<u8>, Vec<u8>)> = Vec::new();
        let mut i: usize = 0;
        while i < self.entries.len()
            invariant
                i <= self.entries@.len(),
                entries@.len() == i,
                forall|j: int|
                    0 <= j < i ==> #[trigger] entries@[j].0@ == self.entries@[j].0@
                        && entries@[j].1@ == self.entries@[j].1@,
            decreases self.entries@.len() - i,
        {
            let k = clone_bytes(&self.entries[i].0);
            let v = clone_bytes(&self.entries[i].1);
            entries.push((k, v));
            i = i + 1;
        }
        proof {
            lemma_kv_map_congruent(entries@, self.entries@);
            assert(kv_views(entries@) =~= kv_views(self.entries@));
        }
        KvList { entries }
    }
}

/// Two entry sequences whose keys and values agree pointwise denote the same
/// map.
pub proof fn lemma_kv_map_congruent(a: Seq<(Vec<u8>, Vec<u8>)>, b: Seq<(Vec<u8>, Vec<u8>)>)
    requires
        a.len() == b.len(),
        forall|i: int| 0 <= i < a.len() ==> #[trigger] a[i].0@ == b[i].0@ && a[i].1@ == b[i].1@,
    ensures
        kv_map(a) == kv_map(b),
    decreases a.len(),
{
    if a.len() > 0 {
        lemma_kv_map_congruent(a.drop_last(), b.drop_last());
        assert(kv_map(a) =~= kv_map(b));
    }
}

/// If entry `i` matches a key, the denoted map sends that key to entry `i`'s
/// value, provided keys are distinct.
pub proof fn lemma_kv_map_index(entries: Seq<(Vec<u8>, Vec<u8>)>, i: int)
    requires
        0 <= i < entries.len(),
        forall|p: int, q: int| 0 <= p < q < entries.len() ==> entries[p].0@ != entries[q].0@,
    ensures
        kv_map(entries).contains_key(entries[i].0@),
        kv_map(entries)[entries[i].0@] == entries[i].1@,
    decreases entries.len(),
{
    if i == entries.len() - 1 {
    } else {
        lemma_kv_map_index(entries.drop_last(), i);
    }
}

/// A key matching no entry is outside the denoted map's domain.
pub proof fn lemma_kv_map_absent(entries: Seq<(Vec<u8>, Vec<u8>)>, key: Seq<u8>)
    requires
        forall|j: int| 0 <= j < entries.len() ==> entries[j].0@ != key,
    ensures
        !kv_map(entries).contains_key(key),
    decreases entries.len(),
{
    if entries.len() > 0 {
        lemma_kv_map_absent(entries.drop_last(), key);
    }
}

/// Replacing entry `i` by a new value under the same key turns the denoted
/// map into an insert of that key.
pub proof fn lemma_kv_map_update(pre: Seq<(Vec<u8>, Vec<u8>)>, i: int, post: Seq<(Vec<u8>, Vec<u8>)>)
    requires
        0 <= i < pre.len(),
        post.len() == pre.len(),
        post[i].0@ == pre[i].0@,
        forall|j: int| 0 <= j < pre.len() && j != i ==> post[j] == pre[j],
        forall|p: int, q: int| 0 <= p < q < pre.len() ==> pre[p].0@ != pre[q].0@,
    ensures
        kv_map(post) == kv_map(pre).insert(pre[i].0@, post[i].1@),
    decreases pre.len(),
{
    if pre.len() == 0 {
    } else if i == pre.len() - 1 {
        assert(post.drop_last() =~= pre.drop_last());
        assert(kv_map(post) =~= kv_map(pre).insert(pre[i].0@, post[i].1@));
    } else {
        lemma_kv_map_update(pre.drop_last(), i, post.drop_last());
        assert(post.last() == pre.last());
        lemma_kv_map_absent_prefix(pre, i);
        assert(kv_map(post) =~= kv_map(pre).insert(pre[i].0@, post[i].1@));
    }
}

/// Helper: with distinct keys, the last entry's key differs from entry `i`'s
/// key for `i` before the last.
proof fn lemma_kv_map_absent_prefix(pre: Seq<(Vec<u8>, Vec<u8>)>, i: int)
    requires
        0 <= i < pre.len() - 1,
        forall|p: int, q: int| 0 <= p < q < pre.len() ==> pre[p].0@ != pre[q].0@,
    ensures
        pre.last().0@ != pre[i].0@,
{
}

} // verus!
