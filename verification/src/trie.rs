//! A trie-backed state view at its interface: a root directory node and leaf
//! nodes addressed by node identifier, a storage proof that accumulates every
//! node a read visits, and the replay semantics a verifier uses to re-answer
//! those reads from the proof alone. Node hashing and node serialization are
//! the storage backend's business; here a node identifier is an opaque `u64`
//! and a proof carries node contents keyed by identifier.

use vstd::prelude::*;
use crate::kv::{bytes_eq, clone_bytes};

verus! {

/// View of an optional byte vector as an optional byte sequence.
pub open spec fn opt_bytes_view(r: Option<Vec<u8>>) -> Option<Seq<u8>> {
    match r {
        Some(v) => Some(v@),
        None => None,
    }
}

/// A trie-backed state view: the root node is a directory from keys to leaf
/// node identifiers, and each leaf node holds one value.
pub struct TrieState {
    pub root_id: u64,
    pub root_dir: Vec<(Vec<u8>, u64)>,
    pub leaves: Vec<(u64, Vec<u8>)>,
}

/// The leaf identifier the first directory entry matching the key points to.
pub open spec fn dir_child(d: Seq<(Vec<u8>, u64)>, key: Seq<u8>) -> Option<u64>
    decreases d.len(),
{
    if d.len() == 0 {
        None
    } else if d[0].0@ == key {
        Some(d[0].1)
    } else {
        dir_child(d.drop_first(), key)
    }
}

/// The value of the first leaf node carrying the identifier.
pub open spec fn leaf_at(ls: Seq<(u64, Vec<u8>)>, id: u64) -> Option<Seq<u8>>
    decreases ls.len(),
{
    if ls.len() == 0 {
        None
    } else if ls[0].0 == id {
        Some(ls[0].1@)
    } else {
        leaf_at(ls.drop_first(), id)
    }
}

/// Two directories with pointwise equal keys and identifiers.
pub open spec fn dir_like(a: Seq<(Vec<u8>, u64)>, b: Seq<(Vec<u8>, u64)>) -> bool {
    a.len() == b.len() && forall|i: int|
        0 <= i < a.len() ==> #[trigger] a[i].0@ == b[i].0@ && a[i].1 == b[i].1
}

impl TrieState {
    /// Directory keys are distinct, leaf identifiers are distinct, and the
    /// root's identifier collides with no leaf's.
    pub open spec fn wf(&self) -> bool {
        &&& forall|i: int, j: int|
            0 <= i < j < self.root_dir@.len() ==> self.root_dir@[i].0@ != self.root_dir@[j].0@
        &&& forall|i: int, j: int|
            0 <= i < j < self.leaves@.len() ==> self.leaves@[i].0 != self.leaves@[j].0
        &&& forall|i: int| 0 <= i < self.leaves@.len() ==> #[trigger] self.leaves@[i].0 != self.root_id
    }

    /// What a read of the key returns against this view.
    pub open spec fn value(&self, key: Seq<u8>) -> Option<Seq<u8>> {
        match dir_child(self.root_dir@, key) {
            None => None,
            Some(cid) => leaf_at(self.leaves@, cid),
        }
    }
}

/// Finds a key's leaf identifier in a directory.
pub fn dir_get(d: &Vec<(Vec<u8>, u64)>, key: &Vec<u8>) -> (r: Option<u64>)
    ensures
        r == dir_child(d@, key@),
{
    let mut i: usize = 0;
    proof {
        assert(d@.skip(0) =~= d@);
    }
    while i < d.len()
        invariant
            i <= d@.len(),
            dir_child(d@, key@) == dir_child(d@.skip(i as int), key@),
        decreases d@.len() - i,
    {
        proof {
            assert(d@.skip(i as int)[0] == d@[i as int]);
            assert(d@.skip(i as int).drop_first() =~= d@.skip(i + 1 as int));
        }
        if bytes_eq(&d[i].0, key) {
            return Some(d[i].1);
        }
        i = i + 1;
    }
    proof {
        assert(d@.skip(d@.len() as int).len() == 0);
    }
    None
}

/// Finds a leaf node's value by identifier.
pub fn leaf_get(ls: &Vec<(u64, Vec<u8>)>, id: u64) -> (r: Option<Vec<u8>>)
    ensures
        opt_bytes_view(r) == leaf_at(ls@, id),
{
    let mut i: usize = 0;
    proof {
        assert(ls@.skip(0) =~= ls@);
    }
    while i < ls.len()
        invariant
            i <= ls@.len(),
            leaf_at(ls@, id) == leaf_at(ls@.skip(i as int), id),
        decreases ls@.len() - i,
    {
        proof {
            assert(ls@.skip(i as int)[0] == ls@[i as int]);
            assert(ls@.skip(i as int).drop_first() =~= ls@.skip(i + 1 as int));
        }
        if ls[i].0 == id {
            return Some(clone_bytes(&ls[i].1));
        }
        i = i + 1;
    }
    proof {
        assert(ls@.skip(ls@.len() as int).len() == 0);
    }
    None
}

/// Reads a key against the trie view without recording anything.
pub fn trie_read(t: &TrieState, key: &Vec<u8>) -> (r: Option<Vec<u8>>)
    ensures
        opt_bytes_view(r) == t.value(key@),
{
    match dir_get(&t.root_dir, key) {
        None => None,
        Some(cid) => leaf_get(&t.leaves, cid),
    }
}

/// The minimal evidence of the reads one execution performed: the visited
/// nodes, keyed by node identifier, each contributed once however often it
/// was visited. Immutable once handed back to the caller.
pub struct StorageProof {
    pub root_node: Option<(u64, Vec<(Vec<u8>, u64)>)>,
    pub leaf_nodes: Vec<(u64, Vec<u8>)>,
}

impl StorageProof {
    /// Leaf identifiers appear at most once.
    pub open spec fn wf(&self) -> bool {
        forall|i: int, j: int|
            0 <= i < j < self.leaf_nodes@.len() ==> self.leaf_nodes@[i].0 != self.leaf_nodes@[j].0
    }

    /// Every node the proof holds is a node of the trie: the root node, if
    /// recorded, carries the trie's root identifier and directory, and every
    /// recorded leaf is the trie's leaf of that identifier.
    pub open spec fn consistent_with(&self, t: TrieState) -> bool {
        &&& self.wf()
        &&& match self.root_node {
            None => true,
            Some(r) => r.0 == t.root_id && dir_like(r.1@, t.root_dir@),
        }
        &&& forall|i: int|
            0 <= i < self.leaf_nodes@.len() ==> leaf_at(t.leaves@, #[trigger] self.leaf_nodes@[i].0)
                == Some(self.leaf_nodes@[i].1@)
    }

    /// What a verifier holding only this proof and the claimed root
    /// identifier answers for a read of the key.
    pub open spec fn replay_value(&self, root_id: u64, key: Seq<u8>) -> Option<Seq<u8>> {
        match self.root_node {
            Some(r) => {
                if r.0 == root_id {
                    match dir_child(r.1@, key) {
                        None => None,
                        Some(cid) => leaf_at(self.leaf_nodes@, cid),
                    }
                } else {
                    None
                }
            },
            None => None,
        }
    }

    /// The proof already holds every node a read of the key visits.
    pub open spec fn covers(&self, t: TrieState, key: Seq<u8>) -> bool {
        &&& self.root_node is Some
        &&& match dir_child(t.root_dir@, key) {
            None => true,
            Some(cid) => leaf_at(t.leaves@, cid) is Some ==> leaf_at(self.leaf_nodes@, cid) is Some,
        }
    }

    /// An empty proof, consistent with any trie.
    pub fn empty() -> (r: StorageProof)
        ensures
            r.root_node is None,
            r.leaf_nodes@.len() == 0,
            forall|t: TrieState| r.consistent_with(t),
    {
        StorageProof { root_node: None, leaf_nodes: Vec::new() }
    }

    /// Number of nodes the proof holds.
    pub fn node_count(&self) -> (n: usize)
        requires
            self.leaf_nodes@.len() < usize::MAX,
        ensures
            n == self.leaf_nodes@.len() + (if self.root_node is Some { 1int } else { 0int }),
    {
        match &self.root_node {
            Some(_) => self.leaf_nodes.len() + 1,
            None => self.leaf_nodes.len(),
        }
    }
}

/// Re-answers a read from a proof and a claimed root identifier alone, as a
/// verifier holding no other state would.
pub fn replay_read(proof: &StorageProof, root_id: u64, key: &Vec<u8>) -> (r: Option<Vec<u8>>)
    ensures
        opt_bytes_view(r) == proof.replay_value(root_id, key@),
{
    match &proof.root_node {
        Some(root) => {
            if root.0 == root_id {
                match dir_get(&root.1, key) {
                    None => None,
                    Some(cid) => leaf_get(&proof.leaf_nodes, cid),
                }
            } else {
                None
            }
        },
        None => None,
    }
}

/// Pointwise equal directories agree on every lookup.
pub proof fn lemma_dir_child_congruent(a: Seq<(Vec<u8>, u64)>, b: Seq<(Vec<u8>, u64)>, key: Seq<u8>)
    requires
        dir_like(a, b),
    ensures
        dir_child(a, key) == dir_child(b, key),
    decreases a.len(),
{
    if a.len() > 0 {
        assert(a[0].0@ == b[0].0@ && a[0].1 == b[0].1);
        assert forall|i: int|
            0 <= i < a.drop_first().len() implies #[trigger] a.drop_first()[i].0@
            == b.drop_first()[i].0@ && a.drop_first()[i].1 == b.drop_first()[i].1 by {
            assert(a.drop_first()[i] == a[i + 1]);
            assert(b.drop_first()[i] == b[i + 1]);
        }
        lemma_dir_child_congruent(a.drop_first(), b.drop_first(), key);
    }
}

/// The first directory entry carrying a key determines its lookup.
pub proof fn lemma_dir_child_index(d: Seq<(Vec<u8>, u64)>, i: int)
    requires
        0 <= i < d.len(),
        forall|p: int| 0 <= p < i ==> d[p].0@ != d[i].0@,
    ensures
        dir_child(d, d[i].0@) == Some(d[i].1),
    decreases d.len(),
{
    if i > 0 {
        lemma_dir_child_index(d.drop_first(), i - 1);
    }
}

/// A key matching no directory entry has no child.
pub proof fn lemma_dir_child_absent(d: Seq<(Vec<u8>, u64)>, key: Seq<u8>)
    requires
        forall|j: int| 0 <= j < d.len() ==> d[j].0@ != key,
    ensures
        dir_child(d, key) is None,
    decreases d.len(),
{
    if d.len() > 0 {
        lemma_dir_child_absent(d.drop_first(), key);
    }
}

/// The first leaf carrying an identifier determines its lookup.
pub proof fn lemma_leaf_at_index(ls: Seq<(u64, Vec<u8>)>, i: int)
    requires
        0 <= i < ls.len(),
        forall|p: int| 0 <= p < i ==> ls[p].0 != ls[i].0,
    ensures
        leaf_at(ls, ls[i].0) == Some(ls[i].1@),
    decreases ls.len(),
{
    if i > 0 {
        lemma_leaf_at_index(ls.drop_first(), i - 1);
    }
}

/// A leaf lookup that succeeds in a proof consistent with a trie returns the
/// trie's leaf value for that identifier.
pub proof fn lemma_leaf_at_consistent(ls: Seq<(u64, Vec<u8>)>, t_leaves: Seq<(u64, Vec<u8>)>, id: u64)
    requires
        forall|i: int| 0 <= i < ls.len() ==> leaf_at(t_leaves, #[trigger] ls[i].0) == Some(ls[i].1@),
        leaf_at(ls, id) is Some,
    ensures
        leaf_at(t_leaves, id) == leaf_at(ls, id),
    decreases ls.len(),
{
    if ls.len() > 0 {
        if ls[0].0 == id {
        } else {
            assert forall|i: int| 0 <= i < ls.drop_first().len() implies leaf_at(
                t_leaves,
                #[trigger] ls.drop_first()[i].0,
            ) == Some(ls.drop_first()[i].1@) by {
                assert(ls.drop_first()[i] == ls[i + 1]);
            }
            lemma_leaf_at_consistent(ls.drop_first(), t_leaves, id);
        }
    }
}

/// Appending a leaf node leaves lookups of other identifiers unchanged and
/// makes the appended one found, provided its identifier was absent.
pub proof fn lemma_leaf_at_push(ls: Seq<(u64, Vec<u8>)>, e: (u64, Vec<u8>))
    requires
        leaf_at(ls, e.0) is None,
    ensures
        leaf_at(ls.push(e), e.0) == Some(e.1@),
        forall|id: u64| id != e.0 ==> leaf_at(ls.push(e), id) == leaf_at(ls, id),
    decreases ls.len(),
{
    if ls.len() == 0 {
        assert(ls.push(e)[0] == e);
        assert forall|id: u64| id != e.0 implies leaf_at(ls.push(e), id) == leaf_at(ls, id) by {
            assert(leaf_at(ls.push(e), id) == leaf_at(ls.push(e).drop_first(), id));
            assert(ls.push(e).drop_first() =~= ls);
        }
    } else {
        assert(ls.push(e)[0] == ls[0]);
        assert(ls.push(e).drop_first() =~= ls.drop_first().push(e));
        lemma_leaf_at_push(ls.drop_first(), e);
        assert(ls[0].0 != e.0);
        assert(leaf_at(ls.push(e), e.0) == leaf_at(ls.drop_first().push(e), e.0));
        assert forall|id: u64| id != e.0 implies leaf_at(ls.push(e), id) == leaf_at(ls, id) by {
            if ls[0].0 == id {
                assert(leaf_at(ls.push(e), id) == Some(ls[0].1@));
                assert(leaf_at(ls, id) == Some(ls[0].1@));
            } else {
                assert(leaf_at(ls.push(e), id) == leaf_at(ls.drop_first().push(e), id));
                assert(leaf_at(ls, id) == leaf_at(ls.drop_first(), id));
            }
        }
    }
}

/// Every stored leaf identifier is found by a lookup.
pub proof fn lemma_leaf_at_present(ls: Seq<(u64, Vec<u8>)>, j: int)
    requires
        0 <= j < ls.len(),
    ensures
        leaf_at(ls, ls[j].0) is Some,
    decreases ls.len(),
{
    if ls.len() > 0 && ls[0].0 != ls[j].0 {
        lemma_leaf_at_present(ls.drop_first(), j - 1);
    }
}

/// Every stored leaf identifier is found by a lookup, stated for the whole
/// sequence.
pub proof fn lemma_leaf_at_all_present(ls: Seq<(u64, Vec<u8>)>)
    ensures
        forall|j: int| 0 <= j < ls.len() ==> leaf_at(ls, (#[trigger] ls[j]).0) is Some,
{
    assert forall|j: int| 0 <= j < ls.len() implies leaf_at(ls, (#[trigger] ls[j]).0) is Some by {
        lemma_leaf_at_present(ls, j);
    }
}

/// A found identifier matches some entry.
pub proof fn lemma_leaf_at_some_index(ls: Seq<(u64, Vec<u8>)>, id: u64)
    requires
        leaf_at(ls, id) is Some,
    ensures
        exists|j: int| 0 <= j < ls.len() && (#[trigger] ls[j]).0 == id,
    decreases ls.len(),
{
    if ls.len() > 0 {
        if ls[0].0 == id {
            assert(ls[0].0 == id);
        } else {
            lemma_leaf_at_some_index(ls.drop_first(), id);
            let j = choose|j: int| 0 <= j < ls.drop_first().len() && (#[trigger] ls.drop_first()[j]).0 == id;
            assert(ls[j + 1].0 == id);
        }
    }
}

/// An identifier a lookup does not find matches no entry at all.
pub proof fn lemma_leaf_at_none(ls: Seq<(u64, Vec<u8>)>, id: u64)
    requires
        leaf_at(ls, id) is None,
    ensures
        forall|i: int| 0 <= i < ls.len() ==> ls[i].0 != id,
    decreases ls.len(),
{
    if ls.len() > 0 {
        lemma_leaf_at_none(ls.drop_first(), id);
        assert forall|i: int| 0 <= i < ls.len() implies ls[i].0 != id by {
            if i > 0 {
                assert(ls.drop_first()[i - 1] == ls[i]);
            }
        }
    }
}

/// An identifier absent from the trie is absent from any consistent proof.
pub proof fn lemma_leaf_absent_in_proof(ls: Seq<(u64, Vec<u8>)>, t_leaves: Seq<(u64, Vec<u8>)>, id: u64)
    requires
        forall|i: int| 0 <= i < ls.len() ==> leaf_at(t_leaves, #[trigger] ls[i].0) == Some(ls[i].1@),
        leaf_at(t_leaves, id) is None,
    ensures
        leaf_at(ls, id) is None,
{
    if leaf_at(ls, id) is Some {
        lemma_leaf_at_consistent(ls, t_leaves, id);
    }
}

/// Copies a directory node.
fn clone_dir(d: &Vec<(Vec<u8>, u64)>) -> (r: Vec<(Vec<u8>, u64)>)
    ensures
        dir_like(r@, d@),
{
    let mut r: Vec<(Vec<u8>, u64)> = Vec::new();
    let mut i: usize = 0;
    while i < d.len()
        invariant
            i <= d@.len(),
            r@.len() == i,
            forall|j: int| 0 <= j < i ==> #[trigger] r@[j].0@ == d@[j].0@ && r@[j].1 == d@[j].1,
        decreases d@.len() - i,
    {
        let k = clone_bytes(&d[i].0);
        r.push((k, d[i].1));
        i = i + 1;
    }
    r
}

/// Reads a key against the trie view and mirrors every node the read visits
/// into the proof, each node contributed once however often it is visited.
/// Keys the proof could already replay stay replayable, and the key just read
/// becomes replayable.
pub fn proving_read(t: &TrieState, proof: &mut StorageProof, key: &Vec<u8>) -> (r: Option<Vec<u8>>)
    requires
        t.wf(),
        old(proof).consistent_with(*t),
    ensures
        final(proof).consistent_with(*t),
        opt_bytes_view(r) == t.value(key@),
        final(proof).covers(*t, key@),
        final(proof).replay_value(t.root_id, key@) == t.value(key@),
        forall|k: Seq<u8>|
            old(proof).replay_value(t.root_id, k) == t.value(k) && #[trigger] old(proof).covers(*t, k)
                ==> final(proof).replay_value(t.root_id, k) == t.value(k) && final(proof).covers(*t, k),
        old(proof).covers(*t, key@) ==> *final(proof) == *old(proof),
        final(proof).root_node is Some,
        forall|j: int|
            0 <= j < final(proof).leaf_nodes@.len() ==> leaf_at(
                old(proof).leaf_nodes@,
                (#[trigger] final(proof).leaf_nodes@[j]).0,
            ) is Some || Some(final(proof).leaf_nodes@[j].0) == dir_child(t.root_dir@, key@),
    {
    let ghost pre = *proof;
    // Visit and record the root node.
    let mut root_was_recorded: bool = true;
    match &proof.root_node {
        Some(_) => {},
        None => {
            root_was_recorded = false;
        },
    }
    if !root_was_recorded {
        let dir = clone_dir(&t.root_dir);
        proof.root_node = Some((t.root_id, dir));
    }
    proof {
        if proof.root_node is Some {
            lemma_dir_child_congruent(proof.root_node.unwrap().1@, t.root_dir@, key@);
        }
    }
    // Navigate the directory.
    match dir_get(&t.root_dir, key) {
        None => {
            proof {
                assert forall|j: int|
                    0 <= j < proof.leaf_nodes@.len() implies leaf_at(
                    pre.leaf_nodes@,
                    (#[trigger] proof.leaf_nodes@[j]).0,
                ) is Some by {
                    lemma_leaf_at_present(pre.leaf_nodes@, j);
                }
                assert forall|k: Seq<u8>|
                    pre.replay_value(t.root_id, k) == t.value(k) && #[trigger] pre.covers(*t, k)
                        implies proof.replay_value(t.root_id, k) == t.value(k) && proof.covers(
                        *t,
                        k,
                    ) by {
                    lemma_dir_child_congruent(proof.root_node.unwrap().1@, t.root_dir@, k);
                }
            }
            None
        },
        Some(cid) => {
            // Visit the leaf node, if the trie holds one.
            match leaf_get(&t.leaves, cid) {
                Some(v) => {
                    let ghost mid = *proof;
                    // Record the leaf once.
                    let mut leaf_recorded: bool = false;
                    match leaf_get(&proof.leaf_nodes, cid) {
                        Some(_) => {
                            leaf_recorded = true;
                        },
                        None => {},
                    }
                    if !leaf_recorded {
                        let copy = clone_bytes(&v);
                        proof.leaf_nodes.push((cid, copy));
                        proof {
                            assert(proof.leaf_nodes@ =~= mid.leaf_nodes@.push(
                                proof.leaf_nodes@[mid.leaf_nodes@.len() as int],
                            ));
                            lemma_leaf_at_push(mid.leaf_nodes@, proof.leaf_nodes@[mid.leaf_nodes@.len() as int]);
                            lemma_leaf_at_none(mid.leaf_nodes@, cid);
                            assert forall|j: int|
                                0 <= j < proof.leaf_nodes@.len() implies leaf_at(
                                pre.leaf_nodes@,
                                (#[trigger] proof.leaf_nodes@[j]).0,
                            ) is Some || Some(proof.leaf_nodes@[j].0) == dir_child(
                                t.root_dir@,
                                key@,
                            ) by {
                                if j < pre.leaf_nodes@.len() {
                                    lemma_leaf_at_present(pre.leaf_nodes@, j);
                                }
                            }
                        }
                    } else {
                        proof {
                            lemma_leaf_at_consistent(proof.leaf_nodes@, t.leaves@, cid);
                            assert forall|j: int|
                                0 <= j < proof.leaf_nodes@.len() implies leaf_at(
                                pre.leaf_nodes@,
                                (#[trigger] proof.leaf_nodes@[j]).0,
                            ) is Some by {
                                lemma_leaf_at_present(pre.leaf_nodes@, j);
                            }
                        }
                    }
                    proof {
                        lemma_proving_read_post(pre, *proof, *t, key@, cid);
                    }
                    Some(v)
                },
                None => {
                    proof {
                        lemma_leaf_absent_in_proof(proof.leaf_nodes@, t.leaves@, cid);
                        assert forall|j: int|
                            0 <= j < proof.leaf_nodes@.len() implies leaf_at(
                            pre.leaf_nodes@,
                            (#[trigger] proof.leaf_nodes@[j]).0,
                        ) is Some by {
                            lemma_leaf_at_present(pre.leaf_nodes@, j);
                        }
                        assert forall|k: Seq<u8>|
                            pre.replay_value(t.root_id, k) == t.value(k) && #[trigger] pre.covers(
                                *t,
                                k,
                            ) implies proof.replay_value(t.root_id, k) == t.value(k)
                            && proof.covers(*t, k) by {
                            lemma_dir_child_congruent(proof.root_node.unwrap().1@, t.root_dir@, k);
                        }
                    }
                    None
                },
            }
        },
    }
}

/// After a successful leaf read was recorded, the key replays to its value
/// and previously replayable keys stay replayable.
proof fn lemma_proving_read_post(
    pre: StorageProof,
    post: StorageProof,
    t: TrieState,
    key: Seq<u8>,
    cid: u64,
)
    requires
        t.wf(),
        pre.consistent_with(t),
        post.consistent_with(t),
        post.root_node is Some,
        post.root_node.unwrap().0 == t.root_id,
        dir_like(post.root_node.unwrap().1@, t.root_dir@),
        dir_child(t.root_dir@, key) == Some(cid),
        leaf_at(t.leaves@, cid) is Some,
        leaf_at(post.leaf_nodes@, cid) == leaf_at(t.leaves@, cid),
        pre.root_node is Some ==> post.root_node == pre.root_node,
        forall|id: u64|
            leaf_at(pre.leaf_nodes@, id) is Some ==> #[trigger] leaf_at(post.leaf_nodes@, id)
                == leaf_at(pre.leaf_nodes@, id),
    ensures
        post.replay_value(t.root_id, key) == t.value(key),
        post.covers(t, key),
        forall|k: Seq<u8>|
            pre.replay_value(t.root_id, k) == t.value(k) && #[trigger] pre.covers(t, k)
                ==> post.replay_value(t.root_id, k) == t.value(k) && post.covers(t, k),
{
    lemma_dir_child_congruent(post.root_node.unwrap().1@, t.root_dir@, key);
    assert forall|k: Seq<u8>|
        pre.replay_value(t.root_id, k) == t.value(k) && #[trigger] pre.covers(t, k)
            implies post.replay_value(t.root_id, k) == t.value(k) && post.covers(t, k) by {
        lemma_dir_child_congruent(post.root_node.unwrap().1@, t.root_dir@, k);
        match dir_child(t.root_dir@, k) {
            None => {},
            Some(kcid) => {
                match leaf_at(t.leaves@, kcid) {
                    Some(_) => {
                        if leaf_at(pre.leaf_nodes@, kcid) is Some {
                            lemma_leaf_at_consistent(pre.leaf_nodes@, t.leaves@, kcid);
                            lemma_leaf_at_consistent(post.leaf_nodes@, t.leaves@, kcid);
                        } else {
                            // `k` was covered, so its leaf was already
                            // recorded or the read of `k` found none.
                            assert(leaf_at(pre.leaf_nodes@, kcid) is Some);
                        }
                    },
                    None => {
                        lemma_leaf_absent_in_proof(post.leaf_nodes@, t.leaves@, kcid);
                    },
                }
            },
        }
    }
}

} // verus!
