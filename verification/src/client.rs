//! Test-client construction: genesis parameters, the genesis storage they
//! denote (with per-child trie roots and the genesis block's hash folded into
//! top-level storage), and a builder that wires an executor to a backend
//! holding the genesis state as a trie-backed view.

use vstd::prelude::*;
use crate::executor::{Backend, BlockEntry, LocalCallExecutor};
use crate::kv::{
    KvList, clone_bytes, kv_insert_v, kv_views, lemma_kv_map_absent, lemma_kv_map_index,
};
use crate::overlay::{child_map, lemma_child_map_absent, lemma_child_map_index, lemma_child_map_push, lemma_child_map_update};
use crate::runtime::{MethodKind, RuntimeImpl, StateView, table_views};
use crate::scale::{encode_u64, u64_le_bytes};
use crate::trie::{
    TrieState, lemma_dir_child_absent, lemma_dir_child_index, lemma_leaf_at_index,
};
use crate::version::{RuntimeVersion, version_compatible};

verus! {

/// The reserved key the heap-pages override is written under.
pub open spec fn heap_pages_key_spec() -> Seq<u8> {
    seq![58u8, 104u8, 112u8]
}

/// The reserved key the changes-trie flag is written under.
pub open spec fn changes_trie_key_spec() -> Seq<u8> {
    seq![58u8, 99u8, 116u8]
}

/// The reserved key the genesis block's hash is written under.
pub open spec fn genesis_hash_key_spec() -> Seq<u8> {
    seq![58u8, 103u8, 104u8]
}

/// The reserved heap-pages key as call-time bytes.
pub fn heap_pages_key() -> (k: Vec<u8>)
    ensures
        k@ == heap_pages_key_spec(),
{
    let mut k: Vec<u8> = Vec::new();
    k.push(58);
    k.push(104);
    k.push(112);
    assert(k@ =~= heap_pages_key_spec());
    k
}

/// The reserved changes-trie key as call-time bytes.
pub fn changes_trie_key() -> (k: Vec<u8>)
    ensures
        k@ == changes_trie_key_spec(),
{
    let mut k: Vec<u8> = Vec::new();
    k.push(58);
    k.push(99);
    k.push(116);
    assert(k@ =~= changes_trie_key_spec());
    k
}

/// The reserved genesis-hash key as call-time bytes.
pub fn genesis_hash_key() -> (k: Vec<u8>)
    ensures
        k@ == genesis_hash_key_spec(),
{
    let mut k: Vec<u8> = Vec::new();
    k.push(58);
    k.push(103);
    k.push(104);
    assert(k@ =~= genesis_hash_key_spec());
    k
}

/// Folds a byte string into an accumulator, a running polynomial in base 31
/// over the limbs, modulo the machine word.
pub open spec fn byte_fold(acc: u64, s: Seq<u8>, n: int) -> u64
    decreases n,
{
    if n <= 0 {
        acc
    } else {
        ((byte_fold(acc, s, n - 1) as int * 31 + s[n - 1] as int) % 0x10000000000000000) as u64
    }
}

/// Folds every entry of a mapping, keys and values in order, from a fixed
/// offset. Defined over the entries' byte sequences, so it depends on
/// contents alone.
pub open spec fn kv_digest(vs: Seq<(Seq<u8>, Seq<u8>)>, n: int) -> u64
    decreases n,
{
    if n <= 0 {
        14695981039346656037u64
    } else {
        byte_fold(
            byte_fold(kv_digest(vs, n - 1), vs[n - 1].0, vs[n - 1].0.len() as int),
            vs[n - 1].1,
            vs[n - 1].1.len() as int,
        )
    }
}

/// The root identifier of the trie an entry sequence builds: a digest of its
/// entries, offset so that it collides with no leaf identifier.
pub open spec fn root_of_views(vs: Seq<(Seq<u8>, Seq<u8>)>) -> u64 {
    (0x8000000000000000 + (kv_digest(vs, vs.len() as int) as int % 0x8000000000000000)) as u64
}

/// The root identifier of the trie built from a mapping.
pub open spec fn trie_root_spec(kv: KvList) -> u64 {
    root_of_views(kv_views(kv.entries@))
}

/// Folds a byte string into the accumulator.
pub fn byte_fold_exec(start: u64, s: &Vec<u8>) -> (r: u64)
    ensures
        r == byte_fold(start, s@, s@.len() as int),
{
    let mut acc: u64 = start;
    let mut i: usize = 0;
    while i < s.len()
        invariant
            i <= s@.len(),
            acc == byte_fold(start, s@, i as int),
        decreases s@.len() - i,
    {
        let wide: u128 = (acc as u128) * 31 + (s[i] as u128);
        proof {
            assert(wide == acc * 31 + s@[i as int]);
        }
        acc = (wide % 0x10000000000000000) as u64;
        i = i + 1;
    }
    acc
}

/// Folds every entry of a mapping.
pub fn kv_digest_exec(kv: &KvList) -> (r: u64)
    ensures
        r == kv_digest(kv_views(kv.entries@), kv.entries@.len() as int),
{
    let mut acc: u64 = 14695981039346656037;
    let mut i: usize = 0;
    while i < kv.entries.len()
        invariant
            i <= kv.entries@.len(),
            acc == kv_digest(kv_views(kv.entries@), i as int),
        decreases kv.entries@.len() - i,
    {
        proof {
            assert(kv_views(kv.entries@)[i as int] == (kv.entries@[i as int].0@, kv.entries@[
                i as int].1@));
        }
        acc = byte_fold_exec(acc, &kv.entries[i].0);
        acc = byte_fold_exec(acc, &kv.entries[i].1);
        i = i + 1;
    }
    acc
}

/// The root identifier of the trie a mapping builds.
pub fn trie_root(kv: &KvList) -> (r: u64)
    ensures
        r == trie_root_spec(*kv),
{
    let d = kv_digest_exec(kv);
    0x8000000000000000u64 + (d % 0x8000000000000000u64)
}

/// Builds the trie-backed form of a mapping: one leaf per entry, a root
/// directory over them, and a content-derived root identifier.
pub fn build_trie(kv: &KvList) -> (t: TrieState)
    requires
        kv.wf(),
        kv.entries@.len() < 0x8000000000000000,
    ensures
        t.wf(),
        t.root_id == trie_root_spec(*kv),
        forall|k: Seq<u8>| t.value(k) == (if kv@.contains_key(k) {
            Some(kv@[k])
        } else {
            None::<Seq<u8>>
        }),
{
    let mut dir: Vec<(Vec<u8>, u64)> = Vec::new();
    let mut leaves: Vec<(u64, Vec<u8>)> = Vec::new();
    let mut i: usize = 0;
    while i < kv.entries.len()
        invariant
            kv.wf(),
            kv.entries@.len() < 0x8000000000000000,
            i <= kv.entries@.len(),
            dir@.len() == i,
            leaves@.len() == i,
            forall|j: int|
                0 <= j < i ==> (#[trigger] dir@[j]).0@ == kv.entries@[j].0@ && dir@[j].1 == j + 1,
            forall|j: int|
                0 <= j < i ==> (#[trigger] leaves@[j]).0 == j + 1 && leaves@[j].1@
                    == kv.entries@[j].1@,
        decreases kv.entries@.len() - i,
    {
        let k = clone_bytes(&kv.entries[i].0);
        let v = clone_bytes(&kv.entries[i].1);
        dir.push((k, (i + 1) as u64));
        leaves.push(((i + 1) as u64, v));
        i = i + 1;
    }
    let root_id = trie_root(kv);
    let t = TrieState { root_id, root_dir: dir, leaves };
    proof {
        assert forall|k: Seq<u8>|
            t.value(k) == (if kv@.contains_key(k) {
                Some(kv@[k])
            } else {
                None::<Seq<u8>>
            }) by {
            if kv@.contains_key(k) {
                assert(exists|j: int| 0 <= j < kv.entries@.len() && kv.entries@[j].0@ == k) by {
                    if forall|j: int| 0 <= j < kv.entries@.len() ==> kv.entries@[j].0@ != k {
                        lemma_kv_map_absent(kv.entries@, k);
                    }
                }
                let j = choose|j: int| 0 <= j < kv.entries@.len() && kv.entries@[j].0@ == k;
                lemma_kv_map_index(kv.entries@, j);
                lemma_dir_child_index(t.root_dir@, j);
                lemma_leaf_at_index(t.leaves@, j);
            } else {
                assert forall|j: int| 0 <= j < t.root_dir@.len() implies t.root_dir@[j].0@ != k by {
                    if t.root_dir@[j].0@ == k {
                        lemma_kv_map_index(kv.entries@, j);
                    }
                }
                lemma_dir_child_absent(t.root_dir@, k);
            }
        }
    }
    t
}

/// Pointwise correspondence of two child-storage lists: same storage keys,
/// same mappings, entry for entry.
pub open spec fn children_like(a: Seq<(Vec<u8>, KvList)>, b: Seq<(Vec<u8>, KvList)>) -> bool {
    a.len() == b.len() && forall|i: int|
        0 <= i < a.len() ==> (#[trigger] a[i]).0@ == b[i].0@ && a[i].1@ == b[i].1@ && kv_views(
            a[i].1.entries@,
        ) == kv_views(b[i].1.entries@) && a[i].1.wf()
}

/// Copies a child-storage list.
fn dup_children(cs: &Vec<(Vec<u8>, KvList)>) -> (r: Vec<(Vec<u8>, KvList)>)
    requires
        forall|i: int| 0 <= i < cs@.len() ==> (#[trigger] cs@[i]).1.wf(),
    ensures
        children_like(r@, cs@),
{
    let mut r: Vec<(Vec<u8>, KvList)> = Vec::new();
    let mut i: usize = 0;
    while i < cs.len()
        invariant
            i <= cs@.len(),
            r@.len() == i,
            forall|j: int| 0 <= j < cs@.len() ==> (#[trigger] cs@[j]).1.wf(),
            forall|j: int|
                0 <= j < i ==> (#[trigger] r@[j]).0@ == cs@[j].0@ && r@[j].1@ == cs@[j].1@
                    && kv_views(r@[j].1.entries@) == kv_views(cs@[j].1.entries@) && r@[j].1.wf(),
        decreases cs@.len() - i,
    {
        let sk = clone_bytes(&cs[i].0);
        let inner = cs[i].1.duplicate();
        r.push((sk, inner));
        i = i + 1;
    }
    r
}

/// The configuration genesis storage is derived from: the changes-trie flag,
/// the authority set and endowed balances the runtime's own genesis logic
/// consumes, an optional heap-pages override, and extra entries.
pub struct GenesisConfig {
    pub support_changes_trie: bool,
    pub authorities: Vec<u64>,
    pub balances: Vec<(u64, u64)>,
    pub heap_pages_override: Option<u64>,
    pub extra_storage: KvList,
    pub child_extra_storage: Vec<(Vec<u8>, KvList)>,
}

/// The top-level genesis entries a configuration denotes, before child roots
/// and the genesis hash are folded in.
pub open spec fn genesis_map_top(g: GenesisConfig) -> Map<Seq<u8>, Seq<u8>> {
    let base = g.extra_storage@;
    let with_heap = match g.heap_pages_override {
        Some(p) => base.insert(heap_pages_key_spec(), u64_le_bytes(p)),
        None => base,
    };
    if g.support_changes_trie {
        with_heap.insert(changes_trie_key_spec(), seq![1u8])
    } else {
        with_heap
    }
}

/// The top after the first `n` child storage roots are recorded under their
/// storage keys.
pub open spec fn child_roots_top(
    top: Map<Seq<u8>, Seq<u8>>,
    children: Seq<(Vec<u8>, KvList)>,
    n: int,
) -> Map<Seq<u8>, Seq<u8>>
    decreases n,
{
    if n <= 0 {
        top
    } else {
        child_roots_top(top, children, n - 1).insert(
            children[n - 1].0@,
            u64_le_bytes(trie_root_spec(children[n - 1].1)),
        )
    }
}

/// The hash of the genesis block a state root determines.
pub open spec fn genesis_block_hash_spec(state_root: u64) -> u64 {
    byte_fold(1099511628211u64, u64_le_bytes(state_root), 8)
}

/// The top-level genesis entries parameters denote, before child roots and
/// the genesis hash are folded in.
pub open spec fn params_map_top(g: GenesisParameters) -> Map<Seq<u8>, Seq<u8>> {
    let base = g.extra_storage@;
    let with_heap = match g.heap_pages_override {
        Some(p) => base.insert(heap_pages_key_spec(), u64_le_bytes(p)),
        None => base,
    };
    if g.support_changes_trie {
        with_heap.insert(changes_trie_key_spec(), seq![1u8])
    } else {
        with_heap
    }
}

/// The complete top-level genesis storage: the configured entries, each
/// child's trie root under its storage key, and, keyed last, the hash of the
/// genesis block whose state root is `sr`.
pub open spec fn genesis_top_model(
    g: GenesisParameters,
    children: Seq<(Vec<u8>, KvList)>,
    sr: u64,
) -> Map<Seq<u8>, Seq<u8>> {
    child_roots_top(params_map_top(g), children, children.len() as int).insert(
        genesis_hash_key_spec(),
        u64_le_bytes(genesis_block_hash_spec(sr)),
    )
}

/// The genesis top as an entry sequence, before child roots and the genesis
/// hash are folded in.
pub open spec fn params_map_entries(g: GenesisParameters) -> Seq<(Seq<u8>, Seq<u8>)> {
    let base = kv_views(g.extra_storage.entries@);
    let with_heap = match g.heap_pages_override {
        Some(p) => kv_insert_v(base, heap_pages_key_spec(), u64_le_bytes(p)),
        None => base,
    };
    if g.support_changes_trie {
        kv_insert_v(with_heap, changes_trie_key_spec(), seq![1u8])
    } else {
        with_heap
    }
}

/// The entry sequence after the first `n` child storage roots are recorded.
pub open spec fn child_roots_entries(
    vs: Seq<(Seq<u8>, Seq<u8>)>,
    children: Seq<(Vec<u8>, KvList)>,
    n: int,
) -> Seq<(Seq<u8>, Seq<u8>)>
    decreases n,
{
    if n <= 0 {
        vs
    } else {
        kv_insert_v(
            child_roots_entries(vs, children, n - 1),
            children[n - 1].0@,
            u64_le_bytes(trie_root_spec(children[n - 1].1)),
        )
    }
}

/// The genesis state root these parameters determine: the root of the trie
/// built from the assembled top, child roots included.
pub open spec fn genesis_state_root(g: GenesisParameters) -> u64 {
    root_of_views(
        child_roots_entries(
            params_map_entries(g),
            g.child_extra_storage@,
            g.child_extra_storage@.len() as int,
        ),
    )
}

/// The complete genesis top as an entry sequence, genesis hash included.
pub open spec fn genesis_storage_entries(g: GenesisParameters) -> Seq<(Seq<u8>, Seq<u8>)> {
    kv_insert_v(
        child_roots_entries(
            params_map_entries(g),
            g.child_extra_storage@,
            g.child_extra_storage@.len() as int,
        ),
        genesis_hash_key_spec(),
        u64_le_bytes(genesis_block_hash_spec(genesis_state_root(g))),
    )
}

/// The complete genesis top as a map, everything pinned by the parameters.
pub open spec fn genesis_state_map(g: GenesisParameters) -> Map<Seq<u8>, Seq<u8>> {
    genesis_top_model(g, g.child_extra_storage@, genesis_state_root(g))
}

/// Recording child roots depends only on the children's storage keys and
/// entry contents.
pub proof fn lemma_child_roots_top_congruent(
    top: Map<Seq<u8>, Seq<u8>>,
    a: Seq<(Vec<u8>, KvList)>,
    b: Seq<(Vec<u8>, KvList)>,
    n: int,
)
    requires
        children_like(a, b),
        n <= a.len(),
    ensures
        child_roots_top(top, a, n) == child_roots_top(top, b, n),
    decreases n,
{
    if n > 0 {
        lemma_child_roots_top_congruent(top, a, b, n - 1);
    }
}

/// The same, for the entry-sequence form.
pub proof fn lemma_child_roots_entries_congruent(
    vs: Seq<(Seq<u8>, Seq<u8>)>,
    a: Seq<(Vec<u8>, KvList)>,
    b: Seq<(Vec<u8>, KvList)>,
    n: int,
)
    requires
        children_like(a, b),
        n <= a.len(),
    ensures
        child_roots_entries(vs, a, n) == child_roots_entries(vs, b, n),
    decreases n,
{
    if n > 0 {
        lemma_child_roots_entries_congruent(vs, a, b, n - 1);
    }
}

impl GenesisConfig {
    pub open spec fn wf(&self) -> bool {
        &&& self.extra_storage.wf()
        &&& forall|i: int|
            0 <= i < self.child_extra_storage@.len() ==> (#[trigger] self.child_extra_storage@[i]).1.wf()
    }

    /// Assembles a configuration.
    pub fn new(
        support_changes_trie: bool,
        authorities: Vec<u64>,
        endowed_accounts: Vec<u64>,
        balance: u64,
        heap_pages_override: Option<u64>,
        extra_storage: KvList,
        child_extra_storage: Vec<(Vec<u8>, KvList)>,
    ) -> (r: GenesisConfig)
        ensures
            r.support_changes_trie == support_changes_trie,
            r.authorities@ == authorities@,
            r.balances@.len() == endowed_accounts@.len(),
            forall|i: int|
                0 <= i < endowed_accounts@.len() ==> r.balances@[i] == (endowed_accounts@[i],
                balance),
            r.heap_pages_override == heap_pages_override,
            r.extra_storage == extra_storage,
            r.child_extra_storage == child_extra_storage,
    {
        let mut balances: Vec<(u64, u64)> = Vec::new();
        let mut i: usize = 0;
        while i < endowed_accounts.len()
            invariant
                i <= endowed_accounts@.len(),
                balances@.len() == i,
                forall|j: int|
                    0 <= j < i ==> balances@[j] == (endowed_accounts@[j], balance),
            decreases endowed_accounts@.len() - i,
        {
            balances.push((endowed_accounts[i], balance));
            i = i + 1;
        }
        GenesisConfig {
            support_changes_trie,
            authorities,
            balances,
            heap_pages_override,
            extra_storage,
            child_extra_storage,
        }
    }

    /// The genesis top this configuration denotes, as an entry sequence.
    pub open spec fn map_entries(&self) -> Seq<(Seq<u8>, Seq<u8>)> {
        let base = kv_views(self.extra_storage.entries@);
        let with_heap = match self.heap_pages_override {
            Some(p) => kv_insert_v(base, heap_pages_key_spec(), u64_le_bytes(p)),
            None => base,
        };
        if self.support_changes_trie {
            kv_insert_v(with_heap, changes_trie_key_spec(), seq![1u8])
        } else {
            with_heap
        }
    }

    /// The raw top-level entries and child entries this configuration
    /// denotes, before roots are folded in.
    pub fn genesis_map(&self) -> (r: (KvList, Vec<(Vec<u8>, KvList)>))
        requires
            self.wf(),
        ensures
            r.0.wf(),
            r.0@ == genesis_map_top(*self),
            kv_views(r.0.entries@) == self.map_entries(),
            r.0.entries@.len() <= self.extra_storage.entries@.len() + 2,
            children_like(r.1@, self.child_extra_storage@),
    {
        let mut top = self.extra_storage.duplicate();
        match &self.heap_pages_override {
            Some(p) => {
                top.insert(heap_pages_key(), encode_u64(*p));
            },
            None => {},
        }
        if self.support_changes_trie {
            let mut flag: Vec<u8> = Vec::new();
            flag.push(1);
            assert(flag@ =~= seq![1u8]);
            top.insert(changes_trie_key(), flag);
        }
        let children = dup_children(&self.child_extra_storage);
        (top, children)
    }
}

/// Parameters of the test-client builder: what genesis storage to start the
/// chain from.
pub struct GenesisParameters {
    pub support_changes_trie: bool,
    pub heap_pages_override: Option<u64>,
    pub extra_storage: KvList,
    pub child_extra_storage: Vec<(Vec<u8>, KvList)>,
}

impl GenesisParameters {
    pub open spec fn wf(&self) -> bool {
        &&& self.extra_storage.wf()
        &&& forall|i: int|
            0 <= i < self.child_extra_storage@.len() ==> (#[trigger] self.child_extra_storage@[i]).1.wf()
    }

    /// No overrides, no extra storage.
    pub fn default_params() -> (r: GenesisParameters)
        ensures
            r.wf(),
            !r.support_changes_trie,
            r.heap_pages_override is None,
            r.extra_storage@ == Map::<Seq<u8>, Seq<u8>>::empty(),
            r.extra_storage.entries@.len() == 0,
            r.child_extra_storage@.len() == 0,
    {
        GenesisParameters {
            support_changes_trie: false,
            heap_pages_override: None,
            extra_storage: KvList::new(),
            child_extra_storage: Vec::new(),
        }
    }

    /// The genesis configuration these parameters denote: the well-known
    /// authority and endowment fixture over the parameters themselves.
    pub fn genesis_config(&self) -> (r: GenesisConfig)
        requires
            self.wf(),
        ensures
            r.wf(),
            r.support_changes_trie == self.support_changes_trie,
            r.authorities@ == seq![1u64, 2u64, 3u64],
            r.balances@ == seq![(1u64, 1000u64), (2u64, 1000u64), (3u64, 1000u64)],
            r.heap_pages_override == self.heap_pages_override,
            r.extra_storage@ == self.extra_storage@,
            kv_views(r.extra_storage.entries@) == kv_views(self.extra_storage.entries@),
            r.extra_storage.entries@.len() == self.extra_storage.entries@.len(),
            children_like(r.child_extra_storage@, self.child_extra_storage@),
    {
        let mut authorities: Vec<u64> = Vec::new();
        authorities.push(1);
        authorities.push(2);
        authorities.push(3);
        let mut endowed: Vec<u64> = Vec::new();
        endowed.push(1);
        endowed.push(2);
        endowed.push(3);
        assert(authorities@ =~= seq![1u64, 2u64, 3u64]);
        assert(endowed@ =~= seq![1u64, 2u64, 3u64]);
        let r = GenesisConfig::new(
            self.support_changes_trie,
            authorities,
            endowed,
            1000,
            match &self.heap_pages_override {
                Some(p) => Some(*p),
                None => None,
            },
            self.extra_storage.duplicate(),
            dup_children(&self.child_extra_storage),
        );
        proof {
            assert(r.balances@ =~= seq![(1u64, 1000u64), (2u64, 1000u64), (3u64, 1000u64)]);
        }
        r
    }

    /// The genesis storage these parameters denote: the configured entries,
    /// each child storage's trie root recorded in the top under its storage
    /// key, and the genesis block's hash, derived from the top's own state
    /// root, recorded last.
    pub fn genesis_storage(&self) -> (r: (KvList, Vec<(Vec<u8>, KvList)>))
        requires
            self.wf(),
        ensures
            r.0.wf(),
            r.0.entries@.len() <= self.extra_storage.entries@.len()
                + self.child_extra_storage@.len() + 3,
            children_like(r.1@, self.child_extra_storage@),
            r.0@ == genesis_state_map(*self),
            kv_views(r.0.entries@) == genesis_storage_entries(*self),
    {
        let cfg = self.genesis_config();
        let (mut top, children) = cfg.genesis_map();
        proof {
            assert(children_like(children@, self.child_extra_storage@));
            assert(cfg.map_entries() == params_map_entries(*self));
        }
        let mut i: usize = 0;
        while i < children.len()
            invariant
                top.wf(),
                i <= children@.len(),
                forall|j: int| 0 <= j < children@.len() ==> (#[trigger] children@[j]).1.wf(),
                top@ == child_roots_top(genesis_map_top(cfg), children@, i as int),
                kv_views(top.entries@) == child_roots_entries(
                    params_map_entries(*self),
                    children@,
                    i as int,
                ),
                top.entries@.len() <= self.extra_storage.entries@.len() + 2 + i,
            decreases children@.len() - i,
        {
            let root = trie_root(&children[i].1);
            let sk = clone_bytes(&children[i].0);
            top.insert(sk, encode_u64(root));
            i = i + 1;
        }
        let state_root = trie_root(&top);
        let block_hash = byte_fold_exec(1099511628211, &encode_u64(state_root));
        proof {
            lemma_child_roots_entries_congruent(
                params_map_entries(*self),
                children@,
                self.child_extra_storage@,
                children@.len() as int,
            );
            assert(state_root == genesis_state_root(*self));
            assert(block_hash == genesis_block_hash_spec(genesis_state_root(*self)));
        }
        top.insert(genesis_hash_key(), encode_u64(block_hash));
        proof {
            lemma_child_roots_top_congruent(
                params_map_top(*self),
                children@,
                self.child_extra_storage@,
                children@.len() as int,
            );
            assert(genesis_map_top(cfg) == params_map_top(*self));
            assert(top@ == genesis_state_map(*self));
            assert(kv_views(top.entries@) == genesis_storage_entries(*self));
        }
        (top, children)
    }
}

/// The method names the default test runtime exposes, as byte sequences:
/// "echo", "get", "set", "read_twice", "header", "ext", "trap".
pub open spec fn default_table() -> Seq<(Seq<u8>, MethodKind)> {
    seq![
        (seq![101u8, 99u8, 104u8, 111u8], MethodKind::Echo),
        (seq![103u8, 101u8, 116u8], MethodKind::GetStorage),
        (seq![115u8, 101u8, 116u8], MethodKind::SetStorage),
        (
            seq![114u8, 101u8, 97u8, 100u8, 95u8, 116u8, 119u8, 105u8, 99u8, 101u8],
            MethodKind::ReadTwice,
        ),
        (seq![104u8, 101u8, 97u8, 100u8, 101u8, 114u8], MethodKind::CurrentHeader),
        (seq![101u8, 120u8, 116u8], MethodKind::ReadExtension),
        (seq![116u8, 114u8, 97u8, 112u8], MethodKind::Trap),
    ]
}

/// The spec name the default test runtime advertises: "test".
pub open spec fn default_spec_name() -> Seq<u8> {
    seq![116u8, 101u8, 115u8, 116u8]
}

/// The method table of the default test runtime.
pub fn default_methods() -> (r: Vec<(Vec<u8>, MethodKind)>)
    ensures
        table_views(r@) == default_table(),
{
    let mut r: Vec<(Vec<u8>, MethodKind)> = Vec::new();
    let mut n: Vec<u8> = Vec::new();
    n.push(101);
    n.push(99);
    n.push(104);
    n.push(111);
    assert(n@ =~= seq![101u8, 99u8, 104u8, 111u8]);
    r.push((n, MethodKind::Echo));
    let mut n: Vec<u8> = Vec::new();
    n.push(103);
    n.push(101);
    n.push(116);
    assert(n@ =~= seq![103u8, 101u8, 116u8]);
    r.push((n, MethodKind::GetStorage));
    let mut n: Vec<u8> = Vec::new();
    n.push(115);
    n.push(101);
    n.push(116);
    assert(n@ =~= seq![115u8, 101u8, 116u8]);
    r.push((n, MethodKind::SetStorage));
    let mut n: Vec<u8> = Vec::new();
    n.push(114);
    n.push(101);
    n.push(97);
    n.push(100);
    n.push(95);
    n.push(116);
    n.push(119);
    n.push(105);
    n.push(99);
    n.push(101);
    assert(n@ =~= seq![114u8, 101u8, 97u8, 100u8, 95u8, 116u8, 119u8, 105u8, 99u8, 101u8]);
    r.push((n, MethodKind::ReadTwice));
    let mut n: Vec<u8> = Vec::new();
    n.push(104);
    n.push(101);
    n.push(97);
    n.push(100);
    n.push(101);
    n.push(114);
    assert(n@ =~= seq![104u8, 101u8, 97u8, 100u8, 101u8, 114u8]);
    r.push((n, MethodKind::CurrentHeader));
    let mut n: Vec<u8> = Vec::new();
    n.push(101);
    n.push(120);
    n.push(116);
    assert(n@ =~= seq![101u8, 120u8, 116u8]);
    r.push((n, MethodKind::ReadExtension));
    let mut n: Vec<u8> = Vec::new();
    n.push(116);
    n.push(114);
    n.push(97);
    n.push(112);
    assert(n@ =~= seq![116u8, 114u8, 97u8, 112u8]);
    r.push((n, MethodKind::Trap));
    proof {
        assert(table_views(r@) =~= default_table());
    }
    r
}

/// The version descriptor of the default test runtime.
pub fn default_runtime_version() -> (r: RuntimeVersion)
    ensures
        r.spec_name@ == default_spec_name(),
        r.spec_version == 1,
        r.impl_version == 1,
{
    let mut name: Vec<u8> = Vec::new();
    name.push(116);
    name.push(101);
    name.push(115);
    name.push(116);
    assert(name@ =~= default_spec_name());
    RuntimeVersion { spec_name: name, spec_version: 1, impl_version: 1, apis: Vec::new() }
}

/// Builds a test client: a call executor over a backend holding the genesis
/// state, derived from configurable genesis parameters, as a trie-backed
/// view at block zero.
pub struct TestClientBuilder {
    pub genesis_init: GenesisParameters,
    pub native: Option<RuntimeImpl>,
    pub interpreted: RuntimeImpl,
}

impl TestClientBuilder {
    pub open spec fn wf(&self) -> bool {
        self.genesis_init.wf()
    }

    /// A builder with default genesis parameters: no changes-trie support,
    /// no heap-pages override, empty extra and child storage, the default
    /// test runtime as the interpreted implementation, and a
    /// version-compatible native implementation of it linked in.
    pub fn new() -> (r: TestClientBuilder)
        ensures
            r.wf(),
            !r.genesis_init.support_changes_trie,
            r.genesis_init.heap_pages_override is None,
            r.genesis_init.extra_storage@ == Map::<Seq<u8>, Seq<u8>>::empty(),
            r.genesis_init.extra_storage.entries@.len() == 0,
            r.genesis_init.child_extra_storage@.len() == 0,
            table_views(r.interpreted.methods@) == default_table(),
            r.interpreted.version.spec_name@ == default_spec_name(),
            r.interpreted.version.spec_version == 1,
            r.native matches Some(n) && version_compatible(n.version, r.interpreted.version)
                && table_views(n.methods@) == default_table(),
    {
        TestClientBuilder {
            genesis_init: GenesisParameters::default_params(),
            native: Some(
                RuntimeImpl { version: default_runtime_version(), methods: default_methods() },
            ),
            interpreted: RuntimeImpl {
                version: default_runtime_version(),
                methods: default_methods(),
            },
        }
    }

    /// A mutable view of the genesis parameters.
    pub fn genesis_init_mut(&mut self) -> (r: &mut GenesisParameters)
        ensures
            *r == old(self).genesis_init,
            final(self).genesis_init == *final(r),
            final(self).native == old(self).native,
            final(self).interpreted == old(self).interpreted,
    {
        &mut self.genesis_init
    }

    /// Enables or disables changes-trie support in genesis.
    pub fn set_support_changes_trie(self, support_changes_trie: bool) -> (r: TestClientBuilder)
        ensures
            r.genesis_init.support_changes_trie == support_changes_trie,
            r.genesis_init.heap_pages_override == self.genesis_init.heap_pages_override,
            r.genesis_init.extra_storage == self.genesis_init.extra_storage,
            r.genesis_init.child_extra_storage == self.genesis_init.child_extra_storage,
            r.native == self.native,
            r.interpreted == self.interpreted,
    {
        let mut this = self;
        this.genesis_init.support_changes_trie = support_changes_trie;
        this
    }

    /// Overrides the default heap-pages value.
    pub fn set_heap_pages(self, heap_pages: u64) -> (r: TestClientBuilder)
        ensures
            r.genesis_init.heap_pages_override == Some(heap_pages),
            r.genesis_init.support_changes_trie == self.genesis_init.support_changes_trie,
            r.genesis_init.extra_storage == self.genesis_init.extra_storage,
            r.genesis_init.child_extra_storage == self.genesis_init.child_extra_storage,
            r.native == self.native,
            r.interpreted == self.interpreted,
    {
        let mut this = self;
        this.genesis_init.heap_pages_override = Some(heap_pages);
        this
    }

    /// Adds an extra value into the genesis storage. The key must not be
    /// empty.
    pub fn add_extra_storage(self, key: Vec<u8>, value: Vec<u8>) -> (r: TestClientBuilder)
        requires
            self.wf(),
            key@.len() > 0,
        ensures
            r.wf(),
            r.genesis_init.extra_storage@ == self.genesis_init.extra_storage@.insert(key@, value@),
            r.genesis_init.extra_storage.entries@.len() <= self.genesis_init.extra_storage.entries@.len() + 1,
            r.genesis_init.support_changes_trie == self.genesis_init.support_changes_trie,
            r.genesis_init.heap_pages_override == self.genesis_init.heap_pages_override,
            r.genesis_init.child_extra_storage == self.genesis_init.child_extra_storage,
            r.native == self.native,
            r.interpreted == self.interpreted,
    {
        let mut this = self;
        this.genesis_init.extra_storage.insert(key, value);
        this
    }

    /// Adds an extra value into one child storage of genesis. Neither the
    /// storage key nor the key may be empty.
    pub fn add_extra_child_storage(
        self,
        storage_key: Vec<u8>,
        key: Vec<u8>,
        value: Vec<u8>,
    ) -> (r: TestClientBuilder)
        requires
            self.wf(),
            storage_key@.len() > 0,
            key@.len() > 0,
        ensures
            r.wf(),
            child_map(r.genesis_init.child_extra_storage@, storage_key@) == Some(
                match child_map(self.genesis_init.child_extra_storage@, storage_key@) {
                    Some(m) => m.insert(key@, value@),
                    None => Map::<Seq<u8>, Seq<u8>>::empty().insert(key@, value@),
                },
            ),
            forall|sk: Seq<u8>|
                sk != storage_key@ ==> child_map(r.genesis_init.child_extra_storage@, sk)
                    == child_map(self.genesis_init.child_extra_storage@, sk),
            r.genesis_init.extra_storage == self.genesis_init.extra_storage,
            r.genesis_init.support_changes_trie == self.genesis_init.support_changes_trie,
            r.genesis_init.heap_pages_override == self.genesis_init.heap_pages_override,
            r.native == self.native,
            r.interpreted == self.interpreted,
    {
        let mut this = self;
        let mut i: usize = 0;
        while i < this.genesis_init.child_extra_storage.len()
            invariant
                self.wf(),
                this == self,
                i <= this.genesis_init.child_extra_storage@.len(),
                forall|j: int|
                    0 <= j < i ==> (#[trigger] this.genesis_init.child_extra_storage@[j]).0@
                        != storage_key@,
            decreases this.genesis_init.child_extra_storage@.len() - i,
        {
            if crate::kv::bytes_eq(&this.genesis_init.child_extra_storage[i].0, &storage_key) {
                let ghost pre = this.genesis_init.child_extra_storage@;
                let (sk_owned, mut inner) = this.genesis_init.child_extra_storage.remove(i);
                inner.insert(key, value);
                this.genesis_init.child_extra_storage.insert(i, (sk_owned, inner));
                proof {
                    let post = this.genesis_init.child_extra_storage@;
                    assert(post =~= pre.update(i as int, post[i as int]));
                    lemma_child_map_update(pre, i as int, post);
                    lemma_child_map_index(pre, i as int);
                    lemma_child_map_index(post, i as int);
                }
                return this;
            }
            i = i + 1;
        }
        let ghost pre = this.genesis_init.child_extra_storage@;
        let mut inner = KvList::new();
        inner.insert(key, value);
        this.genesis_init.child_extra_storage.push((storage_key, inner));
        proof {
            let post = this.genesis_init.child_extra_storage@;
            lemma_child_map_absent(pre, post[pre.len() as int].0@);
            assert(post =~= pre.push(post[pre.len() as int]));
            lemma_child_map_push(pre, post[pre.len() as int]);
        }
        this
    }

    /// Sets the implementations the built client executes with: an optional
    /// native one and the interpreted, on-chain one.
    pub fn with_executor(
        self,
        native: Option<RuntimeImpl>,
        interpreted: RuntimeImpl,
    ) -> (r: TestClientBuilder)
        ensures
            r.genesis_init == self.genesis_init,
            r.native == native,
            r.interpreted == interpreted,
    {
        TestClientBuilder { genesis_init: self.genesis_init, native, interpreted }
    }

    /// Builds the test client: genesis storage is assembled, its top placed
    /// in a trie-backed view, and the executor wired to a backend whose one
    /// block carries that view and declares the interpreted implementation's
    /// version.
    pub fn build(self) -> (r: LocalCallExecutor)
        requires
            self.wf(),
            self.genesis_init.extra_storage.entries@.len()
                + self.genesis_init.child_extra_storage@.len() + 3 < 0x8000000000000000,
        ensures
            r.wf(),
            r.native == self.native,
            r.interpreted == self.interpreted,
            r.backend.blocks@.len() == 1,
            r.backend.blocks@[0].number == 0,
            r.backend.blocks@[0].state.trie_spec() is Some,
            r.backend.blocks@[0].declared_version.spec_name@ == self.interpreted.version.spec_name@,
            r.backend.blocks@[0].declared_version.spec_version == self.interpreted.version.spec_version,
            forall|k: Seq<u8>|
                r.backend.blocks@[0].state.value(k) == (if genesis_state_map(
                    self.genesis_init,
                ).contains_key(k) {
                    Some(genesis_state_map(self.genesis_init)[k])
                } else {
                    None::<Seq<u8>>
                }),
    {
        let (top, _children) = self.genesis_init.genesis_storage();
        let state_root = trie_root(&top);
        let block_hash = byte_fold_exec(1099511628211, &encode_u64(state_root));
        let trie = build_trie(&top);
        let declared_version = self.interpreted.version.duplicate();
        let mut blocks: Vec<BlockEntry> = Vec::new();
        blocks.push(
            BlockEntry {
                hash: block_hash,
                number: 0,
                declared_version,
                state: StateView::TrieBacked(trie),
            },
        );
        let r = LocalCallExecutor {
            native: self.native,
            interpreted: self.interpreted,
            backend: Backend { blocks },
        };
        r
    }
}

/// Creates a new client instance used for tests: the default test runtime as
/// both the interpreted implementation and a version-compatible native one,
/// over a backend holding the default genesis state at block zero.
pub fn new() -> (r: LocalCallExecutor)
    ensures
        r.wf(),
        r.backend.blocks@.len() == 1,
        r.backend.blocks@[0].number == 0,
        r.backend.blocks@[0].state.trie_spec() is Some,
        r.backend.blocks@[0].declared_version.spec_name@ == default_spec_name(),
        r.backend.blocks@[0].declared_version.spec_version == 1,
        table_views(r.interpreted.methods@) == default_table(),
        r.native matches Some(n) && version_compatible(
            n.version,
            r.backend.blocks@[0].declared_version,
        ) && table_views(n.methods@) == default_table(),
        forall|k: Seq<u8>|
            r.backend.blocks@[0].state.value(k) == (if k == genesis_hash_key_spec() {
                Some(
                    u64_le_bytes(
                        genesis_block_hash_spec(root_of_views(Seq::<(Seq<u8>, Seq<u8>)>::empty())),
                    ),
                )
            } else {
                None::<Seq<u8>>
            }),
{
    let builder = TestClientBuilder::new();
    let ghost g = builder.genesis_init;
    let r = builder.build();
    proof {
        assert(kv_views(g.extra_storage.entries@) =~= Seq::<(Seq<u8>, Seq<u8>)>::empty());
        assert(params_map_entries(g) == Seq::<(Seq<u8>, Seq<u8>)>::empty());
        assert(params_map_top(g) =~= Map::<Seq<u8>, Seq<u8>>::empty());
        assert(genesis_state_map(g) =~= Map::<Seq<u8>, Seq<u8>>::empty().insert(
            genesis_hash_key_spec(),
            u64_le_bytes(
                genesis_block_hash_spec(root_of_views(Seq::<(Seq<u8>, Seq<u8>)>::empty())),
            ),
        ));
    }
    r
}

} // verus!
