//! Proof generation over trie-backed state: replayability, idempotent node
//! recording, and the non-trie failure mode; plus overlay, cache, and
//! genesis-construction behavior.

use call_executor::client::{TestClientBuilder, new, trie_root};
use call_executor::errors::Error;
use call_executor::executor::{Backend, BlockEntry, BlockId, CallExecutor, LocalCallExecutor};
use call_executor::kv::KvList;
use call_executor::overlay::{Overlay, TransactionCache};
use call_executor::runtime::{MethodKind, RuntimeImpl, StateView};
use call_executor::strategy::ExecutionStrategy;
use call_executor::trie::{StorageProof, TrieState, replay_read, trie_read};
use call_executor::version::RuntimeVersion;

fn version() -> RuntimeVersion {
    RuntimeVersion { spec_name: b"test".to_vec(), spec_version: 1, impl_version: 1, apis: vec![] }
}

fn standard_methods() -> Vec<(Vec<u8>, MethodKind)> {
    vec![
        (b"get".to_vec(), MethodKind::GetStorage),
        (b"read_twice".to_vec(), MethodKind::ReadTwice),
        (b"set".to_vec(), MethodKind::SetStorage),
    ]
}

fn small_trie() -> TrieState {
    TrieState {
        root_id: 1000,
        root_dir: vec![(b"alpha".to_vec(), 1), (b"beta".to_vec(), 2)],
        leaves: vec![(1, b"one".to_vec()), (2, b"two".to_vec())],
    }
}

fn trie_executor() -> LocalCallExecutor {
    let interpreted = RuntimeImpl { version: version(), methods: standard_methods() };
    LocalCallExecutor {
        native: None,
        interpreted,
        backend: Backend {
            blocks: vec![BlockEntry {
                hash: 7,
                number: 0,
                declared_version: version(),
                state: StateView::TrieBacked(small_trie()),
            }],
        },
    }
}

#[test]
fn prove_at_state_requires_a_trie() {
    let interpreted = RuntimeImpl { version: version(), methods: standard_methods() };
    let ex = LocalCallExecutor {
        native: None,
        interpreted,
        backend: Backend { blocks: vec![] },
    };
    let plain = StateView::Plain(KvList { entries: vec![(b"alpha".to_vec(), b"one".to_vec())] });
    let mut overlay = Overlay::new();
    let r = ex.prove_at_state(&plain, &mut overlay, &b"get".to_vec(), &b"alpha".to_vec());
    assert!(matches!(r, Err(Error::UnableToGenerateProof)));
}

#[test]
fn proof_replays_the_read() {
    let ex = trie_executor();
    let state = StateView::TrieBacked(small_trie());
    let mut overlay = Overlay::new();
    let (result, proof) = ex
        .prove_at_state(&state, &mut overlay, &b"get".to_vec(), &b"alpha".to_vec())
        .unwrap();
    let mut expected = vec![1u8];
    expected.extend_from_slice(b"one");
    assert_eq!(result, expected);
    // A verifier holding only the proof and the root re-answers the read.
    assert_eq!(replay_read(&proof, 1000, &b"alpha".to_vec()), Some(b"one".to_vec()));
    // A key the call never read cannot be answered from this proof.
    assert_eq!(replay_read(&proof, 1000, &b"beta".to_vec()), None);
    // A wrong root claim answers nothing.
    assert_eq!(replay_read(&proof, 1001, &b"alpha".to_vec()), None);
}

#[test]
fn replaying_the_call_against_the_proof_reproduces_the_result() {
    let ex = trie_executor();
    let state = StateView::TrieBacked(small_trie());
    let mut overlay = Overlay::new();
    let (result, proof) = ex
        .prove_at_state(&state, &mut overlay, &b"get".to_vec(), &b"alpha".to_vec())
        .unwrap();
    // A verifier reconstructs a state view from the proof nodes and the
    // claimed root alone, and re-executes the same call against it.
    let (root_id, root_dir) = proof.root_node.unwrap();
    let replay_state = StateView::TrieBacked(TrieState {
        root_id,
        root_dir,
        leaves: proof.leaf_nodes,
    });
    let interpreted = RuntimeImpl { version: version(), methods: standard_methods() };
    let verifier = LocalCallExecutor {
        native: None,
        interpreted,
        backend: Backend {
            blocks: vec![BlockEntry {
                hash: 7,
                number: 0,
                declared_version: version(),
                state: replay_state,
            }],
        },
    };
    let replayed = verifier
        .call(
            &BlockId::Hash(7),
            &b"get".to_vec(),
            &b"alpha".to_vec(),
            ExecutionStrategy::InterpretedOnly,
            None,
        )
        .unwrap();
    assert_eq!(replayed, result);
}

#[test]
fn double_read_contributes_each_node_once() {
    let ex = trie_executor();
    let state = StateView::TrieBacked(small_trie());
    let mut overlay = Overlay::new();
    let (result, proof) = ex
        .prove_at_state(&state, &mut overlay, &b"read_twice".to_vec(), &b"alpha".to_vec())
        .unwrap();
    // Both reads answered with the same tagged value.
    let mut once = vec![1u8];
    once.extend_from_slice(b"one");
    let mut twice = once.clone();
    twice.extend_from_slice(&once);
    assert_eq!(result, twice);
    // The root and one leaf were each visited twice but recorded once.
    assert_eq!(proof.node_count(), 2);
}

#[test]
fn trie_and_plain_reads_agree() {
    let t = small_trie();
    assert_eq!(trie_read(&t, &b"alpha".to_vec()), Some(b"one".to_vec()));
    assert_eq!(trie_read(&t, &b"beta".to_vec()), Some(b"two".to_vec()));
    assert_eq!(trie_read(&t, &b"gamma".to_vec()), None);
    let empty = StorageProof::empty();
    assert_eq!(empty.node_count(), 0);
}

#[test]
fn overlay_shadows_state_and_tracks_children() {
    let mut overlay = Overlay::new();
    overlay.set_storage(b"k".to_vec(), b"pending".to_vec());
    assert_eq!(overlay.storage(&b"k".to_vec()), Some(b"pending".to_vec()));
    assert_eq!(overlay.storage(&b"other".to_vec()), None);
    overlay.set_child_storage(b"child-a".to_vec(), b"x".to_vec(), b"1".to_vec());
    overlay.set_child_storage(b"child-a".to_vec(), b"y".to_vec(), b"2".to_vec());
    overlay.set_child_storage(b"child-b".to_vec(), b"x".to_vec(), b"3".to_vec());
    assert_eq!(overlay.child_storage(&b"child-a".to_vec(), &b"x".to_vec()), Some(b"1".to_vec()));
    assert_eq!(overlay.child_storage(&b"child-a".to_vec(), &b"y".to_vec()), Some(b"2".to_vec()));
    assert_eq!(overlay.child_storage(&b"child-b".to_vec(), &b"x".to_vec()), Some(b"3".to_vec()));
    assert_eq!(overlay.child_storage(&b"child-b".to_vec(), &b"y".to_vec()), None);
    // A pending read through the executor prefers the overlay over state.
    let ex = trie_executor();
    let mut cache = TransactionCache::new();
    let (r, _rec) = ex.contextual_call(
        &BlockId::Number(0),
        &b"get".to_vec(),
        &b"k".to_vec(),
        &mut overlay,
        &mut cache,
        &call_executor::executor::InitializeBlock::DoNotInitialize,
        ExecutionStrategy::InterpretedOnly,
        None,
        None,
        None,
    );
    let mut expected = vec![1u8];
    expected.extend_from_slice(b"pending");
    assert_eq!(r.unwrap(), expected);
}

#[test]
fn transaction_cache_memoizes_and_invalidates() {
    let mut overlay = Overlay::new();
    overlay.set_storage(b"a".to_vec(), b"1".to_vec());
    let mut cache = TransactionCache::new();
    let first = cache.storage_transaction(&overlay);
    assert_eq!(first, vec![(b"a".to_vec(), b"1".to_vec())]);
    let second = cache.storage_transaction(&overlay);
    assert_eq!(first, second);
    cache.invalidate();
    overlay.set_storage(b"b".to_vec(), b"2".to_vec());
    let third = cache.storage_transaction(&overlay);
    assert_eq!(third.len(), 2);
}

#[test]
fn genesis_client_serves_configured_storage() {
    let builder = TestClientBuilder::new()
        .set_heap_pages(5)
        .add_extra_storage(b"spice".to_vec(), b"flows".to_vec());
    let interpreted = RuntimeImpl { version: version(), methods: standard_methods() };
    let ex = builder.with_executor(None, interpreted).build();
    let id = BlockId::Number(0);
    // The extra entry is present in genesis state.
    let r = ex
        .call(&id, &b"get".to_vec(), &b"spice".to_vec(), ExecutionStrategy::InterpretedOnly, None)
        .unwrap();
    let mut expected = vec![1u8];
    expected.extend_from_slice(b"flows");
    assert_eq!(r, expected);
    // The heap-pages override is SCALE-encoded little-endian under its
    // reserved key; an identity encoding would fail this.
    let hk = call_executor::client::heap_pages_key();
    let r2 = ex.call(&id, &b"get".to_vec(), &hk, ExecutionStrategy::InterpretedOnly, None).unwrap();
    assert_eq!(r2, vec![1u8, 5, 0, 0, 0, 0, 0, 0, 0]);
}

#[test]
fn genesis_child_roots_are_recorded() {
    let builder = TestClientBuilder::new().add_extra_child_storage(
        b"child".to_vec(),
        b"k".to_vec(),
        b"v".to_vec(),
    );
    let interpreted = RuntimeImpl { version: version(), methods: standard_methods() };
    let ex = builder.with_executor(None, interpreted).build();
    // The child's trie root, SCALE-encoded, stands in top storage under the
    // child's storage key.
    let expected_root = trie_root(&KvList { entries: vec![(b"k".to_vec(), b"v".to_vec())] });
    let r = ex
        .call(
            &BlockId::Number(0),
            &b"get".to_vec(),
            &b"child".to_vec(),
            ExecutionStrategy::InterpretedOnly,
            None,
        )
        .unwrap();
    let mut expected = vec![1u8];
    expected.extend_from_slice(&expected_root.to_le_bytes());
    assert_eq!(r, expected);
}

#[test]
fn genesis_storage_is_deterministic() {
    // Two builds over equal parameters serve byte-identical genesis state,
    // the genesis-hash entry included.
    let make = || {
        TestClientBuilder::new()
            .set_heap_pages(7)
            .add_extra_storage(b"k".to_vec(), b"v".to_vec())
            .add_extra_child_storage(b"c".to_vec(), b"x".to_vec(), b"y".to_vec())
            .build()
    };
    let ex1 = make();
    let ex2 = make();
    let ghash = call_executor::client::genesis_hash_key();
    let r1 = ex1
        .call(&BlockId::Number(0), &b"get".to_vec(), &ghash, ExecutionStrategy::InterpretedOnly, None)
        .unwrap();
    let r2 = ex2
        .call(&BlockId::Number(0), &b"get".to_vec(), &ghash, ExecutionStrategy::InterpretedOnly, None)
        .unwrap();
    assert_eq!(r1, r2);
    assert_eq!(r1[0], 1u8);
    assert_eq!(r1.len(), 9);
}

#[test]
fn default_client_links_a_native_implementation() {
    let ex = new();
    // The default client carries a version-compatible native implementation
    // of the default test runtime, so NativeOnly calls work.
    let native_version = ex.native_runtime_version().expect("native linked");
    assert_eq!(native_version.spec_name, b"test".to_vec());
    let id = BlockId::Number(0);
    let args = b"ping".to_vec();
    let a = ex
        .call(&id, &b"echo".to_vec(), &args, ExecutionStrategy::NativeOnly, None)
        .unwrap();
    let b = ex
        .call(&id, &b"echo".to_vec(), &args, ExecutionStrategy::InterpretedOnly, None)
        .unwrap();
    let c = ex
        .call(
            &id,
            &b"echo".to_vec(),
            &args,
            ExecutionStrategy::Both(call_executor::strategy::ReconcilePolicy::RequireAgreement),
            None,
        )
        .unwrap();
    assert_eq!(a, b"ping".to_vec());
    assert_eq!(a, b);
    assert_eq!(b, c);
    // A method outside the default table is not found.
    let r = ex.call(
        &BlockId::Number(0),
        &b"anything".to_vec(),
        &vec![],
        ExecutionStrategy::InterpretedOnly,
        None,
    );
    assert!(matches!(r, Err(Error::MethodNotFound)));
}
