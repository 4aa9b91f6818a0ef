//! End-to-end behavior of the call executor: strategy selection,
//! reconciliation, version gating, fault containment, and the error taxonomy.

use call_executor::errors::Error;
use call_executor::executor::{
    Backend, BlockEntry, BlockId, InitializeBlock, LocalCallExecutor, NativeCallOutcome,
};
use call_executor::kv::KvList;
use call_executor::overlay::{Overlay, TransactionCache};
use call_executor::runtime::{Extensions, MethodKind, RuntimeImpl, StateView};
use call_executor::strategy::{ExecutionStrategy, ReconcilePolicy, reconcile};
use call_executor::version::RuntimeVersion;

fn version(spec_version: u32, impl_version: u32) -> RuntimeVersion {
    RuntimeVersion {
        spec_name: b"test".to_vec(),
        spec_version,
        impl_version,
        apis: vec![(1, 1)],
    }
}

fn standard_methods() -> Vec<(Vec<u8>, MethodKind)> {
    vec![
        (b"echo".to_vec(), MethodKind::Echo),
        (b"get".to_vec(), MethodKind::GetStorage),
        (b"set".to_vec(), MethodKind::SetStorage),
        (b"read_twice".to_vec(), MethodKind::ReadTwice),
        (b"header".to_vec(), MethodKind::CurrentHeader),
        (b"ext".to_vec(), MethodKind::ReadExtension),
        (b"trap".to_vec(), MethodKind::Trap),
    ]
}

fn plain_state(entries: Vec<(Vec<u8>, Vec<u8>)>) -> StateView {
    StateView::Plain(KvList { entries })
}

fn executor_with(
    native: Option<RuntimeImpl>,
    interpreted: RuntimeImpl,
    state: StateView,
) -> LocalCallExecutor {
    let declared = RuntimeVersion {
        spec_name: interpreted.version.spec_name.clone(),
        spec_version: interpreted.version.spec_version,
        impl_version: interpreted.version.impl_version,
        apis: vec![],
    };
    LocalCallExecutor {
        native,
        interpreted,
        backend: Backend {
            blocks: vec![BlockEntry { hash: 7, number: 0, declared_version: declared, state }],
        },
    }
}

#[test]
fn strategies_agree_when_implementations_agree() {
    let native = RuntimeImpl { version: version(1, 9), methods: standard_methods() };
    let interpreted = RuntimeImpl { version: version(1, 1), methods: standard_methods() };
    let ex = executor_with(Some(native), interpreted, plain_state(vec![]));
    let id = BlockId::Hash(7);
    let args = b"payload".to_vec();
    let a = ex.call(&id, &b"echo".to_vec(), &args, ExecutionStrategy::NativeOnly, None).unwrap();
    let b = ex.call(&id, &b"echo".to_vec(), &args, ExecutionStrategy::InterpretedOnly, None).unwrap();
    let c = ex
        .call(
            &id,
            &b"echo".to_vec(),
            &args,
            ExecutionStrategy::Both(ReconcilePolicy::RequireAgreement),
            None,
        )
        .unwrap();
    assert_eq!(a, b"payload".to_vec());
    assert_eq!(a, b);
    assert_eq!(b, c);
}

#[test]
fn reconcile_is_deterministic() {
    let n: Result<Vec<u8>, Error> = Ok(b"x".to_vec());
    let i: Result<Vec<u8>, Error> = Ok(b"y".to_vec());
    let first = reconcile(ReconcilePolicy::RequireAgreement, n.clone(), i.clone());
    let second = reconcile(ReconcilePolicy::RequireAgreement, n, i);
    assert_eq!(first, second);
    assert_eq!(first, Err(Error::ExecutionMismatch));
}

#[test]
fn reconcile_prefers_as_told() {
    let n: Result<Vec<u8>, Error> = Ok(b"native".to_vec());
    let i: Result<Vec<u8>, Error> = Ok(b"interp".to_vec());
    assert_eq!(reconcile(ReconcilePolicy::PreferNative, n.clone(), i.clone()), Ok(b"native".to_vec()));
    assert_eq!(reconcile(ReconcilePolicy::PreferInterpreted, n, i), Ok(b"interp".to_vec()));
    assert_eq!(
        reconcile(ReconcilePolicy::PreferNative, Err(Error::ExecutionFailed), Ok(b"i".to_vec())),
        Ok(b"i".to_vec())
    );
}

#[test]
fn incompatible_native_never_invoked() {
    // The native table answers the marker method with its own constant, so an
    // invocation would be visible; its spec version does not match the block's.
    let native = RuntimeImpl {
        version: version(2, 1),
        methods: vec![(b"marker".to_vec(), MethodKind::ReturnValue(b"NATIVE".to_vec()))],
    };
    let interpreted = RuntimeImpl {
        version: version(1, 1),
        methods: vec![(b"marker".to_vec(), MethodKind::ReturnValue(b"INTERP".to_vec()))],
    };
    let ex = executor_with(Some(native), interpreted, plain_state(vec![]));
    let id = BlockId::Number(0);
    let r = ex
        .call(&id, &b"marker".to_vec(), &vec![], ExecutionStrategy::NativeElseInterpreted, None)
        .unwrap();
    assert_eq!(r, b"INTERP".to_vec());
    let r2 = ex
        .call(&id, &b"marker".to_vec(), &vec![], ExecutionStrategy::InterpretedOnly, None)
        .unwrap();
    assert_eq!(r, r2);
}

#[test]
fn native_fault_surfaces_as_execution_failed() {
    let native = RuntimeImpl {
        version: version(1, 1),
        methods: vec![(b"work".to_vec(), MethodKind::Trap)],
    };
    let interpreted = RuntimeImpl {
        version: version(1, 1),
        methods: vec![(b"work".to_vec(), MethodKind::ReturnValue(b"ok".to_vec()))],
    };
    let ex = executor_with(Some(native), interpreted, plain_state(vec![]));
    let r = ex.call(
        &BlockId::Hash(7),
        &b"work".to_vec(),
        &vec![],
        ExecutionStrategy::Both(ReconcilePolicy::RequireAgreement),
        None,
    );
    assert_eq!(r, Err(Error::ExecutionFailed));
}

#[test]
fn both_disagreement_is_a_mismatch() {
    let native = RuntimeImpl {
        version: version(1, 1),
        methods: vec![(b"v".to_vec(), MethodKind::ReturnValue(b"a".to_vec()))],
    };
    let interpreted = RuntimeImpl {
        version: version(1, 1),
        methods: vec![(b"v".to_vec(), MethodKind::ReturnValue(b"b".to_vec()))],
    };
    let ex = executor_with(Some(native), interpreted, plain_state(vec![]));
    let r = ex.call(
        &BlockId::Hash(7),
        &b"v".to_vec(),
        &vec![],
        ExecutionStrategy::Both(ReconcilePolicy::RequireAgreement),
        None,
    );
    assert_eq!(r, Err(Error::ExecutionMismatch));
}

#[test]
fn error_taxonomy() {
    let interpreted = RuntimeImpl { version: version(1, 1), methods: standard_methods() };
    let ex = executor_with(None, interpreted, plain_state(vec![]));
    // Unresolvable block reference.
    assert_eq!(
        ex.call(&BlockId::Hash(99), &b"echo".to_vec(), &vec![], ExecutionStrategy::InterpretedOnly, None),
        Err(Error::InvalidBlock)
    );
    // Method the runtime does not expose.
    assert_eq!(
        ex.call(&BlockId::Hash(7), &b"nope".to_vec(), &vec![], ExecutionStrategy::InterpretedOnly, None),
        Err(Error::MethodNotFound)
    );
    // Native demanded, none linked.
    assert_eq!(
        ex.call(&BlockId::Hash(7), &b"echo".to_vec(), &vec![], ExecutionStrategy::NativeOnly, None),
        Err(Error::NoNativeImplementation)
    );
    // A trap inside the implementation.
    assert_eq!(
        ex.call(&BlockId::Hash(7), &b"trap".to_vec(), &vec![], ExecutionStrategy::InterpretedOnly, None),
        Err(Error::ExecutionFailed)
    );
}

#[test]
fn call_reads_state_and_discards_writes() {
    let interpreted = RuntimeImpl { version: version(1, 1), methods: standard_methods() };
    let state = plain_state(vec![(b"k".to_vec(), b"stored".to_vec())]);
    let ex = executor_with(None, interpreted, state);
    let id = BlockId::Number(0);
    let r = ex
        .call(&id, &b"get".to_vec(), &b"k".to_vec(), ExecutionStrategy::InterpretedOnly, None)
        .unwrap();
    let mut expected = vec![1u8];
    expected.extend_from_slice(b"stored");
    assert_eq!(r, expected);
    // An absent key is tagged absent.
    let r2 = ex
        .call(&id, &b"get".to_vec(), &b"missing".to_vec(), ExecutionStrategy::InterpretedOnly, None)
        .unwrap();
    assert_eq!(r2, vec![0u8]);
}

#[test]
fn contextual_call_observes_installed_header() {
    let interpreted = RuntimeImpl { version: version(1, 1), methods: standard_methods() };
    let ex = executor_with(None, interpreted, plain_state(vec![]));
    let mut overlay = Overlay::new();
    let mut cache = TransactionCache::new();
    let header = b"header-bytes".to_vec();
    let (r, _rec) = ex.contextual_call(
        &BlockId::Number(0),
        &b"header".to_vec(),
        &vec![],
        &mut overlay,
        &mut cache,
        &InitializeBlock::InitializeFromHeader(header.clone()),
        ExecutionStrategy::InterpretedOnly,
        None,
        None,
        None,
    );
    let mut expected = vec![1u8];
    expected.extend_from_slice(&header);
    assert_eq!(r.unwrap(), expected);
}

#[test]
fn contextual_call_writes_persist_in_overlay() {
    let interpreted = RuntimeImpl { version: version(1, 1), methods: standard_methods() };
    let ex = executor_with(None, interpreted, plain_state(vec![]));
    let mut overlay = Overlay::new();
    let mut cache = TransactionCache::new();
    // One length byte, a two-byte key, then the value.
    let mut args = vec![2u8];
    args.extend_from_slice(b"kyvalue");
    let (r, _rec) = ex.contextual_call(
        &BlockId::Number(0),
        &b"set".to_vec(),
        &args,
        &mut overlay,
        &mut cache,
        &InitializeBlock::DoNotInitialize,
        ExecutionStrategy::InterpretedOnly,
        None,
        None,
        None,
    );
    assert!(r.is_ok());
    assert_eq!(overlay.storage(&b"ky".to_vec()), Some(b"value".to_vec()));
    // A later read through the executor sees the pending write.
    let (r2, _rec) = ex.contextual_call(
        &BlockId::Number(0),
        &b"get".to_vec(),
        &b"ky".to_vec(),
        &mut overlay,
        &mut cache,
        &InitializeBlock::DoNotInitialize,
        ExecutionStrategy::InterpretedOnly,
        None,
        None,
        None,
    );
    let mut expected = vec![1u8];
    expected.extend_from_slice(b"value");
    assert_eq!(r2.unwrap(), expected);
}

#[test]
fn initialization_stages_extrinsics_under_indexed_keys() {
    let interpreted = RuntimeImpl { version: version(1, 1), methods: standard_methods() };
    let ex = executor_with(None, interpreted, plain_state(vec![]));
    let mut overlay = Overlay::new();
    let mut cache = TransactionCache::new();
    let exts = vec![b"first".to_vec(), b"second".to_vec()];
    let (r, _rec) = ex.contextual_call(
        &BlockId::Number(0),
        &b"header".to_vec(),
        &vec![],
        &mut overlay,
        &mut cache,
        &InitializeBlock::InitializeAndPushExtrinsics(b"h".to_vec(), exts),
        ExecutionStrategy::InterpretedOnly,
        None,
        None,
        None,
    );
    assert_eq!(r.unwrap(), vec![1u8, b'h']);
    assert_eq!(overlay.storage(&vec![101u8, 0]), Some(b"first".to_vec()));
    assert_eq!(overlay.storage(&vec![101u8, 1]), Some(b"second".to_vec()));
}

#[test]
fn native_shortcut_serves_the_native_side() {
    let native = RuntimeImpl { version: version(1, 1), methods: standard_methods() };
    let interpreted = RuntimeImpl {
        version: version(1, 1),
        methods: vec![(b"v".to_vec(), MethodKind::ReturnValue(b"typed".to_vec()))],
    };
    let ex = executor_with(Some(native), interpreted, plain_state(vec![]));
    let mut overlay = Overlay::new();
    let mut cache = TransactionCache::new();
    let (r, _rec) = ex.contextual_call(
        &BlockId::Number(0),
        &b"v".to_vec(),
        &vec![],
        &mut overlay,
        &mut cache,
        &InitializeBlock::DoNotInitialize,
        ExecutionStrategy::Both(ReconcilePolicy::RequireAgreement),
        Some(NativeCallOutcome::Returns(b"typed".to_vec())),
        None,
        None,
    );
    assert_eq!(r.unwrap(), b"typed".to_vec());
    // A trapping shortcut surfaces as a typed failure.
    let (r2, _rec) = ex.contextual_call(
        &BlockId::Number(0),
        &b"v".to_vec(),
        &vec![],
        &mut overlay,
        &mut cache,
        &InitializeBlock::DoNotInitialize,
        ExecutionStrategy::Both(ReconcilePolicy::RequireAgreement),
        Some(NativeCallOutcome::Traps),
        None,
        None,
    );
    assert_eq!(r2, Err(Error::ExecutionFailed));
}

#[test]
fn extensions_live_for_one_call() {
    let interpreted = RuntimeImpl { version: version(1, 1), methods: standard_methods() };
    let ex = executor_with(None, interpreted, plain_state(vec![]));
    let mut exts = Extensions::new();
    exts.register(b"rand".to_vec(), b"handle".to_vec());
    let r = ex
        .call(
            &BlockId::Number(0),
            &b"ext".to_vec(),
            &b"rand".to_vec(),
            ExecutionStrategy::InterpretedOnly,
            Some(&exts),
        )
        .unwrap();
    let mut expected = vec![1u8];
    expected.extend_from_slice(b"handle");
    assert_eq!(r, expected);
    // Without the extension the capability is absent.
    let r2 = ex
        .call(
            &BlockId::Number(0),
            &b"ext".to_vec(),
            &b"rand".to_vec(),
            ExecutionStrategy::InterpretedOnly,
            None,
        )
        .unwrap();
    assert_eq!(r2, vec![0u8]);
}

#[test]
fn errors_describe_themselves() {
    assert_eq!(Error::InvalidBlock.describe(), "invalid block reference");
    assert_eq!(Error::UnableToGenerateProof.describe(), "state is not trie-backed");
    assert_eq!(
        Error::ExecutionMismatch.describe(),
        "native and interpreted results disagree"
    );
}

#[test]
fn runtime_version_reads_the_block() {
    let interpreted = RuntimeImpl { version: version(3, 4), methods: vec![] };
    let ex = executor_with(None, interpreted, plain_state(vec![]));
    let v = match ex.runtime_version(&BlockId::Hash(7)) {
        Ok(v) => v,
        Err(_) => panic!("block resolves"),
    };
    assert_eq!(v.spec_version, 3);
    assert_eq!(v.spec_name, b"test".to_vec());
    assert!(matches!(ex.runtime_version(&BlockId::Hash(8)), Err(Error::InvalidBlock)));
    assert!(ex.native_runtime_version().is_none());
}
