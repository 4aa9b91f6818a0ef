//! The call executor: resolves a block reference to its state view, selects
//! which runtime implementation(s) to run under an execution strategy,
//! reconciles dual runs, threads the caller's overlay and transaction cache
//! through contextual calls, and produces storage proofs over trie-backed
//! state.

use vstd::prelude::*;
use crate::errors::Error;
use crate::kv::clone_bytes;
use crate::overlay::{Overlay, TransactionCache, cache_valid};
use crate::runtime::{
    Extensions, MethodKind, RuntimeImpl, StateView, ext_view, header_key, header_key_spec, invoke,
    method_new_top, method_result, method_state_key, reads_of, set_args_valid,
};
use crate::strategy::{ExecutionStrategy, ReconcilePolicy, reconcile, reconcile_spec, result_view};
use crate::trie::{StorageProof, dir_child, leaf_at, lemma_leaf_at_all_present};
use crate::version::{RuntimeVersion, version_compatible};

verus! {

/// An opaque reference to a ledger point, by hash or by height.
#[derive(Clone, Copy, PartialEq, Eq, Structural, Debug)]
pub enum BlockId {
    Hash(u64),
    Number(u64),
}

/// One block the backend can resolve: its identifiers, the runtime version
/// the chain declares at that block, and the state snapshot.
pub struct BlockEntry {
    pub hash: u64,
    pub number: u64,
    pub declared_version: RuntimeVersion,
    pub state: StateView,
}

/// Whether a block entry answers to a block reference.
pub open spec fn block_match(b: BlockEntry, id: BlockId) -> bool {
    match id {
        BlockId::Hash(h) => b.hash == h,
        BlockId::Number(n) => b.number == n,
    }
}

/// The first block entry matching the reference.
pub open spec fn resolve_spec(bs: Seq<BlockEntry>, id: BlockId) -> Option<BlockEntry>
    decreases bs.len(),
{
    if bs.len() == 0 {
        None
    } else if block_match(bs[0], id) {
        Some(bs[0])
    } else {
        resolve_spec(bs.drop_first(), id)
    }
}

/// A resolved block entry is one of the sequence's entries.
pub proof fn lemma_resolve_member(bs: Seq<BlockEntry>, id: BlockId)
    requires
        resolve_spec(bs, id) is Some,
    ensures
        exists|i: int| 0 <= i < bs.len() && bs[i] == resolve_spec(bs, id).unwrap(),
    decreases bs.len(),
{
    if bs.len() > 0 {
        if block_match(bs[0], id) {
            assert(bs[0] == resolve_spec(bs, id).unwrap());
        } else {
            lemma_resolve_member(bs.drop_first(), id);
            let i = choose|i: int|
                0 <= i < bs.drop_first().len() && bs.drop_first()[i] == resolve_spec(
                    bs.drop_first(),
                    id,
                ).unwrap();
            assert(bs[i + 1] == resolve_spec(bs, id).unwrap());
        }
    }
}

/// The backend interface this executor consumes: block references resolve to
/// state views.
pub struct Backend {
    pub blocks: Vec<BlockEntry>,
}

impl Backend {
    /// Every held state view is well formed.
    pub open spec fn wf(&self) -> bool {
        forall|i: int| 0 <= i < self.blocks@.len() ==> (#[trigger] self.blocks@[i]).state.wf()
    }

    /// Resolves a block reference to its entry.
    pub fn resolve(&self, id: &BlockId) -> (r: Option<&BlockEntry>)
        ensures
            match r {
                Some(b) => resolve_spec(self.blocks@, *id) == Some(*b),
                None => resolve_spec(self.blocks@, *id) is None,
            },
    {
        let mut i: usize = 0;
        proof {
            assert(self.blocks@.skip(0) =~= self.blocks@);
        }
        while i < self.blocks.len()
            invariant
                i <= self.blocks@.len(),
                resolve_spec(self.blocks@, *id) == resolve_spec(self.blocks@.skip(i as int), *id),
            decreases self.blocks@.len() - i,
        {
            proof {
                assert(self.blocks@.skip(i as int)[0] == self.blocks@[i as int]);
                assert(self.blocks@.skip(i as int).drop_first() =~= self.blocks@.skip(i + 1 as int));
            }
            let hit = match id {
                BlockId::Hash(h) => self.blocks[i].hash == *h,
                BlockId::Number(n) => self.blocks[i].number == *n,
            };
            if hit {
                return Some(&self.blocks[i]);
            }
            i = i + 1;
        }
        proof {
            assert(self.blocks@.skip(self.blocks@.len() as int).len() == 0);
        }
        None
    }
}

/// The total read mapping a state view answers on its own.
pub open spec fn state_reads_of(st: StateView) -> Map<Seq<u8>, Option<Seq<u8>>> {
    Map::new(|k: Seq<u8>| true, |k: Seq<u8>| st.value(k))
}

/// The total read mapping over a pending-write top layered on a state view.
pub open spec fn reads_over(top: Map<Seq<u8>, Seq<u8>>, st: StateView) -> Map<
    Seq<u8>,
    Option<Seq<u8>>,
> {
    Map::new(
        |k: Seq<u8>| true,
        |k: Seq<u8>|
            if top.contains_key(k) {
                Some(top[k])
            } else {
                st.value(k)
            },
    )
}

/// The total read mapping a verifier answers from a proof under a
/// pending-write top.
pub open spec fn replay_reads_over(
    top: Map<Seq<u8>, Seq<u8>>,
    p: StorageProof,
    root_id: u64,
) -> Map<Seq<u8>, Option<Seq<u8>>> {
    Map::new(
        |k: Seq<u8>| true,
        |k: Seq<u8>|
            if top.contains_key(k) {
                Some(top[k])
            } else {
                p.replay_value(root_id, k)
            },
    )
}

/// What running one implementation returns: `MethodNotFound` if its table
/// does not expose the method, the method's result otherwise.
pub open spec fn run_result(
    rt: RuntimeImpl,
    method: Seq<u8>,
    args: Seq<u8>,
    reads: Map<Seq<u8>, Option<Seq<u8>>>,
    exts: Map<Seq<u8>, Seq<u8>>,
) -> Result<Seq<u8>, Error> {
    match rt.dispatch(method) {
        None => Err(Error::MethodNotFound),
        Some(kind) => method_result(kind, args, reads, exts),
    }
}

/// The pending-write top after running one implementation.
pub open spec fn run_new_top(
    rt: RuntimeImpl,
    method: Seq<u8>,
    args: Seq<u8>,
    top: Map<Seq<u8>, Seq<u8>>,
) -> Map<Seq<u8>, Seq<u8>> {
    match rt.dispatch(method) {
        None => top,
        Some(kind) => method_new_top(kind, args, top),
    }
}

/// The caller-supplied native shortcut of a contextual call: the outcome of
/// the strongly-typed native closure, already run under the caller's unwind
/// boundary.
pub enum NativeCallOutcome {
    /// The closure returned these encoded bytes.
    Returns(Vec<u8>),
    /// The closure trapped; surfaced as `ExecutionFailed`.
    Traps,
}

/// What the native side of a contextual call returns: the shortcut's outcome
/// when one is supplied, a dispatch through the native table otherwise.
pub open spec fn native_side_result(
    n: RuntimeImpl,
    method: Seq<u8>,
    args: Seq<u8>,
    reads: Map<Seq<u8>, Option<Seq<u8>>>,
    exts: Map<Seq<u8>, Seq<u8>>,
    shortcut: Option<NativeCallOutcome>,
) -> Result<Seq<u8>, Error> {
    match shortcut {
        Some(NativeCallOutcome::Returns(v)) => Ok(v@),
        Some(NativeCallOutcome::Traps) => Err(Error::ExecutionFailed),
        None => run_result(n, method, args, reads, exts),
    }
}

/// How the runtime is told a new block has begun before the method runs.
pub enum InitializeBlock {
    /// Leave the in-progress header untouched.
    DoNotInitialize,
    /// Install the given header as the in-progress block header.
    InitializeFromHeader(Vec<u8>),
    /// Install the header and stage the given extrinsics under indexed keys.
    InitializeAndPushExtrinsics(Vec<u8>, Vec<Vec<u8>>),
}

/// The reserved key the extrinsic at one index is staged under.
pub open spec fn ext_key_spec(i: u8) -> Seq<u8> {
    seq![101u8, i]
}

/// The staged-extrinsic key as call-time bytes.
pub fn ext_key(i: u8) -> (k: Vec<u8>)
    ensures
        k@ == ext_key_spec(i),
{
    let mut k: Vec<u8> = Vec::new();
    k.push(101);
    k.push(i);
    assert(k@ =~= ext_key_spec(i));
    k
}

/// The pending-write top after staging the first `n` extrinsics.
pub open spec fn push_exts(
    top: Map<Seq<u8>, Seq<u8>>,
    exts: Seq<Vec<u8>>,
    n: int,
) -> Map<Seq<u8>, Seq<u8>>
    decreases n,
{
    if n <= 0 {
        top
    } else {
        push_exts(top, exts, n - 1).insert(ext_key_spec((n - 1) as u8), exts[n - 1]@)
    }
}

/// The pending-write top after block initialization.
pub open spec fn init_top(mode: InitializeBlock, top: Map<Seq<u8>, Seq<u8>>) -> Map<
    Seq<u8>,
    Seq<u8>,
> {
    match mode {
        InitializeBlock::DoNotInitialize => top,
        InitializeBlock::InitializeFromHeader(h) => top.insert(header_key_spec(), h@),
        InitializeBlock::InitializeAndPushExtrinsics(h, exts) => push_exts(
            top.insert(header_key_spec(), h@),
            exts@,
            exts@.len() as int,
        ),
    }
}

/// Whether running one implementation mutates the pending-write top.
pub open spec fn writes_top(rt: RuntimeImpl, method: Seq<u8>, args: Seq<u8>) -> bool {
    match rt.dispatch(method) {
        Some(MethodKind::SetStorage) => set_args_valid(args),
        _ => false,
    }
}

/// The key running one implementation reads from storage, if it reads one.
pub open spec fn run_state_key(rt: RuntimeImpl, method: Seq<u8>, args: Seq<u8>) -> Option<Seq<u8>> {
    match rt.dispatch(method) {
        None => None,
        Some(kind) => method_state_key(kind, args),
    }
}

/// Executes calls against block state with a linked native implementation
/// (optional) and the interpreted, on-chain one (always present).
pub struct LocalCallExecutor {
    pub native: Option<RuntimeImpl>,
    pub interpreted: RuntimeImpl,
    pub backend: Backend,
}

/// What `call` returns: the block resolves to a state view, the strategy
/// picks the implementation(s), and a dual run is reconciled. Any overlay
/// used is fresh and discarded, so reads see the state view alone.
pub open spec fn call_result_spec(
    ex: LocalCallExecutor,
    id: BlockId,
    method: Seq<u8>,
    args: Seq<u8>,
    strategy: ExecutionStrategy,
    exts: Map<Seq<u8>, Seq<u8>>,
) -> Result<Seq<u8>, Error> {
    match resolve_spec(ex.backend.blocks@, id) {
        None => Err(Error::InvalidBlock),
        Some(b) => {
            let reads = state_reads_of(b.state);
            match strategy {
                ExecutionStrategy::NativeOnly => match ex.native {
                    None => Err(Error::NoNativeImplementation),
                    Some(n) => run_result(n, method, args, reads, exts),
                },
                ExecutionStrategy::InterpretedOnly => run_result(
                    ex.interpreted,
                    method,
                    args,
                    reads,
                    exts,
                ),
                ExecutionStrategy::NativeElseInterpreted => match ex.native {
                    Some(n) => {
                        if version_compatible(n.version, b.declared_version) {
                            run_result(n, method, args, reads, exts)
                        } else {
                            run_result(ex.interpreted, method, args, reads, exts)
                        }
                    },
                    None => run_result(ex.interpreted, method, args, reads, exts),
                },
                ExecutionStrategy::Both(policy) => match ex.native {
                    Some(n) => {
                        if version_compatible(n.version, b.declared_version) {
                            reconcile_spec(
                                policy,
                                run_result(n, method, args, reads, exts),
                                run_result(ex.interpreted, method, args, reads, exts),
                            )
                        } else {
                            run_result(ex.interpreted, method, args, reads, exts)
                        }
                    },
                    None => run_result(ex.interpreted, method, args, reads, exts),
                },
            }
        },
    }
}

/// The pending-write top after the native side of a contextual call: a
/// supplied shortcut writes nothing; a dispatch writes as the method does.
pub open spec fn native_side_top(
    n: RuntimeImpl,
    method: Seq<u8>,
    args: Seq<u8>,
    top: Map<Seq<u8>, Seq<u8>>,
    shortcut: Option<NativeCallOutcome>,
) -> Map<Seq<u8>, Seq<u8>> {
    match shortcut {
        Some(_) => top,
        None => run_new_top(n, method, args, top),
    }
}

/// Whether the proof recorder of a contextual call mirrors the interpreted
/// run: always when the interpreted implementation is authoritative, and in a
/// dual run, where the native side executes on a discarded overlay copy.
pub open spec fn recorded_interpreted(
    ex: LocalCallExecutor,
    strategy: ExecutionStrategy,
    b: BlockEntry,
) -> bool {
    match strategy {
        ExecutionStrategy::InterpretedOnly => true,
        ExecutionStrategy::Both(_) => true,
        ExecutionStrategy::NativeElseInterpreted => !(ex.native is Some && version_compatible(
            ex.native.unwrap().version,
            b.declared_version,
        )),
        ExecutionStrategy::NativeOnly => false,
    }
}

/// Whether the proof recorder of a contextual call mirrors the native run:
/// when the native path is authoritative and dispatches through the table
/// rather than a supplied shortcut.
pub open spec fn recorded_native(
    ex: LocalCallExecutor,
    strategy: ExecutionStrategy,
    b: BlockEntry,
    shortcut: Option<NativeCallOutcome>,
) -> bool {
    ex.native is Some && shortcut is None && match strategy {
        ExecutionStrategy::NativeOnly => true,
        ExecutionStrategy::NativeElseInterpreted => version_compatible(
            ex.native.unwrap().version,
            b.declared_version,
        ),
        _ => false,
    }
}

/// What `contextual_call` returns: after block initialization writes into the
/// caller's overlay, reads see that overlay over the block's state view; the
/// strategy picks the implementation(s) as in `call`, with the native side
/// optionally served by the caller's shortcut. In a dual run the interpreted
/// implementation is authoritative for writes; the native side runs on a
/// discarded copy of the overlay.
pub open spec fn contextual_result_spec(
    ex: LocalCallExecutor,
    id: BlockId,
    method: Seq<u8>,
    args: Seq<u8>,
    mode: InitializeBlock,
    strategy: ExecutionStrategy,
    shortcut: Option<NativeCallOutcome>,
    top_before: Map<Seq<u8>, Seq<u8>>,
    exts: Map<Seq<u8>, Seq<u8>>,
) -> Result<Seq<u8>, Error> {
    match resolve_spec(ex.backend.blocks@, id) {
        None => Err(Error::InvalidBlock),
        Some(b) => {
            let reads = reads_over(init_top(mode, top_before), b.state);
            match strategy {
                ExecutionStrategy::NativeOnly => match ex.native {
                    None => Err(Error::NoNativeImplementation),
                    Some(n) => native_side_result(n, method, args, reads, exts, shortcut),
                },
                ExecutionStrategy::InterpretedOnly => run_result(
                    ex.interpreted,
                    method,
                    args,
                    reads,
                    exts,
                ),
                ExecutionStrategy::NativeElseInterpreted => match ex.native {
                    Some(n) => {
                        if version_compatible(n.version, b.declared_version) {
                            native_side_result(n, method, args, reads, exts, shortcut)
                        } else {
                            run_result(ex.interpreted, method, args, reads, exts)
                        }
                    },
                    None => run_result(ex.interpreted, method, args, reads, exts),
                },
                ExecutionStrategy::Both(policy) => match ex.native {
                    Some(n) => {
                        if version_compatible(n.version, b.declared_version) {
                            reconcile_spec(
                                policy,
                                native_side_result(n, method, args, reads, exts, shortcut),
                                run_result(ex.interpreted, method, args, reads, exts),
                            )
                        } else {
                            run_result(ex.interpreted, method, args, reads, exts)
                        }
                    },
                    None => run_result(ex.interpreted, method, args, reads, exts),
                },
            }
        },
    }
}

/// The caller's pending-write top after `contextual_call`: initialization
/// writes land first, then the authoritative implementation's writes.
pub open spec fn contextual_final_top(
    ex: LocalCallExecutor,
    id: BlockId,
    method: Seq<u8>,
    args: Seq<u8>,
    mode: InitializeBlock,
    strategy: ExecutionStrategy,
    shortcut: Option<NativeCallOutcome>,
    top_before: Map<Seq<u8>, Seq<u8>>,
) -> Map<Seq<u8>, Seq<u8>> {
    match resolve_spec(ex.backend.blocks@, id) {
        None => top_before,
        Some(b) => {
            let top0 = init_top(mode, top_before);
            match strategy {
                ExecutionStrategy::NativeOnly => match ex.native {
                    None => top0,
                    Some(n) => native_side_top(n, method, args, top0, shortcut),
                },
                ExecutionStrategy::InterpretedOnly => run_new_top(ex.interpreted, method, args, top0),
                ExecutionStrategy::NativeElseInterpreted => match ex.native {
                    Some(n) => {
                        if version_compatible(n.version, b.declared_version) {
                            native_side_top(n, method, args, top0, shortcut)
                        } else {
                            run_new_top(ex.interpreted, method, args, top0)
                        }
                    },
                    None => run_new_top(ex.interpreted, method, args, top0),
                },
                ExecutionStrategy::Both(_) => run_new_top(ex.interpreted, method, args, top0),
            }
        },
    }
}

/// Method call executor: the contract every executor variant answers to. The
/// specification functions name what each implementor promises; the method
/// contracts hold implementors to them. `prove_at_state` is a default
/// method: every executor refuses to prove over a state with no trie-backed
/// view, with `UnableToGenerateProof` and never any other error, and
/// otherwise delegates to `prove_at_trie_state`.
pub trait CallExecutor: Sized {
    /// When this executor is usable at all.
    spec fn executor_wf(&self) -> bool;

    /// What `call` returns.
    spec fn call_spec(
        &self,
        id: BlockId,
        method: Seq<u8>,
        args: Seq<u8>,
        strategy: ExecutionStrategy,
        exts: Map<Seq<u8>, Seq<u8>>,
    ) -> Result<Seq<u8>, Error>;

    /// The version descriptor `runtime_version` reports for a block, as
    /// `(spec name, spec version, implementation version)`.
    spec fn version_spec(&self, id: BlockId) -> Option<(Seq<u8>, u32, u32)>;

    /// The version of the natively compiled implementation linked in, if any.
    spec fn native_version_spec(&self) -> Option<RuntimeVersion>;

    /// What a proving run returns over a trie-backed view under a
    /// pending-write top.
    spec fn prove_result_spec(
        &self,
        state: StateView,
        top: Map<Seq<u8>, Seq<u8>>,
        method: Seq<u8>,
        args: Seq<u8>,
    ) -> Result<Seq<u8>, Error>;

    /// What a verifier replaying the proving run from the proof and the root
    /// alone returns.
    spec fn prove_replay_spec(
        &self,
        top: Map<Seq<u8>, Seq<u8>>,
        proof: StorageProof,
        root_id: u64,
        method: Seq<u8>,
        args: Seq<u8>,
    ) -> Result<Seq<u8>, Error>;

    /// The key a proving run reads from storage, if it reads one.
    spec fn prove_read_key(&self, method: Seq<u8>, args: Seq<u8>) -> Option<Seq<u8>>;

    /// The pending-write top after a proving run.
    spec fn prove_new_top(
        &self,
        method: Seq<u8>,
        args: Seq<u8>,
        top: Map<Seq<u8>, Seq<u8>>,
    ) -> Map<Seq<u8>, Seq<u8>>;

    /// Executes a call to a contract on top of state in a block of given
    /// hash. No changes are made.
    fn call(
        &self,
        id: &BlockId,
        method: &Vec<u8>,
        call_data: &Vec<u8>,
        strategy: ExecutionStrategy,
        extensions: Option<&Extensions>,
    ) -> (r: Result<Vec<u8>, Error>)
        requires
            self.executor_wf(),
            extensions matches Some(e) ==> e.wf(),
        ensures
            result_view(r) == self.call_spec(*id, method@, call_data@, strategy, ext_view(extensions)),
    ;

    /// Extracts the runtime version of a given block. No changes are made.
    fn runtime_version(&self, id: &BlockId) -> (r: Result<RuntimeVersion, Error>)
        requires
            self.executor_wf(),
        ensures
            match r {
                Ok(v) => self.version_spec(*id) == Some(
                    (v.spec_name@, v.spec_version, v.impl_version),
                ),
                Err(e) => self.version_spec(*id) is None && e == Error::InvalidBlock,
            },
    ;

    /// Gets the native runtime version if one is linked.
    fn native_runtime_version(&self) -> (r: Option<&RuntimeVersion>)
        ensures
            match r {
                Some(v) => self.native_version_spec() == Some(*v),
                None => self.native_version_spec() is None,
            },
    ;

    /// Executes a call to a contract on top of the given trie-backed state,
    /// gathering an execution proof. No changes are made beyond the overlay.
    fn prove_at_trie_state(
        &self,
        trie_state: &StateView,
        overlay: &mut Overlay,
        method: &Vec<u8>,
        call_data: &Vec<u8>,
    ) -> (r: Result<(Vec<u8>, StorageProof), Error>)
        requires
            self.executor_wf(),
            trie_state.wf(),
            trie_state.trie_spec() is Some,
            old(overlay).wf(),
        ensures
            final(overlay).wf(),
            final(overlay).children@ == old(overlay).children@,
            final(overlay).top_view() == self.prove_new_top(
                method@,
                call_data@,
                old(overlay).top_view(),
            ),
            match r {
                Ok(p) => {
                    &&& self.prove_result_spec(
                        *trie_state,
                        old(overlay).top_view(),
                        method@,
                        call_data@,
                    ) == Ok::<Seq<u8>, Error>(p.0@)
                    &&& p.1.consistent_with(trie_state.trie_spec().unwrap())
                    &&& self.prove_replay_spec(
                        old(overlay).top_view(),
                        p.1,
                        trie_state.trie_spec().unwrap().root_id,
                        method@,
                        call_data@,
                    ) == Ok::<Seq<u8>, Error>(p.0@)
                    &&& (p.1.root_node is Some ==> self.prove_read_key(method@, call_data@)
                        is Some && !old(overlay).top_view().contains_key(
                        self.prove_read_key(method@, call_data@).unwrap(),
                    ))
                    &&& forall|j: int|
                        0 <= j < p.1.leaf_nodes@.len() ==> Some(
                            (#[trigger] p.1.leaf_nodes@[j]).0,
                        ) == dir_child(
                            trie_state.trie_spec().unwrap().root_dir@,
                            self.prove_read_key(method@, call_data@).unwrap(),
                        )
                },
                Err(e) => self.prove_result_spec(
                    *trie_state,
                    old(overlay).top_view(),
                    method@,
                    call_data@,
                ) == Err::<Seq<u8>, Error>(e),
            },
    ;

    /// Executes a call to a contract on top of the given state, gathering an
    /// execution proof: requires the state to expose a trie-backed view and
    /// fails with `UnableToGenerateProof`, never any other error, when it
    /// does not.
    fn prove_at_state(
        &self,
        state: &StateView,
        overlay: &mut Overlay,
        method: &Vec<u8>,
        call_data: &Vec<u8>,
    ) -> (r: Result<(Vec<u8>, StorageProof), Error>)
        requires
            self.executor_wf(),
            state.wf(),
            old(overlay).wf(),
        ensures
            final(overlay).wf(),
            final(overlay).children@ == old(overlay).children@,
            state.trie_spec() is None ==> (r matches Err(e) && e == Error::UnableToGenerateProof
                && *final(overlay) == *old(overlay)),
            state.trie_spec() is Some ==> {
                &&& final(overlay).top_view() == self.prove_new_top(
                    method@,
                    call_data@,
                    old(overlay).top_view(),
                )
                &&& match r {
                    Ok(p) => {
                        &&& self.prove_result_spec(
                            *state,
                            old(overlay).top_view(),
                            method@,
                            call_data@,
                        ) == Ok::<Seq<u8>, Error>(p.0@)
                        &&& p.1.consistent_with(state.trie_spec().unwrap())
                        &&& self.prove_replay_spec(
                            old(overlay).top_view(),
                            p.1,
                            state.trie_spec().unwrap().root_id,
                            method@,
                            call_data@,
                        ) == Ok::<Seq<u8>, Error>(p.0@)
                        &&& (p.1.root_node is Some ==> self.prove_read_key(method@, call_data@)
                            is Some && !old(overlay).top_view().contains_key(
                            self.prove_read_key(method@, call_data@).unwrap(),
                        ))
                        &&& forall|j: int|
                            0 <= j < p.1.leaf_nodes@.len() ==> Some(
                                (#[trigger] p.1.leaf_nodes@[j]).0,
                            ) == dir_child(
                                state.trie_spec().unwrap().root_dir@,
                                self.prove_read_key(method@, call_data@).unwrap(),
                            )
                    },
                    Err(e) => self.prove_result_spec(
                        *state,
                        old(overlay).top_view(),
                        method@,
                        call_data@,
                    ) == Err::<Seq<u8>, Error>(e),
                }
            },
    {
        match state {
            StateView::Plain(_) => Err(Error::UnableToGenerateProof),
            StateView::TrieBacked(_) => self.prove_at_trie_state(state, overlay, method, call_data),
        }
    }
}

impl LocalCallExecutor {
    /// The backend's state views are well formed.
    pub open spec fn wf(&self) -> bool {
        self.backend.wf()
    }

    /// A throwaway overlay with the same pending top-level writes, for the
    /// discarded native side of a dual run.
    fn scratch_overlay(ov: &Overlay) -> (r: Overlay)
        requires
            ov.wf(),
        ensures
            r.wf(),
            r.top_view() == ov.top_view(),
    {
        Overlay { top: ov.top.duplicate(), children: Vec::new() }
    }

    /// Runs one implementation against the caller's overlay over a state
    /// view, threading the proof recorder through when the view is
    /// trie-backed.
    fn run_ctx(
        rt: &RuntimeImpl,
        method: &Vec<u8>,
        args: &Vec<u8>,
        changes: &mut Overlay,
        state: &StateView,
        recorder: Option<StorageProof>,
        extensions: Option<&Extensions>,
    ) -> (out: (Result<Vec<u8>, Error>, Option<StorageProof>, bool))
        requires
            old(changes).wf(),
            state.wf(),
            extensions matches Some(e) ==> e.wf(),
            recorder matches Some(p) ==> (state.trie_spec() matches Some(t) ==> p.consistent_with(
                t,
            )),
        ensures
            final(changes).wf(),
            final(changes).children@ == old(changes).children@,
            result_view(out.0) == run_result(
                *rt,
                method@,
                args@,
                reads_over(old(changes).top_view(), *state),
                ext_view(extensions),
            ),
            final(changes).top_view() == run_new_top(*rt, method@, args@, old(changes).top_view()),
            out.2 == writes_top(*rt, method@, args@),
            out.1 is Some <==> recorder is Some,
            (recorder is Some && state.trie_spec() is Some) ==> (out.1 matches Some(p2) && {
                &&& p2.consistent_with(state.trie_spec().unwrap())
                &&& run_result(
                    *rt,
                    method@,
                    args@,
                    replay_reads_over(
                        old(changes).top_view(),
                        p2,
                        state.trie_spec().unwrap().root_id,
                    ),
                    ext_view(extensions),
                ) == result_view(out.0)
                &&& (p2.root_node is Some ==> recorder.unwrap().root_node is Some || (
                run_state_key(*rt, method@, args@) matches Some(sk) && !old(
                    changes,
                ).top_view().contains_key(sk)))
                &&& forall|j: int|
                    0 <= j < p2.leaf_nodes@.len() ==> leaf_at(
                        recorder.unwrap().leaf_nodes@,
                        (#[trigger] p2.leaf_nodes@[j]).0,
                    ) is Some || (run_state_key(*rt, method@, args@) matches Some(sk) && !old(
                        changes,
                    ).top_view().contains_key(sk) && Some(p2.leaf_nodes@[j].0) == dir_child(
                        state.trie_spec().unwrap().root_dir@,
                        sk,
                    ))
            }),
    {
        proof {
            if recorder is Some {
                lemma_leaf_at_all_present(recorder.unwrap().leaf_nodes@);
            }
        }
        match rt.find_method(method) {
            None => (Err(Error::MethodNotFound), recorder, false),
            Some(kind) => {
                let wrote = match kind {
                    MethodKind::SetStorage => args.len() >= 1 && args.len() >= 1 + (
                    args[0] as usize),
                    _ => false,
                };
                let is_trie = match state {
                    StateView::Plain(_) => false,
                    StateView::TrieBacked(_) => true,
                };
                if is_trie {
                    let (res, rec) = invoke(kind, args, changes, state, recorder, extensions);
                    proof {
                        assert(reads_of(*old(changes), *state) =~= reads_over(
                            old(changes).top_view(),
                            *state,
                        ));
                        if rec is Some {
                            assert(crate::runtime::replay_reads_of(
                                *old(changes),
                                rec.unwrap(),
                                state.trie_spec().unwrap().root_id,
                            ) =~= replay_reads_over(
                                old(changes).top_view(),
                                rec.unwrap(),
                                state.trie_spec().unwrap().root_id,
                            ));
                        }
                    }
                    (res, rec, wrote)
                } else {
                    let (res, _absent) = invoke(kind, args, changes, state, None, extensions);
                    proof {
                        assert(reads_of(*old(changes), *state) =~= reads_over(
                            old(changes).top_view(),
                            *state,
                        ));
                    }
                    (res, recorder, wrote)
                }
            },
        }
    }

    /// Runs one implementation against a state view with a fresh, discarded
    /// overlay.
    fn run_one(
        rt: &RuntimeImpl,
        method: &Vec<u8>,
        args: &Vec<u8>,
        state: &StateView,
        extensions: Option<&Extensions>,
    ) -> (r: Result<Vec<u8>, Error>)
        requires
            state.wf(),
            extensions matches Some(e) ==> e.wf(),
        ensures
            result_view(r) == run_result(*rt, method@, args@, state_reads_of(*state), ext_view(extensions)),
    {
        match rt.find_method(method) {
            None => Err(Error::MethodNotFound),
            Some(kind) => {
                let mut overlay = Overlay::new();
                proof {
                    assert(reads_of(overlay, *state) =~= state_reads_of(*state));
                }
                let (res, _rec) = invoke(kind, args, &mut overlay, state, None, extensions);
                res
            },
        }
    }

    /// Executes `method` with `call_data` against the state at the block,
    /// applying the strategy. No write persists. Fails with `InvalidBlock`
    /// when the reference does not resolve, `MethodNotFound` when the chosen
    /// implementation lacks the method, `ExecutionFailed` on a trap, and
    /// `ExecutionMismatch` when a dual run reconciles to no agreed result.
    pub fn call(
        &self,
        id: &BlockId,
        method: &Vec<u8>,
        call_data: &Vec<u8>,
        strategy: ExecutionStrategy,
        extensions: Option<&Extensions>,
    ) -> (r: Result<Vec<u8>, Error>)
        requires
            self.wf(),
            extensions matches Some(e) ==> e.wf(),
        ensures
            result_view(r) == call_result_spec(
                *self,
                *id,
                method@,
                call_data@,
                strategy,
                ext_view(extensions),
            ),
    {
        let entry = match self.backend.resolve(id) {
            None => {
                return Err(Error::InvalidBlock);
            },
            Some(e) => e,
        };
        proof {
            lemma_resolve_member(self.backend.blocks@, *id);
        }
        match strategy {
            ExecutionStrategy::NativeOnly => {
                match &self.native {
                    None => Err(Error::NoNativeImplementation),
                    Some(n) => Self::run_one(n, method, call_data, &entry.state, extensions),
                }
            },
            ExecutionStrategy::InterpretedOnly => Self::run_one(
                &self.interpreted,
                method,
                call_data,
                &entry.state,
                extensions,
            ),
            ExecutionStrategy::NativeElseInterpreted => {
                match &self.native {
                    Some(n) => {
                        if n.version.is_compatible_with(&entry.declared_version) {
                            Self::run_one(n, method, call_data, &entry.state, extensions)
                        } else {
                            Self::run_one(
                                &self.interpreted,
                                method,
                                call_data,
                                &entry.state,
                                extensions,
                            )
                        }
                    },
                    None => Self::run_one(
                        &self.interpreted,
                        method,
                        call_data,
                        &entry.state,
                        extensions,
                    ),
                }
            },
            ExecutionStrategy::Both(policy) => {
                match &self.native {
                    Some(n) => {
                        if n.version.is_compatible_with(&entry.declared_version) {
                            let native_res = Self::run_one(
                                n,
                                method,
                                call_data,
                                &entry.state,
                                extensions,
                            );
                            let interp_res = Self::run_one(
                                &self.interpreted,
                                method,
                                call_data,
                                &entry.state,
                                extensions,
                            );
                            reconcile(policy, native_res, interp_res)
                        } else {
                            Self::run_one(
                                &self.interpreted,
                                method,
                                call_data,
                                &entry.state,
                                extensions,
                            )
                        }
                    },
                    None => Self::run_one(
                        &self.interpreted,
                        method,
                        call_data,
                        &entry.state,
                        extensions,
                    ),
                }
            },
        }
    }

    /// Returns the runtime version the chain declares at the block. Read
    /// only; never initializes a block.
    pub fn runtime_version(&self, id: &BlockId) -> (r: Result<RuntimeVersion, Error>)
        ensures
            match r {
                Ok(v) => {
                    &&& resolve_spec(self.backend.blocks@, *id) is Some
                    &&& v.spec_name@ == resolve_spec(
                        self.backend.blocks@,
                        *id,
                    ).unwrap().declared_version.spec_name@
                    &&& v.spec_version == resolve_spec(
                        self.backend.blocks@,
                        *id,
                    ).unwrap().declared_version.spec_version
                    &&& v.impl_version == resolve_spec(
                        self.backend.blocks@,
                        *id,
                    ).unwrap().declared_version.impl_version
                },
                Err(e) => resolve_spec(self.backend.blocks@, *id) is None && e
                    == Error::InvalidBlock,
            },
    {
        match self.backend.resolve(id) {
            None => Err(Error::InvalidBlock),
            Some(entry) => Ok(entry.declared_version.duplicate()),
        }
    }

    /// Executes a contextual call: the supplied header (if any) is installed
    /// as the in-progress block header first, writes land in the caller's
    /// overlay, the transaction cache is invalidated whenever that overlay is
    /// mutated, an optional native shortcut can serve the native side, and an
    /// optional proof recorder mirrors the reads of the authoritative
    /// interpreted run when the state view is trie-backed.
    pub fn contextual_call(
        &self,
        at: &BlockId,
        method: &Vec<u8>,
        call_data: &Vec<u8>,
        changes: &mut Overlay,
        storage_transaction_cache: &mut TransactionCache,
        initialize_block: &InitializeBlock,
        execution_manager: ExecutionStrategy,
        native_call: Option<NativeCallOutcome>,
        proof_recorder: Option<StorageProof>,
        extensions: Option<&Extensions>,
    ) -> (out: (Result<Vec<u8>, Error>, Option<StorageProof>))
        requires
            self.wf(),
            old(changes).wf(),
            extensions matches Some(e) ==> e.wf(),
            cache_valid(*old(storage_transaction_cache), *old(changes)),
            proof_recorder matches Some(p) ==> p.root_node is None && p.leaf_nodes@.len() == 0,
            initialize_block matches InitializeBlock::InitializeAndPushExtrinsics(_, exts)
                ==> exts@.len() <= 255,
        ensures
            final(changes).wf(),
            final(changes).children@ == old(changes).children@,
            result_view(out.0) == contextual_result_spec(
                *self,
                *at,
                method@,
                call_data@,
                *initialize_block,
                execution_manager,
                native_call,
                old(changes).top_view(),
                ext_view(extensions),
            ),
            final(changes).top_view() == contextual_final_top(
                *self,
                *at,
                method@,
                call_data@,
                *initialize_block,
                execution_manager,
                native_call,
                old(changes).top_view(),
            ),
            cache_valid(*final(storage_transaction_cache), *final(changes)),
            out.1 is Some <==> proof_recorder is Some,
            (proof_recorder is Some && resolve_spec(self.backend.blocks@, *at) is Some
                && resolve_spec(self.backend.blocks@, *at).unwrap().state.trie_spec() is Some)
                ==> (out.1 matches Some(p2) && {
                let b = resolve_spec(self.backend.blocks@, *at).unwrap();
                let t = b.state.trie_spec().unwrap();
                let top0 = init_top(*initialize_block, old(changes).top_view());
                &&& p2.consistent_with(t)
                &&& (recorded_interpreted(*self, execution_manager, b) ==> run_result(
                    self.interpreted,
                    method@,
                    call_data@,
                    replay_reads_over(top0, p2, t.root_id),
                    ext_view(extensions),
                ) == run_result(
                    self.interpreted,
                    method@,
                    call_data@,
                    reads_over(top0, b.state),
                    ext_view(extensions),
                ))
                &&& (recorded_native(*self, execution_manager, b, native_call) ==> run_result(
                    self.native.unwrap(),
                    method@,
                    call_data@,
                    replay_reads_over(top0, p2, t.root_id),
                    ext_view(extensions),
                ) == run_result(
                    self.native.unwrap(),
                    method@,
                    call_data@,
                    reads_over(top0, b.state),
                    ext_view(extensions),
                ))
            }),
    {
        let entry = match self.backend.resolve(at) {
            None => {
                return (Err(Error::InvalidBlock), proof_recorder);
            },
            Some(e) => e,
        };
        proof {
            lemma_resolve_member(self.backend.blocks@, *at);
        }
        // Tell the runtime a block has begun, as the mode directs.
        let mut mode_wrote: bool = false;
        match initialize_block {
            InitializeBlock::DoNotInitialize => {},
            InitializeBlock::InitializeFromHeader(h) => {
                changes.set_storage(header_key(), clone_bytes(h));
                mode_wrote = true;
            },
            InitializeBlock::InitializeAndPushExtrinsics(h, exts) => {
                changes.set_storage(header_key(), clone_bytes(h));
                let ghost top_h = changes.top_view();
                let mut j: usize = 0;
                while j < exts.len()
                    invariant
                        changes.wf(),
                        changes.children@ == old(changes).children@,
                        j <= exts@.len(),
                        exts@.len() <= 255,
                        changes.top_view() == push_exts(top_h, exts@, j as int),
                    decreases exts@.len() - j,
                {
                    let key = ext_key(j as u8);
                    changes.set_storage(key, clone_bytes(&exts[j]));
                    j = j + 1;
                }
                mode_wrote = true;
            },
        }
        if mode_wrote {
            storage_transaction_cache.invalidate();
        }
        proof {
            assert(changes.top_view() == init_top(*initialize_block, old(changes).top_view()));
        }
        let ghost top0 = changes.top_view();
        match execution_manager {
            ExecutionStrategy::NativeOnly => {
                match &self.native {
                    None => (Err(Error::NoNativeImplementation), proof_recorder),
                    Some(n) => {
                        match native_call {
                            Some(NativeCallOutcome::Returns(v)) => (Ok(v), proof_recorder),
                            Some(NativeCallOutcome::Traps) => (
                                Err(Error::ExecutionFailed),
                                proof_recorder,
                            ),
                            None => {
                                let (res, rec, wrote) = Self::run_ctx(
                                    n,
                                    method,
                                    call_data,
                                    changes,
                                    &entry.state,
                                    proof_recorder,
                                    extensions,
                                );
                                if wrote {
                                    storage_transaction_cache.invalidate();
                                }
                                (res, rec)
                            },
                        }
                    },
                }
            },
            ExecutionStrategy::InterpretedOnly => {
                let (res, rec, wrote) = Self::run_ctx(
                    &self.interpreted,
                    method,
                    call_data,
                    changes,
                    &entry.state,
                    proof_recorder,
                    extensions,
                );
                if wrote {
                    storage_transaction_cache.invalidate();
                }
                (res, rec)
            },
            ExecutionStrategy::NativeElseInterpreted => {
                let native_ok = match &self.native {
                    Some(n) => n.version.is_compatible_with(&entry.declared_version),
                    None => false,
                };
                if native_ok {
                    match &self.native {
                        Some(n) => {
                            match native_call {
                                Some(NativeCallOutcome::Returns(v)) => (Ok(v), proof_recorder),
                                Some(NativeCallOutcome::Traps) => (
                                    Err(Error::ExecutionFailed),
                                    proof_recorder,
                                ),
                                None => {
                                    let (res, rec, wrote) = Self::run_ctx(
                                        n,
                                        method,
                                        call_data,
                                        changes,
                                        &entry.state,
                                        proof_recorder,
                                        extensions,
                                    );
                                    if wrote {
                                        storage_transaction_cache.invalidate();
                                    }
                                    (res, rec)
                                },
                            }
                        },
                        None => (Err(Error::NoNativeImplementation), proof_recorder),
                    }
                } else {
                    let (res, rec, wrote) = Self::run_ctx(
                        &self.interpreted,
                        method,
                        call_data,
                        changes,
                        &entry.state,
                        proof_recorder,
                        extensions,
                    );
                    if wrote {
                        storage_transaction_cache.invalidate();
                    }
                    (res, rec)
                }
            },
            ExecutionStrategy::Both(policy) => {
                let native_ok = match &self.native {
                    Some(n) => n.version.is_compatible_with(&entry.declared_version),
                    None => false,
                };
                if native_ok {
                    let native_res: Result<Vec<u8>, Error> = match native_call {
                        Some(NativeCallOutcome::Returns(v)) => Ok(v),
                        Some(NativeCallOutcome::Traps) => Err(Error::ExecutionFailed),
                        None => {
                            match &self.native {
                                Some(n) => {
                                    let mut scratch = Self::scratch_overlay(changes);
                                    let (res, _rec, _wrote) = Self::run_ctx(
                                        n,
                                        method,
                                        call_data,
                                        &mut scratch,
                                        &entry.state,
                                        None,
                                        extensions,
                                    );
                                    res
                                },
                                None => Err(Error::NoNativeImplementation),
                            }
                        },
                    };
                    let (interp_res, rec, wrote) = Self::run_ctx(
                        &self.interpreted,
                        method,
                        call_data,
                        changes,
                        &entry.state,
                        proof_recorder,
                        extensions,
                    );
                    if wrote {
                        storage_transaction_cache.invalidate();
                    }
                    (reconcile(policy, native_res, interp_res), rec)
                } else {
                    let (res, rec, wrote) = Self::run_ctx(
                        &self.interpreted,
                        method,
                        call_data,
                        changes,
                        &entry.state,
                        proof_recorder,
                        extensions,
                    );
                    if wrote {
                        storage_transaction_cache.invalidate();
                    }
                    (res, rec)
                }
            },
        }
    }

    /// Executes a call over the given trie-backed state view, mirroring every
    /// visited trie node into a storage proof returned with the result. A
    /// verifier replaying the call's reads from the proof and the root alone
    /// reproduces the same result bytes. When execution fails, the partial
    /// proof is discarded with it.
    pub fn prove_at_trie_state(
        &self,
        trie_state: &StateView,
        overlay: &mut Overlay,
        method: &Vec<u8>,
        call_data: &Vec<u8>,
    ) -> (r: Result<(Vec<u8>, StorageProof), Error>)
        requires
            trie_state.wf(),
            trie_state.trie_spec() is Some,
            old(overlay).wf(),
        ensures
            final(overlay).wf(),
            final(overlay).children@ == old(overlay).children@,
            final(overlay).top_view() == run_new_top(
                self.interpreted,
                method@,
                call_data@,
                old(overlay).top_view(),
            ),
            match r {
                Ok(p) => {
                    &&& run_result(
                        self.interpreted,
                        method@,
                        call_data@,
                        reads_over(old(overlay).top_view(), *trie_state),
                        Map::empty(),
                    ) == Ok::<Seq<u8>, Error>(p.0@)
                    &&& p.1.consistent_with(trie_state.trie_spec().unwrap())
                    &&& run_result(
                        self.interpreted,
                        method@,
                        call_data@,
                        replay_reads_over(
                            old(overlay).top_view(),
                            p.1,
                            trie_state.trie_spec().unwrap().root_id,
                        ),
                        Map::empty(),
                    ) == Ok::<Seq<u8>, Error>(p.0@)
                    &&& (p.1.root_node is Some ==> run_state_key(
                        self.interpreted,
                        method@,
                        call_data@,
                    ) is Some && !old(overlay).top_view().contains_key(
                        run_state_key(self.interpreted, method@, call_data@).unwrap(),
                    ))
                    &&& forall|j: int|
                        0 <= j < p.1.leaf_nodes@.len() ==> Some(
                            (#[trigger] p.1.leaf_nodes@[j]).0,
                        ) == dir_child(
                            trie_state.trie_spec().unwrap().root_dir@,
                            run_state_key(self.interpreted, method@, call_data@).unwrap(),
                        )
                },
                Err(e) => run_result(
                    self.interpreted,
                    method@,
                    call_data@,
                    reads_over(old(overlay).top_view(), *trie_state),
                    Map::empty(),
                ) == Err::<Seq<u8>, Error>(e),
            },
    {
        let recorder = StorageProof::empty();
        let (res, rec, _wrote) = Self::run_ctx(
            &self.interpreted,
            method,
            call_data,
            overlay,
            trie_state,
            Some(recorder),
            None,
        );
        match res {
            Ok(bytes) => {
                match rec {
                    Some(p) => Ok((bytes, p)),
                    None => Err(Error::ExecutionFailed),
                }
            },
            Err(e) => Err(e),
        }
    }

    /// Returns the version of the natively compiled implementation linked
    /// into this executor, if one is.
    pub fn native_runtime_version(&self) -> (r: Option<&RuntimeVersion>)
        ensures
            match r {
                Some(v) => self.native is Some && *v == self.native.unwrap().version,
                None => self.native is None,
            },
    {
        match &self.native {
            Some(n) => Some(&n.version),
            None => None,
        }
    }
}

impl CallExecutor for LocalCallExecutor {
    open spec fn executor_wf(&self) -> bool {
        self.wf()
    }

    open spec fn call_spec(
        &self,
        id: BlockId,
        method: Seq<u8>,
        args: Seq<u8>,
        strategy: ExecutionStrategy,
        exts: Map<Seq<u8>, Seq<u8>>,
    ) -> Result<Seq<u8>, Error> {
        call_result_spec(*self, id, method, args, strategy, exts)
    }

    open spec fn version_spec(&self, id: BlockId) -> Option<(Seq<u8>, u32, u32)> {
        match resolve_spec(self.backend.blocks@, id) {
            Some(b) => Some(
                (
                    b.declared_version.spec_name@,
                    b.declared_version.spec_version,
                    b.declared_version.impl_version,
                ),
            ),
            None => None,
        }
    }

    open spec fn native_version_spec(&self) -> Option<RuntimeVersion> {
        match self.native {
            Some(n) => Some(n.version),
            None => None,
        }
    }

    open spec fn prove_result_spec(
        &self,
        state: StateView,
        top: Map<Seq<u8>, Seq<u8>>,
        method: Seq<u8>,
        args: Seq<u8>,
    ) -> Result<Seq<u8>, Error> {
        run_result(self.interpreted, method, args, reads_over(top, state), Map::empty())
    }

    open spec fn prove_replay_spec(
        &self,
        top: Map<Seq<u8>, Seq<u8>>,
        proof: StorageProof,
        root_id: u64,
        method: Seq<u8>,
        args: Seq<u8>,
    ) -> Result<Seq<u8>, Error> {
        run_result(
            self.interpreted,
            method,
            args,
            replay_reads_over(top, proof, root_id),
            Map::empty(),
        )
    }

    open spec fn prove_new_top(
        &self,
        method: Seq<u8>,
        args: Seq<u8>,
        top: Map<Seq<u8>, Seq<u8>>,
    ) -> Map<Seq<u8>, Seq<u8>> {
        run_new_top(self.interpreted, method, args, top)
    }

    open spec fn prove_read_key(&self, method: Seq<u8>, args: Seq<u8>) -> Option<Seq<u8>> {
        run_state_key(self.interpreted, method, args)
    }

    fn call(
        &self,
        id: &BlockId,
        method: &Vec<u8>,
        call_data: &Vec<u8>,
        strategy: ExecutionStrategy,
        extensions: Option<&Extensions>,
    ) -> (r: Result<Vec<u8>, Error>) {
        LocalCallExecutor::call(self, id, method, call_data, strategy, extensions)
    }

    fn runtime_version(&self, id: &BlockId) -> (r: Result<RuntimeVersion, Error>) {
        LocalCallExecutor::runtime_version(self, id)
    }

    fn native_runtime_version(&self) -> (r: Option<&RuntimeVersion>) {
        LocalCallExecutor::native_runtime_version(self)
    }

    fn prove_at_trie_state(
        &self,
        trie_state: &StateView,
        overlay: &mut Overlay,
        method: &Vec<u8>,
        call_data: &Vec<u8>,
    ) -> (r: Result<(Vec<u8>, StorageProof), Error>) {
        LocalCallExecutor::prove_at_trie_state(self, trie_state, overlay, method, call_data)
    }
}

/// Where the native and the interpreted implementation agree on a successful
/// result for a call, `call` returns that same byte string under
/// `NativeOnly`, under `InterpretedOnly`, and under `Both` with the identity
/// reconcile.
pub proof fn lemma_strategies_agree(
    ex: LocalCallExecutor,
    id: BlockId,
    method: Seq<u8>,
    args: Seq<u8>,
    exts: Map<Seq<u8>, Seq<u8>>,
    v: Seq<u8>,
)
    requires
        resolve_spec(ex.backend.blocks@, id) is Some,
        ex.native is Some,
        version_compatible(
            ex.native.unwrap().version,
            resolve_spec(ex.backend.blocks@, id).unwrap().declared_version,
        ),
        run_result(
            ex.native.unwrap(),
            method,
            args,
            state_reads_of(resolve_spec(ex.backend.blocks@, id).unwrap().state),
            exts,
        ) == Ok::<Seq<u8>, Error>(v),
        run_result(
            ex.interpreted,
            method,
            args,
            state_reads_of(resolve_spec(ex.backend.blocks@, id).unwrap().state),
            exts,
        ) == Ok::<Seq<u8>, Error>(v),
    ensures
        call_result_spec(ex, id, method, args, ExecutionStrategy::NativeOnly, exts) == Ok::<
            Seq<u8>,
            Error,
        >(v),
        call_result_spec(ex, id, method, args, ExecutionStrategy::InterpretedOnly, exts) == Ok::<
            Seq<u8>,
            Error,
        >(v),
        call_result_spec(
            ex,
            id,
            method,
            args,
            ExecutionStrategy::Both(ReconcilePolicy::RequireAgreement),
            exts,
        ) == Ok::<Seq<u8>, Error>(v),
{
}

/// A native implementation whose spec name or spec version does not match the
/// block's declared runtime version is never invoked under
/// `NativeElseInterpreted`: the call returns exactly the interpreted result,
/// the same as under `InterpretedOnly`, whatever the native table holds.
pub proof fn lemma_incompatible_native_never_invoked(
    ex: LocalCallExecutor,
    id: BlockId,
    method: Seq<u8>,
    args: Seq<u8>,
    exts: Map<Seq<u8>, Seq<u8>>,
)
    requires
        resolve_spec(ex.backend.blocks@, id) is Some,
        ex.native matches Some(n) ==> !version_compatible(
            n.version,
            resolve_spec(ex.backend.blocks@, id).unwrap().declared_version,
        ),
    ensures
        call_result_spec(ex, id, method, args, ExecutionStrategy::NativeElseInterpreted, exts)
            == run_result(
            ex.interpreted,
            method,
            args,
            state_reads_of(resolve_spec(ex.backend.blocks@, id).unwrap().state),
            exts,
        ),
        call_result_spec(ex, id, method, args, ExecutionStrategy::NativeElseInterpreted, exts)
            == call_result_spec(ex, id, method, args, ExecutionStrategy::InterpretedOnly, exts),
{
}

/// A native fault under `Both` with the identity reconcile surfaces as the
/// typed error `ExecutionFailed`, never as an uncontrolled abort: the call is
/// total and returns exactly that error when the interpreted run succeeded.
pub proof fn lemma_native_fault_surfaces(
    ex: LocalCallExecutor,
    id: BlockId,
    method: Seq<u8>,
    args: Seq<u8>,
    exts: Map<Seq<u8>, Seq<u8>>,
)
    requires
        resolve_spec(ex.backend.blocks@, id) is Some,
        ex.native is Some,
        version_compatible(
            ex.native.unwrap().version,
            resolve_spec(ex.backend.blocks@, id).unwrap().declared_version,
        ),
        run_result(
            ex.native.unwrap(),
            method,
            args,
            state_reads_of(resolve_spec(ex.backend.blocks@, id).unwrap().state),
            exts,
        ) == Err::<Seq<u8>, Error>(Error::ExecutionFailed),
        run_result(
            ex.interpreted,
            method,
            args,
            state_reads_of(resolve_spec(ex.backend.blocks@, id).unwrap().state),
            exts,
        ) is Ok,
    ensures
        call_result_spec(
            ex,
            id,
            method,
            args,
            ExecutionStrategy::Both(ReconcilePolicy::RequireAgreement),
            exts,
        ) == Err::<Seq<u8>, Error>(Error::ExecutionFailed),
{
}

/// A contextual call that installs a header and then invokes a method that
/// echoes the in-progress header observes exactly that header.
pub proof fn lemma_installed_header_observed(
    ex: LocalCallExecutor,
    id: BlockId,
    method: Seq<u8>,
    args: Seq<u8>,
    h: Vec<u8>,
    top_before: Map<Seq<u8>, Seq<u8>>,
    exts: Map<Seq<u8>, Seq<u8>>,
)
    requires
        resolve_spec(ex.backend.blocks@, id) is Some,
        ex.interpreted.dispatch(method) == Some(MethodKind::CurrentHeader),
    ensures
        contextual_result_spec(
            ex,
            id,
            method,
            args,
            InitializeBlock::InitializeFromHeader(h),
            ExecutionStrategy::InterpretedOnly,
            None,
            top_before,
            exts,
        ) == Ok::<Seq<u8>, Error>(crate::runtime::encode_opt(Some(h@))),
{
    let top0 = init_top(InitializeBlock::InitializeFromHeader(h), top_before);
    assert(top0.contains_key(header_key_spec()));
    assert(top0[header_key_spec()] == h@);
}

} // verus!
