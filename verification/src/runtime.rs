//! The runtime dispatch interface this executor consumes: a versioned table
//! of methods, each with deterministic semantics over the effective storage
//! (overlay first, then the underlying state view), the in-progress header,
//! and the per-call extensions.

use vstd::prelude::*;
use crate::errors::Error;
use crate::kv::{KvList, bytes_eq, clone_bytes, bytes_range};
use crate::overlay::Overlay;
use crate::strategy::result_view;
use crate::trie::{
    StorageProof, TrieState, dir_child, leaf_at, lemma_leaf_at_all_present,
    lemma_leaf_at_some_index, opt_bytes_view, proving_read, trie_read,
};
use crate::version::RuntimeVersion;

verus! {

/// Per-call injectable capability handles, available to the runtime for one
/// invocation only.
pub struct Extensions {
    pub map: KvList,
}

impl Extensions {
    pub open spec fn wf(&self) -> bool {
        self.map.wf()
    }

    /// The capability mapping.
    pub open spec fn view(&self) -> Map<Seq<u8>, Seq<u8>> {
        self.map@
    }

    /// No capabilities.
    pub fn new() -> (r: Extensions)
        ensures
            r.wf(),
            r@ == Map::<Seq<u8>, Seq<u8>>::empty(),
    {
        Extensions { map: KvList::new() }
    }

    /// Makes a capability available under a key.
    pub fn register(&mut self, key: Vec<u8>, handle: Vec<u8>)
        requires
            old(self).wf(),
        ensures
            final(self).wf(),
            final(self)@ == old(self)@.insert(key@, handle@),
    {
        self.map.insert(key, handle);
    }
}

/// The capability mapping an optional extensions argument denotes.
pub open spec fn ext_view(e: Option<&Extensions>) -> Map<Seq<u8>, Seq<u8>> {
    match e {
        Some(x) => x@,
        None => Map::empty(),
    }
}

/// A state view as the executor consumes it from the backend: either a plain
/// mapping, or one that also exposes its trie-backed form for proof
/// generation.
pub enum StateView {
    Plain(KvList),
    TrieBacked(TrieState),
}

impl StateView {
    pub open spec fn wf(&self) -> bool {
        match self {
            StateView::Plain(kv) => kv.wf(),
            StateView::TrieBacked(t) => t.wf(),
        }
    }

    /// What a read of the key returns against this view.
    pub open spec fn value(&self, key: Seq<u8>) -> Option<Seq<u8>> {
        match self {
            StateView::Plain(kv) => {
                if kv@.contains_key(key) {
                    Some(kv@[key])
                } else {
                    None
                }
            },
            StateView::TrieBacked(t) => t.value(key),
        }
    }

    /// The trie-backed form this view exposes, if any.
    pub open spec fn trie_spec(&self) -> Option<TrieState> {
        match self {
            StateView::Plain(_) => None,
            StateView::TrieBacked(t) => Some(*t),
        }
    }
}

/// What a read of the key returns through the overlay: pending writes first,
/// the state view otherwise.
pub open spec fn effective_value(ov: Overlay, st: StateView, key: Seq<u8>) -> Option<Seq<u8>> {
    if ov.top_view().contains_key(key) {
        Some(ov.top_view()[key])
    } else {
        st.value(key)
    }
}

/// What a verifier's read of the key returns when the state view is replaced
/// by a proof and a claimed root: pending writes first, the proof otherwise.
pub open spec fn replay_effective_value(
    ov: Overlay,
    p: StorageProof,
    root_id: u64,
    key: Seq<u8>,
) -> Option<Seq<u8>> {
    if ov.top_view().contains_key(key) {
        Some(ov.top_view()[key])
    } else {
        p.replay_value(root_id, key)
    }
}

/// A read of the key through the overlay is answerable from the proof alone.
pub open spec fn replayable(ov: Overlay, t: TrieState, p: StorageProof, key: Seq<u8>) -> bool {
    ov.top_view().contains_key(key) || (p.replay_value(t.root_id, key) == t.value(key) && p.covers(
        t,
        key,
    ))
}

/// Reads a key through the overlay, falling through to the state view, and
/// mirrors any visited trie nodes into the recorder when one is threaded
/// through.
pub fn read_through(
    overlay: &Overlay,
    state: &StateView,
    recorder: Option<StorageProof>,
    key: &Vec<u8>,
) -> (r: (Option<Vec<u8>>, Option<StorageProof>))
    requires
        overlay.wf(),
        state.wf(),
        recorder matches Some(p) ==> state matches StateView::TrieBacked(t) && p.consistent_with(*t),
    ensures
        opt_bytes_view(r.0) == effective_value(*overlay, *state, key@),
        recorder is None ==> r.1 is None,
        recorder matches Some(_) ==> r.1 matches Some(p2) && (state matches StateView::TrieBacked(t)
            ==> {
            &&& p2.consistent_with(*t)
            &&& replayable(*overlay, *t, p2, key@)
            &&& forall|k: Seq<u8>|
                replayable(*overlay, *t, recorder.unwrap(), k) ==> #[trigger] replayable(
                    *overlay,
                    *t,
                    p2,
                    k,
                )
            &&& (p2.root_node is Some ==> recorder.unwrap().root_node is Some
                || !overlay.top_view().contains_key(key@))
            &&& forall|j: int|
                0 <= j < p2.leaf_nodes@.len() ==> leaf_at(
                    recorder.unwrap().leaf_nodes@,
                    (#[trigger] p2.leaf_nodes@[j]).0,
                ) is Some || (!overlay.top_view().contains_key(key@) && Some(p2.leaf_nodes@[j].0)
                    == dir_child(t.root_dir@, key@))
        }),
{
    proof {
        if recorder is Some {
            lemma_leaf_at_all_present(recorder.unwrap().leaf_nodes@);
        }
    }
    match overlay.storage(key) {
        Some(v) => (Some(v), recorder),
        None => {
            match state {
                StateView::Plain(kv) => (kv.get(key), recorder),
                StateView::TrieBacked(t) => {
                    match recorder {
                        Some(mut p) => {
                            let v = proving_read(t, &mut p, key);
                            (v, Some(p))
                        },
                        None => (trie_read(t, key), None),
                    }
                },
            }
        },
    }
}

/// What a runtime method does. The table a runtime implementation carries
/// assigns one of these to each exposed method name.
pub enum MethodKind {
    /// Returns the call data unchanged.
    Echo,
    /// Returns a fixed byte string.
    ReturnValue(Vec<u8>),
    /// Treats the call data as a key and returns the tagged effective value.
    GetStorage,
    /// Reads the same key twice and returns both tagged values concatenated;
    /// the second read revisits every trie node the first one touched.
    ReadTwice,
    /// Treats the call data as a length-prefixed key followed by a value and
    /// writes the pair into the overlay.
    SetStorage,
    /// Returns the tagged in-progress block header.
    CurrentHeader,
    /// Returns the tagged capability handle registered under the call data.
    ReadExtension,
    /// Faults.
    Trap,
}

/// The reserved storage key under which the in-progress block header is
/// installed.
pub open spec fn header_key_spec() -> Seq<u8> {
    seq![58u8, 104u8, 100u8, 114u8]
}

/// The reserved header key as call-time bytes.
pub fn header_key() -> (k: Vec<u8>)
    ensures
        k@ == header_key_spec(),
{
    let mut k: Vec<u8> = Vec::new();
    k.push(58);
    k.push(104);
    k.push(100);
    k.push(114);
    assert(k@ =~= header_key_spec());
    k
}

/// An optional value, tagged: a presence byte followed by the value itself.
pub open spec fn encode_opt(o: Option<Seq<u8>>) -> Seq<u8> {
    match o {
        Some(v) => seq![1u8] + v,
        None => seq![0u8],
    }
}

/// Tags an optional value.
pub fn encode_opt_bytes(o: Option<Vec<u8>>) -> (r: Vec<u8>)
    ensures
        r@ == encode_opt(opt_bytes_view(o)),
{
    match o {
        Some(v) => {
            let mut r: Vec<u8> = Vec::new();
            r.push(1);
            let mut i: usize = 0;
            while i < v.len()
                invariant
                    i <= v@.len(),
                    r@ == seq![1u8] + v@.subrange(0, i as int),
                decreases v@.len() - i,
            {
                r.push(v[i]);
                assert(r@ =~= seq![1u8] + v@.subrange(0, i + 1 as int));
                i = i + 1;
            }
            assert(v@.subrange(0, v@.len() as int) =~= v@);
            r
        },
        None => {
            let mut r: Vec<u8> = Vec::new();
            r.push(0);
            assert(r@ =~= encode_opt(None));
            r
        },
    }
}

/// Whether `SetStorage` call data is well formed: a length byte, that many
/// key bytes, then the value.
pub open spec fn set_args_valid(args: Seq<u8>) -> bool {
    args.len() >= 1 && args.len() >= 1 + args[0]
}

/// The key `SetStorage` call data designates.
pub open spec fn set_args_key(args: Seq<u8>) -> Seq<u8> {
    args.subrange(1, 1 + args[0])
}

/// The value `SetStorage` call data designates.
pub open spec fn set_args_value(args: Seq<u8>) -> Seq<u8> {
    args.subrange(1 + args[0], args.len() as int)
}

/// What a method invocation returns, over an abstract total read mapping and
/// the per-call capability mapping. A fault is `ExecutionFailed`.
pub open spec fn method_result(
    kind: MethodKind,
    args: Seq<u8>,
    reads: Map<Seq<u8>, Option<Seq<u8>>>,
    exts: Map<Seq<u8>, Seq<u8>>,
) -> Result<Seq<u8>, Error> {
    match kind {
        MethodKind::Echo => Ok(args),
        MethodKind::ReturnValue(v) => Ok(v@),
        MethodKind::GetStorage => Ok(encode_opt(reads[args])),
        MethodKind::ReadTwice => Ok(encode_opt(reads[args]) + encode_opt(reads[args])),
        MethodKind::SetStorage => {
            if set_args_valid(args) {
                Ok(Seq::empty())
            } else {
                Err(Error::ExecutionFailed)
            }
        },
        MethodKind::CurrentHeader => Ok(encode_opt(reads[header_key_spec()])),
        MethodKind::ReadExtension => Ok(
            encode_opt(
                if exts.contains_key(args) {
                    Some(exts[args])
                } else {
                    None
                },
            ),
        ),
        MethodKind::Trap => Err(Error::ExecutionFailed),
    }
}

/// The overlay's top mapping after a method invocation: only a well-formed
/// `SetStorage` changes it.
pub open spec fn method_new_top(
    kind: MethodKind,
    args: Seq<u8>,
    top: Map<Seq<u8>, Seq<u8>>,
) -> Map<Seq<u8>, Seq<u8>> {
    match kind {
        MethodKind::SetStorage => {
            if set_args_valid(args) {
                top.insert(set_args_key(args), set_args_value(args))
            } else {
                top
            }
        },
        _ => top,
    }
}

/// The total read mapping a call sees: overlay first, then the state view.
pub open spec fn reads_of(ov: Overlay, st: StateView) -> Map<Seq<u8>, Option<Seq<u8>>> {
    Map::new(|k: Seq<u8>| true, |k: Seq<u8>| effective_value(ov, st, k))
}

/// The total read mapping a verifier sees: overlay first, then the proof.
pub open spec fn replay_reads_of(ov: Overlay, p: StorageProof, root_id: u64) -> Map<
    Seq<u8>,
    Option<Seq<u8>>,
> {
    Map::new(|k: Seq<u8>| true, |k: Seq<u8>| replay_effective_value(ov, p, root_id, k))
}

/// Runs one method. Reads go through the overlay into the state view, writes
/// land in the overlay, and when a recorder is threaded through every visited
/// trie node is mirrored into it, so that the returned proof replays the
/// result.
pub fn invoke(
    kind: &MethodKind,
    args: &Vec<u8>,
    overlay: &mut Overlay,
    state: &StateView,
    recorder: Option<StorageProof>,
    extensions: Option<&Extensions>,
) -> (out: (Result<Vec<u8>, Error>, Option<StorageProof>))
    requires
        old(overlay).wf(),
        state.wf(),
        extensions matches Some(e) ==> e.wf(),
        recorder matches Some(p) ==> state matches StateView::TrieBacked(t) && p.consistent_with(*t),
    ensures
        final(overlay).wf(),
        result_view(out.0) == method_result(
            *kind,
            args@,
            reads_of(*old(overlay), *state),
            ext_view(extensions),
        ),
        final(overlay).top_view() == method_new_top(*kind, args@, old(overlay).top_view()),
        final(overlay).children@ == old(overlay).children@,
        recorder is None ==> out.1 is None,
        recorder matches Some(_) ==> out.1 matches Some(p2) && (state matches StateView::TrieBacked(
            t,
        ) ==> {
            &&& p2.consistent_with(*t)
            &&& method_result(
                *kind,
                args@,
                replay_reads_of(*old(overlay), p2, t.root_id),
                ext_view(extensions),
            ) == result_view(out.0)
            &&& (p2.root_node is Some ==> recorder.unwrap().root_node is Some || (
            method_state_key(*kind, args@) matches Some(sk) && !old(
                overlay,
            ).top_view().contains_key(sk)))
            &&& forall|j: int|
                0 <= j < p2.leaf_nodes@.len() ==> leaf_at(
                    recorder.unwrap().leaf_nodes@,
                    (#[trigger] p2.leaf_nodes@[j]).0,
                ) is Some || (method_state_key(*kind, args@) matches Some(sk) && !old(
                    overlay,
                ).top_view().contains_key(sk) && Some(p2.leaf_nodes@[j].0) == dir_child(
                    t.root_dir@,
                    sk,
                ))
        }),
{
    proof {
        if recorder is Some {
            lemma_leaf_at_all_present(recorder.unwrap().leaf_nodes@);
        }
    }
    match kind {
        MethodKind::Echo => (Ok(clone_bytes(args)), recorder),
        MethodKind::ReturnValue(v) => (Ok(clone_bytes(v)), recorder),
        MethodKind::GetStorage => {
            let (v, rec) = read_through(overlay, state, recorder, args);
            (Ok(encode_opt_bytes(v)), rec)
        },
        MethodKind::ReadTwice => {
            let ghost rec0 = recorder;
            let (v1, rec1) = read_through(overlay, state, recorder, args);
            let (v2, rec2) = read_through(overlay, state, rec1, args);
            proof {
                if rec0 is Some && state is TrieBacked {
                    let t = state->TrieBacked_0;
                    let p1 = rec1.unwrap();
                    let p2 = rec2.unwrap();
                    assert forall|j: int|
                        0 <= j < p2.leaf_nodes@.len() implies leaf_at(
                        rec0.unwrap().leaf_nodes@,
                        (#[trigger] p2.leaf_nodes@[j]).0,
                    ) is Some || (!old(overlay).top_view().contains_key(args@) && Some(
                        p2.leaf_nodes@[j].0,
                    ) == dir_child(t.root_dir@, args@)) by {
                        if leaf_at(p1.leaf_nodes@, p2.leaf_nodes@[j].0) is Some {
                            lemma_leaf_at_some_index(p1.leaf_nodes@, p2.leaf_nodes@[j].0);
                            let i = choose|i: int|
                                0 <= i < p1.leaf_nodes@.len() && (#[trigger] p1.leaf_nodes@[i]).0
                                    == p2.leaf_nodes@[j].0;
                            assert(leaf_at(rec0.unwrap().leaf_nodes@, p1.leaf_nodes@[i].0) is Some
                                || (!old(overlay).top_view().contains_key(args@) && Some(
                                p1.leaf_nodes@[i].0,
                            ) == dir_child(t.root_dir@, args@)));
                        }
                    }
                }
            }
            let mut r = encode_opt_bytes(v1);
            let mut r2 = encode_opt_bytes(v2);
            r.append(&mut r2);
            (Ok(r), rec2)
        },
        MethodKind::SetStorage => {
            if args.len() < 1 {
                return (Err(Error::ExecutionFailed), recorder);
            }
            let n = args[0] as usize;
            if args.len() < 1 + n {
                return (Err(Error::ExecutionFailed), recorder);
            }
            let key = bytes_range(args, 1, 1 + n);
            let value = bytes_range(args, 1 + n, args.len());
            overlay.set_storage(key, value);
            (Ok(Vec::new()), recorder)
        },
        MethodKind::CurrentHeader => {
            let hk = header_key();
            let (v, rec) = read_through(overlay, state, recorder, &hk);
            (Ok(encode_opt_bytes(v)), rec)
        },
        MethodKind::ReadExtension => {
            let v: Option<Vec<u8>> = match extensions {
                Some(e) => e.map.get(args),
                None => None,
            };
            (Ok(encode_opt_bytes(v)), recorder)
        },
        MethodKind::Trap => (Err(Error::ExecutionFailed), recorder),
    }
}

/// A versioned runtime implementation: the methods it exposes, by name.
pub struct RuntimeImpl {
    pub version: RuntimeVersion,
    pub methods: Vec<(Vec<u8>, MethodKind)>,
}

/// The behavior the first table entry matching the name assigns.
pub open spec fn method_of(ms: Seq<(Vec<u8>, MethodKind)>, name: Seq<u8>) -> Option<MethodKind>
    decreases ms.len(),
{
    if ms.len() == 0 {
        None
    } else if ms[0].0@ == name {
        Some(ms[0].1)
    } else {
        method_of(ms.drop_first(), name)
    }
}

/// A method table with each name read as its byte sequence.
pub open spec fn table_views(ms: Seq<(Vec<u8>, MethodKind)>) -> Seq<(Seq<u8>, MethodKind)> {
    ms.map_values(|e: (Vec<u8>, MethodKind)| (e.0@, e.1))
}

/// Dispatch over a table's views.
pub open spec fn method_of_v(ms: Seq<(Seq<u8>, MethodKind)>, name: Seq<u8>) -> Option<MethodKind>
    decreases ms.len(),
{
    if ms.len() == 0 {
        None
    } else if ms[0].0 == name {
        Some(ms[0].1)
    } else {
        method_of_v(ms.drop_first(), name)
    }
}

/// Dispatch depends on the table's views alone.
pub proof fn lemma_method_of_views(ms: Seq<(Vec<u8>, MethodKind)>, name: Seq<u8>)
    ensures
        method_of(ms, name) == method_of_v(table_views(ms), name),
    decreases ms.len(),
{
    if ms.len() > 0 {
        assert(table_views(ms).drop_first() =~= table_views(ms.drop_first()));
        lemma_method_of_views(ms.drop_first(), name);
    }
}

/// The key a method reads from storage through the overlay, if it reads one.
pub open spec fn method_state_key(kind: MethodKind, args: Seq<u8>) -> Option<Seq<u8>> {
    match kind {
        MethodKind::GetStorage => Some(args),
        MethodKind::ReadTwice => Some(args),
        MethodKind::CurrentHeader => Some(header_key_spec()),
        _ => None,
    }
}

impl RuntimeImpl {
    /// The behavior this implementation assigns to a method name.
    pub open spec fn dispatch(&self, name: Seq<u8>) -> Option<MethodKind> {
        method_of(self.methods@, name)
    }

    /// Finds the method's behavior in the table.
    pub fn find_method(&self, name: &Vec<u8>) -> (r: Option<&MethodKind>)
        ensures
            match r {
                Some(k) => self.dispatch(name@) == Some(*k),
                None => self.dispatch(name@) is None,
            },
    {
        let mut i: usize = 0;
        proof {
            assert(self.methods@.skip(0) =~= self.methods@);
        }
        while i < self.methods.len()
            invariant
                i <= self.methods@.len(),
                method_of(self.methods@, name@) == method_of(self.methods@.skip(i as int), name@),
            decreases self.methods@.len() - i,
        {
            proof {
                assert(self.methods@.skip(i as int)[0] == self.methods@[i as int]);
                assert(self.methods@.skip(i as int).drop_first() =~= self.methods@.skip(
                    i + 1 as int,
                ));
            }
            if bytes_eq(&self.methods[i].0, name) {
                return Some(&self.methods[i].1);
            }
            i = i + 1;
        }
        proof {
            assert(self.methods@.skip(self.methods@.len() as int).len() == 0);
        }
        None
    }
}

} // verus!
