//! Execution strategies and the reconciliation policy applied when both the
//! native and the interpreted implementation run.

use vstd::prelude::*;
use crate::errors::Error;
use crate::kv::bytes_eq;

verus! {

/// How divergence between the two implementations is resolved when both run.
/// Every policy is a pure function of the two candidate results, so repeated
/// reconciliation of identical inputs yields identical output.
#[derive(Clone, Copy, PartialEq, Eq, Structural, Debug)]
pub enum ReconcilePolicy {
    /// The identity reconcile: accept a result both sides agree on, surface a
    /// one-sided fault as that fault, and report any genuine divergence of
    /// two successful results as `ExecutionMismatch`.
    RequireAgreement,
    /// Take the native result when it succeeded, else the interpreted one.
    PreferNative,
    /// Take the interpreted result when it succeeded, else the native one.
    PreferInterpreted,
}

/// Which implementation(s) to run for a call.
#[derive(Clone, Copy, PartialEq, Eq, Structural, Debug)]
pub enum ExecutionStrategy {
    /// Require a native implementation; fail `NoNativeImplementation` if absent.
    NativeOnly,
    /// Run native if present and version-compatible, else fall back to interpreted.
    NativeElseInterpreted,
    /// Always run the interpreted implementation, even if a native one is linked.
    InterpretedOnly,
    /// Run interpreted always, native when present and compatible, and
    /// reconcile the two results under the carried policy.
    Both(ReconcilePolicy),
}

/// View of an executable call result as a mathematical one.
pub open spec fn result_view(r: Result<Vec<u8>, Error>) -> Result<Seq<u8>, Error> {
    match r {
        Ok(v) => Ok(v@),
        Err(e) => Err(e),
    }
}

/// What reconciliation returns for a native result `n` and an interpreted
/// result `i`.
pub open spec fn reconcile_spec(
    policy: ReconcilePolicy,
    n: Result<Seq<u8>, Error>,
    i: Result<Seq<u8>, Error>,
) -> Result<Seq<u8>, Error> {
    match policy {
        ReconcilePolicy::RequireAgreement => {
            if n == i {
                n
            } else if n is Err {
                n
            } else if i is Err {
                i
            } else {
                Err(Error::ExecutionMismatch)
            }
        },
        ReconcilePolicy::PreferNative => if n is Ok { n } else { i },
        ReconcilePolicy::PreferInterpreted => if i is Ok { i } else { n },
    }
}

/// Resolves a native result and an interpreted result into the authoritative
/// one. This is the only place divergence is resolved.
pub fn reconcile(
    policy: ReconcilePolicy,
    native: Result<Vec<u8>, Error>,
    interpreted: Result<Vec<u8>, Error>,
) -> (r: Result<Vec<u8>, Error>)
    ensures
        result_view(r) == reconcile_spec(policy, result_view(native), result_view(interpreted)),
{
    match policy {
        ReconcilePolicy::RequireAgreement => {
            match (native, interpreted) {
                (Ok(nv), Ok(iv)) => {
                    if bytes_eq(&nv, &iv) {
                        Ok(nv)
                    } else {
                        Err(Error::ExecutionMismatch)
                    }
                },
                (Err(ne), _) => Err(ne),
                (Ok(_), Err(ie)) => Err(ie),
            }
        },
        ReconcilePolicy::PreferNative => {
            match native {
                Ok(nv) => Ok(nv),
                Err(_) => interpreted,
            }
        },
        ReconcilePolicy::PreferInterpreted => {
            match interpreted {
                Ok(iv) => Ok(iv),
                Err(_) => native,
            }
        },
    }
}

/// Reconciliation is deterministic: the same pair of native and interpreted
/// outputs reconciles to the same authoritative result every time it is
/// resolved, under every policy.
pub proof fn lemma_reconcile_deterministic(
    policy: ReconcilePolicy,
    n1: Result<Seq<u8>, Error>,
    i1: Result<Seq<u8>, Error>,
    n2: Result<Seq<u8>, Error>,
    i2: Result<Seq<u8>, Error>,
)
    requires
        n1 == n2,
        i1 == i2,
    ensures
        reconcile_spec(policy, n1, i1) == reconcile_spec(policy, n2, i2),
{
}

/// When both implementations agree on a successful result, every policy
/// returns exactly that result.
pub proof fn lemma_reconcile_agreement(policy: ReconcilePolicy, v: Seq<u8>)
    ensures
        reconcile_spec(policy, Ok(v), Ok(v)) == Ok::<Seq<u8>, Error>(v),
{
}

} // verus!
