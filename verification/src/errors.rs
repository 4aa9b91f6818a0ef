//! The error taxonomy of call execution. Every failure is surfaced to the
//! caller as one of these variants; nothing is retried or swallowed.

use vstd::prelude::*;

verus! {

/// Why a call could not produce a result.
#[derive(Clone, Copy, PartialEq, Eq, Structural, Debug)]
pub enum Error {
    /// The block reference could not be resolved to a state view.
    InvalidBlock,
    /// The runtime at the block does not expose the requested method.
    MethodNotFound,
    /// The strategy demanded a native implementation and none is linked.
    NoNativeImplementation,
    /// A trap or fault inside either implementation, normalized the same way
    /// whether it came from the native or the interpreted path.
    ExecutionFailed,
    /// Both implementations ran and reconciliation yielded no agreed result.
    ExecutionMismatch,
    /// A proof was requested over a state that exposes no trie-backed view.
    UnableToGenerateProof,
}

impl Error {
    /// A short human-readable name for the variant.
    pub fn describe(&self) -> (s: &'static str)
        ensures
            s@ == match self {
                Error::InvalidBlock => "invalid block reference"@,
                Error::MethodNotFound => "method not found in runtime"@,
                Error::NoNativeImplementation => "no native implementation linked"@,
                Error::ExecutionFailed => "execution trapped"@,
                Error::ExecutionMismatch => "native and interpreted results disagree"@,
                Error::UnableToGenerateProof => "state is not trie-backed"@,
            },
    {
        match self {
            Error::InvalidBlock => "invalid block reference",
            Error::MethodNotFound => "method not found in runtime",
            Error::NoNativeImplementation => "no native implementation linked",
            Error::ExecutionFailed => "execution trapped",
            Error::ExecutionMismatch => "native and interpreted results disagree",
            Error::UnableToGenerateProof => "state is not trie-backed",
        }
    }
}

} // verus!
