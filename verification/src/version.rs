//! Runtime version descriptors and the compatibility rule that decides when a
//! native implementation may stand in for the on-chain one.

use vstd::prelude::*;

verus! {

/// The version a runtime implementation advertises: a spec name, a spec
/// version, an implementation version, and the API identifiers it supports,
/// each with its own version.
pub struct RuntimeVersion {
    pub spec_name: Vec<u8>,
    pub spec_version: u32,
    pub impl_version: u32,
    pub apis: Vec<(u32, u32)>,
}

/// Two versions describe the same protocol when their spec name and spec
/// version agree; implementation versions are tolerated to differ, a native
/// binary being a faster equivalent rather than a different protocol.
pub open spec fn version_compatible(a: RuntimeVersion, b: RuntimeVersion) -> bool {
    a.spec_name@ == b.spec_name@ && a.spec_version == b.spec_version
}

impl RuntimeVersion {
    /// Decides whether this version can substitute for `other`.
    pub fn is_compatible_with(&self, other: &RuntimeVersion) -> (r: bool)
        ensures
            r == version_compatible(*self, *other),
    {
        crate::kv::bytes_eq(&self.spec_name, &other.spec_name) && self.spec_version == other.spec_version
    }

    /// Copies the descriptor.
    pub fn duplicate(&self) -> (r: RuntimeVersion)
        ensures
            r.spec_name@ == self.spec_name@,
            r.spec_version == self.spec_version,
            r.impl_version == self.impl_version,
            r.apis@ == self.apis@,
    {
        let mut apis: Vec<(u32, u32)> = Vec::new();
        let mut i: usize = 0;
        while i < self.apis.len()
            invariant
                i <= self.apis@.len(),
                apis@ == self.apis@.subrange(0, i as int),
            decreases self.apis@.len() - i,
        {
            apis.push(self.apis[i]);
            assert(apis@ =~= self.apis@.subrange(0, i + 1 as int));
            i = i + 1;
        }
        assert(self.apis@.subrange(0, self.apis@.len() as int) =~= self.apis@);
        RuntimeVersion {
            spec_name: crate::kv::clone_bytes(&self.spec_name),
            spec_version: self.spec_version,
            impl_version: self.impl_version,
            apis,
        }
    }
}

} // verus!
