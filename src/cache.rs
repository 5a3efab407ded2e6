//! Compiled kernel text, keyed by kernel identity, filled on first use and
//! never invalidated.
use vstd::prelude::*;
use crate::pool_kernel::{identity_source, KernelIdentity, MaxPool2dWithIndicesBackwardEagerKernel};

verus! {

pub struct KernelCache {
    entries: Vec<(KernelIdentity, String)>,
}

impl KernelCache {
    /// The cached identities with their text, in the order they were compiled.
    pub closed spec fn entries_spec(&self) -> Seq<(KernelIdentity, Seq<char>)> {
        self.entries@.map_values(|e: (KernelIdentity, String)| (e.0, e.1@))
    }

    /// Every entry holds the text of its own identity, and identities are unique.
    pub open spec fn wf(&self) -> bool {
        &&& forall|k: int|
            0 <= k < self.entries_spec().len() ==> (#[trigger] self.entries_spec()[k]).1
                == identity_source(self.entries_spec()[k].0)
        &&& forall|a: int, b: int|
            0 <= a < b < self.entries_spec().len() ==> self.entries_spec()[a].0
                != self.entries_spec()[b].0
    }

    pub fn new() -> (r: Self)
        ensures
            r.wf(),
            r.entries_spec().len() == 0,
    {
        KernelCache { entries: Vec::new() }
    }

    /// Number of compiled kernels held.
    pub fn len(&self) -> (r: usize)
        ensures
            r == self.entries_spec().len(),
    {
        self.entries.len()
    }

    /// The text of `kernel`: the cached copy when its identity was compiled
    /// before, otherwise freshly compiled and remembered.
    pub fn get_or_compile(&mut self, kernel: &MaxPool2dWithIndicesBackwardEagerKernel) -> (r: String)
        requires
            old(self).wf(),
            kernel.valid(),
        ensures
            final(self).wf(),
            r@ == identity_source(kernel.id_spec()),
            (exists|k: int|
                0 <= k < old(self).entries_spec().len() && old(self).entries_spec()[k].0
                    == kernel.id_spec()) ==> final(self).entries_spec() == old(
                self,
            ).entries_spec(),
            (forall|k: int|
                0 <= k < old(self).entries_spec().len() ==> old(self).entries_spec()[k].0
                    != kernel.id_spec()) ==> final(self).entries_spec() == old(
                self,
            ).entries_spec().push((kernel.id_spec(), r@)),
    {
        let key = kernel.id();
        let mut k: usize = 0;
        while k < self.entries.len()
            invariant
                k <= self.entries@.len(),
                self.wf(),
                key == kernel.id_spec(),
                forall|m: int| 0 <= m < k ==> self.entries_spec()[m].0 != key,
            decreases self.entries.len() - k,
        {
            if self.entries[k].0 == key {
                assert(self.entries_spec()[k as int].0 == key);
                return self.entries[k].1.clone();
            }
            k = k + 1;
        }
        let text = kernel.source();
        let ghost before = self.entries_spec();
        self.entries.push((key, text.clone()));
        assert(self.entries_spec() =~= before.push((key, text@)));
        text
    }
}

} // verus!
