use crate::ids::HandleId;
use vstd::prelude::*;

verus! {

/// A 2D size in abstract units: the intrinsic dimensions of an image, or
/// the measured box of a container.
#[derive(Clone, Copy, Debug, PartialEq, Eq, Structural)]
pub struct Size2 {
    pub width: u32,
    pub height: u32,
}

impl Size2 {
    /// Whether either dimension vanishes: such a size is degenerate and the
    /// surface it belongs to is hidden rather than laid out.
    pub open spec fn spec_is_zero(self) -> bool {
        self.width == 0 || self.height == 0
    }

    /// The zero size, cached while no asset is loaded.
    pub fn zero() -> (r: Self)
        ensures
            r == (Size2 { width: 0, height: 0 }),
    {
        Size2 { width: 0, height: 0 }
    }
}

impl Default for Size2 {
    fn default() -> (r: Self)
        ensures
            r == (Size2 { width: 0, height: 0 }),
    {
        Size2 { width: 0, height: 0 }
    }
}

/// What the backing asset store currently holds, as handed to a pipeline
/// pass: for each handle whose data is present, the asset's natural size.
/// The store itself lives outside the pipeline; a pass only reads this.
pub struct Assets {
    entries: Vec<(HandleId, Size2)>,
}

impl Assets {
    /// Well-formed: at most one entry per handle.
    pub closed spec fn wf(self) -> bool {
        forall|i: int, j: int|
            0 <= i < j < self.entries@.len() ==> (#[trigger] self.entries@[i]).0 != (
            #[trigger] self.entries@[j]).0
    }

    /// Whether the handle denotes an asset whose data is present.
    pub closed spec fn spec_contains(self, h: HandleId) -> bool {
        exists|i: int| 0 <= i < self.entries@.len() && (#[trigger] self.entries@[i]).0 == h
    }

    /// The natural size of the present asset the handle denotes.
    pub closed spec fn spec_size(self, h: HandleId) -> Size2 {
        let i = choose|i: int|
            0 <= i < self.entries@.len() && (#[trigger] self.entries@[i]).0 == h;
        self.entries@[i].1
    }

    /// An empty snapshot: no asset data is present.
    pub fn new() -> (r: Self)
        ensures
            r.wf(),
            forall|h: HandleId| !r.spec_contains(h),
    {
        Assets { entries: Vec::new() }
    }

    fn find(&self, h: HandleId) -> (r: Option<usize>)
        ensures
            match r {
                Some(i) => i < self.entries@.len() && self.entries@[i as int].0 == h,
                None => forall|i: int|
                    0 <= i < self.entries@.len() ==> (#[trigger] self.entries@[i]).0 != h,
            },
    {
        let mut i: usize = 0;
        while i < self.entries.len()
            invariant
                i <= self.entries@.len(),
                forall|k: int| 0 <= k < i ==> (#[trigger] self.entries@[k]).0 != h,
            decreases self.entries@.len() - i,
        {
            if self.entries[i].0 == h {
                return Some(i);
            }
            i += 1;
        }
        None
    }

    /// Records the handle's data as present with the given natural size,
    /// replacing any size recorded before.
    pub fn insert(&mut self, h: HandleId, size: Size2)
        requires
            old(self).wf(),
        ensures
            final(self).wf(),
            final(self).spec_contains(h),
            final(self).spec_size(h) == size,
            forall|h2: HandleId|
                h2 != h ==> (final(self).spec_contains(h2) <==> old(self).spec_contains(h2)),
            forall|h2: HandleId|
                h2 != h && old(self).spec_contains(h2) ==> final(self).spec_size(h2) == old(
                self).spec_size(h2),
    {
        match self.find(h) {
            Some(i) => {
                let slot = &mut self.entries[i];
                *slot = (h, size);
                proof {
                    self.lemma_entry_facts(h, i as int);
                    assert forall|h2: HandleId| h2 != h implies (self.spec_contains(h2) <==> old(
                        self).spec_contains(h2)) && (old(self).spec_contains(h2)
                        ==> final(self).spec_size(h2) == old(self).spec_size(h2)) by {
                        if self.spec_contains(h2) {
                            let k = choose|k: int|
                                0 <= k < self.entries@.len() && (#[trigger] self.entries@[k]).0
                                    == h2;
                            assert(old(self).entries@[k].0 == h2);
                        }
                        if old(self).spec_contains(h2) {
                            let k = choose|k: int|
                                0 <= k < old(self).entries@.len() && (#[trigger] old(
                                self).entries@[k]).0 == h2;
                            assert(self.entries@[k].0 == h2);
                            self.lemma_entry_facts(h2, k);
                            old(self).lemma_entry_facts(h2, k);
                        }
                    }
                }
            },
            None => {
                self.entries.push((h, size));
                proof {
                    let n = old(self).entries@.len() as int;
                    self.lemma_entry_facts(h, n);
                    assert forall|h2: HandleId| h2 != h implies (self.spec_contains(h2) <==> old(
                        self).spec_contains(h2)) && (old(self).spec_contains(h2)
                        ==> final(self).spec_size(h2) == old(self).spec_size(h2)) by {
                        if self.spec_contains(h2) {
                            let k = choose|k: int|
                                0 <= k < self.entries@.len() && (#[trigger] self.entries@[k]).0
                                    == h2;
                            assert(k < n);
                            assert(old(self).entries@[k].0 == h2);
                        }
                        if old(self).spec_contains(h2) {
                            let k = choose|k: int|
                                0 <= k < old(self).entries@.len() && (#[trigger] old(
                                self).entries@[k]).0 == h2;
                            assert(self.entries@[k].0 == h2);
                            self.lemma_entry_facts(h2, k);
                            old(self).lemma_entry_facts(h2, k);
                        }
                    }
                }
            },
        }
    }

    /// Where index `i` holds the handle, the snapshot's size for the handle
    /// is the one recorded at `i`: the handle occurs nowhere else.
    proof fn lemma_entry_facts(self, h: HandleId, i: int)
        requires
            self.wf(),
            0 <= i < self.entries@.len(),
            self.entries@[i].0 == h,
        ensures
            self.spec_contains(h),
            self.spec_size(h) == self.entries@[i].1,
    {
        let k = choose|k: int|
            0 <= k < self.entries@.len() && (#[trigger] self.entries@[k]).0 == h;
        assert(k == i);
    }

    /// Whether the handle denotes an asset whose data is present.
    pub fn contains(&self, h: HandleId) -> (r: bool)
        requires
            self.wf(),
        ensures
            r == self.spec_contains(h),
    {
        self.find(h).is_some()
    }

    /// The natural size of the asset the handle denotes, where its data is
    /// present.
    pub fn get(&self, h: HandleId) -> (r: Option<Size2>)
        requires
            self.wf(),
        ensures
            match r {
                Some(s) => self.spec_contains(h) && s == self.spec_size(h),
                None => !self.spec_contains(h),
            },
    {
        match self.find(h) {
            Some(i) => {
                proof {
                    self.lemma_entry_facts(h, i as int);
                }
                Some(self.entries[i].1)
            },
            None => None,
        }
    }
}

} // verus!
