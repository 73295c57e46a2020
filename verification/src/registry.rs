use crate::ids::{EntityId, HandleId};
use vstd::prelude::*;

verus! {

/// Holds where a sequence of identifiers has no repeated element.
pub open spec fn distinct_seq(s: Seq<u64>) -> bool {
    forall|i: int, j: int| 0 <= i < j < s.len() ==> s[i] != s[j]
}

/// The process-wide reverse index from resolved resource handle to the set
/// of widget entities currently bound to that handle.  A missing bucket
/// reads as an empty set; empty buckets may be retained.
pub struct ImageRegistry {
    buckets: Vec<(HandleId, Vec<EntityId>)>,
}

impl ImageRegistry {
    /// Well-formed: one bucket per handle, no entity twice in a bucket.
    pub closed spec fn wf(self) -> bool {
        &&& forall|i: int, j: int|
            0 <= i < j < self.buckets@.len() ==> (#[trigger] self.buckets@[i]).0 != (
            #[trigger] self.buckets@[j]).0
        &&& forall|i: int|
            0 <= i < self.buckets@.len() ==> distinct_seq((#[trigger] self.buckets@[i]).1@)
    }

    /// Whether a bucket exists for the handle, empty or not.
    pub closed spec fn has_bucket(self, h: HandleId) -> bool {
        exists|i: int| 0 <= i < self.buckets@.len() && (#[trigger] self.buckets@[i]).0 == h
    }

    /// Whether the entity is registered under the handle.
    pub closed spec fn contains_entry(self, h: HandleId, e: EntityId) -> bool {
        exists|i: int|
            0 <= i < self.buckets@.len() && (#[trigger] self.buckets@[i]).0 == h
                && self.buckets@[i].1@.contains(e)
    }

    /// An empty registry, as the process starts with.
    pub fn new() -> (r: Self)
        ensures
            r.wf(),
            forall|h: HandleId| !r.has_bucket(h),
            forall|h: HandleId, e: EntityId| !r.contains_entry(h, e),
    {
        ImageRegistry { buckets: Vec::new() }
    }

    fn find_bucket(&self, h: HandleId) -> (r: Option<usize>)
        ensures
            match r {
                Some(i) => i < self.buckets@.len() && self.buckets@[i as int].0 == h,
                None => forall|i: int|
                    0 <= i < self.buckets@.len() ==> (#[trigger] self.buckets@[i]).0 != h,
            },
    {
        let mut i: usize = 0;
        while i < self.buckets.len()
            invariant
                i <= self.buckets@.len(),
                forall|k: int| 0 <= k < i ==> (#[trigger] self.buckets@[k]).0 != h,
            decreases self.buckets@.len() - i,
        {
            if self.buckets[i].0 == h {
                return Some(i);
            }
            i += 1;
        }
        None
    }

    /// Registers the entity under the handle, creating the bucket on demand;
    /// every other registration is left as it was.
    pub fn insert_entity(&mut self, h: HandleId, e: EntityId)
        requires
            old(self).wf(),
        ensures
            final(self).wf(),
            final(self).contains_entry(h, e),
            forall|h2: HandleId, e2: EntityId|
                !(h2 == h && e2 == e) ==> (final(self).contains_entry(h2, e2) <==> old(
                self).contains_entry(h2, e2)),
            forall|h2: HandleId|
                final(self).has_bucket(h2) <==> (old(self).has_bucket(h2) || h2 == h),
    {
        match self.find_bucket(h) {
            Some(i) => {
                if !vec_contains(&self.buckets[i].1, e) {
                    let bucket = &mut self.buckets[i].1;
                    bucket.push(e);
                }
                proof {
                    assert(self.buckets@[i as int].1@.contains(e)) by {
                        if old(self).buckets@[i as int].1@.contains(e) {
                            let k = choose|k: int|
                                0 <= k < old(self).buckets@[i as int].1@.len() && old(
                                self).buckets@[i as int].1@[k] == e;
                            assert(self.buckets@[i as int].1@[k] == e);
                        } else {
                            let n = old(self).buckets@[i as int].1@.len() as int;
                            assert(self.buckets@[i as int].1@[n] == e);
                        }
                    }
                    assert forall|h2: HandleId|
                        self.has_bucket(h2) <==> (old(self).has_bucket(h2) || h2 == h) by {
                        assert(old(self).buckets@[i as int].0 == h);
                        if self.has_bucket(h2) {
                            let k = choose|k: int|
                                0 <= k < self.buckets@.len() && (#[trigger] self.buckets@[k]).0
                                    == h2;
                            assert(old(self).buckets@[k].0 == h2);
                        }
                        if old(self).has_bucket(h2) {
                            let k = choose|k: int|
                                0 <= k < old(self).buckets@.len() && (#[trigger] old(
                                self).buckets@[k]).0 == h2;
                            assert(self.buckets@[k].0 == h2);
                        }
                    }
                    assert forall|h2: HandleId, e2: EntityId|
                        !(h2 == h && e2 == e) implies (self.contains_entry(h2, e2) <==> old(
                        self).contains_entry(h2, e2)) by {
                        let ob = old(self).buckets@[i as int].1@;
                        let nb = self.buckets@[i as int].1@;
                        if self.contains_entry(h2, e2) {
                            let k = choose|k: int|
                                0 <= k < self.buckets@.len() && (#[trigger] self.buckets@[k]).0
                                    == h2 && self.buckets@[k].1@.contains(e2);
                            if k != i {
                                assert(old(self).buckets@[k] == self.buckets@[k]);
                            } else {
                                let m = choose|m: int| 0 <= m < nb.len() && nb[m] == e2;
                                assert(m < ob.len() ==> ob[m] == e2);
                                assert(ob.contains(e2));
                                assert(old(self).contains_entry(h2, e2));
                            }
                        }
                        if old(self).contains_entry(h2, e2) {
                            let k = choose|k: int|
                                0 <= k < old(self).buckets@.len() && (#[trigger] old(
                                self).buckets@[k]).0 == h2 && old(self).buckets@[k].1@.contains(
                                e2);
                            if k != i {
                                assert(old(self).buckets@[k] == self.buckets@[k]);
                            } else {
                                let m = choose|m: int| 0 <= m < ob.len() && ob[m] == e2;
                                assert(nb[m] == e2);
                                assert(self.contains_entry(h2, e2));
                            }
                        }
                    }
                }
            },
            None => {
                let mut bucket: Vec<EntityId> = Vec::new();
                bucket.push(e);
                self.buckets.push((h, bucket));
                proof {
                    let n = old(self).buckets@.len() as int;
                    assert(self.buckets@[n].0 == h && self.buckets@[n].1@[0] == e);
                    assert(self.buckets@[n].1@.contains(e));
                    assert forall|h2: HandleId|
                        self.has_bucket(h2) <==> (old(self).has_bucket(h2) || h2 == h) by {
                        if self.has_bucket(h2) {
                            let k = choose|k: int|
                                0 <= k < self.buckets@.len() && (#[trigger] self.buckets@[k]).0
                                    == h2;
                            if k < n {
                                assert(old(self).buckets@[k].0 == h2);
                            }
                        }
                        if old(self).has_bucket(h2) {
                            let k = choose|k: int|
                                0 <= k < old(self).buckets@.len() && (#[trigger] old(
                                self).buckets@[k]).0 == h2;
                            assert(self.buckets@[k].0 == h2);
                        }
                        if h2 == h {
                            assert(self.buckets@[n].0 == h2);
                        }
                    }
                    assert forall|h2: HandleId, e2: EntityId|
                        !(h2 == h && e2 == e) implies (self.contains_entry(h2, e2) <==> old(
                        self).contains_entry(h2, e2)) by {
                        if self.contains_entry(h2, e2) {
                            let i = choose|i: int|
                                0 <= i < self.buckets@.len() && (#[trigger] self.buckets@[i]).0
                                    == h2 && self.buckets@[i].1@.contains(e2);
                            if i < n {
                                assert(old(self).buckets@[i] == self.buckets@[i]);
                            } else {
                                assert(self.buckets@[i].1@ =~= seq![e]);
                            }
                        }
                        if old(self).contains_entry(h2, e2) {
                            let i = choose|i: int|
                                0 <= i < old(self).buckets@.len() && (#[trigger] old(
                                self).buckets@[i]).0 == h2 && old(self).buckets@[i].1@.contains(
                                e2);
                            assert(self.buckets@[i] == old(self).buckets@[i]);
                        }
                    }
                }
            },
        }
    }

    /// Strikes the entity from the bucket of the handle, if both exist;
    /// the bucket itself and every other registration are left as they were.
    pub fn remove_entity(&mut self, h: HandleId, e: EntityId)
        requires
            old(self).wf(),
        ensures
            final(self).wf(),
            !final(self).contains_entry(h, e),
            forall|h2: HandleId, e2: EntityId|
                !(h2 == h && e2 == e) ==> (final(self).contains_entry(h2, e2) <==> old(
                self).contains_entry(h2, e2)),
            forall|h2: HandleId| final(self).has_bucket(h2) <==> old(self).has_bucket(h2),
    {
        match self.find_bucket(h) {
            None => {
                proof {
                    assert(!self.contains_entry(h, e));
                }
            },
            Some(i) => {
                match find_in_vec(&self.buckets[i].1, e) {
                    None => {
                        proof {
                            assert forall|k: int|
                                0 <= k < self.buckets@.len() && (#[trigger] self.buckets@[k]).0
                                    == h implies !self.buckets@[k].1@.contains(e) by {
                                assert(k == i);
                            }
                        }
                    },
                    Some(j) => {
                        let bucket = &mut self.buckets[i].1;
                        let _ = bucket.swap_remove(j);
                        proof {
                            let ob = old(self).buckets@[i as int].1@;
                            let nb = self.buckets@[i as int].1@;
                            assert(nb =~= ob.update(j as int, ob.last()).drop_last());
                            assert forall|k: int| 0 <= k < nb.len() implies nb[k] != e by {
                                if k == j {
                                    assert(nb[k] == ob[ob.len() - 1]);
                                } else {
                                    assert(nb[k] == ob[k]);
                                }
                            }
                            assert(distinct_seq(nb)) by {
                                assert forall|a: int, b: int|
                                    0 <= a < b < nb.len() implies nb[a] != nb[b] by {
                                    if a == j {
                                        assert(nb[a] == ob[ob.len() - 1] && nb[b] == ob[b]);
                                    } else if b == j {
                                        assert(nb[b] == ob[ob.len() - 1] && nb[a] == ob[a]);
                                    } else {
                                        assert(nb[a] == ob[a] && nb[b] == ob[b]);
                                    }
                                }
                            }
                            assert forall|h2: HandleId|
                                self.has_bucket(h2) <==> old(self).has_bucket(h2) by {
                                if self.has_bucket(h2) {
                                    let k = choose|k: int|
                                        0 <= k < self.buckets@.len() && (
                                        #[trigger] self.buckets@[k]).0 == h2;
                                    assert(old(self).buckets@[k].0 == h2);
                                }
                                if old(self).has_bucket(h2) {
                                    let k = choose|k: int|
                                        0 <= k < old(self).buckets@.len() && (#[trigger] old(
                                        self).buckets@[k]).0 == h2;
                                    assert(self.buckets@[k].0 == h2);
                                }
                            }
                            assert forall|h2: HandleId, e2: EntityId|
                                !(h2 == h && e2 == e) implies (self.contains_entry(h2, e2)
                                <==> old(self).contains_entry(h2, e2)) by {
                                if h2 != h {
                                    if self.contains_entry(h2, e2) {
                                        let k = choose|k: int|
                                            0 <= k < self.buckets@.len() && (
                                            #[trigger] self.buckets@[k]).0 == h2
                                                && self.buckets@[k].1@.contains(e2);
                                        assert(self.buckets@[k] == old(self).buckets@[k]);
                                    }
                                    if old(self).contains_entry(h2, e2) {
                                        let k = choose|k: int|
                                            0 <= k < old(self).buckets@.len() && (#[trigger] old(
                                            self).buckets@[k]).0 == h2 && old(
                                            self).buckets@[k].1@.contains(e2);
                                        assert(self.buckets@[k] == old(self).buckets@[k]);
                                    }
                                } else if e2 != e {
                                    if self.contains_entry(h2, e2) {
                                        let k = choose|k: int|
                                            0 <= k < nb.len() && nb[k] == e2;
                                        if k == j {
                                            assert(ob[ob.len() - 1] == e2);
                                        } else {
                                            assert(ob[k] == e2);
                                        }
                                        assert(old(self).buckets@[i as int].1@.contains(e2));
                                    }
                                    if old(self).contains_entry(h2, e2) {
                                        let k0 = choose|k: int|
                                            0 <= k < old(self).buckets@.len() && (#[trigger] old(
                                            self).buckets@[k]).0 == h2 && old(
                                            self).buckets@[k].1@.contains(e2);
                                        assert(k0 == i);
                                        let k = choose|k: int| 0 <= k < ob.len() && ob[k] == e2;
                                        assert(k != j);
                                        if k == ob.len() - 1 {
                                            assert(nb[j as int] == e2);
                                        } else {
                                            assert(nb[k] == e2);
                                        }
                                        assert(self.buckets@[i as int].1@.contains(e2));
                                    }
                                }
                            }
                        }
                    },
                }
            },
        }
    }

    /// Takes the whole bucket of the handle out of the registry, handing
    /// back the entities that were registered under it.
    pub fn remove_bucket(&mut self, h: HandleId) -> (r: Option<Vec<EntityId>>)
        requires
            old(self).wf(),
        ensures
            final(self).wf(),
            r is Some <==> old(self).has_bucket(h),
            match r {
                Some(b) => distinct_seq(b@) && forall|e: EntityId|
                    b@.contains(e) <==> old(self).contains_entry(h, e),
                None => true,
            },
            !final(self).has_bucket(h),
            forall|e: EntityId| !final(self).contains_entry(h, e),
            forall|h2: HandleId, e2: EntityId|
                h2 != h ==> (final(self).contains_entry(h2, e2) <==> old(self).contains_entry(
                h2, e2)),
            forall|h2: HandleId|
                h2 != h ==> (final(self).has_bucket(h2) <==> old(self).has_bucket(h2)),
    {
        match self.find_bucket(h) {
            None => None,
            Some(i) => {
                let pair = self.buckets.swap_remove(i);
                proof {
                    let os = old(self).buckets@;
                    let ns = self.buckets@;
                    assert(ns =~= os.update(i as int, os.last()).drop_last());
                    assert forall|k: int|
                        0 <= k < ns.len() implies (#[trigger] ns[k]).0 != h by {
                        if k == i {
                            assert(ns[k] == os[os.len() - 1]);
                        } else {
                            assert(ns[k] == os[k]);
                        }
                    }
                    assert forall|h2: HandleId, e2: EntityId|
                        h2 != h implies (self.contains_entry(h2, e2) <==> old(
                        self).contains_entry(h2, e2)) by {
                        if self.contains_entry(h2, e2) {
                            let k = choose|k: int|
                                0 <= k < ns.len() && (#[trigger] ns[k]).0 == h2
                                    && ns[k].1@.contains(e2);
                            if k == i {
                                assert(os[os.len() - 1] == ns[k]);
                            } else {
                                assert(os[k] == ns[k]);
                            }
                        }
                        if old(self).contains_entry(h2, e2) {
                            let k = choose|k: int|
                                0 <= k < os.len() && (#[trigger] os[k]).0 == h2
                                    && os[k].1@.contains(e2);
                            assert(k != i);
                            if k == os.len() - 1 {
                                assert(ns[i as int] == os[k]);
                            } else {
                                assert(ns[k] == os[k]);
                            }
                        }
                    }
                    assert forall|h2: HandleId|
                        h2 != h implies (self.has_bucket(h2) <==> old(self).has_bucket(
                        h2)) by {
                        if self.has_bucket(h2) {
                            let k = choose|k: int|
                                0 <= k < ns.len() && (#[trigger] ns[k]).0 == h2;
                            if k == i {
                                assert(os[os.len() - 1].0 == h2);
                            } else {
                                assert(os[k].0 == h2);
                            }
                        }
                        if old(self).has_bucket(h2) {
                            let k = choose|k: int|
                                0 <= k < os.len() && (#[trigger] os[k]).0 == h2;
                            assert(k != i);
                            if k == os.len() - 1 {
                                assert(ns[i as int].0 == h2);
                            } else {
                                assert(ns[k].0 == h2);
                            }
                        }
                    }
                    assert forall|e: EntityId|
                        pair.1@.contains(e) <==> old(self).contains_entry(h, e) by {
                        if old(self).contains_entry(h, e) {
                            let k = choose|k: int|
                                0 <= k < os.len() && (#[trigger] os[k]).0 == h
                                    && os[k].1@.contains(e);
                            assert(k == i);
                        }
                    }
                }
                Some(pair.1)
            },
        }
    }

    /// Looks the bucket of a handle up; a missing bucket reads as empty.
    pub fn get_bucket(&self, h: HandleId) -> (r: Option<&Vec<EntityId>>)
        requires
            self.wf(),
        ensures
            match r {
                Some(b) => distinct_seq(b@) && forall|e: EntityId|
                    b@.contains(e) <==> self.contains_entry(h, e),
                None => !self.has_bucket(h) && forall|e: EntityId| !self.contains_entry(h, e),
            },
    {
        match self.find_bucket(h) {
            None => None,
            Some(i) => {
                proof {
                    assert forall|e: EntityId|
                        self.buckets@[i as int].1@.contains(e) <==> self.contains_entry(
                        h, e) by {
                        if self.contains_entry(h, e) {
                            let k = choose|k: int|
                                0 <= k < self.buckets@.len() && (#[trigger] self.buckets@[k]).0
                                    == h && self.buckets@[k].1@.contains(e);
                            assert(k == i);
                        }
                    }
                }
                Some(&self.buckets[i].1)
            },
        }
    }
}

impl Default for ImageRegistry {
    fn default() -> (r: Self)
        ensures
            r.wf(),
            forall|h: HandleId| !r.has_bucket(h),
            forall|h: HandleId, e: EntityId| !r.contains_entry(h, e),
    {
        ImageRegistry::new()
    }
}

/// Whether the identifier occurs in the vector.
fn vec_contains(v: &Vec<u64>, x: u64) -> (r: bool)
    ensures
        r == v@.contains(x),
{
    let mut i: usize = 0;
    while i < v.len()
        invariant
            i <= v@.len(),
            forall|k: int| 0 <= k < i ==> v@[k] != x,
        decreases v@.len() - i,
    {
        if v[i] == x {
            return true;
        }
        i += 1;
    }
    false
}

fn find_in_vec(v: &Vec<u64>, x: u64) -> (r: Option<usize>)
    ensures
        match r {
            Some(i) => i < v@.len() && v@[i as int] == x,
            None => !v@.contains(x),
        },
{
    let mut i: usize = 0;
    while i < v.len()
        invariant
            i <= v@.len(),
            forall|k: int| 0 <= k < i ==> v@[k] != x,
        decreases v@.len() - i,
    {
        if v[i] == x {
            return Some(i);
        }
        i += 1;
    }
    None
}

} // verus!
