//! The saved-node registry: one entry per address, updated on re-announce.
use vstd::prelude::*;
use crate::types::{NodeInfo, address_eq};

verus! {

/// Each address appears at most once among the registry entries.
pub open spec fn registry_unique(entries: Seq<NodeInfo>) -> bool {
    forall|i: int, j: int| 0 <= i < j < entries.len() ==> entries[i].hash@ != entries[j].hash@
}

/// Whether some entry carries the given address.
pub open spec fn registry_contains(entries: Seq<NodeInfo>, hash: Seq<u8>) -> bool {
    exists|i: int| 0 <= i < entries.len() && (#[trigger] entries[i]).hash@ == hash
}

/// The index of the entry carrying the given address.
pub open spec fn registry_index(entries: Seq<NodeInfo>, hash: Seq<u8>) -> int {
    choose|i: int| 0 <= i < entries.len() && (#[trigger] entries[i]).hash@ == hash
}

/// The entry carrying the given address.
pub open spec fn registry_get(entries: Seq<NodeInfo>, hash: Seq<u8>) -> NodeInfo {
    entries[registry_index(entries, hash)]
}

/// The saved nodes, keyed by address hash. Persistence of the table is the
/// caller's concern; the registry itself is a plain in-memory map.
pub struct NodeRegistry {
    pub entries: Vec<NodeInfo>,
}

impl NodeRegistry {
    pub open spec fn well_formed(self) -> bool {
        registry_unique(self.entries@)
    }

    pub open spec fn spec_contains(self, hash: Seq<u8>) -> bool {
        registry_contains(self.entries@, hash)
    }

    pub open spec fn spec_get(self, hash: Seq<u8>) -> NodeInfo {
        registry_get(self.entries@, hash)
    }

    pub fn new() -> (r: Self)
        ensures
            r.well_formed(),
            r.entries@.len() == 0,
    {
        NodeRegistry { entries: Vec::new() }
    }

    /// Insert a node, or overwrite the entry that already carries its
    /// address: a re-announce never creates a duplicate entry.
    pub fn save(&mut self, node: NodeInfo)
        requires
            old(self).well_formed(),
        ensures
            final(self).well_formed(),
            final(self).spec_contains(node.hash@),
            final(self).spec_get(node.hash@) == node,
            old(self).spec_contains(node.hash@) ==> final(self).entries@.len() == old(
                self,
            ).entries@.len(),
            !old(self).spec_contains(node.hash@) ==> final(self).entries@.len() == old(
                self,
            ).entries@.len() + 1,
            forall|h: Seq<u8>|
                h != node.hash@ ==> (final(self).spec_contains(h) <==> old(self).spec_contains(h)),
            forall|h: Seq<u8>|
                h != node.hash@ && old(self).spec_contains(h) ==> final(self).spec_get(h) == old(
                    self,
                ).spec_get(h),
    {
        let n = self.entries.len();
        let mut i: usize = 0;
        while i < n
            invariant
                n == self.entries@.len(),
                i <= n,
                old(self).well_formed(),
                *self == *old(self),
                forall|j: int| 0 <= j < i ==> self.entries@[j].hash@ != node.hash@,
            decreases n - i,
        {
            if address_eq(&self.entries[i].hash, &node.hash) {
                assert(self.entries@[i as int].hash@ =~= node.hash@);
                self.entries.set(i, node);
                proof {
                    lemma_registry_update(old(self).entries@, self.entries@, i as int, node);
                }
                return ;
            }
            i = i + 1;
        }
        self.entries.push(node);
        proof {
            lemma_registry_push(old(self).entries@, self.entries@, node);
        }
    }

    /// Look up a node by address.
    pub fn get(&self, hash: &[u8; 16]) -> (r: Option<&NodeInfo>)
        requires
            self.well_formed(),
        ensures
            r is Some <==> self.spec_contains(hash@),
            r matches Some(node) ==> *node == self.spec_get(hash@),
    {
        let n = self.entries.len();
        let mut i: usize = 0;
        while i < n
            invariant
                n == self.entries@.len(),
                i <= n,
                self.well_formed(),
                forall|j: int| 0 <= j < i ==> self.entries@[j].hash@ != hash@,
            decreases n - i,
        {
            if address_eq(&self.entries[i].hash, hash) {
                assert(self.entries@[i as int].hash@ =~= hash@);
                proof {
                    lemma_registry_lookup(self.entries@, i as int, hash@);
                }
                return Some(&self.entries[i]);
            }
            i = i + 1;
        }
        None
    }

    /// Whether a node with this address is saved.
    pub fn contains(&self, hash: &[u8; 16]) -> (r: bool)
        requires
            self.well_formed(),
        ensures
            r <==> self.spec_contains(hash@),
    {
        self.get(hash).is_some()
    }

    /// All saved nodes, in insertion order.
    pub fn all(&self) -> (r: Vec<&NodeInfo>)
        ensures
            r@.len() == self.entries@.len(),
            forall|i: int| 0 <= i < r@.len() ==> *r@[i] == self.entries@[i],
    {
        let n = self.entries.len();
        let mut r: Vec<&NodeInfo> = Vec::new();
        let mut i: usize = 0;
        while i < n
            invariant
                n == self.entries@.len(),
                i <= n,
                r@.len() == i,
                forall|j: int| 0 <= j < i ==> *r@[j] == self.entries@[j],
            decreases n - i,
        {
            r.push(&self.entries[i]);
            i = i + 1;
        }
        r
    }

    /// Rename the node carrying this address, if it is saved.
    pub fn update_name(&mut self, hash: &[u8; 16], name: String)
        requires
            old(self).well_formed(),
        ensures
            final(self).well_formed(),
            !old(self).spec_contains(hash@) ==> *final(self) == *old(self),
            old(self).spec_contains(hash@) ==> {
                &&& final(self).spec_contains(hash@)
                &&& final(self).spec_get(hash@).hash == old(self).spec_get(hash@).hash
                &&& final(self).spec_get(hash@).name == name
                &&& final(self).spec_get(hash@).identity == old(self).spec_get(hash@).identity
                &&& final(self).entries@.len() == old(self).entries@.len()
            },
            forall|h: Seq<u8>|
                h != hash@ ==> (final(self).spec_contains(h) <==> old(self).spec_contains(h)),
            forall|h: Seq<u8>|
                h != hash@ && old(self).spec_contains(h) ==> final(self).spec_get(h) == old(
                    self,
                ).spec_get(h),
    {
        let n = self.entries.len();
        let mut i: usize = 0;
        while i < n
            invariant
                n == self.entries@.len(),
                i <= n,
                old(self).well_formed(),
                *self == *old(self),
                forall|j: int| 0 <= j < i ==> self.entries@[j].hash@ != hash@,
            decreases n - i,
        {
            if address_eq(&self.entries[i].hash, hash) {
                assert(self.entries@[i as int].hash@ =~= hash@);
                let updated = NodeInfo {
                    hash: self.entries[i].hash,
                    name,
                    identity: self.entries[i].identity,
                };
                self.entries.set(i, updated);
                proof {
                    lemma_registry_update(old(self).entries@, self.entries@, i as int, updated);
                }
                return ;
            }
            i = i + 1;
        }
    }

    /// Remove and return the node carrying this address.
    pub fn remove(&mut self, hash: &[u8; 16]) -> (r: Option<NodeInfo>)
        requires
            old(self).well_formed(),
        ensures
            final(self).well_formed(),
            r is Some <==> old(self).spec_contains(hash@),
            !old(self).spec_contains(hash@) ==> *final(self) == *old(self),
            r matches Some(node) ==> (node == old(self).spec_get(hash@)
                && final(self).entries@.len() == old(self).entries@.len() - 1),
            !final(self).spec_contains(hash@),
            forall|h: Seq<u8>|
                h != hash@ ==> (final(self).spec_contains(h) <==> old(self).spec_contains(h)),
            forall|h: Seq<u8>|
                h != hash@ && old(self).spec_contains(h) ==> final(self).spec_get(h) == old(
                    self,
                ).spec_get(h),
    {
        let n = self.entries.len();
        let mut i: usize = 0;
        while i < n
            invariant
                n == self.entries@.len(),
                i <= n,
                old(self).well_formed(),
                *self == *old(self),
                forall|j: int| 0 <= j < i ==> self.entries@[j].hash@ != hash@,
            decreases n - i,
        {
            if address_eq(&self.entries[i].hash, hash) {
                assert(self.entries@[i as int].hash@ =~= hash@);
                let removed = self.entries.remove(i);
                proof {
                    lemma_registry_remove(old(self).entries@, self.entries@, i as int, hash@);
                }
                return Some(removed);
            }
            i = i + 1;
        }
        None
    }
}

/// An entry carrying the sought address pins down the registry lookup.
proof fn lemma_registry_lookup(entries: Seq<NodeInfo>, i: int, hash: Seq<u8>)
    requires
        registry_unique(entries),
        0 <= i < entries.len(),
        entries[i].hash@ == hash,
    ensures
        registry_contains(entries, hash),
        registry_index(entries, hash) == i,
        registry_get(entries, hash) == entries[i],
{
    assert(registry_contains(entries, hash));
    let k = registry_index(entries, hash);
    assert(0 <= k < entries.len() && entries[k].hash@ == hash);
    if k != i {
        assert(entries[k].hash@ != entries[i].hash@);
    }
}

/// What overwriting the entry at one index does to the registry's contents.
proof fn lemma_registry_update(
    before: Seq<NodeInfo>,
    after: Seq<NodeInfo>,
    i: int,
    node: NodeInfo,
)
    requires
        0 <= i < before.len(),
        before[i].hash@ == node.hash@,
        after == before.update(i, node),
        registry_unique(before),
    ensures
        registry_unique(after),
        registry_contains(after, node.hash@),
        registry_get(after, node.hash@) == node,
        registry_contains(before, node.hash@),
        forall|h: Seq<u8>|
            h != node.hash@ ==> (registry_contains(after, h) <==> registry_contains(before, h)),
        forall|h: Seq<u8>|
            h != node.hash@ && registry_contains(before, h) ==> registry_get(after, h)
                == registry_get(before, h),
{
    assert(after[i] == node);
    lemma_registry_lookup(after, i, node.hash@);
    assert forall|h: Seq<u8>|
        h != node.hash@ implies (registry_contains(after, h) <==> registry_contains(
        before,
        h,
    )) by {
        if registry_contains(before, h) {
            let k = choose|k: int|
                0 <= k < before.len() && (#[trigger] before[k]).hash@ == h;
            assert(after[k].hash@ == h);
        }
        if registry_contains(after, h) {
            let k = choose|k: int| 0 <= k < after.len() && (#[trigger] after[k]).hash@ == h;
            assert(k != i);
            assert(before[k].hash@ == h);
        }
    }
    assert forall|h: Seq<u8>|
        h != node.hash@ && registry_contains(before, h) implies registry_get(after, h)
        == registry_get(before, h) by {
        let k = choose|k: int| 0 <= k < before.len() && (#[trigger] before[k]).hash@ == h;
        assert(after[k].hash@ == h);
        lemma_registry_lookup(after, k, h);
        lemma_registry_lookup(before, k, h);
    }
}

/// What appending a fresh entry does to the registry's contents.
proof fn lemma_registry_push(before: Seq<NodeInfo>, after: Seq<NodeInfo>, node: NodeInfo)
    requires
        after == before.push(node),
        forall|p: int| 0 <= p < before.len() ==> before[p].hash@ != node.hash@,
        registry_unique(before),
    ensures
        registry_unique(after),
        registry_contains(after, node.hash@),
        registry_get(after, node.hash@) == node,
        forall|h: Seq<u8>|
            h != node.hash@ ==> (registry_contains(after, h) <==> registry_contains(before, h)),
        forall|h: Seq<u8>|
            h != node.hash@ && registry_contains(before, h) ==> registry_get(after, h)
                == registry_get(before, h),
{
    let n = before.len() as int;
    assert(after[n] == node);
    lemma_registry_lookup(after, n, node.hash@);
    assert forall|h: Seq<u8>|
        h != node.hash@ implies (registry_contains(after, h) <==> registry_contains(
        before,
        h,
    )) by {
        if registry_contains(before, h) {
            let k = choose|k: int|
                0 <= k < before.len() && (#[trigger] before[k]).hash@ == h;
            assert(after[k].hash@ == h);
        }
        if registry_contains(after, h) {
            let k = choose|k: int| 0 <= k < after.len() && (#[trigger] after[k]).hash@ == h;
            assert(k != n);
            assert(before[k].hash@ == h);
        }
    }
    assert forall|h: Seq<u8>|
        h != node.hash@ && registry_contains(before, h) implies registry_get(after, h)
        == registry_get(before, h) by {
        let k = choose|k: int| 0 <= k < before.len() && (#[trigger] before[k]).hash@ == h;
        assert(after[k].hash@ == h);
        lemma_registry_lookup(after, k, h);
        lemma_registry_lookup(before, k, h);
    }
}

/// What removing the entry at one index does to the registry's contents.
proof fn lemma_registry_remove(
    before: Seq<NodeInfo>,
    after: Seq<NodeInfo>,
    i: int,
    hash: Seq<u8>,
)
    requires
        0 <= i < before.len(),
        before[i].hash@ == hash,
        after == before.remove(i),
        registry_unique(before),
    ensures
        registry_unique(after),
        !registry_contains(after, hash),
        registry_get(before, hash) == before[i],
        forall|h: Seq<u8>|
            h != hash ==> (registry_contains(after, h) <==> registry_contains(before, h)),
        forall|h: Seq<u8>|
            h != hash && registry_contains(before, h) ==> registry_get(after, h) == registry_get(
                before,
                h,
            ),
{
    lemma_registry_lookup(before, i, hash);
    assert forall|p: int, q: int|
        0 <= p < q < after.len() implies after[p].hash@ != after[q].hash@ by {
        let p0 = if p < i { p } else { p + 1 };
        let q0 = if q < i { q } else { q + 1 };
        assert(after[p] == before[p0]);
        assert(after[q] == before[q0]);
    }
    assert forall|k: int| 0 <= k < after.len() implies after[k].hash@ != hash by {
        let k0 = if k < i { k } else { k + 1 };
        assert(after[k] == before[k0]);
        if k0 != i {
            assert(before[k0].hash@ != before[i].hash@);
        }
    }
    assert forall|h: Seq<u8>|
        h != hash implies (registry_contains(after, h) <==> registry_contains(before, h)) by {
        if registry_contains(before, h) {
            let k = choose|k: int|
                0 <= k < before.len() && (#[trigger] before[k]).hash@ == h;
            let k1 = if k < i { k } else { k - 1 };
            assert(k != i);
            assert(after[k1] == before[k]);
        }
        if registry_contains(after, h) {
            let k = choose|k: int| 0 <= k < after.len() && (#[trigger] after[k]).hash@ == h;
            let k0 = if k < i { k } else { k + 1 };
            assert(before[k0] == after[k]);
        }
    }
    assert forall|h: Seq<u8>|
        h != hash && registry_contains(before, h) implies registry_get(after, h) == registry_get(
        before,
        h,
    ) by {
        let k = choose|k: int| 0 <= k < before.len() && (#[trigger] before[k]).hash@ == h;
        lemma_registry_lookup(before, k, h);
        let k1 = if k < i { k } else { k - 1 };
        assert(k != i);
        assert(after[k1] == before[k]);
        lemma_registry_lookup(after, k1, h);
    }
}

} // verus!
