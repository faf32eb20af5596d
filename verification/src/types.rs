//! Plain data types for identities, nodes, peers and destinations.
use vstd::prelude::*;

verus! {

use vstd::string::StringSliceAdditionalSpecFns;
use crate::hashing::{sha256, sha256_of, hex_encode, hex_encode_of};

/// Copy a sixteen-byte vector into an address array.
pub fn to_address(v: &Vec<u8>) -> (r: [u8; 16])
    requires
        v@.len() == 16,
    ensures
        r@ =~= v@,
{
    let mut r: [u8; 16] = [0u8; 16];
    let mut i: usize = 0;
    while i < 16
        invariant
            i <= 16,
            v@.len() == 16,
            forall|j: int| 0 <= j < i ==> r@[j] == v@[j],
        decreases 16 - i,
    {
        r[i] = v[i];
        i = i + 1;
    }
    r
}

/// Byte-wise equality of two address hashes.
pub fn address_eq(a: &[u8; 16], b: &[u8; 16]) -> (r: bool)
    ensures
        r <==> a@ =~= b@,
{
    let mut i: usize = 0;
    while i < 16
        invariant
            i <= 16,
            forall|j: int| 0 <= j < i ==> a@[j] == b@[j],
        decreases 16 - i,
    {
        if a[i] != b[i] {
            return false;
        }
        i = i + 1;
    }
    true
}

/// The two public keys that identify an endpoint.
#[derive(Clone, Copy, Debug)]
pub struct IdentityInfo {
    pub public_key: [u8; 32],
    pub verifying_key: [u8; 32],
}

impl IdentityInfo {
    /// The 16-byte hash an identity contributes to address derivation:
    /// `sha256(public_key || verifying_key)[:16]`.
    pub open spec fn spec_identity_hash(self) -> Seq<u8> {
        sha256_of(self.public_key@ + self.verifying_key@).take(16)
    }

    pub fn identity_hash(&self) -> (r: Vec<u8>)
        ensures
            r@ == self.spec_identity_hash(),
            r@.len() == 16,
    {
        let mut buf: Vec<u8> = Vec::new();
        buf.extend_from_slice(self.public_key.as_slice());
        buf.extend_from_slice(self.verifying_key.as_slice());
        assert(buf@ =~= self.public_key@ + self.verifying_key@);
        let digest = sha256(buf.as_slice());
        let mut out: Vec<u8> = Vec::new();
        let mut i: usize = 0;
        while i < 16
            invariant
                i <= 16,
                digest@.len() == 32,
                digest@ == sha256_of(self.public_key@ + self.verifying_key@),
                out@ =~= digest@.take(i as int),
            decreases 16 - i,
        {
            out.push(digest[i]);
            i = i + 1;
        }
        assert(out@ =~= digest@.take(16));
        out
    }
}

/// A saved or announced node: address, display name, identity.
#[derive(Debug)]
pub struct NodeInfo {
    pub hash: [u8; 16],
    pub name: String,
    pub identity: IdentityInfo,
}

impl Clone for NodeInfo {
    fn clone(&self) -> (r: Self)
        ensures
            r.hash == self.hash,
            r.name@ == self.name@,
            r.identity == self.identity,
    {
        NodeInfo { hash: self.hash, name: self.name.clone(), identity: self.identity }
    }
}

impl NodeInfo {
    /// The node's address as lower-case hex text.
    pub fn hash_hex(&self) -> (r: String)
        ensures
            r@ == hex_encode_of(self.hash@),
    {
        hex_encode(self.hash.as_slice())
    }

    /// The destination descriptor used to open a link to this node when no
    /// announce has been cached: the stored address under the node name.
    pub fn to_destination_desc(&self) -> (r: DestinationDesc)
        ensures
            r.address_hash == self.hash,
            r.name_hash@ == node_name_hash(),
            r.identity == self.identity,
    {
        DestinationDesc {
            address_hash: self.hash,
            name_hash: node_destination_name_hash(),
            identity: self.identity,
        }
    }
}

/// An ephemeral peer seen in an announce; the display name is optional.
#[derive(Debug)]
pub struct PeerInfo {
    pub hash: [u8; 16],
    pub name: Option<String>,
    pub identity: IdentityInfo,
}

impl Clone for PeerInfo {
    fn clone(&self) -> (r: Self)
        ensures
            r.hash == self.hash,
            r.name is Some <==> self.name is Some,
            r.name matches Some(n) ==> self.name matches Some(m) && n@ == m@,
            r.identity == self.identity,
    {
        let name: Option<String> = match &self.name {
            Some(n) => Some(n.clone()),
            None => None,
        };
        PeerInfo { hash: self.hash, name, identity: self.identity }
    }
}

impl PeerInfo {
    /// The peer's address as lower-case hex text.
    pub fn hash_hex(&self) -> (r: String)
        ensures
            r@ == hex_encode_of(self.hash@),
    {
        hex_encode(self.hash.as_slice())
    }
}

/// The 10-byte hash of a two-part destination name:
/// `sha256(app_name || "." || aspect)[:10]`.
pub open spec fn name_hash_of(app: Seq<u8>, aspect: Seq<u8>) -> Seq<u8> {
    sha256_of(app + seq![46u8] + aspect).take(10)
}

/// The name hash that marks a node announce: the hash of
/// `("nomadnetwork", "node")`.
pub open spec fn node_name_hash() -> Seq<u8> {
    name_hash_of("nomadnetwork".spec_bytes(), "node".spec_bytes())
}

/// Compute the 10-byte name hash of a two-part destination name.
pub fn compute_name_hash(app: &str, aspect: &str) -> (r: [u8; 10])
    ensures
        r@ == name_hash_of(app.spec_bytes(), aspect.spec_bytes()),
{
    let mut buf: Vec<u8> = Vec::new();
    buf.extend_from_slice(app.as_bytes());
    buf.push(46u8);
    buf.extend_from_slice(aspect.as_bytes());
    assert(buf@ =~= app.spec_bytes() + seq![46u8] + aspect.spec_bytes());
    let digest = sha256(buf.as_slice());
    let mut r: [u8; 10] = [0u8; 10];
    let mut i: usize = 0;
    while i < 10
        invariant
            i <= 10,
            digest@.len() == 32,
            digest@ == sha256_of(app.spec_bytes() + seq![46u8] + aspect.spec_bytes()),
            forall|j: int| 0 <= j < i ==> r@[j] == digest@[j],
        decreases 10 - i,
    {
        r[i] = digest[i];
        i = i + 1;
    }
    assert(r@ =~= digest@.take(10));
    r
}

/// The name hash of the node destination name `("nomadnetwork", "node")`.
pub fn node_destination_name_hash() -> (r: [u8; 10])
    ensures
        r@ == node_name_hash(),
{
    compute_name_hash("nomadnetwork", "node")
}

/// The 16-byte destination address derived from a name hash and an identity
/// hash: `sha256(name_hash || identity_hash)[:16]`.
pub open spec fn address_hash_of(name_hash: Seq<u8>, identity_hash: Seq<u8>) -> Seq<u8> {
    sha256_of(name_hash + identity_hash).take(16)
}

/// Everything needed to open a link to one endpoint.
#[derive(Clone, Copy, Debug)]
pub struct DestinationDesc {
    pub address_hash: [u8; 16],
    pub name_hash: [u8; 10],
    pub identity: IdentityInfo,
}

impl DestinationDesc {
    /// The stored address hash agrees with the one recomputed from the name
    /// hash and the identity.
    pub open spec fn well_formed(self) -> bool {
        self.address_hash@ == address_hash_of(self.name_hash@, self.identity.spec_identity_hash())
    }

    /// Recompute the address hash and compare it with the stored one.
    pub fn verify_address(&self) -> (r: bool)
        ensures
            r == self.well_formed(),
    {
        let id_hash = self.identity.identity_hash();
        let mut buf: Vec<u8> = Vec::new();
        buf.extend_from_slice(self.name_hash.as_slice());
        buf.extend_from_slice(id_hash.as_slice());
        assert(buf@ =~= self.name_hash@ + self.identity.spec_identity_hash());
        let digest = sha256(buf.as_slice());
        let mut i: usize = 0;
        while i < 16
            invariant
                i <= 16,
                digest@.len() == 32,
                digest@ == sha256_of(self.name_hash@ + self.identity.spec_identity_hash()),
                forall|j: int| 0 <= j < i ==> self.address_hash@[j] == digest@[j],
            decreases 16 - i,
        {
            if self.address_hash[i] != digest[i] {
                assert(self.address_hash@[i as int] != address_hash_of(
                    self.name_hash@,
                    self.identity.spec_identity_hash(),
                )[i as int]);
                return false;
            }
            i = i + 1;
        }
        assert(self.address_hash@ =~= digest@.take(16));
        true
    }

    /// True iff the destination's name hash is the node name hash.
    pub fn is_node_destination(&self) -> (r: bool)
        ensures
            r <==> self.name_hash@ =~= node_name_hash(),
    {
        let expected = node_destination_name_hash();
        let mut i: usize = 0;
        while i < 10
            invariant
                i <= 10,
                expected@ == node_name_hash(),
                forall|j: int| 0 <= j < i ==> self.name_hash@[j] == expected@[j],
            decreases 10 - i,
        {
            if self.name_hash[i] != expected[i] {
                return false;
            }
            i = i + 1;
        }
        true
    }
}

/// Each address appears at most once among the entries, and every stored
/// descriptor has a verifying address hash.
pub open spec fn cache_well_formed(entries: Seq<DestinationDesc>) -> bool {
    &&& forall|i: int, j: int|
        0 <= i < j < entries.len() ==> entries[i].address_hash@ != entries[j].address_hash@
    &&& forall|i: int| 0 <= i < entries.len() ==> (#[trigger] entries[i]).well_formed()
}

/// Whether some entry carries the given address.
pub open spec fn cache_contains(entries: Seq<DestinationDesc>, addr: Seq<u8>) -> bool {
    exists|i: int| 0 <= i < entries.len() && (#[trigger] entries[i]).address_hash@ == addr
}

/// The entry carrying the given address.
pub open spec fn cache_get(entries: Seq<DestinationDesc>, addr: Seq<u8>) -> DestinationDesc {
    entries[choose|i: int| 0 <= i < entries.len() && (#[trigger] entries[i]).address_hash@ == addr]
}

/// The most recent destination descriptor seen for each address;
/// last writer wins.
pub struct DestinationCache {
    pub entries: Vec<DestinationDesc>,
}

impl DestinationCache {
    /// Each address appears at most once, and every stored descriptor has a
    /// verifying address hash.
    pub open spec fn well_formed(self) -> bool {
        cache_well_formed(self.entries@)
    }

    /// The addresses present in the cache.
    pub open spec fn spec_contains(self, addr: Seq<u8>) -> bool {
        cache_contains(self.entries@, addr)
    }

    /// The descriptor stored for an address.
    pub open spec fn spec_get(self, addr: Seq<u8>) -> DestinationDesc {
        cache_get(self.entries@, addr)
    }

    pub fn new() -> (r: Self)
        ensures
            r.well_formed(),
            forall|a: Seq<u8>| !r.spec_contains(a),
    {
        DestinationCache { entries: Vec::new() }
    }

    /// Insert or replace the descriptor for its address.
    pub fn insert(&mut self, desc: DestinationDesc)
        requires
            old(self).well_formed(),
            desc.well_formed(),
        ensures
            final(self).well_formed(),
            final(self).spec_contains(desc.address_hash@),
            final(self).spec_get(desc.address_hash@) == desc,
            forall|a: Seq<u8>|
                a != desc.address_hash@ ==> (final(self).spec_contains(a) <==> old(
                    self,
                ).spec_contains(a)),
            forall|a: Seq<u8>|
                a != desc.address_hash@ && old(self).spec_contains(a) ==> final(self).spec_get(a)
                    == old(self).spec_get(a),
    {
        let n = self.entries.len();
        let mut i: usize = 0;
        while i < n
            invariant
                n == self.entries@.len(),
                i <= n,
                old(self).well_formed(),
                desc.well_formed(),
                *self == *old(self),
                forall|j: int| 0 <= j < i ==> self.entries@[j].address_hash@ != desc.address_hash@,
            decreases n - i,
        {
            if address_eq(&self.entries[i].address_hash, &desc.address_hash) {
                assert(self.entries@[i as int].address_hash@ =~= desc.address_hash@);
                self.entries.set(i, desc);
                proof {
                    lemma_cache_update(old(self).entries@, self.entries@, i as int, desc);
                }
                return ;
            }
            i = i + 1;
        }
        self.entries.push(desc);
        proof {
            lemma_cache_push(old(self).entries@, self.entries@, desc);
        }
    }
    /// Look up the descriptor stored for an address.
    pub fn get(&self, addr: &[u8; 16]) -> (r: Option<DestinationDesc>)
        requires
            self.well_formed(),
        ensures
            r is Some <==> self.spec_contains(addr@),
            r matches Some(d) ==> d == self.spec_get(addr@) && d.well_formed(),
    {
        let n = self.entries.len();
        let mut i: usize = 0;
        while i < n
            invariant
                n == self.entries@.len(),
                i <= n,
                self.well_formed(),
                forall|j: int| 0 <= j < i ==> self.entries@[j].address_hash@ != addr@,
            decreases n - i,
        {
            if address_eq(&self.entries[i].address_hash, addr) {
                assert(self.entries@[i as int].address_hash@ =~= addr@);
                return Some(self.entries[i]);
            }
            i = i + 1;
        }
        None
    }
}

/// What replacing the entry at one index does to the cache's contents.
proof fn lemma_cache_update(
    before: Seq<DestinationDesc>,
    after: Seq<DestinationDesc>,
    i: int,
    desc: DestinationDesc,
)
    requires
        0 <= i < before.len(),
        before[i].address_hash@ == desc.address_hash@,
        after == before.update(i, desc),
        desc.well_formed(),
        forall|p: int, q: int|
            0 <= p < q < before.len() ==> before[p].address_hash@ != before[q].address_hash@,
        forall|p: int| 0 <= p < before.len() ==> (#[trigger] before[p]).well_formed(),
    ensures
        cache_well_formed(after),
        cache_contains(after, desc.address_hash@),
        cache_get(after, desc.address_hash@) == desc,
        forall|a: Seq<u8>|
            a != desc.address_hash@ ==> (cache_contains(after, a) <==> cache_contains(before, a)),
        forall|a: Seq<u8>|
            a != desc.address_hash@ && cache_contains(before, a) ==> cache_get(after, a)
                == cache_get(before, a),
{
    assert(after[i] == desc);
    assert(cache_contains(after, desc.address_hash@));
    assert forall|a: Seq<u8>|
        a != desc.address_hash@ && cache_contains(before, a) implies cache_contains(after, a) by {
        let k = choose|k: int|
            0 <= k < before.len() && (#[trigger] before[k]).address_hash@ == a;
        assert(after[k].address_hash@ == a);
    }
    assert forall|a: Seq<u8>|
        a != desc.address_hash@ && cache_contains(before, a) implies cache_contains(after, a) by {
        let k = choose|k: int|
            0 <= k < before.len() && (#[trigger] before[k]).address_hash@ == a;
        assert(after[k].address_hash@ == a);
    }
    assert forall|a: Seq<u8>|
        a != desc.address_hash@ && cache_contains(before, a) implies cache_get(after, a)
        == cache_get(before, a) by {
        let k = choose|k: int|
            0 <= k < before.len() && (#[trigger] before[k]).address_hash@ == a;
        assert(after[k].address_hash@ == a);
        assert(cache_contains(after, a));
        let k2 = choose|k2: int|
            0 <= k2 < after.len() && (#[trigger] after[k2]).address_hash@ == a;
        assert(after[k2].address_hash@ == after[k].address_hash@);
        assert(k2 == k);
        let k3 = choose|k3: int|
            0 <= k3 < before.len() && (#[trigger] before[k3]).address_hash@ == a;
        assert(k3 == k);
    }
    assert forall|a: Seq<u8>|
        a != desc.address_hash@ && cache_contains(after, a) implies cache_contains(before, a) by {
        let k = choose|k: int|
            0 <= k < after.len() && (#[trigger] after[k]).address_hash@ == a;
        assert(k != i);
        assert(before[k].address_hash@ == a);
    }
    let k0 = choose|k0: int|
        0 <= k0 < after.len() && (#[trigger] after[k0]).address_hash@ == desc.address_hash@;
    assert(after[k0].address_hash@ == after[i].address_hash@);
    assert(k0 == i);
}

/// What appending a fresh entry does to the cache's contents.
proof fn lemma_cache_push(
    before: Seq<DestinationDesc>,
    after: Seq<DestinationDesc>,
    desc: DestinationDesc,
)
    requires
        after == before.push(desc),
        desc.well_formed(),
        forall|p: int| 0 <= p < before.len() ==> before[p].address_hash@ != desc.address_hash@,
        forall|p: int, q: int|
            0 <= p < q < before.len() ==> before[p].address_hash@ != before[q].address_hash@,
        forall|p: int| 0 <= p < before.len() ==> (#[trigger] before[p]).well_formed(),
    ensures
        cache_well_formed(after),
        cache_contains(after, desc.address_hash@),
        cache_get(after, desc.address_hash@) == desc,
        forall|a: Seq<u8>|
            a != desc.address_hash@ ==> (cache_contains(after, a) <==> cache_contains(before, a)),
        forall|a: Seq<u8>|
            a != desc.address_hash@ && cache_contains(before, a) ==> cache_get(after, a)
                == cache_get(before, a),
{
    let n = before.len() as int;
    assert(after[n] == desc);
    assert(cache_contains(after, desc.address_hash@));
    assert forall|a: Seq<u8>|
        a != desc.address_hash@ && cache_contains(before, a) implies cache_contains(after, a) by {
        let k = choose|k: int|
            0 <= k < before.len() && (#[trigger] before[k]).address_hash@ == a;
        assert(after[k].address_hash@ == a);
    }
    assert forall|a: Seq<u8>|
        a != desc.address_hash@ && cache_contains(before, a) implies cache_get(after, a)
        == cache_get(before, a) by {
        let k = choose|k: int|
            0 <= k < before.len() && (#[trigger] before[k]).address_hash@ == a;
        assert(after[k].address_hash@ == a);
        assert(cache_contains(after, a));
        let k2 = choose|k2: int|
            0 <= k2 < after.len() && (#[trigger] after[k2]).address_hash@ == a;
        assert(k2 == k);
        let k3 = choose|k3: int|
            0 <= k3 < before.len() && (#[trigger] before[k3]).address_hash@ == a;
        assert(k3 == k);
    }
    assert forall|a: Seq<u8>|
        a != desc.address_hash@ && cache_contains(after, a) implies cache_contains(before, a) by {
        let k = choose|k: int|
            0 <= k < after.len() && (#[trigger] after[k]).address_hash@ == a;
        assert(k != n);
        assert(before[k].address_hash@ == a);
    }
    let k0 = choose|k0: int|
        0 <= k0 < after.len() && (#[trigger] after[k0]).address_hash@ == desc.address_hash@;
    assert(after[k0].address_hash@ == after[n].address_hash@);
    assert(k0 == n);
}

/// One page address: a destination and a path on it.
#[derive(Debug)]
pub struct PageUrl {
    pub dest_hash: [u8; 16],
    pub path: String,
}

impl Clone for PageUrl {
    fn clone(&self) -> (r: Self)
        ensures
            r.dest_hash == self.dest_hash,
            r.path@ == self.path@,
    {
        PageUrl { dest_hash: self.dest_hash, path: self.path.clone() }
    }
}

impl PageUrl {
    /// The textual form `<hex address>:<path>`.
    pub fn url_string(&self) -> (r: String)
        ensures
            r@ == hex_encode_of(self.dest_hash@) + ":"@ + self.path@,
    {
        let mut s = hex_encode(self.dest_hash.as_slice());
        s.append(":");
        s.append(self.path.as_str());
        s
    }
}

} // verus!
