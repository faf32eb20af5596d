//! Reassembly of chunked resource transfers.
//!
//! A resource arrives as an encrypted announcement naming a 32-byte content
//! hash, a part count and a total size, followed by numbered parts. The
//! assembler is pure: callers hand it decrypted payloads and send what it
//! returns. Its own framing is fixed-layout: an announcement is
//! `hash(32) || total_parts(4, BE) || total_size(8, BE)`, a part is
//! `hash(32) || index(4, BE) || payload`, a request for missing parts is
//! `hash(32) || index(4, BE)*`, and a proof is the bare content hash.
use vstd::prelude::*;

verus! {

use crate::hashing::{sha256, sha256_of};
use crate::wire::{be8_val, be8_of};

/// The largest payload one part may carry; larger parts are dropped.
pub const MAX_PART_SIZE: usize = 4096;

/// The limit on announced part counts; larger announcements are dropped.
pub const MAX_TOTAL_PARTS: usize = 65536;

/// How many of the flags are set.
pub open spec fn count_true(s: Seq<bool>) -> int
    decreases s.len(),
{
    if s.len() == 0 {
        0
    } else {
        count_true(s.drop_last()) + if s.last() {
            1int
        } else {
            0int
        }
    }
}

pub proof fn lemma_count_true_bounds(s: Seq<bool>)
    ensures
        0 <= count_true(s) <= s.len(),
    decreases s.len(),
{
    if s.len() > 0 {
        lemma_count_true_bounds(s.drop_last());
    }
}

/// Setting one flag raises the count by one if it was clear, else leaves it.
pub proof fn lemma_count_true_update(s: Seq<bool>, i: int)
    requires
        0 <= i < s.len(),
    ensures
        !s[i] ==> count_true(s.update(i, true)) == count_true(s) + 1,
        s[i] ==> count_true(s.update(i, true)) == count_true(s),
    decreases s.len(),
{
    if s.len() > 0 {
        if i == s.len() - 1 {
            assert(s.update(i, true).drop_last() =~= s.drop_last());
        } else {
            lemma_count_true_update(s.drop_last(), i);
            assert(s.update(i, true).drop_last() =~= s.drop_last().update(i, true));
            assert(s.update(i, true).last() == s.last());
        }
    }
}

/// The count reaches the length exactly when every flag is set.
pub proof fn lemma_count_true_full(s: Seq<bool>)
    ensures
        count_true(s) == s.len() <==> (forall|i: int| 0 <= i < s.len() ==> s[i]),
    decreases s.len(),
{
    lemma_count_true_bounds(s);
    if s.len() > 0 {
        lemma_count_true_full(s.drop_last());
        lemma_count_true_bounds(s.drop_last());
        if count_true(s) == s.len() {
            assert forall|i: int| 0 <= i < s.len() implies s[i] by {
                if i < s.len() - 1 {
                    assert(s.drop_last()[i] == s[i]);
                }
            }
        } else {
            if forall|i: int| 0 <= i < s.len() ==> s[i] {
                assert forall|i: int| 0 <= i < s.drop_last().len() implies s.drop_last()[i] by {
                    assert(s.drop_last()[i] == s[i]);
                }
                assert(count_true(s) == s.len());
            }
        }
    }
}

/// The byte views of stored parts, in index order.
pub open spec fn parts_view(parts: Seq<Vec<u8>>) -> Seq<Seq<u8>> {
    parts.map_values(|p: Vec<u8>| p@)
}

/// One in-flight resource: what was announced and what has arrived.
pub struct ResourceInfo {
    pub content_hash: Vec<u8>,
    pub total_parts: u32,
    pub received_count: u32,
    pub received: Vec<bool>,
    pub parts: Vec<Vec<u8>>,
    pub total_size: u64,
}

impl ResourceInfo {
    /// The bitmap and the part buffer both span the announced part count,
    /// the received count is the bitmap's popcount, the hash is 32 bytes,
    /// and a slot holds bytes only once its bit is set.
    pub open spec fn well_formed(self) -> bool {
        &&& self.content_hash@.len() == 32
        &&& 0 < self.total_parts <= MAX_TOTAL_PARTS as u32
        &&& self.received@.len() == self.total_parts
        &&& self.parts@.len() == self.total_parts
        &&& self.received_count == count_true(self.received@)
        &&& forall|i: int|
            0 <= i < self.received@.len() && !self.received@[i]
                ==> (#[trigger] self.parts@[i])@.len() == 0
    }

    /// Every part has arrived.
    pub open spec fn complete(self) -> bool {
        self.received_count == self.total_parts
    }
}

/// What the assembler asks its caller to do with an inbound packet.
#[derive(Debug, PartialEq)]
pub enum HandleResult {
    /// A transfer was announced: ask the sender for its missing parts.
    RequestParts(Vec<u8>),
    /// Every part is here: assemble and prove.
    Assemble(Vec<u8>),
    /// Nothing to do.
    NoAction,
}

/// The transport-defined role of a resource packet on a link.
#[derive(Debug, Clone, Copy, PartialEq, Eq)]
pub enum ResourceContext {
    Announce,
    Part,
    PartRequest,
    Proof,
}

/// One decrypted resource packet: its role and its payload.
#[derive(Debug)]
pub struct ResourcePacket {
    pub context: ResourceContext,
    pub data: Vec<u8>,
}

/// The 32-bit value read from four big-endian bytes.
pub open spec fn be4_val(b: Seq<u8>) -> u32 {
    ((b[0] as u32) << 24) | ((b[1] as u32) << 16) | ((b[2] as u32) << 8) | (b[3] as u32)
}

/// The four bytes of a 32-bit value, big-endian.
pub open spec fn be4_of_u32(v: u32) -> Seq<u8> {
    seq![(v >> 24) as u8, (v >> 16) as u8, (v >> 8) as u8, v as u8]
}

/// Reading back the four big-endian bytes of a value gives the value.
pub proof fn lemma_be4_round(v: u32)
    ensures
        be4_val(be4_of_u32(v)) == v,
{
    assert((((v >> 24) as u8 as u32) << 24) | (((v >> 16) as u8 as u32) << 16) | (((v >> 8) as u8
        as u32) << 8) | (v as u8 as u32) == v) by (bit_vector);
}

/// The announcement payload for one resource.
pub open spec fn announcement_layout(hash: Seq<u8>, total_parts: u32, total_size: u64) -> Seq<u8> {
    hash + be4_of_u32(total_parts) + be8_of(total_size)
}

/// The part payload for one resource chunk.
pub open spec fn part_layout(hash: Seq<u8>, index: u32, payload: Seq<u8>) -> Seq<u8> {
    hash + be4_of_u32(index) + payload
}

/// Reassembles chunked transfers, one entry per announced content hash.
pub struct ResourceAssembler {
    pub resources: Vec<ResourceInfo>,
}

/// Every tracked resource is well-formed and hashes are distinct.
pub open spec fn assembler_well_formed(rs: Seq<ResourceInfo>) -> bool {
    &&& forall|i: int| 0 <= i < rs.len() ==> (#[trigger] rs[i]).well_formed()
    &&& forall|i: int, j: int|
        0 <= i < j < rs.len() ==> rs[i].content_hash@ != rs[j].content_hash@
}

/// Whether a resource with this content hash is tracked.
pub open spec fn assembler_contains(rs: Seq<ResourceInfo>, hash: Seq<u8>) -> bool {
    exists|i: int| 0 <= i < rs.len() && (#[trigger] rs[i]).content_hash@ == hash
}

/// The index of the resource with this content hash.
pub open spec fn assembler_index(rs: Seq<ResourceInfo>, hash: Seq<u8>) -> int {
    choose|i: int| 0 <= i < rs.len() && (#[trigger] rs[i]).content_hash@ == hash
}

/// Byte-wise equality of two byte vectors.
pub fn bytes_eq(a: &Vec<u8>, b: &Vec<u8>) -> (r: bool)
    ensures
        r <==> a@ =~= b@,
{
    if a.len() != b.len() {
        return false;
    }
    let n = a.len();
    let mut i: usize = 0;
    while i < n
        invariant
            n == a@.len() == b@.len(),
            i <= n,
            forall|j: int| 0 <= j < i ==> a@[j] == b@[j],
        decreases n - i,
    {
        if a[i] != b[i] {
            return false;
        }
        i = i + 1;
    }
    true
}

impl ResourceAssembler {
    pub open spec fn well_formed(self) -> bool {
        assembler_well_formed(self.resources@)
    }

    pub open spec fn spec_contains(self, hash: Seq<u8>) -> bool {
        assembler_contains(self.resources@, hash)
    }

    pub open spec fn spec_get(self, hash: Seq<u8>) -> ResourceInfo {
        self.resources@[assembler_index(self.resources@, hash)]
    }

    pub fn new() -> (r: Self)
        ensures
            r.well_formed(),
            r.resources@.len() == 0,
    {
        ResourceAssembler { resources: Vec::new() }
    }

    /// Find the position of a tracked resource by hash.
    fn find(&self, hash: &Vec<u8>) -> (r: Option<usize>)
        requires
            self.well_formed(),
        ensures
            r is Some <==> self.spec_contains(hash@),
            r matches Some(i) ==> 0 <= i < self.resources@.len()
                && self.resources@[i as int].content_hash@ == hash@ && assembler_index(
                self.resources@,
                hash@,
            ) == i,
    {
        let n = self.resources.len();
        let mut i: usize = 0;
        while i < n
            invariant
                n == self.resources@.len(),
                i <= n,
                self.well_formed(),
                forall|j: int| 0 <= j < i ==> self.resources@[j].content_hash@ != hash@,
            decreases n - i,
        {
            if bytes_eq(&self.resources[i].content_hash, hash) {
                proof {
                    let k = assembler_index(self.resources@, hash@);
                    if k != i {
                        assert(self.resources@[k].content_hash@ != self.resources@[
                            i as int].content_hash@);
                    }
                }
                return Some(i);
            }
            i = i + 1;
        }
        None
    }

    /// A read-only snapshot of one transfer's progress.
    pub fn resource_info(&self, hash: &Vec<u8>) -> (r: Option<(u32, u32)>)
        requires
            self.well_formed(),
        ensures
            r is Some <==> self.spec_contains(hash@),
            r matches Some(p) ==> p.0 == self.spec_get(hash@).received_count && p.1
                == self.spec_get(hash@).total_parts,
    {
        match self.find(hash) {
            Some(i) => Some((self.resources[i].received_count, self.resources[i].total_parts)),
            None => None,
        }
    }

    /// Drop a transfer, keeping every other one.
    pub fn evict(&mut self, hash: &Vec<u8>)
        requires
            old(self).well_formed(),
        ensures
            final(self).well_formed(),
            !final(self).spec_contains(hash@),
            forall|h: Seq<u8>|
                h != hash@ ==> (final(self).spec_contains(h) <==> old(self).spec_contains(h)),
    {
        match self.find(hash) {
            Some(i) => {
                self.resources.remove(i);
                proof {
                    let before = old(self).resources@;
                    let after = self.resources@;
                    assert forall|p: int, q: int|
                        0 <= p < q < after.len() implies after[p].content_hash@
                        != after[q].content_hash@ by {
                        let p0 = if p < i { p } else { p + 1 };
                        let q0 = if q < i { q } else { q + 1 };
                        assert(after[p] == before[p0]);
                        assert(after[q] == before[q0]);
                    }
                    assert forall|p: int| 0 <= p < after.len() implies (
                    #[trigger] after[p]).well_formed() && after[p].content_hash@ != hash@ by {
                        let p0 = if p < i { p } else { p + 1 };
                        assert(after[p] == before[p0]);
                        if p0 != i {
                            assert(before[p0].content_hash@ != before[i as int].content_hash@);
                        }
                    }
                    assert forall|h: Seq<u8>|
                        h != hash@ && assembler_contains(before, h) implies assembler_contains(
                        after,
                        h,
                    ) by {
                        let k = choose|k: int|
                            0 <= k < before.len() && (#[trigger] before[k]).content_hash@ == h;
                        let k1 = if k < i { k } else { k - 1 };
                        assert(k != i);
                        assert(after[k1] == before[k]);
                    }
                    assert forall|h: Seq<u8>|
                        h != hash@ && assembler_contains(after, h) implies assembler_contains(
                        before,
                        h,
                    ) by {
                        let k = choose|k: int|
                            0 <= k < after.len() && (#[trigger] after[k]).content_hash@ == h;
                        let k0 = if k < i { k } else { k + 1 };
                        assert(before[k0] == after[k]);
                    }
                }
            },
            None => {},
        }
    }
}

/// Split an announcement payload into content hash, part count and size.
pub open spec fn spec_parse_announcement(d: Seq<u8>) -> Option<(Seq<u8>, u32, u64)> {
    if d.len() == 44 {
        Some((d.subrange(0, 32), be4_val(d.subrange(32, 36)), be8_val(d.subrange(36, 44))))
    } else {
        None
    }
}

/// Split a part payload into content hash, part index and chunk bytes.
pub open spec fn spec_parse_part(d: Seq<u8>) -> Option<(Seq<u8>, u32, Seq<u8>)> {
    if d.len() >= 36 {
        Some((d.subrange(0, 32), be4_val(d.subrange(32, 36)), d.skip(36)))
    } else {
        None
    }
}

/// An announcement the assembler accepts: well-shaped, with a positive part
/// count within the limit.
pub open spec fn announcement_accepted(d: Seq<u8>) -> bool {
    spec_parse_announcement(d) matches Some((h, t, s)) && 0 < t <= MAX_TOTAL_PARTS
}

/// A tracked resource whose every field is what one fresh announcement set.
pub open spec fn fresh_resource(info: ResourceInfo, h: Seq<u8>, t: u32, size: u64) -> bool {
    &&& info.content_hash@ == h
    &&& info.total_parts == t
    &&& info.total_size == size
    &&& info.received_count == 0
    &&& info.received@ == Seq::new(t as nat, |i: int| false)
    &&& parts_view(info.parts@) == Seq::new(t as nat, |i: int| Seq::<u8>::empty())
}

/// What one accepted part does to a resource's bookkeeping: the bit is set,
/// the chunk is stored the first time, everything else stands.
pub open spec fn part_applied(before: ResourceInfo, after: ResourceInfo, idx: int, payload: Seq<u8>) -> bool {
    &&& after.content_hash@ == before.content_hash@
    &&& after.total_parts == before.total_parts
    &&& after.total_size == before.total_size
    &&& after.received@ == before.received@.update(idx, true)
    &&& parts_view(after.parts@) == if before.received@[idx] {
        parts_view(before.parts@)
    } else {
        parts_view(before.parts@).update(idx, payload)
    }
    &&& after.received_count == before.received_count + if before.received@[idx] {
        0int
    } else {
        1int
    }
}

impl ResourceAssembler {
    /// Take in one decrypted resource announcement. A malformed or oversized
    /// one is dropped; a valid one is tracked (idempotently) and answered
    /// with a request for its parts.
    pub fn handle_announcement(&mut self, plain: &[u8]) -> (r: HandleResult)
        requires
            old(self).well_formed(),
        ensures
            final(self).well_formed(),
            announce_step(*old(self), *final(self), plain@, r),
    {
        if plain.len() != 44 {
            return HandleResult::NoAction;
        }
        let hash = crate::wire::copy_range(plain, 0, 32);
        let total: u32 = ((plain[32] as u32) << 24) | ((plain[33] as u32) << 16) | ((plain[34]
            as u32) << 8) | (plain[35] as u32);
        let size: u64 = ((plain[36] as u64) << 56) | ((plain[37] as u64) << 48) | ((plain[38]
            as u64) << 40) | ((plain[39] as u64) << 32) | ((plain[40] as u64) << 24) | ((plain[41]
            as u64) << 16) | ((plain[42] as u64) << 8) | (plain[43] as u64);
        proof {
            let hb = plain@.subrange(32, 36);
            assert(hb[0] == plain@[32] && hb[1] == plain@[33] && hb[2] == plain@[34] && hb[3]
                == plain@[35]);
            let sb = plain@.subrange(36, 44);
            assert(sb[0] == plain@[36] && sb[1] == plain@[37] && sb[2] == plain@[38] && sb[3]
                == plain@[39] && sb[4] == plain@[40] && sb[5] == plain@[41] && sb[6] == plain@[42]
                && sb[7] == plain@[43]);
        }
        if total == 0 || total as usize > MAX_TOTAL_PARTS {
            return HandleResult::NoAction;
        }
        let ghost h = plain@.subrange(0, 32);
        if let Some(_) = self.find(&hash) {
            return HandleResult::RequestParts(hash);
        }
        let total_usize = total as usize;
        let mut received: Vec<bool> = Vec::new();
        let mut parts: Vec<Vec<u8>> = Vec::new();
        let mut k: usize = 0;
        while k < total_usize
            invariant
                k <= total_usize,
                received@.len() == k,
                parts@.len() == k,
                count_true(received@) == 0,
                forall|j: int| 0 <= j < k ==> !received@[j],
                forall|j: int| 0 <= j < k ==> (#[trigger] parts@[j])@.len() == 0,
            decreases total_usize - k,
        {
            let ghost before = received@;
            received.push(false);
            proof {
                assert(received@.drop_last() =~= before);
            }
            parts.push(Vec::new());
            k = k + 1;
        }
        let info = ResourceInfo {
            content_hash: hash,
            total_parts: total,
            received_count: 0,
            received,
            parts,
            total_size: size,
        };
        assert(info.well_formed());
        assert(fresh_resource(info, h, total, size)) by {
            assert(info.received@ =~= Seq::new(total as nat, |i: int| false));
            assert(parts_view(info.parts@) =~~= Seq::new(total as nat, |i: int| Seq::<u8>::empty()));
        }
        self.resources.push(info);
        proof {
            let before = old(self).resources@;
            let after = self.resources@;
            let n = before.len() as int;
            assert(after[n] == info);
            assert forall|h2: Seq<u8>|
                h2 != h && assembler_contains(before, h2) implies assembler_contains(
                after,
                h2,
            ) by {
                let q = choose|q: int|
                    0 <= q < before.len() && (#[trigger] before[q]).content_hash@ == h2;
                assert(after[q].content_hash@ == h2);
            }
            assert forall|h2: Seq<u8>|
                h2 != h && assembler_contains(after, h2) implies assembler_contains(
                before,
                h2,
            ) by {
                let q = choose|q: int|
                    0 <= q < after.len() && (#[trigger] after[q]).content_hash@ == h2;
                assert(q != n);
            }
            assert forall|h2: Seq<u8>|
                h2 != h && assembler_contains(before, h2) implies assembler_index(after, h2)
                == assembler_index(before, h2) && assembler_contains(after, h2) by {
                let q = choose|q: int|
                    0 <= q < before.len() && (#[trigger] before[q]).content_hash@ == h2;
                assert(after[q].content_hash@ == h2);
                let k1 = assembler_index(after, h2);
                let k2 = assembler_index(before, h2);
                assert(after[k1].content_hash@ == h2);
                assert(k1 != n);
                assert(before[k1].content_hash@ == h2);
                if k1 != k2 {
                    assert(before[k1].content_hash@ != before[k2].content_hash@);
                }
            }
            let k0 = assembler_index(after, h);
            assert(after[k0].content_hash@ == h);
            if k0 != n {
                assert(before[k0].content_hash@ == h);
                assert(assembler_contains(before, h));
            }
        }
        HandleResult::RequestParts(self.resources[self.resources.len() - 1].content_hash.clone())
    }
}

/// What taking in one announcement leaves behind, and what it answers.
pub open spec fn announce_step(
    before: ResourceAssembler,
    after: ResourceAssembler,
    d: Seq<u8>,
    r: HandleResult,
) -> bool {
    &&& !announcement_accepted(d) ==> after == before && r == HandleResult::NoAction
    &&& announcement_accepted(d) ==> {
        let (h, t, size) = spec_parse_announcement(d)->Some_0;
        &&& (r matches HandleResult::RequestParts(v) && v@ == h)
        &&& after.spec_contains(h)
        &&& (before.spec_contains(h) ==> after == before)
        &&& (!before.spec_contains(h) ==> fresh_resource(after.spec_get(h), h, t, size))
        &&& forall|h2: Seq<u8>|
            h2 != h ==> (after.spec_contains(h2) <==> before.spec_contains(h2))
        &&& forall|h2: Seq<u8>|
            h2 != h && before.spec_contains(h2) ==> after.spec_get(h2) == before.spec_get(h2)
    }
}

/// What taking in one part leaves behind, and what it answers.
pub open spec fn part_step(
    before: ResourceAssembler,
    after: ResourceAssembler,
    d: Seq<u8>,
    r: HandleResult,
) -> bool {
    &&& part_dropped(before, d) ==> after == before && r == HandleResult::NoAction
    &&& !part_dropped(before, d) ==> part_accepted(before, after, d, r)
}

/// Whether a part payload is dropped without effect: malformed, for an
/// unknown transfer, out of range, or oversized.
pub open spec fn part_dropped(a: ResourceAssembler, plain: Seq<u8>) -> bool {
    match spec_parse_part(plain) {
        None => true,
        Some((h, idx, payload)) => !a.spec_contains(h) || idx >= a.spec_get(h).total_parts
            || payload.len() > MAX_PART_SIZE,
    }
}

/// What taking in an accepted part leaves behind, and what it answers.
pub open spec fn part_accepted(
    before: ResourceAssembler,
    after: ResourceAssembler,
    plain: Seq<u8>,
    r: HandleResult,
) -> bool {
    let (h, idx, payload) = spec_parse_part(plain)->Some_0;
    &&& part_applied(before.spec_get(h), after.spec_get(h), idx as int, payload)
    &&& after.spec_contains(h)
    &&& (after.spec_get(h).complete() ==> (r matches HandleResult::Assemble(v) && v@ == h))
    &&& (!after.spec_get(h).complete() ==> r == HandleResult::NoAction)
    &&& forall|h2: Seq<u8>|
        h2 != h ==> (after.spec_contains(h2) <==> before.spec_contains(h2))
    &&& forall|h2: Seq<u8>|
        h2 != h && before.spec_contains(h2) ==> after.spec_get(h2) == before.spec_get(h2)
}

impl ResourceAssembler {
    /// Take in one decrypted resource part. Unknown hashes, out-of-range
    /// indices and oversized chunks are dropped; a known part sets its bit
    /// idempotently and stores the first chunk seen for its index. The
    /// answer is `Assemble` exactly when the bitmap is full afterwards.
    pub fn handle_part(&mut self, plain: &[u8]) -> (r: HandleResult)
        requires
            old(self).well_formed(),
        ensures
            final(self).well_formed(),
            part_step(*old(self), *final(self), plain@, r),
    {
        if plain.len() < 36 {
            return HandleResult::NoAction;
        }
        let hash = crate::wire::copy_range(plain, 0, 32);
        let idx32: u32 = ((plain[32] as u32) << 24) | ((plain[33] as u32) << 16) | ((plain[34]
            as u32) << 8) | (plain[35] as u32);
        proof {
            let hb = plain@.subrange(32, 36);
            assert(hb[0] == plain@[32] && hb[1] == plain@[33] && hb[2] == plain@[34] && hb[3]
                == plain@[35]);
        }
        let ghost h = plain@.subrange(0, 32);
        let ghost payload_spec = plain@.skip(36);
        let i = match self.find(&hash) {
            Some(i) => i,
            None => {
                return HandleResult::NoAction;
            },
        };
        let total = self.resources[i].total_parts;
        if idx32 >= total {
            return HandleResult::NoAction;
        }
        if plain.len() - 36 > MAX_PART_SIZE {
            return HandleResult::NoAction;
        }
        let idx = idx32 as usize;
        let ghost before_all = self.resources@;
        let ghost before = self.resources@[i as int];
        let mut info = self.resources.remove(i);
        let already = info.received[idx];
        if !already {
            proof {
                lemma_count_true_bounds(before.received@);
                lemma_count_true_full(before.received@);
                lemma_count_true_update(before.received@, idx as int);
            }
            let payload = crate::wire::copy_range(plain, 36, plain.len());
            info.received.set(idx, true);
            info.parts.set(idx, payload);
            info.received_count = info.received_count + 1;
        } else {
            info.received.set(idx, true);
            proof {
                assert(info.received@ =~= before.received@.update(idx as int, true));
                lemma_count_true_update(before.received@, idx as int);
            }
        }
        assert(info.well_formed()) by {
            assert(info.received@ == before.received@.update(idx as int, true));
            assert forall|j: int|
                0 <= j < info.received@.len() && !info.received@[j] implies (
            #[trigger] info.parts@[j])@.len() == 0 by {
                assert(j != idx);
                assert(!before.received@[j]);
                assert(info.parts@[j] == before.parts@[j]);
            }
        }
        assert(part_applied(before, info, idx as int, payload_spec)) by {
            if before.received@[idx as int] {
                assert(parts_view(info.parts@) =~~= parts_view(before.parts@));
            } else {
                assert(parts_view(info.parts@) =~~= parts_view(before.parts@).update(
                    idx as int,
                    payload_spec,
                ));
            }
        }
        let complete_now = info.received_count == info.total_parts;
        let out = if complete_now {
            HandleResult::Assemble(info.content_hash.clone())
        } else {
            HandleResult::NoAction
        };
        assert(info.content_hash@ == h);
        self.resources.insert(i, info);
        proof {
            assert(self.resources@ =~= before_all.update(i as int, info));
            lemma_assembler_update(before_all, self.resources@, i as int, info);
        }
        out
    }

    /// Dispatch one decrypted resource packet by its context.
    pub fn handle_packet(&mut self, packet: &ResourcePacket) -> (r: HandleResult)
        requires
            old(self).well_formed(),
        ensures
            final(self).well_formed(),
            packet.context is Announce ==> announce_step(*old(self), *final(self), packet.data@, r),
            packet.context is Part ==> part_step(*old(self), *final(self), packet.data@, r),
            packet.context !is Announce && packet.context !is Part ==> *final(self) == *old(self)
                && r == HandleResult::NoAction,
    {
        match packet.context {
            ResourceContext::Announce => self.handle_announcement(packet.data.as_slice()),
            ResourceContext::Part => self.handle_part(packet.data.as_slice()),
            _ => HandleResult::NoAction,
        }
    }

    /// The request payload naming every still-missing part index, ascending;
    /// nothing when the transfer is unknown or complete.
    pub fn create_request_packet(&self, hash: &Vec<u8>) -> (r: Option<Vec<u8>>)
        requires
            self.well_formed(),
        ensures
            !self.spec_contains(hash@) ==> r is None,
            self.spec_contains(hash@) && self.spec_get(hash@).complete() ==> r is None,
            self.spec_contains(hash@) && !self.spec_get(hash@).complete() ==> (r matches Some(v)
                && v@ == hash@ + missing_bytes(
                self.spec_get(hash@).received@,
                self.spec_get(hash@).received@.len() as int,
            )),
    {
        let i = match self.find(hash) {
            Some(i) => i,
            None => {
                return None;
            },
        };
        let info = &self.resources[i];
        if info.received_count == info.total_parts {
            proof {
                lemma_count_true_full(info.received@);
            }
            return None;
        }
        proof {
            lemma_count_true_bounds(info.received@);
        }
        let mut out: Vec<u8> = Vec::new();
        out.extend_from_slice(hash.as_slice());
        assert(out@ =~= hash@);
        let n = info.received.len();
        let mut k: usize = 0;
        while k < n
            invariant
                n == info.received@.len(),
                n <= MAX_TOTAL_PARTS,
                k <= n,
                out@ == hash@ + missing_bytes(info.received@, k as int),
            decreases n - k,
        {
            if !info.received[k] {
                out.push((k as u32 >> 24) as u8);
                out.push((k as u32 >> 16) as u8);
                out.push((k as u32 >> 8) as u8);
                out.push(k as u8);
                assert(out@ =~= hash@ + missing_bytes(info.received@, k as int) + be4_of_u32(
                    k as u32,
                ));
            }
            k = k + 1;
        }
        proof {
            lemma_count_true_full(info.received@);
        }
        Some(out)
    }

    /// Concatenate the stored parts in index order and keep the result only
    /// if it hashes to the announced content hash; the proof payload is that
    /// hash. On a mismatch nothing is returned.
    pub fn assemble(&self, hash: &Vec<u8>) -> (r: Option<(Vec<u8>, Vec<u8>)>)
        requires
            self.well_formed(),
        ensures
            !self.spec_contains(hash@) ==> r is None,
            self.spec_contains(hash@) && !self.spec_get(hash@).complete() ==> r is None,
            self.spec_contains(hash@) && self.spec_get(hash@).complete() ==> {
                let bytes = parts_view(self.spec_get(hash@).parts@).flatten();
                &&& sha256_of(bytes) == hash@ ==> (r matches Some(p) && p.0@ == bytes && p.1@
                    == hash@)
                &&& sha256_of(bytes) != hash@ ==> r is None
            },
    {
        let i = match self.find(hash) {
            Some(i) => i,
            None => {
                return None;
            },
        };
        let info = &self.resources[i];
        if info.received_count != info.total_parts {
            return None;
        }
        let mut bytes: Vec<u8> = Vec::new();
        let n = info.parts.len();
        let mut k: usize = 0;
        while k < n
            invariant
                n == info.parts@.len(),
                k <= n,
                bytes@ == parts_view(info.parts@).take(k as int).flatten(),
            decreases n - k,
        {
            bytes.extend_from_slice(info.parts[k].as_slice());
            proof {
                let pv = parts_view(info.parts@);
                assert(pv.take(k + 1) =~= pv.take(k as int).push(pv[k as int]));
                pv.take(k as int).lemma_flatten_push(pv[k as int]);
            }
            k = k + 1;
        }
        assert(bytes@ == parts_view(info.parts@).flatten()) by {
            assert(parts_view(info.parts@).take(n as int) =~= parts_view(info.parts@));
        }
        let digest = sha256(bytes.as_slice());
        if bytes_eq(&digest, hash) {
            let proof_payload = crate::wire::copy_range(hash.as_slice(), 0, hash.len());
            assert(proof_payload@ =~= hash@);
            Some((bytes, proof_payload))
        } else {
            None
        }
    }
}

/// The big-endian indices of the clear flags below `upto`, ascending.
pub open spec fn missing_bytes(received: Seq<bool>, upto: int) -> Seq<u8>
    decreases upto,
{
    if upto <= 0 {
        Seq::empty()
    } else {
        missing_bytes(received, upto - 1) + if received[upto - 1] {
            Seq::<u8>::empty()
        } else {
            be4_of_u32((upto - 1) as u32)
        }
    }
}

/// What overwriting the entry at one index does to the tracked resources.
proof fn lemma_assembler_update(
    before: Seq<ResourceInfo>,
    after: Seq<ResourceInfo>,
    i: int,
    info: ResourceInfo,
)
    requires
        0 <= i < before.len(),
        before[i].content_hash@ == info.content_hash@,
        info.well_formed(),
        after == before.update(i, info),
        assembler_well_formed(before),
    ensures
        assembler_well_formed(after),
        assembler_contains(after, info.content_hash@),
        after[assembler_index(after, info.content_hash@)] == info,
        forall|h: Seq<u8>|
            h != info.content_hash@ ==> (assembler_contains(after, h) <==> assembler_contains(
                before,
                h,
            )),
        forall|h: Seq<u8>|
            h != info.content_hash@ && assembler_contains(before, h) ==> after[assembler_index(
                after,
                h,
            )] == before[assembler_index(before, h)],
{
    let hh = info.content_hash@;
    assert(after[i] == info);
    assert(assembler_contains(after, hh));
    let k0 = assembler_index(after, hh);
    assert(after[k0].content_hash@ == hh);
    if k0 != i {
        assert(after[k0] == before[k0]);
        assert(before[k0].content_hash@ != before[i].content_hash@);
    }
    assert forall|h: Seq<u8>|
        h != hh implies (assembler_contains(after, h) <==> assembler_contains(before, h)) by {
        if assembler_contains(before, h) {
            let k = choose|k: int| 0 <= k < before.len() && (#[trigger] before[k]).content_hash@ == h;
            assert(after[k].content_hash@ == h);
        }
        if assembler_contains(after, h) {
            let k = choose|k: int| 0 <= k < after.len() && (#[trigger] after[k]).content_hash@ == h;
            assert(k != i);
            assert(before[k].content_hash@ == h);
        }
    }
    assert forall|h: Seq<u8>|
        h != hh && assembler_contains(before, h) implies after[assembler_index(after, h)]
        == before[assembler_index(before, h)] by {
        let k = choose|k: int| 0 <= k < before.len() && (#[trigger] before[k]).content_hash@ == h;
        assert(after[k].content_hash@ == h);
        let k1 = assembler_index(after, h);
        let k2 = assembler_index(before, h);
        assert(after[k1].content_hash@ == h);
        assert(before[k2].content_hash@ == h);
        assert(k1 != i);
        assert(before[k1].content_hash@ == h);
        if k1 != k2 {
            assert(before[k1].content_hash@ != before[k2].content_hash@);
        }
    }
}

/// Content split into chunks of at most `part_size` bytes, in order.
pub open spec fn chunks_of(content: Seq<u8>, part_size: int) -> Seq<Seq<u8>>
    recommends
        part_size > 0,
    decreases content.len(),
{
    if part_size <= 0 || content.len() <= part_size {
        seq![content]
    } else {
        seq![content.take(part_size)] + chunks_of(content.skip(part_size), part_size)
    }
}

/// Reassembling every chunk of a content, in order, restores the content:
/// with the exactness of `assemble`, a transfer whose parts are the chunks
/// of one body yields that body.
pub proof fn lemma_chunks_flatten(content: Seq<u8>, part_size: int)
    requires
        part_size > 0,
    ensures
        chunks_of(content, part_size).flatten() == content,
    decreases content.len(),
{
    if content.len() <= part_size {
        assert(chunks_of(content, part_size) =~= seq![content]);
        seq![content].lemma_flatten_one_element();
    } else {
        lemma_chunks_flatten(content.skip(part_size), part_size);
        let cs = chunks_of(content, part_size);
        assert(cs == seq![content.take(part_size)] + chunks_of(content.skip(part_size), part_size));
        assert(cs.drop_first() =~= chunks_of(content.skip(part_size), part_size));
        assert(cs.first() == content.take(part_size));
        assert(cs.flatten() == cs.first() + cs.drop_first().flatten());
        assert(content.take(part_size) + content.skip(part_size) =~= content);
    }
}

/// A transfer completes exactly when every part index has been received:
/// the received count reaches the part count just when every bit is set.
pub proof fn lemma_complete_iff_all_received(info: ResourceInfo)
    requires
        info.well_formed(),
    ensures
        info.complete() <==> (forall|i: int| 0 <= i < info.total_parts ==> info.received@[i]),
{
    lemma_count_true_full(info.received@);
}

} // verus!
