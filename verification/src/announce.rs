//! Announce ingestion: cache the destination, classify it as node or peer
//! by its destination-name hash, and keep the saved-node registry current.
use vstd::prelude::*;

verus! {

use vstd::utf8::{valid_utf8, encode_utf8};
use crate::types::{DestinationCache, DestinationDesc, NodeInfo, PeerInfo, node_name_hash};
use crate::registry::NodeRegistry;
use crate::wire::{parse_display_name, spec_display_name_bytes};

/// What one announce amounted to.
#[derive(Debug)]
pub enum AnnounceOutcome {
    /// A node announce: saved to the registry, to be broadcast to node
    /// subscribers.
    Node(NodeInfo),
    /// A peer announce: ephemeral, to be broadcast to peer subscribers.
    Peer(PeerInfo),
    /// The descriptor's address hash does not verify; nothing was changed.
    Invalid,
}

/// The display name a node announce carries, or the fallback name.
pub open spec fn announced_node_name(app_data: Seq<u8>, name: Seq<char>) -> bool {
    match spec_display_name_bytes(app_data) {
        Some(b) => if valid_utf8(b) {
            encode_utf8(name) == b
        } else {
            name == "Unknown"@
        },
        None => name == "Unknown"@,
    }
}

/// Take in one announce: remember the destination, classify it by its name
/// hash, and for a node announce save or update the registry entry. A
/// re-announce updates the stored name but never adds a second entry.
pub fn process_announce(
    cache: &mut DestinationCache,
    registry: &mut NodeRegistry,
    desc: DestinationDesc,
    app_data: &[u8],
) -> (r: AnnounceOutcome)
    requires
        old(cache).well_formed(),
        old(registry).well_formed(),
    ensures
        final(cache).well_formed(),
        final(registry).well_formed(),
        // A descriptor whose address hash does not verify changes nothing.
        r is Invalid <==> !desc.well_formed(),
        !desc.well_formed() ==> *final(cache) == *old(cache) && *final(registry) == *old(registry),
        // A verifying descriptor is cached, last writer wins.
        desc.well_formed() ==> final(cache).spec_contains(desc.address_hash@) && final(cache).spec_get(desc.address_hash@) == desc,
        desc.well_formed() ==> forall|a: Seq<u8>|
            a != desc.address_hash@ ==> (final(cache).spec_contains(a) <==> old(cache).spec_contains(a)),
        // Classification goes by the destination-name hash alone.
        desc.well_formed() && desc.name_hash@ == node_name_hash() ==> (r matches
            AnnounceOutcome::Node(n) && n.hash == desc.address_hash && n.identity == desc.identity
            && announced_node_name(app_data@, n.name@)),
        desc.well_formed() && desc.name_hash@ != node_name_hash() ==> (r matches
            AnnounceOutcome::Peer(p) && p.hash == desc.address_hash && p.identity == desc.identity
            && (match p.name {
            Some(n) => spec_display_name_bytes(app_data@) matches Some(b) && valid_utf8(b)
                && encode_utf8(n@) == b,
            None => !(spec_display_name_bytes(app_data@) matches Some(b) && valid_utf8(b)),
        })),
        // A node announce is saved under its address: the name is updated,
        // and an already-known node never gains a second entry.
        desc.well_formed() && desc.name_hash@ == node_name_hash() ==> {
            &&& final(registry).spec_contains(desc.address_hash@)
            &&& announced_node_name(app_data@, final(registry).spec_get(desc.address_hash@).name@)
            &&& (old(registry).spec_contains(desc.address_hash@) ==> final(registry).entries@.len() == old(registry).entries@.len())
            &&& (!old(registry).spec_contains(desc.address_hash@) ==> final(registry).entries@.len() == old(registry).entries@.len() + 1)
            &&& forall|h: Seq<u8>|
                h != desc.address_hash@ ==> (final(registry).spec_contains(h) <==> old(registry).spec_contains(h))
        },
        // A peer announce never touches the registry.
        desc.well_formed() && desc.name_hash@ != node_name_hash() ==> *final(registry) == *old(registry),
{
    if !desc.verify_address() {
        return AnnounceOutcome::Invalid;
    }
    cache.insert(desc);
    let parsed = parse_display_name(app_data);
    if desc.is_node_destination() {
        let name = match parsed {
            Some(n) => n,
            None => String::from_str("Unknown"),
        };
        let node = NodeInfo { hash: desc.address_hash, name, identity: desc.identity };
        registry.save(node.clone());
        AnnounceOutcome::Node(node)
    } else {
        AnnounceOutcome::Peer(PeerInfo { hash: desc.address_hash, name: parsed, identity: desc.identity })
    }
}

/// Whether a destination is a node by its name hash: the classification
/// never looks at `app_data`.
pub fn is_node_announce(desc: &DestinationDesc) -> (r: bool)
    ensures
        r <==> desc.name_hash@ == node_name_hash(),
{
    desc.is_node_destination()
}

/// The descriptor a fetch connects to: the cached one for the node's
/// address, or one synthesized from the saved record when none is cached.
pub fn destination_for(cache: &DestinationCache, node: &NodeInfo) -> (r: DestinationDesc)
    requires
        cache.well_formed(),
    ensures
        cache.spec_contains(node.hash@) ==> r == cache.spec_get(node.hash@),
        !cache.spec_contains(node.hash@) ==> r.address_hash == node.hash && r.name_hash@
            == node_name_hash() && r.identity == node.identity,
{
    match cache.get(&node.hash) {
        Some(d) => d,
        None => node.to_destination_desc(),
    }
}

} // verus!
