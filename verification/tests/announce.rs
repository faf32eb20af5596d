use nomad::announce::{process_announce, AnnounceOutcome};
use nomad::registry::NodeRegistry;
use nomad::types::{
    compute_name_hash, DestinationCache, DestinationDesc, IdentityInfo, NodeInfo,
    node_destination_name_hash,
};
use sha2::Digest;

fn identity(seed: u8) -> IdentityInfo {
    IdentityInfo { public_key: [seed; 32], verifying_key: [seed.wrapping_add(1); 32] }
}

/// Build a descriptor whose address hash verifies, as the transport would.
fn desc_for(name_hash: [u8; 10], id: IdentityInfo) -> DestinationDesc {
    let mut id_bytes = id.public_key.to_vec();
    id_bytes.extend_from_slice(&id.verifying_key);
    let id_hash = &sha2::Sha256::digest(&id_bytes)[..16];
    let mut buf = name_hash.to_vec();
    buf.extend_from_slice(id_hash);
    let addr = sha2::Sha256::digest(&buf);
    let mut address_hash = [0u8; 16];
    address_hash.copy_from_slice(&addr[..16]);
    DestinationDesc { address_hash, name_hash, identity: id }
}

#[test]
fn node_and_peer_announces_are_classified_by_name_hash() {
    let mut cache = DestinationCache::new();
    let mut registry = NodeRegistry::new();

    // A node announce with app_data carrying ["Alice"] as MessagePack.
    let node_desc = desc_for(node_destination_name_hash(), identity(1));
    let app_data = vec![0x91u8, 0xa5, b'A', b'l', b'i', b'c', b'e'];
    let outcome = process_announce(&mut cache, &mut registry, node_desc, &app_data);
    match outcome {
        AnnounceOutcome::Node(n) => {
            assert_eq!(n.name, "Alice");
            assert_eq!(n.hash, node_desc.address_hash);
        }
        _ => panic!("a node-name announce must classify as a node"),
    }
    assert!(registry.contains(&node_desc.address_hash));
    assert_eq!(registry.all().len(), 1);

    // A peer announce under a different name, with a raw UTF-8 name. Its
    // app_data would even parse as text; the name hash alone decides.
    let peer_desc = desc_for(compute_name_hash("lxmf", "delivery"), identity(9));
    let outcome = process_announce(&mut cache, &mut registry, peer_desc, b"Bob");
    match outcome {
        AnnounceOutcome::Peer(p) => {
            assert_eq!(p.name.as_deref(), Some("Bob"));
            assert_eq!(p.hash, peer_desc.address_hash);
        }
        _ => panic!("a foreign name hash must classify as a peer"),
    }
    // The peer announce left the registry alone.
    assert_eq!(registry.all().len(), 1);
    assert!(!registry.contains(&peer_desc.address_hash));
}

#[test]
fn reannounce_updates_name_without_duplicate() {
    let mut cache = DestinationCache::new();
    let mut registry = NodeRegistry::new();
    let desc = desc_for(node_destination_name_hash(), identity(3));

    process_announce(&mut cache, &mut registry, desc, b"First Name");
    assert_eq!(registry.all().len(), 1);
    assert_eq!(registry.get(&desc.address_hash).unwrap().name, "First Name");

    process_announce(&mut cache, &mut registry, desc, b"Second Name");
    assert_eq!(registry.all().len(), 1, "a re-announce must not add an entry");
    assert_eq!(registry.get(&desc.address_hash).unwrap().name, "Second Name");
}

#[test]
fn missing_name_defaults_to_unknown() {
    let mut cache = DestinationCache::new();
    let mut registry = NodeRegistry::new();
    let desc = desc_for(node_destination_name_hash(), identity(5));
    match process_announce(&mut cache, &mut registry, desc, &[]) {
        AnnounceOutcome::Node(n) => assert_eq!(n.name, "Unknown"),
        _ => panic!("expected a node announce"),
    }
}

#[test]
fn forged_address_hash_is_rejected() {
    let mut cache = DestinationCache::new();
    let mut registry = NodeRegistry::new();
    let mut desc = desc_for(node_destination_name_hash(), identity(7));
    desc.address_hash[0] ^= 0xff;
    assert!(matches!(
        process_announce(&mut cache, &mut registry, desc, b"X"),
        AnnounceOutcome::Invalid
    ));
    assert_eq!(registry.all().len(), 0);
}

#[test]
fn registry_lookup_update_and_remove() {
    let mut registry = NodeRegistry::new();
    let node = NodeInfo { hash: [4u8; 16], name: "a".to_string(), identity: identity(4) };
    registry.save(node.clone());
    assert!(registry.contains(&[4u8; 16]));
    registry.update_name(&[4u8; 16], "b".to_string());
    assert_eq!(registry.get(&[4u8; 16]).unwrap().name, "b");
    let removed = registry.remove(&[4u8; 16]).unwrap();
    assert_eq!(removed.name, "b");
    assert!(!registry.contains(&[4u8; 16]));
    assert!(registry.remove(&[4u8; 16]).is_none());
}

#[test]
fn destination_cache_keeps_last_writer() {
    let mut cache = DestinationCache::new();
    let mut registry = NodeRegistry::new();
    let desc = desc_for(node_destination_name_hash(), identity(11));
    process_announce(&mut cache, &mut registry, desc, b"N");
    let got = cache.get(&desc.address_hash).unwrap();
    assert_eq!(got.name_hash, desc.name_hash);
    assert!(cache.get(&[0u8; 16]).is_none());
}

#[test]
fn destination_for_prefers_the_cache() {
    let mut cache = DestinationCache::new();
    let mut registry = NodeRegistry::new();
    let desc = desc_for(node_destination_name_hash(), identity(13));
    let node = match process_announce(&mut cache, &mut registry, desc, b"N") {
        AnnounceOutcome::Node(n) => n,
        _ => panic!("expected a node announce"),
    };
    let resolved = nomad::announce::destination_for(&cache, &node);
    assert_eq!(resolved.address_hash, desc.address_hash);

    // Without a cached announce the descriptor is synthesized.
    let other = NodeInfo { hash: [9u8; 16], name: "other".to_string(), identity: identity(15) };
    let synthesized = nomad::announce::destination_for(&cache, &other);
    assert_eq!(synthesized.address_hash, [9u8; 16]);
    assert_eq!(synthesized.name_hash, node_destination_name_hash());
}
