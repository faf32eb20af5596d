use nomad::assembler::{HandleResult, ResourceAssembler, MAX_PART_SIZE};
use sha2::Digest;

fn announcement(hash: &[u8], total_parts: u32, total_size: u64) -> Vec<u8> {
    let mut d = hash.to_vec();
    d.extend_from_slice(&total_parts.to_be_bytes());
    d.extend_from_slice(&total_size.to_be_bytes());
    d
}

fn part(hash: &[u8], index: u32, payload: &[u8]) -> Vec<u8> {
    let mut d = hash.to_vec();
    d.extend_from_slice(&index.to_be_bytes());
    d.extend_from_slice(payload);
    d
}

#[test]
fn out_of_order_parts_with_duplicates_assemble_to_content() {
    let content = b"the quick brown fox jumps over the lazy dog".to_vec();
    let chunks: Vec<&[u8]> = vec![&content[..15], &content[15..30], &content[30..]];
    let hash = sha2::Sha256::digest(&content).to_vec();

    let mut assembler = ResourceAssembler::new();
    let r = assembler.handle_announcement(&announcement(&hash, 3, content.len() as u64));
    assert_eq!(r, HandleResult::RequestParts(hash.clone()));

    // Parts arrive out of order, with a duplicate part and a duplicate
    // announcement intermixed.
    assert_eq!(assembler.handle_part(&part(&hash, 0, chunks[0])), HandleResult::NoAction);
    assert_eq!(assembler.handle_part(&part(&hash, 2, chunks[2])), HandleResult::NoAction);
    assert_eq!(assembler.handle_part(&part(&hash, 0, chunks[0])), HandleResult::NoAction);
    assert_eq!(
        assembler.handle_announcement(&announcement(&hash, 3, content.len() as u64)),
        HandleResult::RequestParts(hash.clone())
    );
    let r = assembler.handle_part(&part(&hash, 1, chunks[1]));
    assert_eq!(r, HandleResult::Assemble(hash.clone()));

    let (bytes, proof) = assembler.assemble(&hash).expect("hash must verify");
    assert_eq!(bytes, content);
    assert_eq!(proof, hash);
}

#[test]
fn hash_mismatch_returns_nothing() {
    let content = b"page-body".to_vec();
    let wrong_hash = vec![0u8; 32];
    let mut assembler = ResourceAssembler::new();
    assembler.handle_announcement(&announcement(&wrong_hash, 1, content.len() as u64));
    let r = assembler.handle_part(&part(&wrong_hash, 0, &content));
    assert_eq!(r, HandleResult::Assemble(wrong_hash.clone()));
    assert!(assembler.assemble(&wrong_hash).is_none());
}

#[test]
fn invalid_announcements_are_dropped() {
    let mut assembler = ResourceAssembler::new();
    // Zero parts.
    let hash = vec![1u8; 32];
    assert_eq!(assembler.handle_announcement(&announcement(&hash, 0, 10)), HandleResult::NoAction);
    // Truncated payload.
    assert_eq!(assembler.handle_announcement(&hash), HandleResult::NoAction);
    assert!(assembler.resource_info(&hash).is_none());
}

#[test]
fn unknown_hash_and_bad_index_are_dropped() {
    let mut assembler = ResourceAssembler::new();
    let hash = sha2::Sha256::digest(b"x").to_vec();
    assert_eq!(assembler.handle_part(&part(&hash, 0, b"x")), HandleResult::NoAction);
    assert!(assembler.resource_info(&hash).is_none());

    assembler.handle_announcement(&announcement(&hash, 2, 1));
    // Out-of-range index changes nothing.
    assert_eq!(assembler.handle_part(&part(&hash, 2, b"x")), HandleResult::NoAction);
    assert_eq!(assembler.resource_info(&hash), Some((0, 2)));
    // Oversized part is dropped.
    let big = vec![0u8; MAX_PART_SIZE + 1];
    assert_eq!(assembler.handle_part(&part(&hash, 0, &big)), HandleResult::NoAction);
    assert_eq!(assembler.resource_info(&hash), Some((0, 2)));
}

#[test]
fn request_packet_lists_missing_indices() {
    let content = b"abcdef".to_vec();
    let hash = sha2::Sha256::digest(&content).to_vec();
    let mut assembler = ResourceAssembler::new();
    assembler.handle_announcement(&announcement(&hash, 3, content.len() as u64));
    assembler.handle_part(&part(&hash, 1, &content[2..4]));

    let req = assembler.create_request_packet(&hash).unwrap();
    let mut expected = hash.clone();
    expected.extend_from_slice(&0u32.to_be_bytes());
    expected.extend_from_slice(&2u32.to_be_bytes());
    assert_eq!(req, expected);

    assembler.handle_part(&part(&hash, 0, &content[..2]));
    assembler.handle_part(&part(&hash, 2, &content[4..]));
    // Nothing is missing any more.
    assert!(assembler.create_request_packet(&hash).is_none());
}

#[test]
fn evict_forgets_a_transfer() {
    let hash = sha2::Sha256::digest(b"gone").to_vec();
    let mut assembler = ResourceAssembler::new();
    assembler.handle_announcement(&announcement(&hash, 1, 4));
    assert!(assembler.resource_info(&hash).is_some());
    assembler.evict(&hash);
    assert!(assembler.resource_info(&hash).is_none());
}
