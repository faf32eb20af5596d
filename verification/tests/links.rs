use nomad::links::{resolve_link, LinkAction, normalize_path, is_download_path, extract_filename};
use nomad::types::{IdentityInfo, NodeInfo};

fn make_node(name: &str, hash: [u8; 16]) -> NodeInfo {
    NodeInfo {
        name: name.to_string(),
        hash,
        identity: IdentityInfo {
            public_key: [0; 32],
            verifying_key: [0; 32],
        },
    }
}

#[test]
fn test_lxmf_link() {
    let url = "lxmf@0123456789abcdef0123456789abcdef";
    let action = resolve_link(url, None, &[]);
    assert!(matches!(action, LinkAction::Lxmf { .. }));
}

#[test]
fn test_relative_path() {
    let node = make_node("test", [1; 16]);
    let action = resolve_link("/page", Some(&node), &[]);
    assert!(matches!(action, LinkAction::Navigate { path, .. } if path == "/page"));
}

#[test]
fn test_download_detection() {
    let node = make_node("test", [1; 16]);

    let action = resolve_link("/file.pdf", Some(&node), &[]);
    assert!(matches!(action, LinkAction::Download { filename, .. } if filename == "file.pdf"));

    let action = resolve_link("/page.mu", Some(&node), &[]);
    assert!(matches!(action, LinkAction::Navigate { .. }));

    let action = resolve_link("/page", Some(&node), &[]);
    assert!(matches!(action, LinkAction::Navigate { .. }));
}

#[test]
fn test_colon_prefix() {
    let node = make_node("test", [1; 16]);
    let action = resolve_link(":/other", Some(&node), &[]);
    assert!(matches!(action, LinkAction::Navigate { path, .. } if path == "/other"));
}

#[test]
fn hash_prefixed_link_picks_known_node() {
    let target = make_node("target", [0xab; 16]);
    let hex = "ab".repeat(16);
    let url = format!("{hex}:/page.mu");
    let action = resolve_link(&url, None, std::slice::from_ref(&target));
    assert!(matches!(action, LinkAction::Navigate { node, path } if node.name == "target" && path == "/page.mu"));
}

#[test]
fn unknown_without_current_node() {
    let action = resolve_link("/somewhere", None, &[]);
    assert!(matches!(action, LinkAction::Unknown { url } if url == "/somewhere"));
}

#[test]
fn lxmf_link_rejects_bad_digits() {
    let action = resolve_link("lxmf@zzzz56789abcdef0123456789abcdef0", None, &[]);
    assert!(matches!(action, LinkAction::Unknown { .. }));
}

#[test]
fn normalize_adds_leading_slash() {
    assert_eq!(normalize_path("page.mu"), "/page.mu");
    assert_eq!(normalize_path("/page.mu"), "/page.mu");
}

#[test]
fn download_uses_lowercased_extension() {
    assert!(is_download_path("/FILE.PDF"));
    assert!(!is_download_path("/page.MU"));
    assert!(!is_download_path("/trailingdot."));
}

#[test]
fn filename_is_last_segment() {
    assert_eq!(extract_filename("/a/b/c.bin"), "c.bin");
    assert_eq!(extract_filename("plain"), "plain");
}
