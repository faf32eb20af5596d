use nomad::history::{History, MAX_HISTORY};
use nomad::types::PageUrl;

fn url(path: &str) -> PageUrl {
    PageUrl {
        dest_hash: [0u8; 16],
        path: path.to_string(),
    }
}

#[test]
fn push_and_back() {
    let mut history = History::new();

    history.push(url("/page1"));
    history.push(url("/page2"));

    assert!(history.can_go_back());
    assert!(!history.can_go_forward());

    let back = history.pop_back().unwrap();
    assert_eq!(back.path, "/page2");
}

#[test]
fn forward_after_back() {
    let mut history = History::new();

    history.push(url("/page1"));
    history.push(url("/page2"));

    let back = history.pop_back().unwrap();
    history.push_forward(back);

    assert!(history.can_go_forward());
    let fwd = history.pop_forward().unwrap();
    assert_eq!(fwd.path, "/page2");
}

#[test]
fn push_clears_forward() {
    let mut history = History::new();

    history.push(url("/page1"));
    history.push(url("/page2"));
    history.pop_back();
    history.push_forward(url("/page2"));

    history.push(url("/page3"));

    assert!(!history.can_go_forward());
}

#[test]
fn empty_history() {
    let history = History::new();
    assert!(!history.can_go_back());
    assert!(!history.can_go_forward());
}

#[test]
fn max_history_limit() {
    let mut history = History::new();

    for i in 0..150 {
        history.push(url(&format!("/page{i}")));
    }

    assert_eq!(history.back_count(), MAX_HISTORY);
}

#[test]
fn push_back_drops_oldest() {
    let mut history = History::new();
    for i in 0..(MAX_HISTORY + 5) {
        history.push_back(url(&format!("/p{i}")));
    }
    assert_eq!(history.back_count(), MAX_HISTORY);
    let top = history.pop_back().unwrap();
    assert_eq!(top.path, format!("/p{}", MAX_HISTORY + 4));
}

#[test]
fn clear_empties_both_stacks() {
    let mut history = History::new();
    history.push(url("/a"));
    history.pop_back();
    history.push_forward(url("/a"));
    history.push(url("/b"));
    history.push_forward(url("/c"));
    history.clear();
    assert_eq!(history.back_count(), 0);
    assert_eq!(history.forward_count(), 0);
}
