use nomad::types::{IdentityInfo, NodeInfo};
use nomad::views::{
    DiscoveryView, ModalAction, SavedModalAction, SavedView, Tab, TabBar,
};

fn node(seed: u8, name: &str) -> NodeInfo {
    NodeInfo {
        hash: [seed; 16],
        name: name.to_string(),
        identity: IdentityInfo { public_key: [0; 32], verifying_key: [0; 32] },
    }
}

#[test]
fn discovery_add_node_deduplicates() {
    let mut view = DiscoveryView::new();
    view.add_node(node(1, "one"));
    view.add_node(node(2, "two"));
    view.add_node(node(1, "renamed"));
    assert_eq!(view.node_count(), 2);
    assert_eq!(view.nodes()[0].name, "renamed");
}

#[test]
fn discovery_selection_wraps() {
    let mut view = DiscoveryView::new();
    view.add_node(node(1, "a"));
    view.add_node(node(2, "b"));
    assert_eq!(view.selected_node().unwrap().name, "a");
    view.select_next();
    assert_eq!(view.selected_node().unwrap().name, "b");
    view.select_next();
    assert_eq!(view.selected_node().unwrap().name, "a");
    view.select_prev();
    assert_eq!(view.selected_node().unwrap().name, "b");
}

#[test]
fn discovery_modal_actions() {
    let mut view = DiscoveryView::new();
    assert!(matches!(view.modal_action(), ModalAction::NoAction));
    view.open_modal();
    assert!(!view.is_modal_open(), "no nodes, no modal");
    view.add_node(node(1, "a"));
    view.open_modal();
    assert!(view.is_modal_open());
    assert!(matches!(view.modal_action(), ModalAction::Connect));
    view.select_next();
    assert!(matches!(view.modal_action(), ModalAction::Save));
    view.select_next();
    assert!(matches!(view.modal_action(), ModalAction::Dismiss));
    view.select_next();
    assert!(matches!(view.modal_action(), ModalAction::Connect));
    view.close_modal();
    assert!(!view.is_modal_open());
}

#[test]
fn saved_add_node_ignores_duplicates() {
    let mut view = SavedView::new();
    view.add_node(node(1, "one"));
    view.add_node(node(1, "other"));
    assert_eq!(view.node_count(), 1);
    assert_eq!(view.nodes()[0].name, "one");
}

#[test]
fn saved_modal_delete_flow() {
    let mut view = SavedView::new();
    view.add_node(node(1, "a"));
    view.add_node(node(2, "b"));
    view.open_delete_modal();
    assert!(matches!(view.modal_action(), SavedModalAction::Delete));
    view.select_prev();
    assert!(matches!(view.modal_action(), SavedModalAction::Connect));
    view.close_modal();

    view.select_next();
    let removed = view.remove_selected().unwrap();
    assert_eq!(removed.name, "b");
    assert_eq!(view.node_count(), 1);
    assert_eq!(view.selected_node().unwrap().name, "a");
}

#[test]
fn remove_from_empty_saved_view() {
    let mut view = SavedView::new();
    assert!(view.remove_selected().is_none());
}

#[test]
fn tab_cycle_and_titles() {
    assert_eq!(Tab::Discovery.title(), "Discovery");
    assert_eq!(Tab::Saved.title(), "Saved");
    assert_eq!(Tab::MyNode.title(), "My Node");
    assert_eq!(Tab::Discovery.next(), Tab::Saved);
    assert_eq!(Tab::Saved.next(), Tab::MyNode);
    assert_eq!(Tab::MyNode.next(), Tab::Discovery);
    assert_eq!(Tab::Discovery.prev(), Tab::MyNode);
    assert_eq!(Tab::MyNode.prev(), Tab::Saved);
}

#[test]
fn tab_bar_hit_test() {
    let mut bar = TabBar::new(Tab::Discovery);
    assert_eq!(bar.hit_test(5), None);
    bar.layout(0);
    assert_eq!(bar.hit_test(0), None);
    assert_eq!(bar.hit_test(1), Some(Tab::Discovery));
    assert_eq!(bar.hit_test(12), Some(Tab::Discovery));
    assert_eq!(bar.hit_test(13), Some(Tab::Saved));
    assert_eq!(bar.hit_test(21), Some(Tab::MyNode));
    assert_eq!(bar.hit_test(30), Some(Tab::MyNode));
    assert_eq!(bar.hit_test(31), None);
}
