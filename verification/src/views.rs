//! Selection and modal logic of the terminal views, free of any drawing.
use vstd::prelude::*;

verus! {

use crate::types::{NodeInfo, address_eq};
use crate::registry::{registry_unique, registry_contains};

/// What a browser pane is doing.
#[derive(Debug, Clone, Copy, PartialEq, Eq)]
pub enum LoadingState {
    Idle,
    Connecting,
    Retrieving,
}

/// What the browser asks its surroundings to do.
#[derive(Debug)]
pub enum BrowserAction {
    Navigate { url: String, form_data: Vec<(String, String)> },
    NoAction,
}

/// Which pane of the conversations view has focus.
#[derive(Debug, Clone, Copy, PartialEq, Eq)]
pub enum ConversationPane {
    List,
    Messages,
    Compose,
    NewConversation,
}

impl Default for ConversationPane {
    fn default() -> (r: Self)
        ensures
            r is List,
    {
        ConversationPane::List
    }
}

/// Which side of the network view has focus.
#[derive(Debug, Clone, Copy, PartialEq, Eq)]
pub enum FocusArea {
    NodeList,
    BrowserView,
}

/// What the network view's left panel shows.
#[derive(Debug, Clone, Copy, PartialEq, Eq)]
pub enum LeftPanelMode {
    Nodes,
    Announces,
}

/// How one page request ended.
#[derive(Debug, Clone, PartialEq)]
pub enum PageRequestResult {
    Success { url: String, content: String },
    Failed { url: String, reason: String },
    TimedOut { url: String },
}

/// What the discovery modal's selected button does.
#[derive(Debug, Clone, Copy, PartialEq, Eq)]
pub enum ModalAction {
    NoAction,
    Connect,
    Save,
    Dismiss,
}

/// What the saved-nodes modal's selected button does.
#[derive(Debug, Clone, Copy, PartialEq, Eq)]
pub enum SavedModalAction {
    NoAction,
    Connect,
    Delete,
    Cancel,
}

/// The list of discovered nodes, its selection, and its action modal.
pub struct DiscoveryView {
    pub nodes: Vec<NodeInfo>,
    pub selected: usize,
    pub scroll_offset: usize,
    pub modal_open: bool,
    pub modal_selected: usize,
    pub last_height: usize,
}

impl DiscoveryView {
    /// One entry per address, a valid selection, and a modal cursor on one
    /// of the three buttons.
    pub open spec fn well_formed(self) -> bool {
        &&& registry_unique(self.nodes@)
        &&& self.nodes@.len() > 0 ==> self.selected < self.nodes@.len()
        &&& self.nodes@.len() == 0 ==> self.selected == 0
        &&& self.modal_selected < 3
    }

    pub fn new() -> (r: Self)
        ensures
            r.well_formed(),
            r.nodes@.len() == 0,
            !r.modal_open,
    {
        DiscoveryView {
            nodes: Vec::new(),
            selected: 0,
            scroll_offset: 0,
            modal_open: false,
            modal_selected: 0,
            last_height: 10,
        }
    }

    /// Add a discovered node, or refresh the name and identity of the entry
    /// that already carries its address.
    pub fn add_node(&mut self, node: NodeInfo)
        requires
            old(self).well_formed(),
        ensures
            final(self).well_formed(),
            registry_contains(final(self).nodes@, node.hash@),
            registry_contains(old(self).nodes@, node.hash@) ==> final(self).nodes@.len() == old(
                self,
            ).nodes@.len(),
            !registry_contains(old(self).nodes@, node.hash@) ==> final(self).nodes@.len() == old(
                self,
            ).nodes@.len() + 1,
            final(self).selected == old(self).selected,
            final(self).modal_open == old(self).modal_open,
    {
        let n = self.nodes.len();
        let mut i: usize = 0;
        while i < n
            invariant
                n == self.nodes@.len(),
                i <= n,
                old(self).well_formed(),
                *self == *old(self),
                forall|j: int| 0 <= j < i ==> self.nodes@[j].hash@ != node.hash@,
            decreases n - i,
        {
            if address_eq(&self.nodes[i].hash, &node.hash) {
                assert(self.nodes@[i as int].hash@ =~= node.hash@);
                let updated = NodeInfo { hash: self.nodes[i].hash, name: node.name, identity: node.identity };
                assert(updated.hash@ == node.hash@);
                self.nodes.set(i, updated);
                assert(registry_contains(final(self).nodes@, node.hash@)) by {
                    assert(final(self).nodes@[i as int].hash@ == node.hash@);
                }
                assert forall|p: int, q: int|
                    0 <= p < q < self.nodes@.len() implies self.nodes@[p].hash@
                    != self.nodes@[q].hash@ by {
                    assert(old(self).nodes@[p].hash@ != old(self).nodes@[q].hash@);
                }
                return ;
            }
            i = i + 1;
        }
        self.nodes.push(node);
        assert(registry_contains(final(self).nodes@, node.hash@)) by {
            assert(final(self).nodes@[n as int].hash@ == node.hash@);
        }
        assert forall|p: int, q: int|
            0 <= p < q < self.nodes@.len() implies self.nodes@[p].hash@ != self.nodes@[q].hash@ by {
            if q < n {
                assert(old(self).nodes@[p].hash@ != old(self).nodes@[q].hash@);
            } else {
                assert(old(self).nodes@[p].hash@ != node.hash@);
            }
        }
    }

    pub fn nodes(&self) -> (r: &Vec<NodeInfo>)
        ensures
            r@ == self.nodes@,
    {
        &self.nodes
    }

    pub fn node_count(&self) -> (r: usize)
        ensures
            r == self.nodes@.len(),
    {
        self.nodes.len()
    }

    pub fn selected_node(&self) -> (r: Option<&NodeInfo>)
        requires
            self.well_formed(),
        ensures
            self.nodes@.len() == 0 ==> r is None,
            self.nodes@.len() > 0 ==> (r matches Some(n) && *n == self.nodes@[
                self.selected as int]),
    {
        if self.nodes.len() == 0 {
            None
        } else {
            Some(&self.nodes[self.selected])
        }
    }

    pub fn is_modal_open(&self) -> (r: bool)
        ensures
            r == self.modal_open,
    {
        self.modal_open
    }

    /// Move the selection down, or the modal cursor when the modal is open;
    /// both wrap around.
    pub fn select_next(&mut self)
        requires
            old(self).well_formed(),
        ensures
            final(self).well_formed(),
            final(self).nodes@ == old(self).nodes@,
            final(self).modal_open == old(self).modal_open,
            old(self).modal_open ==> final(self).modal_selected == (old(self).modal_selected + 1)
                % 3 && final(self).selected == old(self).selected,
            !old(self).modal_open && old(self).nodes@.len() > 0 ==> final(self).selected == (old(
                self,
            ).selected + 1) % (old(self).nodes@.len() as int) && scrolled_to(
                *final(self),
                final(self).selected as int,
                old(self).scroll_offset as int,
            ),
            !old(self).modal_open && old(self).nodes@.len() == 0 ==> *final(self) == *old(self),
    {
        if self.modal_open {
            self.modal_selected = (self.modal_selected + 1) % 3;
        } else if self.nodes.len() > 0 {
            self.selected = (self.selected + 1) % self.nodes.len();
            self.adjust_scroll();
        }
    }

    /// Move the selection up, or the modal cursor when the modal is open;
    /// both wrap around.
    pub fn select_prev(&mut self)
        requires
            old(self).well_formed(),
        ensures
            final(self).well_formed(),
            final(self).nodes@ == old(self).nodes@,
            final(self).modal_open == old(self).modal_open,
            old(self).modal_open ==> final(self).modal_selected == (if old(self).modal_selected
                == 0 {
                2int
            } else {
                old(self).modal_selected - 1
            }) && final(self).selected == old(self).selected,
            !old(self).modal_open && old(self).nodes@.len() > 0 ==> final(self).selected == (if old(
                self,
            ).selected == 0 {
                old(self).nodes@.len() - 1
            } else {
                old(self).selected - 1
            }) && scrolled_to(*final(self), final(self).selected as int, old(self).scroll_offset as int),
            !old(self).modal_open && old(self).nodes@.len() == 0 ==> *final(self) == *old(self),
    {
        if self.modal_open {
            self.modal_selected = if self.modal_selected == 0 {
                2
            } else {
                self.modal_selected - 1
            };
        } else if self.nodes.len() > 0 {
            self.selected = if self.selected == 0 {
                self.nodes.len() - 1
            } else {
                self.selected - 1
            };
            self.adjust_scroll();
        }
    }

    /// Keep the selection inside the window: scroll up to it or down to it.
    pub fn adjust_scroll(&mut self)
        ensures
            final(self).nodes@ == old(self).nodes@,
            final(self).selected == old(self).selected,
            final(self).modal_open == old(self).modal_open,
            final(self).modal_selected == old(self).modal_selected,
            final(self).last_height == old(self).last_height,
            scrolled_to(*final(self), old(self).selected as int, old(self).scroll_offset as int),
    {
        if self.last_height == 0 {
            return ;
        }
        if self.selected < self.scroll_offset {
            self.scroll_offset = self.selected;
        } else if self.selected - self.scroll_offset >= self.last_height {
            self.scroll_offset = self.selected - self.last_height + 1;
        }
    }

    /// Open the action modal on its first button, if any node is listed.
    pub fn open_modal(&mut self)
        requires
            old(self).well_formed(),
        ensures
            final(self).well_formed(),
            final(self).nodes@ == old(self).nodes@,
            final(self).selected == old(self).selected,
            old(self).nodes@.len() > 0 ==> final(self).modal_open && final(self).modal_selected
                == 0,
            old(self).nodes@.len() == 0 ==> *final(self) == *old(self),
    {
        if self.nodes.len() > 0 {
            self.modal_open = true;
            self.modal_selected = 0;
        }
    }

    pub fn close_modal(&mut self)
        requires
            old(self).well_formed(),
        ensures
            final(self).well_formed(),
            !final(self).modal_open,
            final(self).nodes@ == old(self).nodes@,
            final(self).selected == old(self).selected,
            final(self).modal_selected == old(self).modal_selected,
    {
        self.modal_open = false;
    }

    /// What the modal's selected button does; nothing when it is closed.
    pub fn modal_action(&self) -> (r: ModalAction)
        requires
            self.well_formed(),
        ensures
            !self.modal_open ==> r is NoAction,
            self.modal_open && self.modal_selected == 0 ==> r is Connect,
            self.modal_open && self.modal_selected == 1 ==> r is Save,
            self.modal_open && self.modal_selected == 2 ==> r is Dismiss,
    {
        if !self.modal_open {
            return ModalAction::NoAction;
        }
        match self.modal_selected {
            0 => ModalAction::Connect,
            1 => ModalAction::Save,
            2 => ModalAction::Dismiss,
            _ => ModalAction::NoAction,
        }
    }
}

/// The selection is visible: at or below the scroll offset and, when the
/// window has a height, within it; an untouched offset stands where it was.
pub open spec fn scrolled_to(v: DiscoveryView, selected: int, old_offset: int) -> bool {
    if v.last_height == 0 {
        v.scroll_offset == old_offset
    } else if selected < old_offset {
        v.scroll_offset == selected
    } else if selected >= old_offset + v.last_height {
        v.scroll_offset == selected - v.last_height + 1
    } else {
        v.scroll_offset == old_offset
    }
}

/// The list of saved nodes, its selection, and its action modal.
pub struct SavedView {
    pub nodes: Vec<NodeInfo>,
    pub selected: usize,
    pub scroll_offset: usize,
    pub last_height: usize,
    pub modal_open: bool,
    pub modal_selected: usize,
}

impl SavedView {
    pub open spec fn well_formed(self) -> bool {
        &&& registry_unique(self.nodes@)
        &&& self.nodes@.len() > 0 ==> self.selected < self.nodes@.len()
        &&& self.nodes@.len() == 0 ==> self.selected == 0
        &&& self.modal_selected < 3
    }

    pub fn new() -> (r: Self)
        ensures
            r.well_formed(),
            r.nodes@.len() == 0,
            !r.modal_open,
    {
        SavedView {
            nodes: Vec::new(),
            selected: 0,
            scroll_offset: 0,
            last_height: 10,
            modal_open: false,
            modal_selected: 0,
        }
    }

    /// Add a saved node; an address already listed is left untouched.
    pub fn add_node(&mut self, node: NodeInfo)
        requires
            old(self).well_formed(),
        ensures
            final(self).well_formed(),
            registry_contains(final(self).nodes@, node.hash@),
            registry_contains(old(self).nodes@, node.hash@) ==> *final(self) == *old(self),
            !registry_contains(old(self).nodes@, node.hash@) ==> final(self).nodes@ == old(
                self,
            ).nodes@.push(node),
            final(self).selected == old(self).selected,
    {
        let n = self.nodes.len();
        let mut i: usize = 0;
        while i < n
            invariant
                n == self.nodes@.len(),
                i <= n,
                old(self).well_formed(),
                *self == *old(self),
                forall|j: int| 0 <= j < i ==> self.nodes@[j].hash@ != node.hash@,
            decreases n - i,
        {
            if address_eq(&self.nodes[i].hash, &node.hash) {
                assert(self.nodes@[i as int].hash@ =~= node.hash@);
                assert(registry_contains(self.nodes@, node.hash@)) by {
                    assert(self.nodes@[i as int].hash@ == node.hash@);
                }
                return ;
            }
            i = i + 1;
        }
        self.nodes.push(node);
        assert(registry_contains(final(self).nodes@, node.hash@)) by {
            assert(final(self).nodes@[n as int].hash@ == node.hash@);
        }
        assert forall|p: int, q: int|
            0 <= p < q < self.nodes@.len() implies self.nodes@[p].hash@ != self.nodes@[q].hash@ by {
            if q < n {
                assert(old(self).nodes@[p].hash@ != old(self).nodes@[q].hash@);
            } else {
                assert(old(self).nodes@[p].hash@ != node.hash@);
            }
        }
    }

    pub fn nodes(&self) -> (r: &Vec<NodeInfo>)
        ensures
            r@ == self.nodes@,
    {
        &self.nodes
    }

    pub fn node_count(&self) -> (r: usize)
        ensures
            r == self.nodes@.len(),
    {
        self.nodes.len()
    }

    pub fn selected_node(&self) -> (r: Option<&NodeInfo>)
        requires
            self.well_formed(),
        ensures
            self.nodes@.len() == 0 ==> r is None,
            self.nodes@.len() > 0 ==> (r matches Some(n) && *n == self.nodes@[
                self.selected as int]),
    {
        if self.nodes.len() == 0 {
            None
        } else {
            Some(&self.nodes[self.selected])
        }
    }

    pub fn is_modal_open(&self) -> (r: bool)
        ensures
            r == self.modal_open,
    {
        self.modal_open
    }

    /// Move the selection down, or the modal cursor when the modal is open.
    pub fn select_next(&mut self)
        requires
            old(self).well_formed(),
        ensures
            final(self).well_formed(),
            final(self).nodes@ == old(self).nodes@,
            final(self).modal_open == old(self).modal_open,
            old(self).modal_open ==> final(self).modal_selected == (old(self).modal_selected + 1)
                % 3 && final(self).selected == old(self).selected,
            !old(self).modal_open && old(self).nodes@.len() > 0 ==> final(self).selected == (old(
                self,
            ).selected + 1) % (old(self).nodes@.len() as int),
            !old(self).modal_open && old(self).nodes@.len() == 0 ==> *final(self) == *old(self),
    {
        if self.modal_open {
            self.modal_selected = (self.modal_selected + 1) % 3;
        } else if self.nodes.len() > 0 {
            self.selected = (self.selected + 1) % self.nodes.len();
            self.adjust_scroll();
        }
    }

    /// Move the selection up, or the modal cursor when the modal is open.
    pub fn select_prev(&mut self)
        requires
            old(self).well_formed(),
        ensures
            final(self).well_formed(),
            final(self).nodes@ == old(self).nodes@,
            final(self).modal_open == old(self).modal_open,
            old(self).modal_open ==> final(self).modal_selected == (if old(self).modal_selected
                == 0 {
                2int
            } else {
                old(self).modal_selected - 1
            }) && final(self).selected == old(self).selected,
            !old(self).modal_open && old(self).nodes@.len() > 0 ==> final(self).selected == (if old(
                self,
            ).selected == 0 {
                old(self).nodes@.len() - 1
            } else {
                old(self).selected - 1
            }),
            !old(self).modal_open && old(self).nodes@.len() == 0 ==> *final(self) == *old(self),
    {
        if self.modal_open {
            self.modal_selected = if self.modal_selected == 0 {
                2
            } else {
                self.modal_selected - 1
            };
        } else if self.nodes.len() > 0 {
            self.selected = if self.selected == 0 {
                self.nodes.len() - 1
            } else {
                self.selected - 1
            };
            self.adjust_scroll();
        }
    }

    /// Keep the selection inside the window.
    pub fn adjust_scroll(&mut self)
        ensures
            final(self).nodes@ == old(self).nodes@,
            final(self).selected == old(self).selected,
            final(self).modal_open == old(self).modal_open,
            final(self).modal_selected == old(self).modal_selected,
            final(self).last_height == old(self).last_height,
    {
        if self.last_height == 0 {
            return ;
        }
        if self.selected < self.scroll_offset {
            self.scroll_offset = self.selected;
        } else if self.selected - self.scroll_offset >= self.last_height {
            self.scroll_offset = self.selected - self.last_height + 1;
        }
    }

    /// Open the action modal on its connect button.
    pub fn open_modal(&mut self)
        requires
            old(self).well_formed(),
        ensures
            final(self).well_formed(),
            final(self).nodes@ == old(self).nodes@,
            old(self).nodes@.len() > 0 ==> final(self).modal_open && final(self).modal_selected
                == 0,
            old(self).nodes@.len() == 0 ==> *final(self) == *old(self),
    {
        if self.nodes.len() > 0 {
            self.modal_open = true;
            self.modal_selected = 0;
        }
    }

    /// Open the action modal directly on its delete button.
    pub fn open_delete_modal(&mut self)
        requires
            old(self).well_formed(),
        ensures
            final(self).well_formed(),
            final(self).nodes@ == old(self).nodes@,
            old(self).nodes@.len() > 0 ==> final(self).modal_open && final(self).modal_selected
                == 1,
            old(self).nodes@.len() == 0 ==> *final(self) == *old(self),
    {
        if self.nodes.len() > 0 {
            self.modal_open = true;
            self.modal_selected = 1;
        }
    }

    pub fn close_modal(&mut self)
        requires
            old(self).well_formed(),
        ensures
            final(self).well_formed(),
            !final(self).modal_open,
            final(self).nodes@ == old(self).nodes@,
            final(self).selected == old(self).selected,
    {
        self.modal_open = false;
    }

    /// What the modal's selected button does; nothing when it is closed.
    pub fn modal_action(&self) -> (r: SavedModalAction)
        requires
            self.well_formed(),
        ensures
            !self.modal_open ==> r is NoAction,
            self.modal_open && self.modal_selected == 0 ==> r is Connect,
            self.modal_open && self.modal_selected == 1 ==> r is Delete,
            self.modal_open && self.modal_selected == 2 ==> r is Cancel,
    {
        if !self.modal_open {
            return SavedModalAction::NoAction;
        }
        match self.modal_selected {
            0 => SavedModalAction::Connect,
            1 => SavedModalAction::Delete,
            2 => SavedModalAction::Cancel,
            _ => SavedModalAction::NoAction,
        }
    }

    /// Remove and return the selected node, moving the selection up off the
    /// end if it now points past the list.
    pub fn remove_selected(&mut self) -> (r: Option<NodeInfo>)
        requires
            old(self).well_formed(),
        ensures
            final(self).well_formed(),
            old(self).nodes@.len() == 0 ==> r is None && *final(self) == *old(self),
            old(self).nodes@.len() > 0 ==> (r matches Some(n) && n == old(self).nodes@[old(
                self,
            ).selected as int] && final(self).nodes@ == old(self).nodes@.remove(old(
                self,
            ).selected as int)),
    {
        if self.nodes.len() == 0 {
            return None;
        }
        let removed = self.nodes.remove(self.selected);
        if self.selected >= self.nodes.len() && self.nodes.len() > 0 {
            self.selected = self.nodes.len() - 1;
        }
        if self.nodes.len() == 0 {
            self.selected = 0;
        }
        assert forall|p: int, q: int|
            0 <= p < q < self.nodes@.len() implies self.nodes@[p].hash@ != self.nodes@[q].hash@ by {
            let s = old(self).selected as int;
            let p0 = if p < s { p } else { p + 1 };
            let q0 = if q < s { q } else { q + 1 };
            assert(self.nodes@[p] == old(self).nodes@[p0]);
            assert(self.nodes@[q] == old(self).nodes@[q0]);
            assert(old(self).nodes@[p0].hash@ != old(self).nodes@[q0].hash@);
        }
        Some(removed)
    }
}

/// One of the three main tabs.
#[derive(Debug, Clone, Copy, PartialEq, Eq)]
pub enum Tab {
    Discovery,
    Saved,
    MyNode,
}

impl Default for Tab {
    fn default() -> (r: Self)
        ensures
            r is Discovery,
    {
        Tab::Discovery
    }
}

impl Tab {
    /// The tab's caption.
    pub fn title(&self) -> (r: &'static str)
        ensures
            *self is Discovery ==> r@ == "Discovery"@,
            *self is Saved ==> r@ == "Saved"@,
            *self is MyNode ==> r@ == "My Node"@,
    {
        match self {
            Tab::Discovery => "Discovery",
            Tab::Saved => "Saved",
            Tab::MyNode => "My Node",
        }
    }

    /// The tab to the right, wrapping around.
    pub fn next(&self) -> (r: Tab)
        ensures
            *self is Discovery ==> r is Saved,
            *self is Saved ==> r is MyNode,
            *self is MyNode ==> r is Discovery,
    {
        match self {
            Tab::Discovery => Tab::Saved,
            Tab::Saved => Tab::MyNode,
            Tab::MyNode => Tab::Discovery,
        }
    }

    /// The tab to the left, wrapping around.
    pub fn prev(&self) -> (r: Tab)
        ensures
            *self is Discovery ==> r is MyNode,
            *self is Saved ==> r is Discovery,
            *self is MyNode ==> r is Saved,
    {
        match self {
            Tab::Discovery => Tab::MyNode,
            Tab::Saved => Tab::Discovery,
            Tab::MyNode => Tab::Saved,
        }
    }
}

/// The first listed area containing the column, if any.
pub open spec fn hit_of(areas: Seq<(Tab, u16, u16)>, x: u16) -> Option<Tab>
    decreases areas.len(),
{
    if areas.len() == 0 {
        None
    } else if areas[0].1 <= x && x < areas[0].2 {
        Some(areas[0].0)
    } else {
        hit_of(areas.drop_first(), x)
    }
}

/// The tab bar: the selected tab and the columns each tab was drawn at.
pub struct TabBar {
    pub selected: Tab,
    pub tab_areas: Vec<(Tab, u16, u16)>,
}

impl TabBar {
    pub fn new(selected: Tab) -> (r: Self)
        ensures
            r.selected == selected,
            r.tab_areas@.len() == 0,
    {
        TabBar { selected, tab_areas: Vec::new() }
    }

    /// Record where the three tabs stand, as the bar lays them out from
    /// this column: one leading space, then each caption padded by spaces.
    pub fn layout(&mut self, origin_x: u16)
        requires
            origin_x <= 0xffff - 40,
        ensures
            final(self).selected == old(self).selected,
            final(self).tab_areas@.len() == 3,
            final(self).tab_areas@[0] == (Tab::Discovery, (origin_x + 1) as u16, (origin_x
                + 13) as u16),
            final(self).tab_areas@[1] == (Tab::Saved, (origin_x + 13) as u16, (origin_x
                + 21) as u16),
            final(self).tab_areas@[2] == (Tab::MyNode, (origin_x + 21) as u16, (origin_x
                + 31) as u16),
    {
        self.tab_areas.clear();
        let start = origin_x + 1;
        self.tab_areas.push((Tab::Discovery, start, start + 12));
        self.tab_areas.push((Tab::Saved, start + 12, start + 20));
        self.tab_areas.push((Tab::MyNode, start + 20, start + 30));
    }

    /// The tab drawn under this column, if any.
    pub fn hit_test(&self, x: u16) -> (r: Option<Tab>)
        ensures
            r == hit_of(self.tab_areas@, x),
    {
        let n = self.tab_areas.len();
        assert(self.tab_areas@.skip(0) =~= self.tab_areas@);
        let mut i: usize = 0;
        while i < n
            invariant
                n == self.tab_areas@.len(),
                i <= n,
                hit_of(self.tab_areas@, x) == hit_of(self.tab_areas@.skip(i as int), x),
            decreases n - i,
        {
            let (tab, s, e) = self.tab_areas[i];
            if s <= x && x < e {
                assert(self.tab_areas@.skip(i as int)[0] == self.tab_areas@[i as int]);
                return Some(tab);
            }
            assert(self.tab_areas@.skip(i as int)[0] == self.tab_areas@[i as int]);
            assert(self.tab_areas@.skip(i as int).drop_first() =~= self.tab_areas@.skip(i + 1));
            i = i + 1;
        }
        assert(self.tab_areas@.skip(n as int).len() == 0);
        None
    }
}

} // verus!
