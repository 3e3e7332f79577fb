//! The chrome part of the platform accessibility tree: the window with its
//! tab list, toolbar, page document and status bar, and each of their nodes.
use super::chrome::{
    chrome_button, tab_node_id, ChromeNode, ChromeRole, ADDRESS_ID, BACK_ID, FORWARD_ID, GO_ID,
    NEW_TAB_ID, READER_ID, RELOAD_ID, SEARCH_TABS_ID, STATUS_ID, TAB_ID_BASE, TAB_LIST_ID,
    TASK_MANAGER_ID, TOOLBAR_ID, WINDOW_ID,
};
use crate::chrome_layout::{TAB_STRIP_HEIGHT_DIP, TOOLBAR_HEIGHT_DIP};
use crate::geometry::{scale_dip, spec_scale_dip, Rect};
use crate::text::string_from;
use vstd::prelude::*;

verus! {

/// One tab as the tab strip shows it.
pub struct TabEntry {
    pub id: u64,
    pub title: String,
    /// Where the tab strip drew the tab.
    pub bounds: Rect,
    /// The tab is the active one.
    pub selected: bool,
}

/// What the chrome nodes are built from: the window's client area and DPI,
/// the rectangles the window system reports for the native controls and the
/// tab strip's buttons, the history position, and the texts shown.
pub struct ChromeFrame {
    pub client: Rect,
    pub dpi: u32,
    /// The window's accessible name.
    pub title: String,
    pub search_tabs: Rect,
    pub new_tab: Rect,
    pub back: Rect,
    pub forward: Rect,
    pub reload: Rect,
    pub address: Rect,
    pub go: Rect,
    pub reader: Rect,
    pub task_manager: Rect,
    pub status: Rect,
    pub history_index: usize,
    pub history_len: usize,
    pub omnibox_text: String,
    pub status_text: String,
}

/// What a chrome node holds.
pub struct ChromeNodeView {
    pub id: u64,
    pub role: ChromeRole,
    pub label: Seq<char>,
    pub bounds: Rect,
    pub disabled: bool,
    pub click: bool,
    pub focus: bool,
    pub set_value: bool,
    pub value: Option<Seq<char>>,
    pub placeholder: Option<Seq<char>>,
    pub selected: Option<bool>,
}

pub open spec fn text_view(o: Option<String>) -> Option<Seq<char>> {
    match o {
        Some(s) => Some(s@),
        None => None,
    }
}

pub open spec fn node_view(n: ChromeNode) -> ChromeNodeView {
    ChromeNodeView {
        id: n.id,
        role: n.role,
        label: n.label@,
        bounds: n.bounds,
        disabled: n.disabled,
        click: n.click,
        focus: n.focus,
        set_value: n.set_value,
        value: text_view(n.value),
        placeholder: text_view(n.placeholder),
        selected: n.selected,
    }
}

/// The nodes with their children's ids.
pub open spec fn node_views(v: Seq<(ChromeNode, Vec<u64>)>) -> Seq<(ChromeNodeView, Seq<u64>)> {
    v.map_values(|p: (ChromeNode, Vec<u64>)| (node_view(p.0), p.1@))
}

/// A node with only a role, label and bounds.
pub open spec fn plain(id: u64, role: ChromeRole, label: Seq<char>, bounds: Rect) -> ChromeNodeView {
    ChromeNodeView {
        id,
        role,
        label,
        bounds,
        disabled: false,
        click: false,
        focus: false,
        set_value: false,
        value: None,
        placeholder: None,
        selected: None,
    }
}

/// A toolbar or tab-strip button.
pub open spec fn button(id: u64, label: Seq<char>, bounds: Rect, disabled: bool) -> ChromeNodeView {
    ChromeNodeView { disabled, click: !disabled, focus: !disabled, ..plain(id, ChromeRole::Button, label, bounds) }
}

pub open spec fn tab_view(t: TabEntry) -> ChromeNodeView {
    ChromeNodeView {
        click: true,
        focus: true,
        selected: Some(t.selected),
        ..plain((t.id + TAB_ID_BASE) as u64, ChromeRole::Tab, t.title@, t.bounds)
    }
}

/// The window's children: tab list, toolbar, the shown document's root if
/// any, and the status bar.
pub open spec fn window_children(document_root: Option<u64>) -> Seq<u64> {
    seq![TAB_LIST_ID, TOOLBAR_ID] + match document_root {
        Some(r) => seq![r],
        None => Seq::empty(),
    } + seq![STATUS_ID]
}

/// The tab list's children: the search button, the tabs in order, the new-tab button.
pub open spec fn tab_list_children(tabs: Seq<TabEntry>) -> Seq<u64> {
    seq![SEARCH_TABS_ID] + tabs.map_values(|t: TabEntry| (t.id + TAB_ID_BASE) as u64) + seq![NEW_TAB_ID]
}

/// The chrome nodes in tree order, each with its children.
pub open spec fn spec_chrome_nodes(f: ChromeFrame, tabs: Seq<TabEntry>, document_root: Option<u64>) -> Seq<(ChromeNodeView, Seq<u64>)> {
    let none = Seq::<u64>::empty();
    let strip_bottom = spec_scale_dip(TAB_STRIP_HEIGHT_DIP as int, f.dpi as int) as i32;
    let toolbar_bottom = spec_scale_dip(TOOLBAR_HEIGHT_DIP as int, f.dpi as int) as i32;
    seq![
        (plain(WINDOW_ID, ChromeRole::Window, f.title@, f.client), window_children(document_root)),
        (
            plain(TAB_LIST_ID, ChromeRole::TabList, "Tabs"@, Rect { left: 0, top: 0, right: f.client.right, bottom: strip_bottom }),
            tab_list_children(tabs),
        ),
        (button(SEARCH_TABS_ID, "Search tabs"@, f.search_tabs, false), none),
    ] + tabs.map_values(|t: TabEntry| (tab_view(t), none)) + seq![
        (button(NEW_TAB_ID, "New tab"@, f.new_tab, false), none),
        (
            plain(TOOLBAR_ID, ChromeRole::Toolbar, "Navigation"@, Rect { left: 0, top: strip_bottom, right: f.client.right, bottom: toolbar_bottom }),
            seq![BACK_ID, FORWARD_ID, RELOAD_ID, ADDRESS_ID, GO_ID, READER_ID, TASK_MANAGER_ID],
        ),
        (button(BACK_ID, "Back"@, f.back, f.history_index == 0), none),
        (button(FORWARD_ID, "Forward"@, f.forward, f.history_index + 1 >= f.history_len), none),
        (button(RELOAD_ID, "Reload"@, f.reload, false), none),
        (
            ChromeNodeView {
                focus: true,
                set_value: true,
                value: Some(f.omnibox_text@),
                placeholder: Some("Search or enter an address"@),
                ..plain(ADDRESS_ID, ChromeRole::TextInput, "Address"@, f.address)
            },
            none,
        ),
        (button(GO_ID, "Go"@, f.go, false), none),
        (button(READER_ID, "Reader"@, f.reader, false), none),
        (button(TASK_MANAGER_ID, "Task manager"@, f.task_manager, false), none),
        (ChromeNodeView { value: Some(f.status_text@), ..plain(STATUS_ID, ChromeRole::Status, "Page status"@, f.status) }, none),
    ]
}

fn plain_node(id: u64, role: ChromeRole, label: &str, bounds: Rect) -> (n: ChromeNode)
    ensures
        node_view(n) == plain(id, role, label@, bounds),
{
    ChromeNode {
        id,
        role,
        label: string_from(label),
        bounds,
        disabled: false,
        click: false,
        focus: false,
        set_value: false,
        value: None,
        placeholder: None,
        selected: None,
    }
}

fn leaf(n: ChromeNode) -> (p: (ChromeNode, Vec<u64>))
    ensures
        p.0 == n,
        p.1@ == Seq::<u64>::empty(),
{
    (n, Vec::new())
}

fn push_node(out: &mut Vec<(ChromeNode, Vec<u64>)>, p: (ChromeNode, Vec<u64>))
    ensures
        node_views(final(out)@) == node_views(old(out)@).push((node_view(p.0), p.1@)),
{
    out.push(p);
    assert(node_views(out@) =~= node_views(old(out)@).push((node_view(p.0), p.1@)));
}

/// Builds the chrome nodes of the tree in order.
#[verifier::rlimit(40)]
pub fn chrome_nodes(frame: &ChromeFrame, tabs: &Vec<TabEntry>, document_root: Option<u64>) -> (n: Vec<(ChromeNode, Vec<u64>)>)
    requires
        forall|i: int| 0 <= i < tabs.len() ==> #[trigger] tabs@[i].id + TAB_ID_BASE <= u64::MAX,
    ensures
        node_views(n@) == spec_chrome_nodes(*frame, tabs@, document_root),
{
    let strip_bottom = scale_dip(TAB_STRIP_HEIGHT_DIP, frame.dpi);
    let toolbar_bottom = scale_dip(TOOLBAR_HEIGHT_DIP, frame.dpi);
    let mut out: Vec<(ChromeNode, Vec<u64>)> = Vec::new();
    let ghost spec = spec_chrome_nodes(*frame, tabs@, document_root);

    let mut window_kids: Vec<u64> = vec![TAB_LIST_ID, TOOLBAR_ID];
    match document_root {
        Some(r) => window_kids.push(r),
        None => {},
    }
    window_kids.push(STATUS_ID);
    assert(window_kids@ =~= window_children(document_root));
    push_node(&mut out, (plain_node(WINDOW_ID, ChromeRole::Window, frame.title.as_str(), frame.client), window_kids));

    let mut tab_kids: Vec<u64> = vec![SEARCH_TABS_ID];
    let mut i: usize = 0;
    while i < tabs.len()
        invariant
            i <= tabs.len(),
            forall|k: int| 0 <= k < tabs.len() ==> #[trigger] tabs@[k].id + TAB_ID_BASE <= u64::MAX,
            tab_kids@ == seq![SEARCH_TABS_ID] + tabs@.take(i as int).map_values(|t: TabEntry| (t.id + TAB_ID_BASE) as u64),
        decreases tabs.len() - i,
    {
        let id = tab_node_id(tabs[i].id);
        tab_kids.push(id);
        proof {
            assert(tabs@.take(i + 1) =~= tabs@.take(i as int).push(tabs@[i as int]));
            assert(tab_kids@ =~= seq![SEARCH_TABS_ID] + tabs@.take(i + 1).map_values(|t: TabEntry| (t.id + TAB_ID_BASE) as u64));
        }
        i = i + 1;
    }
    tab_kids.push(NEW_TAB_ID);
    assert(tabs@.take(tabs.len() as int) =~= tabs@);
    assert(tab_kids@ =~= tab_list_children(tabs@));
    let tab_list_bounds = Rect { left: 0, top: 0, right: frame.client.right, bottom: strip_bottom };
    push_node(&mut out, (plain_node(TAB_LIST_ID, ChromeRole::TabList, "Tabs", tab_list_bounds), tab_kids));
    push_node(&mut out, leaf(chrome_button(SEARCH_TABS_ID, ChromeRole::Button, "Search tabs", frame.search_tabs, false)));
    let ghost head = node_views(out@);
    assert(head.len() == 3);

    let mut j: usize = 0;
    while j < tabs.len()
        invariant
            j <= tabs.len(),
            forall|k: int| 0 <= k < tabs.len() ==> #[trigger] tabs@[k].id + TAB_ID_BASE <= u64::MAX,
            node_views(out@) == head + tabs@.take(j as int).map_values(|t: TabEntry| (tab_view(t), Seq::<u64>::empty())),
        decreases tabs.len() - j,
    {
        let t = &tabs[j];
        let node = ChromeNode {
            selected: Some(t.selected),
            click: true,
            focus: true,
            ..plain_node(tab_node_id(t.id), ChromeRole::Tab, t.title.as_str(), t.bounds)
        };
        assert(node_view(node) == tab_view(tabs@[j as int]));
        push_node(&mut out, leaf(node));
        proof {
            assert(tabs@.take(j + 1) =~= tabs@.take(j as int).push(tabs@[j as int]));
            assert(node_views(out@) =~= head + tabs@.take(j + 1).map_values(|t: TabEntry| (tab_view(t), Seq::<u64>::empty())));
        }
        j = j + 1;
    }
    let ghost middle = node_views(out@);
    push_node(&mut out, leaf(chrome_button(NEW_TAB_ID, ChromeRole::Button, "New tab", frame.new_tab, false)));
    let toolbar_bounds = Rect { left: 0, top: strip_bottom, right: frame.client.right, bottom: toolbar_bottom };
    let toolbar_kids: Vec<u64> = vec![BACK_ID, FORWARD_ID, RELOAD_ID, ADDRESS_ID, GO_ID, READER_ID, TASK_MANAGER_ID];
    push_node(&mut out, (plain_node(TOOLBAR_ID, ChromeRole::Toolbar, "Navigation", toolbar_bounds), toolbar_kids));
    push_node(&mut out, leaf(chrome_button(BACK_ID, ChromeRole::Button, "Back", frame.back, frame.history_index == 0)));
    let forward_disabled = frame.history_index >= frame.history_len || frame.history_len - frame.history_index <= 1;
    push_node(&mut out, leaf(chrome_button(FORWARD_ID, ChromeRole::Button, "Forward", frame.forward, forward_disabled)));
    push_node(&mut out, leaf(chrome_button(RELOAD_ID, ChromeRole::Button, "Reload", frame.reload, false)));
    let address = ChromeNode {
        focus: true,
        set_value: true,
        value: Some(frame.omnibox_text.clone()),
        placeholder: Some(string_from("Search or enter an address")),
        ..plain_node(ADDRESS_ID, ChromeRole::TextInput, "Address", frame.address)
    };
    push_node(&mut out, leaf(address));
    push_node(&mut out, leaf(chrome_button(GO_ID, ChromeRole::Button, "Go", frame.go, false)));
    push_node(&mut out, leaf(chrome_button(READER_ID, ChromeRole::Button, "Reader", frame.reader, false)));
    push_node(&mut out, leaf(chrome_button(TASK_MANAGER_ID, ChromeRole::Button, "Task manager", frame.task_manager, false)));
    let status = ChromeNode {
        value: Some(frame.status_text.clone()),
        ..plain_node(STATUS_ID, ChromeRole::Status, "Page status", frame.status)
    };
    push_node(&mut out, leaf(status));
    assert(tabs@.take(tabs.len() as int) =~= tabs@);
    assert(node_views(out@) =~= spec);
    out
}

} // verus!
