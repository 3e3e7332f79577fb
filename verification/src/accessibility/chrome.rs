//! The browser's own nodes in the platform accessibility tree: fixed ids for
//! the window chrome, ids for tabs, and what a request aimed at them does.
use super::document::AccessibilityDocument;
use crate::geometry::Rect;
use crate::text::string_from;
use vstd::prelude::*;

verus! {

pub const WINDOW_ID: u64 = 1;
pub const TAB_LIST_ID: u64 = 2;
pub const TOOLBAR_ID: u64 = 3;
pub const STATUS_ID: u64 = 4;
pub const BACK_ID: u64 = 10;
pub const FORWARD_ID: u64 = 11;
pub const RELOAD_ID: u64 = 12;
pub const ADDRESS_ID: u64 = 13;
pub const GO_ID: u64 = 14;
pub const READER_ID: u64 = 15;
pub const TASK_MANAGER_ID: u64 = 16;
pub const SEARCH_TABS_ID: u64 = 17;
pub const NEW_TAB_ID: u64 = 18;

/// Tab nodes are numbered from here on, above every fixed chrome id.
pub const TAB_ID_BASE: u64 = 0x10_0000;

/// Longest address, in UTF-8 bytes, that an assistive tool may type into the omnibox.
pub const MAX_URL_BYTES: usize = 2_097_152;

/// Role of a chrome node.
#[derive(Clone, Copy, Debug, PartialEq, Eq, Structural)]
pub enum ChromeRole {
    Window,
    TabList,
    Tab,
    Toolbar,
    Button,
    TextInput,
    Status,
}

/// A chrome node as the platform adapter shows it.
pub struct ChromeNode {
    pub id: u64,
    pub role: ChromeRole,
    pub label: String,
    pub bounds: Rect,
    pub disabled: bool,
    /// The node accepts a click request.
    pub click: bool,
    /// The node accepts a focus request.
    pub focus: bool,
    /// The node accepts a set-value request.
    pub set_value: bool,
    pub value: Option<String>,
    pub placeholder: Option<String>,
    /// Whether the node is the selected one of its kind (tabs only).
    pub selected: Option<bool>,
}

/// A toolbar button: disabled buttons take no requests, enabled ones take
/// clicks and focus.
pub fn chrome_button(id: u64, role: ChromeRole, label: &str, bounds: Rect, disabled: bool) -> (n: ChromeNode)
    ensures
        n.id == id,
        n.role == role,
        n.label@ == label@,
        n.bounds == bounds,
        n.disabled == disabled,
        n.click == !disabled,
        n.focus == !disabled,
        !n.set_value,
        n.value is None,
        n.placeholder is None,
        n.selected is None,
{
    ChromeNode {
        id,
        role,
        label: string_from(label),
        bounds,
        disabled,
        click: !disabled,
        focus: !disabled,
        set_value: false,
        value: None,
        placeholder: None,
        selected: None,
    }
}

/// The node id of the tab with this id.
pub fn tab_node_id(tab: u64) -> (n: u64)
    requires
        tab + TAB_ID_BASE <= u64::MAX,
    ensures
        n == tab + TAB_ID_BASE,
{
    tab + TAB_ID_BASE
}

/// The tab id behind a node id, if the node id is in the tab range.
pub fn tab_from_node(node: u64) -> (t: Option<u64>)
    ensures
        t == (if node >= TAB_ID_BASE && node - TAB_ID_BASE <= usize::MAX {
            Some((node - TAB_ID_BASE) as u64)
        } else {
            None::<u64>
        }),
{
    if node >= TAB_ID_BASE && node - TAB_ID_BASE <= usize::MAX as u64 {
        Some(node - TAB_ID_BASE)
    } else {
        None
    }
}

/// A tab's node id leads back to the tab, and no tab shares a fixed chrome id.
pub proof fn lemma_tab_ids_round_trip(tab: u64)
    requires
        tab + TAB_ID_BASE <= u64::MAX,
        tab <= usize::MAX,
    ensures
        tab + TAB_ID_BASE > NEW_TAB_ID,
        (tab + TAB_ID_BASE) as u64 >= TAB_ID_BASE && (tab + TAB_ID_BASE) as u64 - TAB_ID_BASE == tab,
{
}

/// What a platform request asks of a node.
#[derive(Clone, Copy, Debug, PartialEq, Eq, Structural)]
pub enum AccessAction {
    Click,
    Focus,
    SetValue,
    Other,
}

/// A native toolbar control.
#[derive(Clone, Copy, Debug, PartialEq, Eq, Structural)]
pub enum ChromeControl {
    Back,
    Forward,
    Reload,
    Go,
    Reader,
    TaskManager,
}

/// How the browser answers a request aimed at one of its own nodes.
#[derive(Clone, Copy, Debug, PartialEq, Eq, Structural)]
pub enum ChromeResponse {
    /// The node is not the browser's: the page's tree owns it.
    NotChrome,
    /// A chrome node that takes no action for this request.
    Ignore,
    ActivateTab(u64),
    FocusControl(ChromeControl),
    InvokeControl(ChromeControl),
    FocusAddress,
    /// Replace the omnibox text with the request's value.
    SetAddress,
    NewTab,
    ToggleTabSearch,
}

/// The toolbar control a fixed node id names.
pub open spec fn control_of(target: u64) -> Option<ChromeControl> {
    if target == BACK_ID {
        Some(ChromeControl::Back)
    } else if target == FORWARD_ID {
        Some(ChromeControl::Forward)
    } else if target == RELOAD_ID {
        Some(ChromeControl::Reload)
    } else if target == GO_ID {
        Some(ChromeControl::Go)
    } else if target == READER_ID {
        Some(ChromeControl::Reader)
    } else if target == TASK_MANAGER_ID {
        Some(ChromeControl::TaskManager)
    } else {
        None
    }
}

/// Decides a request for node `target`. `open_tab` tells whether the tab that
/// a tab node names is open; `value_bytes` is the UTF-8 length of the
/// request's text value, if it carries one.
pub fn chrome_response(target: u64, action: AccessAction, open_tab: bool, value_bytes: Option<usize>) -> (r: ChromeResponse)
    ensures
        r == (if target >= TAB_ID_BASE && target - TAB_ID_BASE <= usize::MAX {
            if (action == AccessAction::Click || action == AccessAction::Focus) && open_tab {
                ChromeResponse::ActivateTab((target - TAB_ID_BASE) as u64)
            } else {
                ChromeResponse::Ignore
            }
        } else if control_of(target) is Some {
            if action == AccessAction::Focus {
                ChromeResponse::FocusControl(control_of(target)->Some_0)
            } else if action == AccessAction::Click {
                ChromeResponse::InvokeControl(control_of(target)->Some_0)
            } else {
                ChromeResponse::Ignore
            }
        } else if target == ADDRESS_ID {
            if action == AccessAction::Focus {
                ChromeResponse::FocusAddress
            } else if action == AccessAction::SetValue && value_bytes is Some && value_bytes->Some_0
                <= MAX_URL_BYTES {
                ChromeResponse::SetAddress
            } else {
                ChromeResponse::Ignore
            }
        } else if target == NEW_TAB_ID {
            if action == AccessAction::Click {
                ChromeResponse::NewTab
            } else {
                ChromeResponse::Ignore
            }
        } else if target == SEARCH_TABS_ID {
            if action == AccessAction::Click {
                ChromeResponse::ToggleTabSearch
            } else {
                ChromeResponse::Ignore
            }
        } else if target == WINDOW_ID || target == TAB_LIST_ID || target == TOOLBAR_ID || target == STATUS_ID {
            ChromeResponse::Ignore
        } else {
            ChromeResponse::NotChrome
        }),
{
    if let Some(tab) = tab_from_node(target) {
        let wanted = match action {
            AccessAction::Click | AccessAction::Focus => true,
            _ => false,
        };
        return if wanted && open_tab {
            ChromeResponse::ActivateTab(tab)
        } else {
            ChromeResponse::Ignore
        };
    }
    let control = if target == BACK_ID {
        Some(ChromeControl::Back)
    } else if target == FORWARD_ID {
        Some(ChromeControl::Forward)
    } else if target == RELOAD_ID {
        Some(ChromeControl::Reload)
    } else if target == GO_ID {
        Some(ChromeControl::Go)
    } else if target == READER_ID {
        Some(ChromeControl::Reader)
    } else if target == TASK_MANAGER_ID {
        Some(ChromeControl::TaskManager)
    } else {
        None
    };
    if let Some(control) = control {
        return match action {
            AccessAction::Focus => ChromeResponse::FocusControl(control),
            AccessAction::Click => ChromeResponse::InvokeControl(control),
            _ => ChromeResponse::Ignore,
        };
    }
    if target == ADDRESS_ID {
        match action {
            AccessAction::Focus => ChromeResponse::FocusAddress,
            AccessAction::SetValue => match value_bytes {
                Some(n) => if n <= MAX_URL_BYTES {
                    ChromeResponse::SetAddress
                } else {
                    ChromeResponse::Ignore
                },
                None => ChromeResponse::Ignore,
            },
            _ => ChromeResponse::Ignore,
        }
    } else if target == NEW_TAB_ID {
        match action {
            AccessAction::Click => ChromeResponse::NewTab,
            _ => ChromeResponse::Ignore,
        }
    } else if target == SEARCH_TABS_ID {
        match action {
            AccessAction::Click => ChromeResponse::ToggleTabSearch,
            _ => ChromeResponse::Ignore,
        }
    } else if target == WINDOW_ID || target == TAB_LIST_ID || target == TOOLBAR_ID || target == STATUS_ID {
        ChromeResponse::Ignore
    } else {
        ChromeResponse::NotChrome
    }
}

/// Which requests a page node accepts.
#[derive(Clone, Copy, Debug, PartialEq, Eq, Structural, Default)]
pub struct SemanticActions {
    pub focus: bool,
    pub invoke: bool,
    pub set_value: bool,
}

/// Longest text, in UTF-8 bytes, an assistive tool may set on a page field.
pub const MAX_RENDERER_TEXT_INPUT_BYTES: usize = 1_048_576;

/// How the browser answers a request aimed at a page node.
#[derive(Clone, Copy, Debug, PartialEq, Eq, Structural)]
pub enum DocumentResponse {
    Ignore,
    /// Focus the node (and its native control, if it has one).
    Focus,
    /// Activate the node at the centre of its bounds.
    Invoke,
    /// Replace the field's text with the request's value.
    SetValue,
}

/// Decides a request for a page node that accepts `actions`; `value_bytes`
/// is the UTF-8 length of the request's text value, if it carries one.
pub fn document_response(actions: SemanticActions, action: AccessAction, value_bytes: Option<usize>) -> (r: DocumentResponse)
    ensures
        r == (if action == AccessAction::Focus && actions.focus {
            DocumentResponse::Focus
        } else if action == AccessAction::Click && actions.invoke {
            DocumentResponse::Invoke
        } else if action == AccessAction::SetValue && actions.set_value && value_bytes is Some
            && value_bytes->Some_0 <= MAX_RENDERER_TEXT_INPUT_BYTES {
            DocumentResponse::SetValue
        } else {
            DocumentResponse::Ignore
        }),
{
    match action {
        AccessAction::Focus => if actions.focus {
            DocumentResponse::Focus
        } else {
            DocumentResponse::Ignore
        },
        AccessAction::Click => if actions.invoke {
            DocumentResponse::Invoke
        } else {
            DocumentResponse::Ignore
        },
        AccessAction::SetValue => {
            if !actions.set_value {
                return DocumentResponse::Ignore;
            }
            match value_bytes {
                Some(n) => if n <= MAX_RENDERER_TEXT_INPUT_BYTES {
                    DocumentResponse::SetValue
                } else {
                    DocumentResponse::Ignore
                },
                None => DocumentResponse::Ignore,
            }
        },
        AccessAction::Other => DocumentResponse::Ignore,
    }
}

/// The platform ids of `children`, skipping any without one.
pub open spec fn platform_children_of<T>(doc: AccessibilityDocument<T>, children: Seq<u128>) -> Seq<u64>
    decreases children.len(),
{
    if children.len() == 0 {
        Seq::empty()
    } else {
        let rest = platform_children_of(doc, children.drop_last());
        let c = children.last();
        if doc.state().1.contains_key(c) {
            rest.push(doc.state().1[c])
        } else {
            rest
        }
    }
}

/// The platform ids of a node's children, in order, for the adapter.
pub fn platform_children<T>(doc: &AccessibilityDocument<T>, children: &Vec<u128>) -> (r: Vec<u64>)
    ensures
        r@ == platform_children_of(*doc, children@),
{
    let mut r: Vec<u64> = Vec::new();
    let mut i: usize = 0;
    while i < children.len()
        invariant
            i <= children@.len(),
            r@ == platform_children_of(*doc, children@.take(i as int)),
        decreases children@.len() - i,
    {
        proof {
            assert(children@.take(i + 1).drop_last() =~= children@.take(i as int));
        }
        match doc.platform_id(children[i]) {
            Some(p) => r.push(p),
            None => {},
        }
        i = i + 1;
    }
    proof {
        assert(children@.take(children@.len() as int) =~= children@);
    }
    r
}

/// Where keyboard focus sits in the tab, as the browser tracks it.
#[derive(Clone, Copy, Debug, PartialEq, Eq, Structural)]
pub enum TabFocus {
    Address,
    PageControl(u128),
    Content,
}

/// A node's platform id, or the window's when it has none.
pub open spec fn platform_or_window<T>(doc: AccessibilityDocument<T>, node: Option<u128>) -> u64 {
    match node {
        Some(n) => if doc.state().1.contains_key(n) {
            doc.state().1[n]
        } else {
            WINDOW_ID
        },
        None => WINDOW_ID,
    }
}

/// The focused platform node. `focused_chrome` is the toolbar control (or the
/// omnibox, as `None` with `address_focused`) holding native focus;
/// `focused_page_control` the page node whose native control holds it.
pub fn focus_node<T>(
    doc: &AccessibilityDocument<T>,
    focused_chrome: Option<ChromeControl>,
    address_focused: bool,
    focused_page_control: Option<u128>,
    tab_focus: TabFocus,
) -> (id: u64)
    ensures
        id == (match focused_chrome {
            Some(ChromeControl::Back) => BACK_ID,
            Some(ChromeControl::Forward) => FORWARD_ID,
            Some(ChromeControl::Reload) => RELOAD_ID,
            Some(ChromeControl::Go) => GO_ID,
            Some(ChromeControl::Reader) => READER_ID,
            Some(ChromeControl::TaskManager) => TASK_MANAGER_ID,
            None => if address_focused {
                ADDRESS_ID
            } else if focused_page_control is Some && doc.state().1.contains_key(
                focused_page_control->Some_0,
            ) {
                doc.state().1[focused_page_control->Some_0]
            } else {
                match tab_focus {
                    TabFocus::Address => ADDRESS_ID,
                    TabFocus::PageControl(n) => platform_or_window(*doc, Some(n)),
                    TabFocus::Content => platform_or_window(*doc, doc.focus_id()),
                }
            },
        }),
{
    match focused_chrome {
        Some(ChromeControl::Back) => return BACK_ID,
        Some(ChromeControl::Forward) => return FORWARD_ID,
        Some(ChromeControl::Reload) => return RELOAD_ID,
        Some(ChromeControl::Go) => return GO_ID,
        Some(ChromeControl::Reader) => return READER_ID,
        Some(ChromeControl::TaskManager) => return TASK_MANAGER_ID,
        None => {},
    }
    if address_focused {
        return ADDRESS_ID;
    }
    if let Some(node) = focused_page_control {
        if let Some(p) = doc.platform_id(node) {
            return p;
        }
    }
    let node = match tab_focus {
        TabFocus::Address => return ADDRESS_ID,
        TabFocus::PageControl(n) => Some(n),
        TabFocus::Content => doc.focus(),
    };
    match node {
        Some(n) => match doc.platform_id(n) {
            Some(p) => p,
            None => WINDOW_ID,
        },
        None => WINDOW_ID,
    }
}

/// The platform id of the page's root node while the page is shown.
pub fn visible_document_root<T>(doc: &AccessibilityDocument<T>, page_shown: bool) -> (r: Option<u64>)
    ensures
        r == (if page_shown && doc.root_id() is Some && doc.state().1.contains_key(doc.root_id()->Some_0) {
            Some(doc.state().1[doc.root_id()->Some_0])
        } else {
            None::<u64>
        }),
{
    if !page_shown {
        return None;
    }
    match doc.root() {
        Some(root) => doc.platform_id(root),
        None => None,
    }
}

} // verus!
