use breeze_shell::accessibility::actions::{AccessibilityActionQueue, MAX_QUEUED_ACCESSIBILITY_ACTIONS};
use breeze_shell::accessibility::chrome::{
    chrome_button, chrome_response, document_response, focus_node, tab_from_node, tab_node_id,
    AccessAction, ChromeControl, ChromeResponse, ChromeRole, DocumentResponse, SemanticActions,
    TabFocus, ADDRESS_ID, BACK_ID, FORWARD_ID, GO_ID, MAX_URL_BYTES, NEW_TAB_ID, READER_ID, RELOAD_ID,
    SEARCH_TABS_ID, STATUS_ID, TAB_ID_BASE, TAB_LIST_ID, TASK_MANAGER_ID, TOOLBAR_ID, WINDOW_ID,
};
use breeze_shell::accessibility::chrome_tree::{chrome_nodes, ChromeFrame, TabEntry};
use breeze_shell::accessibility::document::{AccessibilityDocument, AccessibilityUpdate};
use breeze_shell::accessibility::node_store::SemanticNode;
use breeze_shell::geometry::Rect;

#[test]
fn disabled_chrome_buttons_take_no_requests() {
    let bounds = Rect { left: 1, top: 2, right: 30, bottom: 20 };
    let back = chrome_button(BACK_ID, ChromeRole::Button, "Back", bounds, true);
    assert!(back.disabled && !back.click && !back.focus);
    assert_eq!(back.label, "Back");
    let go = chrome_button(14, ChromeRole::Button, "Go", bounds, false);
    assert!(!go.disabled && go.click && go.focus);
    assert_eq!(go.bounds, bounds);
}

#[test]
fn tab_node_ids_lead_back_to_their_tab() {
    assert_eq!(tab_node_id(7), TAB_ID_BASE + 7);
    assert_eq!(tab_from_node(tab_node_id(7)), Some(7));
    assert_eq!(tab_from_node(NEW_TAB_ID), None);
}

#[test]
fn chrome_requests_are_routed_to_their_control() {
    assert_eq!(
        chrome_response(tab_node_id(3), AccessAction::Click, true, None),
        ChromeResponse::ActivateTab(3)
    );
    assert_eq!(chrome_response(tab_node_id(3), AccessAction::Click, false, None), ChromeResponse::Ignore);
    assert_eq!(
        chrome_response(BACK_ID, AccessAction::Focus, false, None),
        ChromeResponse::FocusControl(ChromeControl::Back)
    );
    assert_eq!(
        chrome_response(BACK_ID, AccessAction::Click, false, None),
        ChromeResponse::InvokeControl(ChromeControl::Back)
    );
    assert_eq!(chrome_response(ADDRESS_ID, AccessAction::SetValue, false, Some(10)), ChromeResponse::SetAddress);
    assert_eq!(
        chrome_response(ADDRESS_ID, AccessAction::SetValue, false, Some(MAX_URL_BYTES + 1)),
        ChromeResponse::Ignore
    );
    assert_eq!(chrome_response(NEW_TAB_ID, AccessAction::Click, false, None), ChromeResponse::NewTab);
    assert_eq!(chrome_response(STATUS_ID, AccessAction::Click, false, None), ChromeResponse::Ignore);
    assert_eq!(chrome_response(99, AccessAction::Click, false, None), ChromeResponse::NotChrome);
}

#[test]
fn page_nodes_only_take_the_requests_they_advertise() {
    let actions = SemanticActions { focus: true, invoke: false, set_value: true };
    assert_eq!(document_response(actions, AccessAction::Focus, None), DocumentResponse::Focus);
    assert_eq!(document_response(actions, AccessAction::Click, None), DocumentResponse::Ignore);
    assert_eq!(document_response(actions, AccessAction::SetValue, Some(3)), DocumentResponse::SetValue);
    assert_eq!(document_response(actions, AccessAction::SetValue, None), DocumentResponse::Ignore);
}

#[test]
fn focus_falls_back_to_the_window_without_a_platform_node() {
    let mut document = AccessibilityDocument::<()>::new();
    assert_eq!(focus_node(&document, None, false, None, TabFocus::Content), WINDOW_ID);
    assert_eq!(focus_node(&document, None, true, None, TabFocus::Content), ADDRESS_ID);
    assert_eq!(focus_node(&document, Some(ChromeControl::Back), false, None, TabFocus::Content), BACK_ID);
    document
        .apply(
            1,
            1,
            AccessibilityUpdate {
                full: true,
                root: 5,
                focus: 5,
                nodes: vec![SemanticNode { id: 5, children: Vec::new(), details: () }],
                added: Vec::new(),
                removed: Vec::new(),
            },
        )
        .unwrap();
    let platform = document.platform_id(5).unwrap();
    assert_eq!(focus_node(&document, None, false, None, TabFocus::Content), platform);
    assert_eq!(focus_node(&document, None, false, Some(5), TabFocus::Address), platform);
}

#[test]
fn action_queue_is_bounded_and_drains_in_order() {
    let mut queue = AccessibilityActionQueue::new();
    for index in 0..MAX_QUEUED_ACCESSIBILITY_ACTIONS + 3 {
        let queued = queue.submit(index);
        assert_eq!(queued, index < MAX_QUEUED_ACCESSIBILITY_ACTIONS);
    }
    let drained = queue.drain();
    assert_eq!(drained, (0..MAX_QUEUED_ACCESSIBILITY_ACTIONS).collect::<Vec<_>>());
    assert!(queue.drain().is_empty());
}

fn frame() -> ChromeFrame {
    let r = |left, top, right, bottom| Rect { left, top, right, bottom };
    ChromeFrame {
        client: r(0, 0, 1280, 720),
        dpi: 120,
        title: "Breeze".into(),
        search_tabs: r(4, 4, 36, 36),
        new_tab: r(300, 4, 332, 36),
        back: r(15, 65, 65, 115),
        forward: r(70, 65, 120, 115),
        reload: r(125, 65, 175, 115),
        address: r(200, 75, 1000, 105),
        go: r(1010, 65, 1070, 115),
        reader: r(1075, 65, 1170, 115),
        task_manager: r(1175, 65, 1270, 115),
        status: r(0, 683, 1280, 720),
        history_index: 0,
        history_len: 2,
        omnibox_text: "https://a.test/".into(),
        status_text: "Ready".into(),
    }
}

#[test]
fn chrome_tree_lists_window_tabs_toolbar_and_status_in_order() {
    let tabs = vec![
        TabEntry { id: 1, title: "A".into(), bounds: Rect { left: 40, top: 4, right: 160, bottom: 36 }, selected: true },
        TabEntry { id: 2, title: "B".into(), bounds: Rect { left: 164, top: 4, right: 284, bottom: 36 }, selected: false },
    ];
    let nodes = chrome_nodes(&frame(), &tabs, Some(0x1_0000_0000));
    let ids: Vec<u64> = nodes.iter().map(|(node, _)| node.id).collect();
    assert_eq!(
        ids,
        vec![WINDOW_ID, TAB_LIST_ID, SEARCH_TABS_ID, TAB_ID_BASE + 1, TAB_ID_BASE + 2, NEW_TAB_ID, TOOLBAR_ID, BACK_ID, FORWARD_ID, RELOAD_ID, ADDRESS_ID, GO_ID, READER_ID, TASK_MANAGER_ID, STATUS_ID]
    );
    assert_eq!(nodes[0].1, vec![TAB_LIST_ID, TOOLBAR_ID, 0x1_0000_0000, STATUS_ID]);
    assert_eq!(nodes[0].0.label, "Breeze");
    assert_eq!(nodes[1].1, vec![SEARCH_TABS_ID, TAB_ID_BASE + 1, TAB_ID_BASE + 2, NEW_TAB_ID]);
    assert_eq!(nodes[1].0.bounds, Rect { left: 0, top: 0, right: 1280, bottom: 50 });
    assert_eq!(nodes[3].0.selected, Some(true));
    assert_eq!(nodes[4].0.selected, Some(false));
    assert_eq!(nodes[6].0.bounds, Rect { left: 0, top: 50, right: 1280, bottom: 130 });
    assert!(nodes[7].0.disabled);
    assert!(!nodes[7].0.click);
    assert!(!nodes[8].0.disabled);
    assert!(nodes[10].0.set_value);
    assert_eq!(nodes[10].0.value.as_deref(), Some("https://a.test/"));
    assert_eq!(nodes[10].0.placeholder.as_deref(), Some("Search or enter an address"));
    assert_eq!(nodes[14].0.value.as_deref(), Some("Ready"));
    assert_eq!(chrome_nodes(&frame(), &vec![], None)[0].1, vec![TAB_LIST_ID, TOOLBAR_ID, STATUS_ID]);
}
