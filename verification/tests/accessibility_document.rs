use breeze_shell::accessibility::document::{
    AccessibilityDocument, AccessibilityUpdate, DOCUMENT_PLATFORM_ID_BASE,
};
use breeze_shell::accessibility::node_store::SemanticNode;
use breeze_shell::presentation::{presentation_step, PresentationStep};
use breeze_shell::script_navigation::ScriptNavigationGuard;

fn id(local: u64) -> u128 {
    (1_u128 << 64) | u128::from(local)
}

fn node(local: u64, children: &[u64]) -> SemanticNode<String> {
    SemanticNode {
        id: id(local),
        children: children.iter().map(|child| id(*child)).collect(),
        details: format!("node {local}"),
    }
}

fn update(
    full: bool,
    nodes: Vec<SemanticNode<String>>,
    added: Vec<u128>,
    removed: Vec<u128>,
) -> AccessibilityUpdate<String> {
    AccessibilityUpdate { full, root: id(1), focus: id(1), nodes, added, removed }
}

#[test]
fn full_tree_then_delta_updates_focus_and_removes_a_subtree() {
    let document = 7_u64;
    let mut tree = AccessibilityDocument::<String>::new();
    tree.apply(document, 1, update(true, vec![node(1, &[2]), node(2, &[])], Vec::new(), Vec::new()))
        .unwrap();
    let platform = tree.platform_id(id(2)).unwrap();
    let root_platform = tree.platform_id(id(1)).unwrap();
    assert!(platform >= DOCUMENT_PLATFORM_ID_BASE);
    assert_eq!(tree.document_id_for_platform(platform), Some(id(2)));

    tree.apply(document, 2, update(false, vec![node(1, &[])], Vec::new(), vec![id(2)]))
        .unwrap();
    assert!(tree.node(id(2)).is_none());
    assert_eq!(tree.focus(), Some(id(1)));
    assert_eq!(tree.platform_id(id(1)), Some(root_platform));
}

#[test]
fn rejects_stale_cross_revision_and_disconnected_updates() {
    let document = 8_u64;
    let mut tree = AccessibilityDocument::<String>::new();
    tree.apply(document, 4, update(true, vec![node(1, &[])], Vec::new(), Vec::new())).unwrap();
    assert!(tree
        .apply(document, 5, update(true, vec![node(1, &[])], Vec::new(), Vec::new()))
        .is_err());
    assert!(tree.apply(document, 4, update(false, Vec::new(), Vec::new(), Vec::new())).is_err());
    assert!(tree.apply(9, 5, update(false, Vec::new(), Vec::new(), Vec::new())).is_err());
    assert!(tree
        .apply(document, 5, update(false, vec![node(2, &[])], Vec::new(), Vec::new()))
        .is_err());
}

#[test]
fn refused_updates_leave_the_tree_and_its_identities_unchanged() {
    let mut tree = AccessibilityDocument::<String>::new();
    tree.apply(3, 1, update(true, vec![node(1, &[2]), node(2, &[])], Vec::new(), Vec::new()))
        .unwrap();
    let before = (tree.platform_id(id(1)), tree.platform_id(id(2)));
    // A new node that is not marked as added is refused before anything changes.
    let error = tree
        .apply(3, 2, update(false, vec![node(3, &[])], Vec::new(), Vec::new()))
        .err()
        .unwrap();
    assert_eq!(error, "accessibility delta has an invalid new-node marker");
    // A node listed twice as a child fails the tree check and also leaves the tree alone.
    let error = tree
        .apply(3, 2, update(false, vec![node(1, &[2, 2])], Vec::new(), Vec::new()))
        .err()
        .unwrap();
    assert_eq!(error, "accessibility node has an invalid or duplicate parent");
    assert_eq!((tree.platform_id(id(1)), tree.platform_id(id(2))), before);
    assert_eq!(tree.node_count(), 2);
}

#[test]
fn every_refusal_reason_is_reported() {
    let mut tree = AccessibilityDocument::<String>::new();
    assert_eq!(
        tree.apply(1, 0, update(true, vec![node(1, &[])], Vec::new(), Vec::new())).err().unwrap(),
        "zero accessibility revision"
    );
    assert_eq!(
        tree.apply(1, 1, update(false, vec![node(1, &[])], Vec::new(), Vec::new())).err().unwrap(),
        "accessibility delta arrived before its full tree"
    );
    tree.apply(1, 2, update(true, vec![node(1, &[2]), node(2, &[])], Vec::new(), Vec::new()))
        .unwrap();
    assert_eq!(
        tree.apply(1, 2, update(false, Vec::new(), Vec::new(), Vec::new())).err().unwrap(),
        "stale accessibility revision"
    );
    assert_eq!(
        tree.apply(1, 3, update(true, vec![node(1, &[])], Vec::new(), Vec::new())).err().unwrap(),
        "accessibility document sent a second full tree"
    );
    let mut moved_root = update(false, Vec::new(), Vec::new(), Vec::new());
    moved_root.root = id(2);
    assert_eq!(tree.apply(1, 3, moved_root).err().unwrap(), "accessibility document root changed");
    assert_eq!(
        tree.apply(1, 3, update(false, Vec::new(), Vec::new(), vec![id(5)])).err().unwrap(),
        "accessibility delta removed an unknown node"
    );
    assert_eq!(
        tree.apply(1, 3, update(false, vec![node(3, &[])], vec![id(3)], Vec::new())).err().unwrap(),
        "accessibility tree contains unreachable nodes"
    );
    assert_eq!(
        tree.apply(1, 3, update(false, vec![node(1, &[2, 2])], Vec::new(), Vec::new())).err().unwrap(),
        "accessibility node has an invalid or duplicate parent"
    );
    assert_eq!(
        tree.apply(1, 3, update(false, vec![node(2, &[1])], Vec::new(), Vec::new())).err().unwrap(),
        "accessibility root has a parent"
    );
    let mut bad_focus = update(false, Vec::new(), Vec::new(), Vec::new());
    bad_focus.focus = id(9);
    assert_eq!(
        tree.apply(1, 3, bad_focus).err().unwrap(),
        "accessibility tree has an invalid root or focus"
    );
    let mut orphan_root = update(true, vec![node(1, &[]), node(2, &[1])], Vec::new(), Vec::new());
    orphan_root.root = id(1);
    assert_eq!(
        tree.apply(2, 1, orphan_root).err().unwrap(),
        "accessibility root has a parent"
    );
}

#[test]
fn applied_delta_lists_changed_nodes_in_ascending_order_and_new_ids_are_fresh() {
    let mut tree = AccessibilityDocument::<String>::new();
    let applied = tree
        .apply(4, 1, update(true, vec![node(1, &[3, 2]), node(3, &[]), node(2, &[])], Vec::new(), Vec::new()))
        .unwrap();
    assert!(applied.full);
    assert_eq!(applied.changed, vec![id(1), id(2), id(3)]);
    let first = tree.platform_id(id(3)).unwrap();
    let applied = tree
        .apply(4, 2, update(false, vec![node(1, &[2, 4]), node(4, &[])], vec![id(4)], vec![id(3)]))
        .unwrap();
    assert!(!applied.full);
    assert_eq!(applied.changed, vec![id(1), id(4)]);
    let fresh = tree.platform_id(id(4)).unwrap();
    assert!(fresh > first);
    assert_eq!(tree.document_id_for_platform(first), None);
    assert_eq!(tree.document_id_for_platform(fresh), Some(id(4)));
    assert!(tree.clear());
    assert!(!tree.clear());
    assert_eq!(tree.root(), None);
}

#[test]
fn presentation_steps_admit_then_redirect_then_apply_the_tree() {
    let mut guard = ScriptNavigationGuard::new();
    guard.reset("https://a.test/");
    let mut tree = AccessibilityDocument::<String>::new();
    let full = || update(true, vec![node(1, &[])], Vec::new(), Vec::new());

    assert!(matches!(
        presentation_step(&mut guard, &mut tree, true, 7, 1, 1, None, "https://a.test/", full()),
        PresentationStep::Ignore
    ));
    assert!(tree.root().is_none());
    match presentation_step(&mut guard, &mut tree, true, 7, 1, 0, Some("https://b.test/"), "https://a.test/", full()) {
        PresentationStep::Follow(url) => assert_eq!(url, "https://b.test/"),
        _ => panic!("expected a redirect"),
    }
    assert!(tree.root().is_none());
    match presentation_step(&mut guard, &mut tree, true, 7, 1, 0, Some("https://b.test/"), "https://a.test/", full()) {
        PresentationStep::Install { first, blocked, .. } => {
            assert!(first);
            assert_eq!(
                blocked.as_deref(),
                Some("Script navigation blocked: the target already appeared in this navigation chain")
            );
        }
        _ => panic!("expected an install"),
    }
    assert_eq!(tree.root(), Some(id(1)));
    match presentation_step(&mut guard, &mut tree, true, 7, 2, 1, None, "https://a.test/", update(false, vec![node(2, &[])], Vec::new(), Vec::new())) {
        PresentationStep::Contain(reason) => assert!(reason.starts_with("renderer accessibility tree was rejected: ")),
        _ => panic!("expected containment"),
    }
}
