use breeze_shell::script_navigation::{ScriptNavigationGuard, MAX_SCRIPT_NAVIGATIONS};
use breeze_shell::tab_router::TabMessageRouter;

#[test]
fn rejects_revisited_script_navigation_targets() {
    let mut guard = ScriptNavigationGuard::default();
    guard.reset("https://example.com/start");
    assert!(guard.allow("https://example.com/next").is_ok());
    assert!(guard.allow("https://example.com/start").is_err());
    assert!(guard.allow("https://example.com/next").is_err());
}

#[test]
fn caps_each_script_navigation_chain_and_resets_for_user_navigation() {
    let mut guard = ScriptNavigationGuard::default();
    guard.reset("https://example.com/start");
    for index in 0..MAX_SCRIPT_NAVIGATIONS {
        assert!(guard.allow(&format!("https://example.com/{index}")).is_ok());
    }
    assert!(guard.allow("https://example.com/overflow").is_err());

    guard.reset("https://example.com/user-navigation");
    assert!(guard.allow("https://example.com/fresh").is_ok());
}

#[test]
fn refusals_name_their_reason_and_committed_urls_join_the_chain() {
    let mut guard = ScriptNavigationGuard::new();
    guard.reset("https://a.test/");
    guard.record_committed("https://a.test/redirected");
    assert_eq!(
        guard.allow("https://a.test/redirected"),
        Err("the target already appeared in this navigation chain")
    );
    for index in 0..MAX_SCRIPT_NAVIGATIONS {
        guard.allow(&format!("https://b.test/{index}")).unwrap();
    }
    assert_eq!(guard.allow("https://a.test/redirected"), Err("the document navigation limit was reached"));
}

#[test]
fn tab_message_routes_follow_a_tab_between_windows_and_clear_on_close() {
    let mut router = TabMessageRouter::default();
    let id = 1_u64;
    router.bind(id, 0x101);
    assert_eq!(router.destination(id), Some(0x101));

    router.bind(id, 0x202);
    assert_eq!(router.destination(id), Some(0x202));

    router.unbind(id);
    assert_eq!(router.destination(id), None);
}

#[test]
fn rebinding_one_tab_keeps_other_routes() {
    let mut router = TabMessageRouter::new();
    router.bind(1, 10);
    router.bind(2, 20);
    router.bind(1, 30);
    router.unbind(3);
    assert_eq!(router.destination(2), Some(20));
    assert_eq!(router.destination(1), Some(30));
}
