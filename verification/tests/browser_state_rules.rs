use breeze_shell::color_scheme::{prefers_dark_from_registry, wide};
use breeze_shell::fullscreen::{
    activation_authorizes, fullscreen_style, page_fullscreen_to_leave, plan_fullscreen_request,
    FullscreenAction, FullscreenOwner, FullscreenPlan, TRANSIENT_ACTIVATION_LIFETIME_US,
};
use breeze_shell::geometry::{Point, Rect};
use breeze_shell::page_crash::{crash_status, panic_detail, MAX_PANIC_DETAIL_CHARS};
use breeze_shell::window_placement::{BrowserWindowPlacement, CW_USEDEFAULT};

#[test]
fn transient_activation_is_document_scoped_and_expires() {
    let first = 1_u64;
    let replacement = 2_u64;
    let now = 100_000_000_u64;
    assert!(activation_authorizes(first, (first, now), now));
    assert!(!activation_authorizes(replacement, (first, now), now));
    assert!(!activation_authorizes(
        first,
        (first, now - TRANSIENT_ACTIVATION_LIFETIME_US - 1_000),
        now
    ));
}

#[test]
fn page_fullscreen_needs_the_owning_document_and_a_fresh_gesture() {
    let now = 50_000_000_u64;
    let gesture = Some((9_u64, now - 1_000));
    assert_eq!(
        plan_fullscreen_request(None, 4, 9, FullscreenAction::Enter, true, gesture, now),
        (FullscreenPlan::Enter { leave_current: false }, true)
    );
    assert_eq!(
        plan_fullscreen_request(Some(FullscreenOwner::Browser), 4, 9, FullscreenAction::Enter, true, gesture, now),
        (FullscreenPlan::Enter { leave_current: true }, true)
    );
    assert_eq!(
        plan_fullscreen_request(None, 4, 9, FullscreenAction::Enter, false, gesture, now),
        (FullscreenPlan::Deny, false)
    );
    assert_eq!(
        plan_fullscreen_request(None, 4, 9, FullscreenAction::Enter, true, None, now),
        (FullscreenPlan::Deny, false)
    );
    let page = Some(FullscreenOwner::Page { tab: 4, document: 9 });
    assert_eq!(
        plan_fullscreen_request(page, 4, 9, FullscreenAction::Exit, true, None, now),
        (FullscreenPlan::Exit, false)
    );
    assert_eq!(
        plan_fullscreen_request(page, 4, 8, FullscreenAction::Exit, true, None, now),
        (FullscreenPlan::Deny, false)
    );
    assert_eq!(page_fullscreen_to_leave(page, Some(4)), Some((4, 9)));
    assert_eq!(page_fullscreen_to_leave(page, Some(5)), None);
    assert_eq!(page_fullscreen_to_leave(Some(FullscreenOwner::Browser), None), None);
    assert_eq!(fullscreen_style(0x00CF_0000 | 0x1000_0000), 0x9000_0000);
}

#[test]
fn panic_details_are_bounded_and_have_a_fallback() {
    assert_eq!(panic_detail(None), "unknown page-engine panic");
    assert_eq!(panic_detail(Some("boom")), "boom");
    let long = "é".repeat(MAX_PANIC_DETAIL_CHARS + 5);
    assert_eq!(panic_detail(Some(&long)).chars().count(), MAX_PANIC_DETAIL_CHARS);
    assert_eq!(
        crash_status("boom"),
        "Page engine stopped after an internal error: boom. Reload to try again."
    );
}

#[test]
fn wide_strings_are_utf16_with_a_terminator() {
    assert_eq!(wide("A€😀"), vec![0x41, 0x20AC, 0xD83D, 0xDE00, 0]);
    assert_eq!(wide(""), vec![0]);
    assert_eq!(wide("A€😀"), "A€😀".encode_utf16().chain([0]).collect::<Vec<_>>());
}

#[test]
fn dark_mode_needs_a_whole_zero_registry_value() {
    assert!(prefers_dark_from_registry(0, 4, 0));
    assert!(!prefers_dark_from_registry(0, 4, 1));
    assert!(!prefers_dark_from_registry(2, 4, 0));
    assert!(!prefers_dark_from_registry(0, 2, 0));
}

#[test]
fn new_windows_scale_with_dpi_and_keep_a_minimum_size() {
    let initial = BrowserWindowPlacement::initial(1280, 720, 120, true);
    assert_eq!((initial.x, initial.y, initial.width, initial.height), (CW_USEDEFAULT, CW_USEDEFAULT, 1600, 900));
    assert!(initial.visible);
    let source = Rect { left: 100, top: 50, right: 400, bottom: 250 };
    let detached = BrowserWindowPlacement::detached(source, Point { x: 700, y: 300 }, 96);
    assert_eq!((detached.x, detached.y, detached.width, detached.height), (560, 282, 500, 360));
    assert!(!detached.visible);
    let big = Rect { left: 10, top: 20, right: 1010, bottom: 820 };
    let offset = BrowserWindowPlacement::offset(big, 192);
    assert_eq!((offset.x, offset.y, offset.width, offset.height), (74, 84, 1000, 800));
}
