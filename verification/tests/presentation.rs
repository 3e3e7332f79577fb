use breeze_shell::capture::{bgra_to_rgba, capture_byte_len, scroll_sample_offset};
use breeze_shell::document_state::{cookie_sync_incident, storage_batch, storage_commit_incident, StorageBatch};
use breeze_shell::geometry::Rect;
use breeze_shell::text::caret_after;
use breeze_shell::navigation_response::{navigation_target, NavigationTarget};
use breeze_shell::navigation_response::{
    document_body_length, install_incident, network_incident, on_fetch_error, on_network_complete,
    on_page_headers, presentation_incident, submission_incident, FetchFailure,
};
use breeze_shell::navigation_transaction::{LoadedPage, NavigationPhase, NavigationTransaction};
use breeze_shell::native_controls::ControlKind;
use breeze_shell::presentation::{
    accessibility_rejection, admit_presentation, content_rect, damage_action, damage_clip,
    presentation_status, repaint_plan, runtime_incidents, script_redirect, DamageAction,
    PresentationChanges, RepaintPlan, ScriptRedirect,
};
use breeze_shell::script_navigation::ScriptNavigationGuard;
use breeze_shell::surface_paint::{content_span, control_text, line_visible, opacity_step, paint_region, ItemClass};

fn page(url: &str) -> LoadedPage {
    LoadedPage {
        streaming: false,
        body: b"<p>hi</p>".to_vec(),
        final_url: url.into(),
        status: 200,
        content_type: "text/html".into(),
        bytes: 9,
        network_time_us: 12_345,
    }
}

fn rect(left: i32, top: i32, right: i32, bottom: i32) -> Rect {
    Rect { left, top, right, bottom }
}

fn no_changes() -> PresentationChanges {
    PresentationChanges {
        first: false,
        layout_changed: false,
        images_changed: false,
        glyph_epoch_changed: false,
        glyphs_changed: false,
        glyphs_redefined: false,
        full_repaint: false,
        damage_has_rect: false,
    }
}

#[test]
fn only_newer_presentations_of_the_owned_document_are_installed() {
    assert_eq!(admit_presentation(true, 1, 0), Some(true));
    assert_eq!(admit_presentation(true, 5, 4), Some(false));
    assert_eq!(admit_presentation(true, 4, 4), None);
    assert_eq!(admit_presentation(true, 3, 4), None);
    assert_eq!(admit_presentation(false, 9, 0), None);
}

#[test]
fn script_redirects_follow_new_targets_once() {
    let mut guard = ScriptNavigationGuard::new();
    guard.reset("https://a.test/");
    assert!(matches!(script_redirect(&mut guard, None, "https://a.test/"), ScriptRedirect::Stay));
    assert!(matches!(
        script_redirect(&mut guard, Some("https://a.test/"), "https://a.test/"),
        ScriptRedirect::Stay
    ));
    match script_redirect(&mut guard, Some("https://a.test/next"), "https://a.test/") {
        ScriptRedirect::Follow(url) => assert_eq!(url, "https://a.test/next"),
        other => panic!("unexpected {other:?}"),
    }
    match script_redirect(&mut guard, Some("https://a.test/next"), "https://a.test/other") {
        ScriptRedirect::Blocked(status) => assert_eq!(
            status,
            "Script navigation blocked: the target already appeared in this navigation chain"
        ),
        other => panic!("unexpected {other:?}"),
    }
}

#[test]
fn status_line_names_script_activity_only_when_there_was_some() {
    assert_eq!(presentation_status(200, 0, 0, 0), "HTTP 200  •  isolated renderer");
    assert_eq!(
        presentation_status(200, 3, 7, 1),
        "HTTP 200  •  isolated renderer  •  JS 3 / 7 mutations / 1 errors"
    );
    assert_eq!(
        presentation_status(404, 0, 0, 2),
        "HTTP 404  •  isolated renderer  •  JS 0 / 0 mutations / 2 errors"
    );
    assert_eq!(
        accessibility_rejection("duplicate node 4"),
        "renderer accessibility tree was rejected: duplicate node 4"
    );
}

#[test]
fn repaint_plan_follows_what_changed() {
    assert_eq!(repaint_plan(&no_changes(), true), RepaintPlan::Hidden);
    assert_eq!(repaint_plan(&no_changes(), false), RepaintPlan::AccessibilityOnly);
    let layout = PresentationChanges { layout_changed: true, damage_has_rect: true, ..no_changes() };
    assert_eq!(repaint_plan(&layout, false), RepaintPlan::Damage);
    let unbounded = PresentationChanges { layout_changed: true, ..no_changes() };
    assert_eq!(repaint_plan(&unbounded, false), RepaintPlan::UpdateOnly);
    let images = PresentationChanges { images_changed: true, damage_has_rect: true, ..no_changes() };
    assert_eq!(repaint_plan(&images, false), RepaintPlan::Content);
    let first = PresentationChanges { first: true, glyph_epoch_changed: true, ..no_changes() };
    assert_eq!(repaint_plan(&first, false), RepaintPlan::Content);
    assert_eq!(repaint_plan(&first, true), RepaintPlan::Hidden);
}

#[test]
fn content_area_and_damage_are_clipped_to_the_page() {
    let client = rect(0, 0, 1280, 720);
    assert_eq!(content_rect(client, 104, 30), rect(0, 104, 1280, 690));
    assert_eq!(content_rect(rect(0, 0, 300, 100), 104, 30), rect(0, 104, 300, 104));
    assert_eq!(damage_clip(rect(10, 200, 50, 220), client, 104, 30), Some(rect(8, 198, 52, 222)));
    assert_eq!(damage_clip(rect(10, 100, 50, 103), client, 104, 30), Some(rect(8, 104, 52, 105)));
    assert_eq!(damage_clip(rect(10, 60, 50, 90), client, 104, 30), None);
    assert_eq!(damage_clip(rect(1270, 680, 1300, 700), client, 104, 30), Some(rect(1268, 678, 1280, 690)));
    assert_eq!(damage_clip(rect(i32::MIN, 200, i32::MAX, 300), client, 104, 30), Some(rect(0, 198, 1280, 302)));
    assert_eq!(damage_action(true, true, true, true), DamageAction::Nothing);
    assert_eq!(damage_action(false, true, true, true), DamageAction::WholeWindow);
    assert_eq!(damage_action(false, false, false, true), DamageAction::WholeWindow);
    assert_eq!(damage_action(false, false, true, false), DamageAction::WholeWindow);
    assert_eq!(damage_action(false, false, true, true), DamageAction::Region);
}

#[test]
fn runtime_report_incidents_keep_sixteen_of_each_kind() {
    let console: Vec<String> = (0..20).map(|i| format!("log {i}")).collect();
    let errors = vec!["TypeError".to_string()];
    let diagnostics: Vec<String> = Vec::new();
    let incidents = runtime_incidents(&console, &errors, &diagnostics);
    assert_eq!(incidents.len(), 17);
    assert_eq!(incidents[0], ("console", "log 0".to_string()));
    assert_eq!(incidents[15], ("console", "log 15".to_string()));
    assert_eq!(incidents[16], ("script-error", "TypeError".to_string()));
}

#[test]
fn response_headers_of_the_current_fetch_are_accepted_with_an_incident() {
    let mut transaction = NavigationTransaction::new(page("https://home.test/"));
    let stale = transaction.begin();
    let current = transaction.begin();
    assert!(on_page_headers(&mut transaction, stale, page("https://old.test/")).is_none());
    assert_eq!(transaction.phase, NavigationPhase::Fetching);
    let incident = on_page_headers(&mut transaction, current, page("https://new.test/")).unwrap();
    assert_eq!(incident, "network complete: https://new.test/ (HTTP 200, 9 bytes, 12.3 ms)");
    assert_eq!(transaction.phase, NavigationPhase::WaitingForRenderer);
    assert_eq!(network_incident(&page("https://x.test/")), "network complete: https://x.test/ (HTTP 200, 9 bytes, 12.3 ms)");
}

#[test]
fn body_completion_of_a_stale_fetch_is_ignored() {
    let mut transaction = NavigationTransaction::new(page("https://home.test/"));
    let generation = transaction.begin();
    let mut streaming = page("https://s.test/");
    streaming.streaming = true;
    assert!(on_page_headers(&mut transaction, generation, streaming).is_some());
    assert!(transaction.network_pending());
    assert!(on_network_complete(&mut transaction, generation + 1, 10, 10, 0).is_none());
    assert!(transaction.network_pending());
    let incident = on_network_complete(&mut transaction, generation, 2048, 1_250, 0).unwrap();
    assert_eq!(incident, "network complete: 2048 bytes, 1.2 ms");
    assert!(!transaction.network_pending());
    assert_eq!(transaction.page.as_ref().unwrap().bytes, 2048);
}

#[test]
fn fetch_errors_fail_the_load_or_contain_a_submitted_document() {
    let mut transaction = NavigationTransaction::new(page("https://home.test/"));
    let generation = transaction.begin();
    assert!(matches!(on_fetch_error(&mut transaction, generation + 7, "reset"), FetchFailure::Stale));
    match on_fetch_error(&mut transaction, generation, "connection reset") {
        FetchFailure::LoadFailed { incident, status } => {
            assert_eq!(incident, "load failed: connection reset");
            assert_eq!(status, "Load failed: connection reset");
        }
        other => panic!("unexpected {other:?}"),
    }
    assert_eq!(transaction.phase, NavigationPhase::Failed);

    let mut submitted = NavigationTransaction::new(page("https://home.test/"));
    let document = submitted.document_id().unwrap();
    assert!(submitted.document_submitted(document, 0));
    let generation = submitted.generation();
    match on_fetch_error(&mut submitted, generation, "stream truncated") {
        FetchFailure::Contain(reason) => assert_eq!(reason, "navigation response failed: stream truncated"),
        other => panic!("unexpected {other:?}"),
    }
    assert_eq!(submitted.active_document(), Some(document));
}

#[test]
fn submission_and_presentation_incidents() {
    assert_eq!(document_body_length(10), Ok(10));
    assert_eq!(document_body_length(u32::MAX as usize), Ok(u32::MAX));
    if usize::BITS > 32 {
        assert_eq!(
            document_body_length(u32::MAX as usize + 1),
            Err("Renderer document exceeded the IPC byte limit".to_string())
        );
    }
    assert_eq!(submission_incident(7, 4096), "submitted document 7 (4096 bytes)");
    assert_eq!(
        presentation_incident(3, true, 120, 40, 2, 0),
        "revision 3 (first, 120 items, 40 accessibility nodes, 2 console, 0 errors)"
    );
    assert_eq!(
        presentation_incident(4, false, 1, 2, 3, 4),
        "revision 4 (update, 1 items, 2 accessibility nodes, 3 console, 4 errors)"
    );
    assert_eq!(install_incident(true, 4_200), Some("first presentation installed in 4.2 ms".to_string()));
    assert_eq!(install_incident(false, 49_999), None);
    assert_eq!(install_incident(false, 50_000), Some("updated presentation installed in 50.0 ms".to_string()));
}

#[test]
fn storage_batches_apply_only_to_the_owned_subscribed_document() {
    let mut transaction = NavigationTransaction::new(page("https://home.test/"));
    let document = transaction.document_id().unwrap();
    assert!(matches!(storage_batch(&transaction, Some(document), &vec![document]), StorageBatch::Ignore));
    assert!(transaction.document_submitted(document, 0));
    assert!(matches!(storage_batch(&transaction, Some(document), &vec![]), StorageBatch::Ignore));
    assert!(matches!(storage_batch(&transaction, Some(document), &vec![document, document]), StorageBatch::Apply));
    assert!(matches!(storage_batch(&transaction, Some(document + 1), &vec![document]), StorageBatch::Ignore));
    match storage_batch(&transaction, None, &vec![document]) {
        StorageBatch::Reject(error) => assert_eq!(error, "active document has no Web Storage subscription"),
        other => panic!("unexpected {other:?}"),
    }
    match storage_batch(&transaction, Some(document), &vec![document, document + 1]) {
        StorageBatch::Reject(error) => assert_eq!(error, "storage batch crosses document identity"),
        other => panic!("unexpected {other:?}"),
    }
    assert_eq!(storage_commit_incident(3), "3 ordered writes committed or acknowledged");
    assert_eq!(
        cookie_sync_incident(1, 2, 0),
        "authoritative state queued; pending=1, submitted=2, coalesced=0"
    );
}

#[test]
fn paint_region_span_and_reader_line_visibility() {
    let client = rect(0, 0, 800, 600);
    assert_eq!(paint_region(rect(10, 10, 10, 50), client), client);
    assert_eq!(paint_region(rect(10, 10, 20, 50), client), rect(10, 10, 20, 50));
    assert_eq!(content_span(rect(0, 50, 800, 300), 104), (0, 196));
    assert_eq!(content_span(rect(0, 150, 800, 600), 104), (46, 496));
    assert!(line_visible(0, 20, 0, 104, 104, 570));
    assert!(!line_visible(0, 20, 200, 104, 104, 570));
    assert!(line_visible(0, 20, 20, 104, 104, 570));
    assert!(!line_visible(1000, 20, 0, 104, 104, 570));
}

#[test]
fn hidden_opacity_groups_skip_their_nested_items() {
    let items = [
        ItemClass::Other,
        ItemClass::BeginOpacity { hidden: true },
        ItemClass::Other,
        ItemClass::BeginOpacity { hidden: false },
        ItemClass::Other,
        ItemClass::EndOpacity,
        ItemClass::EndOpacity,
        ItemClass::Other,
        ItemClass::BeginOpacity { hidden: false },
        ItemClass::EndOpacity,
    ];
    let mut depth = 0;
    let mut painted = Vec::new();
    for item in items {
        let (paint, next) = opacity_step(depth, item);
        painted.push(paint);
        depth = next;
    }
    assert_eq!(painted, vec![true, false, false, false, false, false, false, true, true, true]);
    assert_eq!(depth, 0);
}

#[test]
fn captured_controls_show_bullets_values_labels_or_placeholders() {
    assert_eq!(control_text(ControlKind::Password, "héllo", "", "secret"), "•••••");
    assert_eq!(control_text(ControlKind::Text, "", "", "Search…"), "Search…");
    assert_eq!(control_text(ControlKind::Text, "typed", "", "Search…"), "typed");
    assert_eq!(control_text(ControlKind::Select, "", "Pick one", "x"), "Pick one");
    assert_eq!(control_text(ControlKind::Submit, "", "Send", "x"), "Send");
    assert_eq!(control_text(ControlKind::Password, "", "", "pin"), "");
}

#[test]
fn capture_buffers_and_scroll_samples() {
    assert_eq!(capture_byte_len(1280, 720), Ok(1280 * 720 * 4));
    assert_eq!(capture_byte_len(0, -5), Ok(4));
    if usize::BITS == 32 {
        assert_eq!(capture_byte_len(i32::MAX, i32::MAX), Err("benchmark capture is too large".to_string()));
    }
    assert_eq!(scroll_sample_offset(1000, 1, 3), 250);
    assert_eq!(scroll_sample_offset(1000, 3, 3), 750);
    assert_eq!(scroll_sample_offset(0, 1, 1), 0);
    assert_eq!(bgra_to_rgba(&[1, 2, 3, 0, 10, 20, 30, 40, 99]), vec![3, 2, 1, 255, 30, 20, 10, 255]);
    assert!(bgra_to_rgba(&[1, 2, 3]).is_empty());
}

#[test]
fn browsing_context_names_resolve_case_insensitively() {
    assert_eq!(navigation_target(""), Ok(NavigationTarget::Current));
    assert_eq!(navigation_target("_SELF"), Ok(NavigationTarget::Current));
    assert_eq!(navigation_target("_Top"), Ok(NavigationTarget::Current));
    assert_eq!(navigation_target("_parent"), Ok(NavigationTarget::Current));
    assert_eq!(navigation_target("_Blank"), Ok(NavigationTarget::NewTab));
    assert_eq!(
        navigation_target("results"),
        Err("Navigation to a named browsing context is not supported yet")
    );
}

#[test]
fn caret_lands_after_the_last_utf16_unit() {
    assert_eq!(caret_after(""), 0);
    assert_eq!(caret_after("abc"), 3);
    assert_eq!(caret_after("é😀"), 3);
}

#[test]
fn video_frames_only_patch_the_installed_revision_at_the_same_size() {
    assert!(breeze_shell::presentation::video_frame_applies(true, 4, 4, Some((640, 360)), (640, 360)));
    assert!(!breeze_shell::presentation::video_frame_applies(false, 4, 4, Some((640, 360)), (640, 360)));
    assert!(!breeze_shell::presentation::video_frame_applies(true, 4, 3, Some((640, 360)), (640, 360)));
    assert!(!breeze_shell::presentation::video_frame_applies(true, 4, 4, None, (640, 360)));
    assert!(!breeze_shell::presentation::video_frame_applies(true, 4, 4, Some((640, 360)), (1280, 720)));
}
