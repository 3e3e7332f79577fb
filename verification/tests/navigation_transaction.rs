use breeze_shell::navigation_transaction::{
    LoadedPage, NavigationTransaction, PresentationDeadline, FIRST_PRESENTATION_TIMEOUT_US,
};

fn page() -> LoadedPage {
    LoadedPage {
        streaming: false,
        body: b"page".to_vec(),
        final_url: "https://example.test/".into(),
        status: 200,
        content_type: "text/html".into(),
        bytes: 4,
        network_time_us: 0,
    }
}

const NOW: u64 = 1_000_000;

#[test]
fn stale_fetch_completion_cannot_enter_a_new_transaction() {
    let mut transaction = NavigationTransaction::new(page());
    let stale = transaction.begin();
    let current = transaction.begin();
    assert!(!transaction.accept_page(stale, page()));
    assert!(transaction.accept_page(current, page()));
}

#[test]
fn first_presentation_timeout_retries_once_then_fails_closed() {
    let mut transaction = NavigationTransaction::new(page());
    let first = transaction.document_id().unwrap();
    assert!(transaction.document_submitted(first, NOW));
    assert_eq!(transaction.deadline(NOW + FIRST_PRESENTATION_TIMEOUT_US), Some(PresentationDeadline::Retry));
    assert!(transaction.page_for_submission().is_some());
    assert!(transaction.document_submitted(first, NOW));
    assert_eq!(transaction.deadline(NOW + FIRST_PRESENTATION_TIMEOUT_US), Some(PresentationDeadline::Failed));
    assert!(!transaction.is_loading());
}

#[test]
fn first_presentation_releases_retry_bytes() {
    let mut transaction = NavigationTransaction::new(page());
    let document = transaction.document_id().unwrap();
    assert!(transaction.document_submitted(document, NOW));
    assert!(transaction.mark_presented(document));
    assert!(transaction.page_for_submission().is_none());
    assert!(!transaction.is_loading());
}

#[test]
fn slow_response_does_not_consume_the_renderer_deadline() {
    let mut transaction = NavigationTransaction::new(page());
    let generation = transaction.begin();
    let mut streaming = page();
    streaming.streaming = true;
    assert!(transaction.accept_page(generation, streaming));
    let document = transaction.document_id().unwrap();
    assert!(transaction.document_submitted(document, NOW));
    assert_eq!(transaction.deadline(NOW + 60_000_000), None);
    assert!(transaction.is_loading());
    transaction.network_complete(400, 60_000_000, NOW + 60_000_000);
    assert!(!transaction.network_pending());
    assert!(transaction.first_presentation_deadline_us.is_some());
    assert!(transaction.is_loading());
    assert!(transaction.mark_presented(document));
    assert!(!transaction.is_loading());
}

#[test]
fn early_paint_keeps_loading_until_eof_and_failure_clears_pending_network() {
    let mut transaction = NavigationTransaction::new(page());
    let generation = transaction.begin();
    let mut streaming = page();
    streaming.streaming = true;
    transaction.accept_page(generation, streaming);
    let document = transaction.document_id().unwrap();
    transaction.document_submitted(document, NOW);
    transaction.mark_presented(document);
    assert!(transaction.is_loading());
    transaction.network_complete(400, 2_000_000, NOW);
    assert!(!transaction.is_loading());
    transaction.begin();
    transaction.fail();
    assert!(!transaction.is_loading());
}

#[test]
fn post_presentation_recovery_is_bounded_and_new_navigation_resets_it() {
    let mut transaction = NavigationTransaction::new(page());
    let document = transaction.document_id().unwrap();
    assert!(transaction.document_submitted(document, NOW));
    assert!(transaction.mark_presented(document));
    assert!(transaction.begin_recovery().is_some());

    let recovered = transaction.document_id().unwrap();
    assert!(transaction.accept_page(transaction.generation(), page()));
    assert!(transaction.document_submitted(recovered, NOW));
    assert!(transaction.mark_presented(recovered));
    assert_eq!(transaction.begin_recovery(), None);

    transaction.begin();
    let next = transaction.generation();
    assert!(transaction.accept_page(next, page()));
    let document = transaction.document_id().unwrap();
    assert!(transaction.document_submitted(document, NOW));
    assert!(transaction.mark_presented(document));
    assert!(transaction.begin_recovery().is_some());
}

#[test]
fn generations_never_repeat_within_a_transaction() {
    let mut transaction = NavigationTransaction::new(page());
    let first = transaction.generation();
    let second = transaction.begin();
    let third = transaction.begin();
    assert!(first != second && second != third && first != third);
    assert!(!transaction.document_submitted(first, NOW));
}
