//! What the browser does with each answer of a document fetch, and the
//! incident lines recorded along a document's way to the renderer and back.
use crate::navigation_transaction::{
    page_opt_view, LoadedPage, NavigationPhase, NavigationTransaction, PageView,
    FIRST_PRESENTATION_TIMEOUT_US,
};
use crate::text::{chars_of, decimal, millis1, push_decimal, push_millis1, push_str, string_of, text_eq};
use vstd::prelude::*;

verus! {

/// Installing a presentation that took at least this long is recorded (50 ms).
pub const SLOW_INSTALL_US: u64 = 50_000;

/// "network complete: URL (HTTP status, N bytes, T ms)".
pub open spec fn spec_network_incident(p: PageView) -> Seq<char> {
    "network complete: "@ + p.final_url + " (HTTP "@ + decimal(p.status as nat) + ", "@ + decimal(
        p.bytes as nat,
    ) + " bytes, "@ + millis1(p.network_time_us as nat) + " ms)"@
}

pub fn network_incident(page: &LoadedPage) -> (s: String)
    ensures
        s@ == spec_network_incident(page.page_view()),
{
    let mut v: Vec<char> = Vec::new();
    push_str(&mut v, "network complete: ");
    assert(v@ =~= "network complete: "@);
    push_str(&mut v, page.final_url.as_str());
    push_str(&mut v, " (HTTP ");
    push_decimal(&mut v, page.status as u64);
    push_str(&mut v, ", ");
    push_decimal(&mut v, page.bytes);
    push_str(&mut v, " bytes, ");
    push_millis1(&mut v, page.network_time_us);
    push_str(&mut v, " ms)");
    assert(v@ =~= spec_network_incident(page.page_view()));
    string_of(v.as_slice())
}

/// Hands the response headers of fetch `generation` to the transaction; the
/// incident line to record when it was accepted.
pub fn on_page_headers(transaction: &mut NavigationTransaction, generation: u64, page: LoadedPage) -> (incident: Option<String>)
    requires
        old(transaction).wf(),
    ensures
        final(transaction).wf(),
        incident is Some == (generation == old(transaction).generation && old(transaction).phase
            == NavigationPhase::Fetching),
        incident matches Some(s) ==> s@ == spec_network_incident(page.page_view()),
        incident is None ==> *final(transaction) == *old(transaction),
        incident is Some ==> final(transaction).phase == NavigationPhase::WaitingForRenderer
            && final(transaction).network_pending == page.streaming
            && page_opt_view(final(transaction).page) == Some(page.page_view())
            && final(transaction).generation == old(transaction).generation
            && final(transaction).document == old(transaction).document,
{
    let completed = network_incident(&page);
    if transaction.accept_page(generation, page) {
        Some(completed)
    } else {
        None
    }
}

/// "network complete: N bytes, T ms".
pub open spec fn spec_network_complete_incident(bytes: u64, network_time_us: u64) -> Seq<char> {
    "network complete: "@ + decimal(bytes as nat) + " bytes, "@ + millis1(network_time_us as nat) + " ms"@
}

/// The body of fetch `generation` finished arriving. A stale generation changes
/// nothing; the current one completes the transaction's network part and yields
/// the incident line.
pub fn on_network_complete(
    transaction: &mut NavigationTransaction,
    generation: u64,
    bytes: u64,
    network_time_us: u64,
    now_us: u64,
) -> (incident: Option<String>)
    requires
        old(transaction).wf(),
        now_us <= u64::MAX - FIRST_PRESENTATION_TIMEOUT_US,
    ensures
        final(transaction).wf(),
        incident is Some == (generation == old(transaction).generation),
        incident is None ==> *final(transaction) == *old(transaction),
        incident matches Some(s) ==> s@ == spec_network_complete_incident(bytes, network_time_us)
            && !final(transaction).network_pending
            && final(transaction).phase == old(transaction).phase
            && final(transaction).generation == old(transaction).generation
            && final(transaction).document == old(transaction).document
            && page_opt_view(final(transaction).page) == match old(transaction).page {
                Some(p) => Some(PageView { bytes, network_time_us, ..p.page_view() }),
                None => None,
            },
{
    if generation != transaction.generation() {
        return None;
    }
    transaction.network_complete(bytes, network_time_us, now_us);
    let mut v: Vec<char> = Vec::new();
    push_str(&mut v, "network complete: ");
    assert(v@ =~= "network complete: "@);
    push_decimal(&mut v, bytes);
    push_str(&mut v, " bytes, ");
    push_millis1(&mut v, network_time_us);
    push_str(&mut v, " ms");
    assert(v@ =~= spec_network_complete_incident(bytes, network_time_us));
    Some(string_of(v.as_slice()))
}

/// What a failed fetch leads to.
#[derive(Debug)]
pub enum FetchFailure {
    /// The failure belongs to an earlier fetch.
    Stale,
    /// A document already went to the renderer: stop its fetch and contain
    /// the page engine with this reason.
    Contain(String),
    /// The navigation failed before any document was submitted.
    LoadFailed { incident: String, status: String },
}

/// Handles a failure of fetch `generation`.
pub fn on_fetch_error(transaction: &mut NavigationTransaction, generation: u64, error: &str) -> (r: FetchFailure)
    requires
        old(transaction).wf(),
    ensures
        final(transaction).wf(),
        generation != old(transaction).generation ==> r is Stale && *final(transaction) == *old(transaction),
        generation == old(transaction).generation && old(transaction).document is Some ==> (r matches FetchFailure::Contain(reason)
            && reason@ == "navigation response failed: "@ + error@) && *final(transaction) == *old(transaction),
        generation == old(transaction).generation && old(transaction).document is None ==> (r matches FetchFailure::LoadFailed { incident, status }
            && incident@ == "load failed: "@ + error@ && status@ == "Load failed: "@ + error@)
            && *final(transaction) == (NavigationTransaction {
                network_pending: false,
                phase: NavigationPhase::Failed,
                page: None,
                document: None,
                first_presentation_deadline_us: None,
                ..*old(transaction)
            }),
{
    if generation != transaction.generation() {
        return FetchFailure::Stale;
    }
    if transaction.active_document().is_some() {
        let mut v: Vec<char> = Vec::new();
        push_str(&mut v, "navigation response failed: ");
        assert(v@ =~= "navigation response failed: "@);
        push_str(&mut v, error);
        return FetchFailure::Contain(string_of(v.as_slice()));
    }
    transaction.fail();
    let mut incident: Vec<char> = Vec::new();
    push_str(&mut incident, "load failed: ");
    assert(incident@ =~= "load failed: "@);
    push_str(&mut incident, error);
    let mut status: Vec<char> = Vec::new();
    push_str(&mut status, "Load failed: ");
    assert(status@ =~= "Load failed: "@);
    push_str(&mut status, error);
    FetchFailure::LoadFailed {
        incident: string_of(incident.as_slice()),
        status: string_of(status.as_slice()),
    }
}

/// The body length announced to the renderer, which counts bytes in 32 bits.
pub fn document_body_length(length: usize) -> (r: Result<u32, String>)
    ensures
        length <= u32::MAX ==> r == Ok::<u32, String>(length as u32),
        length > u32::MAX ==> (r matches Err(e) && e@ == "Renderer document exceeded the IPC byte limit"@),
{
    if length <= 0xffff_ffff {
        Ok(length as u32)
    } else {
        let mut v: Vec<char> = Vec::new();
        push_str(&mut v, "Renderer document exceeded the IPC byte limit");
        assert(v@ =~= "Renderer document exceeded the IPC byte limit"@);
        Err(string_of(v.as_slice()))
    }
}

/// "submitted document ID (N bytes)".
pub fn submission_incident(document: u64, bytes: u32) -> (s: String)
    ensures
        s@ == "submitted document "@ + decimal(document as nat) + " ("@ + decimal(bytes as nat) + " bytes)"@,
{
    let mut v: Vec<char> = Vec::new();
    push_str(&mut v, "submitted document ");
    assert(v@ =~= "submitted document "@);
    push_decimal(&mut v, document);
    push_str(&mut v, " (");
    push_decimal(&mut v, bytes as u64);
    push_str(&mut v, " bytes)");
    string_of(v.as_slice())
}

/// "revision R (first|update, N items, N accessibility nodes, N console, N errors)".
pub open spec fn spec_presentation_incident(
    revision: u64,
    first: bool,
    items: usize,
    accessibility_nodes: usize,
    console: usize,
    errors: usize,
) -> Seq<char> {
    "revision "@ + decimal(revision as nat) + " ("@ + (if first { "first"@ } else { "update"@ }) + ", "@
        + decimal(items as nat) + " items, "@ + decimal(accessibility_nodes as nat) + " accessibility nodes, "@
        + decimal(console as nat) + " console, "@ + decimal(errors as nat) + " errors)"@
}

pub fn presentation_incident(
    revision: u64,
    first: bool,
    items: usize,
    accessibility_nodes: usize,
    console: usize,
    errors: usize,
) -> (s: String)
    ensures
        s@ == spec_presentation_incident(revision, first, items, accessibility_nodes, console, errors),
{
    let mut v: Vec<char> = Vec::new();
    push_str(&mut v, "revision ");
    assert(v@ =~= "revision "@);
    push_decimal(&mut v, revision);
    push_str(&mut v, " (");
    if first {
        push_str(&mut v, "first");
    } else {
        push_str(&mut v, "update");
    }
    push_str(&mut v, ", ");
    push_decimal(&mut v, items as u64);
    push_str(&mut v, " items, ");
    push_decimal(&mut v, accessibility_nodes as u64);
    push_str(&mut v, " accessibility nodes, ");
    push_decimal(&mut v, console as u64);
    push_str(&mut v, " console, ");
    push_decimal(&mut v, errors as u64);
    push_str(&mut v, " errors)");
    assert(v@ =~= spec_presentation_incident(revision, first, items, accessibility_nodes, console, errors));
    string_of(v.as_slice())
}

/// The first installation, and any slow one, is recorded:
/// "first|updated presentation installed in T ms".
pub fn install_incident(first: bool, install_time_us: u64) -> (s: Option<String>)
    ensures
        s is Some == (first || install_time_us >= SLOW_INSTALL_US),
        s matches Some(t) ==> t@ == (if first { "first"@ } else { "updated"@ })
            + " presentation installed in "@ + millis1(install_time_us as nat) + " ms"@,
{
    if !first && install_time_us < SLOW_INSTALL_US {
        return None;
    }
    let mut v: Vec<char> = Vec::new();
    if first {
        push_str(&mut v, "first");
    } else {
        push_str(&mut v, "updated");
    }
    push_str(&mut v, " presentation installed in ");
    push_millis1(&mut v, install_time_us);
    push_str(&mut v, " ms");
    Some(string_of(v.as_slice()))
}

/// Where a navigation requested by page script or a link goes.
#[derive(Clone, Copy, Debug, PartialEq, Eq, Structural)]
pub enum NavigationTarget {
    /// `""`, `_self`, `_top` or `_parent`: the tab's own document.
    Current,
    /// `_blank`: a new tab.
    NewTab,
}

pub open spec fn ascii_lower(c: char) -> char {
    if 'A' <= c <= 'Z' {
        ((c as u32) + 32) as char
    } else {
        c
    }
}

pub open spec fn spec_target(target: Seq<char>) -> Option<NavigationTarget> {
    let t = target.map_values(|c: char| ascii_lower(c));
    if t == ""@ || t == "_self"@ || t == "_top"@ || t == "_parent"@ {
        Some(NavigationTarget::Current)
    } else if t == "_blank"@ {
        Some(NavigationTarget::NewTab)
    } else {
        None
    }
}

/// Resolves a browsing-context name, ignoring ASCII case; named contexts
/// other than the reserved ones are refused.
pub fn navigation_target(target: &str) -> (r: Result<NavigationTarget, &'static str>)
    ensures
        match spec_target(target@) {
            Some(t) => r == Ok::<NavigationTarget, &'static str>(t),
            None => r matches Err(e) && e@ == "Navigation to a named browsing context is not supported yet"@,
        },
{
    let chars = chars_of(target);
    let mut lower: Vec<char> = Vec::new();
    let mut i: usize = 0;
    while i < chars.len()
        invariant
            i <= chars.len(),
            lower@ == chars@.take(i as int).map_values(|c: char| ascii_lower(c)),
        decreases chars.len() - i,
    {
        let c = chars[i];
        let l = if 'A' <= c && c <= 'Z' { ((c as u8) + 32) as char } else { c };
        proof {
            if 'A' <= c <= 'Z' {
                assert(((c as u8) + 32) as char == ((c as u32) + 32) as char);
            }
        }
        lower.push(l);
        i = i + 1;
        assert(lower@ =~= chars@.take(i as int).map_values(|c: char| ascii_lower(c)));
    }
    assert(chars@.take(chars.len() as int) =~= chars@);
    let t = string_of(lower.as_slice());
    let st = t.as_str();
    if text_eq(st, "") || text_eq(st, "_self") || text_eq(st, "_top") || text_eq(st, "_parent") {
        Ok(NavigationTarget::Current)
    } else if text_eq(st, "_blank") {
        Ok(NavigationTarget::NewTab)
    } else {
        Err("Navigation to a named browsing context is not supported yet")
    }
}

} // verus!
