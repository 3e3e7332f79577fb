//! Decisions taken around a renderer presentation: whether it is installed,
//! whether a script redirect replaces it, which part of the window is painted
//! again, and the status and incident lines that describe it.
use crate::accessibility::document::{
    id_le, node_ids, tree_refusal, AccessibilityDocument, AccessibilityUpdate, AppliedAccessibilityUpdate, Staged,
};
use crate::accessibility::tree_check::valid_tree;
use crate::geometry::{fits_i32, max_int, min_int, Rect};
use crate::script_navigation::{ScriptNavigationGuard, MAX_SCRIPT_NAVIGATIONS};
use crate::text::{decimal, push_decimal, push_str, string_of, text_eq};
use vstd::prelude::*;

verus! {

/// `Some(first)` when a presentation of an owned document at `revision` is
/// newer than the installed one; `first` when nothing was installed yet.
pub open spec fn spec_admit_presentation(owns_document: bool, revision: u64, installed_revision: u64) -> Option<bool> {
    if owns_document && revision > installed_revision {
        Some(installed_revision == 0)
    } else {
        None
    }
}

/// Whether a presentation is installed, and whether it is the first one of its document.
pub fn admit_presentation(owns_document: bool, revision: u64, installed_revision: u64) -> (r: Option<bool>)
    ensures
        r == spec_admit_presentation(owns_document, revision, installed_revision),
{
    if !owns_document || revision <= installed_revision {
        None
    } else {
        Some(installed_revision == 0)
    }
}

/// What a navigation URL reported by the page's scripts leads to.
#[derive(Debug)]
pub enum ScriptRedirect {
    /// No other document was asked for: install the presentation.
    Stay,
    /// Navigate to this URL instead of installing the presentation.
    Follow(String),
    /// The redirect was refused: show this status and install the presentation.
    Blocked(String),
}

/// Why the guard refuses a further script navigation.
pub open spec fn block_reason(followed: nat) -> Seq<char> {
    if followed >= MAX_SCRIPT_NAVIGATIONS {
        "the document navigation limit was reached"@
    } else {
        "the target already appeared in this navigation chain"@
    }
}

/// Follows a script's navigation to a URL other than the presented one, when the
/// guard admits it; a refusal becomes a status line.
pub fn script_redirect(guard: &mut ScriptNavigationGuard, navigation_url: Option<&str>, final_url: &str) -> (r: ScriptRedirect)
    ensures
        match navigation_url {
            None => r is Stay,
            Some(u) => if u@ == final_url@ {
                r is Stay
            } else if old(guard).followed_count() < MAX_SCRIPT_NAVIGATIONS && !old(guard).visited_urls().contains(u@) {
                r matches ScriptRedirect::Follow(t) && t@ == u@
            } else {
                r matches ScriptRedirect::Blocked(s) && s@ == "Script navigation blocked: "@ + block_reason(old(guard).followed_count())
            },
        },
        r is Follow ==> final(guard).followed_count() == old(guard).followed_count() + 1
            && final(guard).visited_urls() == old(guard).visited_urls().insert(navigation_url->0@),
        !(r is Follow) ==> final(guard).followed_count() == old(guard).followed_count()
            && final(guard).visited_urls() == old(guard).visited_urls(),
{
    let url = match navigation_url {
        None => return ScriptRedirect::Stay,
        Some(u) => u,
    };
    if text_eq(url, final_url) {
        return ScriptRedirect::Stay;
    }
    match guard.allow(url) {
        Ok(()) => ScriptRedirect::Follow(url.to_owned()),
        Err(reason) => {
            let mut v: Vec<char> = Vec::new();
            push_str(&mut v, "Script navigation blocked: ");
            assert(v@ =~= "Script navigation blocked: "@);
            push_str(&mut v, reason);
            ScriptRedirect::Blocked(string_of(v.as_slice()))
        },
    }
}

/// The failure reported when the renderer's accessibility tree is refused.
pub fn accessibility_rejection(error: &str) -> (s: String)
    ensures
        s@ == "renderer accessibility tree was rejected: "@ + error@,
{
    let mut v: Vec<char> = Vec::new();
    push_str(&mut v, "renderer accessibility tree was rejected: ");
    assert(v@ =~= "renderer accessibility tree was rejected: "@);
    push_str(&mut v, error);
    string_of(v.as_slice())
}

/// The status line after a presentation: the HTTP status, and the script
/// counters when any script ran or failed.
pub open spec fn spec_presentation_status(status: u16, scripts_executed: u64, dom_mutations: u64, error_count: usize) -> Seq<char> {
    "HTTP "@ + decimal(status as nat) + "  •  isolated renderer"@ + if scripts_executed == 0 && error_count == 0 {
        Seq::<char>::empty()
    } else {
        "  •  JS "@ + decimal(scripts_executed as nat) + " / "@ + decimal(dom_mutations as nat)
            + " mutations / "@ + decimal(error_count as nat) + " errors"@
    }
}

pub fn presentation_status(status: u16, scripts_executed: u64, dom_mutations: u64, error_count: usize) -> (s: String)
    ensures
        s@ == spec_presentation_status(status, scripts_executed, dom_mutations, error_count),
{
    let mut v: Vec<char> = Vec::new();
    push_str(&mut v, "HTTP ");
    assert(v@ =~= "HTTP "@);
    push_decimal(&mut v, status as u64);
    push_str(&mut v, "  •  isolated renderer");
    if !(scripts_executed == 0 && error_count == 0) {
        push_str(&mut v, "  •  JS ");
        push_decimal(&mut v, scripts_executed);
        push_str(&mut v, " / ");
        push_decimal(&mut v, dom_mutations);
        push_str(&mut v, " mutations / ");
        push_decimal(&mut v, error_count as u64);
        push_str(&mut v, " errors");
    }
    assert(v@ =~= spec_presentation_status(status, scripts_executed, dom_mutations, error_count));
    string_of(v.as_slice())
}

/// What changed between the installed presentation and the new one.
#[derive(Clone, Copy, Debug)]
pub struct PresentationChanges {
    pub first: bool,
    pub layout_changed: bool,
    pub images_changed: bool,
    pub glyph_epoch_changed: bool,
    pub glyphs_changed: bool,
    pub glyphs_redefined: bool,
    /// The display-list damage asks for a full repaint.
    pub full_repaint: bool,
    /// The display-list damage has a bounding rectangle.
    pub damage_has_rect: bool,
}

impl PresentationChanges {
    /// Anything that changes pixels.
    pub open spec fn spec_visual_changed(self) -> bool {
        self.first || self.layout_changed || self.images_changed || self.glyph_epoch_changed
            || self.glyphs_changed || self.glyphs_redefined
    }

    /// Changes that no damage rectangle can bound.
    pub open spec fn spec_whole_content(self) -> bool {
        self.full_repaint || self.images_changed || self.glyph_epoch_changed || self.glyphs_changed
            || self.glyphs_redefined
    }

    pub fn visual_changed(&self) -> (b: bool)
        ensures
            b == self.spec_visual_changed(),
    {
        self.first || self.layout_changed || self.images_changed || self.glyph_epoch_changed
            || self.glyphs_changed || self.glyphs_redefined
    }
}

/// How the window is brought up to date after a presentation is installed.
#[derive(Clone, Copy, Debug, PartialEq, Eq, Structural)]
pub enum RepaintPlan {
    /// A background tab: nothing on screen.
    Hidden,
    /// Only the accessibility tree is refreshed.
    AccessibilityOnly,
    /// Refresh accessibility, repaint the whole content area.
    Content,
    /// Refresh accessibility, repaint the damaged rectangle.
    Damage,
    /// Refresh accessibility and update the window without invalidating.
    UpdateOnly,
}

pub open spec fn spec_repaint_plan(c: PresentationChanges, background: bool) -> RepaintPlan {
    if background {
        RepaintPlan::Hidden
    } else if !c.spec_visual_changed() {
        RepaintPlan::AccessibilityOnly
    } else if c.spec_whole_content() {
        RepaintPlan::Content
    } else if c.damage_has_rect {
        RepaintPlan::Damage
    } else {
        RepaintPlan::UpdateOnly
    }
}

pub fn repaint_plan(changes: &PresentationChanges, background: bool) -> (p: RepaintPlan)
    ensures
        p == spec_repaint_plan(*changes, background),
        !background && (changes.images_changed || changes.glyph_epoch_changed || changes.glyphs_changed
            || changes.glyphs_redefined) ==> p == RepaintPlan::Content,
        p == RepaintPlan::Damage ==> changes.damage_has_rect && !changes.full_repaint,
{
    if background {
        RepaintPlan::Hidden
    } else if !changes.visual_changed() {
        RepaintPlan::AccessibilityOnly
    } else if changes.full_repaint || changes.images_changed || changes.glyph_epoch_changed
        || changes.glyphs_changed || changes.glyphs_redefined {
        RepaintPlan::Content
    } else if changes.damage_has_rect {
        RepaintPlan::Damage
    } else {
        RepaintPlan::UpdateOnly
    }
}

/// Which part of the window a presentation repaints: a background tab paints
/// nothing; in the foreground, new images or glyphs (or a new glyph epoch)
/// repaint the whole content area, as does a full-repaint damage with any
/// visual change; only a layout change with a damage rectangle and no such
/// change repaints that rectangle alone; and a presentation that changes no
/// pixels only refreshes the accessibility tree.
pub proof fn lemma_repaint_scope(c: PresentationChanges, background: bool)
    ensures
        background ==> spec_repaint_plan(c, background) == RepaintPlan::Hidden,
        !background && (c.images_changed || c.glyph_epoch_changed || c.glyphs_changed || c.glyphs_redefined)
            ==> spec_repaint_plan(c, background) == RepaintPlan::Content,
        !background && c.full_repaint && (c.first || c.layout_changed) ==> spec_repaint_plan(c, background)
            == RepaintPlan::Content,
        spec_repaint_plan(c, background) == RepaintPlan::Damage ==> !background && c.damage_has_rect
            && !c.full_repaint && !c.images_changed && !c.glyph_epoch_changed && !c.glyphs_changed
            && !c.glyphs_redefined && (c.first || c.layout_changed),
        !background && !(c.first || c.layout_changed || c.images_changed || c.glyph_epoch_changed
            || c.glyphs_changed || c.glyphs_redefined) ==> spec_repaint_plan(c, background)
            == RepaintPlan::AccessibilityOnly,
        spec_repaint_plan(c, background) == RepaintPlan::UpdateOnly ==> !background && !c.damage_has_rect
            && !c.full_repaint && (c.first || c.layout_changed),
{
}

/// The page area of the client rectangle: below the toolbar, above the status
/// bar, never above the toolbar's bottom edge.
pub fn content_rect(client: Rect, toolbar_height: i32, status_height: i32) -> (r: Rect)
    requires
        fits_i32(client.bottom - status_height),
    ensures
        r == (Rect {
            left: 0,
            top: toolbar_height,
            right: client.right,
            bottom: max_int(client.bottom - status_height, toolbar_height as int) as i32,
        }),
{
    let bottom = client.bottom - status_height;
    Rect {
        left: 0,
        top: toolbar_height,
        right: client.right,
        bottom: if bottom >= toolbar_height { bottom } else { toolbar_height },
    }
}

/// `v - 2`, saturating at `i32::MIN`.
pub open spec fn widen_down(v: i32) -> int {
    max_int(v - 2, i32::MIN as int)
}

/// `v + 2`, saturating at `i32::MAX`.
pub open spec fn widen_up(v: i32) -> int {
    min_int(v + 2, i32::MAX as int)
}

/// The damaged screen rectangle grown by two pixels for antialiasing, clipped
/// to the page area; `None` when nothing of it is visible.
pub open spec fn spec_damage_clip(screen: Rect, client: Rect, toolbar_height: i32, status_height: i32) -> Option<Rect> {
    let left = max_int(widen_down(screen.left), client.left as int);
    let top = max_int(widen_down(screen.top), toolbar_height as int);
    let right = min_int(widen_up(screen.right), client.right as int);
    let bottom = min_int(widen_up(screen.bottom), max_int(client.bottom - status_height, i32::MIN as int));
    if right > left && bottom > top {
        Some(Rect { left: left as i32, top: top as i32, right: right as i32, bottom: bottom as i32 })
    } else {
        None
    }
}

fn sat_sub(a: i32, b: i32) -> (r: i32)
    requires
        b >= 0,
    ensures
        r == max_int(a - b, i32::MIN as int),
{
    if a < i32::MIN + b {
        i32::MIN
    } else {
        a - b
    }
}

fn sat_add(a: i32, b: i32) -> (r: i32)
    requires
        b >= 0,
    ensures
        r == min_int(a + b, i32::MAX as int),
{
    if a > i32::MAX - b {
        i32::MAX
    } else {
        a + b
    }
}

pub fn damage_clip(screen: Rect, client: Rect, toolbar_height: i32, status_height: i32) -> (r: Option<Rect>)
    requires
        status_height >= 0,
    ensures
        r == spec_damage_clip(screen, client, toolbar_height, status_height),
{
    let grown_left = sat_sub(screen.left, 2);
    let grown_top = sat_sub(screen.top, 2);
    let grown_right = sat_add(screen.right, 2);
    let grown_bottom = sat_add(screen.bottom, 2);
    let left = if grown_left >= client.left { grown_left } else { client.left };
    let top = if grown_top >= toolbar_height { grown_top } else { toolbar_height };
    let right = if grown_right <= client.right { grown_right } else { client.right };
    let floor = sat_sub(client.bottom, status_height);
    let bottom = if grown_bottom <= floor { grown_bottom } else { floor };
    if right > left && bottom > top {
        Some(Rect { left, top, right, bottom })
    } else {
        None
    }
}

/// How display-list damage outside a presentation is turned into an update region.
#[derive(Clone, Copy, Debug, PartialEq, Eq, Structural)]
pub enum DamageAction {
    Nothing,
    WholeWindow,
    Region,
}

pub open spec fn spec_damage_action(empty: bool, full_repaint: bool, page_surface: bool, has_rect: bool) -> DamageAction {
    if empty {
        DamageAction::Nothing
    } else if full_repaint || !page_surface || !has_rect {
        DamageAction::WholeWindow
    } else {
        DamageAction::Region
    }
}

/// Nothing for empty damage; the whole window when the damage asks for it,
/// another surface is shown, or no rectangle bounds it; else its region.
pub fn damage_action(empty: bool, full_repaint: bool, page_surface: bool, has_rect: bool) -> (a: DamageAction)
    ensures
        a == spec_damage_action(empty, full_repaint, page_surface, has_rect),
{
    if empty {
        DamageAction::Nothing
    } else if full_repaint || !page_surface || !has_rect {
        DamageAction::WholeWindow
    } else {
        DamageAction::Region
    }
}

/// Console lines, script errors and script diagnostics recorded per presentation, each.
pub const MAX_RUNTIME_INCIDENTS: usize = 16;

/// The first `MAX_RUNTIME_INCIDENTS` messages of `messages`, each under `category`.
pub open spec fn tagged(category: Seq<char>, messages: Seq<String>) -> Seq<(Seq<char>, Seq<char>)> {
    let kept = if messages.len() > MAX_RUNTIME_INCIDENTS { messages.take(MAX_RUNTIME_INCIDENTS as int) } else { messages };
    kept.map_values(|m: String| (category, m@))
}

/// The incident records of a presentation's script runtime report: console
/// output, then errors, then diagnostics, at most sixteen of each.
pub open spec fn spec_runtime_incidents(console: Seq<String>, errors: Seq<String>, diagnostics: Seq<String>) -> Seq<(Seq<char>, Seq<char>)> {
    tagged("console"@, console) + tagged("script-error"@, errors) + tagged("script-diag"@, diagnostics)
}

pub open spec fn incident_views(v: Seq<(&'static str, String)>) -> Seq<(Seq<char>, Seq<char>)> {
    v.map_values(|p: (&'static str, String)| (p.0@, p.1@))
}

fn push_tagged(out: &mut Vec<(&'static str, String)>, category: &'static str, messages: &Vec<String>)
    ensures
        incident_views(final(out)@) == incident_views(old(out)@) + tagged(category@, messages@),
{
    let limit = if messages.len() > MAX_RUNTIME_INCIDENTS { MAX_RUNTIME_INCIDENTS } else { messages.len() };
    let ghost start = out@;
    let ghost kept = if messages@.len() > MAX_RUNTIME_INCIDENTS { messages@.take(MAX_RUNTIME_INCIDENTS as int) } else { messages@ };
    let mut i: usize = 0;
    while i < limit
        invariant
            i <= limit,
            limit == kept.len(),
            limit <= messages.len(),
            kept == (if messages@.len() > MAX_RUNTIME_INCIDENTS { messages@.take(MAX_RUNTIME_INCIDENTS as int) } else { messages@ }),
            incident_views(out@) == incident_views(start) + kept.take(i as int).map_values(|m: String| (category@, m@)),
        decreases limit - i,
    {
        let ghost before = out@;
        let m = messages[i].clone();
        out.push((category, m));
        proof {
            assert(kept[i as int] == messages@[i as int]);
            assert(m@ == kept[i as int]@);
            assert(incident_views(out@) =~= incident_views(before).push((category@, m@)));
            assert(kept.take(i + 1) =~= kept.take(i as int).push(kept[i as int]));
            assert(incident_views(out@) =~= incident_views(start) + kept.take(i + 1).map_values(|m: String| (category@, m@)));
        }
        i = i + 1;
    }
    assert(kept.take(limit as int) =~= kept);
}

pub fn runtime_incidents(console: &Vec<String>, errors: &Vec<String>, diagnostics: &Vec<String>) -> (r: Vec<(&'static str, String)>)
    ensures
        incident_views(r@) == spec_runtime_incidents(console@, errors@, diagnostics@),
{
    let mut out: Vec<(&'static str, String)> = Vec::new();
    assert(incident_views(out@) =~= Seq::<(Seq<char>, Seq<char>)>::empty());
    push_tagged(&mut out, "console", console);
    push_tagged(&mut out, "script-error", errors);
    push_tagged(&mut out, "script-diag", diagnostics);
    assert(incident_views(out@) =~= spec_runtime_incidents(console@, errors@, diagnostics@));
    out
}

/// A paint-only video frame replaces the pixels of a presented image when it
/// belongs to the owned document's installed revision and keeps the image's
/// size; a new size must go through layout first.
pub fn video_frame_applies(
    owns_document: bool,
    installed_revision: u64,
    frame_revision: u64,
    image_size: Option<(u32, u32)>,
    frame_size: (u32, u32),
) -> (b: bool)
    ensures
        b == (owns_document && installed_revision == frame_revision && image_size == Some(frame_size)),
{
    if !owns_document || installed_revision != frame_revision {
        return false;
    }
    match image_size {
        Some((width, height)) => width == frame_size.0 && height == frame_size.1,
        None => false,
    }
}

/// What arriving at a renderer presentation leads to, before its layout is
/// installed.
pub enum PresentationStep {
    /// A stale revision or another document's: nothing happens.
    Ignore,
    /// The page's script navigated elsewhere: acknowledge and follow this URL.
    Follow(String),
    /// The accessibility tree was refused: contain the page engine with this reason.
    Contain(String),
    /// Install the presentation; `blocked` is the status line of a refused
    /// script redirect, `applied` what the accessibility tree took.
    Install { first: bool, blocked: Option<String>, applied: AppliedAccessibilityUpdate },
}

/// Takes the first decisions on a presentation, in the order they apply:
/// admission (newer revision of the owned document), then the script
/// redirect, then the accessibility tree. Installing the layout, the status
/// line (`presentation_status`) and the repaint (`repaint_plan`) follow an
/// `Install`.
pub fn presentation_step<T>(
    guard: &mut ScriptNavigationGuard,
    accessibility: &mut AccessibilityDocument<T>,
    owns_document: bool,
    document: u64,
    revision: u64,
    installed_revision: u64,
    navigation_url: Option<&str>,
    final_url: &str,
    update: AccessibilityUpdate<T>,
) -> (r: PresentationStep)
    requires
        old(accessibility).wf(),
    ensures
        final(accessibility).wf(),
        spec_admit_presentation(owns_document, revision, installed_revision) is None ==> r is Ignore
            && *final(guard) == *old(guard) && *final(accessibility) == *old(accessibility),
        spec_admit_presentation(owns_document, revision, installed_revision) matches Some(first) ==> {
            let redirect = match navigation_url {
                Some(u) => u@ != final_url@ && old(guard).followed_count() < MAX_SCRIPT_NAVIGATIONS
                    && !old(guard).visited_urls().contains(u@),
                None => false,
            };
            let blocked = match navigation_url {
                Some(u) => u@ != final_url@ && !redirect,
                None => false,
            };
            &&& redirect ==> (r matches PresentationStep::Follow(t) && t@ == navigation_url->0@)
                && *final(accessibility) == *old(accessibility)
                && final(guard).followed_count() == old(guard).followed_count() + 1
                && final(guard).visited_urls() == old(guard).visited_urls().insert(navigation_url->0@)
            &&& !redirect ==> final(guard).followed_count() == old(guard).followed_count()
                && final(guard).visited_urls() == old(guard).visited_urls()
            &&& !redirect ==> match old(accessibility).refusal(document, revision, update) {
                Some(msg) => (r matches PresentationStep::Contain(reason) && reason@
                    == "renderer accessibility tree was rejected: "@ + msg) && *final(accessibility) == *old(accessibility),
                None => match old(accessibility).staged(update) {
                    Staged::Refused(msg) => (r matches PresentationStep::Contain(reason) && reason@
                        == "renderer accessibility tree was rejected: "@ + msg) && *final(accessibility) == *old(accessibility),
                    Staged::Ready(staged) => if valid_tree(update.root, update.focus, staged.0) {
                        &&& r matches PresentationStep::Install { first: f, blocked: b, applied }
                        &&& f == first
                        &&& (blocked <==> b is Some)
                        &&& (b matches Some(status) ==> status@ == "Script navigation blocked: "@
                            + block_reason(old(guard).followed_count()))
                        &&& final(accessibility).document_id() == Some(document)
                        &&& final(accessibility).revision_number() == revision
                        &&& final(accessibility).root_id() == Some(update.root)
                        &&& final(accessibility).focus_id() == Some(update.focus)
                        &&& final(accessibility).state() == staged
                        &&& applied.full == (update.full || old(accessibility).document_id() != Some(document))
                        &&& applied.changed@ == node_ids(update.nodes@).sort_by(id_le())
                    } else {
                        &&& r matches PresentationStep::Contain(reason)
                        &&& reason@.len() >= 42
                        &&& reason@.take(42) == "renderer accessibility tree was rejected: "@
                        &&& tree_refusal(update.root, update.focus, staged.0, reason@.skip(42))
                        &&& *final(accessibility) == *old(accessibility)
                    },
                },
            }
        },
{
    let first = match admit_presentation(owns_document, revision, installed_revision) {
        None => return PresentationStep::Ignore,
        Some(first) => first,
    };
    let blocked = match script_redirect(guard, navigation_url, final_url) {
        ScriptRedirect::Follow(url) => return PresentationStep::Follow(url),
        ScriptRedirect::Blocked(status) => Some(status),
        ScriptRedirect::Stay => None,
    };
    match accessibility.apply(document, revision, update) {
        Ok(applied) => PresentationStep::Install { first, blocked, applied },
        Err(error) => {
            let reason = accessibility_rejection(error.as_str());
            proof {
                reveal_strlit("renderer accessibility tree was rejected: ");
                assert(reason@.take(42) =~= "renderer accessibility tree was rejected: "@);
                assert(reason@.skip(42) =~= error@);
            }
            PresentationStep::Contain(reason)
        },
    }
}

} // verus!
