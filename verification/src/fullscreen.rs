//! Who owns native fullscreen, and how a page's request to enter or leave it
//! is answered. Times are microseconds.
use vstd::prelude::*;

verus! {

/// How long a user gesture lets a document enter fullscreen.
pub const TRANSIENT_ACTIVATION_LIFETIME_US: u64 = 5_000_000;

/// The owner of native fullscreen.
#[derive(Clone, Copy, Debug, PartialEq, Eq, Structural)]
pub enum FullscreenOwner {
    Browser,
    Page { tab: u64, document: u64 },
}

/// What a page asked for.
#[derive(Clone, Copy, Debug, PartialEq, Eq, Structural)]
pub enum FullscreenAction {
    Enter,
    Exit,
}

/// The answer sent back to the page.
#[derive(Clone, Copy, Debug, PartialEq, Eq, Structural)]
pub enum FullscreenDisposition {
    Entered,
    Denied,
    Exited,
}

/// A user gesture recorded for `document` at `at_us` still lets that document,
/// and no other, go fullscreen at `now_us`.
pub fn activation_authorizes(document: u64, activation: (u64, u64), now_us: u64) -> (b: bool)
    ensures
        b == (activation.0 == document && (if now_us >= activation.1 {
            now_us - activation.1
        } else {
            0
        }) <= TRANSIENT_ACTIVATION_LIFETIME_US),
{
    let elapsed = if now_us >= activation.1 {
        now_us - activation.1
    } else {
        0
    };
    activation.0 == document && elapsed <= TRANSIENT_ACTIVATION_LIFETIME_US
}

/// What to do about a page's fullscreen request.
#[derive(Clone, Copy, Debug, PartialEq, Eq, Structural)]
pub enum FullscreenPlan {
    /// Leave the current fullscreen (if any) and enter it for the page; the
    /// answer is `Entered` if the window could be made fullscreen, else `Denied`.
    Enter { leave_current: bool },
    /// Leave the page's fullscreen and answer `Exited`.
    Exit,
    /// Answer `Denied`.
    Deny,
}

/// Plans the answer to document `document` of tab `tab` asking to `action`.
/// `owns_document` tells whether that tab is active and shows that document;
/// `activation` is the tab's pending user gesture, which an enter request from
/// the owning document uses up (`consume`).
pub fn plan_fullscreen_request(
    owner: Option<FullscreenOwner>,
    tab: u64,
    document: u64,
    action: FullscreenAction,
    owns_document: bool,
    activation: Option<(u64, u64)>,
    now_us: u64,
) -> (r: (FullscreenPlan, bool))
    ensures
        r.1 == (action == FullscreenAction::Enter && owns_document && activation is Some),
        r.0 == (match action {
            FullscreenAction::Enter => if owns_document && activation is Some && activation->Some_0.0
                == document && (if now_us >= activation->Some_0.1 {
                now_us - activation->Some_0.1
            } else {
                0
            }) <= TRANSIENT_ACTIVATION_LIFETIME_US {
                FullscreenPlan::Enter { leave_current: owner is Some }
            } else {
                FullscreenPlan::Deny
            },
            FullscreenAction::Exit => if owner == Some(FullscreenOwner::Page { tab, document }) {
                FullscreenPlan::Exit
            } else {
                FullscreenPlan::Deny
            },
        }),
{
    match action {
        FullscreenAction::Enter => {
            if !owns_document {
                return (FullscreenPlan::Deny, false);
            }
            match activation {
                None => (FullscreenPlan::Deny, false),
                Some(a) => {
                    if activation_authorizes(document, a, now_us) {
                        let active = match owner {
                            Some(_) => true,
                            None => false,
                        };
                        (FullscreenPlan::Enter { leave_current: active }, true)
                    } else {
                        (FullscreenPlan::Deny, true)
                    }
                },
            }
        },
        FullscreenAction::Exit => {
            let matches = match owner {
                Some(FullscreenOwner::Page { tab: t, document: d }) => t == tab && d == document,
                _ => false,
            };
            if matches {
                (FullscreenPlan::Exit, false)
            } else {
                (FullscreenPlan::Deny, false)
            }
        },
    }
}

/// Leaving a page's fullscreen from the browser side: when a page owns
/// fullscreen (and, with `owner_tab`, it is that tab), fullscreen ends and the
/// owning tab and document are returned so the page can be told.
pub fn page_fullscreen_to_leave(owner: Option<FullscreenOwner>, owner_tab: Option<u64>) -> (r: Option<(u64, u64)>)
    ensures
        r == (match owner {
            Some(FullscreenOwner::Page { tab, document }) => if owner_tab is None || owner_tab == Some(tab) {
                Some((tab, document))
            } else {
                None::<(u64, u64)>
            },
            _ => None::<(u64, u64)>,
        }),
{
    match owner {
        Some(FullscreenOwner::Page { tab, document }) => {
            let allowed = match owner_tab {
                None => true,
                Some(t) => t == tab,
            };
            if allowed {
                Some((tab, document))
            } else {
                None
            }
        },
        _ => None,
    }
}

/// Window style bits of a borderless fullscreen window: the overlapped-window
/// frame bits cleared and the popup bit set.
pub const WS_OVERLAPPEDWINDOW: u32 = 0x00CF_0000;

pub const WS_POPUP: u32 = 0x8000_0000;

pub fn fullscreen_style(style: u32) -> (s: u32)
    ensures
        s == ((style & !WS_OVERLAPPEDWINDOW) | WS_POPUP),
{
    (style & !WS_OVERLAPPEDWINDOW) | WS_POPUP
}

} // verus!
