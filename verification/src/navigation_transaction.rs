//! Per-tab authority for one full-document navigation and its renderer
//! attempt: generations, first-presentation deadlines, bounded retries and
//! bounded post-presentation recovery. Times are microseconds.
use vstd::prelude::*;

verus! {

/// How long a submitted document may take to present its first frame (20 s).
pub const FIRST_PRESENTATION_TIMEOUT_US: u64 = 20_000_000;
pub const MAX_FIRST_PRESENTATION_RETRIES: u8 = 1;
pub const MAX_POST_PRESENTATION_RECOVERIES: u8 = 1;

/// A fetched document ready to hand to the renderer.
pub struct LoadedPage {
    /// The body is still arriving.
    pub streaming: bool,
    pub body: Vec<u8>,
    pub final_url: String,
    pub status: u16,
    pub content_type: String,
    pub bytes: u64,
    pub network_time_us: u64,
}

/// What a loaded page holds.
pub struct PageView {
    pub streaming: bool,
    pub body: Seq<u8>,
    pub final_url: Seq<char>,
    pub status: u16,
    pub content_type: Seq<char>,
    pub bytes: u64,
    pub network_time_us: u64,
}

impl LoadedPage {
    pub open spec fn page_view(&self) -> PageView {
        PageView {
            streaming: self.streaming,
            body: self.body@,
            final_url: self.final_url@,
            status: self.status,
            content_type: self.content_type@,
            bytes: self.bytes,
            network_time_us: self.network_time_us,
        }
    }

    /// A copy with the same contents.
    pub fn duplicate(&self) -> (r: Self)
        ensures
            r.page_view() == self.page_view(),
    {
        LoadedPage {
            streaming: self.streaming,
            body: self.body.clone(),
            final_url: self.final_url.clone(),
            status: self.status,
            content_type: self.content_type.clone(),
            bytes: self.bytes,
            network_time_us: self.network_time_us,
        }
    }
}

pub open spec fn page_opt_view(p: Option<LoadedPage>) -> Option<PageView> {
    match p {
        Some(p) => Some(p.page_view()),
        None => None,
    }
}

#[derive(Clone, Copy, Debug, PartialEq, Eq, Structural)]
pub enum NavigationPhase {
    Fetching,
    WaitingForRenderer,
    WaitingForFirstPresentation,
    Presented,
    Failed,
}

/// What a missed first presentation leads to.
#[derive(Clone, Copy, Debug, PartialEq, Eq, Structural)]
pub enum PresentationDeadline {
    Retry,
    Failed,
}

pub struct NavigationTransaction {
    pub generation: u64,
    pub phase: NavigationPhase,
    pub network_pending: bool,
    pub page: Option<LoadedPage>,
    pub document: Option<u64>,
    pub first_presentation_deadline_us: Option<u64>,
    pub retry_count: u8,
    pub post_presentation_recovery_count: u8,
}

/// The generation after `g`: one more, skipping zero.
pub open spec fn next_generation(g: u64) -> u64 {
    if g == u64::MAX {
        1
    } else {
        (g + 1) as u64
    }
}

/// Loading means network bytes are still due or no frame has been presented yet.
pub open spec fn spec_is_loading(network_pending: bool, phase: NavigationPhase) -> bool {
    network_pending || phase == NavigationPhase::Fetching || phase
        == NavigationPhase::WaitingForRenderer || phase == NavigationPhase::WaitingForFirstPresentation
}

impl NavigationTransaction {
    /// Generations are never zero and the retry counters stay within their bounds.
    pub open spec fn wf(&self) -> bool {
        &&& self.generation >= 1
        &&& self.retry_count <= MAX_FIRST_PRESENTATION_RETRIES
        &&& self.post_presentation_recovery_count <= MAX_POST_PRESENTATION_RECOVERIES
    }

    /// A transaction for a page that is already loaded (generation one).
    pub fn new(page: LoadedPage) -> (t: Self)
        ensures
            t.wf(),
            t.generation == 1,
            t.phase == NavigationPhase::WaitingForRenderer,
            !t.network_pending,
            page_opt_view(t.page) == Some(page.page_view()),
            t.document is None,
            t.first_presentation_deadline_us is None,
            t.retry_count == 0,
            t.post_presentation_recovery_count == 0,
    {
        NavigationTransaction {
            generation: 1,
            phase: NavigationPhase::WaitingForRenderer,
            network_pending: false,
            page: Some(page),
            document: None,
            first_presentation_deadline_us: None,
            retry_count: 0,
            post_presentation_recovery_count: 0,
        }
    }

    /// The state after a new fetch begins.
    pub open spec fn fetching_from(self, recovery: u8) -> (Self, u64) {
        let g = next_generation(self.generation);
        (
            NavigationTransaction {
                generation: g,
                phase: NavigationPhase::Fetching,
                network_pending: true,
                page: None,
                document: None,
                first_presentation_deadline_us: None,
                retry_count: 0,
                post_presentation_recovery_count: recovery,
            },
            g,
        )
    }

    /// A user navigation: a fresh generation, with recovery allowed again.
    pub fn begin(&mut self) -> (generation: u64)
        requires
            old(self).wf(),
        ensures
            final(self).wf(),
            (*final(self), generation) == old(self).fetching_from(0),
    {
        self.post_presentation_recovery_count = 0;
        self.begin_fetch()
    }

    /// Refetches a presented document once after its renderer failed.
    pub fn begin_recovery(&mut self) -> (generation: Option<u64>)
        requires
            old(self).wf(),
        ensures
            final(self).wf(),
            if old(self).phase != NavigationPhase::Presented
                || old(self).post_presentation_recovery_count >= MAX_POST_PRESENTATION_RECOVERIES {
                generation is None && *final(self) == *old(self)
            } else {
                generation matches Some(g) && (*final(self), g) == old(self).fetching_from(
                    (old(self).post_presentation_recovery_count + 1) as u8,
                )
            },
    {
        if self.phase != NavigationPhase::Presented
            || self.post_presentation_recovery_count >= MAX_POST_PRESENTATION_RECOVERIES {
            return None;
        }
        self.post_presentation_recovery_count = self.post_presentation_recovery_count + 1;
        Some(self.begin_fetch())
    }

    fn begin_fetch(&mut self) -> (generation: u64)
        requires
            old(self).wf(),
        ensures
            final(self).wf(),
            (*final(self), generation) == old(self).fetching_from(
                old(self).post_presentation_recovery_count,
            ),
    {
        self.generation = if self.generation == u64::MAX { 1 } else { self.generation + 1 };
        self.phase = NavigationPhase::Fetching;
        self.network_pending = true;
        self.page = None;
        self.document = None;
        self.first_presentation_deadline_us = None;
        self.retry_count = 0;
        self.generation
    }

    /// Accepts the fetched page of the current fetch; anything stale is refused.
    pub fn accept_page(&mut self, generation: u64, page: LoadedPage) -> (accepted: bool)
        requires
            old(self).wf(),
        ensures
            final(self).wf(),
            accepted == (generation == old(self).generation && old(self).phase
                == NavigationPhase::Fetching),
            !accepted ==> *final(self) == *old(self),
            accepted ==> final(self).phase == NavigationPhase::WaitingForRenderer
                && final(self).network_pending == page.streaming && page_opt_view(final(self).page)
                == Some(page.page_view()) && final(self).generation == old(self).generation
                && final(self).document == old(self).document
                && final(self).first_presentation_deadline_us == old(self).first_presentation_deadline_us && final(self).retry_count == old(self).retry_count
                && final(self).post_presentation_recovery_count == old(self).post_presentation_recovery_count,
    {
        if generation != self.generation || self.phase != NavigationPhase::Fetching {
            return false;
        }
        self.network_pending = page.streaming;
        self.page = Some(page);
        self.phase = NavigationPhase::WaitingForRenderer;
        true
    }

    /// The page to submit while the renderer is awaited.
    pub fn page_for_submission(&self) -> (page: Option<LoadedPage>)
        ensures
            page_opt_view(page) == (if self.phase == NavigationPhase::WaitingForRenderer {
                page_opt_view(self.page)
            } else {
                None
            }),
    {
        if self.phase == NavigationPhase::WaitingForRenderer {
            match &self.page {
                Some(p) => Some(p.duplicate()),
                None => None,
            }
        } else {
            None
        }
    }

    /// The body finished arriving; starts the presentation deadline if the renderer waits.
    pub fn network_complete(&mut self, bytes: u64, network_time_us: u64, now_us: u64)
        requires
            old(self).wf(),
            now_us <= u64::MAX - FIRST_PRESENTATION_TIMEOUT_US,
        ensures
            final(self).wf(),
            !final(self).network_pending,
            final(self).first_presentation_deadline_us == if old(self).phase
                == NavigationPhase::WaitingForFirstPresentation {
                Some((now_us + FIRST_PRESENTATION_TIMEOUT_US) as u64)
            } else {
                old(self).first_presentation_deadline_us
            },
            page_opt_view(final(self).page) == match old(self).page {
                Some(p) => Some(PageView { bytes, network_time_us, ..p.page_view() }),
                None => None,
            },
            final(self).generation == old(self).generation,
            final(self).phase == old(self).phase,
            final(self).document == old(self).document,
            final(self).retry_count == old(self).retry_count,
            final(self).post_presentation_recovery_count == old(self).post_presentation_recovery_count,
    {
        self.network_pending = false;
        if self.phase == NavigationPhase::WaitingForFirstPresentation {
            self.first_presentation_deadline_us = Some(now_us + FIRST_PRESENTATION_TIMEOUT_US);
        }
        match &mut self.page {
            Some(page) => {
                page.bytes = bytes;
                page.network_time_us = network_time_us;
            },
            None => {},
        }
    }

    pub fn network_pending(&self) -> (b: bool)
        ensures
            b == self.network_pending,
    {
        self.network_pending
    }

    /// The identity of the document of this generation.
    pub fn document_id(&self) -> (r: Result<u64, String>)
        requires
            self.wf(),
        ensures
            r == Ok::<u64, String>(self.generation),
    {
        Ok(self.generation)
    }

    /// The renderer accepted `document`; the deadline runs once the body is complete.
    pub fn document_submitted(&mut self, document: u64, now_us: u64) -> (accepted: bool)
        requires
            old(self).wf(),
            now_us <= u64::MAX - FIRST_PRESENTATION_TIMEOUT_US,
        ensures
            final(self).wf(),
            accepted == (old(self).phase == NavigationPhase::WaitingForRenderer && document == old(self).generation),
            !accepted ==> *final(self) == *old(self),
            accepted ==> final(self).document == Some(document) && final(self).phase
                == NavigationPhase::WaitingForFirstPresentation
                && final(self).first_presentation_deadline_us == (if old(self).network_pending {
                None
            } else {
                Some((now_us + FIRST_PRESENTATION_TIMEOUT_US) as u64)
            }) && final(self).generation == old(self).generation && final(self).network_pending
                == old(self).network_pending && final(self).page == old(self).page
                && final(self).retry_count == old(self).retry_count
                && final(self).post_presentation_recovery_count == old(self).post_presentation_recovery_count,
    {
        if self.phase != NavigationPhase::WaitingForRenderer || document != self.generation {
            return false;
        }
        self.document = Some(document);
        self.phase = NavigationPhase::WaitingForFirstPresentation;
        self.first_presentation_deadline_us = if self.network_pending {
            None
        } else {
            Some(now_us + FIRST_PRESENTATION_TIMEOUT_US)
        };
        true
    }

    pub fn owns_document(&self, document: u64) -> (b: bool)
        ensures
            b == (self.document == Some(document)),
    {
        match self.document {
            Some(d) => d == document,
            None => false,
        }
    }

    pub fn active_document(&self) -> (d: Option<u64>)
        ensures
            d == self.document,
    {
        self.document
    }

    /// The first frame of the owned document arrived; true only the first time.
    pub fn mark_presented(&mut self, document: u64) -> (first: bool)
        requires
            old(self).wf(),
        ensures
            final(self).wf(),
            first == (old(self).document == Some(document) && old(self).phase
                == NavigationPhase::WaitingForFirstPresentation),
            !first ==> *final(self) == *old(self),
            first ==> final(self).phase == NavigationPhase::Presented && final(self).page is None
                && final(self).first_presentation_deadline_us is None && final(self).generation
                == old(self).generation && final(self).document == old(self).document
                && final(self).network_pending == old(self).network_pending
                && final(self).retry_count == old(self).retry_count
                && final(self).post_presentation_recovery_count == old(self).post_presentation_recovery_count,
    {
        if !self.owns_document(document) {
            return false;
        }
        let first = self.phase == NavigationPhase::WaitingForFirstPresentation;
        if first {
            self.phase = NavigationPhase::Presented;
            self.page = None;
            self.first_presentation_deadline_us = None;
        }
        first
    }

    /// The state after a failed renderer attempt, and its outcome.
    pub open spec fn after_failed_attempt(self) -> (Self, PresentationDeadline) {
        if self.retry_count < MAX_FIRST_PRESENTATION_RETRIES {
            (
                NavigationTransaction {
                    document: None,
                    first_presentation_deadline_us: None,
                    retry_count: (self.retry_count + 1) as u8,
                    phase: NavigationPhase::WaitingForRenderer,
                    ..self
                },
                PresentationDeadline::Retry,
            )
        } else {
            (
                NavigationTransaction {
                    document: None,
                    first_presentation_deadline_us: None,
                    network_pending: false,
                    phase: NavigationPhase::Failed,
                    page: None,
                    ..self
                },
                PresentationDeadline::Failed,
            )
        }
    }

    /// Whether the first-presentation deadline has passed at `now_us`.
    pub open spec fn deadline_missed(self, now_us: u64) -> bool {
        self.phase == NavigationPhase::WaitingForFirstPresentation && match self.first_presentation_deadline_us {
            Some(d) => now_us >= d,
            None => false,
        }
    }

    /// Checks the first-presentation deadline; a miss retries once, then fails.
    pub fn deadline(&mut self, now_us: u64) -> (r: Option<PresentationDeadline>)
        requires
            old(self).wf(),
        ensures
            final(self).wf(),
            !old(self).deadline_missed(now_us) ==> r is None && *final(self) == *old(self),
            old(self).deadline_missed(now_us) ==> (*final(self), r->0)
                == old(self).after_failed_attempt() && r is Some,
    {
        if self.phase != NavigationPhase::WaitingForFirstPresentation {
            return None;
        }
        match self.first_presentation_deadline_us {
            None => return None,
            Some(d) => {
                if now_us < d {
                    return None;
                }
            },
        }
        Some(self.fail_renderer_attempt())
    }

    /// The renderer exited before presenting; retries once, then fails.
    pub fn renderer_exited(&mut self) -> (r: Option<PresentationDeadline>)
        requires
            old(self).wf(),
        ensures
            final(self).wf(),
            old(self).phase != NavigationPhase::WaitingForFirstPresentation ==> r is None && *final(self) == *old(self),
            old(self).phase == NavigationPhase::WaitingForFirstPresentation ==> r is Some && (
            *final(self), r->0) == old(self).after_failed_attempt(),
    {
        if self.phase == NavigationPhase::WaitingForFirstPresentation {
            Some(self.fail_renderer_attempt())
        } else {
            None
        }
    }

    fn fail_renderer_attempt(&mut self) -> (r: PresentationDeadline)
        requires
            old(self).wf(),
        ensures
            final(self).wf(),
            (*final(self), r) == old(self).after_failed_attempt(),
    {
        self.document = None;
        self.first_presentation_deadline_us = None;
        if self.retry_count < MAX_FIRST_PRESENTATION_RETRIES {
            self.retry_count = self.retry_count + 1;
            self.phase = NavigationPhase::WaitingForRenderer;
            PresentationDeadline::Retry
        } else {
            self.network_pending = false;
            self.phase = NavigationPhase::Failed;
            self.page = None;
            PresentationDeadline::Failed
        }
    }

    /// Gives up on the navigation.
    pub fn fail(&mut self)
        requires
            old(self).wf(),
        ensures
            final(self).wf(),
            *final(self) == (NavigationTransaction {
                network_pending: false,
                phase: NavigationPhase::Failed,
                page: None,
                document: None,
                first_presentation_deadline_us: None,
                ..*old(self)
            }),
    {
        self.network_pending = false;
        self.phase = NavigationPhase::Failed;
        self.page = None;
        self.document = None;
        self.first_presentation_deadline_us = None;
    }

    /// Abandons the navigation so that nothing of the current generation is accepted.
    pub fn invalidate(&mut self)
        requires
            old(self).wf(),
        ensures
            final(self).wf(),
            *final(self) == (NavigationTransaction {
                generation: next_generation(old(self).generation),
                network_pending: false,
                phase: NavigationPhase::Failed,
                page: None,
                document: None,
                first_presentation_deadline_us: None,
                retry_count: 0,
                ..*old(self)
            }),
    {
        self.generation = if self.generation == u64::MAX { 1 } else { self.generation + 1 };
        self.fail();
        self.retry_count = 0;
    }

    pub fn generation(&self) -> (g: u64)
        ensures
            g == self.generation,
    {
        self.generation
    }

    pub fn is_loading(&self) -> (b: bool)
        ensures
            b == spec_is_loading(self.network_pending, self.phase),
    {
        self.network_pending || self.phase == NavigationPhase::Fetching || self.phase
            == NavigationPhase::WaitingForRenderer || self.phase
            == NavigationPhase::WaitingForFirstPresentation
    }
}

/// A fresh fetch never shares its generation with the one it replaces, so a completion of
/// the earlier fetch is refused.
pub proof fn lemma_new_generation_differs(t: NavigationTransaction, recovery: u8)
    requires
        t.wf(),
    ensures
        t.fetching_from(recovery).1 != t.generation,
        t.fetching_from(recovery).1 >= 1,
{
}

/// A missed first presentation is retried at most once: after a retry the next miss fails
/// the navigation and ends loading.
pub proof fn lemma_single_retry(t: NavigationTransaction)
    requires
        t.wf(),
        t.retry_count == MAX_FIRST_PRESENTATION_RETRIES,
    ensures
        t.after_failed_attempt().1 == PresentationDeadline::Failed,
        !spec_is_loading(t.after_failed_attempt().0.network_pending, t.after_failed_attempt().0.phase),
{
}

/// Recovery after presentation is available once per navigation: a second request in the
/// same navigation is refused.
pub proof fn lemma_recovery_once(t: NavigationTransaction)
    requires
        t.wf(),
        t.phase == NavigationPhase::Presented,
        t.post_presentation_recovery_count == 0,
    ensures
        t.fetching_from(1).0.post_presentation_recovery_count >= MAX_POST_PRESENTATION_RECOVERIES,
{
}

} // verus!
