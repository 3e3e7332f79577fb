//! A tab's session history and the bookkeeping of starting a navigation:
//! which entry it lands on, the load generation that tells stale results
//! apart, and the texts the tab shows while it loads.
use crate::script_navigation::ScriptNavigationGuard;
use crate::text::{push_str, string_from, string_of, text_eq};
use vstd::prelude::*;

verus! {

/// How a navigation treats the session history.
#[derive(Clone, Copy, Debug, PartialEq, Eq, Structural)]
pub enum HistoryMode {
    /// A new entry after the current one (unless it repeats the current URL).
    Push,
    /// Back, forward or reload: the entry already exists.
    Existing,
    /// A page script replaced the document; the history stays as it is.
    Script,
}

/// The session history of a tab: the URLs, oldest first, and the current entry.
pub struct TabHistory {
    pub entries: Vec<String>,
    pub index: usize,
}

/// The entries as character sequences.
pub open spec fn entry_views(entries: Seq<String>) -> Seq<Seq<char>> {
    entries.map_values(|e: String| e@)
}

/// The history after pushing `url` at entry `index`: later entries are
/// dropped and `url` becomes the current, last entry, unless it already is
/// the current one.
pub open spec fn pushed(h: Seq<Seq<char>>, index: int, url: Seq<char>) -> (Seq<Seq<char>>, int) {
    if 0 <= index < h.len() && h[index] == url {
        (h, index)
    } else {
        let kept = if h.len() == 0 { h } else { h.take(index + 1) };
        (kept.push(url), kept.len() as int)
    }
}

impl TabHistory {
    /// The current entry exists whenever there is one.
    pub open spec fn wf(&self) -> bool {
        if self.entries@.len() == 0 {
            self.index == 0
        } else {
            self.index < self.entries@.len()
        }
    }

    pub open spec fn urls(&self) -> Seq<Seq<char>> {
        entry_views(self.entries@)
    }

    /// No entries yet.
    pub fn new() -> (h: Self)
        ensures
            h.wf(),
            h.urls().len() == 0,
            h.index == 0,
    {
        let h = TabHistory { entries: Vec::new(), index: 0 };
        assert(h.urls() =~= Seq::<Seq<char>>::empty());
        h
    }

    /// Records a navigation to `url` as a new current entry.
    pub fn push(&mut self, url: &str)
        requires
            old(self).wf(),
        ensures
            final(self).wf(),
            (final(self).urls(), final(self).index as int) == pushed(old(self).urls(), old(self).index as int, url@),
    {
        let ghost before = self.urls();
        if self.index < self.entries.len() && text_eq(self.entries[self.index].as_str(), url) {
            return ;
        }
        if self.entries.len() > 0 {
            self.entries.truncate(self.index + 1);
        }
        let ghost kept = self.urls();
        proof {
            if before.len() > 0 {
                assert(kept =~= before.take(self.index + 1));
            } else {
                assert(kept =~= before);
            }
        }
        self.entries.push(string_from(url));
        self.index = self.entries.len() - 1;
        proof {
            assert(self.urls() =~= kept.push(url@));
        }
    }

    /// Steps back one entry and returns its URL, if there is an earlier one.
    pub fn back(&mut self) -> (url: Option<String>)
        requires
            old(self).wf(),
        ensures
            final(self).wf(),
            final(self).urls() == old(self).urls(),
            old(self).index > 0 ==> final(self).index == old(self).index - 1 && url is Some
                && url->Some_0@ == old(self).urls()[old(self).index - 1],
            old(self).index == 0 ==> final(self).index == 0 && url is None,
    {
        if self.index > 0 {
            self.index = self.index - 1;
            Some(string_from(self.entries[self.index].as_str()))
        } else {
            None
        }
    }

    /// Steps forward one entry and returns its URL, if there is a later one.
    pub fn forward(&mut self) -> (url: Option<String>)
        requires
            old(self).wf(),
        ensures
            final(self).wf(),
            final(self).urls() == old(self).urls(),
            old(self).index + 1 < old(self).urls().len() ==> final(self).index == old(self).index + 1
                && url is Some && url->Some_0@ == old(self).urls()[old(self).index + 1],
            !(old(self).index + 1 < old(self).urls().len()) ==> final(self).index == old(self).index
                && url is None,
    {
        if self.index < self.entries.len() && self.entries.len() - self.index > 1 {
            self.index = self.index + 1;
            Some(string_from(self.entries[self.index].as_str()))
        } else {
            None
        }
    }

    /// The URL of the current entry, which a reload fetches again.
    pub fn current(&self) -> (url: Option<String>)
        requires
            self.wf(),
        ensures
            self.urls().len() > 0 ==> url is Some && url->Some_0@ == self.urls()[self.index as int],
            self.urls().len() == 0 ==> url is None,
    {
        if self.index < self.entries.len() {
            Some(string_from(self.entries[self.index].as_str()))
        } else {
            None
        }
    }

    /// Whether back, forward and reload are available.
    pub fn buttons(&self) -> (enabled: (bool, bool, bool))
        requires
            self.wf(),
        ensures
            enabled == (self.index > 0, self.index + 1 < self.urls().len(), self.urls().len() > 0),
    {
        (
            self.index > 0,
            self.index < self.entries.len() && self.entries.len() - self.index > 1,
            self.entries.len() > 0,
        )
    }
}

/// What a tab shows and remembers about its current load.
pub struct TabLoad {
    pub history: TabHistory,
    pub script_navigation: ScriptNavigationGuard,
    /// Tells results of this load apart from those of earlier ones.
    pub generation: u64,
    pub loading: bool,
    pub crashed: bool,
    pub omnibox_text: String,
    pub title: String,
    pub status_text: String,
}

/// The loading status line for `url`.
pub open spec fn loading_status(url: Seq<char>) -> Seq<char> {
    "Loading "@ + url + " \u{2026}"@
}

impl TabLoad {
    /// A tab that has loaded nothing.
    pub fn new() -> (t: Self)
        ensures
            t.history.wf(),
            t.history.urls().len() == 0,
            t.generation == 0,
            !t.loading,
            !t.crashed,
            t.script_navigation.followed_count() == 0,
            t.script_navigation.visited_urls() == Set::<Seq<char>>::empty(),
            t.omnibox_text@ == Seq::<char>::empty(),
            t.title@ == Seq::<char>::empty(),
            t.status_text@ == Seq::<char>::empty(),
    {
        TabLoad {
            history: TabHistory::new(),
            script_navigation: ScriptNavigationGuard::new(),
            generation: 0,
            loading: false,
            crashed: false,
            omnibox_text: String::new(),
            title: String::new(),
            status_text: String::new(),
        }
    }

    /// Starts a navigation to `url`. A load still running is superseded, which
    /// takes one more generation step; the history and the script chain follow
    /// `mode`; the tab shows the URL while it loads. Returns the new generation.
    pub fn begin_navigation(&mut self, url: &str, mode: HistoryMode) -> (generation: u64)
        requires
            old(self).history.wf(),
        ensures
            final(self).history.wf(),
            generation == final(self).generation,
            generation == (if old(self).loading {
                (old(self).generation as int + 2) % 0x1_0000_0000_0000_0000
            } else {
                (old(self).generation as int + 1) % 0x1_0000_0000_0000_0000
            }),
            mode == HistoryMode::Push ==> (final(self).history.urls(), final(self).history.index as int) == pushed(
                old(self).history.urls(),
                old(self).history.index as int,
                url@,
            ),
            mode != HistoryMode::Push ==> final(self).history.urls() == old(self).history.urls()
                && final(self).history.index == old(self).history.index,
            mode != HistoryMode::Script ==> final(self).script_navigation.followed_count() == 0
                && final(self).script_navigation.visited_urls() == set![url@],
            mode == HistoryMode::Script ==> final(self).script_navigation == old(self).script_navigation,
            final(self).loading,
            !final(self).crashed,
            final(self).omnibox_text@ == url@,
            final(self).title@ == url@,
            final(self).status_text@ == loading_status(url@),
    {
        if self.loading {
            self.generation = self.generation.wrapping_add(1);
        }
        match mode {
            HistoryMode::Push => {
                self.script_navigation.reset(url);
                self.history.push(url);
            },
            HistoryMode::Existing => self.script_navigation.reset(url),
            HistoryMode::Script => {},
        }
        self.generation = self.generation.wrapping_add(1);
        self.loading = true;
        self.crashed = false;
        self.omnibox_text = string_from(url);
        self.title = string_from(url);
        let mut status: Vec<char> = Vec::new();
        push_str(&mut status, "Loading ");
        assert(status@ =~= "Loading "@);
        push_str(&mut status, url);
        push_str(&mut status, " \u{2026}");
        self.status_text = string_of(status.as_slice());
        self.generation
    }
}

/// Navigating to a new URL makes it the current and last entry (nothing is
/// left to go forward to), and one step back lands on the entry that was
/// current before.
pub proof fn lemma_push_then_back(h: Seq<Seq<char>>, index: int, url: Seq<char>)
    requires
        0 <= index < h.len(),
        h[index] != url,
    ensures
        ({
            let (h2, i2) = pushed(h, index, url);
            &&& i2 == index + 1
            &&& i2 == h2.len() - 1
            &&& h2[i2] == url
            &&& h2[i2 - 1] == h[index]
            &&& h2.take(index + 1) == h.take(index + 1)
        }),
{
    let (h2, i2) = pushed(h, index, url);
    assert(h2.take(index + 1) =~= h.take(index + 1));
}

} // verus!
