//! Bounded navigation chains for document replacements that a page script asks for.
use vstd::hash_map::StringHashMap;
use vstd::prelude::*;

verus! {

/// Script-requested navigations followed in one chain before further ones are refused.
pub const MAX_SCRIPT_NAVIGATIONS: usize = 20;

/// Counts the navigations a script chain has followed and remembers every URL in it.
pub struct ScriptNavigationGuard {
    followed: usize,
    visited: StringHashMap<()>,
}

impl ScriptNavigationGuard {
    /// Navigations followed since the last reset.
    pub closed spec fn followed_count(&self) -> nat {
        self.followed as nat
    }

    /// URLs that already took part in the current chain.
    pub closed spec fn visited_urls(&self) -> Set<Seq<char>> {
        self.visited@.dom()
    }

    /// A guard that has followed nothing and seen nothing.
    pub fn new() -> (g: Self)
        ensures
            g.followed_count() == 0,
            g.visited_urls() == Set::<Seq<char>>::empty(),
    {
        ScriptNavigationGuard { followed: 0, visited: StringHashMap::new() }
    }

    /// Starts a new chain at a user navigation to `initial_url`.
    pub fn reset(&mut self, initial_url: &str)
        ensures
            final(self).followed_count() == 0,
            final(self).visited_urls() == set![initial_url@],
    {
        self.followed = 0;
        self.visited.clear();
        self.visited.insert(initial_url.to_owned(), ());
        assert(self.visited@.dom() =~= set![initial_url@]);
    }

    /// Remembers the URL a navigation finally committed to (after redirects).
    pub fn record_committed(&mut self, final_url: &str)
        ensures
            final(self).followed_count() == old(self).followed_count(),
            final(self).visited_urls() == old(self).visited_urls().insert(final_url@),
    {
        self.visited.insert(final_url.to_owned(), ());
    }

    /// Admits a script navigation to `target` unless the chain is full or the
    /// target already appeared in it.
    pub fn allow(&mut self, target: &str) -> (r: Result<(), &'static str>)
        ensures
            old(self).followed_count() >= MAX_SCRIPT_NAVIGATIONS ==> (r matches Err(e) && e@
                == "the document navigation limit was reached"@),
            old(self).followed_count() < MAX_SCRIPT_NAVIGATIONS && old(self).visited_urls().contains(
                target@,
            ) ==> (r matches Err(e) && e@ == "the target already appeared in this navigation chain"@),
            r is Err ==> final(self).followed_count() == old(self).followed_count()
                && final(self).visited_urls() == old(self).visited_urls(),
            r is Ok <==> (old(self).followed_count() < MAX_SCRIPT_NAVIGATIONS && !old(
                self,
            ).visited_urls().contains(target@)),
            r is Ok ==> final(self).followed_count() == old(self).followed_count() + 1
                && final(self).visited_urls() == old(self).visited_urls().insert(target@),
    {
        if self.followed >= MAX_SCRIPT_NAVIGATIONS {
            return Err("the document navigation limit was reached");
        }
        if self.visited.contains_key(target) {
            return Err("the target already appeared in this navigation chain");
        }
        self.visited.insert(target.to_owned(), ());
        self.followed = self.followed + 1;
        Ok(())
    }
}

impl Default for ScriptNavigationGuard {
    fn default() -> (g: Self)
        ensures
            g.followed_count() == 0,
            g.visited_urls() == Set::<Seq<char>>::empty(),
    {
        Self::new()
    }
}

} // verus!
