//! Routing of background completions to the window that currently shows a tab.
use vstd::hash_map::HashMapWithView;
use vstd::prelude::*;

verus! {

broadcast use vstd::std_specs::hash::group_hash_axioms;

/// Maps a stable tab identity to the handle of the window hosting it, so that
/// in-flight work follows a tab that is detached or docked again.
pub struct TabMessageRouter {
    destinations: HashMapWithView<u64, usize>,
}

impl View for TabMessageRouter {
    type V = Map<u64, usize>;

    closed spec fn view(&self) -> Map<u64, usize> {
        self.destinations@
    }
}

impl TabMessageRouter {
    /// A router with no bound tab.
    pub fn new() -> (r: Self)
        ensures
            r@ == Map::<u64, usize>::empty(),
    {
        TabMessageRouter { destinations: HashMapWithView::new() }
    }

    /// Routes messages for tab `id` to `window`, replacing any earlier route.
    pub fn bind(&mut self, id: u64, window: usize)
        ensures
            final(self)@ == old(self)@.insert(id, window),
    {
        self.destinations.insert(id, window);
    }

    /// Forgets the route of tab `id`.
    pub fn unbind(&mut self, id: u64)
        ensures
            final(self)@ == old(self)@.remove(id),
    {
        let _ = self.destinations.remove(&id);
    }

    /// The window that currently hosts tab `id`.
    pub fn destination(&self, id: u64) -> (w: Option<usize>)
        ensures
            w == (if self@.contains_key(id) { Some(self@[id]) } else { None::<usize> }),
    {
        match self.destinations.get(&id) {
            Some(w) => Some(*w),
            None => None,
        }
    }
}

impl Default for TabMessageRouter {
    fn default() -> (r: Self)
        ensures
            r@ == Map::<u64, usize>::empty(),
    {
        Self::new()
    }
}

/// A route reads back the window it was last bound to, binding one tab leaves
/// every other tab's route alone, and an unbound tab has no route.
pub proof fn lemma_route_follows_last_bind(routes: Map<u64, usize>, id: u64, other: u64, window: usize)
    requires
        id != other,
    ensures
        routes.insert(id, window).contains_key(id),
        routes.insert(id, window)[id] == window,
        routes.insert(id, window).contains_key(other) == routes.contains_key(other),
        routes.contains_key(other) ==> routes.insert(id, window)[other] == routes[other],
        !routes.remove(id).contains_key(id),
{
}

} // verus!
