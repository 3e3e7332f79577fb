//! A keyed store of semantic nodes that can also be walked in storage order.
use vstd::hash_map::HashMapWithView;
use vstd::prelude::*;

verus! {

broadcast use vstd::std_specs::hash::group_hash_axioms;

/// One node of a document's semantic tree: its identity, its children in
/// order, and whatever else the platform adapter shows for it.
pub struct SemanticNode<T> {
    pub id: u128,
    pub children: Vec<u128>,
    pub details: T,
}

/// Two node maps hold the same ids with the same children in the same order.
pub open spec fn same_shape<A, B>(a: Map<u128, SemanticNode<A>>, b: Map<u128, SemanticNode<B>>) -> bool {
    &&& a.dom() == b.dom()
    &&& forall|k: u128| #[trigger] a.contains_key(k) ==> a[k].children@ == b[k].children@
}

/// A copy of a list of node ids.
pub fn copy_ids(v: &Vec<u128>) -> (r: Vec<u128>)
    ensures
        r@ == v@,
{
    let mut r: Vec<u128> = Vec::new();
    let mut i: usize = 0;
    while i < v.len()
        invariant
            i <= v.len(),
            r@ == v@.take(i as int),
        decreases v.len() - i,
    {
        r.push(v[i]);
        i = i + 1;
        assert(r@ =~= v@.take(i as int));
    }
    assert(v@.take(v.len() as int) =~= v@);
    r
}

/// `es` lists the nodes of `m`, each once.
pub open spec fn enumerates<T>(es: Seq<SemanticNode<T>>, m: Map<u128, SemanticNode<T>>) -> bool {
    &&& es.len() == m.len()
    &&& m.dom().finite()
    &&& forall|i: int| 0 <= i < es.len() ==> #[trigger] m.contains_key(es[i].id) && m[es[i].id] == es[i]
    &&& forall|k: u128| #[trigger] m.contains_key(k) ==> exists|i: int| 0 <= i < es.len() && es[i].id == k
    &&& forall|i: int, j: int| 0 <= i < es.len() && 0 <= j < es.len() && i != j ==> es[i].id != es[j].id
}

/// Nodes keyed by id. Storage order is arbitrary but stable between changes.
pub struct NodeStore<T> {
    entries: Vec<SemanticNode<T>>,
    index: HashMapWithView<u128, usize>,
}

impl<T> View for NodeStore<T> {
    type V = Map<u128, SemanticNode<T>>;

    closed spec fn view(&self) -> Map<u128, SemanticNode<T>> {
        Map::new(|k: u128| self.index@.contains_key(k), |k: u128| self.entries@[self.index@[k] as int])
    }
}

impl<T> NodeStore<T> {
    /// The index and the storage agree, so every id is stored exactly once.
    pub closed spec fn wf(&self) -> bool {
        &&& forall|i: int|
            0 <= i < self.entries@.len() ==> #[trigger] self.index@.contains_key(self.entries@[i].id)
                && self.index@[self.entries@[i].id] == i
        &&& forall|k: u128|
            #[trigger] self.index@.contains_key(k) ==> self.index@[k] < self.entries@.len()
                && self.entries@[self.index@[k] as int].id == k
    }

    /// The nodes in storage order.
    pub closed spec fn entries(&self) -> Seq<SemanticNode<T>> {
        self.entries@
    }

    /// Storage order lists each stored node once, under its own key.
    pub proof fn lemma_entries(&self)
        requires
            self.wf(),
        ensures
            enumerates(self.entries(), self@),
    {
        assert(self@.dom() =~= self.index@.dom());
        assert forall|i: int| 0 <= i < self.entries().len() implies #[trigger] self@.contains_key(
            self.entries()[i].id,
        ) && self@[self.entries()[i].id] == self.entries()[i] by {
            assert(self.index@.contains_key(self.entries@[i].id));
            assert(self.index@[self.entries@[i].id] == i);
        }
        assert forall|k: u128| #[trigger] self@.contains_key(k) implies exists|i: int|
            0 <= i < self.entries().len() && self.entries()[i].id == k by {
            let i = self.index@[k] as int;
            assert(self.entries()[i].id == k);
        }
        assert forall|i: int, j: int|
            0 <= i < self.entries().len() && 0 <= j < self.entries().len() && i != j
                implies self.entries()[i].id != self.entries()[j].id by {
            assert(self.index@.contains_key(self.entries@[i].id));
            assert(self.index@.contains_key(self.entries@[j].id));
        }
        self.lemma_dom_len();
    }

    proof fn lemma_dom_len(&self)
        requires
            self.wf(),
        ensures
            self@.dom().finite(),
            self@.len() == self.entries@.len(),
    {
        let f = |i: int| self.entries@[i].id;
        let positions = Set::new(|i: int| 0 <= i < self.entries@.len());
        vstd::set_lib::lemma_int_range(0, self.entries@.len() as int);
        assert(positions =~= vstd::set_lib::set_int_range(0, self.entries@.len() as int));
        assert forall|k: u128| self@.dom().contains(k) implies positions.map(f).contains(k) by {
            let i = self.index@[k] as int;
            assert(positions.contains(i) && f(i) == k);
        }
        assert forall|k: u128| positions.map(f).contains(k) implies self@.dom().contains(k) by {
            let i = choose|i: int| positions.contains(i) && f(i) == k;
            assert(self.index@.contains_key(self.entries@[i].id));
        }
        assert(self@.dom() =~= positions.map(f));
        assert forall|a: int, b: int| positions.contains(a) && positions.contains(b) && #[trigger] f(a) == #[trigger] f(b) implies a == b by {
            assert(self.index@.contains_key(self.entries@[a].id));
            assert(self.index@.contains_key(self.entries@[b].id));
        }
        vstd::set_lib::lemma_map_size(positions, positions.map(f), f);
    }

    /// An empty store.
    pub fn new() -> (s: Self)
        ensures
            s.wf(),
            s@ == Map::<u128, SemanticNode<T>>::empty(),
            s.entries().len() == 0,
    {
        let s = NodeStore { entries: Vec::new(), index: HashMapWithView::new() };
        assert(s@ =~= Map::<u128, SemanticNode<T>>::empty());
        s
    }

    /// Number of stored nodes.
    pub fn len(&self) -> (n: usize)
        requires
            self.wf(),
        ensures
            n == self@.len(),
            n == self.entries().len(),
    {
        proof {
            self.lemma_dom_len();
        }
        self.entries.len()
    }

    /// Whether a node with this id is stored.
    pub fn contains(&self, id: u128) -> (b: bool)
        ensures
            b == self@.contains_key(id),
    {
        self.index.contains_key(&id)
    }

    /// The node stored under `id`.
    pub fn get(&self, id: u128) -> (r: Option<&SemanticNode<T>>)
        requires
            self.wf(),
        ensures
            match r {
                Some(n) => self@.contains_key(id) && *n == self@[id],
                None => !self@.contains_key(id),
            },
    {
        match self.index.get(&id) {
            Some(i) => Some(&self.entries[*i]),
            None => None,
        }
    }

    /// The node at position `i` of storage order.
    pub fn entry(&self, i: usize) -> (n: &SemanticNode<T>)
        requires
            i < self.entries().len(),
        ensures
            *n == self.entries()[i as int],
    {
        &self.entries[i]
    }

    /// Stores `node` under its id, replacing any node with that id.
    pub fn insert(&mut self, node: SemanticNode<T>)
        requires
            old(self).wf(),
        ensures
            final(self).wf(),
            final(self)@ == old(self)@.insert(node.id, node),
    {
        let id = node.id;
        let ghost before = self@;
        match self.index.get(&id) {
            Some(i) => {
                let i = *i;
                self.entries.set(i, node);
                assert forall|k: u128| #[trigger] self.index@.contains_key(k) implies self.index@[k]
                    < self.entries@.len() && self.entries@[self.index@[k] as int].id == k by {
                    if k != id {
                        assert(self.index@[k] != i);
                    }
                }
            },
            None => {
                let n = self.entries.len();
                self.entries.push(node);
                self.index.insert(id, n);
            },
        }
        assert(self@ =~= before.insert(id, node));
    }

    /// Removes and returns the node stored under `id`.
    pub fn remove(&mut self, id: u128) -> (r: Option<SemanticNode<T>>)
        requires
            old(self).wf(),
        ensures
            final(self).wf(),
            final(self)@ == old(self)@.remove(id),
            match r {
                Some(n) => old(self)@.contains_key(id) && n == old(self)@[id],
                None => !old(self)@.contains_key(id),
            },
    {
        let ghost before = self@;
        let i = match self.index.get(&id) {
            Some(i) => *i,
            None => {
                assert(self@ =~= before.remove(id));
                return None;
            },
        };
        let last = self.entries.len() - 1;
        let ghost old_entries = self.entries@;
        let ghost old_index = self.index@;
        let node = self.entries.swap_remove(i);
        let _ = self.index.remove(&id);
        if i < last {
            let moved = self.entries[i].id;
            assert(moved == old_entries[last as int].id);
            self.index.insert(moved, i);
            assert forall|j: int| 0 <= j < self.entries@.len() implies #[trigger] self.index@.contains_key(
                self.entries@[j].id,
            ) && self.index@[self.entries@[j].id] == j by {
                if j != i {
                    assert(old_index.contains_key(old_entries[j].id));
                    assert(old_index[old_entries[j].id] == j);
                    assert(old_index.contains_key(old_entries[last as int].id));
                    assert(old_index[old_entries[last as int].id] == last);
                    assert(old_entries[j].id != id);
                    assert(old_entries[j].id != moved);
                }
            }
            assert forall|k: u128| #[trigger] self.index@.contains_key(k) implies self.index@[k]
                < self.entries@.len() && self.entries@[self.index@[k] as int].id == k by {
                if k != moved {
                    assert(k != id);
                    assert(old_entries[last as int].id == moved);
                }
            }
        } else {
            assert forall|k: u128| #[trigger] self.index@.contains_key(k) implies self.index@[k]
                < self.entries@.len() && self.entries@[self.index@[k] as int].id == k by {
                assert(k != id);
            }
        }
        assert(self@ =~= before.remove(id));
        Some(node)
    }

    /// The same ids and children, without the details.
    pub fn shape(&self) -> (s: NodeStore<()>)
        requires
            self.wf(),
        ensures
            s.wf(),
            same_shape(s@, self@),
    {
        proof {
            self.lemma_entries();
        }
        let mut s: NodeStore<()> = NodeStore::new();
        let mut i: usize = 0;
        while i < self.entries.len()
            invariant
                self.wf(),
                s.wf(),
                i <= self.entries@.len(),
                self.entries@.len() == self@.len(),
                forall|k: int|
                    0 <= k < self.entries@.len() ==> #[trigger] self@.contains_key(self.entries@[k].id)
                        && self@[self.entries@[k].id] == self.entries@[k],
                forall|k: u128|
                    #[trigger] self@.contains_key(k) ==> exists|w: int|
                        0 <= w < self.entries@.len() && self.entries@[w].id == k,
                forall|k: u128|
                    #[trigger] s@.contains_key(k) <==> exists|w: int| 0 <= w < i && self.entries@[w].id == k,
                forall|k: u128| #[trigger] s@.contains_key(k) ==> s@[k].children@ == self@[k].children@,
            decreases self.entries@.len() - i,
        {
            let e = &self.entries[i];
            assert(self@.contains_key(self.entries@[i as int].id));
            let node = SemanticNode { id: e.id, children: copy_ids(&e.children), details: () };
            s.insert(node);
            proof {
                assert forall|k: u128| #[trigger] s@.contains_key(k) <==> exists|w: int|
                    0 <= w < i + 1 && self.entries@[w].id == k by {
                    if s@.contains_key(k) && k != e.id {
                        let w = choose|w: int| 0 <= w < i && self.entries@[w].id == k;
                        assert(0 <= w < i + 1 && self.entries@[w].id == k);
                    }
                    if exists|w: int| 0 <= w < i + 1 && self.entries@[w].id == k {
                        let w = choose|w: int| 0 <= w < i + 1 && self.entries@[w].id == k;
                        if w < i {
                            assert(exists|w: int| 0 <= w < i && self.entries@[w].id == k);
                        }
                    }
                }
            }
            i = i + 1;
        }
        proof {
            assert forall|k: u128| #[trigger] s@.contains_key(k) <==> self@.contains_key(k) by {
                if self@.contains_key(k) {
                    let w = choose|w: int| 0 <= w < self.entries@.len() && self.entries@[w].id == k;
                    assert(exists|w: int| 0 <= w < i && self.entries@[w].id == k);
                }
                if s@.contains_key(k) {
                    let w = choose|w: int| 0 <= w < i && self.entries@[w].id == k;
                    assert(self@.contains_key(self.entries@[w].id));
                }
            }
            assert(s@.dom() =~= self@.dom());
        }
        s
    }

    /// Removes every node.
    pub fn clear(&mut self)
        ensures
            final(self).wf(),
            final(self)@ == Map::<u128, SemanticNode<T>>::empty(),
            final(self).entries().len() == 0,
    {
        self.entries.clear();
        self.index.clear();
        assert(self@ =~= Map::<u128, SemanticNode<T>>::empty());
    }
}

} // verus!
