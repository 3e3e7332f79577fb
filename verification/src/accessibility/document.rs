//! Transactional browser-side application of the renderer's semantic-tree
//! updates, and the stable platform identities handed to the screen reader.
use super::node_store::{copy_ids, same_shape, NodeStore, SemanticNode};
use super::tree_check::{
    all_reachable, bad_parent_message, edge_budget_message, has_parent, invalid_root_message,
    lemma_same_shape_tree, links_ok, root_and_focus_ok, root_parent_message, unreachable_message,
    validate_tree, valid_tree,
};
use crate::text::string_from;
use vstd::hash_map::HashMapWithView;
use vstd::hash_set::HashSetWithView;
use vstd::prelude::*;
use vstd::relations::{sorted_by, total_ordering};

verus! {

broadcast use vstd::std_specs::hash::group_hash_axioms;

/// Platform identities of document nodes start here, above the browser's own.
pub const DOCUMENT_PLATFORM_ID_BASE: u64 = 0x1_0000_0000;

/// A semantic-tree message from the renderer: either the whole tree (`full`)
/// or a delta that replaces `nodes`, creates those listed in `added`, and drops
/// those listed in `removed`.
pub struct AccessibilityUpdate<T> {
    pub full: bool,
    pub root: u128,
    pub focus: u128,
    pub nodes: Vec<SemanticNode<T>>,
    pub added: Vec<u128>,
    pub removed: Vec<u128>,
}

/// What the platform adapter must refresh after an update was applied.
pub struct AppliedAccessibilityUpdate {
    /// Ids of the nodes the update carried, ascending.
    pub changed: Vec<u128>,
    /// The whole tree must be sent again.
    pub full: bool,
}

/// Nodes, node-to-platform identities, platform-to-node identities, and the
/// next platform identity to hand out.
pub type DocumentState<T> = (Map<u128, SemanticNode<T>>, Map<u128, u64>, Map<u64, u128>, u64);

/// Where staging an update ended.
pub enum Staged<T> {
    Ready(DocumentState<T>),
    Refused(Seq<char>),
}

/// The accessibility tree of the document shown in a tab.
pub struct AccessibilityDocument<T> {
    document: Option<u64>,
    revision: u64,
    root: Option<u128>,
    focus: Option<u128>,
    nodes: NodeStore<T>,
    platform_ids: HashMapWithView<u128, u64>,
    document_ids: HashMapWithView<u64, u128>,
    next_platform_id: u64,
}

/// The platform identities are a one-to-one map between stored nodes and ids
/// in `[DOCUMENT_PLATFORM_ID_BASE, next)`.
pub open spec fn identities_ok<T>(s: DocumentState<T>) -> bool {
    &&& s.1.dom() == s.0.dom()
    &&& forall|k: u128| #[trigger] s.1.contains_key(k) ==> s.2.contains_key(s.1[k]) && s.2[s.1[k]] == k
    &&& forall|p: u64| #[trigger] s.2.contains_key(p) ==> s.1.contains_key(s.2[p]) && s.1[s.2[p]] == p
    &&& forall|k: u128| #[trigger] s.1.contains_key(k) ==> DOCUMENT_PLATFORM_ID_BASE <= s.1[k] < s.3
    &&& DOCUMENT_PLATFORM_ID_BASE <= s.3
}

/// Drops the nodes listed in `rs` one after another, with their identities;
/// `None` as soon as one of them is not stored.
pub open spec fn apply_removals<T>(s: DocumentState<T>, rs: Seq<u128>) -> Option<DocumentState<T>>
    decreases rs.len(),
{
    if rs.len() == 0 {
        Some(s)
    } else {
        match apply_removals(s, rs.drop_last()) {
            Some(t) => {
                let r = rs.last();
                if t.0.contains_key(r) {
                    Some(
                        (
                            t.0.remove(r),
                            t.1.remove(r),
                            if t.1.contains_key(r) {
                                t.2.remove(t.1[r])
                            } else {
                                t.2
                            },
                            t.3,
                        ),
                    )
                } else {
                    None
                }
            },
            None => None,
        }
    }
}

pub open spec fn marker_message() -> Seq<char> {
    "accessibility delta has an invalid new-node marker"@
}

pub open spec fn exhausted_message() -> Seq<char> {
    "AccessKit document identity space exhausted"@
}

pub open spec fn unknown_removal_message() -> Seq<char> {
    "accessibility delta removed an unknown node"@
}

/// Stores one node of an update, giving it a platform identity if it has none.
/// In a delta the node must be marked as added exactly when it is new.
pub open spec fn stage_node<T>(s: DocumentState<T>, node: SemanticNode<T>, full: bool, added: Seq<u128>) -> Staged<T> {
    if !full && added.contains(node.id) == s.0.contains_key(node.id) {
        Staged::Refused(marker_message())
    } else if !s.1.contains_key(node.id) {
        if s.3 == u64::MAX {
            Staged::Refused(exhausted_message())
        } else {
            Staged::Ready(
                (s.0.insert(node.id, node), s.1.insert(node.id, s.3), s.2.insert(s.3, node.id), (s.3 + 1) as u64),
            )
        }
    } else {
        Staged::Ready((s.0.insert(node.id, node), s.1, s.2, s.3))
    }
}

/// Stores the nodes of an update in order, stopping at the first refusal.
pub open spec fn stage_nodes<T>(s: DocumentState<T>, ns: Seq<SemanticNode<T>>, full: bool, added: Seq<u128>) -> Staged<T>
    decreases ns.len(),
{
    if ns.len() == 0 {
        Staged::Ready(s)
    } else {
        match stage_nodes(s, ns.drop_last(), full, added) {
            Staged::Ready(t) => stage_node(t, ns.last(), full, added),
            Staged::Refused(e) => Staged::Refused(e),
        }
    }
}

/// The ids of nodes, in order.
pub open spec fn node_ids<T>(ns: Seq<SemanticNode<T>>) -> Seq<u128> {
    ns.map_values(|n: SemanticNode<T>| n.id)
}

/// `<=` on node ids.
pub open spec fn id_le() -> spec_fn(u128, u128) -> bool {
    |a: u128, b: u128| a <= b
}

/// The error a failed tree check may report for these nodes.
pub open spec fn tree_refusal<T>(root: u128, focus: u128, m: Map<u128, SemanticNode<T>>, e: Seq<char>) -> bool {
    if !root_and_focus_ok(root, focus, m) {
        e == invalid_root_message()
    } else if !links_ok(m) {
        e == edge_budget_message() || e == bad_parent_message()
    } else if has_parent(m, root) {
        e == root_parent_message()
    } else {
        !all_reachable(m, root) && e == unreachable_message()
    }
}

/// Stores `ns` in order, later nodes replacing earlier ones with the same id.
pub open spec fn insert_nodes<T>(m: Map<u128, SemanticNode<T>>, ns: Seq<SemanticNode<T>>) -> Map<u128, SemanticNode<T>>
    decreases ns.len(),
{
    if ns.len() == 0 {
        m
    } else {
        insert_nodes(m, ns.drop_last()).insert(ns.last().id, ns.last())
    }
}

/// Records node-to-platform identities in order.
pub open spec fn with_platform(pl: Map<u128, u64>, a: Seq<(u128, u64)>) -> Map<u128, u64>
    decreases a.len(),
{
    if a.len() == 0 {
        pl
    } else {
        with_platform(pl, a.drop_last()).insert(a.last().0, a.last().1)
    }
}

/// Records platform-to-node identities in order.
pub open spec fn with_documents(d: Map<u64, u128>, a: Seq<(u128, u64)>) -> Map<u64, u128>
    decreases a.len(),
{
    if a.len() == 0 {
        d
    } else {
        with_documents(d, a.drop_last()).insert(a.last().1, a.last().0)
    }
}

/// Once a removal fails, removing more does not help.
proof fn lemma_removals_fail<T>(base: DocumentState<T>, rs: Seq<u128>, i: int)
    requires
        0 <= i <= rs.len(),
        apply_removals(base, rs.take(i)) is None,
    ensures
        apply_removals(base, rs) is None,
    decreases rs.len() - i,
{
    if i < rs.len() {
        assert(rs.take(i + 1).drop_last() =~= rs.take(i));
        lemma_removals_fail(base, rs, i + 1);
    } else {
        assert(rs.take(i) =~= rs);
    }
}

/// Once staging refuses a node, the whole update is refused for that reason.
proof fn lemma_stage_fail<T>(s: DocumentState<T>, ns: Seq<SemanticNode<T>>, full: bool, added: Seq<u128>, i: int, e: Seq<char>)
    requires
        0 <= i <= ns.len(),
        stage_nodes(s, ns.take(i), full, added) == Staged::<T>::Refused(e),
    ensures
        stage_nodes(s, ns, full, added) == Staged::<T>::Refused(e),
    decreases ns.len() - i,
{
    if i < ns.len() {
        assert(ns.take(i + 1).drop_last() =~= ns.take(i));
        lemma_stage_fail(s, ns, full, added, i + 1, e);
    } else {
        assert(ns.take(i) =~= ns);
    }
}

/// Dropping a stored node and its identity keeps the identities one-to-one.
proof fn lemma_removal_keeps_identities<T>(t: DocumentState<T>, r: u128)
    requires
        identities_ok(t),
        t.0.contains_key(r),
    ensures
        identities_ok(
            (
                t.0.remove(r),
                t.1.remove(r),
                if t.1.contains_key(r) {
                    t.2.remove(t.1[r])
                } else {
                    t.2
                },
                t.3,
            ),
        ),
{
    let u: DocumentState<T> = (
        t.0.remove(r),
        t.1.remove(r),
        if t.1.contains_key(r) {
            t.2.remove(t.1[r])
        } else {
            t.2
        },
        t.3,
    );
    assert(u.1.dom() =~= u.0.dom());
    assert forall|k: u128| #[trigger] u.1.contains_key(k) implies u.2.contains_key(u.1[k]) && u.2[u.1[k]] == k by {
        assert(t.2[t.1[k]] == k);
        if t.1[k] == t.1[r] {
            assert(t.2[t.1[r]] == r);
        }
    }
    assert forall|p: u64| #[trigger] u.2.contains_key(p) implies u.1.contains_key(u.2[p]) && u.1[u.2[p]] == p by {
        assert(t.2.contains_key(p));
        assert(t.1[t.2[p]] == p);
    }
}

/// Staging a node keeps the identities one-to-one and below the next one.
proof fn lemma_stage_keeps_identities<T>(s: DocumentState<T>, node: SemanticNode<T>, full: bool, added: Seq<u128>)
    requires
        identities_ok(s),
        stage_node(s, node, full, added) is Ready,
    ensures
        identities_ok(stage_node(s, node, full, added)->Ready_0),
{
    let t = stage_node(s, node, full, added)->Ready_0;
    if !s.1.contains_key(node.id) {
        assert(t.1.dom() =~= t.0.dom());
        assert(!s.2.contains_key(s.3)) by {
            if s.2.contains_key(s.3) {
                assert(s.1[s.2[s.3]] == s.3);
            }
        }
        assert forall|k: u128| #[trigger] t.1.contains_key(k) implies t.2.contains_key(t.1[k]) && t.2[t.1[k]] == k by {
            if k != node.id {
                assert(s.1[k] < s.3);
            }
        }
        assert forall|p: u64| #[trigger] t.2.contains_key(p) implies t.1.contains_key(t.2[p]) && t.1[t.2[p]] == p by {
            if p != s.3 {
                assert(s.1.contains_key(s.2[p]));
                assert(s.2[p] != node.id);
            }
        }
    } else {
        assert(t.1.dom() =~= t.0.dom());
    }
}

/// Sorts node ids ascending.
fn sort_ids(v: &Vec<u128>) -> (r: Vec<u128>)
    ensures
        r@ == v@.sort_by(id_le()),
{
    let mut out: Vec<u128> = Vec::new();
    let mut i: usize = 0;
    proof {
        assert(v@.subrange(0, 0) =~= out@);
    }
    while i < v.len()
        invariant
            i <= v.len(),
            out@.len() == i,
            sorted_by(out@, id_le()),
            out@.to_multiset() == v@.subrange(0, i as int).to_multiset(),
        decreases v.len() - i,
    {
        let x = v[i];
        let mut p: usize = 0;
        while p < out.len() && out[p] <= x
            invariant
                p <= out.len(),
                sorted_by(out@, id_le()),
                forall|k: int| 0 <= k < p ==> out@[k] <= x,
            decreases out.len() - p,
        {
            p = p + 1;
        }
        let ghost before = out@;
        out.insert(p, x);
        proof {
            assert(out@ == before.insert(p as int, x));
            assert forall|a: int, b: int| 0 <= a < b < out@.len() implies #[trigger] id_le()(out@[a], out@[b]) by {
                if b < p {
                    assert(id_le()(before[a], before[b]));
                } else if b == p {
                    assert(before[a] <= x);
                } else if a < p {
                    assert(before[a] <= x);
                    assert(before[p as int] > x);
                    assert(id_le()(before[p as int], before[b - 1]) || p as int == b - 1);
                } else if a == p {
                    assert(before[p as int] > x);
                    assert(id_le()(before[p as int], before[b - 1]) || p as int == b - 1);
                } else {
                    assert(id_le()(before[a - 1], before[b - 1]));
                }
            }
            assert(v@.subrange(0, i + 1) =~= v@.subrange(0, i as int).push(x));
            vstd::seq_lib::to_multiset_insert(before, p as int, x);
            vstd::seq_lib::to_multiset_build(v@.subrange(0, i as int), x);
        }
        i = i + 1;
    }
    proof {
        assert(v@.subrange(0, v.len() as int) =~= v@);
        v@.lemma_sort_by_ensures(id_le());
        vstd::seq_lib::lemma_sorted_unique(out@, v@.sort_by(id_le()), id_le());
    }
    out
}

/// Removing other nodes keeps a node's identity.
proof fn lemma_removals_keep<T>(base: DocumentState<T>, rs: Seq<u128>, x: u128)
    requires
        identities_ok(base),
        base.1.contains_key(x),
        !rs.contains(x),
        apply_removals(base, rs) is Some,
    ensures
        apply_removals(base, rs)->Some_0.1.contains_key(x),
        apply_removals(base, rs)->Some_0.1[x] == base.1[x],
    decreases rs.len(),
{
    if rs.len() > 0 {
        assert(!rs.drop_last().contains(x)) by {
            if rs.drop_last().contains(x) {
                let w = choose|w: int| 0 <= w < rs.drop_last().len() && rs.drop_last()[w] == x;
                assert(rs[w] == x);
            }
        }
        assert(rs[rs.len() - 1] != x);
        lemma_removals_keep(base, rs.drop_last(), x);
    }
}

/// Staging nodes never changes an identity already handed out.
proof fn lemma_stage_keeps<T>(s: DocumentState<T>, ns: Seq<SemanticNode<T>>, full: bool, added: Seq<u128>, x: u128)
    requires
        s.1.contains_key(x),
        stage_nodes(s, ns, full, added) is Ready,
    ensures
        stage_nodes(s, ns, full, added)->Ready_0.1.contains_key(x),
        stage_nodes(s, ns, full, added)->Ready_0.1[x] == s.1[x],
    decreases ns.len(),
{
    if ns.len() > 0 {
        lemma_stage_keeps(s, ns.drop_last(), full, added, x);
    }
}

/// Platform identities and stored nodes correspond one to one, and every
/// identity lies at or above `DOCUMENT_PLATFORM_ID_BASE`: looking a node's
/// identity back up gives the node.
pub proof fn lemma_identities_round_trip<T>(doc: AccessibilityDocument<T>, id: u128)
    requires
        doc.wf(),
        doc.state().0.contains_key(id),
    ensures
        doc.state().1.contains_key(id),
        doc.state().1[id] >= DOCUMENT_PLATFORM_ID_BASE,
        doc.state().2.contains_key(doc.state().1[id]),
        doc.state().2[doc.state().1[id]] == id,
{
}

/// A delta keeps the platform identity of every node it does not remove, so a
/// screen reader keeps pointing at the same node across updates.
pub proof fn lemma_delta_keeps_identities<T>(doc: AccessibilityDocument<T>, update: AccessibilityUpdate<T>, id: u128)
    requires
        doc.wf(),
        !update.full,
        doc.staged(update) is Ready,
        doc.state().0.contains_key(id),
        !update.removed@.contains(id),
    ensures
        doc.staged(update)->Ready_0.1.contains_key(id),
        doc.staged(update)->Ready_0.1[id] == doc.state().1[id],
{
    let base = doc.state();
    lemma_removals_keep(base, update.removed@, id);
    let s = apply_removals(base, update.removed@)->Some_0;
    lemma_stage_keeps(s, update.nodes@, update.full, update.added@, id);
}

impl<T> AccessibilityDocument<T> {
    /// The document the tree belongs to, once one was accepted.
    pub closed spec fn document_id(&self) -> Option<u64> {
        self.document
    }

    /// Revision of the last accepted update.
    pub closed spec fn revision_number(&self) -> u64 {
        self.revision
    }

    pub closed spec fn root_id(&self) -> Option<u128> {
        self.root
    }

    pub closed spec fn focus_id(&self) -> Option<u128> {
        self.focus
    }

    /// Nodes, identities both ways, and the next identity.
    pub closed spec fn state(&self) -> DocumentState<T> {
        (self.nodes@, self.platform_ids@, self.document_ids@, self.next_platform_id)
    }

    pub closed spec fn wf(&self) -> bool {
        &&& self.nodes.wf()
        &&& identities_ok(self.state())
        &&& self.nodes@.len() > 0 ==> self.root is Some && self.document is Some
    }

    /// Why the renderer's update is refused before anything is staged.
    pub open spec fn refusal(&self, document: u64, revision: u64, update: AccessibilityUpdate<T>) -> Option<Seq<char>> {
        let new_document = self.document_id() != Some(document);
        let empty = self.state().0.len() == 0;
        if revision == 0 {
            Some("zero accessibility revision"@)
        } else if self.document_id() == Some(document) && revision <= self.revision_number() {
            Some("stale accessibility revision"@)
        } else if (new_document || empty) && !update.full {
            Some("accessibility delta arrived before its full tree"@)
        } else if !new_document && !empty && update.full {
            Some("accessibility document sent a second full tree"@)
        } else if !new_document && !empty && self.root_id() != Some(update.root) {
            Some("accessibility document root changed"@)
        } else {
            None
        }
    }

    /// The nodes and identities the update leads to, before the tree check.
    pub open spec fn staged(&self, update: AccessibilityUpdate<T>) -> Staged<T> {
        let base: DocumentState<T> = if update.full {
            (Map::empty(), Map::empty(), Map::empty(), DOCUMENT_PLATFORM_ID_BASE)
        } else {
            self.state()
        };
        match apply_removals(base, update.removed@) {
            Some(s) => stage_nodes(s, update.nodes@, update.full, update.added@),
            None => Staged::Refused(unknown_removal_message()),
        }
    }

    /// No document and no nodes.
    pub fn new() -> (d: Self)
        ensures
            d.wf(),
            d.document_id() is None,
            d.revision_number() == 0,
            d.root_id() is None,
            d.focus_id() is None,
            d.state() == (
                Map::<u128, SemanticNode<T>>::empty(),
                Map::<u128, u64>::empty(),
                Map::<u64, u128>::empty(),
                DOCUMENT_PLATFORM_ID_BASE,
            ),
    {
        AccessibilityDocument {
            document: None,
            revision: 0,
            root: None,
            focus: None,
            nodes: NodeStore::new(),
            platform_ids: HashMapWithView::new(),
            document_ids: HashMapWithView::new(),
            next_platform_id: DOCUMENT_PLATFORM_ID_BASE,
        }
    }

    /// Forgets the tree; tells whether there was one.
    pub fn clear(&mut self) -> (had_tree: bool)
        requires
            old(self).wf(),
        ensures
            final(self).wf(),
            had_tree == (old(self).state().0.len() > 0),
            final(self).document_id() is None,
            final(self).revision_number() == 0,
            final(self).root_id() is None,
            final(self).focus_id() is None,
            final(self).state() == (
                Map::<u128, SemanticNode<T>>::empty(),
                Map::<u128, u64>::empty(),
                Map::<u64, u128>::empty(),
                DOCUMENT_PLATFORM_ID_BASE,
            ),
    {
        let had_tree = self.nodes.len() > 0;
        *self = Self::new();
        had_tree
    }

    /// Applies one semantic-tree message for `document` at `revision`. On any
    /// refusal the tree is left exactly as it was.
    #[verifier::rlimit(50)]
    #[verifier::loop_isolation(false)]
    pub fn apply(&mut self, document: u64, revision: u64, update: AccessibilityUpdate<T>) -> (r: Result<AppliedAccessibilityUpdate, String>)
        requires
            old(self).wf(),
        ensures
            final(self).wf(),
            old(self).refusal(document, revision, update) matches Some(msg) ==> (r matches Err(e) && e@ == msg
                && *final(self) == *old(self)),
            old(self).refusal(document, revision, update) is None ==> match old(self).staged(update) {
                Staged::Refused(msg) => (r matches Err(e) && e@ == msg && *final(self) == *old(self)),
                Staged::Ready(s) => {
                    &&& (r is Ok <==> valid_tree(update.root, update.focus, s.0))
                    &&& (r matches Err(e) ==> tree_refusal(update.root, update.focus, s.0, e@) && *final(self)
                        == *old(self))
                    &&& (r matches Ok(applied) ==> {
                        &&& final(self).document_id() == Some(document)
                        &&& final(self).revision_number() == revision
                        &&& final(self).root_id() == Some(update.root)
                        &&& final(self).focus_id() == Some(update.focus)
                        &&& final(self).state() == s
                        &&& applied.full == (update.full || old(self).document_id() != Some(document))
                        &&& applied.changed@ == node_ids(update.nodes@).sort_by(id_le())
                    })
                },
            },
            revision == 0 || (old(self).document_id() == Some(document) && revision
                <= old(self).revision_number()) ==> r is Err && *final(self) == *old(self),
            r matches Ok(applied) ==> valid_tree(update.root, update.focus, final(self).state().0)
                && sorted_by(applied.changed@, id_le()),
    {
        proof {
            assert(total_ordering(id_le()));
            node_ids(update.nodes@).lemma_sort_by_ensures(id_le());
        }
        if revision == 0 {
            return Err(string_from("zero accessibility revision"));
        }
        let same_document = match self.document {
            Some(d) => d == document,
            None => false,
        };
        if same_document && revision <= self.revision {
            return Err(string_from("stale accessibility revision"));
        }
        let empty = self.nodes.len() == 0;
        if (!same_document || empty) && !update.full {
            return Err(string_from("accessibility delta arrived before its full tree"));
        }
        if same_document && !empty && update.full {
            return Err(string_from("accessibility document sent a second full tree"));
        }
        if same_document && !empty {
            let root_kept = match self.root {
                Some(r) => r == update.root,
                None => false,
            };
            if !root_kept {
                return Err(string_from("accessibility document root changed"));
            }
        }
        let ghost spec_update = update;
        let ghost pre = *self;
        proof {
            assert(pre.refusal(document, revision, spec_update) is None);
        }
        let AccessibilityUpdate { full, root, focus, nodes, added, removed } = update;
        let ghost base: DocumentState<T> = if full {
            (Map::empty(), Map::empty(), Map::empty(), DOCUMENT_PLATFORM_ID_BASE)
        } else {
            self.state()
        };
        let mut shape: NodeStore<()> = if full {
            NodeStore::new()
        } else {
            self.nodes.shape()
        };
        let ghost mut st: DocumentState<T> = base;
        proof {
            assert(removed@.take(0) =~= Seq::<u128>::empty());
            if full {
                assert(shape@ =~= Map::<u128, SemanticNode<()>>::empty());
                assert(identities_ok(base));
            }
        }
        let mut i: usize = 0;
        while i < removed.len()
            invariant
                *self == pre,
                pre.wf(),
                pre.refusal(document, revision, spec_update) is None,
                spec_update.full == full,
                spec_update.root == root,
                spec_update.focus == focus,
                spec_update.nodes@ == nodes@,
                spec_update.added@ == added@,
                spec_update.removed@ == removed@,
                base == (if full {
                    (Map::empty(), Map::empty(), Map::empty(), DOCUMENT_PLATFORM_ID_BASE)
                } else {
                    pre.state()
                }),
                shape.wf(),
                i <= removed@.len(),
                st.3 == base.3,
                apply_removals(base, removed@.take(i as int)) == Some(st),
                identities_ok(st),
                same_shape(shape@, st.0),
            decreases removed@.len() - i,
        {
            let r = removed[i];
            proof {
                assert(removed@.take(i + 1).drop_last() =~= removed@.take(i as int));
                assert(removed@.take(i + 1).last() == r);
            }
            if !shape.contains(r) {
                proof {
                    lemma_removals_fail(base, removed@, i + 1);
                }
                return Err(string_from("accessibility delta removed an unknown node"));
            }
            let _ = shape.remove(r);
            proof {
                lemma_removal_keeps_identities(st, r);
                st = (
                    st.0.remove(r),
                    st.1.remove(r),
                    if st.1.contains_key(r) {
                        st.2.remove(st.1[r])
                    } else {
                        st.2
                    },
                    st.3,
                );
                assert(shape@.dom() =~= st.0.dom());
            }
            i = i + 1;
        }
        proof {
            assert(removed@.take(removed@.len() as int) =~= removed@);
        }
        let ghost st_rem = st;
        let mut added_set: HashSetWithView<u128> = HashSetWithView::new();
        let mut a: usize = 0;
        while a < added.len()
            invariant
                *self == pre,
                pre.wf(),
                pre.refusal(document, revision, spec_update) is None,
                spec_update.full == full,
                spec_update.root == root,
                spec_update.focus == focus,
                spec_update.nodes@ == nodes@,
                spec_update.added@ == added@,
                spec_update.removed@ == removed@,
                base == (if full {
                    (Map::empty(), Map::empty(), Map::empty(), DOCUMENT_PLATFORM_ID_BASE)
                } else {
                    pre.state()
                }),
                apply_removals(base, removed@) == Some(st_rem),
                st_rem.3 == base.3,
                a <= added@.len(),
                forall|x: u128| #[trigger] added_set@.contains(x) <==> added@.take(a as int).contains(x),
            decreases added@.len() - a,
        {
            let x = added[a];
            added_set.insert(x);
            proof {
                let t0 = added@.take(a as int);
                let t1 = added@.take(a + 1);
                assert(t1 =~= t0.push(x));
                assert forall|y: u128| #[trigger] added_set@.contains(y) <==> t1.contains(y) by {
                    if t0.contains(y) {
                        let w = choose|w: int| 0 <= w < t0.len() && t0[w] == y;
                        assert(t1[w] == y);
                    }
                    if y == x {
                        assert(t1[a as int] == x);
                    }
                    if t1.contains(y) && y != x {
                        let w = choose|w: int| 0 <= w < t1.len() && t1[w] == y;
                        assert(t0[w] == y);
                    }
                }
            }
            a = a + 1;
        }
        proof {
            assert(added@.take(added@.len() as int) =~= added@);
        }
        proof {
            assert(st_rem.3 == base.3);
        }
        let mut next: u64 = if full {
            DOCUMENT_PLATFORM_ID_BASE
        } else {
            self.next_platform_id
        };
        let mut assigned: Vec<(u128, u64)> = Vec::new();
        let mut changed: Vec<u128> = Vec::new();
        let mut k: usize = 0;
        proof {
            assert(nodes@.take(0) =~= Seq::<SemanticNode<T>>::empty());
            assert(node_ids(nodes@.take(0)) =~= changed@);
        }
        while k < nodes.len()
            invariant
                *self == pre,
                pre.wf(),
                pre.refusal(document, revision, spec_update) is None,
                spec_update.full == full,
                spec_update.root == root,
                spec_update.focus == focus,
                spec_update.nodes@ == nodes@,
                spec_update.added@ == added@,
                spec_update.removed@ == removed@,
                base == (if full {
                    (Map::empty(), Map::empty(), Map::empty(), DOCUMENT_PLATFORM_ID_BASE)
                } else {
                    pre.state()
                }),
                apply_removals(base, removed@) == Some(st_rem),
                shape.wf(),
                k <= nodes@.len(),
                stage_nodes(st_rem, nodes@.take(k as int), full, added@) == Staged::<T>::Ready(st),
                identities_ok(st),
                same_shape(shape@, st.0),
                st.3 == next,
                st.0 == insert_nodes(st_rem.0, nodes@.take(k as int)),
                st.1 == with_platform(st_rem.1, assigned@),
                st.2 == with_documents(st_rem.2, assigned@),
                changed@ == node_ids(nodes@.take(k as int)),
                forall|x: u128| #[trigger] added_set@.contains(x) <==> added@.contains(x),
            decreases nodes@.len() - k,
        {
            let node = &nodes[k];
            let id = node.id;
            proof {
                assert(nodes@.take(k + 1).drop_last() =~= nodes@.take(k as int));
                assert(nodes@.take(k + 1).last() == *node);
            }
            let exists = shape.contains(id);
            if !full && added_set.contains(&id) == exists {
                proof {
                    lemma_stage_fail(st_rem, nodes@, full, added@, k + 1, marker_message());
                }
                return Err(string_from("accessibility delta has an invalid new-node marker"));
            }
            changed.push(id);
            let ghost before = assigned@;
            if !exists {
                if next == u64::MAX {
                    proof {
                        lemma_stage_fail(st_rem, nodes@, full, added@, k + 1, exhausted_message());
                    }
                    return Err(string_from("AccessKit document identity space exhausted"));
                }
                assigned.push((id, next));
                next = next + 1;
                proof {
                    assert(assigned@.drop_last() =~= before);
                }
            }
            let copy = SemanticNode { id, children: copy_ids(&node.children), details: () };
            shape.insert(copy);
            proof {
                lemma_stage_keeps_identities(st, *node, full, added@);
                st = stage_node(st, *node, full, added@)->Ready_0;
                assert(shape@.dom() =~= st.0.dom());
                assert(node_ids(nodes@.take(k + 1)) =~= node_ids(nodes@.take(k as int)).push(id));
            }
            k = k + 1;
        }
        proof {
            assert(nodes@.take(nodes@.len() as int) =~= nodes@);
            assert(spec_update.nodes@ == nodes@);
        }
        let checked = validate_tree(root, focus, &shape);
        proof {
            lemma_same_shape_tree(root, focus, shape@, st.0);
        }
        match checked {
            Err(e) => {
                return Err(e);
            },
            Ok(()) => {},
        }
        // Commit: every step below only replays what was staged.
        if full {
            self.nodes.clear();
            self.platform_ids.clear();
            self.document_ids.clear();
            proof {
                assert(self.nodes@ =~= base.0);
            }
        }
        let ghost committed_base = (self.nodes@, self.platform_ids@, self.document_ids@, base.3);
        proof {
            assert(committed_base == base);
        }
        let mut i: usize = 0;
        while i < removed.len()
            invariant
                self.nodes.wf(),
                i <= removed@.len(),
                apply_removals(base, removed@) == Some(st_rem),
                apply_removals(base, removed@.take(i as int)) == Some(
                    (self.nodes@, self.platform_ids@, self.document_ids@, base.3),
                ),
            decreases removed@.len() - i,
        {
            let r = removed[i];
            proof {
                assert(removed@.take(i + 1).drop_last() =~= removed@.take(i as int));
                assert(removed@.take(i + 1).last() == r);
                if apply_removals(base, removed@.take(i + 1)) is None {
                    lemma_removals_fail(base, removed@, i + 1);
                }
            }
            let _ = self.nodes.remove(r);
            match self.platform_ids.remove(&r) {
                Some(pid) => {
                    let _ = self.document_ids.remove(&pid);
                },
                None => {},
            }
            i = i + 1;
        }
        proof {
            assert(removed@.take(removed@.len() as int) =~= removed@);
        }
        let ghost all_nodes = nodes@;
        proof {
            assert(st.0 == insert_nodes(st_rem.0, all_nodes));
            assert(self.nodes@ == st_rem.0);
        }
        for node in it: nodes.into_iter()
            invariant
                self.nodes.wf(),
                self.platform_ids@ == st_rem.1,
                self.document_ids@ == st_rem.2,
                it.seq() == all_nodes,
                self.nodes@ == insert_nodes(st_rem.0, all_nodes.take(it.index() as int)),
        {
            proof {
                assert(all_nodes.take(it.index() + 1).drop_last() =~= all_nodes.take(it.index() as int));
            }
            self.nodes.insert(node);
        }
        proof {
            assert(all_nodes.take(all_nodes.len() as int) =~= all_nodes);
            assert(self.nodes@ == insert_nodes(st_rem.0, all_nodes));
        }
        let mut j: usize = 0;
        proof {
            assert(assigned@.take(0) =~= Seq::<(u128, u64)>::empty());
        }
        while j < assigned.len()
            invariant
                self.nodes.wf(),
                self.nodes@ == insert_nodes(st_rem.0, all_nodes),
                j <= assigned@.len(),
                self.platform_ids@ == with_platform(st_rem.1, assigned@.take(j as int)),
                self.document_ids@ == with_documents(st_rem.2, assigned@.take(j as int)),
            decreases assigned@.len() - j,
        {
            let (id, pid) = assigned[j];
            proof {
                assert(assigned@.take(j + 1).drop_last() =~= assigned@.take(j as int));
            }
            self.platform_ids.insert(id, pid);
            self.document_ids.insert(pid, id);
            j = j + 1;
        }
        proof {
            assert(assigned@.take(assigned@.len() as int) =~= assigned@);
        }
        self.document = Some(document);
        self.revision = revision;
        self.root = Some(root);
        self.focus = Some(focus);
        self.next_platform_id = next;
        let sorted = sort_ids(&changed);
        proof {
            assert(self.nodes@ == st.0);
            assert(self.platform_ids@ == st.1);
            assert(self.document_ids@ == st.2);
            assert(self.state() == st);
            assert(identities_ok(st));
            assert(pre.staged(spec_update) == Staged::<T>::Ready(st));
            assert(valid_tree(root, focus, st.0));
            assert(changed@ == node_ids(all_nodes));
        }
        Ok(AppliedAccessibilityUpdate { changed: sorted, full: full || !same_document })
    }

    pub fn root(&self) -> (r: Option<u128>)
        ensures
            r == self.root_id(),
    {
        self.root
    }

    pub fn focus(&self) -> (r: Option<u128>)
        ensures
            r == self.focus_id(),
    {
        self.focus
    }

    /// The stored node with this id.
    pub fn node(&self, id: u128) -> (r: Option<&SemanticNode<T>>)
        requires
            self.wf(),
        ensures
            match r {
                Some(n) => self.state().0.contains_key(id) && *n == self.state().0[id],
                None => !self.state().0.contains_key(id),
            },
    {
        self.nodes.get(id)
    }

    /// Number of stored nodes.
    pub fn node_count(&self) -> (n: usize)
        requires
            self.wf(),
        ensures
            n == self.state().0.len(),
    {
        self.nodes.len()
    }

    /// The platform identity of a stored node.
    pub fn platform_id(&self, id: u128) -> (r: Option<u64>)
        ensures
            r == (if self.state().1.contains_key(id) { Some(self.state().1[id]) } else { None::<u64> }),
    {
        match self.platform_ids.get(&id) {
            Some(p) => Some(*p),
            None => None,
        }
    }

    /// The node behind a platform identity.
    pub fn document_id_for_platform(&self, id: u64) -> (r: Option<u128>)
        ensures
            r == (if self.state().2.contains_key(id) { Some(self.state().2[id]) } else { None::<u128> }),
    {
        match self.document_ids.get(&id) {
            Some(n) => Some(*n),
            None => None,
        }
    }
}

impl<T> Default for AccessibilityDocument<T> {
    fn default() -> (d: Self)
        ensures
            d.wf(),
            d.document_id() is None,
            d.state().0.len() == 0,
    {
        Self::new()
    }
}

} // verus!
