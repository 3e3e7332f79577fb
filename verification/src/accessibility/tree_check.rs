//! Whether a set of semantic nodes forms one tree under a given root.
use super::node_store::{enumerates, same_shape, NodeStore, SemanticNode};
use crate::text::string_from;
use vstd::hash_map::HashMapWithView;
use vstd::hash_set::HashSetWithView;
use vstd::prelude::*;

verus! {

broadcast use vstd::std_specs::hash::group_hash_axioms;

/// Nodes a document's semantic tree may hold.
pub const MAX_ACCESSIBILITY_NODES: usize = 65_536;

/// Child links a document's semantic tree may hold.
pub const MAX_ACCESSIBILITY_EDGES: usize = 65_536;

/// `p` is stored and has an `i`-th child.
pub open spec fn is_link<U>(m: Map<u128, SemanticNode<U>>, p: u128, i: int) -> bool {
    m.contains_key(p) && 0 <= i < m[p].children@.len()
}

/// The `i`-th child of `p`.
pub open spec fn child_at<U>(m: Map<u128, SemanticNode<U>>, p: u128, i: int) -> u128 {
    m[p].children@[i]
}

/// Every child link points at a stored node, and no node is named by two links.
pub open spec fn links_ok<U>(m: Map<u128, SemanticNode<U>>) -> bool {
    &&& forall|p: u128, i: int| #[trigger] is_link(m, p, i) ==> m.contains_key(child_at(m, p, i))
    &&& forall|p: u128, i: int, q: u128, j: int|
        is_link(m, p, i) && is_link(m, q, j) && #[trigger] child_at(m, p, i) == #[trigger] child_at(
            m,
            q,
            j,
        ) ==> p == q && i == j
}

/// Some stored node lists `c` among its children.
pub open spec fn has_parent<U>(m: Map<u128, SemanticNode<U>>, c: u128) -> bool {
    exists|p: u128, i: int| is_link(m, p, i) && #[trigger] child_at(m, p, i) == c
}

/// The children of the nodes in `s`.
pub open spec fn step<U>(m: Map<u128, SemanticNode<U>>, s: Set<u128>) -> Set<u128> {
    Set::new(
        |c: u128| exists|p: u128, i: int| s.contains(p) && is_link(m, p, i) && #[trigger] child_at(m, p, i) == c,
    )
}

/// Nodes at most `k` links below `root`.
pub open spec fn reach<U>(m: Map<u128, SemanticNode<U>>, root: u128, k: nat) -> Set<u128>
    decreases k,
{
    if k == 0 {
        set![root]
    } else {
        reach(m, root, (k - 1) as nat).union(step(m, reach(m, root, (k - 1) as nat)))
    }
}

/// `x` can be reached from `root` by following child links.
pub open spec fn reachable<U>(m: Map<u128, SemanticNode<U>>, root: u128, x: u128) -> bool {
    exists|k: nat| #[trigger] reach(m, root, k).contains(x)
}

/// The tree is non-empty, within the node budget, and holds its root and focus.
pub open spec fn root_and_focus_ok<U>(root: u128, focus: u128, m: Map<u128, SemanticNode<U>>) -> bool {
    &&& 0 < m.len() <= MAX_ACCESSIBILITY_NODES
    &&& m.contains_key(root)
    &&& m.contains_key(focus)
}

/// Every stored node hangs below `root`.
pub open spec fn all_reachable<U>(m: Map<u128, SemanticNode<U>>, root: u128) -> bool {
    forall|x: u128| m.contains_key(x) ==> reachable(m, root, x)
}

/// The nodes form exactly one tree rooted at `root`, and `focus` is in it.
pub open spec fn valid_tree<U>(root: u128, focus: u128, m: Map<u128, SemanticNode<U>>) -> bool {
    &&& root_and_focus_ok(root, focus, m)
    &&& links_ok(m)
    &&& !has_parent(m, root)
    &&& all_reachable(m, root)
}

pub open spec fn invalid_root_message() -> Seq<char> {
    "accessibility tree has an invalid root or focus"@
}

pub open spec fn edge_budget_message() -> Seq<char> {
    "accessibility tree exceeded its edge budget"@
}

pub open spec fn bad_parent_message() -> Seq<char> {
    "accessibility node has an invalid or duplicate parent"@
}

pub open spec fn root_parent_message() -> Seq<char> {
    "accessibility root has a parent"@
}

pub open spec fn unreachable_message() -> Seq<char> {
    "accessibility tree contains unreachable nodes"@
}

/// The child at position `a` of the node stored at position `pi`.
spec fn entry_child<U>(es: Seq<SemanticNode<U>>, pi: int, a: int) -> u128 {
    es[pi].children@[a]
}

/// Link `(pi, a)` comes before `(i, j)` in storage order.
spec fn done<U>(es: Seq<SemanticNode<U>>, pi: int, a: int, i: int, j: int) -> bool {
    0 <= pi < es.len() && 0 <= a < es[pi].children@.len() && (pi < i || (pi == i && a < j))
}

/// What the parent pass knows after the links before `(i, j)`.
spec fn parents_inv<U>(
    es: Seq<SemanticNode<U>>,
    m: Map<u128, SemanticNode<U>>,
    parents: Map<u128, u128>,
    i: int,
    j: int,
) -> bool {
    &&& forall|pi: int, a: int|
        done(es, pi, a, i, j) ==> parents.contains_key(#[trigger] entry_child(es, pi, a))
            && parents[entry_child(es, pi, a)] == es[pi].id
    &&& forall|c: u128|
        #[trigger] parents.contains_key(c) ==> m.contains_key(c) && exists|pi: int, a: int|
            done(es, pi, a, i, j) && #[trigger] entry_child(es, pi, a) == c
    &&& forall|pi: int, a: int, qi: int, b: int|
        done(es, pi, a, i, j) && done(es, qi, b, i, j) && #[trigger] entry_child(es, pi, a)
            == #[trigger] entry_child(es, qi, b) ==> pi == qi && a == b
}

/// Finds each node's parent, failing on the first link that breaks `links_ok`
/// or goes over the edge budget.
fn collect_parents<U>(nodes: &NodeStore<U>) -> (r: Result<HashMapWithView<u128, u128>, String>)
    requires
        nodes.wf(),
        nodes@.len() <= MAX_ACCESSIBILITY_NODES,
    ensures
        r is Ok <==> links_ok(nodes@),
        r matches Err(e) ==> e@ == edge_budget_message() || e@ == bad_parent_message(),
        r matches Ok(parents) ==> (forall|c: u128|
            #[trigger] parents@.contains_key(c) <==> has_parent(nodes@, c)) && (forall|p: u128, i: int|
            #[trigger] is_link(nodes@, p, i) ==> parents@[child_at(nodes@, p, i)] == p),
{
    proof {
        nodes.lemma_entries();
    }
    let ghost m = nodes@;
    let ghost es = nodes.entries();
    assert(enumerates(es, m));
    let n = nodes.len();
    let mut parents: HashMapWithView<u128, u128> = HashMapWithView::new();
    let mut edges: usize = 0;
    let mut i: usize = 0;
    while i < n
        invariant
            nodes.wf(),
            m == nodes@,
            es == nodes.entries(),
            enumerates(es, m),
            n == es.len(),
            n <= MAX_ACCESSIBILITY_NODES,
            i <= n,
            parents_inv(es, m, parents@, i as int, 0),
            parents@.dom().subset_of(m.dom()),
            edges == parents@.len(),
        decreases n - i,
    {
        let node = nodes.entry(i);
        let mut j: usize = 0;
        while j < node.children.len()
            invariant
                nodes.wf(),
                m == nodes@,
                es == nodes.entries(),
                enumerates(es, m),
                n == es.len(),
                n <= MAX_ACCESSIBILITY_NODES,
                i < n,
                *node == es[i as int],
                j <= node.children@.len(),
                parents_inv(es, m, parents@, i as int, j as int),
                parents@.dom().subset_of(m.dom()),
                edges == parents@.len(),
            decreases node.children@.len() - j,
        {
            let child = node.children[j];
            assert(child == entry_child(es, i as int, j as int));
            let ghost p = es[i as int].id;
            assert(m.contains_key(es[i as int].id) && m[es[i as int].id] == es[i as int]);
            assert(is_link(m, p, j as int) && child_at(m, p, j as int) == child);
            if edges >= MAX_ACCESSIBILITY_EDGES {
                proof {
                    if parents@.contains_key(child) {
                        assert(exists|qi: int, b: int|
                            done(es, qi, b, i as int, j as int) && #[trigger] entry_child(es, qi, b) == child);
                        let (qi, b) = choose|qi: int, b: int|
                            done(es, qi, b, i as int, j as int) && #[trigger] entry_child(es, qi, b) == child;
                        assert(0 <= qi < es.len());
                        let q = es[qi].id;
                        assert(m.contains_key(es[qi].id));
                        assert(m[es[qi].id] == es[qi]);
                        assert(is_link(m, q, b) && child_at(m, q, b) == child);
                        assert(!(q == p && b == j)) by {
                            if q == p {
                                assert(qi == i);
                            }
                        }
                    }
                    if links_ok(m) {
                        assert(m.contains_key(child));
                        vstd::set_lib::lemma_len_subset(parents@.dom().insert(child), m.dom());
                        assert(parents@.dom().len() == parents@.len());
                    }
                }
                return Err(string_from("accessibility tree exceeded its edge budget"));
            }
            edges = edges + 1;
            if !nodes.contains(child) || parents.contains_key(&child) {
                proof {
                    if parents@.contains_key(child) {
                        assert(exists|qi: int, b: int|
                            done(es, qi, b, i as int, j as int) && #[trigger] entry_child(es, qi, b) == child);
                        let (qi, b) = choose|qi: int, b: int|
                            done(es, qi, b, i as int, j as int) && #[trigger] entry_child(es, qi, b) == child;
                        assert(0 <= qi < es.len());
                        let q = es[qi].id;
                        assert(m.contains_key(es[qi].id));
                        assert(m[es[qi].id] == es[qi]);
                        assert(is_link(m, q, b) && child_at(m, q, b) == child);
                        assert(!(q == p && b == j)) by {
                            if q == p {
                                assert(qi == i);
                            }
                        }
                    }
                }
                return Err(string_from("accessibility node has an invalid or duplicate parent"));
            }
            let ghost before = parents@;
            parents.insert(child, node.id);
            proof {
                assert forall|pi: int, a: int|
                    done(es, pi, a, i as int, j + 1) implies parents@.contains_key(
                    #[trigger] entry_child(es, pi, a),
                ) && parents@[entry_child(es, pi, a)] == es[pi].id by {
                    if !(pi == i && a == j) {
                        assert(done(es, pi, a, i as int, j as int));
                    }
                }
                assert forall|c: u128| #[trigger] parents@.contains_key(c) implies m.contains_key(c)
                    && exists|pi: int, a: int|
                    done(es, pi, a, i as int, j + 1) && #[trigger] entry_child(es, pi, a) == c by {
                    if c == child {
                        assert(done(es, i as int, j as int, i as int, j + 1));
                    } else {
                        let (pi, a) = choose|pi: int, a: int|
                            done(es, pi, a, i as int, j as int) && #[trigger] entry_child(es, pi, a) == c;
                        assert(done(es, pi, a, i as int, j + 1));
                    }
                }
                assert forall|pi: int, a: int, qi: int, b: int|
                    done(es, pi, a, i as int, j + 1) && done(es, qi, b, i as int, j + 1)
                        && #[trigger] entry_child(es, pi, a) == #[trigger] entry_child(es, qi, b) implies pi
                    == qi && a == b by {
                    if !(pi == i && a == j) && (qi == i && b == j) {
                        assert(done(es, pi, a, i as int, j as int));
                        assert(before.contains_key(entry_child(es, pi, a)));
                    } else if (pi == i && a == j) && !(qi == i && b == j) {
                        assert(done(es, qi, b, i as int, j as int));
                        assert(before.contains_key(entry_child(es, qi, b)));
                    } else if !(pi == i && a == j) && !(qi == i && b == j) {
                        assert(done(es, pi, a, i as int, j as int));
                        assert(done(es, qi, b, i as int, j as int));
                    }
                }
                assert(parents@.dom() =~= before.dom().insert(child));
            }
            j = j + 1;
        }
        proof {
            assert forall|pi: int, a: int| done(es, pi, a, i + 1, 0) <==> done(es, pi, a, i as int, j as int) by {}
        }
        i = i + 1;
    }
    proof {
        assert forall|p: u128, a: int| #[trigger] is_link(m, p, a) implies m.contains_key(child_at(m, p, a))
            && parents@[child_at(m, p, a)] == p by {
            let pi = choose|pi: int| 0 <= pi < es.len() && es[pi].id == p;
            assert(m[p] == es[pi]);
            assert(entry_child(es, pi, a) == child_at(m, p, a));
            assert(done(es, pi, a, n as int, 0));
        }
        assert forall|p: u128, a: int, q: u128, b: int|
            is_link(m, p, a) && is_link(m, q, b) && #[trigger] child_at(m, p, a) == #[trigger] child_at(
                m,
                q,
                b,
            ) implies p == q && a == b by {
            let pi = choose|pi: int| 0 <= pi < es.len() && es[pi].id == p;
            let qi = choose|qi: int| 0 <= qi < es.len() && es[qi].id == q;
            assert(m[p] == es[pi]);
            assert(m[q] == es[qi]);
            assert(entry_child(es, pi, a) == child_at(m, p, a));
            assert(entry_child(es, qi, b) == child_at(m, q, b));
            assert(done(es, pi, a, n as int, 0));
            assert(done(es, qi, b, n as int, 0));
        }
        assert forall|c: u128| #[trigger] parents@.contains_key(c) <==> has_parent(m, c) by {
            if parents@.contains_key(c) {
                assert(exists|pi: int, a: int|
                    done(es, pi, a, n as int, 0) && #[trigger] entry_child(es, pi, a) == c);
                let (pi, a) = choose|pi: int, a: int|
                    done(es, pi, a, n as int, 0) && #[trigger] entry_child(es, pi, a) == c;
                assert(0 <= pi < es.len());
                let p = es[pi].id;
                assert(m.contains_key(es[pi].id));
                assert(m[es[pi].id] == es[pi]);
                assert(is_link(m, p, a) && child_at(m, p, a) == c);
            }
            if has_parent(m, c) {
                let (p, a) = choose|p: u128, a: int| is_link(m, p, a) && #[trigger] child_at(m, p, a) == c;
                assert(m.contains_key(p));
                assert(exists|pi: int| 0 <= pi < es.len() && es[pi].id == p);
                let pi = choose|pi: int| 0 <= pi < es.len() && es[pi].id == p;
                assert(m.contains_key(es[pi].id));
                assert(m[es[pi].id] == es[pi]);
                assert(entry_child(es, pi, a) == c);
                assert(done(es, pi, a, n as int, 0));
            }
        }
    }
    Ok(parents)
}

/// Everything reachable from `root` within `k` links stays inside a set that
/// holds `root` and the children of each of its stored members.
proof fn lemma_reach_within<U>(m: Map<u128, SemanticNode<U>>, root: u128, s: Set<u128>, k: nat)
    requires
        s.contains(root),
        forall|p: u128, i: int| s.contains(p) && #[trigger] is_link(m, p, i) ==> s.contains(child_at(m, p, i)),
    ensures
        reach(m, root, k).subset_of(s),
    decreases k,
{
    if k > 0 {
        lemma_reach_within(m, root, s, (k - 1) as nat);
        let prev = reach(m, root, (k - 1) as nat);
        assert forall|c: u128| step(m, prev).contains(c) implies s.contains(c) by {
            let (p, i) = choose|p: u128, i: int| prev.contains(p) && is_link(m, p, i) && #[trigger] child_at(m, p, i) == c;
            assert(s.contains(p));
        }
    }
}

/// A child of a node reachable within `k` links is reachable within `k + 1`.
proof fn lemma_reach_child<U>(m: Map<u128, SemanticNode<U>>, root: u128, k: nat, p: u128, i: int)
    requires
        reach(m, root, k).contains(p),
        is_link(m, p, i),
    ensures
        reach(m, root, k + 1).contains(child_at(m, p, i)),
{
    assert(step(m, reach(m, root, k)).contains(child_at(m, p, i)));
}

/// What the walk from the root guarantees of its finished and pending nodes.
spec fn tree_facts<U>(m: Map<u128, SemanticNode<U>>, root: u128, parents: Map<u128, u128>) -> bool {
    &&& m.dom().finite()
    &&& m.contains_key(root)
    &&& links_ok(m)
    &&& !has_parent(m, root)
    &&& forall|c: u128| #[trigger] parents.contains_key(c) <==> has_parent(m, c)
    &&& forall|p: u128, i: int| #[trigger] is_link(m, p, i) ==> parents[child_at(m, p, i)] == p
}

/// Finished (`visited`) and pending (`stack`) nodes of the walk are stored,
/// reachable, disjoint, met through their parent, and every finished node's
/// children are finished or pending.
spec fn walk_inv<U>(
    m: Map<u128, SemanticNode<U>>,
    root: u128,
    parents: Map<u128, u128>,
    visited: Set<u128>,
    stack: Seq<u128>,
) -> bool {
    &&& visited.subset_of(m.dom())
    &&& forall|x: u128| #[trigger] stack.contains(x) ==> m.contains_key(x) && !visited.contains(x)
    &&& stack.no_duplicates()
    &&& forall|x: u128| #[trigger] visited.contains(x) ==> reachable(m, root, x)
    &&& forall|x: u128| #[trigger] stack.contains(x) ==> reachable(m, root, x)
    &&& forall|x: u128|
        #[trigger] visited.contains(x) && x != root ==> parents.contains_key(x) && visited.contains(parents[x])
    &&& forall|x: u128|
        #[trigger] stack.contains(x) && x != root ==> parents.contains_key(x) && visited.contains(parents[x])
    &&& forall|p: u128, i: int|
        visited.contains(p) && #[trigger] is_link(m, p, i) ==> visited.contains(child_at(m, p, i))
            || stack.contains(child_at(m, p, i))
    &&& visited.contains(root) || stack.contains(root)
}

/// The walk while it pushes the children of `id`, the first `j` of them done.
spec fn push_inv<U>(
    m: Map<u128, SemanticNode<U>>,
    root: u128,
    parents: Map<u128, u128>,
    visited: Set<u128>,
    stack: Seq<u128>,
    id: u128,
    j: int,
) -> bool {
    &&& m.contains_key(id)
    &&& visited.contains(id)
    &&& 0 <= j <= m[id].children@.len()
    &&& visited.subset_of(m.dom())
    &&& forall|x: u128| #[trigger] stack.contains(x) ==> m.contains_key(x) && !visited.contains(x)
    &&& stack.no_duplicates()
    &&& forall|x: u128| #[trigger] visited.contains(x) ==> reachable(m, root, x)
    &&& forall|x: u128| #[trigger] stack.contains(x) ==> reachable(m, root, x)
    &&& forall|x: u128|
        #[trigger] visited.contains(x) && x != root ==> parents.contains_key(x) && visited.contains(parents[x])
    &&& forall|x: u128|
        #[trigger] stack.contains(x) && x != root ==> parents.contains_key(x) && visited.contains(parents[x])
    &&& forall|p: u128, i: int|
        visited.contains(p) && p != id && #[trigger] is_link(m, p, i) ==> visited.contains(child_at(m, p, i))
            || stack.contains(child_at(m, p, i))
    &&& forall|i: int| 0 <= i < j ==> #[trigger] stack.contains(child_at(m, id, i))
    &&& forall|i: int|
        j <= i < m[id].children@.len() ==> !visited.contains(#[trigger] child_at(m, id, i)) && !stack.contains(
            child_at(m, id, i),
        )
    &&& visited.contains(root) || stack.contains(root)
}

/// Taking the last pending node and finishing it starts its children's pass.
proof fn lemma_walk_pop<U>(
    m: Map<u128, SemanticNode<U>>,
    root: u128,
    parents: Map<u128, u128>,
    visited: Set<u128>,
    stack: Seq<u128>,
)
    requires
        tree_facts(m, root, parents),
        walk_inv(m, root, parents, visited, stack),
        stack.len() > 0,
    ensures
        push_inv(m, root, parents, visited.insert(stack.last()), stack.drop_last(), stack.last(), 0),
        !visited.contains(stack.last()),
{
    let id = stack.last();
    let rest = stack.drop_last();
    let v2 = visited.insert(id);
    assert(stack.contains(id)) by {
        assert(stack[stack.len() - 1] == id);
    }
    assert forall|x: u128| #[trigger] rest.contains(x) implies stack.contains(x) && x != id by {
        let w = choose|w: int| 0 <= w < rest.len() && rest[w] == x;
        assert(stack[w] == x);
        assert(stack[stack.len() - 1] == id);
    }
    assert forall|x: u128| stack.contains(x) && x != id implies #[trigger] rest.contains(x) by {
        let w = choose|w: int| 0 <= w < stack.len() && stack[w] == x;
        assert(w != stack.len() - 1);
        assert(rest[w] == x);
    }
    assert(rest.no_duplicates());
    assert forall|x: u128| #[trigger] v2.contains(x) && x != root implies parents.contains_key(x) && v2.contains(
        parents[x],
    ) by {
        if x == id {
            assert(stack.contains(id));
        }
    }
    assert forall|p: u128, i: int|
        v2.contains(p) && p != id && #[trigger] is_link(m, p, i) implies v2.contains(child_at(m, p, i))
            || rest.contains(child_at(m, p, i)) by {
        assert(visited.contains(p));
    }
    assert forall|i: int| 0 <= i < m[id].children@.len() implies !v2.contains(#[trigger] child_at(m, id, i))
        && !rest.contains(child_at(m, id, i)) by {
        let c = child_at(m, id, i);
        assert(is_link(m, id, i));
        assert(parents[c] == id);
        assert(has_parent(m, c));
        assert(c != root);
        if c == id {
            assert(visited.contains(parents[id]));
        }
        if visited.contains(c) {
            assert(visited.contains(parents[c]));
        }
        if rest.contains(c) {
            assert(stack.contains(c));
            assert(visited.contains(parents[c]));
        }
    }
    if root != id {
        if stack.contains(root) {
            assert(rest.contains(root));
        }
    }
}

/// Pushing the next child of `id` keeps the pass going.
proof fn lemma_walk_push<U>(
    m: Map<u128, SemanticNode<U>>,
    root: u128,
    parents: Map<u128, u128>,
    visited: Set<u128>,
    stack: Seq<u128>,
    id: u128,
    j: int,
)
    requires
        tree_facts(m, root, parents),
        push_inv(m, root, parents, visited, stack, id, j),
        j < m[id].children@.len(),
    ensures
        push_inv(m, root, parents, visited, stack.push(child_at(m, id, j)), id, j + 1),
{
    let c = child_at(m, id, j);
    let s2 = stack.push(c);
    assert(is_link(m, id, j));
    assert(!stack.contains(c) && !visited.contains(c));
    assert forall|x: u128| #[trigger] s2.contains(x) <==> stack.contains(x) || x == c by {
        if s2.contains(x) {
            let w = choose|w: int| 0 <= w < s2.len() && s2[w] == x;
            if w < stack.len() {
                assert(stack[w] == x);
            }
        }
        if stack.contains(x) {
            let w = choose|w: int| 0 <= w < stack.len() && stack[w] == x;
            assert(s2[w] == x);
        }
        if x == c {
            assert(s2[stack.len() as int] == c);
        }
    }
    assert(s2.no_duplicates()) by {
        assert forall|a: int, b: int| 0 <= a < s2.len() && 0 <= b < s2.len() && a != b implies s2[a] != s2[b] by {
            if a == stack.len() {
                assert(stack.contains(s2[b]));
            } else if b == stack.len() {
                assert(stack.contains(s2[a]));
            }
        }
    }
    assert(reachable(m, root, c)) by {
        let k = choose|k: nat| #[trigger] reach(m, root, k).contains(id);
        lemma_reach_child(m, root, k, id, j);
    }
    assert(c != root) by {
        assert(has_parent(m, c));
    }
    assert forall|i: int| j + 1 <= i < m[id].children@.len() implies !visited.contains(#[trigger] child_at(m, id, i))
        && !s2.contains(child_at(m, id, i)) by {
        assert(is_link(m, id, i));
        assert(child_at(m, id, i) != c);
    }
}

/// When every child of `id` is pushed, the walk's own invariant holds again.
proof fn lemma_walk_done<U>(
    m: Map<u128, SemanticNode<U>>,
    root: u128,
    parents: Map<u128, u128>,
    visited: Set<u128>,
    stack: Seq<u128>,
    id: u128,
)
    requires
        push_inv(m, root, parents, visited, stack, id, m[id].children@.len() as int),
    ensures
        walk_inv(m, root, parents, visited, stack),
{
    assert forall|p: u128, i: int| visited.contains(p) && #[trigger] is_link(m, p, i) implies visited.contains(
        child_at(m, p, i),
    ) || stack.contains(child_at(m, p, i)) by {
        if p == id {
            assert(stack.contains(child_at(m, id, i)));
        }
    }
}

/// Walks the tree from `root`; with unique parents no node is met twice.
/// Answers whether every stored node was met.
fn reaches_every_node<U>(root: u128, nodes: &NodeStore<U>, parents: &HashMapWithView<u128, u128>) -> (b: bool)
    requires
        nodes.wf(),
        nodes@.contains_key(root),
        links_ok(nodes@),
        !has_parent(nodes@, root),
        forall|c: u128| #[trigger] parents@.contains_key(c) <==> has_parent(nodes@, c),
        forall|p: u128, i: int| #[trigger] is_link(nodes@, p, i) ==> parents@[child_at(nodes@, p, i)] == p,
    ensures
        b == all_reachable(nodes@, root),
{
    proof {
        nodes.lemma_entries();
    }
    let ghost m = nodes@;
    let ghost pm = parents@;
    let n = nodes.len();
    let mut visited: HashSetWithView<u128> = HashSetWithView::new();
    let mut stack: Vec<u128> = Vec::new();
    stack.push(root);
    proof {
        assert(reach(m, root, 0).contains(root));
        assert(stack@[0] == root);
        assert forall|x: u128| #[trigger] stack@.contains(x) implies x == root by {}
        assert(tree_facts(m, root, pm));
        assert(walk_inv(m, root, pm, visited@, stack@));
    }
    while stack.len() > 0
        invariant
            nodes.wf(),
            m == nodes@,
            pm == parents@,
            n == m.len(),
            tree_facts(m, root, pm),
            walk_inv(m, root, pm, visited@, stack@),
        decreases n - visited@.len(),
    {
        proof {
            lemma_walk_pop(m, root, pm, visited@, stack@);
            vstd::set_lib::lemma_len_subset(visited@.insert(stack@.last()), m.dom());
        }
        let id = stack.pop().unwrap();
        let fresh = visited.insert(id);
        let node = nodes.get(id).unwrap();
        let mut j: usize = 0;
        while j < node.children.len()
            invariant
                nodes.wf(),
                m == nodes@,
                pm == parents@,
                *node == m[id],
                tree_facts(m, root, pm),
                push_inv(m, root, pm, visited@, stack@, id, j as int),
            decreases node.children@.len() - j,
        {
            let child = node.children[j];
            proof {
                lemma_walk_push(m, root, pm, visited@, stack@, id, j as int);
            }
            stack.push(child);
            j = j + 1;
        }
        proof {
            lemma_walk_done(m, root, pm, visited@, stack@, id);
        }
    }
    proof {
        assert(visited@.contains(root));
        assert forall|p: u128, i: int| visited@.contains(p) && #[trigger] is_link(m, p, i) implies visited@.contains(
            child_at(m, p, i),
        ) by {}
        assert forall|x: u128| m.contains_key(x) && reachable(m, root, x) implies visited@.contains(x) by {
            let k = choose|k: nat| #[trigger] reach(m, root, k).contains(x);
            lemma_reach_within(m, root, visited@, k);
        }
        vstd::set_lib::lemma_len_subset(visited@, m.dom());
        if visited@.len() == n {
            vstd::set_lib::lemma_subset_equality(visited@, m.dom());
        } else {
            if forall|x: u128| m.contains_key(x) ==> reachable(m, root, x) {
                assert(m.dom().subset_of(visited@));
                assert(visited@ =~= m.dom());
            }
        }
    }
    visited.len() == n
}

proof fn lemma_same_shape_reach<A, B>(a: Map<u128, SemanticNode<A>>, b: Map<u128, SemanticNode<B>>, root: u128, k: nat)
    requires
        same_shape(a, b),
    ensures
        reach(a, root, k) == reach(b, root, k),
    decreases k,
{
    if k > 0 {
        lemma_same_shape_reach(a, b, root, (k - 1) as nat);
        let prev = reach(a, root, (k - 1) as nat);
        assert forall|p: u128, i: int| #[trigger] is_link(a, p, i) <==> is_link(b, p, i) by {
            if a.contains_key(p) {
                assert(a[p].children@ == b[p].children@);
            }
        }
        assert forall|p: u128, i: int| is_link(a, p, i) implies #[trigger] child_at(a, p, i) == child_at(b, p, i) by {
            assert(a[p].children@ == b[p].children@);
        }
        assert(step(a, prev) =~= step(b, prev)) by {
            assert forall|c: u128| step(a, prev).contains(c) implies step(b, prev).contains(c) by {
                let (p, i) = choose|p: u128, i: int| prev.contains(p) && is_link(a, p, i) && #[trigger] child_at(a, p, i) == c;
                assert(is_link(b, p, i) && child_at(b, p, i) == c);
            }
            assert forall|c: u128| step(b, prev).contains(c) implies step(a, prev).contains(c) by {
                let (p, i) = choose|p: u128, i: int| prev.contains(p) && is_link(b, p, i) && #[trigger] child_at(b, p, i) == c;
                assert(is_link(a, p, i) && child_at(a, p, i) == c);
            }
        }
    }
}

/// Tree validity, and each way of failing it, depends only on ids and children.
pub proof fn lemma_same_shape_tree<A, B>(
    root: u128,
    focus: u128,
    a: Map<u128, SemanticNode<A>>,
    b: Map<u128, SemanticNode<B>>,
)
    requires
        same_shape(a, b),
    ensures
        root_and_focus_ok(root, focus, a) == root_and_focus_ok(root, focus, b),
        links_ok(a) == links_ok(b),
        has_parent(a, root) == has_parent(b, root),
        all_reachable(a, root) == all_reachable(b, root),
        valid_tree(root, focus, a) == valid_tree(root, focus, b),
{
    assert(a.dom() == b.dom());
    assert(a.len() == b.len());
    assert forall|p: u128, i: int| #[trigger] is_link(a, p, i) <==> is_link(b, p, i) by {
        if a.contains_key(p) {
            assert(a[p].children@ == b[p].children@);
        }
    }
    assert forall|p: u128, i: int| is_link(a, p, i) implies #[trigger] child_at(a, p, i) == child_at(b, p, i) by {
        assert(a[p].children@ == b[p].children@);
    }
    if links_ok(a) {
        assert forall|p: u128, i: int| #[trigger] is_link(b, p, i) implies b.contains_key(child_at(b, p, i)) by {
            assert(is_link(a, p, i));
        }
        assert forall|p: u128, i: int, q: u128, j: int|
            is_link(b, p, i) && is_link(b, q, j) && #[trigger] child_at(b, p, i) == #[trigger] child_at(b, q, j)
                implies p == q && i == j by {
            assert(is_link(a, p, i) && is_link(a, q, j));
            assert(child_at(a, p, i) == child_at(a, q, j));
        }
    }
    if links_ok(b) {
        assert forall|p: u128, i: int| #[trigger] is_link(a, p, i) implies a.contains_key(child_at(a, p, i)) by {
            assert(is_link(b, p, i));
        }
        assert forall|p: u128, i: int, q: u128, j: int|
            is_link(a, p, i) && is_link(a, q, j) && #[trigger] child_at(a, p, i) == #[trigger] child_at(a, q, j)
                implies p == q && i == j by {
            assert(is_link(b, p, i) && is_link(b, q, j));
            assert(child_at(b, p, i) == child_at(b, q, j));
        }
    }
    if has_parent(a, root) {
        let (p, i) = choose|p: u128, i: int| is_link(a, p, i) && #[trigger] child_at(a, p, i) == root;
        assert(is_link(b, p, i) && child_at(b, p, i) == root);
    }
    if has_parent(b, root) {
        let (p, i) = choose|p: u128, i: int| is_link(b, p, i) && #[trigger] child_at(b, p, i) == root;
        assert(is_link(a, p, i) && child_at(a, p, i) == root);
    }
    assert forall|x: u128| reachable(a, root, x) <==> reachable(b, root, x) by {
        if reachable(a, root, x) {
            let k = choose|k: nat| #[trigger] reach(a, root, k).contains(x);
            lemma_same_shape_reach(a, b, root, k);
        }
        if reachable(b, root, x) {
            let k = choose|k: nat| #[trigger] reach(b, root, k).contains(x);
            lemma_same_shape_reach(a, b, root, k);
        }
    }
}

/// Checks that `nodes` form one tree under `root` that holds `focus`, within
/// the node and edge budgets. Which of two link problems is reported when both
/// are present depends on storage order.
pub fn validate_tree<U>(root: u128, focus: u128, nodes: &NodeStore<U>) -> (r: Result<(), String>)
    requires
        nodes.wf(),
    ensures
        r is Ok <==> valid_tree(root, focus, nodes@),
        !root_and_focus_ok(root, focus, nodes@) ==> (r matches Err(e) && e@ == invalid_root_message()),
        root_and_focus_ok(root, focus, nodes@) && !links_ok(nodes@) ==> (r matches Err(e) && (e@
            == edge_budget_message() || e@ == bad_parent_message())),
        root_and_focus_ok(root, focus, nodes@) && links_ok(nodes@) && has_parent(nodes@, root) ==> (r matches Err(
            e,
        ) && e@ == root_parent_message()),
        root_and_focus_ok(root, focus, nodes@) && links_ok(nodes@) && !has_parent(nodes@, root)
            && !all_reachable(nodes@, root) ==> (r matches Err(e) && e@ == unreachable_message()),
{
    let n = nodes.len();
    if n == 0 || n > MAX_ACCESSIBILITY_NODES || !nodes.contains(root) || !nodes.contains(focus) {
        return Err(string_from("accessibility tree has an invalid root or focus"));
    }
    let parents = match collect_parents(nodes) {
        Ok(p) => p,
        Err(e) => return Err(e),
    };
    if parents.contains_key(&root) {
        return Err(string_from("accessibility root has a parent"));
    }
    if !reaches_every_node(root, nodes, &parents) {
        return Err(string_from("accessibility tree contains unreachable nodes"));
    }
    Ok(())
}

} // verus!
