//! A conservative vertical index over the retained display list: items are
//! cut into chunks of about `ITEMS_PER_CHUNK`, never inside a clip or opacity
//! group, and a repaint visits only the chunks that reach the dirty band.
//! Vertical extents are ordered keys that stand for the page's coordinates.
use vstd::prelude::*;

verus! {

/// Items per chunk, unless a group forces a longer one.
pub const ITEMS_PER_CHUNK: usize = 128;

/// How an item nests.
#[derive(Clone, Copy, Debug, PartialEq, Eq, Structural)]
pub enum PaintItemKind {
    /// Opens a clip or opacity group.
    BeginGroup,
    /// Closes the innermost group.
    EndGroup,
    Other,
}

/// A display item as the index sees it: how it nests and the keys of its
/// top and bottom edges.
#[derive(Clone, Copy, Debug, PartialEq, Eq, Structural)]
pub struct PaintItem {
    pub kind: PaintItemKind,
    pub top: i64,
    pub bottom: i64,
}

/// A run of items `start..end` and the extent they cover.
#[derive(Clone, Copy, Debug, PartialEq, Eq, Structural)]
pub struct PaintChunk {
    pub start: usize,
    pub end: usize,
    pub top: i64,
    pub bottom: i64,
}

/// Group depth after an item of this kind; closing at depth zero stays at zero.
pub open spec fn next_depth(depth: nat, kind: PaintItemKind) -> nat {
    match kind {
        PaintItemKind::BeginGroup => depth + 1,
        PaintItemKind::EndGroup => if depth > 0 {
            (depth - 1) as nat
        } else {
            0
        },
        PaintItemKind::Other => depth,
    }
}

/// Chunk bounds cut so far, the group depth, and where the open chunk starts,
/// after the first `k` of `n` items.
pub open spec fn cut_state(items: Seq<PaintItem>, n: nat, k: nat) -> (res: (Seq<(int, int)>, nat, int))
    decreases k,
{
    if k == 0 {
        (Seq::empty(), 0, 0)
    } else {
        let (cuts, depth, start) = cut_state(items, n, (k - 1) as nat);
        let d = next_depth(depth, items[k - 1].kind);
        let end = k as int;
        if d == 0 && (end - start >= ITEMS_PER_CHUNK || end == n) {
            (cuts.push((start, end)), d, end)
        } else {
            (cuts, d, start)
        }
    }
}

/// The chunk bounds for `items`: runs of at least `ITEMS_PER_CHUNK` items
/// ending outside every group, and whatever is left at the end.
pub open spec fn chunk_bounds(items: Seq<PaintItem>) -> Seq<(int, int)> {
    let (cuts, _, start) = cut_state(items, items.len(), items.len());
    if start < items.len() {
        cuts.push((start, items.len() as int))
    } else {
        cuts
    }
}

/// Smallest top key of `items[start..end]`.
pub open spec fn min_top(items: Seq<PaintItem>, start: int, end: int) -> i64
    decreases end - start,
{
    if end <= start {
        i64::MAX
    } else {
        let rest = min_top(items, start, end - 1);
        if items[end - 1].top < rest {
            items[end - 1].top
        } else {
            rest
        }
    }
}

/// Largest bottom key of `items[start..end]`.
pub open spec fn max_bottom(items: Seq<PaintItem>, start: int, end: int) -> i64
    decreases end - start,
{
    if end <= start {
        i64::MIN
    } else {
        let rest = max_bottom(items, start, end - 1);
        if items[end - 1].bottom > rest {
            items[end - 1].bottom
        } else {
            rest
        }
    }
}

/// The cuts so far tile `0..start` in order and `start <= k`.
spec fn cuts_tile(cuts: Seq<(int, int)>, start: int, k: int) -> bool {
    &&& 0 <= start <= k
    &&& cuts.len() == 0 ==> start == 0
    &&& cuts.len() > 0 ==> cuts[0].0 == 0 && cuts.last().1 == start
    &&& forall|i: int| 0 <= i < cuts.len() ==> #[trigger] cuts[i].0 < cuts[i].1
    &&& forall|i: int| 0 <= i < cuts.len() - 1 ==> #[trigger] cuts[i].1 == cuts[i + 1].0
}

proof fn lemma_cut_state_tiles(items: Seq<PaintItem>, n: nat, k: nat)
    requires
        k <= n,
    ensures
        cuts_tile(cut_state(items, n, k).0, cut_state(items, n, k).2, k as int),
    decreases k,
{
    if k > 0 {
        lemma_cut_state_tiles(items, n, (k - 1) as nat);
        let (cuts, depth, start) = cut_state(items, n, (k - 1) as nat);
        let (c2, d2, s2) = cut_state(items, n, k);
        if c2.len() != cuts.len() {
            assert(c2 == cuts.push((start, k as int)));
            assert forall|i: int| 0 <= i < c2.len() - 1 implies #[trigger] c2[i].1 == c2[i + 1].0 by {
                if i < cuts.len() - 1 {
                    assert(c2[i] == cuts[i] && c2[i + 1] == cuts[i + 1]);
                }
            }
        }
    }
}

/// The chunks tile the item list: they start at zero, each begins where the
/// previous ends, none is empty, and the last ends at the last item.
pub proof fn lemma_chunks_tile(items: Seq<PaintItem>)
    requires
        items.len() > 0,
    ensures
        chunk_bounds(items).len() > 0,
        chunk_bounds(items)[0].0 == 0,
        chunk_bounds(items).last().1 == items.len(),
        forall|i: int| 0 <= i < chunk_bounds(items).len() ==> #[trigger] chunk_bounds(items)[i].0 < chunk_bounds(items)[i].1,
        forall|i: int|
            0 <= i < chunk_bounds(items).len() - 1 ==> #[trigger] chunk_bounds(items)[i].1 == chunk_bounds(items)[i
                + 1].0,
{
    let n = items.len();
    lemma_cut_state_tiles(items, n, n);
    let (cuts, _, start) = cut_state(items, n, n);
    if start < n {
        let b = cuts.push((start, n as int));
        assert(b == chunk_bounds(items));
        assert forall|i: int| 0 <= i < b.len() - 1 implies #[trigger] b[i].1 == b[i + 1].0 by {
            if i < cuts.len() - 1 {
                assert(b[i] == cuts[i] && b[i + 1] == cuts[i + 1]);
            }
        }
    }
}

/// Every cut but the last closes a run at group depth zero: groups are never
/// split between chunks.
pub proof fn lemma_cuts_outside_groups(items: Seq<PaintItem>, n: nat, k: nat, i: int)
    requires
        k <= n,
        0 <= i < cut_state(items, n, k).0.len(),
    ensures
        cut_state(items, n, cut_state(items, n, k).0[i].1 as nat).1 == 0,
    decreases k,
{
    if k > 0 {
        let (cuts, depth, start) = cut_state(items, n, (k - 1) as nat);
        if i < cuts.len() {
            lemma_cuts_outside_groups(items, n, (k - 1) as nat, i);
        } else {
            assert(cut_state(items, n, k).0[i] == (start, k as int));
        }
    }
}

/// A chunk's item range when it reaches the band `top..=bottom`.
pub open spec fn visible_range(top: i64, bottom: i64) -> spec_fn(PaintChunk) -> Option<(usize, usize)> {
    |c: PaintChunk|
        if c.bottom >= top && c.top <= bottom {
            Some((c.start, c.end))
        } else {
            None
        }
}

/// The index: chunks in item order.
pub struct PaintIndex {
    pub chunks: Vec<PaintChunk>,
}

/// The chunks `items` are cut into, each with its extent.
pub open spec fn chunks_of(items: Seq<PaintItem>) -> Seq<PaintChunk> {
    chunk_bounds(items).map_values(
        |b: (int, int)| PaintChunk { start: b.0 as usize, end: b.1 as usize, top: min_top(items, b.0, b.1), bottom: max_bottom(items, b.0, b.1) },
    )
}

fn chunk_for(items: &[PaintItem], start: usize, end: usize) -> (c: PaintChunk)
    requires
        start <= end <= items@.len(),
    ensures
        c == (PaintChunk { start, end, top: min_top(items@, start as int, end as int), bottom: max_bottom(items@, start as int, end as int) }),
{
    let mut top: i64 = i64::MAX;
    let mut bottom: i64 = i64::MIN;
    let mut i: usize = start;
    while i < end
        invariant
            start <= i <= end <= items@.len(),
            top == min_top(items@, start as int, i as int),
            bottom == max_bottom(items@, start as int, i as int),
        decreases end - i,
    {
        if items[i].top < top {
            top = items[i].top;
        }
        if items[i].bottom > bottom {
            bottom = items[i].bottom;
        }
        i = i + 1;
    }
    PaintChunk { start, end, top, bottom }
}

impl PaintIndex {
    pub fn new() -> (p: Self)
        ensures
            p.chunks@.len() == 0,
    {
        PaintIndex { chunks: Vec::new() }
    }

    /// Re-cuts the index for a new display list.
    pub fn rebuild(&mut self, items: &[PaintItem])
        ensures
            final(self).chunks@ == chunks_of(items@),
    {
        let n = items.len();
        let ghost all = items@;
        let mut chunks: Vec<PaintChunk> = Vec::new();
        let mut start: usize = 0;
        let mut depth: usize = 0;
        let mut k: usize = 0;
        proof {
            lemma_cut_state_tiles(all, n as nat, 0);
        }
        while k < n
            invariant
                all == items@,
                n == all.len(),
                k <= n,
                depth <= k,
                ({
                    let (cuts, d, s) = cut_state(all, n as nat, k as nat);
                    &&& d == depth
                    &&& s == start
                    &&& chunks@ == cuts.map_values(
                        |b: (int, int)| PaintChunk { start: b.0 as usize, end: b.1 as usize, top: min_top(all, b.0, b.1), bottom: max_bottom(all, b.0, b.1) },
                    )
                }),
                cuts_tile(cut_state(all, n as nat, k as nat).0, start as int, k as int),
            decreases n - k,
        {
            proof {
                lemma_cut_state_tiles(all, n as nat, (k + 1) as nat);
            }
            match items[k].kind {
                PaintItemKind::BeginGroup => {
                    depth = depth + 1;
                },
                PaintItemKind::EndGroup => {
                    if depth > 0 {
                        depth = depth - 1;
                    }
                },
                PaintItemKind::Other => {},
            }
            let end = k + 1;
            if depth == 0 && (end - start >= ITEMS_PER_CHUNK || end == n) {
                let c = chunk_for(items, start, end);
                let ghost before = chunks@;
                chunks.push(c);
                proof {
                    let (cuts, d, s) = cut_state(all, n as nat, k as nat);
                    let f = |b: (int, int)| PaintChunk { start: b.0 as usize, end: b.1 as usize, top: min_top(all, b.0, b.1), bottom: max_bottom(all, b.0, b.1) };
                    assert(cuts.push((s, end as int)).map_values(f) =~= before.push(c));
                }
                start = end;
            }
            k = end;
        }
        if start < n {
            let c = chunk_for(items, start, n);
            let ghost before = chunks@;
            chunks.push(c);
            proof {
                let (cuts, d, s) = cut_state(all, n as nat, n as nat);
                let f = |b: (int, int)| PaintChunk { start: b.0 as usize, end: b.1 as usize, top: min_top(all, b.0, b.1), bottom: max_bottom(all, b.0, b.1) };
                assert(cuts.push((s, n as int)).map_values(f) =~= before.push(c));
            }
        }
        self.chunks = chunks;
    }

    /// Item ranges of the chunks that reach the band `top..=bottom`, in order.
    pub fn visible_ranges(&self, top: i64, bottom: i64) -> (r: Vec<(usize, usize)>)
        ensures
            r@ == self.chunks@.filter_map(visible_range(top, bottom)),
    {
        let mut r: Vec<(usize, usize)> = Vec::new();
        let mut i: usize = 0;
        let ghost pick = visible_range(top, bottom);
        while i < self.chunks.len()
            invariant
                i <= self.chunks@.len(),
                pick == visible_range(top, bottom),
                r@ == self.chunks@.take(i as int).filter_map(pick),
            decreases self.chunks@.len() - i,
        {
            let c = self.chunks[i];
            proof {
                assert(self.chunks@.take(i + 1).drop_last() =~= self.chunks@.take(i as int));
                assert(self.chunks@.take(i + 1).last() == c);
            }
            let ghost before = r@;
            if c.bottom >= top && c.top <= bottom {
                r.push((c.start, c.end));
            }
            proof {
                if c.bottom >= top && c.top <= bottom {
                    assert(pick(c) == Some((c.start, c.end)));
                    assert(r@ =~= before + seq![(c.start, c.end)]);
                } else {
                    assert(pick(c) is None);
                }
                assert(r@ =~= self.chunks@.take(i + 1).filter_map(pick));
            }
            i = i + 1;
        }
        proof {
            assert(self.chunks@.take(self.chunks@.len() as int) =~= self.chunks@);
        }
        r
    }
}

} // verus!
