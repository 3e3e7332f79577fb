//! The integer decisions of painting the content surface: which region is
//! painted, which display items are skipped inside invisible opacity groups,
//! which reader lines are on screen, and what text a form control shows when
//! it is painted into a capture.
use crate::geometry::{fits_i32, max_int, Rect};
use crate::native_controls::{is_button_kind, ControlKind};
use crate::text::{chars_of, string_of};
use vstd::prelude::*;

verus! {

/// The region a paint pass covers: the invalidated rectangle when it is not
/// empty, else the whole client area.
pub fn paint_region(invalidated: Rect, client: Rect) -> (r: Rect)
    ensures
        r == if invalidated.right > invalidated.left && invalidated.bottom > invalidated.top {
            invalidated
        } else {
            client
        },
{
    if invalidated.right > invalidated.left && invalidated.bottom > invalidated.top {
        invalidated
    } else {
        client
    }
}

/// The painted region's vertical span in content coordinates (below the
/// toolbar), each end at least zero.
pub fn content_span(region: Rect, toolbar_height: i32) -> (span: (i32, i32))
    requires
        fits_i32(region.top - toolbar_height),
        fits_i32(region.bottom - toolbar_height),
    ensures
        span.0 == max_int(region.top - toolbar_height, 0),
        span.1 == max_int(region.bottom - toolbar_height, 0),
{
    let top = region.top - toolbar_height;
    let bottom = region.bottom - toolbar_height;
    (if top > 0 { top } else { 0 }, if bottom > 0 { bottom } else { 0 })
}

/// A display item as the opacity bookkeeping sees it.
#[derive(Clone, Copy, Debug, PartialEq, Eq, Structural)]
pub enum ItemClass {
    /// Opens an opacity group; `hidden` when it is fully transparent or
    /// entirely outside the painted region.
    BeginOpacity { hidden: bool },
    EndOpacity,
    Other,
}

/// One display item against the depth of hidden opacity groups it sits in:
/// whether it is painted, and the depth after it. Inside a hidden group
/// nothing is painted and nested groups are only counted.
pub open spec fn spec_opacity_step(depth: nat, item: ItemClass) -> (bool, nat) {
    if depth > 0 {
        (false, match item {
            ItemClass::BeginOpacity { .. } => depth + 1,
            ItemClass::EndOpacity => (depth - 1) as nat,
            ItemClass::Other => depth,
        })
    } else {
        match item {
            ItemClass::BeginOpacity { hidden: true } => (false, 1),
            _ => (true, 0),
        }
    }
}

pub fn opacity_step(depth: usize, item: ItemClass) -> (r: (bool, usize))
    requires
        depth < usize::MAX,
    ensures
        (r.0, r.1 as nat) == spec_opacity_step(depth as nat, item),
{
    if depth > 0 {
        let next = match item {
            ItemClass::BeginOpacity { .. } => depth + 1,
            ItemClass::EndOpacity => depth - 1,
            ItemClass::Other => depth,
        };
        (false, next)
    } else {
        match item {
            ItemClass::BeginOpacity { hidden: true } => (false, 1),
            _ => (true, 0),
        }
    }
}

/// How an item changes the nesting of opacity groups.
pub open spec fn nesting_delta(item: ItemClass) -> int {
    match item {
        ItemClass::BeginOpacity { .. } => 1,
        ItemClass::EndOpacity => -1,
        ItemClass::Other => 0,
    }
}

/// The net nesting change of a run of items.
pub open spec fn nesting(items: Seq<ItemClass>) -> int
    decreases items.len(),
{
    if items.len() == 0 {
        0
    } else {
        nesting_delta(items[0]) + nesting(items.drop_first())
    }
}

/// Every group opened in `items` is closed in it, and none is closed before it opens.
pub open spec fn balanced(items: Seq<ItemClass>) -> bool {
    &&& nesting(items) == 0
    &&& forall|k: int| 0 <= k <= items.len() ==> nesting(#[trigger] items.take(k)) >= 0
}

/// `opacity_step` applied along `items` from `depth`: which items are painted,
/// and the depth at the end.
pub open spec fn run_opacity(items: Seq<ItemClass>, depth: nat) -> (Seq<bool>, nat)
    decreases items.len(),
{
    if items.len() == 0 {
        (Seq::empty(), depth)
    } else {
        let (painted, next) = spec_opacity_step(depth, items[0]);
        let (rest, last) = run_opacity(items.drop_first(), next);
        (seq![painted] + rest, last)
    }
}

proof fn lemma_nesting_take_step(items: Seq<ItemClass>, k: int)
    requires
        0 <= k < items.len(),
    ensures
        nesting(items.take(k + 1)) == nesting_delta(items[0]) + nesting(items.drop_first().take(k)),
{
    assert(items.take(k + 1).drop_first() =~= items.drop_first().take(k));
}

/// Inside hidden groups (depth at least one all along) nothing is painted,
/// and the depth follows the nesting.
proof fn lemma_skipped_run(items: Seq<ItemClass>, depth: nat)
    requires
        depth >= 1,
        forall|k: int| 0 <= k <= items.len() ==> depth + nesting(#[trigger] items.take(k)) >= 1,
    ensures
        run_opacity(items, depth).0 == Seq::new(items.len(), |i: int| false),
        run_opacity(items, depth).1 == depth + nesting(items),
    decreases items.len(),
{
    if items.len() == 0 {
        assert(run_opacity(items, depth).0 =~= Seq::new(items.len(), |i: int| false));
    } else {
        lemma_nesting_take_step(items, 0);
        assert(items.take(1).drop_first() =~= Seq::<ItemClass>::empty());
        assert(depth + nesting(items.take(1)) >= 1);
        let next = spec_opacity_step(depth, items[0]).1;
        assert(next == depth + nesting_delta(items[0]));
        let rest = items.drop_first();
        assert forall|k: int| 0 <= k <= rest.len() implies next + nesting(#[trigger] rest.take(k)) >= 1 by {
            lemma_nesting_take_step(items, k);
            assert(depth + nesting(items.take(k + 1)) >= 1);
        }
        lemma_skipped_run(rest, next);
        assert(run_opacity(items, depth).0 =~= Seq::new(items.len(), |i: int| false));
    }
}

/// Nothing between a hidden opacity group's start and its matching end is
/// painted, and painting resumes after the end at the depth it had before.
pub proof fn lemma_hidden_group_is_skipped(inner: Seq<ItemClass>)
    requires
        balanced(inner),
    ensures
        ({
            let group = seq![ItemClass::BeginOpacity { hidden: true }] + inner + seq![ItemClass::EndOpacity];
            &&& run_opacity(group, 0).0 == Seq::new(group.len(), |i: int| false)
            &&& run_opacity(group, 0).1 == 0
        }),
{
    let group = seq![ItemClass::BeginOpacity { hidden: true }] + inner + seq![ItemClass::EndOpacity];
    let tail = group.drop_first();
    assert(tail =~= inner + seq![ItemClass::EndOpacity]);
    assert forall|k: int| 0 <= k <= inner.len() implies 1 + nesting(#[trigger] inner.take(k)) >= 1 by {}
    lemma_skipped_run(inner, 1);
    lemma_run_append(inner, seq![ItemClass::EndOpacity], 1);
    let end = seq![ItemClass::EndOpacity];
    assert(end.drop_first() =~= Seq::<ItemClass>::empty());
    assert(run_opacity(end.drop_first(), 0) == (Seq::<bool>::empty(), 0nat));
    assert(run_opacity(end, 1).0 =~= seq![false]);
    assert(run_opacity(end, 1).1 == 0);
    assert(run_opacity(tail, 1).0 =~= Seq::new(tail.len(), |i: int| false));
    assert(group[0] == ItemClass::BeginOpacity { hidden: true });
    assert(spec_opacity_step(0, group[0]) == (false, 1nat));
    assert(run_opacity(group, 0).0 =~= Seq::new(group.len(), |i: int| false));
}

/// Running over two runs one after the other is running over their concatenation.
proof fn lemma_run_append(a: Seq<ItemClass>, b: Seq<ItemClass>, depth: nat)
    ensures
        run_opacity(a + b, depth).0 == run_opacity(a, depth).0 + run_opacity(b, run_opacity(a, depth).1).0,
        run_opacity(a + b, depth).1 == run_opacity(b, run_opacity(a, depth).1).1,
    decreases a.len(),
{
    if a.len() == 0 {
        assert(a + b =~= b);
        assert(run_opacity(a, depth).0 + run_opacity(b, depth).0 =~= run_opacity(b, depth).0);
    } else {
        let next = spec_opacity_step(depth, a[0]).1;
        assert((a + b).drop_first() =~= a.drop_first() + b);
        assert((a + b)[0] == a[0]);
        lemma_run_append(a.drop_first(), b, next);
        assert(run_opacity(a + b, depth).0 =~= run_opacity(a, depth).0 + run_opacity(b, run_opacity(a, depth).1).0);
    }
}

/// Whether a reader line at content offset `y` with `height` shows in the
/// content area `content_top..=content_bottom` at scroll offset `scroll_y`.
pub open spec fn spec_line_visible(y: int, height: int, scroll_y: int, toolbar_height: int, content_top: int, content_bottom: int) -> bool {
    let screen_y = toolbar_height + y - scroll_y;
    !(screen_y + height < content_top || screen_y > content_bottom)
}

pub fn line_visible(y: i32, height: i32, scroll_y: i32, toolbar_height: i32, content_top: i32, content_bottom: i32) -> (b: bool)
    requires
        fits_i32(toolbar_height + y),
        fits_i32(toolbar_height + y - scroll_y),
        fits_i32(toolbar_height + y - scroll_y + height),
    ensures
        b == spec_line_visible(y as int, height as int, scroll_y as int, toolbar_height as int, content_top as int, content_bottom as int),
{
    let screen_y = toolbar_height + y - scroll_y;
    !(screen_y + height < content_top || screen_y > content_bottom)
}

/// The text a form control shows when drawn into a capture: bullets for a
/// password, else its value, or when that is empty its label (selects and
/// buttons) or its placeholder.
pub open spec fn spec_control_text(kind: ControlKind, value: Seq<char>, label: Seq<char>, placeholder: Seq<char>) -> Seq<char> {
    if kind == ControlKind::Password {
        Seq::new(value.len(), |i: int| '•')
    } else if value.len() == 0 {
        if kind == ControlKind::Select || is_button_kind(kind) {
            label
        } else {
            placeholder
        }
    } else {
        value
    }
}

pub fn control_text(kind: ControlKind, value: &str, label: &str, placeholder: &str) -> (s: String)
    ensures
        s@ == spec_control_text(kind, value@, label@, placeholder@),
{
    let chars = chars_of(value);
    match kind {
        ControlKind::Password => {
            let mut out: Vec<char> = Vec::new();
            let mut i: usize = 0;
            while i < chars.len()
                invariant
                    i <= chars.len(),
                    out@ == Seq::new(i as nat, |k: int| '•'),
                decreases chars.len() - i,
            {
                out.push('•');
                i = i + 1;
                assert(out@ =~= Seq::new(i as nat, |k: int| '•'));
            }
            string_of(out.as_slice())
        },
        _ => {
            if chars.len() == 0 {
                match kind {
                    ControlKind::Select | ControlKind::Submit | ControlKind::Button | ControlKind::Reset => label.to_owned(),
                    _ => placeholder.to_owned(),
                }
            } else {
                value.to_owned()
            }
        },
    }
}

} // verus!
