//! Native edit controls placed over page form fields: when a restyle must
//! rebuild them.
use vstd::prelude::*;

verus! {

/// A form control of the page's display list.
pub struct ControlItem<C> {
    /// The page paints the control itself; no native control stands for it.
    pub authored_content: bool,
    pub spec: C,
}

/// A control's spec when it gets a native window.
pub open spec fn native_pick<C>() -> spec_fn(ControlItem<C>) -> Option<C> {
    |i: ControlItem<C>| if i.authored_content { None } else { Some(i.spec) }
}

/// The controls that get a native window, in display-list order.
pub open spec fn native_specs<C>(items: Seq<ControlItem<C>>) -> Seq<C> {
    items.filter_map(native_pick())
}

/// Whether the native controls of a new layout differ from the old ones:
/// compared in order, two controls are the same when `same` says so (it
/// ignores position and live text), and a different number of controls is a
/// change.
pub fn native_controls_changed<C, F: Fn(&C, &C) -> bool>(old: &Vec<ControlItem<C>>, new: &Vec<ControlItem<C>>, same: F) -> (changed: bool)
    requires
        forall|a: &C, b: &C| #[trigger] same.requires((a, b)),
    ensures
        !changed ==> native_specs(old@).len() == native_specs(new@).len() && forall|i: int|
            0 <= i < native_specs(old@).len() ==> #[trigger] same.ensures(
                (&native_specs(old@)[i], &native_specs(new@)[i]),
                true,
            ),
        changed ==> native_specs(old@).len() != native_specs(new@).len() || exists|i: int|
            0 <= i < native_specs(old@).len() && i < native_specs(new@).len() && #[trigger] same.ensures(
                (&native_specs(old@)[i], &native_specs(new@)[i]),
                false,
            ),
        (forall|a: &C, b: &C| #[trigger] same.ensures((a, b), true) != same.ensures((a, b), false))
            ==> changed == differs_by(old@, new@, same),
{
    let mut a: Vec<&C> = Vec::new();
    let mut i: usize = 0;
    let ghost pick = native_pick::<C>();
    while i < old.len()
        invariant
            i <= old@.len(),
            pick == native_pick::<C>(),
            a@.len() == old@.take(i as int).filter_map(pick).len(),
            forall|k: int| 0 <= k < a@.len() ==> *a@[k] == old@.take(i as int).filter_map(pick)[k],
        decreases old@.len() - i,
    {
        proof {
            assert(old@.take(i + 1).drop_last() =~= old@.take(i as int));
            assert(old@.take(i + 1).last() == old@[i as int]);
        }
        if !old[i].authored_content {
            a.push(&old[i].spec);
        }
        i = i + 1;
    }
    assert(old@.take(old@.len() as int) =~= old@);
    let mut b: Vec<&C> = Vec::new();
    let mut j: usize = 0;
    while j < new.len()
        invariant
            j <= new@.len(),
            pick == native_pick::<C>(),
            b@.len() == new@.take(j as int).filter_map(pick).len(),
            forall|k: int| 0 <= k < b@.len() ==> *b@[k] == new@.take(j as int).filter_map(pick)[k],
        decreases new@.len() - j,
    {
        proof {
            assert(new@.take(j + 1).drop_last() =~= new@.take(j as int));
            assert(new@.take(j + 1).last() == new@[j as int]);
        }
        if !new[j].authored_content {
            b.push(&new[j].spec);
        }
        j = j + 1;
    }
    assert(new@.take(new@.len() as int) =~= new@);
    let mut k: usize = 0;
    while k < a.len() && k < b.len()
        invariant
            k <= a@.len(),
            k <= b@.len(),
            forall|x: &C, y: &C| #[trigger] same.requires((x, y)),
            a@.len() == native_specs(old@).len(),
            b@.len() == native_specs(new@).len(),
            forall|m: int| 0 <= m < a@.len() ==> *a@[m] == native_specs(old@)[m],
            forall|m: int| 0 <= m < b@.len() ==> *b@[m] == native_specs(new@)[m],
            forall|m: int| 0 <= m < k ==> #[trigger] same.ensures((a@[m], b@[m]), true),
        decreases a@.len() - k,
    {
        let equal = same(a[k], b[k]);
        if !equal {
            assert(same.ensures((&native_specs(old@)[k as int], &native_specs(new@)[k as int]), false));
            return true;
        }
        k = k + 1;
    }
    proof {
        if a@.len() == b@.len() {
            assert forall|i: int| 0 <= i < native_specs(old@).len() implies #[trigger] same.ensures(
                (&native_specs(old@)[i], &native_specs(new@)[i]),
                true,
            ) by {
                assert(same.ensures((a@[i], b@[i]), true));
            }
            if forall|x: &C, y: &C| #[trigger] same.ensures((x, y), true) != same.ensures((x, y), false) {
                assert forall|i: int| 0 <= i < native_specs(old@).len() implies !#[trigger] same.ensures(
                    (&native_specs(old@)[i], &native_specs(new@)[i]),
                    false,
                ) by {
                    assert(same.ensures((a@[i], b@[i]), true));
                }
            }
        }
    }
    a.len() != b.len()
}

/// The native controls of two layouts differ: their numbers differ, or `same`
/// can answer `false` for two controls at one position.
pub open spec fn differs_by<C, F: Fn(&C, &C) -> bool>(old: Seq<ControlItem<C>>, new: Seq<ControlItem<C>>, same: F) -> bool {
    native_specs(old).len() != native_specs(new).len() || exists|i: int|
        0 <= i < native_specs(old).len() && #[trigger] same.ensures(
            (&native_specs(old)[i], &native_specs(new)[i]),
            false,
        )
}

/// With a symmetric comparison, whether the controls changed does not depend
/// on which layout is the old one.
pub proof fn lemma_change_is_symmetric<C, F: Fn(&C, &C) -> bool>(old: Seq<ControlItem<C>>, new: Seq<ControlItem<C>>, same: F)
    requires
        forall|a: &C, b: &C, r: bool| #[trigger] same.ensures((a, b), r) == same.ensures((b, a), r),
    ensures
        differs_by(old, new, same) == differs_by(new, old, same),
{
    let a = native_specs(old);
    let b = native_specs(new);
    if a.len() == b.len() {
        if exists|i: int| 0 <= i < a.len() && #[trigger] same.ensures((&a[i], &b[i]), false) {
            let i = choose|i: int| 0 <= i < a.len() && #[trigger] same.ensures((&a[i], &b[i]), false);
            assert(same.ensures((&b[i], &a[i]), false));
        }
        if exists|i: int| 0 <= i < b.len() && #[trigger] same.ensures((&b[i], &a[i]), false) {
            let i = choose|i: int| 0 <= i < b.len() && #[trigger] same.ensures((&b[i], &a[i]), false);
            assert(same.ensures((&a[i], &b[i]), false));
        }
    }
}

} // verus!
